//! `Static`: output that is committed once, above everything else, and never
//! repainted.
use crate::element::{column, element_lines, lemma_text_lines, string_lines, texts, Element};
use crate::layout::{FlexDirection, LayoutStyle};
use crate::updater::{ComponentUpdater, Poll};
use vstd::prelude::*;

verus! {

/// The props of a [`Static`] component.
#[non_exhaustive]
pub struct StaticProps {
    /// Text items, one line each; only those past the ones already committed
    /// are rendered.
    pub items: Vec<String>,
    /// Child elements; each is taken over once and kept.
    pub children: Vec<Element>,
}

impl StaticProps {
    /// Props with the given items and children.
    pub fn new(items: Vec<String>, children: Vec<Element>) -> (r: StaticProps)
        ensures
            r.items == items,
            r.children == children,
    {
        StaticProps { items, children }
    }
}

impl Default for StaticProps {
    fn default() -> (r: StaticProps)
        ensures
            r.items@.len() == 0,
            r.children@.len() == 0,
    {
        StaticProps { items: Vec::new(), children: Vec::new() }
    }
}

/// The items of `items` that a pass commits, given those already committed:
/// the suffix past their count.
pub open spec fn new_items(done: Seq<String>, items: Seq<String>) -> Seq<String> {
    if done.len() < items.len() {
        items.subrange(done.len() as int, items.len() as int)
    } else {
        Seq::empty()
    }
}

/// How many children have been committed: every committed element that did
/// not come from an item.
pub open spec fn children_done(done: Seq<String>, elements: Seq<Element>) -> int {
    elements.len() - done.len()
}

/// The children that a pass commits: those past the committed count.
pub open spec fn new_children(done: Seq<String>, elements: Seq<Element>, children: Seq<Element>) -> Seq<Element> {
    let k = children_done(done, elements);
    if k < children.len() {
        children.subrange(k, children.len() as int)
    } else {
        Seq::empty()
    }
}

/// The children that a pass leaves in the props: the ones it did not take.
pub open spec fn kept_children(done: Seq<String>, elements: Seq<Element>, children: Seq<Element>) -> Seq<Element> {
    let k = children_done(done, elements);
    if k < children.len() {
        children.subrange(0, k)
    } else {
        children
    }
}

/// The committed items after a pass.
pub open spec fn next_items(done: Seq<String>, items: Seq<String>) -> Seq<String> {
    done + new_items(done, items)
}

/// The committed elements after a pass: the earlier ones, then a `Text` for
/// each new item, then the new children.
pub open spec fn next_elements(
    done: Seq<String>,
    elements: Seq<Element>,
    items: Seq<String>,
    children: Seq<Element>,
) -> Seq<Element> {
    elements + texts(new_items(done, items)) + new_children(done, elements, children)
}

/// The committed items and elements of a fresh component after one pass for
/// each list of items, in order, with no children.
pub open spec fn after_item_passes(passes: Seq<Seq<String>>) -> (Seq<String>, Seq<Element>)
    decreases passes.len(),
{
    if passes.len() == 0 {
        (Seq::empty(), Seq::empty())
    } else {
        let before = after_item_passes(passes.drop_last());
        (
            next_items(before.0, passes.last()),
            next_elements(before.0, before.1, passes.last(), Seq::empty()),
        )
    }
}

/// Items are only ever appended: each list is a prefix of the next.
pub open spec fn append_only(passes: Seq<Seq<String>>) -> bool {
    forall|i: int|
        0 <= i < passes.len() - 1 ==> #[trigger] passes[i].len() <= passes[i + 1].len()
            && passes[i] == passes[i + 1].subrange(0, passes[i].len() as int)
}

/// However many passes run between appends, when items are only appended
/// the committed output is each item's line exactly once, in order.
pub proof fn lemma_append_only_commits_each_once(passes: Seq<Seq<String>>)
    requires
        passes.len() > 0,
        append_only(passes),
    ensures
        after_item_passes(passes).0 == passes.last(),
        after_item_passes(passes).1 == texts(passes.last()),
        column(element_lines(after_item_passes(passes).1)) == column(string_lines(passes.last())),
    decreases passes.len(),
{
    let last = passes.last();
    let before = after_item_passes(passes.drop_last());
    let none = Seq::<Element>::empty();
    if passes.len() == 1 {
        assert(next_items(before.0, last) =~= last);
        assert(new_children(before.0, before.1, none) =~= none);
        assert(next_elements(before.0, before.1, last, none) =~= texts(last));
    } else {
        let rest = passes.drop_last();
        assert forall|i: int| 0 <= i < rest.len() - 1 implies #[trigger] rest[i].len() <= rest[i
            + 1].len() && rest[i] == rest[i + 1].subrange(0, rest[i].len() as int) by {
            assert(rest[i] == passes[i] && rest[i + 1] == passes[i + 1]);
        }
        lemma_append_only_commits_each_once(rest);
        let p = rest.last();
        assert(p == passes[passes.len() - 2]);
        assert(next_items(before.0, last) =~= last);
        assert(new_children(before.0, before.1, none) =~= none);
        assert(texts(p) + texts(new_items(p, last)) =~= texts(last));
        assert(next_elements(before.0, before.1, last, none) =~= texts(last));
    }
    lemma_text_lines(last);
}

/// Edits to items that are already committed change nothing on the next
/// pass: neither the committed items nor the output.
pub proof fn lemma_committed_edits_ignored(
    done: Seq<String>,
    elements: Seq<Element>,
    items: Seq<String>,
    edited: Seq<String>,
    children: Seq<Element>,
)
    requires
        done.len() <= elements.len(),
        edited.len() <= next_items(done, items).len(),
    ensures
        next_items(next_items(done, items), edited) == next_items(done, items),
        next_elements(
            next_items(done, items),
            next_elements(done, elements, items, children),
            edited,
            children,
        ) == next_elements(done, elements, items, children),
{
    let d1 = next_items(done, items);
    let e1 = next_elements(done, elements, items, children);
    assert(new_items(d1, edited) =~= Seq::<String>::empty());
    assert(d1 + Seq::<String>::empty() =~= d1);
    assert(new_children(d1, e1, children) =~= Seq::<Element>::empty());
    assert(texts(Seq::<String>::empty()) =~= Seq::<Element>::empty());
    assert(e1 + Seq::<Element>::empty() + Seq::<Element>::empty() =~= e1);
}

/// A component that renders its output permanently above everything else.
///
/// Only items of `items` past those already rendered are rendered: changes to
/// earlier items trigger no repaint. Children are taken over once and kept.
pub struct Static {
    rendered_items: Vec<String>,
    rendered_elements: Vec<Element>,
}

impl Default for Static {
    /// A component with nothing committed.
    fn default() -> (r: Static)
        ensures
            r.wf(),
            r.items() == Seq::<String>::empty(),
            r.elements() == Seq::<Element>::empty(),
    {
        Static { rendered_items: Vec::new(), rendered_elements: Vec::new() }
    }
}

impl Static {
    /// The items committed so far, in order.
    pub closed spec fn items(&self) -> Seq<String> {
        self.rendered_items@
    }

    /// The elements committed so far, in order.
    pub closed spec fn elements(&self) -> Seq<Element> {
        self.rendered_elements@
    }

    /// Each committed item has its own committed element.
    pub closed spec fn wf(&self) -> bool {
        self.rendered_items@.len() <= self.rendered_elements@.len()
    }

    /// A component with nothing committed; it reads its props only when
    /// updated.
    pub fn new(props: &StaticProps) -> (r: Static)
        ensures
            r.wf(),
            r.items() == Seq::<String>::empty(),
            r.elements() == Seq::<Element>::empty(),
    {
        Static::default()
    }

    /// One render pass: commits the new items, then takes over the new
    /// children, sets a column layout and declares every committed element as
    /// a child, top to bottom.
    pub fn update(&mut self, props: &mut StaticProps, updater: &mut ComponentUpdater)
        requires
            old(self).wf(),
        ensures
            final(self).wf(),
            final(self).items() == next_items(old(self).items(), old(props).items@),
            final(self).elements() == next_elements(
                old(self).items(),
                old(self).elements(),
                old(props).items@,
                old(props).children@,
            ),
            final(props).items == old(props).items,
            final(props).children@ == kept_children(
                old(self).items(),
                old(self).elements(),
                old(props).children@,
            ),
            final(updater).style().flex_direction == FlexDirection::Column,
            final(updater).lines() == element_lines(final(self).elements()),
    {
        let ghost done0 = self.rendered_items@;
        let ghost elements0 = self.rendered_elements@;
        let ghost fresh = new_items(done0, props.items@);
        let start = self.rendered_items.len();
        let mut i: usize = start;
        if i > props.items.len() {
            i = props.items.len();
        }
        let from = i;
        proof {
            assert(self.rendered_items@ =~= done0 + props.items@.subrange(from as int, i as int));
            assert(self.rendered_elements@ =~= elements0 + texts(
                props.items@.subrange(from as int, i as int),
            ));
        }
        while i < props.items.len()
            invariant
                start == done0.len(),
                from == if start <= props.items.len() { start } else { props.items.len() },
                from <= i <= props.items.len(),
                self.rendered_items@ == done0 + props.items@.subrange(from as int, i as int),
                self.rendered_elements@ == elements0 + texts(
                    props.items@.subrange(from as int, i as int),
                ),
            decreases props.items.len() - i,
        {
            let item = props.items[i].clone();
            let element = Element::text(item.clone());
            self.rendered_elements.push(element);
            self.rendered_items.push(item);
            proof {
                let seen = props.items@.subrange(from as int, i + 1);
                assert(seen.drop_last() =~= props.items@.subrange(from as int, i as int));
                assert(texts(seen) =~= texts(seen.drop_last()).push(Element::Text(seen.last())));
                assert(self.rendered_items@ =~= done0 + seen);
                assert(self.rendered_elements@ =~= elements0 + texts(seen));
            }
            i = i + 1;
        }
        proof {
            if start < props.items.len() {
                assert(self.rendered_items@ =~= done0 + fresh);
            } else {
                assert(props.items@.subrange(from as int, i as int) =~= fresh);
            }
            assert(self.rendered_items@ =~= done0 + fresh);
            assert(self.rendered_elements@ =~= elements0 + texts(fresh));
        }
        let committed = self.rendered_elements.len() - self.rendered_items.len();
        if props.children.len() > committed {
            let mut taken = props.children.split_off(committed);
            self.rendered_elements.append(&mut taken);
        } else {
            proof {
                assert(self.rendered_elements@ =~= elements0 + texts(fresh) + Seq::<Element>::empty());
            }
        }
        updater.set_layout_style(LayoutStyle::column());
        updater.update_children(&self.rendered_elements);
    }

    /// Paints a fresh component given these props in one pass: the items,
    /// then the children, one line each.
    pub fn render(props: StaticProps) -> (r: String)
        ensures
            r@ == column(string_lines(props.items@) + element_lines(props.children@)),
    {
        let mut props = props;
        let ghost items = props.items@;
        let ghost children = props.children@;
        let mut component = Static::new(&props);
        let mut updater = ComponentUpdater::new();
        component.update(&mut props, &mut updater);
        proof {
            let empty_items = Seq::<String>::empty();
            let empty_elements = Seq::<Element>::empty();
            if 0 < items.len() {
                assert(new_items(empty_items, items) =~= items);
            } else {
                assert(new_items(empty_items, items) =~= items);
            }
            assert(new_children(empty_items, empty_elements, children) =~= children);
            assert(component.elements() =~= texts(items) + children);
            lemma_text_lines(items);
            assert(element_lines(texts(items) + children) =~= element_lines(texts(items))
                + element_lines(children));
        }
        updater.to_string()
    }

    /// Whether the component asks for a repaint on its own: never.
    pub fn poll_change(&self) -> (r: Poll)
        ensures
            r == Poll::Pending,
    {
        Poll::Pending
    }
}

} // verus!
