//! The handle through which a component declares its layout and children.
use crate::element::{column, element_lines, string_lines, render_column, Element};
use crate::layout::{FlexDirection, LayoutStyle};
use vstd::prelude::*;
use vstd::string::*;

verus! {

/// Whether a component asks for a repaint outside of its hooks.
#[derive(Clone, Copy, Debug, PartialEq, Eq, Structural)]
pub enum Poll {
    /// A repaint is wanted.
    Ready,
    /// Nothing changed.
    Pending,
}

/// What one component declared in its last update: the style of its own
/// layout node, and the resolved lines of its children, top to bottom.
pub struct ComponentUpdater {
    layout_style: LayoutStyle,
    child_lines: Vec<String>,
}

impl ComponentUpdater {
    /// The solver's default style.
    pub closed spec fn style(&self) -> LayoutStyle {
        self.layout_style
    }

    /// The lines of the declared children, in order.
    pub closed spec fn lines(&self) -> Seq<Seq<char>> {
        string_lines(self.child_lines@)
    }

    /// An updater with the default style and no children.
    pub fn new() -> (r: ComponentUpdater)
        ensures
            r.style().flex_direction == FlexDirection::Row,
            r.lines() == Seq::<Seq<char>>::empty(),
    {
        let r = ComponentUpdater { layout_style: LayoutStyle::row(), child_lines: Vec::new() };
        assert(r.lines() =~= Seq::<Seq<char>>::empty());
        r
    }

    /// The layout style last set.
    pub fn layout_style(&self) -> (r: LayoutStyle)
        ensures
            r == self.style(),
    {
        self.layout_style
    }

    /// Replaces the style of the component's layout node.
    pub fn set_layout_style(&mut self, style: LayoutStyle)
        ensures
            final(self).style() == style,
            final(self).lines() == old(self).lines(),
    {
        self.layout_style = style;
    }

    /// Declares the component's children, in order; each is resolved to the
    /// line it paints.
    pub fn update_children(&mut self, children: &Vec<Element>)
        ensures
            final(self).style() == old(self).style(),
            final(self).lines() == element_lines(children@),
    {
        let mut lines: Vec<String> = Vec::new();
        let mut i: usize = 0;
        while i < children.len()
            invariant
                i <= children.len(),
                lines@.len() == i,
                string_lines(lines@) == element_lines(children@.subrange(0, i as int)),
            decreases children.len() - i,
        {
            let line = String::from_str(children[i].line());
            let ghost before = lines@;
            lines.push(line);
            proof {
                let done = element_lines(children@.subrange(0, i + 1));
                assert forall|j: int| 0 <= j < i + 1 implies #[trigger] string_lines(lines@)[j]
                    == done[j] by {
                    if j < i {
                        assert(lines@[j] == before[j]);
                        assert(string_lines(before)[j] == element_lines(
                            children@.subrange(0, i as int),
                        )[j]);
                    }
                }
                assert(string_lines(lines@) =~= done);
            }
            i = i + 1;
        }
        assert(children@.subrange(0, children.len() as int) =~= children@);
        self.child_lines = lines;
    }

    /// Paints the declared children stacked in a column.
    pub fn to_string(&self) -> (r: String)
        ensures
            r@ == column(self.lines()),
    {
        render_column(&self.child_lines)
    }
}

} // verus!
