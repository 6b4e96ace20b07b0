use iocraft::{ComponentUpdater, Element, FlexDirection, Poll, Static, StaticProps};

fn text(s: &str) -> Element {
    Element::text(s.to_string())
}

#[test]
fn test_static_empty() {
    let output = Static::render(StaticProps::default());
    assert_eq!(output, "");
}

#[test]
fn test_static_with_items() {
    let items = vec!["Item 1".to_string(), "Item 2".to_string()];
    let output = Static::render(StaticProps::new(items, vec![]));
    assert_eq!(output, "Item 1\nItem 2\n");
}

#[test]
fn test_static_incremental_rendering() {
    let items = vec![
        "First item".to_string(),
        "Second item".to_string(),
        "Third item".to_string(),
    ];
    let output = Static::render(StaticProps::new(items, vec![]));
    assert_eq!(output, "First item\nSecond item\nThird item\n");
}

#[test]
fn test_static_with_children() {
    let children = vec![text("Child 1"), text("Child 2")];
    let output = Static::render(StaticProps::new(vec![], children));
    assert_eq!(output, "Child 1\nChild 2\n");
}

#[test]
fn test_static_mixed_items_and_children() {
    let items = vec!["Item".to_string()];
    let children = vec![text("Child")];
    let output = Static::render(StaticProps::new(items, children));
    assert_eq!(output, "Item\nChild\n");
}

fn pass(component: &mut Static, items: &[&str], children: Vec<Element>) -> (String, StaticProps) {
    let mut props = StaticProps::new(items.iter().map(|s| s.to_string()).collect(), children);
    let mut updater = ComponentUpdater::new();
    component.update(&mut props, &mut updater);
    assert_eq!(updater.layout_style().flex_direction, FlexDirection::Column);
    (updater.to_string(), props)
}

#[test]
fn appended_items_are_committed_once_across_passes() {
    let mut component = Static::new(&StaticProps::default());
    let (out, _) = pass(&mut component, &["a"], vec![]);
    assert_eq!(out, "a\n");
    let (out, _) = pass(&mut component, &["a"], vec![]);
    assert_eq!(out, "a\n");
    let (out, _) = pass(&mut component, &["a", "b", "c"], vec![]);
    assert_eq!(out, "a\nb\nc\n");
    let (out, _) = pass(&mut component, &["a", "b", "c", "d"], vec![]);
    assert_eq!(out, "a\nb\nc\nd\n");
}

#[test]
fn edits_to_committed_items_are_ignored() {
    let mut component = Static::new(&StaticProps::default());
    let (out, _) = pass(&mut component, &["one", "two"], vec![]);
    assert_eq!(out, "one\ntwo\n");
    let (out, _) = pass(&mut component, &["ONE", "TWO"], vec![]);
    assert_eq!(out, "one\ntwo\n");
    let (out, _) = pass(&mut component, &["ONE", "TWO", "three"], vec![]);
    assert_eq!(out, "one\ntwo\nthree\n");
}

#[test]
fn shrinking_items_keeps_committed_output() {
    let mut component = Static::new(&StaticProps::default());
    pass(&mut component, &["x", "y"], vec![]);
    let (out, _) = pass(&mut component, &[], vec![]);
    assert_eq!(out, "x\ny\n");
}

#[test]
fn children_are_taken_once_and_kept() {
    let mut component = Static::new(&StaticProps::default());
    let (out, props) = pass(&mut component, &["i1"], vec![text("c1")]);
    assert_eq!(out, "i1\nc1\n");
    assert!(props.children.is_empty());
    assert_eq!(props.items, vec!["i1".to_string()]);
    let (out, props) = pass(&mut component, &["i1", "i2"], vec![text("c1"), text("c2")]);
    assert_eq!(out, "i1\nc1\ni2\nc2\n");
    assert_eq!(props.children.len(), 1);
    let (out, props) = pass(&mut component, &["i1", "i2"], vec![text("c1"), text("c2")]);
    assert_eq!(out, "i1\nc1\ni2\nc2\n");
    assert_eq!(props.children.len(), 2);
}

#[test]
fn static_never_asks_for_a_repaint() {
    let component = Static::new(&StaticProps::default());
    assert_eq!(component.poll_change(), Poll::Pending);
}

#[test]
fn fresh_updater_has_row_layout_and_no_children() {
    let updater = ComponentUpdater::new();
    assert_eq!(updater.layout_style().flex_direction, FlexDirection::Row);
    assert_eq!(updater.to_string(), "");
}
