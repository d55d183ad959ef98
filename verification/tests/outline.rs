use typst_preview::debug_loc::DocumentPosition;
use typst_preview::outline::{get_outline, outline, span_to_hex, HeadingNode, OutlineItem, DETACHED_SPAN};

fn heading(title: &str, level: usize, bookmarked: bool) -> HeadingNode {
    HeadingNode::leaf(
        title.to_owned(),
        0x10 + level as u64,
        0x20 + level as u64,
        DocumentPosition::new(level, 0, 0),
        level,
        Some(bookmarked),
        true,
    )
}

fn shape(nodes: &[HeadingNode]) -> String {
    let mut out = String::new();
    for node in nodes {
        out.push_str(&node.body);
        if !node.children.is_empty() {
            out.push('(');
            out.push_str(&shape(&node.children));
            out.push(')');
        }
        out.push(' ');
    }
    out.trim_end().to_owned()
}

fn item_shape(items: &[OutlineItem]) -> String {
    let mut out = String::new();
    for item in items {
        out.push_str(&item.title);
        if !item.children.is_empty() {
            out.push('(');
            out.push_str(&item_shape(&item.children));
            out.push(')');
        }
        out.push(' ');
    }
    out.trim_end().to_owned()
}

#[test]
fn headings_nest_by_level() {
    let tree = get_outline(vec![
        heading("a", 1, true),
        heading("b", 2, true),
        heading("c", 3, true),
        heading("d", 2, true),
        heading("e", 1, true),
        heading("f", 2, true),
    ])
    .expect("an outline");
    assert_eq!(shape(&tree), "a(b(c) d) e(f)");
}

#[test]
fn no_bookmarked_heading_gives_no_outline() {
    assert!(get_outline(Vec::new()).is_none());
    assert!(get_outline(vec![heading("a", 1, false), heading("b", 2, false)]).is_none());
}

#[test]
fn a_heading_that_jumps_levels_goes_below_its_deepest_ancestor() {
    let tree = get_outline(vec![
        heading("a", 1, true),
        heading("b", 4, true),
        heading("c", 2, true),
        heading("d", 3, true),
    ])
    .expect("an outline");
    assert_eq!(shape(&tree), "a(b c(d))");
}

#[test]
fn a_skipped_heading_limits_the_depth_of_the_next_one() {
    // A bookmarked heading of level N, a skipped heading of level N, a skipped
    // heading of level N + 1, and then a bookmarked heading of level N + 2:
    // the last one takes the place of its topmost skipped ancestor.
    let tree = get_outline(vec![
        heading("a", 1, true),
        heading("s1", 1, false),
        heading("s2", 2, false),
        heading("b", 3, true),
    ])
    .expect("an outline");
    assert_eq!(shape(&tree), "a b");
}

#[test]
fn a_skipped_heading_below_a_bookmarked_one_keeps_the_next_heading_below_it() {
    let tree = get_outline(vec![
        heading("a", 1, true),
        heading("s", 2, false),
        heading("b", 3, true),
        heading("c", 3, true),
    ])
    .expect("an outline");
    assert_eq!(shape(&tree), "a(b c)");
}

#[test]
fn the_limit_of_a_skipped_heading_ends_with_the_next_bookmarked_one() {
    let tree = get_outline(vec![
        heading("a", 1, true),
        heading("b", 2, true),
        heading("s", 2, false),
        heading("c", 3, true),
        heading("d", 4, true),
    ])
    .expect("an outline");
    // `c` may not go below `b`, whose level is that of the skipped heading;
    // `d` comes after a bookmarked heading and goes below `c`.
    assert_eq!(shape(&tree), "a(b c(d))");
}

#[test]
fn only_the_topmost_of_several_skipped_headings_counts() {
    let tree = get_outline(vec![
        heading("a", 1, true),
        heading("b", 2, true),
        heading("s3", 3, false),
        heading("s2", 2, false),
        heading("s4", 4, false),
        heading("c", 5, true),
    ])
    .expect("an outline");
    assert_eq!(shape(&tree), "a(b c)");
}

#[test]
fn a_heading_left_open_is_bookmarked_where_it_is_outlined() {
    let p = DocumentPosition::new(1, 0, 0);
    assert!(HeadingNode::leaf("a".to_owned(), 2, 3, p, 1, None, true).bookmarked);
    assert!(!HeadingNode::leaf("a".to_owned(), 2, 3, p, 1, None, false).bookmarked);
    assert!(HeadingNode::leaf("a".to_owned(), 2, 3, p, 1, Some(true), false).bookmarked);
    assert!(!HeadingNode::leaf("a".to_owned(), 2, 3, p, 1, Some(false), true).bookmarked);
    let leaf = HeadingNode::leaf("a".to_owned(), 2, 3, p, 4, None, true);
    assert_eq!((leaf.body_span, leaf.span, leaf.level), (2, 3, 4));
    assert!(leaf.children.is_empty());
    assert_eq!(leaf.position, p);
}

#[test]
fn the_outline_has_one_item_for_every_top_level_heading() {
    // = One
    // == One.One
    // = Two
    // = Three
    // == Three.One
    // === Three.One.One
    let result = outline(vec![
        heading("One", 1, true),
        heading("One.One", 2, true),
        heading("Two", 1, true),
        heading("Three", 1, true),
        heading("Three.One", 2, true),
        heading("Three.One.One", 3, true),
    ]);
    assert_eq!(result.items.len(), 3);
    assert_eq!(
        item_shape(&result.items),
        "One(One.One) Two Three(Three.One(Three.One.One))"
    );
}

#[test]
fn an_outline_of_nothing_is_empty() {
    assert!(outline(Vec::new()).items.is_empty());
    assert!(outline(vec![heading("a", 1, false)]).items.is_empty());
}

#[test]
fn outline_items_carry_title_span_and_position() {
    let position = DocumentPosition::new(3, 10.0f32.to_bits(), 20.0f32.to_bits());
    let node = HeadingNode::leaf(
        "  Intro\u{a0}\n".to_owned(),
        0xdead_beef,
        0xfeed,
        position,
        1,
        Some(true),
        true,
    );
    let result = outline(vec![node]);
    assert_eq!(result.items.len(), 1);
    let item = &result.items[0];
    assert_eq!(item.title, "Intro");
    assert_eq!(item.span.as_deref(), Some("deadbeef"));
    assert_eq!(item.position, Some(position));
    assert!(item.children.is_empty());
}

#[test]
fn a_body_without_a_span_gives_the_span_of_the_heading() {
    let node = HeadingNode::leaf(
        "A".to_owned(),
        DETACHED_SPAN,
        0xfeed,
        DocumentPosition::new(1, 0, 0),
        1,
        Some(true),
        true,
    );
    let result = outline(vec![node]);
    assert_eq!(result.items[0].span.as_deref(), Some("feed"));
}

#[test]
fn spans_are_written_in_lower_case_hexadecimal() {
    assert_eq!(span_to_hex(0), "0");
    assert_eq!(span_to_hex(1), "1");
    assert_eq!(span_to_hex(0xABCDEF), "abcdef");
    assert_eq!(span_to_hex(u64::MAX), "ffffffffffffffff");
    for v in [0u64, 9, 10, 255, 4096, 0x1_0000_0000_0002, u64::MAX - 1] {
        assert_eq!(span_to_hex(v), format!("{:x}", v));
    }
}
