use typst_preview::jump::{
    combine_probes, location_leq, order_endpoints, resolve_span_range, restrict_in_range,
    restrict_to_element, DocToSrcJumpInfo, SpanOffset,
};

fn info(file: &str, start: Option<(usize, usize)>, end: Option<(usize, usize)>) -> DocToSrcJumpInfo {
    DocToSrcJumpInfo { filepath: file.to_owned(), start, end }
}

fn parts(info: Option<DocToSrcJumpInfo>) -> Option<(String, Option<(usize, usize)>, Option<(usize, usize)>)> {
    info.map(|i| (i.filepath, i.start, i.end))
}

fn expect(file: &str, start: Option<(usize, usize)>, end: Option<(usize, usize)>) -> Option<(String, Option<(usize, usize)>, Option<(usize, usize)>)> {
    Some((file.to_owned(), start, end))
}

#[test]
fn locations_are_ordered_by_line_then_column() {
    assert!(location_leq((1, 5), (2, 0)));
    assert!(location_leq((1, 5), (1, 5)));
    assert!(location_leq((1, 5), (1, 6)));
    assert!(!location_leq((1, 6), (1, 5)));
    assert!(!location_leq((2, 0), (1, 9)));
}

#[test]
fn a_range_runs_from_the_start_of_one_probe_to_the_start_of_the_other() {
    let st = info("/r/a.typ", Some((5, 0)), Some((5, 3)));
    let ed = info("/r/a.typ", Some((5, 7)), Some((5, 9)));
    assert_eq!(
        parts(resolve_span_range(Some(st), Some(ed), None)),
        expect("/r/a.typ", Some((5, 0)), Some((5, 7)))
    );
}

#[test]
fn start_resolved_and_end_unresolved_gives_the_start() {
    let st = info("/r/a.typ", Some((1, 2)), Some((1, 9)));
    assert_eq!(
        parts(resolve_span_range(Some(st), None, None)),
        expect("/r/a.typ", Some((1, 2)), Some((1, 9)))
    );
}

#[test]
fn end_resolved_and_start_unresolved_gives_the_end() {
    let ed = info("/r/a.typ", Some((3, 2)), Some((4, 0)));
    assert_eq!(
        parts(resolve_span_range(None, Some(ed), None)),
        expect("/r/a.typ", Some((3, 2)), Some((4, 0)))
    );
}

#[test]
fn nothing_resolved_gives_nothing() {
    assert!(resolve_span_range(None, None, None).is_none());
}

#[test]
fn only_the_element_resolved_gives_the_element() {
    let elem = info("/r/a.typ", Some((3, 2)), Some((4, 0)));
    assert_eq!(
        parts(resolve_span_range(None, None, Some(elem))),
        expect("/r/a.typ", Some((3, 2)), Some((4, 0)))
    );
}

#[test]
fn probes_in_different_files_give_the_end_probe() {
    let st = info("/r/a.typ", Some((1, 0)), Some((1, 3)));
    let ed = info("/r/b.typ", Some((7, 0)), Some((7, 4)));
    assert_eq!(
        parts(combine_probes(Some(st), Some(ed))),
        expect("/r/b.typ", Some((7, 0)), Some((7, 4)))
    );
}

#[test]
fn a_start_probe_that_runs_backwards_gives_the_end_probe() {
    let st = info("/r/a.typ", Some((2, 0)), Some((1, 3)));
    let ed = info("/r/a.typ", Some((7, 0)), Some((7, 4)));
    assert_eq!(
        parts(combine_probes(Some(st), Some(ed))),
        expect("/r/a.typ", Some((7, 0)), Some((7, 4)))
    );
}

#[test]
fn a_range_that_runs_backwards_is_swapped() {
    // The end probe lies before the start probe.
    let st = info("/r/a.typ", Some((9, 4)), Some((9, 8)));
    let ed = info("/r/a.typ", Some((2, 1)), Some((2, 5)));
    assert_eq!(
        parts(resolve_span_range(Some(st), Some(ed), None)),
        expect("/r/a.typ", Some((2, 1)), Some((9, 4)))
    );
    let backwards = info("/r/a.typ", Some((4, 0)), Some((3, 0)));
    assert_eq!(
        parts(order_endpoints(Some(backwards))),
        expect("/r/a.typ", Some((3, 0)), Some((4, 0)))
    );
    let forwards = info("/r/a.typ", Some((3, 0)), Some((4, 0)));
    assert_eq!(
        parts(order_endpoints(Some(forwards))),
        expect("/r/a.typ", Some((3, 0)), Some((4, 0)))
    );
    let open = info("/r/a.typ", None, Some((4, 0)));
    assert_eq!(parts(order_endpoints(Some(open))), expect("/r/a.typ", None, Some((4, 0))));
    assert!(order_endpoints(None).is_none());
}

#[test]
fn a_range_is_clamped_into_the_enclosing_element() {
    let elem = info("/r/a.typ", Some((10, 0)), Some((20, 0)));
    let rng = info("/r/a.typ", Some((5, 0)), Some((25, 0)));
    assert_eq!(
        parts(restrict_to_element(Some(elem), Some(rng))),
        expect("/r/a.typ", Some((10, 0)), Some((20, 0)))
    );
    // The same within one line, by columns.
    let elem = info("/r/a.typ", Some((0, 10)), Some((0, 20)));
    let st = info("/r/a.typ", Some((0, 5)), Some((0, 6)));
    let ed = info("/r/a.typ", Some((0, 25)), Some((0, 26)));
    assert_eq!(
        parts(resolve_span_range(Some(st), Some(ed), Some(elem))),
        expect("/r/a.typ", Some((0, 10)), Some((0, 20)))
    );
}

#[test]
fn a_range_inside_the_element_is_left_alone() {
    let elem = info("/r/a.typ", Some((10, 0)), Some((20, 0)));
    let rng = info("/r/a.typ", Some((12, 3)), Some((15, 1)));
    assert_eq!(
        parts(restrict_to_element(Some(elem), Some(rng))),
        expect("/r/a.typ", Some((12, 3)), Some((15, 1)))
    );
}

#[test]
fn an_element_in_another_file_is_not_used() {
    let elem = info("/r/b.typ", Some((10, 0)), Some((20, 0)));
    let rng = info("/r/a.typ", Some((5, 0)), Some((25, 0)));
    assert_eq!(
        parts(restrict_to_element(Some(elem), Some(rng))),
        expect("/r/a.typ", Some((5, 0)), Some((25, 0)))
    );
}

#[test]
fn a_missing_end_counts_as_the_other_end() {
    let elem = info("/r/a.typ", Some((10, 0)), None);
    let rng = info("/r/a.typ", None, Some((25, 0)));
    assert_eq!(
        parts(restrict_to_element(Some(elem), Some(rng))),
        expect("/r/a.typ", Some((10, 0)), Some((10, 0)))
    );
    let elem = info("/r/a.typ", None, None);
    let rng = info("/r/a.typ", Some((1, 0)), Some((25, 0)));
    assert_eq!(
        parts(restrict_to_element(Some(elem), Some(rng))),
        expect("/r/a.typ", Some((1, 0)), Some((25, 0)))
    );
}

#[test]
fn a_degenerate_range_of_a_point_resolves_like_the_point() {
    let point = || info("/r/a.typ", Some((5, 3)), Some((5, 3)));
    let elem = || info("/r/a.typ", Some((5, 0)), Some((5, 7)));
    assert_eq!(
        parts(resolve_span_range(Some(point()), Some(point()), Some(elem()))),
        parts(resolve_span_range(Some(point()), None, Some(elem())))
    );
    assert_eq!(
        parts(resolve_span_range(Some(point()), Some(point()), Some(elem()))),
        expect("/r/a.typ", Some((5, 3)), Some((5, 3)))
    );
}

#[test]
fn a_degenerate_range_collapses_onto_its_start() {
    let probe = || info("/r/a.typ", Some((1, 2)), Some((1, 9)));
    assert_eq!(
        parts(resolve_span_range(Some(probe()), Some(probe()), None)),
        expect("/r/a.typ", Some((1, 2)), Some((1, 2)))
    );
}

#[test]
fn locations_are_moved_to_the_nearest_bound() {
    assert_eq!(restrict_in_range((5, 0), (10, 0), (20, 0)), (10, 0));
    assert_eq!(restrict_in_range((25, 0), (10, 0), (20, 0)), (20, 0));
    assert_eq!(restrict_in_range((15, 4), (10, 0), (20, 0)), (15, 4));
    assert_eq!(restrict_in_range((10, 0), (10, 0), (20, 0)), (10, 0));
    assert_eq!(restrict_in_range((20, 0), (10, 0), (20, 0)), (20, 0));
}

#[test]
fn jump_info_from_lines_and_columns() {
    let i = DocToSrcJumpInfo::from_option("/r/a.typ".to_owned(), (Some(1), Some(2)), (Some(3), None));
    assert_eq!(i.filepath, "/r/a.typ");
    assert_eq!(i.start, Some((1, 2)));
    assert_eq!(i.end, None);
    assert!(!i.is_ordered());
    assert!(info("f", Some((1, 1)), Some((1, 1))).is_ordered());
    assert!(!info("f", Some((1, 2)), Some((1, 1))).is_ordered());
}

#[test]
fn a_span_offset_starts_at_the_start_of_its_span() {
    let at = SpanOffset::from_span(0xdead_beef);
    assert_eq!(at, SpanOffset { span: 0xdead_beef, offset: 0 });
}
