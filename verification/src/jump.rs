//! Document-to-source jumps: the source range that a click in the document
//! resolves to, put together from up to three probes of the compiler.
//!
//! A span range `(a, b)` is probed three times: for the start offset `a`, for
//! the end offset `b`, and for the whole element that encloses `b`. The two
//! offsets are merged into one range, the range is put in order, and the
//! result is kept inside the enclosing element.

use vstd::prelude::*;

verus! {

/// A position in a source file: line and column, both counted from 0.
pub type Location = (usize, usize);

/// A span of the document together with a byte offset into it.
///
/// The span is carried as the raw 64-bit number that identifies it for as long
/// as the compiled document lives.
#[derive(Debug, Clone, Copy, PartialEq, Eq, Structural)]
pub struct SpanOffset {
    pub span: u64,
    pub offset: usize,
}

impl SpanOffset {
    /// The start of the span `span`.
    pub fn from_span(span: u64) -> (res: Self)
        ensures
            res.span == span,
            res.offset == 0,
    {
        SpanOffset { span, offset: 0 }
    }
}

/// A resolved jump target: a file and, as far as they are known, where the
/// range starts and ends in it.
#[derive(Debug, Clone)]
pub struct DocToSrcJumpInfo {
    pub filepath: String,
    pub start: Option<Location>,
    pub end: Option<Location>,
}

/// The mathematical content of a [`DocToSrcJumpInfo`].
pub ghost struct JumpRange {
    pub filepath: Seq<char>,
    pub start: Option<(int, int)>,
    pub end: Option<(int, int)>,
}

/// The mathematical content of an optional location.
pub open spec fn loc_view(loc: Option<Location>) -> Option<(int, int)> {
    match loc {
        Some(p) => Some((p.0 as int, p.1 as int)),
        None => None,
    }
}

impl View for DocToSrcJumpInfo {
    type V = JumpRange;

    open spec fn view(&self) -> JumpRange {
        JumpRange {
            filepath: self.filepath@,
            start: loc_view(self.start),
            end: loc_view(self.end),
        }
    }
}

/// The mathematical content of the outcome of a probe.
pub open spec fn probe_view(probe: Option<DocToSrcJumpInfo>) -> Option<JumpRange> {
    match probe {
        Some(info) => Some(info@),
        None => None,
    }
}

/// `x` is not behind `y`: the order of locations, by line and then by column.
pub open spec fn loc_leq(x: (int, int), y: (int, int)) -> bool {
    x.0 < y.0 || (x.0 == y.0 && x.1 <= y.1)
}

/// Both ends of `r` are known and the start is not behind the end.
pub open spec fn is_ordered(r: JumpRange) -> bool {
    match (r.start, r.end) {
        (Some(x), Some(y)) => loc_leq(x, y),
        _ => false,
    }
}

/// `r` does not run backwards: where both ends are known, the start is not
/// behind the end.
pub open spec fn runs_forward(r: JumpRange) -> bool {
    match (r.start, r.end) {
        (Some(x), Some(y)) => loc_leq(x, y),
        _ => true,
    }
}

/// `p` is known and lies among the locations from `lo` to `hi`.
pub open spec fn lies_within(p: Option<(int, int)>, lo: (int, int), hi: (int, int)) -> bool {
    match p {
        Some(a) => loc_leq(lo, a) && loc_leq(a, hi),
        None => false,
    }
}

/// The range from the two probes of a span range.
///
/// Where both resolved to the same file and the start probe is in order, the
/// range runs from the start of the one to the start of the other. Where both
/// resolved otherwise, the end probe stands. Where one resolved, it stands.
pub open spec fn merge_probes(st: Option<JumpRange>, ed: Option<JumpRange>) -> Option<JumpRange> {
    match (st, ed) {
        (Some(s), Some(e)) => if s.filepath == e.filepath && is_ordered(s) {
            Some(JumpRange { filepath: s.filepath, start: s.start, end: e.start })
        } else {
            Some(e)
        },
        (Some(s), None) => Some(s),
        (None, Some(e)) => Some(e),
        (None, None) => None,
    }
}

/// `r` with its ends exchanged where both are known and the end is not behind
/// the start.
pub open spec fn put_in_order(r: Option<JumpRange>) -> Option<JumpRange> {
    match r {
        Some(info) => match (info.start, info.end) {
            (Some(x), Some(y)) => if loc_leq(y, x) {
                Some(JumpRange { filepath: info.filepath, start: info.end, end: info.start })
            } else {
                r
            },
            _ => r,
        },
        None => None,
    }
}

/// The location nearest to `p` among those from `lo` to `hi`.
pub open spec fn clamp_loc(p: (int, int), lo: (int, int), hi: (int, int)) -> (int, int) {
    if loc_leq(p, lo) {
        lo
    } else if loc_leq(hi, p) {
        hi
    } else {
        p
    }
}

/// The first of two optional locations that is known.
pub open spec fn first_known(a: Option<(int, int)>, b: Option<(int, int)>) -> Option<(int, int)> {
    match a {
        Some(_) => a,
        None => b,
    }
}

/// The range `rng` kept inside the element `elem`.
///
/// Where both are known and lie in the same file, both ends of the range are
/// moved into the element; an end that is not known counts as the other end.
/// A range in another file is left as it is. Where only one of the two is
/// known, it stands.
pub open spec fn clamp_to_element(elem: Option<JumpRange>, rng: Option<JumpRange>) -> Option<
    JumpRange,
> {
    match (elem, rng) {
        (Some(e), Some(r)) => if e.filepath == r.filepath {
            let elem_start = first_known(e.start, e.end);
            let elem_end = first_known(e.end, elem_start);
            let rng_start = first_known(r.start, r.end);
            let rng_end = first_known(r.end, rng_start);
            match (elem_start, rng_start, rng_end, elem_end) {
                (Some(x), Some(x_in), Some(y_in), Some(y)) => Some(
                    JumpRange {
                        filepath: r.filepath,
                        start: Some(clamp_loc(x_in, x, y)),
                        end: Some(clamp_loc(y_in, x, y)),
                    },
                ),
                _ => rng,
            }
        } else {
            rng
        },
        (_, Some(r)) => rng,
        (Some(e), None) => elem,
        (None, None) => None,
    }
}

/// The jump target of a span range, from its three probes.
pub open spec fn resolve_range(
    st: Option<JumpRange>,
    ed: Option<JumpRange>,
    elem: Option<JumpRange>,
) -> Option<JumpRange> {
    clamp_to_element(elem, put_in_order(merge_probes(st, ed)))
}

impl DocToSrcJumpInfo {
    /// A jump target from lines and columns that may each be unknown: an end
    /// is known where both its line and its column are.
    pub fn from_option(
        filepath: String,
        start: (Option<usize>, Option<usize>),
        end: (Option<usize>, Option<usize>),
    ) -> (res: Self)
        ensures
            res.filepath == filepath,
            res.start == match start {
                (Some(line), Some(column)) => Some((line, column)),
                _ => None::<Location>,
            },
            res.end == match end {
                (Some(line), Some(column)) => Some((line, column)),
                _ => None::<Location>,
            },
    {
        let start = match start {
            (Some(line), Some(column)) => Some((line, column)),
            _ => None,
        };
        let end = match end {
            (Some(line), Some(column)) => Some((line, column)),
            _ => None,
        };
        DocToSrcJumpInfo { filepath, start, end }
    }

    /// Are both ends known, with the start not behind the end?
    pub fn is_ordered(&self) -> (res: bool)
        ensures
            res == is_ordered(self@),
    {
        match (self.start, self.end) {
            (Some(x), Some(y)) => location_leq(x, y),
            _ => false,
        }
    }
}

/// Is `x` not behind `y`?
pub fn location_leq(x: Location, y: Location) -> (res: bool)
    ensures
        res == loc_leq((x.0 as int, x.1 as int), (y.0 as int, y.1 as int)),
{
    x.0 < y.0 || (x.0 == y.0 && x.1 <= y.1)
}

/// Merges the probes of the two offsets of a span range.
pub fn combine_probes(st: Option<DocToSrcJumpInfo>, ed: Option<DocToSrcJumpInfo>) -> (res: Option<
    DocToSrcJumpInfo,
>)
    ensures
        probe_view(res) == merge_probes(probe_view(st), probe_view(ed)),
{
    match (st, ed) {
        (Some(s), Some(e)) => {
            if s.filepath == e.filepath && s.is_ordered() {
                Some(DocToSrcJumpInfo { filepath: s.filepath, start: s.start, end: e.start })
            } else {
                Some(e)
            }
        },
        (Some(s), None) => Some(s),
        (None, Some(e)) => Some(e),
        (None, None) => None,
    }
}

/// Exchanges the ends of a range that runs backwards.
pub fn order_endpoints(rng: Option<DocToSrcJumpInfo>) -> (res: Option<DocToSrcJumpInfo>)
    ensures
        probe_view(res) == put_in_order(probe_view(rng)),
{
    match rng {
        Some(info) => {
            let backwards = match (info.start, info.end) {
                (Some(x), Some(y)) => location_leq(y, x),
                _ => false,
            };
            if backwards {
                Some(DocToSrcJumpInfo { filepath: info.filepath, start: info.end, end: info.start })
            } else {
                Some(info)
            }
        },
        None => None,
    }
}

/// Moves `p` into the locations from `lo` to `hi`.
pub fn restrict_in_range(p: Location, lo: Location, hi: Location) -> (res: Location)
    ensures
        (res.0 as int, res.1 as int) == clamp_loc(
            (p.0 as int, p.1 as int),
            (lo.0 as int, lo.1 as int),
            (hi.0 as int, hi.1 as int),
        ),
{
    if location_leq(p, lo) {
        lo
    } else if location_leq(hi, p) {
        hi
    } else {
        p
    }
}

/// The first of two optional locations that is known.
fn known_or(a: Option<Location>, b: Option<Location>) -> (res: Option<Location>)
    ensures
        loc_view(res) == first_known(loc_view(a), loc_view(b)),
{
    match a {
        Some(_) => a,
        None => b,
    }
}

/// Keeps the range of a span range inside the element that encloses it.
pub fn restrict_to_element(
    elem: Option<DocToSrcJumpInfo>,
    rng: Option<DocToSrcJumpInfo>,
) -> (res: Option<DocToSrcJumpInfo>)
    ensures
        probe_view(res) == clamp_to_element(probe_view(elem), probe_view(rng)),
{
    match (elem, rng) {
        (Some(e), Some(r)) => {
            if e.filepath == r.filepath {
                let elem_start = known_or(e.start, e.end);
                let elem_end = known_or(e.end, elem_start);
                let rng_start = known_or(r.start, r.end);
                let rng_end = known_or(r.end, rng_start);
                match (elem_start, rng_start, rng_end, elem_end) {
                    (Some(x), Some(x_in), Some(y_in), Some(y)) => Some(
                        DocToSrcJumpInfo {
                            filepath: r.filepath,
                            start: Some(restrict_in_range(x_in, x, y)),
                            end: Some(restrict_in_range(y_in, x, y)),
                        },
                    ),
                    _ => Some(r),
                }
            } else {
                Some(r)
            }
        },
        (None, Some(r)) => Some(r),
        (Some(e), None) => Some(e),
        (None, None) => None,
    }
}

/// The jump target of a span range.
///
/// `st` and `ed` are what the start and the end offset of the range resolved
/// to, `elem` what the element enclosing the end offset resolved to; each is
/// `None` where the compiler found nothing. The result is `None` exactly when
/// all three are.
pub fn resolve_span_range(
    st: Option<DocToSrcJumpInfo>,
    ed: Option<DocToSrcJumpInfo>,
    elem: Option<DocToSrcJumpInfo>,
) -> (res: Option<DocToSrcJumpInfo>)
    ensures
        probe_view(res) == resolve_range(probe_view(st), probe_view(ed), probe_view(elem)),
        res is None <==> st is None && ed is None && elem is None,
{
    let merged = combine_probes(st, ed);
    let ordered = order_endpoints(merged);
    restrict_to_element(elem, ordered)
}

/// A range of which only one offset resolved is that probe's range, put in
/// order and kept inside the element, whichever of the two offsets it was.
/// Where the probe's range does not run backwards and no element resolved,
/// it is the probe's range as it is.
pub proof fn law_single_probe(probe: JumpRange, elem: Option<JumpRange>)
    ensures
        merge_probes(Some(probe), None) == Some(probe),
        merge_probes(None, Some(probe)) == Some(probe),
        resolve_range(Some(probe), None, elem) == resolve_range(None, Some(probe), elem),
        resolve_range(Some(probe), None, elem) == clamp_to_element(
            elem,
            put_in_order(Some(probe)),
        ),
        runs_forward(probe) ==> resolve_range(Some(probe), None, None) == Some(probe),
        runs_forward(probe) ==> resolve_range(None, Some(probe), None) == Some(probe),
{
}

/// A span range whose two offsets are the same resolves as that offset alone
/// does, unless the probe's range has a start that is strictly before its end:
/// the merged range then ends where it starts.
pub proof fn law_degenerate_range(probe: JumpRange, elem: Option<JumpRange>)
    requires
        !(is_ordered(probe) && probe.start != probe.end),
    ensures
        resolve_range(Some(probe), Some(probe), elem) == resolve_range(Some(probe), None, elem),
{
}

/// A span range whose two offsets resolve to the same ordered range collapses
/// onto the start of it.
pub proof fn law_degenerate_range_collapses(probe: JumpRange)
    requires
        is_ordered(probe),
    ensures
        merge_probes(Some(probe), Some(probe)) == Some(
            JumpRange { filepath: probe.filepath, start: probe.start, end: probe.start },
        ),
{
}

/// After merging and ordering, a range never runs backwards.
pub proof fn law_ordered_after_swap(st: Option<JumpRange>, ed: Option<JumpRange>)
    ensures
        match put_in_order(merge_probes(st, ed)) {
            Some(r) => runs_forward(r),
            None => st is None && ed is None,
        },
{
}

/// The ends that the element of a clamp stands for: its start and its end,
/// each replaced by the other where it is not known.
pub open spec fn element_bounds(e: JumpRange) -> JumpRange {
    JumpRange {
        filepath: e.filepath,
        start: first_known(e.start, e.end),
        end: first_known(e.end, e.start),
    }
}

/// The emitted range never runs backwards, provided that the enclosing
/// element, where there is one, does not run backwards itself.
pub proof fn law_emitted_range_is_ordered(
    st: Option<JumpRange>,
    ed: Option<JumpRange>,
    elem: Option<JumpRange>,
)
    requires
        match elem {
            Some(e) => runs_forward(element_bounds(e)),
            None => true,
        },
    ensures
        match resolve_range(st, ed, elem) {
            Some(r) => runs_forward(r),
            None => st is None && ed is None && elem is None,
        },
{
}

/// Where the element is used, both ends of the emitted range lie inside it.
pub proof fn law_clamped_into_element(elem: JumpRange, rng: JumpRange)
    requires
        elem.filepath == rng.filepath,
        is_ordered(elem),
        rng.start is Some || rng.end is Some,
    ensures
        match clamp_to_element(Some(elem), Some(rng)) {
            Some(r) => r.filepath == rng.filepath && lies_within(
                r.start,
                elem.start->0,
                elem.end->0,
            ) && lies_within(r.end, elem.start->0, elem.end->0),
            None => false,
        },
{
}

/// A range that lies strictly inside the element is not changed by it.
pub proof fn law_clamp_keeps_inner_range(elem: JumpRange, rng: JumpRange)
    requires
        elem.filepath == rng.filepath,
        elem.start is Some,
        elem.end is Some,
        rng.start is Some,
        rng.end is Some,
        !loc_leq(rng.start->0, elem.start->0),
        !loc_leq(elem.end->0, rng.start->0),
        !loc_leq(rng.end->0, elem.start->0),
        !loc_leq(elem.end->0, rng.end->0),
    ensures
        clamp_to_element(Some(elem), Some(rng)) == Some(rng),
{
}

} // verus!
