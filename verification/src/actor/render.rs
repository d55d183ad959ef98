//! The render actor of a viewer: it turns render triggers into payloads.
//!
//! One cycle of the actor waits for a trigger, takes all further triggers
//! that wait with it, and answers all of them with at most one payload. The
//! payload is the whole of the current document where a viewer asked for it
//! (or where triggers were lost), and what changed since the last payload in
//! every other case.

use crate::text::has_prefix;
use std::sync::Arc;
use vstd::prelude::*;
use vstd::string::StringSliceAdditionalSpecFns;

verus! {

/// A path into the rendered document, from the root to an element: for every
/// step the kind of the element, its index and its fingerprint.
#[derive(Debug, Clone)]
pub struct ResolveSpanRequest(pub Vec<(u32, u32, String)>);

/// A trigger for the render actors.
#[derive(Debug, Clone)]
pub enum RenderActorRequest {
    /// A viewer asks for the whole of the current document.
    RenderFullLatest,
    /// A new document was published.
    RenderIncremental,
    /// A viewer asks which span of the source an element stems from.
    ResolveSpan(ResolveSpanRequest),
}

impl RenderActorRequest {
    /// Does this trigger ask for the whole document?
    pub fn is_full_render(&self) -> (res: bool)
        ensures
            res == (self is RenderFullLatest),
    {
        match self {
            Self::RenderFullLatest => true,
            Self::RenderIncremental => false,
            Self::ResolveSpan(_) => false,
        }
    }
}

/// What waiting for a trigger gave.
#[derive(Debug)]
pub enum Received {
    /// A trigger.
    Message(RenderActorRequest),
    /// The news that triggers were lost, because this actor lagged behind.
    Lagged,
    /// The news that no trigger will come any more.
    Closed,
}

/// The triggers of one cycle, folded into what the cycle has to do.
#[derive(Debug)]
pub struct RenderBatch {
    /// Is the whole document to be sent?
    pub full_render: bool,
    /// The paths whose spans are asked for, in the order in which they came.
    pub spans: Vec<ResolveSpanRequest>,
}

/// Does one of the triggers ask for the whole document?
pub open spec fn asks_full(triggers: Seq<RenderActorRequest>) -> bool {
    exists|i: int| 0 <= i < triggers.len() && (#[trigger] triggers[i]) is RenderFullLatest
}

/// The paths whose spans the triggers ask for, in their order.
pub open spec fn asked_spans(triggers: Seq<RenderActorRequest>) -> Seq<ResolveSpanRequest>
    decreases triggers.len(),
{
    if triggers.len() == 0 {
        Seq::empty()
    } else {
        match triggers.last() {
            RenderActorRequest::ResolveSpan(path) => asked_spans(triggers.drop_last()).push(path),
            _ => asked_spans(triggers.drop_last()),
        }
    }
}

/// The triggers of a cycle: the one that the actor waited for, where it was
/// one, and those that waited with it.
pub open spec fn cycle_triggers(first: Received, rest: Seq<RenderActorRequest>) -> Seq<
    RenderActorRequest,
> {
    match first {
        Received::Message(trigger) => seq![trigger] + rest,
        _ => rest,
    }
}

impl RenderBatch {
    /// The batch of a cycle in which no trigger came yet.
    pub fn new() -> (res: Self)
        ensures
            !res.full_render,
            res.spans@ == Seq::<ResolveSpanRequest>::empty(),
    {
        RenderBatch { full_render: false, spans: Vec::new() }
    }

    /// Takes one more trigger into the batch.
    pub fn observe(&mut self, trigger: RenderActorRequest)
        ensures
            final(self).full_render == (old(self).full_render || trigger is RenderFullLatest),
            final(self).spans@ == match trigger {
                RenderActorRequest::ResolveSpan(path) => old(self).spans@.push(path),
                _ => old(self).spans@,
            },
    {
        if trigger.is_full_render() {
            self.full_render = true;
        }
        match trigger {
            RenderActorRequest::ResolveSpan(path) => {
                self.spans.push(path);
            },
            _ => {},
        }
    }

    /// Takes into the batch that triggers were lost: what they asked for is
    /// not known, so the whole document is sent.
    pub fn observe_lagged(&mut self)
        ensures
            final(self).full_render,
            final(self).spans@ == old(self).spans@,
    {
        self.full_render = true;
    }
}

/// Folds the triggers of one cycle: `first` is what the actor waited for,
/// `rest` what waited with it. There is no cycle where `first` says that no
/// trigger will come any more.
pub fn coalesce(first: Received, rest: Vec<RenderActorRequest>) -> (res: Option<RenderBatch>)
    ensures
        res is None <==> first is Closed,
        res matches Some(batch) ==> {
            &&& batch.full_render == (first is Lagged || asks_full(cycle_triggers(first, rest@)))
            &&& batch.spans@ == asked_spans(cycle_triggers(first, rest@))
        },
{
    let ghost all = cycle_triggers(first, rest@);
    let mut batch = RenderBatch::new();
    let ghost lagged = first is Lagged;
    let ghost lead: int = if first is Message {
        1
    } else {
        0
    };
    match first {
        Received::Closed => {
            return None;
        },
        Received::Lagged => {
            batch.observe_lagged();
        },
        Received::Message(trigger) => {
            batch.observe(trigger);
            proof {
                assert(all.take(1) =~= seq![trigger]);
                assert(all.take(1).drop_last() =~= Seq::<RenderActorRequest>::empty());
                if trigger is RenderFullLatest {
                    assert(all.take(1)[0] is RenderFullLatest);
                }
                assert(asked_spans(Seq::<RenderActorRequest>::empty()) =~= Seq::<
                    ResolveSpanRequest,
                >::empty());
                assert(asked_spans(all.take(1)) =~= batch.spans@);
            }
        },
    }
    let ghost later = rest@;
    proof {
        if !(first is Message) {
            assert(all.take(0) =~= Seq::<RenderActorRequest>::empty());
        }
    }
    for trigger in it: rest
        invariant
            it.seq() == later,
            all.len() == lead + later.len(),
            0 <= lead <= 1,
            forall|i: int| 0 <= i < later.len() ==> all[lead + i] == later[i],
            batch.full_render == (lagged || asks_full(all.take(lead + it.index()))),
            batch.spans@ == asked_spans(all.take(lead + it.index())),
    {
        proof {
            let done = lead + it.index();
            let shorter = all.take(done);
            let longer = all.take(done + 1);
            assert(trigger == all[done]);
            assert(longer.drop_last() =~= shorter);
            assert(longer.last() == trigger);
            if asks_full(shorter) {
                let i = choose|i: int|
                    0 <= i < shorter.len() && (#[trigger] shorter[i]) is RenderFullLatest;
                assert(longer[i] is RenderFullLatest);
            }
            if trigger is RenderFullLatest {
                assert(longer[done] is RenderFullLatest);
            }
            if asks_full(longer) {
                let i = choose|i: int|
                    0 <= i < longer.len() && (#[trigger] longer[i]) is RenderFullLatest;
                if i < done {
                    assert(shorter[i] is RenderFullLatest);
                }
            }
        }
        batch.observe(trigger);
    }
    proof {
        assert(all.take(all.len() as int) =~= all);
    }
    Some(batch)
}

/// What a cycle sends to the viewer.
#[derive(Debug, Clone, Copy, PartialEq, Eq, Structural)]
pub enum RenderStep {
    /// Nothing: no document was published yet.
    Skip,
    /// The whole document: what the session can send again, or where it has
    /// nothing to send again, what changed since the last payload.
    Resend,
    /// What changed since the last payload.
    Delta,
}

/// What a cycle sends, by what its triggers asked for and by whether a
/// document was published.
pub open spec fn step_for(full_render: bool, has_document: bool) -> RenderStep {
    if !has_document {
        RenderStep::Skip
    } else if full_render {
        RenderStep::Resend
    } else {
        RenderStep::Delta
    }
}

/// Decides what a cycle sends to the viewer.
pub fn render_step(full_render: bool, has_document: bool) -> (res: RenderStep)
    ensures
        res == step_for(full_render, has_document),
{
    if !has_document {
        RenderStep::Skip
    } else if full_render {
        RenderStep::Resend
    } else {
        RenderStep::Delta
    }
}

/// What a cycle of the outline actor does.
#[derive(Debug, Clone, Copy, PartialEq, Eq, Structural)]
pub enum OutlineStep {
    /// End the actor: no trigger will come any more.
    Stop,
    /// Nothing: no document was published yet.
    Skip,
    /// Build the outline of the current document and send it to the editor.
    Extract,
}

/// Decides what a cycle of the outline actor does. To this actor every
/// trigger, and the news that triggers were lost, says the same: the outline
/// may have changed.
pub fn outline_step(first: &Received, has_document: bool) -> (res: OutlineStep)
    ensures
        res == if *first is Closed {
            OutlineStep::Stop
        } else if has_document {
            OutlineStep::Extract
        } else {
            OutlineStep::Skip
        },
{
    match first {
        Received::Closed => OutlineStep::Stop,
        _ => if has_document {
            OutlineStep::Extract
        } else {
            OutlineStep::Skip
        },
    }
}

/// Number of cached results that the actors let the compiler keep after a
/// cycle, counted in cycles that a result went unused.
pub const EVICTION_BUDGET: usize = 30;

/// Where a payload comes from.
#[derive(Debug, Clone, Copy, PartialEq, Eq, Structural)]
pub enum PayloadSource {
    /// The session sends again what the viewer needs for the whole document.
    Current,
    /// The session sends all of a document, as a change to nothing: it is the
    /// first change that this session packs.
    FirstDelta,
    /// The session sends what changed since the payload before.
    Delta,
}

/// A payload for the viewer.
#[derive(Debug)]
pub struct Payload {
    pub bytes: Vec<u8>,
    pub source: PayloadSource,
}

/// Can a viewer that holds nothing rebuild the document from a payload of
/// this source?
pub open spec fn is_bootstrap(source: PayloadSource) -> bool {
    source is Current || source is FirstDelta
}

/// A payload that holds the whole of a document begins with `new,`.
pub open spec fn is_whole_payload(bytes: Seq<u8>) -> bool {
    has_prefix(bytes, "new,".spec_bytes())
}

/// A payload that holds a change begins with `diff-v1,`.
pub open spec fn is_change_payload(bytes: Seq<u8>) -> bool {
    has_prefix(bytes, "diff-v1,".spec_bytes())
}

/// `IncrSvgDocServer` of the renderer (by its own name `IncrDocServer`, in
/// `typst_ts_core::vector::incr`): the state of the incremental rendering,
/// which the library holds and never looks into.
#[verifier::external_type_specification]
#[verifier::external_body]
pub struct ExIncrDocServer(typst_ts_svg_exporter::IncrSvgDocServer);

/// The compiled document of the compiler, which the library hands to the
/// renderer and never looks into.
#[verifier::external_type_specification]
#[verifier::external_body]
pub struct ExTypstDocument(typst_ts_core::TypstDocument);

/// A span with an offset as the renderer gives it, which the library hands
/// on and never looks into.
#[verifier::external_type_specification]
#[verifier::external_body]
pub struct ExSourceSpanOffset(typst_ts_core::debug_loc::SourceSpanOffset);

/// The error of the renderer, of which the library reads nothing.
#[verifier::external_type_specification]
#[verifier::external_body]
pub struct ExRenderError(typst_ts_core::error::Error);

/// The number of changes that a renderer has packed since it was made. The
/// renderer counts them itself, in steps of two, as the lifetime of what it
/// holds.
pub uninterp spec fn packed_changes(renderer: typst_ts_svg_exporter::IncrSvgDocServer) -> nat;

/// The span range that a renderer knows for the element at `path`, if it
/// knows one.
pub uninterp spec fn span_range_at(
    renderer: typst_ts_svg_exporter::IncrSvgDocServer,
    path: Seq<(u32, u32, Seq<char>)>,
) -> Option<
    (typst_ts_core::debug_loc::SourceSpanOffset, typst_ts_core::debug_loc::SourceSpanOffset),
>;

/// `IncrSvgDocServer::default`: a renderer that has packed nothing yet.
#[verifier::external_body]
fn new_renderer() -> (res: typst_ts_svg_exporter::IncrSvgDocServer)
    ensures
        packed_changes(res) == 0,
{
    typst_ts_svg_exporter::IncrSvgDocServer::default()
}

/// `IncrSvgDocServer::set_should_attach_debug_info`: from now on the renderer
/// notes, or no longer notes, which span every element stems from. It packs
/// nothing.
#[verifier::external_body]
fn set_debug_info(renderer: &mut typst_ts_svg_exporter::IncrSvgDocServer, attach: bool)
    ensures
        packed_changes(*final(renderer)) == packed_changes(*old(renderer)),
{
    renderer.set_should_attach_debug_info(attach)
}

/// `IncrSvgDocServer::pack_current`: the whole of the document as the renderer
/// holds it, if it holds one. The payload begins with `new,`. It packs no
/// change.
#[verifier::external_body]
fn pack_current(renderer: &mut typst_ts_svg_exporter::IncrSvgDocServer) -> (res: Option<
    Vec<u8>,
>)
    ensures
        res matches Some(bytes) ==> is_whole_payload(bytes@),
        packed_changes(*final(renderer)) == packed_changes(*old(renderer)),
{
    renderer.pack_current()
}

/// `IncrSvgDocServer::pack_delta`: what changed from the document that the
/// renderer packed last to `document`. The payload begins with `diff-v1,`.
/// The renderer has then packed one change more.
#[verifier::external_body]
fn pack_delta(
    renderer: &mut typst_ts_svg_exporter::IncrSvgDocServer,
    document: Arc<typst_ts_core::TypstDocument>,
) -> (res: Vec<u8>)
    ensures
        is_change_payload(res@),
        packed_changes(*final(renderer)) == packed_changes(*old(renderer)) + 1,
{
    renderer.pack_delta(document)
}

/// `IncrSvgDocServer::resolve_span_by_element_path`: the span range of the
/// element at `path`. What it finds is a function of the renderer and the
/// path alone; that function is [`span_range_at`], and the call fails or
/// finds nothing exactly where that function gives `None`. A renderer that
/// has packed nothing holds no document and fails. The call packs nothing.
#[verifier::external_body]
fn span_by_element_path(
    renderer: &mut typst_ts_svg_exporter::IncrSvgDocServer,
    path: &Vec<(u32, u32, String)>,
) -> (res: Result<
    Option<(typst_ts_core::debug_loc::SourceSpanOffset, typst_ts_core::debug_loc::SourceSpanOffset)>,
    typst_ts_core::error::Error,
>)
    ensures
        match res {
            Ok(found) => span_range_at(*old(renderer), path.deep_view()) == found,
            Err(_) => span_range_at(*old(renderer), path.deep_view()) is None,
        },
        packed_changes(*old(renderer)) == 0 ==> res is Err,
        packed_changes(*final(renderer)) == packed_changes(*old(renderer)),
{
    let points: Vec<typst_ts_core::debug_loc::ElementPoint> = path.iter().cloned().map(
        From::from,
    ).collect();
    renderer.resolve_span_by_element_path(&points)
}

/// What a render actor sends where it asked the session for what it can send
/// again and got `current`: that, if there is any, and else what changed.
pub fn resend_or_delta(current: Option<Vec<u8>>) -> (res: Option<Payload>)
    ensures
        match current {
            Some(bytes) => res == Some(Payload { bytes, source: PayloadSource::Current }),
            None => res is None,
        },
{
    match current {
        Some(bytes) => Some(Payload { bytes, source: PayloadSource::Current }),
        None => None,
    }
}

/// The source of the next change that a session packs: `fresh` says
/// whether it has packed none yet.
pub open spec fn delta_source(fresh: bool) -> PayloadSource {
    if fresh {
        PayloadSource::FirstDelta
    } else {
        PayloadSource::Delta
    }
}

/// The payload that holds the change `bytes`: `fresh` says whether the
/// session had packed no change before this one.
pub fn delta_payload(bytes: Vec<u8>, fresh: bool) -> (res: Payload)
    ensures
        res == (Payload { bytes, source: delta_source(fresh) }),
{
    let source = if fresh {
        PayloadSource::FirstDelta
    } else {
        PayloadSource::Delta
    };
    Payload { bytes, source }
}

/// May a session send a payload of the source `source` in a cycle? `fresh`
/// says whether it has packed no change yet, `full_render` whether the cycle
/// asks for the whole document.
pub open spec fn may_send(fresh: bool, full_render: bool, source: PayloadSource) -> bool {
    if source is Current {
        full_render
    } else {
        source == delta_source(fresh)
    }
}

/// Whether a session has still packed no change after it sent a payload of
/// the source `source`.
pub open spec fn fresh_after(fresh: bool, source: PayloadSource) -> bool {
    fresh && source is Current
}

/// The number of changes that a payload of the source `source` takes the
/// renderer to pack.
pub open spec fn changes_of(source: PayloadSource) -> nat {
    if source is Current {
        0
    } else {
        1
    }
}

/// May a session send payloads of the sources `sources`, one after the
/// other, whatever its cycles ask for?
pub open spec fn may_send_all(fresh: bool, sources: Seq<PayloadSource>) -> bool
    decreases sources.len(),
{
    sources.len() == 0 || ((exists|full_render: bool|
        may_send(fresh, full_render, sources.first())) && may_send_all(
        fresh_after(fresh, sources.first()),
        sources.drop_first(),
    ))
}

/// Whatever the cycles of a new session ask for, the first payload that the
/// session sends is one from which a viewer that holds nothing can rebuild
/// the document, and every payload before the first change is one.
pub proof fn law_first_payload_is_bootstrap(sources: Seq<PayloadSource>, i: int)
    requires
        may_send_all(true, sources),
        0 <= i < sources.len(),
        forall|j: int| 0 <= j < i ==> (#[trigger] sources[j]) is Current,
    ensures
        is_bootstrap(sources[i]),
    decreases i,
{
    if i > 0 {
        let rest = sources.drop_first();
        assert(sources[0] is Current);
        assert forall|j: int| 0 <= j < i - 1 implies (#[trigger] rest[j]) is Current by {
            assert(rest[j] == sources[j + 1]);
        }
        law_first_payload_is_bootstrap(rest, i - 1);
        assert(rest[i - 1] == sources[i]);
    }
}

/// The state of the incremental rendering for one viewer.
pub struct RenderSession {
    renderer: typst_ts_svg_exporter::IncrSvgDocServer,
    fresh: bool,
}

impl RenderSession {
    /// Has this session sent no change yet?
    pub closed spec fn is_fresh(&self) -> bool {
        self.fresh
    }

    /// The number of changes that the renderer of this session has packed.
    pub closed spec fn packed(&self) -> nat {
        packed_changes(self.renderer)
    }

    /// The span range that the session knows for the element at `path`, if
    /// it knows one.
    pub closed spec fn span_at(&self, path: Seq<(u32, u32, Seq<char>)>) -> Option<
        (typst_ts_core::debug_loc::SourceSpanOffset, typst_ts_core::debug_loc::SourceSpanOffset),
    > {
        span_range_at(self.renderer, path)
    }

    /// The session is fresh exactly while its renderer has packed nothing.
    /// A new session is so, and every method keeps it so.
    pub open spec fn is_sound(&self) -> bool {
        self.is_fresh() == (self.packed() == 0)
    }

    /// A session that has packed nothing yet. It notes for every element
    /// which span of the source the element stems from.
    pub fn new() -> (res: Self)
        ensures
            res.is_fresh(),
            res.packed() == 0,
    {
        let mut renderer = new_renderer();
        set_debug_info(&mut renderer, true);
        RenderSession { renderer, fresh: true }
    }

    /// Packs the payload of one cycle for the document `document`.
    ///
    /// Where the whole document is asked for and the renderer can send it
    /// again, it does so and packs nothing; in every other case the renderer
    /// packs one change. The first payload of a session is therefore always
    /// one from which a viewer that holds nothing can rebuild the document.
    pub fn render(&mut self, document: Arc<typst_ts_core::TypstDocument>, full_render: bool) -> (res:
        Payload)
        ensures
            may_send(old(self).is_fresh(), full_render, res.source),
            res.source is Current ==> is_whole_payload(res.bytes@),
            !(res.source is Current) ==> is_change_payload(res.bytes@),
            final(self).packed() == old(self).packed() + changes_of(res.source),
            final(self).is_fresh() == fresh_after(old(self).is_fresh(), res.source),
            old(self).is_fresh() ==> is_bootstrap(res.source),
            old(self).is_sound() ==> final(self).is_sound(),
    {
        if full_render {
            match resend_or_delta(pack_current(&mut self.renderer)) {
                Some(payload) => {
                    return payload;
                },
                None => {},
            }
        }
        let payload = delta_payload(pack_delta(&mut self.renderer, document), self.fresh);
        self.fresh = false;
        payload
    }

    /// Packs the payload of one cycle, if the cycle sends one: `document` is
    /// the document published last, if any was published, and `full_render`
    /// says whether the triggers of the cycle ask for the whole document.
    /// However many triggers the cycle took, it sends one payload where a
    /// document was published and none where none was, and the renderer
    /// packs at most one change.
    pub fn run_cycle(
        &mut self,
        document: Option<Arc<typst_ts_core::TypstDocument>>,
        full_render: bool,
    ) -> (res: Option<Payload>)
        ensures
            res is None <==> document is None,
            res is None ==> final(self).is_fresh() == old(self).is_fresh() && final(self).packed()
                == old(self).packed(),
            res matches Some(payload) ==> {
                &&& may_send(old(self).is_fresh(), full_render, payload.source)
                &&& payload.source is Current ==> is_whole_payload(payload.bytes@)
                &&& !(payload.source is Current) ==> is_change_payload(payload.bytes@)
                &&& final(self).packed() == old(self).packed() + changes_of(payload.source)
                &&& final(self).is_fresh() == fresh_after(old(self).is_fresh(), payload.source)
                &&& old(self).is_fresh() ==> is_bootstrap(payload.source)
            },
            final(self).packed() <= old(self).packed() + 1,
            old(self).is_sound() ==> final(self).is_sound(),
    {
        let step = render_step(full_render, document.is_some());
        match (step, document) {
            (RenderStep::Resend, Some(document)) => Some(self.render(document, true)),
            (RenderStep::Delta, Some(document)) => Some(self.render(document, false)),
            _ => None,
        }
    }

    /// Asks the session which span range the element at `request` stems
    /// from: what the session knows for that path, and nothing where it
    /// knows none or fails. A session whose renderer has packed nothing
    /// knows none. Asking packs nothing.
    pub fn resolve_span(&mut self, request: &ResolveSpanRequest) -> (res: Option<
        (typst_ts_core::debug_loc::SourceSpanOffset, typst_ts_core::debug_loc::SourceSpanOffset),
    >)
        ensures
            res == old(self).span_at(request.0.deep_view()),
            old(self).packed() == 0 ==> res is None,
            final(self).packed() == old(self).packed(),
            final(self).is_fresh() == old(self).is_fresh(),
    {
        span_answer(span_by_element_path(&mut self.renderer, &request.0))
    }
}

/// What an answer of the session to a question for a span range is worth:
/// the range that it found, and nothing where it found none or failed.
pub fn span_answer<S, E>(answer: Result<Option<(S, S)>, E>) -> (res: Option<(S, S)>)
    ensures
        res == match answer {
            Ok(found) => found,
            Err(_) => None::<(S, S)>,
        },
{
    match answer {
        Ok(found) => found,
        Err(_) => None,
    }
}

/// Render payloads are told from text for the viewer by how they begin.
pub proof fn law_payloads_are_no_control_text(bytes: Seq<u8>)
    requires
        is_whole_payload(bytes) || is_change_payload(bytes),
    ensures
        !crate::actor::webview::is_control_text(bytes),
{
    reveal_strlit("new,");
    reveal_strlit("diff-v1,");
    reveal_strlit("jump,");
    reveal_strlit("viewport,");
    reveal_strlit("cursor,");
    reveal_strlit("partial-rendering,");
    lemma_literal_bytes("new,");
    lemma_literal_bytes("diff-v1,");
    lemma_literal_bytes("jump,");
    lemma_literal_bytes("viewport,");
    lemma_literal_bytes("cursor,");
    lemma_literal_bytes("partial-rendering,");
    if is_whole_payload(bytes) {
        assert(bytes.subrange(0, 4)[0] == 0x6e);
    } else {
        assert(bytes.subrange(0, 8)[0] == 0x64);
    }
    if has_prefix(bytes, "jump,".spec_bytes()) {
        assert(bytes.subrange(0, 5)[0] == 0x6a);
    }
    if has_prefix(bytes, "viewport,".spec_bytes()) {
        assert(bytes.subrange(0, 9)[0] == 0x76);
    }
    if has_prefix(bytes, "cursor,".spec_bytes()) {
        assert(bytes.subrange(0, 7)[0] == 0x63);
    }
    if has_prefix(bytes, "partial-rendering,".spec_bytes()) {
        assert(bytes.subrange(0, 18)[0] == 0x70);
    }
}

/// The bytes of a text of characters below 128 are its characters.
pub proof fn lemma_literal_bytes(text: &str)
    requires
        vstd::utf8::is_ascii_chars(text@),
    ensures
        text.spec_bytes() == Seq::new(text@.len(), |i: int| text@[i] as u8),
{
    vstd::string::is_ascii_spec_bytes(text);
}

} // verus!
