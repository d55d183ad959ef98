//! The compiler supervisor: the one actor that talks to the compiler.
//!
//! The supervisor takes its requests one after the other. For each it asks
//! the compiler, and hands what comes back to the editor or to the viewers.
//! What it asks and what it makes of the answers is decided here.

use crate::actor::editor::{CompileStatus, EditorActorRequest};
use crate::actor::render::RenderActorRequest;
use crate::actor::webview::WebviewActorRequest;
use crate::debug_loc::DocumentPosition;
use crate::jump::{
    probe_view, resolve_range, resolve_span_range, DocToSrcJumpInfo, SpanOffset,
};
use crate::publisher::PublisherImpl;
use crate::request::{
    ChangeCursorPositionRequest, MemoryFiles, MemoryFilesShort, SrcToDocJumpRequest,
};
use crate::shadow::{remove_shadow_files, update_memory_files, Change, MemoryEvent, inserting, removing};
use std::sync::Arc;
use vstd::prelude::*;

verus! {

/// A request to the compiler supervisor.
#[derive(Debug)]
pub enum TypstActorRequest {
    DocToSrcJumpResolve((SpanOffset, SpanOffset)),
    ChangeCursorPosition(ChangeCursorPositionRequest),
    SrcToDocJumpResolve(SrcToDocJumpRequest),
    SyncMemoryFiles(MemoryFiles),
    UpdateMemoryFiles(MemoryFiles),
    RemoveMemoryFiles(MemoryFilesShort),
}

/// Smallest number of position events that the channel to the viewers holds
/// for a viewer that lags behind.
pub const VIEWER_BROADCAST_CAPACITY: usize = 32;

/// Smallest number of render triggers that the channel to the render actors
/// holds for an actor that lags behind.
pub const RENDER_BROADCAST_CAPACITY: usize = 1024;

/// Which event tells the viewers of a resolved position.
#[derive(Debug, Clone, Copy, PartialEq, Eq, Structural)]
pub enum PositionTarget {
    /// The cursor of the editor stands there.
    Cursor,
    /// The viewers are to scroll there.
    Jump,
}

/// The three questions to the compiler that a span range takes.
#[derive(Debug, Clone, Copy, PartialEq, Eq, Structural)]
pub struct SpanProbes {
    /// Where does the start of the range lie in the source?
    pub start: SpanOffset,
    /// Where does the end of the range lie in the source?
    pub end: SpanOffset,
    /// Where does the element lie that the end of the range belongs to?
    pub element: u64,
}

/// What the supervisor asks of the compiler for a request.
#[derive(Debug)]
pub enum SupervisorStep {
    /// Resolve a span range to a range in the source.
    ResolveSpanRange(SpanProbes),
    /// Resolve a place in the source to a position in the document.
    ResolvePosition { filepath: String, line: usize, character: usize, target: PositionTarget },
    /// Change the shadow files; the compiler then compiles anew.
    ChangeMemory(MemoryEvent),
}

/// The questions to the compiler for the span range `range`.
pub open spec fn probes_for(range: (SpanOffset, SpanOffset)) -> SpanProbes {
    SpanProbes { start: range.0, end: range.1, element: range.1.span }
}

/// Does the request `mail` make the compiler compile anew?
pub open spec fn triggers_compile(mail: TypstActorRequest) -> bool {
    mail is SyncMemoryFiles || mail is UpdateMemoryFiles || mail is RemoveMemoryFiles
}

/// `step` is what the supervisor asks of the compiler for the request `mail`.
pub open spec fn is_step_for(step: SupervisorStep, mail: TypstActorRequest) -> bool {
    match mail {
        TypstActorRequest::DocToSrcJumpResolve(range) => step
            == SupervisorStep::ResolveSpanRange(probes_for(range)),
        TypstActorRequest::ChangeCursorPosition(req) => step == (SupervisorStep::ResolvePosition {
            filepath: req.filepath,
            line: req.line,
            character: req.character,
            target: PositionTarget::Cursor,
        }),
        TypstActorRequest::SrcToDocJumpResolve(req) => step == (SupervisorStep::ResolvePosition {
            filepath: req.filepath,
            line: req.line,
            character: req.character,
            target: PositionTarget::Jump,
        }),
        TypstActorRequest::SyncMemoryFiles(files) => match step {
            SupervisorStep::ChangeMemory(event) => event@ == Change::Sync(
                inserting(files.files.deep_view()),
            ),
            _ => false,
        },
        TypstActorRequest::UpdateMemoryFiles(files) => match step {
            SupervisorStep::ChangeMemory(event) => event@ == Change::Update(
                inserting(files.files.deep_view()),
            ),
            _ => false,
        },
        TypstActorRequest::RemoveMemoryFiles(files) => match step {
            SupervisorStep::ChangeMemory(event) => event@ == Change::Update(
                removing(files.files.deep_view()),
            ),
            _ => false,
        },
    }
}

impl TypstActorRequest {
    /// Does this request make the compiler compile anew?
    pub fn triggers_compile(&self) -> (res: bool)
        ensures
            res == triggers_compile(*self),
    {
        match self {
            TypstActorRequest::SyncMemoryFiles(_) => true,
            TypstActorRequest::UpdateMemoryFiles(_) => true,
            TypstActorRequest::RemoveMemoryFiles(_) => true,
            _ => false,
        }
    }
}

/// Decides what to ask of the compiler for a request.
pub fn process_mail(mail: TypstActorRequest) -> (res: SupervisorStep)
    ensures
        is_step_for(res, mail),
        res is ChangeMemory <==> triggers_compile(mail),
{
    match mail {
        TypstActorRequest::DocToSrcJumpResolve(range) => SupervisorStep::ResolveSpanRange(
            SpanProbes { start: range.0, end: range.1, element: range.1.span },
        ),
        TypstActorRequest::ChangeCursorPosition(req) => SupervisorStep::ResolvePosition {
            filepath: req.filepath,
            line: req.line,
            character: req.character,
            target: PositionTarget::Cursor,
        },
        TypstActorRequest::SrcToDocJumpResolve(req) => SupervisorStep::ResolvePosition {
            filepath: req.filepath,
            line: req.line,
            character: req.character,
            target: PositionTarget::Jump,
        },
        TypstActorRequest::SyncMemoryFiles(files) => SupervisorStep::ChangeMemory(
            update_memory_files(files, true),
        ),
        TypstActorRequest::UpdateMemoryFiles(files) => SupervisorStep::ChangeMemory(
            update_memory_files(files, false),
        ),
        TypstActorRequest::RemoveMemoryFiles(files) => SupervisorStep::ChangeMemory(
            remove_shadow_files(files),
        ),
    }
}

/// What an answer of the compiler is worth: what it found, and nothing where
/// it found nothing or failed.
pub fn probe_outcome<T, E>(answer: Result<Option<T>, E>) -> (res: Option<T>)
    ensures
        res == match answer {
            Ok(found) => found,
            Err(_) => None::<T>,
        },
{
    match answer {
        Ok(found) => found,
        Err(_) => None,
    }
}

/// The event for the editor after a span range was resolved: `st`, `ed` and
/// `elem` are what the three questions of [`SpanProbes`] found. There is no
/// event exactly where none of them found anything.
pub fn span_range_reply(
    st: Option<DocToSrcJumpInfo>,
    ed: Option<DocToSrcJumpInfo>,
    elem: Option<DocToSrcJumpInfo>,
) -> (res: Option<EditorActorRequest>)
    ensures
        match res {
            Some(EditorActorRequest::DocToSrcJump(info)) => Some(info@) == resolve_range(
                probe_view(st),
                probe_view(ed),
                probe_view(elem),
            ),
            Some(_) => false,
            None => st is None && ed is None && elem is None,
        },
{
    match resolve_span_range(st, ed, elem) {
        Some(info) => Some(EditorActorRequest::DocToSrcJump(info)),
        None => None,
    }
}

/// The event for the viewers after a place in the source was resolved to
/// the position `position`. There is no event where nothing was found.
pub fn position_reply(target: PositionTarget, position: Option<DocumentPosition>) -> (res: Option<
    WebviewActorRequest,
>)
    ensures
        res == match position {
            Some(p) => Some(
                match target {
                    PositionTarget::Cursor => WebviewActorRequest::CursorPosition(p),
                    PositionTarget::Jump => WebviewActorRequest::SrcToDocJump(p),
                },
            ),
            None => None::<WebviewActorRequest>,
        },
{
    match position {
        Some(p) => Some(
            match target {
                PositionTarget::Cursor => WebviewActorRequest::CursorPosition(p),
                PositionTarget::Jump => WebviewActorRequest::SrcToDocJump(p),
            },
        ),
        None => None,
    }
}

/// The status that ends a compilation.
pub open spec fn outcome_status(succeeded: bool) -> CompileStatus {
    if succeeded {
        CompileStatus::CompileSuccess
    } else {
        CompileStatus::CompileError
    }
}

/// The statuses that the editor gets for one compilation.
pub open spec fn statuses_of_attempt(succeeded: bool) -> Seq<CompileStatus> {
    seq![CompileStatus::Compiling, outcome_status(succeeded)]
}

/// The two statuses that the editor gets for one compilation: the first
/// before the compilation starts, the second when it has ended.
pub fn attempt_statuses(succeeded: bool) -> (res: (CompileStatus, CompileStatus))
    ensures
        res == (CompileStatus::Compiling, outcome_status(succeeded)),
        seq![res.0, res.1] == statuses_of_attempt(succeeded),
{
    let outcome = if succeeded {
        CompileStatus::CompileSuccess
    } else {
        CompileStatus::CompileError
    };
    (CompileStatus::Compiling, outcome)
}

/// Runs one compilation and reports on it.
///
/// `announce` is handed the status `Compiling`, once, and only when it has
/// returned does `compile` run, once: `compile` may count on the
/// announcement. The status that ends the compilation comes back beside what
/// `compile` gave: it is `CompileSuccess` where that is `Ok`, and
/// `CompileError` where it is not.
pub fn wrap_compile<T, E, A, F>(announce: A, compile: F) -> (res: (Result<T, E>, CompileStatus))
    where
        A: FnOnce(CompileStatus),
        F: FnOnce() -> Result<T, E>,
    requires
        announce.requires((CompileStatus::Compiling,)),
        announce.ensures((CompileStatus::Compiling,), ()) ==> compile.requires(()),
    ensures
        announce.ensures((CompileStatus::Compiling,), ()),
        compile.ensures((), res.0),
        res.1 == outcome_status(res.0 is Ok),
        seq![CompileStatus::Compiling, res.1] == statuses_of_attempt(res.0 is Ok),
{
    announce(CompileStatus::Compiling);
    let doc = compile();
    let status = attempt_statuses(doc.is_ok()).1;
    (doc, status)
}

/// The trigger for the render actors after a document was published.
pub fn published_trigger() -> (res: RenderActorRequest)
    ensures
        res == RenderActorRequest::RenderIncremental,
{
    RenderActorRequest::RenderIncremental
}

/// Publishes what a compilation gave. A document goes into the cell in place
/// of the one before, and the render actors are to be triggered; after a
/// failure the cell keeps what it held, and there is nothing to trigger.
pub fn publish_result<T, E>(cell: &mut PublisherImpl<T>, result: Result<Arc<T>, E>) -> (res: Option<
    RenderActorRequest,
>)
    ensures
        match result {
            Ok(document) => {
                &&& res == Some(RenderActorRequest::RenderIncremental)
                &&& final(cell).held() == Some(document)
                &&& final(cell).version() == old(cell).version() + 1
            },
            Err(_) => {
                &&& res is None
                &&& final(cell).held() == old(cell).held()
                &&& final(cell).version() == old(cell).version()
            },
        },
{
    match result {
        Ok(document) => {
            cell.publish(document);
            Some(published_trigger())
        },
        Err(_) => None,
    }
}

/// The statuses of any number of compilations, one after the other.
pub open spec fn statuses_of_attempts(outcomes: Seq<bool>) -> Seq<CompileStatus>
    decreases outcomes.len(),
{
    if outcomes.len() == 0 {
        Seq::empty()
    } else {
        statuses_of_attempts(outcomes.drop_last()) + statuses_of_attempt(outcomes.last())
    }
}

/// For every compilation the editor gets `Compiling` once and then the
/// status that ends it once, and nothing else.
pub proof fn law_two_statuses_per_attempt(outcomes: Seq<bool>, i: int)
    requires
        0 <= i < outcomes.len(),
    ensures
        statuses_of_attempts(outcomes).len() == 2 * outcomes.len(),
        statuses_of_attempts(outcomes)[2 * i] == CompileStatus::Compiling,
        statuses_of_attempts(outcomes)[2 * i + 1] == outcome_status(outcomes[i]),
    decreases outcomes.len(),
{
    lemma_statuses_len(outcomes);
    let front = outcomes.drop_last();
    lemma_statuses_len(front);
    if i < outcomes.len() - 1 {
        law_two_statuses_per_attempt(front, i);
    }
}

proof fn lemma_statuses_len(outcomes: Seq<bool>)
    ensures
        statuses_of_attempts(outcomes).len() == 2 * outcomes.len(),
    decreases outcomes.len(),
{
    if outcomes.len() > 0 {
        lemma_statuses_len(outcomes.drop_last());
    }
}

} // verus!
