//! The world actor: a supervisor that compiles on its own thread and
//! watches the file system itself.
//!
//! It takes all requests that wait for it at once, and compiles once behind
//! them where one of them asks for it.

use crate::request::{MemoryFiles, MemoryFilesShort, SrcToDocJumpRequest};
use crate::shadow::{
    inserting, remove_shadow_files, removing, update_memory_files, Change, MemoryEvent,
};
use vstd::prelude::*;

verus! {

/// The news that something changed in the file system.
#[derive(Debug, Clone, Copy, PartialEq, Eq, Structural)]
pub struct FilesystemEvent {
    /// Does the change touch a file that the document depends on?
    pub relevant: bool,
}

/// A request to the world actor.
#[derive(Debug)]
pub enum WorldActorRequest {
    DocToSrcJumpResolve(u64),
    SrcToDocJumpResolve(SrcToDocJumpRequest),
    SyncMemoryFiles(MemoryFiles),
    UpdateMemoryFiles(MemoryFiles),
    RemoveMemoryFiles(MemoryFilesShort),
    FilesystemEvent(FilesystemEvent),
}

/// Does the request `mail` ask for a new compilation?
pub open spec fn needs_recompile(mail: WorldActorRequest) -> bool {
    match mail {
        WorldActorRequest::DocToSrcJumpResolve(_) => false,
        WorldActorRequest::SrcToDocJumpResolve(_) => false,
        WorldActorRequest::SyncMemoryFiles(_) => true,
        WorldActorRequest::UpdateMemoryFiles(_) => true,
        WorldActorRequest::RemoveMemoryFiles(_) => true,
        WorldActorRequest::FilesystemEvent(event) => event.relevant,
    }
}

/// Does one of the requests `mails` ask for a new compilation?
pub open spec fn any_needs_recompile(mails: Seq<WorldActorRequest>) -> bool {
    exists|i: int| 0 <= i < mails.len() && needs_recompile(#[trigger] mails[i])
}

/// Does the request `mail` ask for a new compilation?
pub fn need_recompile(mail: &WorldActorRequest) -> (res: bool)
    ensures
        res == needs_recompile(*mail),
{
    match mail {
        WorldActorRequest::DocToSrcJumpResolve(_) => false,
        WorldActorRequest::SrcToDocJumpResolve(_) => false,
        WorldActorRequest::SyncMemoryFiles(_) => true,
        WorldActorRequest::UpdateMemoryFiles(_) => true,
        WorldActorRequest::RemoveMemoryFiles(_) => true,
        WorldActorRequest::FilesystemEvent(event) => event.relevant,
    }
}

/// Do the requests that were taken at once ask for a new compilation? However
/// many of them do, the actor compiles once.
pub fn batch_needs_recompile(mails: &Vec<WorldActorRequest>) -> (res: bool)
    ensures
        res == any_needs_recompile(mails@),
{
    let mut i: usize = 0;
    while i < mails.len()
        invariant
            i <= mails@.len(),
            forall|j: int| 0 <= j < i ==> !needs_recompile(#[trigger] mails@[j]),
        decreases mails@.len() - i,
    {
        if need_recompile(&mails[i]) {
            return true;
        }
        i += 1;
    }
    false
}

/// Plans what the actor does with the requests that it took at once: it
/// serves every one of them, in the order in which they came, and compiles
/// once behind them where one of them asks for it.
pub fn plan_batch(batch: Vec<WorldActorRequest>) -> (res: (Vec<WorldActorRequest>, bool))
    ensures
        res.0@ == batch@,
        res.1 == any_needs_recompile(batch@),
{
    let recompile = batch_needs_recompile(&batch);
    (batch, recompile)
}

/// The file that the span with number `id` belongs to: the upper 16 bits.
pub open spec fn span_file(id: u64) -> u16 {
    (id >> 48) as u16
}

/// The number of the span with number `id` within its file: the lower 48
/// bits.
pub open spec fn span_number(id: u64) -> u64 {
    id & 0x0000_ffff_ffff_ffff
}

/// Takes the number of a span apart into the file that the span belongs to
/// and its number within the file. There is no span to look for where the
/// file is `detached`, the file of spans that belong nowhere, or where the
/// number within the file is 0 or 1, which no node of a file has.
pub fn split_span(id: u64, detached: u16) -> (res: Option<(u16, u64)>)
    ensures
        res == if span_file(id) == detached || span_number(id) <= 1 {
            None
        } else {
            Some((span_file(id), span_number(id)))
        },
{
    let file: u16 = (id >> 48) as u16;
    let number: u64 = id & 0x0000_ffff_ffff_ffff;
    if file == detached || number <= 1 {
        None
    } else {
        Some((file, number))
    }
}

/// What the actor does to serve one request.
#[derive(Debug)]
pub enum WorldStep {
    /// Look up where the span with this number lies in the source, and tell
    /// the editor.
    ResolveSpan(u64),
    /// Look up where this place of the source lies in the document, and tell
    /// the viewers.
    ResolvePosition(SrcToDocJumpRequest),
    /// Change the shadow files.
    ChangeMemory(MemoryEvent),
    /// Nothing: there is no span to look for, or the request only asks for
    /// a compilation.
    Nothing,
}

/// `step` is what the actor does to serve the request `mail`, where
/// `detached` is the file of spans that belong nowhere.
pub open spec fn is_step_for(step: WorldStep, mail: WorldActorRequest, detached: u16) -> bool {
    match mail {
        WorldActorRequest::DocToSrcJumpResolve(id) => if span_file(id) == detached || span_number(
            id,
        ) <= 1 {
            step is Nothing
        } else {
            step == WorldStep::ResolveSpan(id)
        },
        WorldActorRequest::SrcToDocJumpResolve(req) => step == WorldStep::ResolvePosition(req),
        WorldActorRequest::SyncMemoryFiles(files) => match step {
            WorldStep::ChangeMemory(event) => event@ == Change::Sync(
                inserting(files.files.deep_view()),
            ),
            _ => false,
        },
        WorldActorRequest::UpdateMemoryFiles(files) => match step {
            WorldStep::ChangeMemory(event) => event@ == Change::Update(
                inserting(files.files.deep_view()),
            ),
            _ => false,
        },
        WorldActorRequest::RemoveMemoryFiles(files) => match step {
            WorldStep::ChangeMemory(event) => event@ == Change::Update(
                removing(files.files.deep_view()),
            ),
            _ => false,
        },
        WorldActorRequest::FilesystemEvent(_) => step is Nothing,
    }
}

/// Decides what the actor does to serve one request.
pub fn serve(mail: WorldActorRequest, detached: u16) -> (res: WorldStep)
    ensures
        is_step_for(res, mail, detached),
{
    match mail {
        WorldActorRequest::DocToSrcJumpResolve(id) => match split_span(id, detached) {
            Some(_) => WorldStep::ResolveSpan(id),
            None => WorldStep::Nothing,
        },
        WorldActorRequest::SrcToDocJumpResolve(req) => WorldStep::ResolvePosition(req),
        WorldActorRequest::SyncMemoryFiles(files) => WorldStep::ChangeMemory(
            update_memory_files(files, true),
        ),
        WorldActorRequest::UpdateMemoryFiles(files) => WorldStep::ChangeMemory(
            update_memory_files(files, false),
        ),
        WorldActorRequest::RemoveMemoryFiles(files) => WorldStep::ChangeMemory(
            remove_shadow_files(files),
        ),
        WorldActorRequest::FilesystemEvent(_) => WorldStep::Nothing,
    }
}

/// The two parts of the number of a span make up the number.
pub proof fn law_span_parts_make_up_number(id: u64)
    ensures
        ((span_file(id) as u64) << 48) | span_number(id) == id,
        span_number(id) < 0x1_0000_0000_0000,
{
    assert((((id >> 48) as u16) as u64) << 48 | (id & 0x0000_ffff_ffff_ffff) == id)
        by (bit_vector);
    assert(id & 0x0000_ffff_ffff_ffff < 0x1_0000_0000_0000) by (bit_vector);
}

} // verus!
