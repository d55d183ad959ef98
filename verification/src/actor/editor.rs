//! The editor actor: it owns the editor's socket.
//!
//! Both ways the socket carries one JSON object per text frame, with the name
//! of the event under `event`. This module holds what the objects mean: which
//! request of the server a message of the editor becomes, and which object an
//! event for the editor becomes.

use crate::actor::typst::TypstActorRequest;
use crate::actor::webview::WebviewActorRequest;
use crate::debug_loc::DocumentPosition;
use crate::jump::{DocToSrcJumpInfo, SpanOffset};
use crate::outline::{span_text, Outline};
use crate::request::{
    ChangeCursorPositionRequest, MemoryFiles, MemoryFilesShort, SrcToDocJumpRequest,
};
use crate::text::{
    law_unsigned_text_is_ascii, law_unsigned_text_round_trip, parse_u64, parse_unsigned,
};
use vstd::prelude::*;
use vstd::string::StringSliceAdditionalSpecFns;
use vstd::utf8::encode_utf8;

verus! {

/// The editor asks for the source of a span.
#[derive(Debug)]
pub struct DocToSrcJumpResolveRequest {
    /// Span id in hex-format.
    pub span: String,
}

/// The editor asks the viewers to scroll to a position.
#[derive(Debug)]
pub struct PanelScrollByPositionRequest {
    pub position: DocumentPosition,
}

/// How a compilation stands.
#[derive(Debug, Clone, Copy, PartialEq, Eq, Structural)]
pub enum CompileStatus {
    Compiling,
    CompileSuccess,
    CompileError,
}

/// An event for the editor.
#[derive(Debug)]
pub enum EditorActorRequest {
    DocToSrcJump(DocToSrcJumpInfo),
    Outline(Outline),
    CompileStatus(CompileStatus),
}

/// A message of the editor.
#[derive(Debug)]
pub enum ControlPlaneMessage {
    /// `changeCursorPosition`
    ChangeCursorPosition(ChangeCursorPositionRequest),
    /// `panelScrollTo`
    SrcToDocJump(SrcToDocJumpRequest),
    /// `panelScrollByPosition`
    PanelScrollByPosition(PanelScrollByPositionRequest),
    /// `sourceScrollBySpan`
    DocToSrcJumpResolve(DocToSrcJumpResolveRequest),
    /// `syncMemoryFiles`
    SyncMemoryFiles(MemoryFiles),
    /// `updateMemoryFiles`
    UpdateMemoryFiles(MemoryFiles),
    /// `removeMemoryFiles`
    RemoveMemoryFiles(MemoryFilesShort),
}

/// A message for the editor.
#[derive(Debug)]
pub enum ControlPlaneResponse {
    /// `editorScrollTo`
    EditorScrollTo(DocToSrcJumpInfo),
    /// `syncEditorChanges`
    SyncEditorChanges,
    /// `compileStatus`
    CompileStatus(CompileStatus),
    /// `outline`
    Outline(Outline),
}

/// What the editor actor does with a message of the editor.
#[derive(Debug)]
pub enum EditorAction {
    /// Send the request to the compiler supervisor.
    ToSupervisor(TypstActorRequest),
    /// Send the event to every viewer.
    ToViewers(WebviewActorRequest),
    /// Drop the message.
    Ignore,
}

/// The name of the event under which a message goes to the editor.
pub open spec fn response_event(response: ControlPlaneResponse) -> Seq<char> {
    match response {
        ControlPlaneResponse::EditorScrollTo(_) => "editorScrollTo"@,
        ControlPlaneResponse::SyncEditorChanges => "syncEditorChanges"@,
        ControlPlaneResponse::CompileStatus(_) => "compileStatus"@,
        ControlPlaneResponse::Outline(_) => "outline"@,
    }
}

/// The name of the event under which a message comes from the editor.
pub open spec fn message_event(message: ControlPlaneMessage) -> Seq<char> {
    match message {
        ControlPlaneMessage::ChangeCursorPosition(_) => "changeCursorPosition"@,
        ControlPlaneMessage::SrcToDocJump(_) => "panelScrollTo"@,
        ControlPlaneMessage::PanelScrollByPosition(_) => "panelScrollByPosition"@,
        ControlPlaneMessage::DocToSrcJumpResolve(_) => "sourceScrollBySpan"@,
        ControlPlaneMessage::SyncMemoryFiles(_) => "syncMemoryFiles"@,
        ControlPlaneMessage::UpdateMemoryFiles(_) => "updateMemoryFiles"@,
        ControlPlaneMessage::RemoveMemoryFiles(_) => "removeMemoryFiles"@,
    }
}

/// The name under which a compile status goes to the editor.
pub open spec fn status_name(status: CompileStatus) -> Seq<char> {
    match status {
        CompileStatus::Compiling => "Compiling"@,
        CompileStatus::CompileSuccess => "CompileSuccess"@,
        CompileStatus::CompileError => "CompileError"@,
    }
}

impl CompileStatus {
    /// The name under which this status goes to the editor.
    pub fn name(&self) -> (res: &'static str)
        ensures
            res@ == status_name(*self),
    {
        match self {
            CompileStatus::Compiling => "Compiling",
            CompileStatus::CompileSuccess => "CompileSuccess",
            CompileStatus::CompileError => "CompileError",
        }
    }
}

impl ControlPlaneResponse {
    /// The name of the event under which this message goes to the editor.
    pub fn event(&self) -> (res: &'static str)
        ensures
            res@ == response_event(*self),
    {
        match self {
            ControlPlaneResponse::EditorScrollTo(_) => "editorScrollTo",
            ControlPlaneResponse::SyncEditorChanges => "syncEditorChanges",
            ControlPlaneResponse::CompileStatus(_) => "compileStatus",
            ControlPlaneResponse::Outline(_) => "outline",
        }
    }
}

impl ControlPlaneMessage {
    /// The name of the event under which this message comes from the editor.
    pub fn event(&self) -> (res: &'static str)
        ensures
            res@ == message_event(*self),
    {
        match self {
            ControlPlaneMessage::ChangeCursorPosition(_) => "changeCursorPosition",
            ControlPlaneMessage::SrcToDocJump(_) => "panelScrollTo",
            ControlPlaneMessage::PanelScrollByPosition(_) => "panelScrollByPosition",
            ControlPlaneMessage::DocToSrcJumpResolve(_) => "sourceScrollBySpan",
            ControlPlaneMessage::SyncMemoryFiles(_) => "syncMemoryFiles",
            ControlPlaneMessage::UpdateMemoryFiles(_) => "updateMemoryFiles",
            ControlPlaneMessage::RemoveMemoryFiles(_) => "removeMemoryFiles",
        }
    }
}

/// The message with which the editor actor greets the editor: it asks the
/// editor to send the files that it holds unsaved.
pub fn greeting() -> (res: ControlPlaneResponse)
    ensures
        res == ControlPlaneResponse::SyncEditorChanges,
{
    ControlPlaneResponse::SyncEditorChanges
}

/// The message for the editor that the event `request` becomes.
pub open spec fn response_for(request: EditorActorRequest) -> ControlPlaneResponse {
    match request {
        EditorActorRequest::DocToSrcJump(info) => ControlPlaneResponse::EditorScrollTo(info),
        EditorActorRequest::CompileStatus(status) => ControlPlaneResponse::CompileStatus(status),
        EditorActorRequest::Outline(outline) => ControlPlaneResponse::Outline(outline),
    }
}

/// Turns an event for the editor into the message that the editor gets.
pub fn respond(request: EditorActorRequest) -> (res: ControlPlaneResponse)
    ensures
        res == response_for(request),
{
    match request {
        EditorActorRequest::DocToSrcJump(info) => ControlPlaneResponse::EditorScrollTo(info),
        EditorActorRequest::CompileStatus(status) => ControlPlaneResponse::CompileStatus(status),
        EditorActorRequest::Outline(outline) => ControlPlaneResponse::Outline(outline),
    }
}

/// The request for the source of the span that `text` names in hexadecimal:
/// a range that starts and ends at the start of that span. There is none
/// where `text` is no number, or the number 0, which names no span.
pub open spec fn span_request(text: Seq<u8>) -> Option<TypstActorRequest> {
    match parse_unsigned(text, 16, u64::MAX as int) {
        Some(id) => if id == 0 {
            None
        } else {
            let at = SpanOffset { span: id as u64, offset: 0 };
            Some(TypstActorRequest::DocToSrcJumpResolve((at, at)))
        },
        None => None,
    }
}

/// What the editor actor does with the message `message`.
pub open spec fn action_for(message: ControlPlaneMessage) -> EditorAction {
    match message {
        ControlPlaneMessage::ChangeCursorPosition(cursor) => EditorAction::ToSupervisor(
            TypstActorRequest::ChangeCursorPosition(cursor),
        ),
        ControlPlaneMessage::SrcToDocJump(jump) => EditorAction::ToSupervisor(
            TypstActorRequest::SrcToDocJumpResolve(jump),
        ),
        ControlPlaneMessage::PanelScrollByPosition(scroll) => EditorAction::ToViewers(
            WebviewActorRequest::ViewportPosition(scroll.position),
        ),
        ControlPlaneMessage::DocToSrcJumpResolve(jump) => match span_request(
            encode_utf8(jump.span@),
        ) {
            Some(request) => EditorAction::ToSupervisor(request),
            None => EditorAction::Ignore,
        },
        ControlPlaneMessage::SyncMemoryFiles(files) => EditorAction::ToSupervisor(
            TypstActorRequest::SyncMemoryFiles(files),
        ),
        ControlPlaneMessage::UpdateMemoryFiles(files) => EditorAction::ToSupervisor(
            TypstActorRequest::UpdateMemoryFiles(files),
        ),
        ControlPlaneMessage::RemoveMemoryFiles(files) => EditorAction::ToSupervisor(
            TypstActorRequest::RemoveMemoryFiles(files),
        ),
    }
}

/// Decides what to do with a message of the editor.
pub fn route(message: ControlPlaneMessage) -> (res: EditorAction)
    ensures
        res == action_for(message),
{
    match message {
        ControlPlaneMessage::ChangeCursorPosition(cursor) => EditorAction::ToSupervisor(
            TypstActorRequest::ChangeCursorPosition(cursor),
        ),
        ControlPlaneMessage::SrcToDocJump(jump) => EditorAction::ToSupervisor(
            TypstActorRequest::SrcToDocJumpResolve(jump),
        ),
        ControlPlaneMessage::PanelScrollByPosition(scroll) => EditorAction::ToViewers(
            WebviewActorRequest::ViewportPosition(scroll.position),
        ),
        ControlPlaneMessage::DocToSrcJumpResolve(jump) => {
            match parse_u64(jump.span.as_str().as_bytes(), 16) {
                Some(id) => {
                    if id == 0 {
                        EditorAction::Ignore
                    } else {
                        let at = SpanOffset::from_span(id);
                        EditorAction::ToSupervisor(TypstActorRequest::DocToSrcJumpResolve((at, at)))
                    }
                },
                None => EditorAction::Ignore,
            }
        },
        ControlPlaneMessage::SyncMemoryFiles(files) => EditorAction::ToSupervisor(
            TypstActorRequest::SyncMemoryFiles(files),
        ),
        ControlPlaneMessage::UpdateMemoryFiles(files) => EditorAction::ToSupervisor(
            TypstActorRequest::UpdateMemoryFiles(files),
        ),
        ControlPlaneMessage::RemoveMemoryFiles(files) => EditorAction::ToSupervisor(
            TypstActorRequest::RemoveMemoryFiles(files),
        ),
    }
}

/// Decides what to do with a text frame of the editor: `message` is what
/// the frame read as, and `None` where it could not be read. A frame that
/// cannot be read is dropped, and the connection stays.
pub fn route_frame(message: Option<ControlPlaneMessage>) -> (res: EditorAction)
    ensures
        res == match message {
            Some(m) => action_for(m),
            None => EditorAction::Ignore,
        },
{
    match message {
        Some(m) => route(m),
        None => EditorAction::Ignore,
    }
}

/// A span that the editor names becomes a range that starts and ends at the
/// same place.
pub proof fn law_editor_span_is_degenerate(text: Seq<u8>)
    ensures
        match span_request(text) {
            Some(TypstActorRequest::DocToSrcJumpResolve((start, end))) => start == end,
            Some(_) => false,
            None => true,
        },
{
}

/// The span that an entry of the outline names is read back as that span
/// when the editor asks for its source.
pub proof fn law_outline_span_is_read_back(span: u64)
    requires
        span != 0,
    ensures
        span_request(encode_utf8(span_text(span))) == Some(
            TypstActorRequest::DocToSrcJumpResolve(
                (SpanOffset { span, offset: 0 }, SpanOffset { span, offset: 0 }),
            ),
        ),
{
    law_unsigned_text_is_ascii(span as nat, 16);
    law_unsigned_text_round_trip(span as nat, 16, u64::MAX as int);
}

} // verus!
