//! The webview actor of a viewer: it owns the viewer's socket.
//!
//! Towards the viewer every frame is binary. A frame that begins with
//! `jump,`, `viewport,`, `cursor,` or `partial-rendering,` carries text for
//! the viewer itself; any other frame is a render payload. From the viewer
//! come text frames:
//!
//! ```text
//! current
//! srclocation <hex number>
//! outline-sync,<page> <x> <y>
//! srcpath <JSON array of [number, number, string]>
//! ```

use crate::actor::render::{RenderActorRequest, ResolveSpanRequest};
use crate::actor::typst::TypstActorRequest;
use crate::debug_loc::DocumentPosition;
use crate::jump::SpanOffset;
use crate::text::{
    bytes_eq, copy_range, find_byte, first_index_of, has_prefix, nth_token, parse_u64,
    parse_unsigned, parse_usize, push_unsigned, starts_with, token, unsigned_text,
};
use vstd::prelude::*;
use vstd::string::StringSliceAdditionalSpecFns;

verus! {

pub type CursorPosition = DocumentPosition;

pub type SrcToDocJumpInfo = DocumentPosition;

/// A position event for the viewers.
#[derive(Debug, Clone)]
pub enum WebviewActorRequest {
    ViewportPosition(DocumentPosition),
    SrcToDocJump(SrcToDocJumpInfo),
    CursorPosition(CursorPosition),
}

/// The name under which a position event goes to the viewer.
pub open spec fn event_name(req: WebviewActorRequest) -> Seq<u8> {
    match req {
        WebviewActorRequest::SrcToDocJump(_) => "jump".spec_bytes(),
        WebviewActorRequest::ViewportPosition(_) => "viewport".spec_bytes(),
        WebviewActorRequest::CursorPosition(_) => "cursor".spec_bytes(),
    }
}

/// The position that a position event carries.
pub open spec fn position_of(req: WebviewActorRequest) -> DocumentPosition {
    match req {
        WebviewActorRequest::SrcToDocJump(p) => p,
        WebviewActorRequest::ViewportPosition(p) => p,
        WebviewActorRequest::CursorPosition(p) => p,
    }
}

/// The text of a position frame: the event, a comma, the page, and the two
/// coordinates, with a blank before each coordinate.
pub open spec fn position_text(event: Seq<u8>, page_no: nat, x: Seq<u8>, y: Seq<u8>) -> Seq<u8> {
    event + seq![0x2cu8] + unsigned_text(page_no, 10) + seq![0x20u8] + x + seq![0x20u8] + y
}

impl WebviewActorRequest {
    /// The name under which this event goes to the viewer.
    pub fn event(&self) -> (res: &'static str)
        ensures
            res.spec_bytes() == event_name(*self),
    {
        match self {
            WebviewActorRequest::SrcToDocJump(_) => "jump",
            WebviewActorRequest::ViewportPosition(_) => "viewport",
            WebviewActorRequest::CursorPosition(_) => "cursor",
        }
    }

    /// The position that this event carries.
    pub fn position(&self) -> (res: DocumentPosition)
        ensures
            res == position_of(*self),
    {
        match self {
            WebviewActorRequest::SrcToDocJump(p) => *p,
            WebviewActorRequest::ViewportPosition(p) => *p,
            WebviewActorRequest::CursorPosition(p) => *p,
        }
    }
}

/// The frame that tells a viewer of a position: `x` and `y` are the
/// coordinates as they are to be printed.
pub fn position_req(event: &str, page_no: usize, x: &str, y: &str) -> (res: Vec<u8>)
    ensures
        res@ == position_text(event.spec_bytes(), page_no as nat, x.spec_bytes(), y.spec_bytes()),
{
    let mut res: Vec<u8> = Vec::new();
    res.extend_from_slice(event.as_bytes());
    res.push(0x2c);
    push_unsigned(&mut res, page_no as u64, 10);
    res.push(0x20);
    res.extend_from_slice(x.as_bytes());
    res.push(0x20);
    res.extend_from_slice(y.as_bytes());
    proof {
        assert(res@ =~= position_text(
            event.spec_bytes(),
            page_no as nat,
            x.spec_bytes(),
            y.spec_bytes(),
        ));
    }
    res
}

/// The frame for the position event `req`, with its coordinates as they are
/// to be printed.
pub fn position_frame(req: &WebviewActorRequest, x: &str, y: &str) -> (res: Vec<u8>)
    ensures
        res@ == position_text(
            event_name(*req),
            position_of(*req).page_no as nat,
            x.spec_bytes(),
            y.spec_bytes(),
        ),
{
    position_req(req.event(), req.position().page_no, x, y)
}

/// The frame that a viewer gets first where partial rendering is switched on.
pub fn partial_rendering_frame(enabled: bool) -> (res: Option<Vec<u8>>)
    ensures
        match res {
            Some(frame) => enabled && frame@ == "partial-rendering,true".spec_bytes(),
            None => !enabled,
        },
{
    if enabled {
        let mut frame: Vec<u8> = Vec::new();
        frame.extend_from_slice("partial-rendering,true".as_bytes());
        Some(frame)
    } else {
        None
    }
}

/// A frame to a viewer carries text for the viewer itself, and no render
/// payload.
pub open spec fn is_control_text(payload: Seq<u8>) -> bool {
    ||| has_prefix(payload, "jump,".spec_bytes())
    ||| has_prefix(payload, "viewport,".spec_bytes())
    ||| has_prefix(payload, "cursor,".spec_bytes())
    ||| has_prefix(payload, "partial-rendering,".spec_bytes())
}

/// Does this frame to a viewer carry text for the viewer itself?
pub fn is_control_frame(payload: &[u8]) -> (res: bool)
    ensures
        res == is_control_text(payload@),
{
    starts_with(payload, "jump,".as_bytes()) || starts_with(payload, "viewport,".as_bytes())
        || starts_with(payload, "cursor,".as_bytes()) || starts_with(
        payload,
        "partial-rendering,".as_bytes(),
    )
}

/// A text frame from a viewer, taken apart.
#[derive(Debug, Clone)]
pub enum ViewerFrame {
    /// `current`: the viewer asks for the whole document.
    Current,
    /// `srclocation`: the viewer asks for the source of the span with this
    /// number.
    SrcLocation(u64),
    /// `outline-sync`: the viewer scrolled; the coordinates are still text,
    /// and are missing where the frame did not hold them.
    OutlineSync { page_no: usize, x: Option<Vec<u8>>, y: Option<Vec<u8>> },
    /// `srcpath`: the viewer asks for the source of the element at the path
    /// that this JSON text spells.
    SrcPath(Vec<u8>),
    /// A frame of a known kind whose arguments cannot be read.
    Malformed,
    /// A frame of no known kind.
    Unknown,
}

/// The mathematical content of a [`ViewerFrame`].
pub ghost enum FrameView {
    Current,
    SrcLocation(u64),
    OutlineSync { page_no: usize, x: Option<Seq<u8>>, y: Option<Seq<u8>> },
    SrcPath(Seq<u8>),
    Malformed,
    Unknown,
}

/// The mathematical content of optional bytes.
pub open spec fn bytes_view(bytes: Option<Vec<u8>>) -> Option<Seq<u8>> {
    match bytes {
        Some(b) => Some(b@),
        None => None,
    }
}

impl View for ViewerFrame {
    type V = FrameView;

    open spec fn view(&self) -> FrameView {
        match *self {
            ViewerFrame::Current => FrameView::Current,
            ViewerFrame::SrcLocation(id) => FrameView::SrcLocation(id),
            ViewerFrame::OutlineSync { page_no, x, y } => FrameView::OutlineSync {
                page_no,
                x: bytes_view(x),
                y: bytes_view(y),
            },
            ViewerFrame::SrcPath(json) => FrameView::SrcPath(json@),
            ViewerFrame::Malformed => FrameView::Malformed,
            ViewerFrame::Unknown => FrameView::Unknown,
        }
    }
}

/// What a `srclocation` frame holds: the second of its words is the number of
/// the span, in hexadecimal.
pub open spec fn src_location_frame(text: Seq<u8>) -> FrameView {
    match nth_token(text, 0x20, 1) {
        Some(word) => match parse_unsigned(word, 16, u64::MAX as int) {
            Some(id) => FrameView::SrcLocation(id as u64),
            None => FrameView::Malformed,
        },
        None => FrameView::Malformed,
    }
}

/// What an `outline-sync` frame holds: behind the first comma and up to the
/// next stand the page and, as far as they are given, the two coordinates,
/// with blanks between them.
pub open spec fn outline_sync_frame(text: Seq<u8>) -> FrameView {
    match nth_token(text, 0x2c, 1) {
        Some(location) => match parse_unsigned(
            nth_token(location, 0x20, 0)->0,
            10,
            usize::MAX as int,
        ) {
            Some(page_no) => FrameView::OutlineSync {
                page_no: page_no as usize,
                x: nth_token(location, 0x20, 1),
                y: nth_token(location, 0x20, 2),
            },
            None => FrameView::Malformed,
        },
        None => FrameView::Malformed,
    }
}

/// What a `srcpath` frame holds: all that stands behind its first blank is
/// the JSON text of the path, blanks and all.
pub open spec fn src_path_frame(text: Seq<u8>) -> FrameView {
    let blank = first_index_of(text, 0x20, 0);
    if blank < text.len() {
        FrameView::SrcPath(text.subrange(blank + 1, text.len() as int))
    } else {
        FrameView::Malformed
    }
}

/// What a text frame from a viewer holds.
pub open spec fn frame_of(text: Seq<u8>) -> FrameView {
    if text == "current".spec_bytes() {
        FrameView::Current
    } else if has_prefix(text, "srclocation".spec_bytes()) {
        src_location_frame(text)
    } else if has_prefix(text, "outline-sync".spec_bytes()) {
        outline_sync_frame(text)
    } else if has_prefix(text, "srcpath".spec_bytes()) {
        src_path_frame(text)
    } else {
        FrameView::Unknown
    }
}

/// Takes a text frame from a viewer apart.
pub fn parse_frame(text: &[u8]) -> (res: ViewerFrame)
    ensures
        res@ == frame_of(text@),
{
    if bytes_eq(text, "current".as_bytes()) {
        ViewerFrame::Current
    } else if starts_with(text, "srclocation".as_bytes()) {
        match token(text, 0x20, 1) {
            Some(word) => match parse_u64(word.as_slice(), 16) {
                Some(id) => ViewerFrame::SrcLocation(id),
                None => ViewerFrame::Malformed,
            },
            None => ViewerFrame::Malformed,
        }
    } else if starts_with(text, "outline-sync".as_bytes()) {
        match token(text, 0x2c, 1) {
            Some(location) => {
                let page = match token(location.as_slice(), 0x20, 0) {
                    Some(word) => parse_usize(word.as_slice(), 10),
                    None => None,
                };
                match page {
                    Some(page_no) => ViewerFrame::OutlineSync {
                        page_no,
                        x: token(location.as_slice(), 0x20, 1),
                        y: token(location.as_slice(), 0x20, 2),
                    },
                    None => ViewerFrame::Malformed,
                }
            },
            None => ViewerFrame::Malformed,
        }
    } else if starts_with(text, "srcpath".as_bytes()) {
        let blank = find_byte(text, 0x20, 0);
        if blank < text.len() {
            ViewerFrame::SrcPath(copy_range(text, blank + 1, text.len()))
        } else {
            ViewerFrame::Malformed
        }
    } else {
        ViewerFrame::Unknown
    }
}

/// The path that a JSON text spells: an array of arrays of two numbers
/// below 2^32 and a string. `None` where the text spells no such thing.
pub uninterp spec fn span_path_of_json(text: Seq<u8>) -> Option<Seq<(u32, u32, Seq<char>)>>;

/// The error of `serde_json`, of which the library reads nothing.
#[verifier::external_type_specification]
#[verifier::external_body]
pub struct ExJsonError(serde_json::Error);

/// `serde_json::from_slice`, reading a vector of triples of two `u32` and a
/// `String`. What it reads is a function of the text alone; that function is
/// [`span_path_of_json`]. It fails exactly where that function gives `None`.
#[verifier::external_body]
fn decode_span_path(text: &[u8]) -> (res: Result<Vec<(u32, u32, String)>, serde_json::Error>)
    ensures
        match res {
            Ok(path) => span_path_of_json(text@) == Some(path.deep_view()),
            Err(_) => span_path_of_json(text@) is None,
        },
{
    serde_json::from_slice::<Vec<(u32, u32, String)>>(text)
}

/// What the webview actor does with a frame from its viewer.
#[derive(Debug)]
pub enum WebviewAction {
    /// Send the trigger to the render actors.
    Render(RenderActorRequest),
    /// Send the request to the compiler supervisor, and end where it is gone.
    Resolve(TypstActorRequest),
    /// Tell every viewer of this viewport position; the coordinates are still
    /// text, and the one that is missing counts as 0.
    Viewport { page_no: usize, x: Option<Vec<u8>>, y: Option<Vec<u8>> },
    /// Drop the frame.
    Ignore,
    /// Send the text to the viewer and close the connection.
    Reject(Vec<u8>),
}

/// The text that a viewer gets for a frame of no known kind.
pub open spec fn rejection_text(text: Seq<u8>) -> Seq<u8> {
    "error, received unknown message: ".spec_bytes() + text
}

/// `action` is what the webview actor does with the frame `frame`, whose text
/// was `text` and whose path (for a `srcpath` frame) read as `path`.
pub open spec fn is_action_for(
    action: WebviewAction,
    frame: FrameView,
    path: Option<Seq<(u32, u32, Seq<char>)>>,
    text: Seq<u8>,
) -> bool {
    match frame {
        FrameView::Current => action == WebviewAction::Render(RenderActorRequest::RenderFullLatest),
        FrameView::SrcLocation(id) => if id == 0 {
            action is Ignore
        } else {
            action == WebviewAction::Resolve(
                TypstActorRequest::DocToSrcJumpResolve(
                    (
                        SpanOffset { span: id, offset: 0 },
                        SpanOffset { span: id, offset: 0 },
                    ),
                ),
            )
        },
        FrameView::OutlineSync { page_no, x, y } => match action {
            WebviewAction::Viewport { page_no: p, x: ax, y: ay } => p == page_no && bytes_view(ax)
                == x && bytes_view(ay) == y,
            _ => false,
        },
        FrameView::SrcPath(_) => match path {
            Some(steps) => match action {
                WebviewAction::Render(RenderActorRequest::ResolveSpan(ResolveSpanRequest(p))) => p.deep_view()
                    == steps,
                _ => false,
            },
            None => action is Ignore,
        },
        FrameView::Malformed => action is Ignore,
        FrameView::Unknown => match action {
            WebviewAction::Reject(reply) => reply@ == rejection_text(text),
            _ => false,
        },
    }
}

/// What the webview actor does with the frame `frame`, whose text was `text`.
/// For a `srcpath` frame, `path` is what its JSON text read as; for any other
/// frame it is not looked at.
pub fn frame_action(frame: ViewerFrame, path: Option<Vec<(u32, u32, String)>>, text: &[u8]) -> (res:
    WebviewAction)
    ensures
        is_action_for(
            res,
            frame@,
            match path {
                Some(p) => Some(p.deep_view()),
                None => None,
            },
            text@,
        ),
{
    match frame {
        ViewerFrame::Current => WebviewAction::Render(RenderActorRequest::RenderFullLatest),
        ViewerFrame::SrcLocation(id) => {
            if id == 0 {
                WebviewAction::Ignore
            } else {
                let span = SpanOffset::from_span(id);
                WebviewAction::Resolve(TypstActorRequest::DocToSrcJumpResolve((span, span)))
            }
        },
        ViewerFrame::OutlineSync { page_no, x, y } => WebviewAction::Viewport { page_no, x, y },
        ViewerFrame::SrcPath(_) => match path {
            Some(p) => WebviewAction::Render(
                RenderActorRequest::ResolveSpan(ResolveSpanRequest(p)),
            ),
            None => WebviewAction::Ignore,
        },
        ViewerFrame::Malformed => WebviewAction::Ignore,
        ViewerFrame::Unknown => {
            let mut reply: Vec<u8> = Vec::new();
            reply.extend_from_slice("error, received unknown message: ".as_bytes());
            reply.extend_from_slice(text);
            proof {
                assert(reply@ =~= rejection_text(text@));
            }
            WebviewAction::Reject(reply)
        },
    }
}

/// The text that a viewer gets for a frame that is no text: `shown` is how
/// the frame prints.
pub open spec fn non_text_rejection(shown: Seq<u8>) -> Seq<u8> {
    "Webview Actor: error, received non-text message: ".spec_bytes() + shown
}

/// What the webview actor does with a frame from its viewer that is no text:
/// it tells the viewer so and closes the connection. `shown` is how the frame
/// prints.
pub fn reject_non_text(shown: &str) -> (res: WebviewAction)
    ensures
        match res {
            WebviewAction::Reject(reply) => reply@ == non_text_rejection(shown.spec_bytes()),
            _ => false,
        },
{
    let mut reply: Vec<u8> = Vec::new();
    reply.extend_from_slice("Webview Actor: error, received non-text message: ".as_bytes());
    reply.extend_from_slice(shown.as_bytes());
    proof {
        assert(reply@ =~= non_text_rejection(shown.spec_bytes()));
    }
    WebviewAction::Reject(reply)
}

/// Every position frame is told from a render payload by how it begins.
pub proof fn law_position_frames_are_control_text(
    req: WebviewActorRequest,
    page_no: nat,
    x: Seq<u8>,
    y: Seq<u8>,
)
    ensures
        is_control_text(position_text(event_name(req), page_no, x, y)),
{
    let frame = position_text(event_name(req), page_no, x, y);
    let event = event_name(req);
    let head = event + seq![0x2cu8];
    assert(frame.subrange(0, head.len() as int) =~= head);
    reveal_strlit("jump");
    reveal_strlit("viewport");
    reveal_strlit("cursor");
    reveal_strlit("jump,");
    reveal_strlit("viewport,");
    reveal_strlit("cursor,");
    vstd::string::is_ascii_spec_bytes("jump");
    vstd::string::is_ascii_spec_bytes("viewport");
    vstd::string::is_ascii_spec_bytes("cursor");
    vstd::string::is_ascii_spec_bytes("jump,");
    vstd::string::is_ascii_spec_bytes("viewport,");
    vstd::string::is_ascii_spec_bytes("cursor,");
    match req {
        WebviewActorRequest::SrcToDocJump(_) => {
            assert(head =~= "jump,".spec_bytes());
        },
        WebviewActorRequest::ViewportPosition(_) => {
            assert(head =~= "viewport,".spec_bytes());
        },
        WebviewActorRequest::CursorPosition(_) => {
            assert(head =~= "cursor,".spec_bytes());
        },
    }
}

/// The JSON text that the frame `frame` asks to have read, where it is a
/// `srcpath` frame.
pub open spec fn path_text(frame: FrameView) -> Option<Seq<u8>> {
    match frame {
        FrameView::SrcPath(json) => Some(json),
        _ => None,
    }
}

/// What the webview actor does with a text frame from its viewer.
pub fn handle_text_frame(text: &[u8]) -> (res: WebviewAction)
    ensures
        is_action_for(
            res,
            frame_of(text@),
            match path_text(frame_of(text@)) {
                Some(json) => span_path_of_json(json),
                None => None,
            },
            text@,
        ),
{
    let frame = parse_frame(text);
    let path = match &frame {
        ViewerFrame::SrcPath(json) => match decode_span_path(json.as_slice()) {
            Ok(p) => Some(p),
            Err(_) => None,
        },
        _ => None,
    };
    frame_action(frame, path, text)
}

} // verus!
