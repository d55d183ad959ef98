use typst_preview::actor::webview::reject_non_text;
use typst_preview::actor::render::RenderActorRequest;
use typst_preview::actor::typst::TypstActorRequest;
use typst_preview::actor::webview::{
    frame_action, handle_text_frame, is_control_frame, parse_frame, partial_rendering_frame,
    position_frame, position_req, ViewerFrame, WebviewAction, WebviewActorRequest,
};
use typst_preview::debug_loc::DocumentPosition;
use typst_preview::jump::SpanOffset;

#[test]
fn cursor_frame_has_the_expected_body() {
    let x = format!("{}", 100.0f32);
    let y = format!("{}", 200.0f32);
    assert_eq!(position_req("cursor", 2, &x, &y), b"cursor,2 100 200");
}

#[test]
fn position_frames_carry_event_page_and_coordinates() {
    let pos = DocumentPosition::new(12, 1.5f32.to_bits(), 0.25f32.to_bits());
    let x = format!("{}", f32::from_bits(pos.x));
    let y = format!("{}", f32::from_bits(pos.y));
    assert_eq!(
        position_frame(&WebviewActorRequest::SrcToDocJump(pos), &x, &y),
        b"jump,12 1.5 0.25"
    );
    assert_eq!(
        position_frame(&WebviewActorRequest::ViewportPosition(pos), &x, &y),
        b"viewport,12 1.5 0.25"
    );
    assert_eq!(
        position_frame(&WebviewActorRequest::CursorPosition(pos), &x, &y),
        b"cursor,12 1.5 0.25"
    );
    assert_eq!(WebviewActorRequest::CursorPosition(pos).event(), "cursor");
    assert_eq!(WebviewActorRequest::SrcToDocJump(pos).event(), "jump");
    assert_eq!(WebviewActorRequest::ViewportPosition(pos).event(), "viewport");
    assert_eq!(WebviewActorRequest::ViewportPosition(pos).position(), pos);
}

#[test]
fn partial_rendering_is_announced_only_where_it_is_on() {
    assert_eq!(partial_rendering_frame(true), Some(b"partial-rendering,true".to_vec()));
    assert_eq!(partial_rendering_frame(false), None);
}

#[test]
fn control_frames_are_told_from_payloads() {
    assert!(is_control_frame(b"jump,1 2 3"));
    assert!(is_control_frame(b"viewport,1 2 3"));
    assert!(is_control_frame(b"cursor,1 2 3"));
    assert!(is_control_frame(b"partial-rendering,true"));
    assert!(!is_control_frame(b"new,\x00\x01"));
    assert!(!is_control_frame(b"diff-v1,\x00\x01"));
    assert!(!is_control_frame(b"jump"));
    assert!(!is_control_frame(b""));
}

#[test]
fn current_asks_for_a_full_render() {
    assert!(matches!(parse_frame(b"current"), ViewerFrame::Current));
    assert!(matches!(
        handle_text_frame(b"current"),
        WebviewAction::Render(RenderActorRequest::RenderFullLatest)
    ));
}

#[test]
fn srclocation_asks_the_supervisor_for_a_degenerate_range() {
    assert!(matches!(parse_frame(b"srclocation deadbeef"), ViewerFrame::SrcLocation(0xdead_beef)));
    match handle_text_frame(b"srclocation deadbeef") {
        WebviewAction::Resolve(TypstActorRequest::DocToSrcJumpResolve((start, end))) => {
            assert_eq!(start, SpanOffset { span: 0xdead_beef, offset: 0 });
            assert_eq!(end, start);
        }
        other => panic!("unexpected action {other:?}"),
    }
}

#[test]
fn malformed_frames_are_dropped() {
    assert!(matches!(parse_frame(b"srclocation"), ViewerFrame::Malformed));
    assert!(matches!(parse_frame(b"srclocation xyz"), ViewerFrame::Malformed));
    assert!(matches!(parse_frame(b"srclocation "), ViewerFrame::Malformed));
    assert!(matches!(parse_frame(b"outline-sync"), ViewerFrame::Malformed));
    assert!(matches!(parse_frame(b"outline-sync,x 1 2"), ViewerFrame::Malformed));
    assert!(matches!(parse_frame(b"srcpath"), ViewerFrame::Malformed));
    assert!(matches!(handle_text_frame(b"srclocation xyz"), WebviewAction::Ignore));
    assert!(matches!(handle_text_frame(b"outline-sync"), WebviewAction::Ignore));
    // The number 0 names no span.
    assert!(matches!(handle_text_frame(b"srclocation 0"), WebviewAction::Ignore));
}

#[test]
fn outline_sync_gives_a_viewport_position() {
    match parse_frame(b"outline-sync,3 10.5 20") {
        ViewerFrame::OutlineSync { page_no, x, y } => {
            assert_eq!(page_no, 3);
            assert_eq!(x, Some(b"10.5".to_vec()));
            assert_eq!(y, Some(b"20".to_vec()));
        }
        other => panic!("unexpected frame {other:?}"),
    }
    match handle_text_frame(b"outline-sync,3") {
        WebviewAction::Viewport { page_no, x, y } => {
            assert_eq!(page_no, 3);
            assert_eq!(x, None);
            assert_eq!(y, None);
        }
        other => panic!("unexpected action {other:?}"),
    }
    match handle_text_frame(b"outline-sync,7 1,ignored") {
        WebviewAction::Viewport { page_no, x, y } => {
            assert_eq!(page_no, 7);
            assert_eq!(x, Some(b"1".to_vec()));
            assert_eq!(y, None);
        }
        other => panic!("unexpected action {other:?}"),
    }
}

#[test]
fn srcpath_is_decoded_from_json() {
    match handle_text_frame(b"srcpath [[1,2,\"a\"],[3,4,\"bc\"]]") {
        WebviewAction::Render(RenderActorRequest::ResolveSpan(path)) => {
            assert_eq!(path.0, vec![(1, 2, "a".to_owned()), (3, 4, "bc".to_owned())]);
        }
        other => panic!("unexpected action {other:?}"),
    }
    match handle_text_frame(b"srcpath []") {
        WebviewAction::Render(RenderActorRequest::ResolveSpan(path)) => {
            assert!(path.0.is_empty());
        }
        other => panic!("unexpected action {other:?}"),
    }
}

#[test]
fn srcpath_that_is_no_path_is_dropped() {
    assert!(matches!(handle_text_frame(b"srcpath [[1,2]]"), WebviewAction::Ignore));
    assert!(matches!(handle_text_frame(b"srcpath {"), WebviewAction::Ignore));
    assert!(matches!(handle_text_frame(b"srcpath [[1,-2,\"a\"]]"), WebviewAction::Ignore));
    assert!(matches!(handle_text_frame(b"srcpath [[1,4294967296,\"a\"]]"), WebviewAction::Ignore));
    assert!(matches!(handle_text_frame(b"srcpath [[1,"), WebviewAction::Ignore));
    assert!(matches!(handle_text_frame(b"srcpath "), WebviewAction::Ignore));
}

#[test]
fn srcpath_may_hold_blanks() {
    match handle_text_frame(b"srcpath [[1, 2, \"a\"], [3, 4, \"b\"]]") {
        WebviewAction::Render(RenderActorRequest::ResolveSpan(path)) => {
            assert_eq!(path.0, vec![(1, 2, "a".to_owned()), (3, 4, "b".to_owned())]);
        }
        other => panic!("unexpected action {other:?}"),
    }
    match handle_text_frame(b"srcpath  [ [1,2,\"a b\"] ] ") {
        WebviewAction::Render(RenderActorRequest::ResolveSpan(path)) => {
            assert_eq!(path.0, vec![(1, 2, "a b".to_owned())]);
        }
        other => panic!("unexpected action {other:?}"),
    }
    match parse_frame(b"srcpath [[1, 2, \"a\"]] ") {
        ViewerFrame::SrcPath(json) => assert_eq!(json, b"[[1, 2, \"a\"]] "),
        other => panic!("unexpected frame {other:?}"),
    }
}

#[test]
fn the_path_is_only_looked_at_for_srcpath_frames() {
    let path = Some(vec![(1u32, 2u32, "a".to_owned())]);
    assert!(matches!(
        frame_action(ViewerFrame::Current, path, b"current"),
        WebviewAction::Render(RenderActorRequest::RenderFullLatest)
    ));
    assert!(matches!(
        frame_action(ViewerFrame::SrcPath(b"[]".to_vec()), None, b"srcpath []"),
        WebviewAction::Ignore
    ));
}

#[test]
fn unknown_frames_are_rejected() {
    assert!(matches!(parse_frame(b"hello"), ViewerFrame::Unknown));
    assert!(matches!(parse_frame(b"current "), ViewerFrame::Unknown));
    assert!(matches!(parse_frame(b""), ViewerFrame::Unknown));
    match handle_text_frame(b"hello there") {
        WebviewAction::Reject(reply) => {
            assert_eq!(reply, b"error, received unknown message: hello there");
        }
        other => panic!("unexpected action {other:?}"),
    }
}

#[test]
fn a_frame_that_is_no_text_is_rejected() {
    match reject_non_text("Binary Data<length=3>") {
        WebviewAction::Reject(reply) => assert_eq!(
            reply,
            b"Webview Actor: error, received non-text message: Binary Data<length=3>"
        ),
        other => panic!("unexpected action {other:?}"),
    }
}

#[test]
fn current_is_a_trigger_for_all_render_actors() {
    // The trigger carries no viewer: it goes out on the channel that all
    // render actors listen to.
    let a = handle_text_frame(b"current");
    let b = handle_text_frame(b"current");
    assert!(matches!(a, WebviewAction::Render(RenderActorRequest::RenderFullLatest)));
    assert!(matches!(b, WebviewAction::Render(RenderActorRequest::RenderFullLatest)));
}
