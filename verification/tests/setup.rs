use std::sync::Arc;
use typst_preview::actor::world::{
    batch_needs_recompile, need_recompile, plan_batch, serve, split_span, FilesystemEvent,
    WorldActorRequest, WorldStep,
};
use typst_preview::shadow::MemoryEvent;
use typst_preview::args::{static_route, Shutdown, StaticRoute};
use typst_preview::frontend::{
    bind_frontend, page_for_mode, preview_mode_argument, websocket_url, Previewer,
};
use typst_preview::publisher::PublisherImpl;
use typst_preview::{CliArguments, MemoryFiles, MemoryFilesShort, PreviewArgs, PreviewMode, SrcToDocJumpRequest};

#[test]
fn the_default_settings_are_the_documented_ones() {
    let args = PreviewArgs::default();
    assert_eq!(args.data_plane_host, "127.0.0.1:23625");
    assert_eq!(args.control_plane_host, "127.0.0.1:23626");
    assert!(!args.enable_partial_rendering);
    assert_eq!(args.invert_colors, "never");
    assert_eq!(PreviewMode::default(), PreviewMode::Document);
    let cli = CliArguments::new("main.typ".to_owned());
    assert_eq!(cli.input, "main.typ");
    assert_eq!(cli.preview.data_plane_host, "127.0.0.1:23625");
    assert_eq!(cli.preview_mode, PreviewMode::Document);
    assert_eq!(cli.static_file_host, "127.0.0.1:23627");
    assert!(!cli.dont_open_in_browser);
    assert!(cli.font_paths.is_empty());
    assert!(cli.root.is_none());
}

#[test]
fn preview_modes_have_their_names() {
    assert_eq!(PreviewMode::from_name("document"), Some(PreviewMode::Document));
    assert_eq!(PreviewMode::from_name("slide"), Some(PreviewMode::Slide));
    assert_eq!(PreviewMode::from_name("Slide"), None);
    assert_eq!(PreviewMode::from_name(""), None);
    assert_eq!(PreviewMode::Document.name(), "document");
    assert_eq!(PreviewMode::Slide.name(), "slide");
    assert_eq!(PreviewMode::Document.tag(), "Doc");
    assert_eq!(PreviewMode::Slide.tag(), "Slide");
}

#[test]
fn exit_codes_are_the_documented_ones() {
    assert_eq!(Shutdown::Interrupted.exit_code(), 0);
    assert_eq!(Shutdown::InitializationFailed.exit_code(), 1);
    assert_eq!(Shutdown::EditorDisconnected.exit_code(), 0);
}

#[test]
fn every_path_but_the_root_is_redirected() {
    assert_eq!(static_route("/"), StaticRoute::Frontend);
    assert_eq!(static_route("/index.html"), StaticRoute::RedirectToRoot);
    assert_eq!(static_route(""), StaticRoute::RedirectToRoot);
    assert_eq!(static_route("//"), StaticRoute::RedirectToRoot);
}

#[test]
fn the_page_names_the_port_of_the_running_server() {
    assert_eq!(websocket_url(23625), "ws://127.0.0.1:23625");
    assert_eq!(websocket_url(0), "ws://127.0.0.1:0");
    assert_eq!(websocket_url(65535), "ws://127.0.0.1:65535");
    let template = "<script>connect('ws://127.0.0.1:23625'); again('ws://127.0.0.1:23625')</script>";
    assert_eq!(
        bind_frontend(template, 4711),
        "<script>connect('ws://127.0.0.1:4711'); again('ws://127.0.0.1:4711')</script>"
    );
    assert_eq!(bind_frontend("no address", 4711), "no address");
}

#[test]
fn the_page_names_the_preview_mode() {
    assert_eq!(preview_mode_argument(PreviewMode::Document), "preview-arg:previewMode:Doc");
    assert_eq!(preview_mode_argument(PreviewMode::Slide), "preview-arg:previewMode:Slide");
    let html = "<meta content=\"preview-arg:previewMode:Doc\">";
    assert_eq!(
        page_for_mode(html, PreviewMode::Slide),
        "<meta content=\"preview-arg:previewMode:Slide\">"
    );
    assert_eq!(page_for_mode(html, PreviewMode::Document), html);
}

#[test]
fn the_previewer_serves_the_page_of_its_server() {
    let template = "<meta content=\"preview-arg:previewMode:Doc\"><script>ws://127.0.0.1:23625</script>";
    let previewer = Previewer::new(template, 40000);
    assert_eq!(
        previewer.frontend_html(PreviewMode::Document),
        "<meta content=\"preview-arg:previewMode:Doc\"><script>ws://127.0.0.1:40000</script>"
    );
    assert_eq!(
        previewer.frontend_html(PreviewMode::Slide),
        "<meta content=\"preview-arg:previewMode:Slide\"><script>ws://127.0.0.1:40000</script>"
    );
}

#[test]
fn the_cell_holds_what_was_published_last() {
    let mut cell: PublisherImpl<String> = PublisherImpl::new();
    assert!(cell.latest().is_none());
    cell.publish(Arc::new("one".to_owned()));
    assert_eq!(cell.latest().as_deref().map(String::as_str), Some("one"));
    let second = Arc::new("two".to_owned());
    cell.publish(second.clone());
    let seen = cell.latest().expect("a document");
    assert!(Arc::ptr_eq(&seen, &second));
    // Looking at the cell does not empty it.
    assert_eq!(cell.latest().as_deref().map(String::as_str), Some("two"));
    let cell = PublisherImpl::with_data(Arc::new(7u8));
    assert_eq!(cell.latest().as_deref(), Some(&7));
}

#[test]
fn lines_and_columns_become_bytes_of_the_source() {
    let source = typst::syntax::Source::detached("ab\ncdé f\n");
    let at = |line, character| {
        SrcToDocJumpRequest { filepath: "/main.typ".to_owned(), line, character }
            .to_byte_offset(&source)
    };
    assert_eq!(at(0, 0), Some(0));
    assert_eq!(at(0, 1), Some(1));
    assert_eq!(at(1, 0), Some(3));
    assert_eq!(at(1, 2), Some(5));
    // A column is a character: `é` takes two bytes.
    assert_eq!(at(1, 3), Some(7));
    assert_eq!(at(2, 0), Some(10));
    assert_eq!(at(3, 0), None);
}

#[test]
fn requests_that_change_files_ask_for_a_compilation() {
    let files = || MemoryFiles { files: Vec::new() };
    assert!(need_recompile(&WorldActorRequest::SyncMemoryFiles(files())));
    assert!(need_recompile(&WorldActorRequest::UpdateMemoryFiles(files())));
    assert!(need_recompile(&WorldActorRequest::RemoveMemoryFiles(MemoryFilesShort { files: Vec::new() })));
    assert!(!need_recompile(&WorldActorRequest::DocToSrcJumpResolve(7)));
    assert!(!need_recompile(&WorldActorRequest::SrcToDocJumpResolve(SrcToDocJumpRequest {
        filepath: "f".to_owned(),
        line: 0,
        character: 0,
    })));
    assert!(need_recompile(&WorldActorRequest::FilesystemEvent(FilesystemEvent { relevant: true })));
    assert!(!need_recompile(&WorldActorRequest::FilesystemEvent(FilesystemEvent { relevant: false })));
}

#[test]
fn a_batch_compiles_once_where_one_request_asks_for_it() {
    let quiet = vec![
        WorldActorRequest::DocToSrcJumpResolve(7),
        WorldActorRequest::FilesystemEvent(FilesystemEvent { relevant: false }),
    ];
    assert!(!batch_needs_recompile(&quiet));
    assert!(!batch_needs_recompile(&Vec::new()));
    let busy = vec![
        WorldActorRequest::DocToSrcJumpResolve(7),
        WorldActorRequest::UpdateMemoryFiles(MemoryFiles { files: Vec::new() }),
        WorldActorRequest::FilesystemEvent(FilesystemEvent { relevant: true }),
    ];
    assert!(batch_needs_recompile(&busy));
}

#[test]
fn span_numbers_are_taken_apart() {
    assert_eq!(split_span(0x0003_0000_0000_0010, 0xffff), Some((3, 0x10)));
    assert_eq!(split_span(0x0000_0000_0000_0002, 0xffff), Some((0, 2)));
    assert_eq!(split_span(0xffff_0000_0000_0010, 0xffff), None);
    assert_eq!(split_span(0x0003_0000_0000_0001, 0xffff), None);
    assert_eq!(split_span(0x0003_0000_0000_0000, 0xffff), None);
    assert_eq!(split_span(0x0003_ffff_ffff_ffff, 0xffff), Some((3, 0x0000_ffff_ffff_ffff)));
    assert_eq!(split_span(0xffff_0000_0000_0010, 0), Some((0xffff, 0x10)));
}

#[test]
fn every_request_of_a_batch_is_served() {
    let batch = vec![
        WorldActorRequest::UpdateMemoryFiles(MemoryFiles {
            files: vec![("/r/a.typ".to_owned(), "= A".to_owned())],
        }),
        WorldActorRequest::DocToSrcJumpResolve(0x0003_0000_0000_0010),
        WorldActorRequest::FilesystemEvent(FilesystemEvent { relevant: false }),
    ];
    let (served, recompile) = plan_batch(batch);
    assert!(recompile);
    assert_eq!(served.len(), 3);
    assert!(matches!(&served[0], WorldActorRequest::UpdateMemoryFiles(m) if m.files[0].1 == "= A"));
    assert!(matches!(served[1], WorldActorRequest::DocToSrcJumpResolve(0x0003_0000_0000_0010)));
    assert!(matches!(served[2], WorldActorRequest::FilesystemEvent(e) if !e.relevant));
    let (served, recompile) = plan_batch(vec![WorldActorRequest::DocToSrcJumpResolve(7)]);
    assert!(!recompile);
    assert_eq!(served.len(), 1);
    let (served, recompile) = plan_batch(Vec::new());
    assert!(!recompile && served.is_empty());
}

#[test]
fn requests_of_the_world_actor_become_steps() {
    let files = || MemoryFiles { files: vec![("/r/a.typ".to_owned(), "= A".to_owned())] };
    match serve(WorldActorRequest::SyncMemoryFiles(files()), 0xffff) {
        WorldStep::ChangeMemory(MemoryEvent::Sync(set)) => {
            assert_eq!(set.inserts, files().files);
            assert!(set.removes.is_empty());
        }
        other => panic!("unexpected step {other:?}"),
    }
    match serve(WorldActorRequest::UpdateMemoryFiles(files()), 0xffff) {
        WorldStep::ChangeMemory(MemoryEvent::Update(set)) => {
            assert_eq!(set.inserts, files().files);
        }
        other => panic!("unexpected step {other:?}"),
    }
    let short = MemoryFilesShort { files: vec!["/r/a.typ".to_owned()] };
    match serve(WorldActorRequest::RemoveMemoryFiles(short), 0xffff) {
        WorldStep::ChangeMemory(MemoryEvent::Update(set)) => {
            assert_eq!(set.removes, vec!["/r/a.typ".to_owned()]);
            assert!(set.inserts.is_empty());
        }
        other => panic!("unexpected step {other:?}"),
    }
    assert!(matches!(
        serve(WorldActorRequest::DocToSrcJumpResolve(0x0003_0000_0000_0010), 0xffff),
        WorldStep::ResolveSpan(0x0003_0000_0000_0010)
    ));
    assert!(matches!(
        serve(WorldActorRequest::DocToSrcJumpResolve(0xffff_0000_0000_0010), 0xffff),
        WorldStep::Nothing
    ));
    assert!(matches!(
        serve(WorldActorRequest::DocToSrcJumpResolve(1), 0xffff),
        WorldStep::Nothing
    ));
    let jump = SrcToDocJumpRequest { filepath: "/r/a.typ".to_owned(), line: 3, character: 4 };
    assert!(matches!(
        serve(WorldActorRequest::SrcToDocJumpResolve(jump), 0xffff),
        WorldStep::ResolvePosition(r) if r.line == 3 && r.character == 4
    ));
    assert!(matches!(
        serve(WorldActorRequest::FilesystemEvent(FilesystemEvent { relevant: true }), 0xffff),
        WorldStep::Nothing
    ));
}
