//! How the server is set up.

use crate::text::bytes_eq;
use vstd::prelude::*;
use vstd::string::StringSliceAdditionalSpecFns;

verus! {

/// How the viewer shows the document.
#[derive(Debug, Clone, Copy, PartialEq, Eq, Structural)]
pub enum PreviewMode {
    /// Preview mode for regular document
    Document,
    /// Preview mode for slide
    Slide,
}

/// The settings of the preview.
#[derive(Debug, Clone)]
pub struct PreviewArgs {
    /// Data plane server will bind to this address
    pub data_plane_host: String,
    /// Control plane server will bind to this address
    pub control_plane_host: String,
    /// Only render visible part of the document.
    pub enable_partial_rendering: bool,
    /// Invert colors of the preview.
    pub invert_colors: String,
}

/// The settings of the program.
#[derive(Debug, Clone)]
pub struct CliArguments {
    pub preview: PreviewArgs,
    /// Preview mode
    pub preview_mode: PreviewMode,
    /// Host for the preview server
    pub static_file_host: String,
    /// Don't open the preview in the browser after compilation.
    pub dont_open_in_browser: bool,
    /// Additional directories to search for fonts
    pub font_paths: Vec<String>,
    /// Root directory for your project
    pub root: Option<String>,
    /// The file to preview
    pub input: String,
}

/// The name of a preview mode on the command line.
pub open spec fn mode_name(mode: PreviewMode) -> Seq<u8> {
    match mode {
        PreviewMode::Document => "document".spec_bytes(),
        PreviewMode::Slide => "slide".spec_bytes(),
    }
}

/// The name of a preview mode in the page of the viewer.
pub open spec fn mode_tag(mode: PreviewMode) -> Seq<char> {
    match mode {
        PreviewMode::Document => "Doc"@,
        PreviewMode::Slide => "Slide"@,
    }
}

impl PreviewMode {
    /// The preview mode that goes by the name `name` on the command line.
    pub fn from_name(name: &str) -> (res: Option<Self>)
        ensures
            res == if name.spec_bytes() == mode_name(PreviewMode::Document) {
                Some(PreviewMode::Document)
            } else if name.spec_bytes() == mode_name(PreviewMode::Slide) {
                Some(PreviewMode::Slide)
            } else {
                None
            },
    {
        if bytes_eq(name.as_bytes(), "document".as_bytes()) {
            Some(PreviewMode::Document)
        } else if bytes_eq(name.as_bytes(), "slide".as_bytes()) {
            Some(PreviewMode::Slide)
        } else {
            None
        }
    }

    /// The name of this preview mode on the command line.
    pub fn name(&self) -> (res: &'static str)
        ensures
            res.spec_bytes() == mode_name(*self),
    {
        match self {
            PreviewMode::Document => "document",
            PreviewMode::Slide => "slide",
        }
    }

    /// The name of this preview mode in the page of the viewer.
    pub fn tag(&self) -> (res: &'static str)
        ensures
            res@ == mode_tag(*self),
    {
        match self {
            PreviewMode::Document => "Doc",
            PreviewMode::Slide => "Slide",
        }
    }
}

impl Default for PreviewMode {
    fn default() -> (res: Self)
        ensures
            res == PreviewMode::Document,
    {
        PreviewMode::Document
    }
}

impl Default for PreviewArgs {
    /// The settings that hold where nothing else is asked for: the viewers
    /// connect to port 23625 and the editor to port 23626, both on this
    /// machine; the whole document is rendered; colors are never inverted.
    fn default() -> (res: Self)
        ensures
            res.data_plane_host@ == "127.0.0.1:23625"@,
            res.control_plane_host@ == "127.0.0.1:23626"@,
            !res.enable_partial_rendering,
            res.invert_colors@ == "never"@,
    {
        PreviewArgs {
            data_plane_host: "127.0.0.1:23625".to_owned(),
            control_plane_host: "127.0.0.1:23626".to_owned(),
            enable_partial_rendering: false,
            invert_colors: "never".to_owned(),
        }
    }
}

impl CliArguments {
    /// The settings of the program for the file `input`, with everything
    /// else as it is where nothing is asked for: the page of the viewer is
    /// served on port 23627 of this machine and opened in the browser.
    pub fn new(input: String) -> (res: Self)
        ensures
            res.input == input,
            res.preview.data_plane_host@ == "127.0.0.1:23625"@,
            res.preview.control_plane_host@ == "127.0.0.1:23626"@,
            !res.preview.enable_partial_rendering,
            res.preview.invert_colors@ == "never"@,
            res.preview_mode == PreviewMode::Document,
            res.static_file_host@ == "127.0.0.1:23627"@,
            !res.dont_open_in_browser,
            res.font_paths@.len() == 0,
            res.root is None,
    {
        CliArguments {
            preview: PreviewArgs::default(),
            preview_mode: PreviewMode::Document,
            static_file_host: "127.0.0.1:23627".to_owned(),
            dont_open_in_browser: false,
            font_paths: Vec::new(),
            root: None,
            input,
        }
    }
}

/// Why the program ends.
#[derive(Debug, Clone, Copy, PartialEq, Eq, Structural)]
pub enum Shutdown {
    /// The user interrupted the program.
    Interrupted,
    /// The program could not be set up.
    InitializationFailed,
    /// The editor closed its connection: it owns the session.
    EditorDisconnected,
}

impl Shutdown {
    /// The exit code of the program.
    pub fn exit_code(&self) -> (res: i32)
        ensures
            res == match *self {
                Shutdown::Interrupted => 0i32,
                Shutdown::InitializationFailed => 1i32,
                Shutdown::EditorDisconnected => 0i32,
            },
    {
        match self {
            Shutdown::Interrupted => 0,
            Shutdown::InitializationFailed => 1,
            Shutdown::EditorDisconnected => 0,
        }
    }
}

/// What the host of the page of the viewer answers to a request.
#[derive(Debug, Clone, Copy, PartialEq, Eq, Structural)]
pub enum StaticRoute {
    /// The page of the viewer.
    Frontend,
    /// The advice to ask for `/` instead.
    RedirectToRoot,
}

/// Decides what the host of the page of the viewer answers to a request for
/// the path `path`: the page for `/`, and for every other path the advice to
/// ask for `/`.
pub fn static_route(path: &str) -> (res: StaticRoute)
    ensures
        res == if path.spec_bytes() == "/".spec_bytes() {
            StaticRoute::Frontend
        } else {
            StaticRoute::RedirectToRoot
        },
{
    if bytes_eq(path.as_bytes(), "/".as_bytes()) {
        StaticRoute::Frontend
    } else {
        StaticRoute::RedirectToRoot
    }
}

} // verus!
