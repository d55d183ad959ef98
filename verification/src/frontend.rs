//! The page of the viewer: how the page that ships with the server is made
//! to fit a running server.
//!
//! The page names the address of the viewers' socket and the preview mode as
//! they are by default. Before it is served, the port on which the server
//! listens for viewers and the preview mode that was asked for are written
//! in their place.

use crate::args::{mode_tag, PreviewMode};
use crate::text::{ascii_chars, unsigned_string, unsigned_text};
use vstd::prelude::*;
use vstd::string::StringExecFns;

verus! {

/// `text` with `to` in the place of every `from`, as the standard library
/// replaces: from the left, and never within what it already replaced.
pub uninterp spec fn replaced(text: Seq<char>, from: Seq<char>, to: Seq<char>) -> Seq<char>;

/// `str::replace`. What it gives is a function of the three texts alone;
/// that function is [`replaced`].
#[verifier::external_body]
fn replace_all(text: &str, from: &str, to: &str) -> (res: String)
    ensures
        res@ == replaced(text@, from@, to@),
{
    text.replace(from, to)
}

/// The address of the viewers' socket on port `port` of this machine.
pub open spec fn websocket_address(port: u16) -> Seq<char> {
    "ws://127.0.0.1:"@ + ascii_chars(unsigned_text(port as nat, 10))
}

/// How the page names the preview mode `mode`.
pub open spec fn mode_argument(mode: PreviewMode) -> Seq<char> {
    "preview-arg:previewMode:"@ + mode_tag(mode)
}

/// Writes the address of the viewers' socket on port `port` of this machine.
pub fn websocket_url(port: u16) -> (res: String)
    ensures
        res@ == websocket_address(port),
{
    let mut res = "ws://127.0.0.1:".to_owned();
    let digits = unsigned_string(port as u64, 10);
    res.append(digits.as_str());
    res
}

/// Writes how the page names the preview mode `mode`.
pub fn preview_mode_argument(mode: PreviewMode) -> (res: String)
    ensures
        res@ == mode_argument(mode),
{
    let mut res = "preview-arg:previewMode:".to_owned();
    res.append(mode.tag());
    res
}

/// The page for a server that listens for viewers on port
/// `data_plane_port`: the page `template` with the address of that port in
/// the place of the address that the page names by default.
pub fn bind_frontend(template: &str, data_plane_port: u16) -> (res: String)
    ensures
        res@ == replaced(template@, "ws://127.0.0.1:23625"@, websocket_address(data_plane_port)),
{
    let url = websocket_url(data_plane_port);
    replace_all(template, "ws://127.0.0.1:23625", url.as_str())
}

/// The page for the preview mode `mode`: the page `html` with that mode in
/// the place of the mode that the page names by default.
pub fn page_for_mode(html: &str, mode: PreviewMode) -> (res: String)
    ensures
        res@ == replaced(html@, mode_argument(PreviewMode::Document), mode_argument(mode)),
{
    let argument = preview_mode_argument(mode);
    proof {
        reveal_strlit("preview-arg:previewMode:Doc");
        reveal_strlit("preview-arg:previewMode:");
        reveal_strlit("Doc");
        assert("preview-arg:previewMode:Doc"@ =~= mode_argument(PreviewMode::Document));
    }
    replace_all(html, "preview-arg:previewMode:Doc", argument.as_str())
}

/// The page of the viewer of a running server.
#[derive(Debug)]
pub struct Previewer {
    html: String,
}

impl Previewer {
    /// The page as it is served for the default preview mode.
    pub closed spec fn page(&self) -> Seq<char> {
        self.html@
    }

    /// The page of a server that listens for viewers on port
    /// `data_plane_port`, made from the page `template`.
    pub fn new(template: &str, data_plane_port: u16) -> (res: Self)
        ensures
            res.page() == replaced(
                template@,
                "ws://127.0.0.1:23625"@,
                websocket_address(data_plane_port),
            ),
    {
        Previewer { html: bind_frontend(template, data_plane_port) }
    }

    /// Get the HTML for the frontend by a given preview mode
    pub fn frontend_html(&self, mode: PreviewMode) -> (res: String)
        ensures
            res@ == replaced(
                self.page(),
                mode_argument(PreviewMode::Document),
                mode_argument(mode),
            ),
    {
        page_for_mode(self.html.as_str(), mode)
    }
}

} // verus!
