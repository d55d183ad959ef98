//! Coordination logic of a live preview server for a typesetting compiler.
//!
//! The server sits between the compiler, any number of viewers and one
//! editor. This library holds what the actors of that server decide and
//! compute: the messages they exchange, the frames they read and write,
//! how render triggers coalesce, how a click in the document becomes a
//! range in the source, and how the outline of a document is built.

pub mod actor;
pub mod args;
pub mod debug_loc;
pub mod encoding;
pub mod frontend;
pub mod jump;
pub mod outline;
pub mod publisher;
pub mod request;
pub mod shadow;
pub mod text;

pub use crate::jump::DocToSrcJumpInfo;
pub use crate::request::{
    ChangeCursorPositionRequest, MemoryFiles, MemoryFilesShort, SrcToDocJumpRequest,
};
pub use crate::args::{CliArguments, PreviewArgs, PreviewMode};
