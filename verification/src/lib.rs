//! Serving files from a directory: safe resolution of untrusted request paths,
//! and the decisions of a worker that streams a byte range in bounded chunks.
//!
//! Nothing here touches the filesystem. The caller performs each action that a
//! decision asks for (open, seek, read, send) and reports back what happened.

pub mod mime;
pub mod path;
pub mod path_laws;
pub mod response;
pub mod serve;
pub mod sizing;
pub mod stream;
pub mod text;
