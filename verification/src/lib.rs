//! Build pipeline of the basalt command-line tool: from a competition
//! configuration to the archive that a container backend turns into an image.
//!
//! The library decides and computes; it reads no file and starts no
//! program. What it is given are plain values: the text and the parsed
//! values of a configuration, the overrides of the environment, the texts
//! of the scripts as their readings end, and what a backend reports. What
//! it hands back says what is to be written, read or started next.
//!
//! - [`config`]: the part of a configuration that a build reads.
//! - [`build`]: the values for the templates, their rendering, the archive
//!   in its fixed order, the collection of the scripts, and the two
//!   backends that build an image.
//! - [`cli`]: the choice of the backend.
//! - [`init`]: the name of a new configuration.
//! - [`utils`]: game codes.
//! - [`text`]: trimming, joining and replacing, over `Seq<char>` models.
//!
//! Every function is verified against its contract. Two outside crates
//! and the standard library are called through a few wrappers whose
//! contracts are believed: `tokio_tar` for the header blocks of the
//! archive, `tera` for rendering the three templates that the library
//! holds, and `char::is_whitespace` and `String::push`.

pub mod build;
pub mod cli;
pub mod config;
pub mod init;
pub mod text;
pub mod utils;
