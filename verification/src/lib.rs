//! The request pipeline of a Gemini server: parsing the request line,
//! normalising its path so that it cannot leave the content root, looking
//! it up in a redirect table that is reloaded when it grows stale, and
//! deciding, step by step, what is sent back. Everything that touches the
//! network or the file system is left to the program that drives the
//! pipeline.
pub mod config;
pub mod decimal;
pub mod decode;
pub mod error;
pub mod media;
pub mod path;
pub mod pipeline;
pub mod redirect;
pub mod text;
pub mod uri;
pub mod wire;
pub mod worker;
