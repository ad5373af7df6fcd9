//! Cuts an uploaded media file into time segments of another format and
//! packs them into one compressed archive.
//!
//! The media work itself is done by two external programs, a duration prober
//! and a transcoder. This library holds everything around them: what an
//! upload must look like ([`request`]), how the programs are invoked and
//! their answers read ([`probe`], [`transcode`]), the loop that decides what
//! to run next and when to stop ([`engine`]), the archive that comes out
//! ([`archive`]) and the response that carries it ([`response`]).

pub mod archive;
pub mod engine;
pub mod media;
pub mod probe;
pub mod request;
pub mod response;
pub mod text;
pub mod transcode;
