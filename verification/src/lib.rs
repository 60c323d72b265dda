//! Verified driving logic for testing a chunked zlib decoder: how input is cut
//! into chunks, what each answer of the decoder leads to, how the results are
//! judged, and how reports are worded.

pub mod text;
pub mod show;
pub mod naming;
pub mod error;
pub mod chunked;
pub mod stream;
pub mod report;
pub mod settings;
pub mod verbose;
