//! A provenance-tracking view into an immutable, shared text buffer.
//!
//! The crate offers one data type, [`SrcStr`]: a window of text together with
//! a reference-counted handle to the buffer the window was cut from. The
//! window is described by byte offsets into the buffer, so the byte range a
//! view occupies within its source can be recovered at any time; a view may
//! also be detached from the buffer entirely by assigning it unrelated text.
//! Views compare by position, not by content: two windows with equal text but
//! different offsets are distinct values.

mod laws;
mod text;
mod srcstr;

pub use laws::lemma_detached_has_no_provenance;
pub use laws::lemma_identity_over_content;
pub use laws::lemma_identity_over_content_detached;
pub use laws::lemma_provenance_round_trip;
pub use laws::lemma_sub_matches_slice;
pub use srcstr::installs;
pub use srcstr::SliceError;
pub use srcstr::SrcStr;
