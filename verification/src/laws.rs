//! The laws the view type obeys, stated over its specification model and
//! proved once and for all.
//!
//! Two of them are not here because they are the `ensures` of the editing
//! functions directly: a failing transformation leaves the view exactly as
//! it was (`try_run`, `try_edit`), and no edit ever changes the owner
//! buffer's text (`edit`, `try_run`, `try_edit`).

use vstd::prelude::*;

verus! {

use vstd::std_specs::cmp::PartialEqSpec;
use vstd::string::StringSliceAdditionalSpecFns;
use vstd::utf8::encode_utf8_decode_utf8;
use crate::srcstr::SrcStr;

/// Identity over content: two attached views of the same buffer at different
/// positions are different values, even when the text they show is the same.
pub proof fn lemma_identity_over_content(b: SrcStr, c: SrcStr)
    requires
        b.owner_text() == c.owner_text(),
        b.is_attached(),
        c.is_attached(),
        b.text_chars() == c.text_chars(),
        b.place() != c.place(),
    ensures
        !b.same_place(c),
        !b.eq_spec(&c),
{
}

/// Identity over content among detached views: two views into the same
/// detached string at different offsets are different values, even when the
/// text they show is the same.
pub proof fn lemma_identity_over_content_detached(b: SrcStr, c: SrcStr)
    requires
        b.owner_text() == c.owner_text(),
        !b.is_attached(),
        !c.is_attached(),
        b.backing_text() == c.backing_text(),
        b.text_chars() == c.text_chars(),
        b.window_span() != c.window_span(),
    ensures
        !b.same_place(c),
        !b.eq_spec(&c),
{
}

/// Provenance round-trip: a view whose window was set from an absolute byte
/// range of the owner buffer recovers exactly that range, provided the range
/// starts before the buffer's end. (A window starting exactly at the end —
/// necessarily zero-length — is treated as outside the buffer and recovers
/// nothing.)
pub proof fn lemma_provenance_round_trip(t: SrcStr, start: usize, end: usize)
    requires
        t.place() == Some((start, end)),
        (start as int) < t.owner_bytes().len(),
    ensures
        t.has_provenance(),
{
}

/// Detachment: a view whose window does not lie inside the owner buffer has
/// no recoverable byte range there.
pub proof fn lemma_detached_has_no_provenance(v: SrcStr)
    requires
        !v.is_attached(),
    ensures
        !v.has_provenance(),
{
}

/// Slice consistency: a sub-view cut at some byte range shows exactly the
/// text that slicing the parent view at that range yields.
pub proof fn lemma_sub_matches_slice(t: SrcStr, s: &str, a: SrcStr, start: int, end: int)
    requires
        0 <= start <= end <= a.text_bytes().len(),
        t.text_bytes() == a.text_bytes().subrange(start, end),
        s.spec_bytes() == a.text_bytes().subrange(start, end),
    ensures
        t.text_chars() == s@,
{
    encode_utf8_decode_utf8(s@);
}

} // verus!
