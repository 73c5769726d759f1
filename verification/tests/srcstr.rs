use std::collections::hash_map::DefaultHasher;
use std::hash::Hash;
use std::hash::Hasher;
use std::rc::Rc;

use srcstr::SliceError;
use srcstr::SrcStr;

#[test]
fn index() {
    let s = SrcStr::from_borrowed(
        "A pair of powerful spectacles has sometimes sufficed to cure a person in love.",
    );
    assert_eq!("powerful", s.slice(10..18).unwrap());
    assert_eq!(s, s);
}

#[test]
fn hash() {
    let a = SrcStr::from_borrowed(
        "Even the most courageous among us only has the courage for that which he really knows.",
    );

    let b = a.sub(14..21).unwrap();
    let c = a.sub(47..54).unwrap();

    assert_eq!("courage", b.as_str());
    assert_eq!(b.as_str(), c.as_str());
    assert_ne!(b, c);
}

#[test]
fn range() {
    let mut a = SrcStr::from_borrowed(
        "Thoughts are the shadows of our feelings - always darker, emptier and simpler.",
    );

    a.edit(|s| (s.sub(15..18).unwrap(), ()));

    assert_eq!(a.range(), Some(15..18));

    a.edit(|s| (s.with_text("nothing"), ()));

    assert_eq!(a.range(), None);
}

#[test]
fn equal_text_views_hash_apart() {
    let a = SrcStr::from_borrowed(
        "Even the most courageous among us only has the courage for that which he really knows.",
    );
    let b = a.sub(14..21).unwrap();
    let c = a.sub(47..54).unwrap();

    let mut hb = DefaultHasher::new();
    b.hash(&mut hb);
    let mut hc = DefaultHasher::new();
    c.hash(&mut hc);
    assert_ne!(hb.finish(), hc.finish());
}

#[test]
fn construction_and_owned_text() {
    let a = SrcStr::from_owned(String::from("shared source"));
    assert_eq!(a.as_str(), "shared source");
    assert_eq!(a.to_text(), String::from("shared source"));
    assert_eq!(a.range(), Some(0..13));

    let rc = Rc::new(String::from("counted"));
    let b = SrcStr::from_shared(rc.clone());
    assert_eq!(b.as_str(), "counted");
    assert_eq!(&**b.src(), "counted");
    assert!(Rc::ptr_eq(b.src(), &rc));
}

#[test]
fn clones_are_equal() {
    let a = SrcStr::from_borrowed("identity is positional");
    let b = a.clone();
    assert_eq!(a, b);

    let full = a.sub(0..22).unwrap();
    assert_eq!(a, full);

    let narrowed = a.sub(0..8).unwrap();
    assert_ne!(a, narrowed);
}

#[test]
fn provenance_round_trip() {
    let a = SrcStr::from_borrowed("jump to an arbitrary span of the original source");
    let t = a.src_sub(11..20).unwrap();
    assert_eq!(t.range(), Some(11..20));
    assert_eq!(t.as_str(), "arbitrary");

    // the absolute jump ignores where the cursor currently stands
    let narrowed = a.sub(0..4).unwrap();
    let u = narrowed.src_sub(11..20).unwrap();
    assert_eq!(u.range(), Some(11..20));
    assert_eq!(u.as_str(), "arbitrary");
}

#[test]
fn zero_length_window_at_buffer_end_has_no_range() {
    let a = SrcStr::from_borrowed("ab");
    let t = a.src_sub(2..2).unwrap();
    assert_eq!(t.range(), None);

    let empty = SrcStr::from_borrowed("");
    assert_eq!(empty.range(), None);

    // a zero-length window anywhere before the end keeps its range
    let u = a.src_sub(1..1).unwrap();
    assert_eq!(u.range(), Some(1..1));
}

#[test]
fn out_of_bounds_ranges_are_refused() {
    let a = SrcStr::from_borrowed("short");
    assert_eq!(a.slice(3..2).unwrap_err(), SliceError::OutOfBounds);
    assert_eq!(a.slice(0..6).unwrap_err(), SliceError::OutOfBounds);
    assert_eq!(a.sub(4..99).unwrap_err(), SliceError::OutOfBounds);
    assert_eq!(a.src_sub(9..9).unwrap_err(), SliceError::OutOfBounds);
}

#[test]
fn mid_character_offsets_are_refused() {
    let a = SrcStr::from_borrowed("h\u{e9}llo");
    assert_eq!(a.slice(0..2).unwrap_err(), SliceError::InvalidBoundary);
    assert_eq!(a.sub(2..3).unwrap_err(), SliceError::InvalidBoundary);
    assert_eq!(a.src_sub(0..2).unwrap_err(), SliceError::InvalidBoundary);
    assert_eq!(a.slice(1..3).unwrap(), "\u{e9}");
    assert_eq!(a.sub(1..3).unwrap().as_str(), "\u{e9}");
}

#[test]
fn sub_agrees_with_direct_slicing() {
    let text = "for a view over some text, a sub-view shows the same slice";
    let a = SrcStr::from_borrowed(text);
    assert_eq!(a.sub(6..10).unwrap().as_str(), &text[6..10]);
    assert_eq!(a.sub(0..0).unwrap().as_str(), &text[0..0]);
    assert_eq!(a.sub(0..text.len()).unwrap().as_str(), text);
    assert_eq!(a.slice(6..10).unwrap(), &text[6..10]);
}

#[test]
fn detached_views_lose_provenance() {
    let a = SrcStr::from_borrowed("attached at first");
    let d = a.with_text("literal-unrelated-string");
    assert_eq!(d.as_str(), "literal-unrelated-string");
    assert_eq!(d.range(), None);
    // the owner is still shared, only the window left it
    assert_eq!(&**d.src(), "attached at first");

    // narrowing a detached view keeps it detached
    let e = d.sub(0..7).unwrap();
    assert_eq!(e.as_str(), "literal");
    assert_eq!(e.range(), None);

    // an absolute jump re-attaches it
    let f = d.src_sub(0..8).unwrap();
    assert_eq!(f.as_str(), "attached");
    assert_eq!(f.range(), Some(0..8));
}

#[test]
fn failed_edits_roll_back() {
    let mut a = SrcStr::from_borrowed("speculative parsing");
    a.edit(|s| (s.sub(0..11).unwrap(), ()));
    assert_eq!(a.as_str(), "speculative");
    assert_eq!(a.range(), Some(0..11));

    let r: Result<(), i32> = a.try_edit(|s| (s.with_text("junk"), Err(5)));
    assert_eq!(r, Err(5));
    assert_eq!(a.as_str(), "speculative");
    assert_eq!(a.range(), Some(0..11));

    let r: Result<i32, ()> = a.try_run(|s| (s.sub(0..4).unwrap(), Ok(9)));
    assert_eq!(r, Ok(9));
    assert_eq!(a.as_str(), "spec");
    assert_eq!(a.range(), Some(0..4));
}

#[test]
fn edit_returns_the_callback_result() {
    let mut a = SrcStr::from_borrowed("count me");
    let n = a.edit(|s| {
        let len = s.as_str().len();
        (s, len)
    });
    assert_eq!(n, 8);
    assert_eq!(a.as_str(), "count me");
}

#[test]
fn detached_views_with_equal_text_and_owner_are_equal() {
    let a = SrcStr::from_borrowed("one owner");
    // two full windows over equal detached text sit at the same position:
    // distinct backing allocations are not told apart
    let d1 = a.with_text("same");
    let d2 = a.with_text("same");
    assert_eq!(d1, d2);
    let d3 = a.with_text("other");
    assert_ne!(d1, d3);
    // a detached view never equals an attached one
    assert_ne!(a, d1);
}

#[test]
fn partial_range_forms() {
    let a = SrcStr::from_borrowed("abcdef");
    assert_eq!(a.slice_from(2).unwrap(), "cdef");
    assert_eq!(a.slice_from(6).unwrap(), "");
    assert_eq!(a.slice_to(3).unwrap(), "abc");
    assert_eq!(a.slice_inclusive(1, 3).unwrap(), "bcd");
    assert_eq!(a.slice_to_inclusive(2).unwrap(), "abc");
    assert_eq!(a.slice_to_inclusive(5).unwrap(), "abcdef");

    assert_eq!(a.slice_from(7).unwrap_err(), SliceError::OutOfBounds);
    assert_eq!(a.slice_to(7).unwrap_err(), SliceError::OutOfBounds);
    assert_eq!(a.slice_inclusive(0, 6).unwrap_err(), SliceError::OutOfBounds);

    let m = SrcStr::from_borrowed("h\u{e9}llo");
    assert_eq!(m.slice_from(2).unwrap_err(), SliceError::InvalidBoundary);
    assert_eq!(m.slice_to(2).unwrap_err(), SliceError::InvalidBoundary);
    assert_eq!(m.slice_inclusive(0, 1).unwrap_err(), SliceError::InvalidBoundary);
    assert_eq!(m.slice_to_inclusive(1).unwrap_err(), SliceError::InvalidBoundary);
    assert_eq!(m.slice_inclusive(1, 2).unwrap(), "\u{e9}");
}

#[test]
fn edit_never_replaces_the_owner() {
    let mut a = SrcStr::from_borrowed("home buffer");
    let b = SrcStr::from_borrowed("other text");

    // a transformation handing back a view of another buffer: its text is
    // kept, its position is not, and the owner stays put
    a.edit(move |_s| (b.sub(0..5).unwrap(), ()));
    assert_eq!(a.as_str(), "other");
    assert_eq!(a.range(), None);
    assert_eq!(&**a.src(), "home buffer");

    // the owner survives a failed speculative edit too
    let c = SrcStr::from_borrowed("elsewhere");
    let r: Result<(), u8> = a.try_edit(move |_s| (c, Err(3)));
    assert_eq!(r, Err(3));
    assert_eq!(a.as_str(), "other");
    assert_eq!(&**a.src(), "home buffer");
}

#[test]
fn detached_sub_views_keep_positional_identity() {
    let a = SrcStr::from_borrowed("one owner");
    let d = a.with_text("aa");
    let left = d.sub(0..1).unwrap();
    let right = d.sub(1..2).unwrap();
    assert_eq!(left.as_str(), right.as_str());
    assert_ne!(left, right);
    assert_eq!(left, d.sub(0..1).unwrap());
}
