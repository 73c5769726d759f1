//! The `SrcStr` type: a window of text plus a shared handle to the buffer it
//! was cut from.
//!
//! The window is a pair of byte offsets into some backing string: either the
//! owner buffer itself (*attached*) or an independent string with no position
//! in the owner (*detached*). Every operation that builds a window keeps the
//! offsets on character boundaries of its backing, so dereferencing never
//! fails. The owner buffer is fixed at construction: no operation, editing
//! included, ever replaces or mutates it.

use vstd::prelude::*;

verus! {

use std::rc::Rc;
use core::ops::Range;
use vstd::string::StringSliceAdditionalSpecFns;
use vstd::utf8::{
    decode_utf8, decode_utf8_encode_utf8, encode_utf8, encode_utf8_decode_utf8,
    encode_utf8_valid_utf8, is_char_boundary, is_char_boundary_start_end_of_seq, valid_utf8,
};
use crate::text::{lemma_boundary_compose, lemma_subrange_valid, slice_bytes};

/// Raised when a requested byte range does not fit the text it indexes.
#[derive(Clone, Copy, Debug, PartialEq, Eq, Structural)]
pub enum SliceError {
    /// The range runs backwards or past the end of the text.
    OutOfBounds,
    /// The range is in bounds but cuts a character's encoding apart.
    InvalidBoundary,
}

/// The window a `SrcStr` currently shows: a byte range of the owner buffer,
/// or a byte range of a string of its own with no position in the owner.
#[derive(Debug, Hash)]
enum Window {
    Attached { start: usize, end: usize },
    Detached { text: Rc<String>, start: usize, end: usize },
}

/// A view into an immutable, reference-counted text buffer.
///
/// Cloning shares the buffer and copies the window descriptor. Equality and
/// hashing go by position — the owner text, the backing the window points
/// into, and the window's offsets — never by the text the window happens to
/// show, so two equal-text windows at different positions are distinct
/// values.
#[derive(Debug, Hash)]
pub struct SrcStr {
    owner: Rc<String>,
    window: Window,
}

impl SrcStr {
    /// The characters of the owner buffer.
    pub closed spec fn owner_text(self) -> Seq<char> {
        self.owner@
    }

    /// The UTF-8 bytes of the owner buffer.
    pub open spec fn owner_bytes(self) -> Seq<u8> {
        encode_utf8(self.owner_text())
    }

    /// Whether the window lies inside the owner buffer.
    pub closed spec fn is_attached(self) -> bool {
        self.window is Attached
    }

    /// The characters of the detached string the window points into; the
    /// owner's when the window is attached.
    pub closed spec fn detached_text(self) -> Seq<char> {
        match self.window {
            Window::Attached { .. } => self.owner@,
            Window::Detached { text, .. } => text@,
        }
    }

    /// The characters of the string the window points into: the owner buffer
    /// when attached, a string of the window's own when detached.
    pub open spec fn backing_text(self) -> Seq<char> {
        if self.is_attached() {
            self.owner_text()
        } else {
            self.detached_text()
        }
    }

    /// The UTF-8 bytes of the string the window points into.
    pub open spec fn backing_bytes(self) -> Seq<u8> {
        encode_utf8(self.backing_text())
    }

    /// The window's byte offsets into its backing string.
    pub closed spec fn window_span(self) -> (usize, usize) {
        match self.window {
            Window::Attached { start, end } => (start, end),
            Window::Detached { text: _, start, end } => (start, end),
        }
    }

    /// The position of the window within the owner buffer, if it has one.
    pub open spec fn place(self) -> Option<(usize, usize)> {
        if self.is_attached() {
            Some(self.window_span())
        } else {
            None
        }
    }

    /// Whether the byte range of the window within the owner buffer can be
    /// recovered. A window whose start sits at the very end of the buffer —
    /// in particular any window of an empty buffer — counts as out of the
    /// buffer, by the half-open comparison the provenance check uses.
    pub open spec fn has_provenance(self) -> bool {
        match self.place() {
            Some(p) => (p.0 as int) < self.owner_bytes().len(),
            None => false,
        }
    }

    /// The UTF-8 bytes of the text the window currently shows.
    pub open spec fn text_bytes(self) -> Seq<u8> {
        self.backing_bytes().subrange(self.window_span().0 as int, self.window_span().1 as int)
    }

    /// The characters of the text the window currently shows.
    pub open spec fn text_chars(self) -> Seq<char> {
        decode_utf8(self.text_bytes())
    }

    /// The bytes a well-formed window shows are valid UTF-8, being cut
    /// between character boundaries of its backing string.
    pub proof fn lemma_text_bytes_valid(self)
        requires
            self.wf(),
        ensures
            valid_utf8(self.text_bytes()),
    {
        encode_utf8_valid_utf8(self.backing_text());
        lemma_subrange_valid(
            self.backing_bytes(),
            self.window_span().0 as int,
            self.window_span().1 as int,
        );
    }

    /// Well-formedness, held by every view as its type invariant: the
    /// window's offsets are ordered, in bounds, and on character boundaries
    /// of its backing string. `vstd::prelude::use_type_invariant` recovers it
    /// for any view held in executable code.
    #[verifier::type_invariant]
    pub open spec fn wf(self) -> bool {
        let (start, end) = self.window_span();
        &&& start <= end <= self.backing_bytes().len()
        &&& is_char_boundary(self.backing_bytes(), start as int)
        &&& is_char_boundary(self.backing_bytes(), end as int)
    }

    /// A view over a fresh buffer holding `text`, with the window covering
    /// all of it.
    pub fn from_owned(text: String) -> (r: SrcStr)
        ensures
            r.owner_text() == text@,
            r.place() == Some((0usize, r.owner_bytes().len() as usize)),
            r.text_bytes() == r.owner_bytes(),
    {
        let len = text.as_str().as_bytes().len();
        proof {
            encode_utf8_valid_utf8(text@);
            is_char_boundary_start_end_of_seq(encode_utf8(text@));
        }
        let owner = Rc::new(text);
        let r = SrcStr { owner, window: Window::Attached { start: 0, end: len } };
        proof {
            assert(r.text_bytes() =~= r.owner_bytes());
        }
        r
    }

    /// A view over a fresh buffer holding a copy of `text`.
    pub fn from_borrowed(text: &str) -> (r: SrcStr)
        ensures
            r.owner_text() == text@,
            r.place() == Some((0usize, r.owner_bytes().len() as usize)),
            r.text_bytes() == r.owner_bytes(),
    {
        Self::from_owned(text.to_owned())
    }

    /// A view over an already shared buffer, with the window covering all of
    /// it.
    pub fn from_shared(buffer: Rc<String>) -> (r: SrcStr)
        ensures
            r.owner_text() == buffer@,
            r.place() == Some((0usize, r.owner_bytes().len() as usize)),
            r.text_bytes() == r.owner_bytes(),
    {
        let len = buffer.as_str().as_bytes().len();
        proof {
            encode_utf8_valid_utf8(buffer@);
            is_char_boundary_start_end_of_seq(encode_utf8(buffer@));
        }
        let r = SrcStr { owner: buffer, window: Window::Attached { start: 0, end: len } };
        proof {
            assert(r.text_bytes() =~= r.owner_bytes());
        }
        r
    }

    /// The shared handle to the owner buffer.
    pub fn src(&self) -> (r: &Rc<String>)
        ensures
            r@ == self.owner_text(),
    {
        &self.owner
    }

    /// The text the window currently shows.
    pub fn as_str(&self) -> (r: &str)
        ensures
            r.spec_bytes() == self.text_bytes(),
            r@ == self.text_chars(),
    {
        proof {
            use_type_invariant(self);
        }
        match &self.window {
            Window::Attached { start, end } => slice_bytes(self.owner.as_str(), *start, *end),
            Window::Detached { text, start, end } => slice_bytes(text.as_str(), *start, *end),
        }
    }

    /// A copy of the text the window currently shows, as an owned string.
    pub fn to_text(&self) -> (r: String)
        ensures
            r@ == self.text_chars(),
    {
        self.as_str().to_owned()
    }

    /// A view that keeps the owner buffer but shows a copy of `text`, with no
    /// position in the buffer.
    pub fn with_text(&self, text: &str) -> (r: SrcStr)
        ensures
            r.owner_text() == self.owner_text(),
            !r.is_attached(),
            r.backing_text() == text@,
            r.window_span() == (0usize, r.backing_bytes().len() as usize),
            r.text_bytes() == text.spec_bytes(),
            r.text_chars() == text@,
    {
        let copy = text.to_owned();
        let len = copy.as_str().as_bytes().len();
        proof {
            encode_utf8_valid_utf8(text@);
            is_char_boundary_start_end_of_seq(encode_utf8(text@));
        }
        let r = SrcStr {
            owner: self.owner.clone(),
            window: Window::Detached { text: Rc::new(copy), start: 0, end: len },
        };
        proof {
            assert(r.text_bytes() =~= text.spec_bytes());
            encode_utf8_decode_utf8(text@);
        }
        r
    }

    /// The slice of the current text between the byte offsets of `range`.
    ///
    /// Fails with `OutOfBounds` exactly when the range runs backwards or past
    /// the end of the current text, and with `InvalidBoundary` exactly when
    /// it is in bounds but an offset is not a character boundary.
    pub fn slice(&self, range: Range<usize>) -> (r: Result<&str, SliceError>)
        ensures
            match r {
                Ok(s) => {
                    &&& range.start <= range.end <= self.text_bytes().len()
                    &&& is_char_boundary(self.text_bytes(), range.start as int)
                    &&& is_char_boundary(self.text_bytes(), range.end as int)
                    &&& s.spec_bytes() == self.text_bytes().subrange(
                        range.start as int,
                        range.end as int,
                    )
                    &&& s@ == decode_utf8(s.spec_bytes())
                },
                Err(SliceError::OutOfBounds) => !(range.start <= range.end
                    <= self.text_bytes().len()),
                Err(SliceError::InvalidBoundary) => {
                    &&& range.start <= range.end <= self.text_bytes().len()
                    &&& !(is_char_boundary(self.text_bytes(), range.start as int)
                        && is_char_boundary(self.text_bytes(), range.end as int))
                },
            },
    {
        let cur = self.as_str();
        let len = cur.as_bytes().len();
        if range.start > range.end || range.end > len {
            Err(SliceError::OutOfBounds)
        } else if !cur.is_char_boundary(range.start) || !cur.is_char_boundary(range.end) {
            Err(SliceError::InvalidBoundary)
        } else {
            Ok(slice_bytes(cur, range.start, range.end))
        }
    }

    /// The slice of the current text from byte offset `start` to its end,
    /// as indexing with a half-open-from-start range would give. The error
    /// conditions are those of [`Self::slice`].
    pub fn slice_from(&self, start: usize) -> (r: Result<&str, SliceError>)
        ensures
            match r {
                Ok(s) => {
                    &&& start <= self.text_bytes().len()
                    &&& is_char_boundary(self.text_bytes(), start as int)
                    &&& s.spec_bytes() == self.text_bytes().subrange(
                        start as int,
                        self.text_bytes().len() as int,
                    )
                },
                Err(SliceError::OutOfBounds) => start > self.text_bytes().len(),
                Err(SliceError::InvalidBoundary) => {
                    &&& start <= self.text_bytes().len()
                    &&& !is_char_boundary(self.text_bytes(), start as int)
                },
            },
    {
        proof {
            use_type_invariant(self);
            self.lemma_text_bytes_valid();
            is_char_boundary_start_end_of_seq(self.text_bytes());
        }
        let len = self.as_str().as_bytes().len();
        self.slice(Range { start, end: len })
    }

    /// The slice of the current text from its start up to byte offset `end`,
    /// excluded, as indexing with a half-open-to-end range would give. The
    /// error conditions are those of [`Self::slice`].
    pub fn slice_to(&self, end: usize) -> (r: Result<&str, SliceError>)
        ensures
            match r {
                Ok(s) => {
                    &&& end <= self.text_bytes().len()
                    &&& is_char_boundary(self.text_bytes(), end as int)
                    &&& s.spec_bytes() == self.text_bytes().subrange(0, end as int)
                },
                Err(SliceError::OutOfBounds) => end > self.text_bytes().len(),
                Err(SliceError::InvalidBoundary) => {
                    &&& end <= self.text_bytes().len()
                    &&& !is_char_boundary(self.text_bytes(), end as int)
                },
            },
    {
        proof {
            use_type_invariant(self);
            self.lemma_text_bytes_valid();
            is_char_boundary_start_end_of_seq(self.text_bytes());
        }
        self.slice(Range { start: 0, end })
    }

    /// The slice of the current text between byte offsets `start` and `end`,
    /// both included, as indexing with an inclusive range would give. The
    /// error conditions are those of [`Self::slice`], judged for the range
    /// that runs one byte past `end`.
    pub fn slice_inclusive(&self, start: usize, end: usize) -> (r: Result<&str, SliceError>)
        ensures
            match r {
                Ok(s) => {
                    &&& start <= end + 1 <= self.text_bytes().len()
                    &&& is_char_boundary(self.text_bytes(), start as int)
                    &&& is_char_boundary(self.text_bytes(), end + 1)
                    &&& s.spec_bytes() == self.text_bytes().subrange(start as int, end + 1)
                },
                Err(SliceError::OutOfBounds) => !(start <= end + 1 <= self.text_bytes().len()),
                Err(SliceError::InvalidBoundary) => {
                    &&& start <= end + 1 <= self.text_bytes().len()
                    &&& !(is_char_boundary(self.text_bytes(), start as int) && is_char_boundary(
                        self.text_bytes(),
                        end + 1,
                    ))
                },
            },
    {
        let len = self.as_str().as_bytes().len();
        if end >= len {
            Err(SliceError::OutOfBounds)
        } else {
            self.slice(Range { start, end: end + 1 })
        }
    }

    /// The slice of the current text from its start up to byte offset `end`,
    /// included, as indexing with an inclusive-to-end range would give. The
    /// error conditions are those of [`Self::slice_inclusive`].
    pub fn slice_to_inclusive(&self, end: usize) -> (r: Result<&str, SliceError>)
        ensures
            match r {
                Ok(s) => {
                    &&& end + 1 <= self.text_bytes().len()
                    &&& is_char_boundary(self.text_bytes(), end + 1)
                    &&& s.spec_bytes() == self.text_bytes().subrange(0, end + 1)
                },
                Err(SliceError::OutOfBounds) => end + 1 > self.text_bytes().len(),
                Err(SliceError::InvalidBoundary) => {
                    &&& end + 1 <= self.text_bytes().len()
                    &&& !is_char_boundary(self.text_bytes(), end + 1)
                },
            },
    {
        proof {
            use_type_invariant(self);
            self.lemma_text_bytes_valid();
            is_char_boundary_start_end_of_seq(self.text_bytes());
        }
        self.slice_inclusive(0, end)
    }

    /// A new view of the same owner buffer whose window is the part of the
    /// current text between the byte offsets of `range`, relative to the
    /// current window. A sub-view of an attached window is attached at the
    /// corresponding position; a sub-view of a detached window shares the
    /// same detached backing at the corresponding position. The error
    /// conditions are those of [`Self::slice`].
    pub fn sub(&self, range: Range<usize>) -> (r: Result<SrcStr, SliceError>)
        ensures
            match r {
                Ok(t) => {
                    &&& range.start <= range.end <= self.text_bytes().len()
                    &&& is_char_boundary(self.text_bytes(), range.start as int)
                    &&& is_char_boundary(self.text_bytes(), range.end as int)
                    &&& t.owner_text() == self.owner_text()
                    &&& t.is_attached() == self.is_attached()
                    &&& t.backing_text() == self.backing_text()
                    &&& t.window_span() == (
                        ((self.window_span().0 + range.start) as usize),
                        ((self.window_span().0 + range.end) as usize),
                    )
                    &&& t.text_bytes() == self.text_bytes().subrange(
                        range.start as int,
                        range.end as int,
                    )
                },
                Err(SliceError::OutOfBounds) => !(range.start <= range.end
                    <= self.text_bytes().len()),
                Err(SliceError::InvalidBoundary) => {
                    &&& range.start <= range.end <= self.text_bytes().len()
                    &&& !(is_char_boundary(self.text_bytes(), range.start as int)
                        && is_char_boundary(self.text_bytes(), range.end as int))
                },
            },
    {
        proof {
            use_type_invariant(self);
            encode_utf8_valid_utf8(self.backing_text());
        }
        let cur = self.as_str();
        let len = cur.as_bytes().len();
        if range.start > range.end || range.end > len {
            Err(SliceError::OutOfBounds)
        } else if !cur.is_char_boundary(range.start) || !cur.is_char_boundary(range.end) {
            Err(SliceError::InvalidBoundary)
        } else {
            match &self.window {
                Window::Attached { start, end } => {
                    proof {
                        lemma_boundary_compose(
                            self.owner_bytes(),
                            *start as int,
                            *end as int,
                            range.start as int,
                        );
                        lemma_boundary_compose(
                            self.owner_bytes(),
                            *start as int,
                            *end as int,
                            range.end as int,
                        );
                    }
                    let t = SrcStr {
                        owner: self.owner.clone(),
                        window: Window::Attached {
                            start: start + range.start,
                            end: start + range.end,
                        },
                    };
                    proof {
                        assert(t.text_bytes() =~= self.text_bytes().subrange(
                            range.start as int,
                            range.end as int,
                        ));
                    }
                    Ok(t)
                },
                Window::Detached { text, start, end } => {
                    proof {
                        lemma_boundary_compose(
                            encode_utf8(text@),
                            *start as int,
                            *end as int,
                            range.start as int,
                        );
                        lemma_boundary_compose(
                            encode_utf8(text@),
                            *start as int,
                            *end as int,
                            range.end as int,
                        );
                    }
                    let t = SrcStr {
                        owner: self.owner.clone(),
                        window: Window::Detached {
                            text: text.clone(),
                            start: start + range.start,
                            end: start + range.end,
                        },
                    };
                    proof {
                        assert(t.text_bytes() =~= self.text_bytes().subrange(
                            range.start as int,
                            range.end as int,
                        ));
                    }
                    Ok(t)
                },
            }
        }
    }

    /// A new view of the same owner buffer whose window is set from `range`
    /// taken as absolute byte offsets into the buffer's full text, whatever
    /// the current window shows. The error conditions are those of
    /// [`Self::slice`], judged against the buffer's full text.
    pub fn src_sub(&self, range: Range<usize>) -> (r: Result<SrcStr, SliceError>)
        ensures
            match r {
                Ok(t) => {
                    &&& range.start <= range.end <= self.owner_bytes().len()
                    &&& is_char_boundary(self.owner_bytes(), range.start as int)
                    &&& is_char_boundary(self.owner_bytes(), range.end as int)
                    &&& t.owner_text() == self.owner_text()
                    &&& t.place() == Some((range.start, range.end))
                    &&& t.text_bytes() == self.owner_bytes().subrange(
                        range.start as int,
                        range.end as int,
                    )
                },
                Err(SliceError::OutOfBounds) => !(range.start <= range.end
                    <= self.owner_bytes().len()),
                Err(SliceError::InvalidBoundary) => {
                    &&& range.start <= range.end <= self.owner_bytes().len()
                    &&& !(is_char_boundary(self.owner_bytes(), range.start as int)
                        && is_char_boundary(self.owner_bytes(), range.end as int))
                },
            },
    {
        proof {
            encode_utf8_valid_utf8(self.owner@);
        }
        let outer = self.owner.as_str();
        let olen = outer.as_bytes().len();
        if range.start > range.end || range.end > olen {
            Err(SliceError::OutOfBounds)
        } else if !outer.is_char_boundary(range.start) || !outer.is_char_boundary(range.end) {
            Err(SliceError::InvalidBoundary)
        } else {
            Ok(
                SrcStr {
                    owner: self.owner.clone(),
                    window: Window::Attached { start: range.start, end: range.end },
                },
            )
        }
    }

    /// Installs the view `v` without touching the owner buffer: a view of
    /// the same buffer text keeps its window as it stands, a view of any
    /// other text is kept as detached text, losing its position.
    fn install(&mut self, v: SrcStr)
        ensures
            installs(*old(self), v, *final(self)),
    {
        proof {
            use_type_invariant(&*self);
            use_type_invariant(&v);
            v.lemma_text_bytes_valid();
        }
        if same_buffer(&self.owner, &v.owner) || *self.owner == *v.owner {
            self.window = v.window;
        } else {
            let copy = v.as_str().to_owned();
            let len = copy.as_str().as_bytes().len();
            proof {
                encode_utf8_valid_utf8(copy@);
                is_char_boundary_start_end_of_seq(encode_utf8(copy@));
            }
            self.window = Window::Detached { text: Rc::new(copy), start: 0, end: len };
            proof {
                assert(self.text_bytes() =~= encode_utf8(v.text_chars()));
                decode_utf8_encode_utf8(v.text_bytes());
            }
        }
    }

    /// Runs a caller-supplied transformation on the view and installs the
    /// view it hands back, keeping its result. The transformation receives
    /// the current view by value; it cannot fail on its own. The owner
    /// buffer stays as it is: a returned view of the same buffer text keeps
    /// its window, a returned view of other text is kept as detached text.
    pub fn edit<T, F: FnOnce(SrcStr) -> (SrcStr, T)>(&mut self, f: F) -> (r: T)
        requires
            call_requires(f, (*old(self),)),
        ensures
            final(self).owner_text() == old(self).owner_text(),
            exists|v: SrcStr|
                call_ensures(f, (*old(self),), (v, r)) && installs(*old(self), v, *final(self)),
    {
        let cur = self.clone();
        let (next, r) = f(cur);
        let ghost v = next;
        self.install(next);
        proof {
            assert(call_ensures(f, (*old(self),), (v, r)) && installs(
                *old(self),
                v,
                *self,
            ));
        }
        r
    }

    /// Like [`Self::edit`], but the transformation may fail. On success the
    /// view it handed back is installed as `edit` installs it; on failure
    /// the view is left exactly as it was before the call, whatever the
    /// transformation did, and the error is handed through unchanged. The
    /// owner buffer stays as it is either way.
    pub fn try_run<T, E, F: FnOnce(SrcStr) -> (SrcStr, Result<T, E>)>(&mut self, f: F) -> (r:
        Result<T, E>)
        requires
            call_requires(f, (*old(self),)),
        ensures
            final(self).owner_text() == old(self).owner_text(),
            r is Err ==> *final(self) == *old(self),
            r is Ok ==> exists|v: SrcStr|
                call_ensures(f, (*old(self),), (v, r)) && installs(*old(self), v, *final(self)),
            exists|v: SrcStr| call_ensures(f, (*old(self),), (v, r)),
    {
        let cur = self.clone();
        let (next, r) = f(cur);
        let ghost v = next;
        if r.is_ok() {
            self.install(next);
            proof {
                assert(call_ensures(f, (*old(self),), (v, r)) && installs(
                    *old(self),
                    v,
                    *self,
                ));
            }
        }
        r
    }

    /// The same speculative edit as [`Self::try_run`]: on success the view
    /// the transformation handed back is installed, on failure the view
    /// rolls back to its value before the call.
    pub fn try_edit<T, E, F: FnOnce(SrcStr) -> (SrcStr, Result<T, E>)>(&mut self, f: F) -> (r:
        Result<T, E>)
        requires
            call_requires(f, (*old(self),)),
        ensures
            final(self).owner_text() == old(self).owner_text(),
            r is Err ==> *final(self) == *old(self),
            r is Ok ==> exists|v: SrcStr|
                call_ensures(f, (*old(self),), (v, r)) && installs(*old(self), v, *final(self)),
            exists|v: SrcStr| call_ensures(f, (*old(self),), (v, r)),
    {
        self.try_run(f)
    }

    /// The byte range the window occupies within the owner buffer, or `None`
    /// for a window that does not lie inside it. A window starting at the
    /// very end of the buffer is treated as outside, so a zero-length window
    /// there has no recoverable range.
    pub fn range(&self) -> (r: Option<Range<usize>>)
        ensures
            r is Some <==> self.has_provenance(),
            r matches Some(rg) ==> {
                &&& self.place() == Some((rg.start, rg.end))
                &&& rg.start <= rg.end <= self.owner_bytes().len()
                &&& rg.end - rg.start == self.text_bytes().len()
                &&& self.text_bytes() == self.owner_bytes().subrange(
                    rg.start as int,
                    rg.end as int,
                )
            },
    {
        proof {
            use_type_invariant(self);
        }
        match &self.window {
            Window::Attached { start, end } => {
                let olen = self.owner.as_str().as_bytes().len();
                if *start >= olen {
                    None
                } else {
                    Some(Range { start: *start, end: *end })
                }
            },
            Window::Detached { .. } => None,
        }
    }
}

/// How the editing operations install the view a transformation hands back,
/// `pre` being the edited view beforehand, `v` the transformation's view and
/// `post` the edited view afterwards. The owner buffer stays; what the
/// window shows becomes what `v` showed. A `v` of the same buffer text keeps
/// its whole window descriptor; a `v` of any other text is kept as a
/// detached copy of its text, covered in full, with no position in the
/// owner.
pub open spec fn installs(pre: SrcStr, v: SrcStr, post: SrcStr) -> bool {
    &&& post.owner_text() == pre.owner_text()
    &&& post.text_bytes() == v.text_bytes()
    &&& post.text_chars() == v.text_chars()
    &&& if v.owner_text() == pre.owner_text() {
        &&& post.is_attached() == v.is_attached()
        &&& post.backing_text() == v.backing_text()
        &&& post.window_span() == v.window_span()
    } else {
        &&& !post.is_attached()
        &&& post.backing_text() == v.text_chars()
        &&& post.window_span() == (0usize, post.backing_bytes().len() as usize)
    }
}

/// Relies on `std::rc::Rc::ptr_eq`: it returns `true` only when the two
/// handles share one allocation, in which case they hold the same value.
/// Nothing is promised when it returns `false`.
#[verifier::external_body]
fn same_buffer(a: &Rc<String>, b: &Rc<String>) -> (r: bool)
    ensures
        r ==> a@ == b@,
{
    Rc::ptr_eq(a, b)
}

impl SrcStr {
    /// Whether two views are the same positional value: the same owner text,
    /// a window into the same backing text on the same side of attachment,
    /// and the same offsets. Equal text at different positions does not make
    /// two views the same place.
    pub open spec fn same_place(self, other: SrcStr) -> bool {
        &&& self.owner_text() == other.owner_text()
        &&& self.is_attached() == other.is_attached()
        &&& self.backing_text() == other.backing_text()
        &&& self.window_span() == other.window_span()
    }
}

impl PartialEq for SrcStr {
    /// Positional identity: same owner text, same backing, same window
    /// offsets — never the text the windows show.
    fn eq(&self, other: &Self) -> (r: bool) {
        let owners_eq = if same_buffer(&self.owner, &other.owner) {
            true
        } else {
            *self.owner == *other.owner
        };
        let windows_eq = match (&self.window, &other.window) {
            (
                Window::Attached { start: s1, end: e1 },
                Window::Attached { start: s2, end: e2 },
            ) => *s1 == *s2 && *e1 == *e2,
            (
                Window::Detached { text: t1, start: s1, end: e1 },
                Window::Detached { text: t2, start: s2, end: e2 },
            ) => {
                let texts_eq = if same_buffer(t1, t2) {
                    true
                } else {
                    **t1 == **t2
                };
                texts_eq && *s1 == *s2 && *e1 == *e2
            },
            _ => false,
        };
        owners_eq && windows_eq
    }
}

impl vstd::std_specs::cmp::PartialEqSpecImpl for SrcStr {
    open spec fn obeys_eq_spec() -> bool {
        true
    }

    open spec fn eq_spec(&self, other: &SrcStr) -> bool {
        self.same_place(*other)
    }
}

impl Eq for SrcStr {}

impl Clone for Window {
    fn clone(&self) -> (r: Self)
        ensures
            r == *self,
    {
        match self {
            Window::Attached { start, end } => Window::Attached { start: *start, end: *end },
            Window::Detached { text, start, end } => Window::Detached {
                text: text.clone(),
                start: *start,
                end: *end,
            },
        }
    }
}

impl Clone for SrcStr {
    /// Shares the owner buffer and copies the window descriptor.
    fn clone(&self) -> (r: Self)
        ensures
            r == *self,
    {
        proof {
            use_type_invariant(self);
        }
        SrcStr { owner: self.owner.clone(), window: self.window.clone() }
    }
}

} // verus!
