//! Selecting the part of a slice or a string that a range of `usize`
//! positions covers.
//!
//! Each range is turned into the half-open positions `lo .. hi` of the
//! standard library's slicing: `lo` is `start + 1` for all three, and `hi` is
//! the length, `end + 1` or `end`. The `index_*` functions require that these
//! positions are valid (the standard library would panic otherwise, and so
//! does the `usize` arithmetic when `start`, or an inclusive `end`, is
//! `usize::MAX`); the `get_*` functions check the same condition and return
//! `None` where indexing would fail. Slices, `Vec`s, `str`s and `String`s can
//! also be indexed with the ranges directly (`slice[range]`), under the same
//! condition. There is no `IndexMut` counterpart (`&mut slice[range]`): the
//! verifier gives `IndexMut::index_mut` no precondition, so an impl would
//! owe a result for ranges that do not fit, which only a panic could give.
//! Mutable parts come from the `index_*_mut` methods instead.
use core::ops::Index;
use vstd::prelude::*;
use vstd::string::StringSliceAdditionalSpecFns;
use vstd::utf8::encode_utf8;
use vstd::utf8::is_char_boundary;
use vstd::utf8::valid_utf8;

use crate::RangeFromExclusive;
use crate::RangeFromExclusiveToExclusive;
use crate::RangeFromExclusiveToInclusive;

verus! {

/// Relies on `str::split_at_mut`: at a character boundary it splits the
/// string's bytes in two, and the two halves are what the string holds
/// afterwards.
pub assume_specification[ str::split_at_mut ](s: &mut str, mid: usize) -> (r: (
    &mut str,
    &mut str,
))
    requires
        is_char_boundary(old(s).spec_bytes(), mid as int),
    ensures
        r.0.spec_bytes() == old(s).spec_bytes().subrange(0, mid as int),
        r.1.spec_bytes() == old(s).spec_bytes().subrange(
            mid as int,
            old(s).spec_bytes().len() as int,
        ),
        final(s).spec_bytes() == final(r.0).spec_bytes() + final(r.1).spec_bytes(),
;

/// Relies on `String::as_mut_str`: the whole string, borrowed mutably.
pub assume_specification[ String::as_mut_str ](s: &mut String) -> (r: &mut str)
    ensures
        r@ == old(s)@,
        final(s)@ == final(r)@,
;

/// A character boundary of a UTF-8 byte sequence that lies before another
/// boundary `hi` is also a boundary of the bytes before `hi`.
proof fn lemma_boundary_in_prefix(bytes: Seq<u8>, lo: int, hi: int)
    requires
        valid_utf8(bytes),
        0 <= lo <= hi <= bytes.len(),
        is_char_boundary(bytes, lo),
        is_char_boundary(bytes, hi),
    ensures
        valid_utf8(bytes.subrange(0, hi)),
        is_char_boundary(bytes.subrange(0, hi), lo),
{
    vstd::utf8::valid_utf8_split(bytes, hi);
    let prefix = bytes.subrange(0, hi);
    vstd::utf8::is_char_boundary_start_end_of_seq(prefix);
    if 0 < lo < hi {
        vstd::utf8::is_char_boundary_iff_not_is_continuation_byte(bytes, lo);
        vstd::utf8::is_char_boundary_iff_not_is_continuation_byte(prefix, lo);
    }
}

/// The items at positions `lo .. hi`.
fn sub_slice<'a, T>(s: &'a [T], lo: usize, hi: usize) -> (r: &'a [T])
    requires
        lo <= hi <= s@.len(),
    ensures
        r@ == s@.subrange(lo as int, hi as int),
{
    let (head, _) = s.split_at(hi);
    let (_, mid) = head.split_at(lo);
    mid
}

/// The items at positions `lo .. hi`, borrowed mutably; the rest of `s` is
/// left as it was.
fn sub_slice_mut<'a, T>(s: &'a mut [T], lo: usize, hi: usize) -> (r: &'a mut [T])
    requires
        lo <= hi <= old(s)@.len(),
    ensures
        r@ == old(s)@.subrange(lo as int, hi as int),
        final(s)@ == old(s)@.subrange(0, lo as int) + final(r)@ + old(s)@.subrange(
            hi as int,
            old(s)@.len() as int,
        ),
{
    let (head, tail) = s.split_at_mut(hi);
    let (before, mid) = head.split_at_mut(lo);
    mid
}

/// The text at byte positions `lo .. hi`.
fn sub_str<'a>(s: &'a str, lo: usize, hi: usize) -> (r: &'a str)
    requires
        lo <= hi,
        is_char_boundary(s.spec_bytes(), lo as int),
        is_char_boundary(s.spec_bytes(), hi as int),
    ensures
        r.spec_bytes() == s.spec_bytes().subrange(lo as int, hi as int),
{
    proof {
        vstd::utf8::encode_utf8_valid_utf8(s@);
        lemma_boundary_in_prefix(s.spec_bytes(), lo as int, hi as int);
    }
    let (head, _) = s.split_at(hi);
    let (_, mid) = head.split_at(lo);
    mid
}

/// The text at byte positions `lo .. hi`, borrowed mutably; the rest of `s`
/// is left as it was.
fn sub_str_mut<'a>(s: &'a mut str, lo: usize, hi: usize) -> (r: &'a mut str)
    requires
        lo <= hi,
        is_char_boundary(old(s).spec_bytes(), lo as int),
        is_char_boundary(old(s).spec_bytes(), hi as int),
    ensures
        r.spec_bytes() == old(s).spec_bytes().subrange(lo as int, hi as int),
        final(s).spec_bytes() == old(s).spec_bytes().subrange(0, lo as int)
            + final(r).spec_bytes() + old(s).spec_bytes().subrange(
            hi as int,
            old(s).spec_bytes().len() as int,
        ),
{
    proof {
        vstd::utf8::encode_utf8_valid_utf8(s@);
        lemma_boundary_in_prefix(s.spec_bytes(), lo as int, hi as int);
    }
    let (head, tail) = s.split_at_mut(hi);
    let (before, mid) = head.split_at_mut(lo);
    mid
}

impl RangeFromExclusive<usize> {
    /// The first position that the range selects: `start + 1`.
    pub open spec fn index_lower(self) -> int {
        self.start + 1
    }

    /// The position after the last one that the range selects from a
    /// sequence of `len` items: the length.
    pub open spec fn index_upper(self, len: int) -> int {
        len
    }

    /// Whether the range selects a part of a sequence of `len` items:
    /// `start` is below `usize::MAX` and `start + 1` is at most the length.
    pub open spec fn can_index(self, len: int) -> bool {
        self.start < usize::MAX && self.start + 1 <= len
    }

    /// Whether the range selects a part of the text whose UTF-8 bytes are
    /// `bytes`: it must fit them and both of its ends must fall on character
    /// boundaries.
    pub open spec fn can_index_str(self, bytes: Seq<u8>) -> bool {
        &&& self.can_index(bytes.len() as int)
        &&& is_char_boundary(bytes, self.index_lower())
        &&& is_char_boundary(bytes, self.index_upper(bytes.len() as int))
    }

    /// The part of `s` that the range selects, or `None` where indexing would
    /// fail, in particular whenever `start` is `usize::MAX`.
    pub fn get_slice<'a, T>(self, s: &'a [T]) -> (r: Option<&'a [T]>)
        ensures
            r is Some <==> self.can_index(s@.len() as int),
            self.start == usize::MAX ==> r is None,
            r matches Some(part) ==> part@ == s@.subrange(
                self.index_lower(),
                self.index_upper(s@.len() as int),
            ),
    {
        if self.start == usize::MAX || self.start + 1 > s.len() {
            return None;
        }
        Some(sub_slice(s, self.start + 1, s.len()))
    }

    /// The part of `s` that the range selects.
    pub fn index_slice<'a, T>(self, s: &'a [T]) -> (r: &'a [T])
        requires
            self.can_index(s@.len() as int),
        ensures
            r@ == s@.subrange(self.index_lower(), self.index_upper(s@.len() as int)),
    {
        sub_slice(s, self.start + 1, s.len())
    }

    /// The part of `s` that the range selects, borrowed mutably; what is
    /// written through it is what `s` holds at those positions afterwards.
    pub fn index_slice_mut<'a, T>(self, s: &'a mut [T]) -> (r: &'a mut [T])
        requires
            self.can_index(old(s)@.len() as int),
        ensures
            r@ == old(s)@.subrange(self.index_lower(), self.index_upper(old(s)@.len() as int)),
            final(s)@ == old(s)@.subrange(0, self.index_lower()) + final(r)@ + old(s)@.subrange(
                self.index_upper(old(s)@.len() as int),
                old(s)@.len() as int,
            ),
    {
        let len = s.len();
        sub_slice_mut(s, self.start + 1, len)
    }

    /// The part of `v` that the range selects.
    pub fn index_vec<'a, T>(self, v: &'a Vec<T>) -> (r: &'a [T])
        requires
            self.can_index(v@.len() as int),
        ensures
            r@ == v@.subrange(self.index_lower(), self.index_upper(v@.len() as int)),
    {
        self.index_slice(v.as_slice())
    }

    /// The part of `v` that the range selects, borrowed mutably.
    pub fn index_vec_mut<'a, T>(self, v: &'a mut Vec<T>) -> (r: &'a mut [T])
        requires
            self.can_index(old(v)@.len() as int),
        ensures
            r@ == old(v)@.subrange(self.index_lower(), self.index_upper(old(v)@.len() as int)),
            final(v)@ == old(v)@.subrange(0, self.index_lower()) + final(r)@ + old(v)@.subrange(
                self.index_upper(old(v)@.len() as int),
                old(v)@.len() as int,
            ),
    {
        self.index_slice_mut(v.as_mut_slice())
    }

    /// The part of `s` that the range selects, or `None` where indexing would
    /// fail, in particular whenever `start` is `usize::MAX`.
    pub fn get_str<'a>(self, s: &'a str) -> (r: Option<&'a str>)
        ensures
            r is Some <==> self.can_index_str(s.spec_bytes()),
            self.start == usize::MAX ==> r is None,
            r matches Some(part) ==> part.spec_bytes() == s.spec_bytes().subrange(
                self.index_lower(),
                self.index_upper(s.spec_bytes().len() as int),
            ),
    {
        let len = s.as_bytes().len();
        if self.start == usize::MAX || self.start + 1 > len {
            return None;
        }
        if !s.is_char_boundary(self.start + 1) || !s.is_char_boundary(len) {
            return None;
        }
        Some(sub_str(s, self.start + 1, len))
    }

    /// The part of `s` that the range selects.
    pub fn index_str<'a>(self, s: &'a str) -> (r: &'a str)
        requires
            self.can_index_str(s.spec_bytes()),
        ensures
            r.spec_bytes() == s.spec_bytes().subrange(
                self.index_lower(),
                self.index_upper(s.spec_bytes().len() as int),
            ),
    {
        let len = s.as_bytes().len();
        sub_str(s, self.start + 1, len)
    }

    /// The part of `s` that the range selects, borrowed mutably; the bytes
    /// around it stay as they were.
    pub fn index_str_mut<'a>(self, s: &'a mut str) -> (r: &'a mut str)
        requires
            self.can_index_str(old(s).spec_bytes()),
        ensures
            r.spec_bytes() == old(s).spec_bytes().subrange(
                self.index_lower(),
                self.index_upper(old(s).spec_bytes().len() as int),
            ),
            final(s).spec_bytes() == old(s).spec_bytes().subrange(0, self.index_lower())
                + final(r).spec_bytes() + old(s).spec_bytes().subrange(
                self.index_upper(old(s).spec_bytes().len() as int),
                old(s).spec_bytes().len() as int,
            ),
    {
        let len = s.as_bytes().len();
        sub_str_mut(s, self.start + 1, len)
    }

    /// The part of `s` that the range selects.
    pub fn index_string<'a>(self, s: &'a String) -> (r: &'a str)
        requires
            self.can_index_str(encode_utf8(s@)),
        ensures
            r.spec_bytes() == encode_utf8(s@).subrange(
                self.index_lower(),
                self.index_upper(encode_utf8(s@).len() as int),
            ),
    {
        self.index_str(s.as_str())
    }

    /// The part of `s` that the range selects, borrowed mutably.
    pub fn index_string_mut<'a>(self, s: &'a mut String) -> (r: &'a mut str)
        requires
            self.can_index_str(encode_utf8(old(s)@)),
        ensures
            r.spec_bytes() == encode_utf8(old(s)@).subrange(
                self.index_lower(),
                self.index_upper(encode_utf8(old(s)@).len() as int),
            ),
            encode_utf8(final(s)@) == encode_utf8(old(s)@).subrange(0, self.index_lower())
                + final(r).spec_bytes() + encode_utf8(old(s)@).subrange(
                self.index_upper(encode_utf8(old(s)@).len() as int),
                encode_utf8(old(s)@).len() as int,
            ),
    {
        self.index_str_mut(s.as_mut_str())
    }
}

impl RangeFromExclusiveToInclusive<usize> {
    /// The first position that the range selects: `start + 1`.
    pub open spec fn index_lower(self) -> int {
        self.start + 1
    }

    /// The position after the last one that the range selects from a
    /// sequence of `len` items: `end + 1`.
    pub open spec fn index_upper(self, len: int) -> int {
        self.end + 1
    }

    /// Whether the range selects a part of a sequence of `len` items:
    /// neither bound is `usize::MAX`, `start` is at most `end`, and `end + 1`
    /// is at most the length.
    pub open spec fn can_index(self, len: int) -> bool {
        self.start < usize::MAX && self.end < usize::MAX && self.start <= self.end && self.end + 1 <= len
    }

    /// Whether the range selects a part of the text whose UTF-8 bytes are
    /// `bytes`: it must fit them and both of its ends must fall on character
    /// boundaries.
    pub open spec fn can_index_str(self, bytes: Seq<u8>) -> bool {
        &&& self.can_index(bytes.len() as int)
        &&& is_char_boundary(bytes, self.index_lower())
        &&& is_char_boundary(bytes, self.index_upper(bytes.len() as int))
    }

    /// The part of `s` that the range selects, or `None` where indexing would
    /// fail, in particular whenever `start` is `usize::MAX`.
    pub fn get_slice<'a, T>(self, s: &'a [T]) -> (r: Option<&'a [T]>)
        ensures
            r is Some <==> self.can_index(s@.len() as int),
            self.start == usize::MAX ==> r is None,
            r matches Some(part) ==> part@ == s@.subrange(
                self.index_lower(),
                self.index_upper(s@.len() as int),
            ),
    {
        if self.start == usize::MAX || self.end == usize::MAX || self.start > self.end
            || self.end + 1 > s.len() {
            return None;
        }
        Some(sub_slice(s, self.start + 1, self.end + 1))
    }

    /// The part of `s` that the range selects.
    pub fn index_slice<'a, T>(self, s: &'a [T]) -> (r: &'a [T])
        requires
            self.can_index(s@.len() as int),
        ensures
            r@ == s@.subrange(self.index_lower(), self.index_upper(s@.len() as int)),
    {
        sub_slice(s, self.start + 1, self.end + 1)
    }

    /// The part of `s` that the range selects, borrowed mutably; what is
    /// written through it is what `s` holds at those positions afterwards.
    pub fn index_slice_mut<'a, T>(self, s: &'a mut [T]) -> (r: &'a mut [T])
        requires
            self.can_index(old(s)@.len() as int),
        ensures
            r@ == old(s)@.subrange(self.index_lower(), self.index_upper(old(s)@.len() as int)),
            final(s)@ == old(s)@.subrange(0, self.index_lower()) + final(r)@ + old(s)@.subrange(
                self.index_upper(old(s)@.len() as int),
                old(s)@.len() as int,
            ),
    {
        sub_slice_mut(s, self.start + 1, self.end + 1)
    }

    /// The part of `v` that the range selects.
    pub fn index_vec<'a, T>(self, v: &'a Vec<T>) -> (r: &'a [T])
        requires
            self.can_index(v@.len() as int),
        ensures
            r@ == v@.subrange(self.index_lower(), self.index_upper(v@.len() as int)),
    {
        self.index_slice(v.as_slice())
    }

    /// The part of `v` that the range selects, borrowed mutably.
    pub fn index_vec_mut<'a, T>(self, v: &'a mut Vec<T>) -> (r: &'a mut [T])
        requires
            self.can_index(old(v)@.len() as int),
        ensures
            r@ == old(v)@.subrange(self.index_lower(), self.index_upper(old(v)@.len() as int)),
            final(v)@ == old(v)@.subrange(0, self.index_lower()) + final(r)@ + old(v)@.subrange(
                self.index_upper(old(v)@.len() as int),
                old(v)@.len() as int,
            ),
    {
        self.index_slice_mut(v.as_mut_slice())
    }

    /// The part of `s` that the range selects, or `None` where indexing would
    /// fail, in particular whenever `start` is `usize::MAX`.
    pub fn get_str<'a>(self, s: &'a str) -> (r: Option<&'a str>)
        ensures
            r is Some <==> self.can_index_str(s.spec_bytes()),
            self.start == usize::MAX ==> r is None,
            r matches Some(part) ==> part.spec_bytes() == s.spec_bytes().subrange(
                self.index_lower(),
                self.index_upper(s.spec_bytes().len() as int),
            ),
    {
        if self.start == usize::MAX || self.end == usize::MAX || self.start > self.end
            || self.end + 1 > s.as_bytes().len() {
            return None;
        }
        if !s.is_char_boundary(self.start + 1) || !s.is_char_boundary(self.end + 1) {
            return None;
        }
        Some(sub_str(s, self.start + 1, self.end + 1))
    }

    /// The part of `s` that the range selects.
    pub fn index_str<'a>(self, s: &'a str) -> (r: &'a str)
        requires
            self.can_index_str(s.spec_bytes()),
        ensures
            r.spec_bytes() == s.spec_bytes().subrange(
                self.index_lower(),
                self.index_upper(s.spec_bytes().len() as int),
            ),
    {
        sub_str(s, self.start + 1, self.end + 1)
    }

    /// The part of `s` that the range selects, borrowed mutably; the bytes
    /// around it stay as they were.
    pub fn index_str_mut<'a>(self, s: &'a mut str) -> (r: &'a mut str)
        requires
            self.can_index_str(old(s).spec_bytes()),
        ensures
            r.spec_bytes() == old(s).spec_bytes().subrange(
                self.index_lower(),
                self.index_upper(old(s).spec_bytes().len() as int),
            ),
            final(s).spec_bytes() == old(s).spec_bytes().subrange(0, self.index_lower())
                + final(r).spec_bytes() + old(s).spec_bytes().subrange(
                self.index_upper(old(s).spec_bytes().len() as int),
                old(s).spec_bytes().len() as int,
            ),
    {
        sub_str_mut(s, self.start + 1, self.end + 1)
    }

    /// The part of `s` that the range selects.
    pub fn index_string<'a>(self, s: &'a String) -> (r: &'a str)
        requires
            self.can_index_str(encode_utf8(s@)),
        ensures
            r.spec_bytes() == encode_utf8(s@).subrange(
                self.index_lower(),
                self.index_upper(encode_utf8(s@).len() as int),
            ),
    {
        self.index_str(s.as_str())
    }

    /// The part of `s` that the range selects, borrowed mutably.
    pub fn index_string_mut<'a>(self, s: &'a mut String) -> (r: &'a mut str)
        requires
            self.can_index_str(encode_utf8(old(s)@)),
        ensures
            r.spec_bytes() == encode_utf8(old(s)@).subrange(
                self.index_lower(),
                self.index_upper(encode_utf8(old(s)@).len() as int),
            ),
            encode_utf8(final(s)@) == encode_utf8(old(s)@).subrange(0, self.index_lower())
                + final(r).spec_bytes() + encode_utf8(old(s)@).subrange(
                self.index_upper(encode_utf8(old(s)@).len() as int),
                encode_utf8(old(s)@).len() as int,
            ),
    {
        self.index_str_mut(s.as_mut_str())
    }
}

impl RangeFromExclusiveToExclusive<usize> {
    /// The first position that the range selects: `start + 1`.
    pub open spec fn index_lower(self) -> int {
        self.start + 1
    }

    /// The position after the last one that the range selects from a
    /// sequence of `len` items: `end`.
    pub open spec fn index_upper(self, len: int) -> int {
        self.end as int
    }

    /// Whether the range selects a part of a sequence of `len` items:
    /// `start` is below `usize::MAX`, `start + 1` is at most `end`, and
    /// `end` is at most the length.
    pub open spec fn can_index(self, len: int) -> bool {
        self.start < usize::MAX && self.start + 1 <= self.end && self.end <= len
    }

    /// Whether the range selects a part of the text whose UTF-8 bytes are
    /// `bytes`: it must fit them and both of its ends must fall on character
    /// boundaries.
    pub open spec fn can_index_str(self, bytes: Seq<u8>) -> bool {
        &&& self.can_index(bytes.len() as int)
        &&& is_char_boundary(bytes, self.index_lower())
        &&& is_char_boundary(bytes, self.index_upper(bytes.len() as int))
    }

    /// The part of `s` that the range selects, or `None` where indexing would
    /// fail, in particular whenever `start` is `usize::MAX`.
    pub fn get_slice<'a, T>(self, s: &'a [T]) -> (r: Option<&'a [T]>)
        ensures
            r is Some <==> self.can_index(s@.len() as int),
            self.start == usize::MAX ==> r is None,
            r matches Some(part) ==> part@ == s@.subrange(
                self.index_lower(),
                self.index_upper(s@.len() as int),
            ),
    {
        if self.start == usize::MAX || self.start + 1 > self.end || self.end > s.len() {
            return None;
        }
        Some(sub_slice(s, self.start + 1, self.end))
    }

    /// The part of `s` that the range selects.
    pub fn index_slice<'a, T>(self, s: &'a [T]) -> (r: &'a [T])
        requires
            self.can_index(s@.len() as int),
        ensures
            r@ == s@.subrange(self.index_lower(), self.index_upper(s@.len() as int)),
    {
        sub_slice(s, self.start + 1, self.end)
    }

    /// The part of `s` that the range selects, borrowed mutably; what is
    /// written through it is what `s` holds at those positions afterwards.
    pub fn index_slice_mut<'a, T>(self, s: &'a mut [T]) -> (r: &'a mut [T])
        requires
            self.can_index(old(s)@.len() as int),
        ensures
            r@ == old(s)@.subrange(self.index_lower(), self.index_upper(old(s)@.len() as int)),
            final(s)@ == old(s)@.subrange(0, self.index_lower()) + final(r)@ + old(s)@.subrange(
                self.index_upper(old(s)@.len() as int),
                old(s)@.len() as int,
            ),
    {
        sub_slice_mut(s, self.start + 1, self.end)
    }

    /// The part of `v` that the range selects.
    pub fn index_vec<'a, T>(self, v: &'a Vec<T>) -> (r: &'a [T])
        requires
            self.can_index(v@.len() as int),
        ensures
            r@ == v@.subrange(self.index_lower(), self.index_upper(v@.len() as int)),
    {
        self.index_slice(v.as_slice())
    }

    /// The part of `v` that the range selects, borrowed mutably.
    pub fn index_vec_mut<'a, T>(self, v: &'a mut Vec<T>) -> (r: &'a mut [T])
        requires
            self.can_index(old(v)@.len() as int),
        ensures
            r@ == old(v)@.subrange(self.index_lower(), self.index_upper(old(v)@.len() as int)),
            final(v)@ == old(v)@.subrange(0, self.index_lower()) + final(r)@ + old(v)@.subrange(
                self.index_upper(old(v)@.len() as int),
                old(v)@.len() as int,
            ),
    {
        self.index_slice_mut(v.as_mut_slice())
    }

    /// The part of `s` that the range selects, or `None` where indexing would
    /// fail, in particular whenever `start` is `usize::MAX`.
    pub fn get_str<'a>(self, s: &'a str) -> (r: Option<&'a str>)
        ensures
            r is Some <==> self.can_index_str(s.spec_bytes()),
            self.start == usize::MAX ==> r is None,
            r matches Some(part) ==> part.spec_bytes() == s.spec_bytes().subrange(
                self.index_lower(),
                self.index_upper(s.spec_bytes().len() as int),
            ),
    {
        if self.start == usize::MAX || self.start + 1 > self.end || self.end > s.as_bytes().len() {
            return None;
        }
        if !s.is_char_boundary(self.start + 1) || !s.is_char_boundary(self.end) {
            return None;
        }
        Some(sub_str(s, self.start + 1, self.end))
    }

    /// The part of `s` that the range selects.
    pub fn index_str<'a>(self, s: &'a str) -> (r: &'a str)
        requires
            self.can_index_str(s.spec_bytes()),
        ensures
            r.spec_bytes() == s.spec_bytes().subrange(
                self.index_lower(),
                self.index_upper(s.spec_bytes().len() as int),
            ),
    {
        sub_str(s, self.start + 1, self.end)
    }

    /// The part of `s` that the range selects, borrowed mutably; the bytes
    /// around it stay as they were.
    pub fn index_str_mut<'a>(self, s: &'a mut str) -> (r: &'a mut str)
        requires
            self.can_index_str(old(s).spec_bytes()),
        ensures
            r.spec_bytes() == old(s).spec_bytes().subrange(
                self.index_lower(),
                self.index_upper(old(s).spec_bytes().len() as int),
            ),
            final(s).spec_bytes() == old(s).spec_bytes().subrange(0, self.index_lower())
                + final(r).spec_bytes() + old(s).spec_bytes().subrange(
                self.index_upper(old(s).spec_bytes().len() as int),
                old(s).spec_bytes().len() as int,
            ),
    {
        sub_str_mut(s, self.start + 1, self.end)
    }

    /// The part of `s` that the range selects.
    pub fn index_string<'a>(self, s: &'a String) -> (r: &'a str)
        requires
            self.can_index_str(encode_utf8(s@)),
        ensures
            r.spec_bytes() == encode_utf8(s@).subrange(
                self.index_lower(),
                self.index_upper(encode_utf8(s@).len() as int),
            ),
    {
        self.index_str(s.as_str())
    }

    /// The part of `s` that the range selects, borrowed mutably.
    pub fn index_string_mut<'a>(self, s: &'a mut String) -> (r: &'a mut str)
        requires
            self.can_index_str(encode_utf8(old(s)@)),
        ensures
            r.spec_bytes() == encode_utf8(old(s)@).subrange(
                self.index_lower(),
                self.index_upper(encode_utf8(old(s)@).len() as int),
            ),
            encode_utf8(final(s)@) == encode_utf8(old(s)@).subrange(0, self.index_lower())
                + final(r).spec_bytes() + encode_utf8(old(s)@).subrange(
                self.index_upper(encode_utf8(old(s)@).len() as int),
                encode_utf8(old(s)@).len() as int,
            ),
    {
        self.index_str_mut(s.as_mut_str())
    }
}

impl<T> Index<RangeFromExclusive<usize>> for [T] {
    type Output = [T];

    fn index(&self, index: RangeFromExclusive<usize>) -> (r: &[T])
        ensures
            r@ == self@.subrange(index.index_lower(), index.index_upper(self@.len() as int)),
    {
        index.index_slice(self)
    }
}

impl<T> vstd::std_specs::core::IndexSpecImpl<RangeFromExclusive<usize>> for [T] {
    open spec fn index_req(&self, index: &RangeFromExclusive<usize>) -> bool {
        index.can_index(self@.len() as int)
    }
}

impl<T> Index<RangeFromExclusive<usize>> for Vec<T> {
    type Output = [T];

    fn index(&self, index: RangeFromExclusive<usize>) -> (r: &[T])
        ensures
            r@ == self@.subrange(index.index_lower(), index.index_upper(self@.len() as int)),
    {
        index.index_vec(self)
    }
}

impl<T> vstd::std_specs::core::IndexSpecImpl<RangeFromExclusive<usize>> for Vec<T> {
    open spec fn index_req(&self, index: &RangeFromExclusive<usize>) -> bool {
        index.can_index(self@.len() as int)
    }
}

impl Index<RangeFromExclusive<usize>> for str {
    type Output = str;

    fn index(&self, index: RangeFromExclusive<usize>) -> (r: &str)
        ensures
            r.spec_bytes() == self.spec_bytes().subrange(
                index.index_lower(),
                index.index_upper(self.spec_bytes().len() as int),
            ),
    {
        index.index_str(self)
    }
}

impl vstd::std_specs::core::IndexSpecImpl<RangeFromExclusive<usize>> for str {
    open spec fn index_req(&self, index: &RangeFromExclusive<usize>) -> bool {
        index.can_index_str(self.spec_bytes())
    }
}

impl Index<RangeFromExclusive<usize>> for String {
    type Output = str;

    fn index(&self, index: RangeFromExclusive<usize>) -> (r: &str)
        ensures
            r.spec_bytes() == encode_utf8(self@).subrange(
                index.index_lower(),
                index.index_upper(encode_utf8(self@).len() as int),
            ),
    {
        index.index_string(self)
    }
}

impl vstd::std_specs::core::IndexSpecImpl<RangeFromExclusive<usize>> for String {
    open spec fn index_req(&self, index: &RangeFromExclusive<usize>) -> bool {
        index.can_index_str(encode_utf8(self@))
    }
}

impl<T> Index<RangeFromExclusiveToInclusive<usize>> for [T] {
    type Output = [T];

    fn index(&self, index: RangeFromExclusiveToInclusive<usize>) -> (r: &[T])
        ensures
            r@ == self@.subrange(index.index_lower(), index.index_upper(self@.len() as int)),
    {
        index.index_slice(self)
    }
}

impl<T> vstd::std_specs::core::IndexSpecImpl<RangeFromExclusiveToInclusive<usize>> for [T] {
    open spec fn index_req(&self, index: &RangeFromExclusiveToInclusive<usize>) -> bool {
        index.can_index(self@.len() as int)
    }
}

impl<T> Index<RangeFromExclusiveToInclusive<usize>> for Vec<T> {
    type Output = [T];

    fn index(&self, index: RangeFromExclusiveToInclusive<usize>) -> (r: &[T])
        ensures
            r@ == self@.subrange(index.index_lower(), index.index_upper(self@.len() as int)),
    {
        index.index_vec(self)
    }
}

impl<T> vstd::std_specs::core::IndexSpecImpl<RangeFromExclusiveToInclusive<usize>> for Vec<T> {
    open spec fn index_req(&self, index: &RangeFromExclusiveToInclusive<usize>) -> bool {
        index.can_index(self@.len() as int)
    }
}

impl Index<RangeFromExclusiveToInclusive<usize>> for str {
    type Output = str;

    fn index(&self, index: RangeFromExclusiveToInclusive<usize>) -> (r: &str)
        ensures
            r.spec_bytes() == self.spec_bytes().subrange(
                index.index_lower(),
                index.index_upper(self.spec_bytes().len() as int),
            ),
    {
        index.index_str(self)
    }
}

impl vstd::std_specs::core::IndexSpecImpl<RangeFromExclusiveToInclusive<usize>> for str {
    open spec fn index_req(&self, index: &RangeFromExclusiveToInclusive<usize>) -> bool {
        index.can_index_str(self.spec_bytes())
    }
}

impl Index<RangeFromExclusiveToInclusive<usize>> for String {
    type Output = str;

    fn index(&self, index: RangeFromExclusiveToInclusive<usize>) -> (r: &str)
        ensures
            r.spec_bytes() == encode_utf8(self@).subrange(
                index.index_lower(),
                index.index_upper(encode_utf8(self@).len() as int),
            ),
    {
        index.index_string(self)
    }
}

impl vstd::std_specs::core::IndexSpecImpl<RangeFromExclusiveToInclusive<usize>> for String {
    open spec fn index_req(&self, index: &RangeFromExclusiveToInclusive<usize>) -> bool {
        index.can_index_str(encode_utf8(self@))
    }
}

impl<T> Index<RangeFromExclusiveToExclusive<usize>> for [T] {
    type Output = [T];

    fn index(&self, index: RangeFromExclusiveToExclusive<usize>) -> (r: &[T])
        ensures
            r@ == self@.subrange(index.index_lower(), index.index_upper(self@.len() as int)),
    {
        index.index_slice(self)
    }
}

impl<T> vstd::std_specs::core::IndexSpecImpl<RangeFromExclusiveToExclusive<usize>> for [T] {
    open spec fn index_req(&self, index: &RangeFromExclusiveToExclusive<usize>) -> bool {
        index.can_index(self@.len() as int)
    }
}

impl<T> Index<RangeFromExclusiveToExclusive<usize>> for Vec<T> {
    type Output = [T];

    fn index(&self, index: RangeFromExclusiveToExclusive<usize>) -> (r: &[T])
        ensures
            r@ == self@.subrange(index.index_lower(), index.index_upper(self@.len() as int)),
    {
        index.index_vec(self)
    }
}

impl<T> vstd::std_specs::core::IndexSpecImpl<RangeFromExclusiveToExclusive<usize>> for Vec<T> {
    open spec fn index_req(&self, index: &RangeFromExclusiveToExclusive<usize>) -> bool {
        index.can_index(self@.len() as int)
    }
}

impl Index<RangeFromExclusiveToExclusive<usize>> for str {
    type Output = str;

    fn index(&self, index: RangeFromExclusiveToExclusive<usize>) -> (r: &str)
        ensures
            r.spec_bytes() == self.spec_bytes().subrange(
                index.index_lower(),
                index.index_upper(self.spec_bytes().len() as int),
            ),
    {
        index.index_str(self)
    }
}

impl vstd::std_specs::core::IndexSpecImpl<RangeFromExclusiveToExclusive<usize>> for str {
    open spec fn index_req(&self, index: &RangeFromExclusiveToExclusive<usize>) -> bool {
        index.can_index_str(self.spec_bytes())
    }
}

impl Index<RangeFromExclusiveToExclusive<usize>> for String {
    type Output = str;

    fn index(&self, index: RangeFromExclusiveToExclusive<usize>) -> (r: &str)
        ensures
            r.spec_bytes() == encode_utf8(self@).subrange(
                index.index_lower(),
                index.index_upper(encode_utf8(self@).len() as int),
            ),
    {
        index.index_string(self)
    }
}

impl vstd::std_specs::core::IndexSpecImpl<RangeFromExclusiveToExclusive<usize>> for String {
    open spec fn index_req(&self, index: &RangeFromExclusiveToExclusive<usize>) -> bool {
        index.can_index_str(encode_utf8(self@))
    }
}

/// No range whose exclusive `start` is `usize::MAX` selects anything, of any
/// sequence or text: `start` has no successor to begin the selection at, so
/// indexing with it always fails.
pub proof fn lemma_maximum_start_never_indexes(bytes: Seq<u8>, end: usize, len: int)
    ensures
        !(RangeFromExclusive { start: usize::MAX }).can_index(len),
        !(RangeFromExclusiveToInclusive { start: usize::MAX, end }).can_index(len),
        !(RangeFromExclusiveToExclusive { start: usize::MAX, end }).can_index(len),
        !(RangeFromExclusive { start: usize::MAX }).can_index_str(bytes),
        !(RangeFromExclusiveToInclusive { start: usize::MAX, end }).can_index_str(bytes),
        !(RangeFromExclusiveToExclusive { start: usize::MAX, end }).can_index_str(bytes),
{
}

impl RangeFromExclusive<usize> {
    /// The part of a nul-terminated byte string (given with its terminator)
    /// that the range selects: the bytes after position `start`, terminator
    /// included. The selection must keep at least the terminator.
    pub fn index_bytes_with_nul<'a>(self, bytes: &'a [u8]) -> (r: &'a [u8])
        requires
            self.start < usize::MAX,
            self.start + 1 < bytes@.len(),
        ensures
            r@ == bytes@.subrange(self.start + 1, bytes@.len() as int),
            r@.len() > 0,
            r@.last() == bytes@.last(),
    {
        sub_slice(bytes, self.start + 1, bytes.len())
    }
}

} // verus!
