//! The stepping capability that the range types iterate with.
//!
//! A [`Step`] type is an ordinal type: its values stand in a single ordered
//! enumeration, so each value has a position (`ord`), a successor and a
//! predecessor (where they exist), and a number of steps to any later value.
use vstd::prelude::*;

verus! {

/// The number of steps from position `a` to position `b`, when `a <= b` and
/// the count fits in a `usize`; `None` otherwise.
pub open spec fn steps(a: int, b: int) -> Option<usize> {
    if a <= b && b - a <= usize::MAX {
        Some((b - a) as usize)
    } else {
        None
    }
}

/// An ordinal type whose values can be stepped through one at a time.
///
/// The model of a value is its position `ord()` in the type's enumeration:
/// `ord` is a bijection between the values of the type and the positions
/// `ord_min() ..= ord_max()`, and `from_ord` is its inverse.
pub trait Step: Sized + Copy {
    /// The position of `self` in the enumeration of the type's values.
    spec fn ord(self) -> int;

    /// The value at position `i`, for `ord_min() <= i <= ord_max()`.
    spec fn from_ord(i: int) -> Self;

    /// The position of the least value of the type.
    spec fn ord_min() -> int;

    /// The position of the greatest value of the type.
    spec fn ord_max() -> int;

    /// Every value has a position within bounds, and `from_ord` finds it again.
    proof fn lemma_ord(v: Self)
        ensures
            Self::ord_min() <= v.ord() <= Self::ord_max(),
            Self::from_ord(v.ord()) == v,
    ;

    /// Every position within bounds belongs to a value.
    proof fn lemma_from_ord(i: int)
        requires
            Self::ord_min() <= i <= Self::ord_max(),
        ensures
            Self::from_ord(i).ord() == i,
    ;

    /// Whether `a` comes strictly before `b`.
    fn precedes(a: &Self, b: &Self) -> (r: bool)
        ensures
            r == (a.ord() < b.ord()),
    ;

    /// The number of steps from `start` to `end`: `None` when `end` comes
    /// before `start` or when the count does not fit in a `usize`.
    fn steps_between(start: &Self, end: &Self) -> (r: Option<usize>)
        ensures
            r == steps(start.ord(), end.ord()),
    ;

    /// The value `count` steps after `start`, or `None` past the greatest value.
    fn forward_checked(start: Self, count: usize) -> (r: Option<Self>)
        ensures
            r == (if start.ord() + count <= Self::ord_max() {
                Some(Self::from_ord(start.ord() + count))
            } else {
                None
            }),
    ;

    /// The value `count` steps before `start`, or `None` past the least value.
    fn backward_checked(start: Self, count: usize) -> (r: Option<Self>)
        ensures
            r == (if start.ord() - count >= Self::ord_min() {
                Some(Self::from_ord(start.ord() - count))
            } else {
                None
            }),
    ;
}

/// A [`Step`] type whose every count of steps fits in a `usize`, so that a
/// range over it always has an exact length.
///
/// The integer types of up to 32 bits, `usize`, `isize` and `char` are such
/// types on every target. The 64-bit and 128-bit integers are not: their
/// spans fit a `usize` on no target or, for 64 bits, only on some.
pub trait ExactStep: Step {
    /// The whole span of positions fits in a `usize`.
    proof fn lemma_span_fits()
        ensures
            Self::ord_max() - Self::ord_min() <= usize::MAX,
    ;
}

impl Step for u8 {
    open spec fn ord(self) -> int {
        self as int
    }

    open spec fn from_ord(i: int) -> u8 {
        i as u8
    }

    open spec fn ord_min() -> int {
        0
    }

    open spec fn ord_max() -> int {
        u8::MAX as int
    }

    proof fn lemma_ord(v: Self) {
    }

    proof fn lemma_from_ord(i: int) {
    }

    fn precedes(a: &Self, b: &Self) -> (r: bool) {
        *a < *b
    }

    fn steps_between(start: &Self, end: &Self) -> (r: Option<usize>) {
        if *start <= *end {
            let d: u8 = *end - *start;
            if d as u128 <= usize::MAX as u128 {
                Some(d as usize)
            } else {
                None
            }
        } else {
            None
        }
    }

    fn forward_checked(start: Self, count: usize) -> (r: Option<Self>) {
        if count as u128 <= (u8::MAX - start) as u128 {
            Some(start + count as u8)
        } else {
            None
        }
    }

    fn backward_checked(start: Self, count: usize) -> (r: Option<Self>) {
        if count as u128 <= start as u128 {
            Some(start - count as u8)
        } else {
            None
        }
    }
}

impl Step for u16 {
    open spec fn ord(self) -> int {
        self as int
    }

    open spec fn from_ord(i: int) -> u16 {
        i as u16
    }

    open spec fn ord_min() -> int {
        0
    }

    open spec fn ord_max() -> int {
        u16::MAX as int
    }

    proof fn lemma_ord(v: Self) {
    }

    proof fn lemma_from_ord(i: int) {
    }

    fn precedes(a: &Self, b: &Self) -> (r: bool) {
        *a < *b
    }

    fn steps_between(start: &Self, end: &Self) -> (r: Option<usize>) {
        if *start <= *end {
            let d: u16 = *end - *start;
            if d as u128 <= usize::MAX as u128 {
                Some(d as usize)
            } else {
                None
            }
        } else {
            None
        }
    }

    fn forward_checked(start: Self, count: usize) -> (r: Option<Self>) {
        if count as u128 <= (u16::MAX - start) as u128 {
            Some(start + count as u16)
        } else {
            None
        }
    }

    fn backward_checked(start: Self, count: usize) -> (r: Option<Self>) {
        if count as u128 <= start as u128 {
            Some(start - count as u16)
        } else {
            None
        }
    }
}

impl Step for u32 {
    open spec fn ord(self) -> int {
        self as int
    }

    open spec fn from_ord(i: int) -> u32 {
        i as u32
    }

    open spec fn ord_min() -> int {
        0
    }

    open spec fn ord_max() -> int {
        u32::MAX as int
    }

    proof fn lemma_ord(v: Self) {
    }

    proof fn lemma_from_ord(i: int) {
    }

    fn precedes(a: &Self, b: &Self) -> (r: bool) {
        *a < *b
    }

    fn steps_between(start: &Self, end: &Self) -> (r: Option<usize>) {
        if *start <= *end {
            let d: u32 = *end - *start;
            if d as u128 <= usize::MAX as u128 {
                Some(d as usize)
            } else {
                None
            }
        } else {
            None
        }
    }

    fn forward_checked(start: Self, count: usize) -> (r: Option<Self>) {
        if count as u128 <= (u32::MAX - start) as u128 {
            Some(start + count as u32)
        } else {
            None
        }
    }

    fn backward_checked(start: Self, count: usize) -> (r: Option<Self>) {
        if count as u128 <= start as u128 {
            Some(start - count as u32)
        } else {
            None
        }
    }
}

impl Step for u64 {
    open spec fn ord(self) -> int {
        self as int
    }

    open spec fn from_ord(i: int) -> u64 {
        i as u64
    }

    open spec fn ord_min() -> int {
        0
    }

    open spec fn ord_max() -> int {
        u64::MAX as int
    }

    proof fn lemma_ord(v: Self) {
    }

    proof fn lemma_from_ord(i: int) {
    }

    fn precedes(a: &Self, b: &Self) -> (r: bool) {
        *a < *b
    }

    fn steps_between(start: &Self, end: &Self) -> (r: Option<usize>) {
        if *start <= *end {
            let d: u64 = *end - *start;
            if d as u128 <= usize::MAX as u128 {
                Some(d as usize)
            } else {
                None
            }
        } else {
            None
        }
    }

    fn forward_checked(start: Self, count: usize) -> (r: Option<Self>) {
        if count as u128 <= (u64::MAX - start) as u128 {
            Some(start + count as u64)
        } else {
            None
        }
    }

    fn backward_checked(start: Self, count: usize) -> (r: Option<Self>) {
        if count as u128 <= start as u128 {
            Some(start - count as u64)
        } else {
            None
        }
    }
}

impl Step for u128 {
    open spec fn ord(self) -> int {
        self as int
    }

    open spec fn from_ord(i: int) -> u128 {
        i as u128
    }

    open spec fn ord_min() -> int {
        0
    }

    open spec fn ord_max() -> int {
        u128::MAX as int
    }

    proof fn lemma_ord(v: Self) {
    }

    proof fn lemma_from_ord(i: int) {
    }

    fn precedes(a: &Self, b: &Self) -> (r: bool) {
        *a < *b
    }

    fn steps_between(start: &Self, end: &Self) -> (r: Option<usize>) {
        if *start <= *end {
            let d: u128 = *end - *start;
            if d as u128 <= usize::MAX as u128 {
                Some(d as usize)
            } else {
                None
            }
        } else {
            None
        }
    }

    fn forward_checked(start: Self, count: usize) -> (r: Option<Self>) {
        if count as u128 <= (u128::MAX - start) as u128 {
            Some(start + count as u128)
        } else {
            None
        }
    }

    fn backward_checked(start: Self, count: usize) -> (r: Option<Self>) {
        if count as u128 <= start as u128 {
            Some(start - count as u128)
        } else {
            None
        }
    }
}

impl Step for usize {
    open spec fn ord(self) -> int {
        self as int
    }

    open spec fn from_ord(i: int) -> usize {
        i as usize
    }

    open spec fn ord_min() -> int {
        0
    }

    open spec fn ord_max() -> int {
        usize::MAX as int
    }

    proof fn lemma_ord(v: Self) {
    }

    proof fn lemma_from_ord(i: int) {
    }

    fn precedes(a: &Self, b: &Self) -> (r: bool) {
        *a < *b
    }

    fn steps_between(start: &Self, end: &Self) -> (r: Option<usize>) {
        if *start <= *end {
            let d: usize = *end - *start;
            if d as u128 <= usize::MAX as u128 {
                Some(d as usize)
            } else {
                None
            }
        } else {
            None
        }
    }

    fn forward_checked(start: Self, count: usize) -> (r: Option<Self>) {
        if count as u128 <= (usize::MAX - start) as u128 {
            Some(start + count as usize)
        } else {
            None
        }
    }

    fn backward_checked(start: Self, count: usize) -> (r: Option<Self>) {
        if count as u128 <= start as u128 {
            Some(start - count as usize)
        } else {
            None
        }
    }
}

impl Step for i8 {
    open spec fn ord(self) -> int {
        self as int
    }

    open spec fn from_ord(i: int) -> i8 {
        i as i8
    }

    open spec fn ord_min() -> int {
        i8::MIN as int
    }

    open spec fn ord_max() -> int {
        i8::MAX as int
    }

    proof fn lemma_ord(v: Self) {
    }

    proof fn lemma_from_ord(i: int) {
    }

    fn precedes(a: &Self, b: &Self) -> (r: bool) {
        *a < *b
    }

    fn steps_between(start: &Self, end: &Self) -> (r: Option<usize>) {
        if *start <= *end {
            let d: i128 = *end as i128 - *start as i128;
            if d <= usize::MAX as i128 {
                Some(d as usize)
            } else {
                None
            }
        } else {
            None
        }
    }

    fn forward_checked(start: Self, count: usize) -> (r: Option<Self>) {
        if count as i128 <= i8::MAX as i128 - start as i128 {
            Some((start as i128 + count as i128) as i8)
        } else {
            None
        }
    }

    fn backward_checked(start: Self, count: usize) -> (r: Option<Self>) {
        if count as i128 <= start as i128 - i8::MIN as i128 {
            Some((start as i128 - count as i128) as i8)
        } else {
            None
        }
    }
}

impl Step for i16 {
    open spec fn ord(self) -> int {
        self as int
    }

    open spec fn from_ord(i: int) -> i16 {
        i as i16
    }

    open spec fn ord_min() -> int {
        i16::MIN as int
    }

    open spec fn ord_max() -> int {
        i16::MAX as int
    }

    proof fn lemma_ord(v: Self) {
    }

    proof fn lemma_from_ord(i: int) {
    }

    fn precedes(a: &Self, b: &Self) -> (r: bool) {
        *a < *b
    }

    fn steps_between(start: &Self, end: &Self) -> (r: Option<usize>) {
        if *start <= *end {
            let d: i128 = *end as i128 - *start as i128;
            if d <= usize::MAX as i128 {
                Some(d as usize)
            } else {
                None
            }
        } else {
            None
        }
    }

    fn forward_checked(start: Self, count: usize) -> (r: Option<Self>) {
        if count as i128 <= i16::MAX as i128 - start as i128 {
            Some((start as i128 + count as i128) as i16)
        } else {
            None
        }
    }

    fn backward_checked(start: Self, count: usize) -> (r: Option<Self>) {
        if count as i128 <= start as i128 - i16::MIN as i128 {
            Some((start as i128 - count as i128) as i16)
        } else {
            None
        }
    }
}

impl Step for i32 {
    open spec fn ord(self) -> int {
        self as int
    }

    open spec fn from_ord(i: int) -> i32 {
        i as i32
    }

    open spec fn ord_min() -> int {
        i32::MIN as int
    }

    open spec fn ord_max() -> int {
        i32::MAX as int
    }

    proof fn lemma_ord(v: Self) {
    }

    proof fn lemma_from_ord(i: int) {
    }

    fn precedes(a: &Self, b: &Self) -> (r: bool) {
        *a < *b
    }

    fn steps_between(start: &Self, end: &Self) -> (r: Option<usize>) {
        if *start <= *end {
            let d: i128 = *end as i128 - *start as i128;
            if d <= usize::MAX as i128 {
                Some(d as usize)
            } else {
                None
            }
        } else {
            None
        }
    }

    fn forward_checked(start: Self, count: usize) -> (r: Option<Self>) {
        if count as i128 <= i32::MAX as i128 - start as i128 {
            Some((start as i128 + count as i128) as i32)
        } else {
            None
        }
    }

    fn backward_checked(start: Self, count: usize) -> (r: Option<Self>) {
        if count as i128 <= start as i128 - i32::MIN as i128 {
            Some((start as i128 - count as i128) as i32)
        } else {
            None
        }
    }
}

impl Step for i64 {
    open spec fn ord(self) -> int {
        self as int
    }

    open spec fn from_ord(i: int) -> i64 {
        i as i64
    }

    open spec fn ord_min() -> int {
        i64::MIN as int
    }

    open spec fn ord_max() -> int {
        i64::MAX as int
    }

    proof fn lemma_ord(v: Self) {
    }

    proof fn lemma_from_ord(i: int) {
    }

    fn precedes(a: &Self, b: &Self) -> (r: bool) {
        *a < *b
    }

    fn steps_between(start: &Self, end: &Self) -> (r: Option<usize>) {
        if *start <= *end {
            let d: i128 = *end as i128 - *start as i128;
            if d <= usize::MAX as i128 {
                Some(d as usize)
            } else {
                None
            }
        } else {
            None
        }
    }

    fn forward_checked(start: Self, count: usize) -> (r: Option<Self>) {
        if count as i128 <= i64::MAX as i128 - start as i128 {
            Some((start as i128 + count as i128) as i64)
        } else {
            None
        }
    }

    fn backward_checked(start: Self, count: usize) -> (r: Option<Self>) {
        if count as i128 <= start as i128 - i64::MIN as i128 {
            Some((start as i128 - count as i128) as i64)
        } else {
            None
        }
    }
}

impl Step for isize {
    open spec fn ord(self) -> int {
        self as int
    }

    open spec fn from_ord(i: int) -> isize {
        i as isize
    }

    open spec fn ord_min() -> int {
        isize::MIN as int
    }

    open spec fn ord_max() -> int {
        isize::MAX as int
    }

    proof fn lemma_ord(v: Self) {
    }

    proof fn lemma_from_ord(i: int) {
    }

    fn precedes(a: &Self, b: &Self) -> (r: bool) {
        *a < *b
    }

    fn steps_between(start: &Self, end: &Self) -> (r: Option<usize>) {
        if *start <= *end {
            let d: i128 = *end as i128 - *start as i128;
            if d <= usize::MAX as i128 {
                Some(d as usize)
            } else {
                None
            }
        } else {
            None
        }
    }

    fn forward_checked(start: Self, count: usize) -> (r: Option<Self>) {
        if count as i128 <= isize::MAX as i128 - start as i128 {
            Some((start as i128 + count as i128) as isize)
        } else {
            None
        }
    }

    fn backward_checked(start: Self, count: usize) -> (r: Option<Self>) {
        if count as i128 <= start as i128 - isize::MIN as i128 {
            Some((start as i128 - count as i128) as isize)
        } else {
            None
        }
    }
}

impl Step for i128 {
    open spec fn ord(self) -> int {
        self as int
    }

    open spec fn from_ord(i: int) -> i128 {
        i as i128
    }

    open spec fn ord_min() -> int {
        i128::MIN as int
    }

    open spec fn ord_max() -> int {
        i128::MAX as int
    }

    proof fn lemma_ord(v: Self) {
    }

    proof fn lemma_from_ord(i: int) {
    }

    fn precedes(a: &Self, b: &Self) -> (r: bool) {
        *a < *b
    }

    fn steps_between(start: &Self, end: &Self) -> (r: Option<usize>) {
        if *start <= *end {
            match end.checked_sub(*start) {
                Some(d) => {
                    if d <= usize::MAX as i128 {
                        Some(d as usize)
                    } else {
                        None
                    }
                },
                None => None,
            }
        } else {
            None
        }
    }

    fn forward_checked(start: Self, count: usize) -> (r: Option<Self>) {
        start.checked_add_unsigned(count as u128)
    }

    fn backward_checked(start: Self, count: usize) -> (r: Option<Self>) {
        start.checked_sub_unsigned(count as u128)
    }
}

/// Whether `v` is a Unicode scalar value, the values that a `char` can hold.
pub open spec fn is_scalar_value(v: int) -> bool {
    (0 <= v < 0xD800) || (0xE000 <= v <= 0x10FFFF)
}

/// Relies on `char::from_u32`: it returns the `char` of a Unicode scalar value
/// and `None` for any other `u32`.
#[verifier::external_body]
fn char_from_u32(v: u32) -> (r: Option<char>)
    ensures
        is_scalar_value(v as int) ==> r == Some(v as char),
        !is_scalar_value(v as int) ==> r is None,
{
    char::from_u32(v)
}

/// The position of a scalar value once the surrogate gap `0xD800 ..= 0xDFFF`
/// is closed up.
pub open spec fn scalar_ord(v: int) -> int {
    if v < 0xD800 {
        v
    } else {
        v - 0x800
    }
}

/// The scalar value at a position of the gap-free enumeration.
pub open spec fn ord_scalar(i: int) -> int {
    if i < 0xD800 {
        i
    } else {
        i + 0x800
    }
}

fn char_ord(c: char) -> (r: u32)
    ensures
        r as int == c.ord(),
        r <= 0x10F7FF,
{
    proof {
        vstd::utf8::char_is_scalar(c);
    }
    let v = c as u32;
    if v < 0xD800 {
        v
    } else {
        v - 0x800
    }
}

/// `char` steps through the Unicode scalar values in order, skipping the
/// surrogate code points.
impl Step for char {
    open spec fn ord(self) -> int {
        scalar_ord(self as u32 as int)
    }

    open spec fn from_ord(i: int) -> char {
        (ord_scalar(i) as u32) as char
    }

    open spec fn ord_min() -> int {
        0
    }

    open spec fn ord_max() -> int {
        0x10FFFF - 0x800
    }

    proof fn lemma_ord(v: Self) {
        vstd::utf8::char_is_scalar(v);
        vstd::utf8::char_u32_cast(v, v as u32);
    }

    proof fn lemma_from_ord(i: int) {
    }

    fn precedes(a: &Self, b: &Self) -> (r: bool) {
        char_ord(*a) < char_ord(*b)
    }

    fn steps_between(start: &Self, end: &Self) -> (r: Option<usize>) {
        let s = char_ord(*start);
        let e = char_ord(*end);
        if s <= e {
            Some((e - s) as usize)
        } else {
            None
        }
    }

    fn forward_checked(start: Self, count: usize) -> (r: Option<Self>) {
        let s = char_ord(start);
        if count as u64 <= (0x10F7FF - s) as u64 {
            let i: u32 = s + count as u32;
            let v: u32 = if i < 0xD800 { i } else { i + 0x800 };
            char_from_u32(v)
        } else {
            None
        }
    }

    fn backward_checked(start: Self, count: usize) -> (r: Option<Self>) {
        let s = char_ord(start);
        if count as u64 <= s as u64 {
            let i: u32 = s - count as u32;
            let v: u32 = if i < 0xD800 { i } else { i + 0x800 };
            char_from_u32(v)
        } else {
            None
        }
    }
}

impl ExactStep for u8 {
    proof fn lemma_span_fits() {
    }
}

impl ExactStep for u16 {
    proof fn lemma_span_fits() {
    }
}

impl ExactStep for u32 {
    proof fn lemma_span_fits() {
    }
}

impl ExactStep for usize {
    proof fn lemma_span_fits() {
    }
}

impl ExactStep for i8 {
    proof fn lemma_span_fits() {
    }
}

impl ExactStep for i16 {
    proof fn lemma_span_fits() {
    }
}

impl ExactStep for i32 {
    proof fn lemma_span_fits() {
    }
}

impl ExactStep for isize {
    proof fn lemma_span_fits() {
    }
}

impl ExactStep for char {
    proof fn lemma_span_fits() {
    }
}

} // verus!
