//! A byte buffer for parsers, shared by reference counting, that keeps the
//! position of empty slices so that offsets between inputs stay right.
use bytes::Bytes;
use core::ops::{RangeFrom, RangeTo};
use vstd::prelude::*;

pub mod backing;
pub mod range_type;
pub mod slices;

pub use backing::bytes_view;
pub use range_type::RangeType;

use backing::{bytes_as_slice, bytes_copy_from_slice, bytes_from_string, bytes_len, bytes_slice};
use core::cmp::Ordering;
use core::str::Utf8Error;
use nom::CompareResult;
use slices::{
    compare_no_case_spec, compare_spec, lex_cmp, slice_cmp, slice_compare, slice_compare_no_case,
};
use vstd::string::StringSliceAdditionalSpecFns;
use vstd::utf8::{encode_utf8, valid_utf8};

verus! {

#[verifier::external_type_specification]
#[verifier::external_body]
pub struct ExUtf8Error(core::str::Utf8Error);

/// Relies on `core::str::from_utf8`: the bytes read as text where they are
/// valid UTF-8, an error otherwise.
#[verifier::external_body]
fn str_from_utf8(b: &[u8]) -> (r: Result<&str, Utf8Error>)
    ensures
        r is Ok <==> valid_utf8(b@),
        r matches Ok(s) ==> s.spec_bytes() == b@,
{
    core::str::from_utf8(b)
}

/// What the pair of a backing buffer's bytes and an optional range may be:
/// no range, or a range that fits the buffer and denotes an empty part of it.
pub open spec fn raw_parts_valid(backing: Seq<u8>, range: Option<RangeType<usize>>) -> bool {
    match range {
        None => true,
        Some(r) => r.fits(backing.len()) && r.apply(backing).len() == 0,
    }
}

/// Where a kept range starts within the backing buffer: 0 where there is
/// none.
pub open spec fn range_start(range: Option<RangeType<usize>>) -> int {
    match range {
        None => 0,
        Some(r) => r.lo(),
    }
}

/// The bytes that a backing buffer and an optional range denote.
pub open spec fn effective(backing: Seq<u8>, range: Option<RangeType<usize>>) -> Seq<u8> {
    match range {
        None => backing,
        Some(r) => r.apply(backing),
    }
}

/// Why a positional operation on a [`NomBytes`] could not be done.
#[derive(Clone, Copy, Debug, PartialEq, Eq, Structural)]
pub enum InputError {
    /// More input is needed: at least this many more bytes.
    Incomplete(usize),
    /// A split that must leave a non-empty prefix found its match (or the
    /// end of the input) at the very start.
    EmptyMatch,
}

/// Index `i` of `s` is the first at which `predicate` holds.
pub open spec fn is_first_match<P: Fn(u8) -> bool>(predicate: P, s: Seq<u8>, i: int) -> bool {
    &&& 0 <= i < s.len()
    &&& predicate.ensures((s[i],), true)
    &&& forall|j: int| 0 <= j < i ==> predicate.ensures((s[j],), false)
}

/// `predicate` holds at no index of `s`.
pub open spec fn no_match<P: Fn(u8) -> bool>(predicate: P, s: Seq<u8>) -> bool {
    forall|j: int| 0 <= j < s.len() ==> predicate.ensures((s[j],), false)
}

/// `pair` splits `b` at index `i`: it holds the suffix from `i` on, then
/// the prefix before `i`; the prefix starts where `b` starts, the suffix `i`
/// bytes later.
pub open spec fn is_split_at(pair: (NomBytes, NomBytes), b: NomBytes, i: int) -> bool {
    &&& 0 <= i <= b@.len()
    &&& pair.1@ == b@.take(i)
    &&& pair.0@ == b@.skip(i)
    &&& pair.1.start() == b.start()
    &&& pair.0.start() == b.start() + i
}

/// Splitting a buffer `b` at any index `i` within it gives a prefix of
/// length `i` and a suffix of the remaining length, which together make up
/// the buffer again, prefix first; the prefix lies at offset 0 from `b`, the
/// suffix at offset `i`.
pub proof fn lemma_split_rejoins(pair: (NomBytes, NomBytes), b: NomBytes, i: int)
    requires
        is_split_at(pair, b, i),
    ensures
        pair.1@ + pair.0@ == b@,
        pair.1@.len() == i,
        pair.0@.len() == b@.len() - i,
        b.offset_to(pair.1) == 0,
        b.offset_to(pair.0) == i,
{
    assert(pair.1@ + pair.0@ =~= b@);
}

/// A wrapper around a [`Bytes`] buffer for parsers.
///
/// Slicing a `Bytes` down to nothing may give a fresh empty buffer, which
/// forgets where in the original the empty slice was. So where a slice is
/// empty, this type keeps the buffer it was cut from, together with the
/// range that was asked for; every read goes through [`Self::as_bytes`],
/// which applies that range.
///
/// Beside them it keeps where its backing buffer starts within the buffer
/// that the value was first made from, so that [`Self::offset`] can tell how
/// far apart two values cut from one buffer start.
#[derive(Debug)]
pub struct NomBytes(Bytes, Option<RangeType<usize>>, usize);

impl View for NomBytes {
    type V = Seq<u8>;

    /// The bytes this value denotes.
    open spec fn view(&self) -> Seq<u8> {
        effective(self.backing(), self.stored_range())
    }
}

impl Clone for NomBytes {
    /// Another handle on the same backing buffer, with the same range.
    fn clone(&self) -> (r: Self)
        ensures
            r.backing() == self.backing(),
            r.stored_range() == self.stored_range(),
            r.base() == self.base(),
    {
        proof {
            use_type_invariant(self);
        }
        let range = match &self.1 {
            Some(range) => Some(range.copied()),
            None => None,
        };
        NomBytes(self.0.clone(), range, self.2)
    }
}

impl PartialEq for NomBytes {
    /// Two values are equal where they denote the same bytes.
    fn eq(&self, other: &NomBytes) -> (r: bool) {
        let a = self.as_bytes();
        let b = other.as_bytes();
        if a.len() != b.len() {
            return false;
        }
        let mut i: usize = 0;
        while i < a.len()
            invariant
                a@ == self@,
                b@ == other@,
                a@.len() == b@.len(),
                i <= a@.len(),
                forall|j: int| 0 <= j < i ==> a@[j] == b@[j],
            decreases a@.len() - i,
        {
            if a[i] != b[i] {
                return false;
            }
            i = i + 1;
        }
        assert(a@ =~= b@);
        true
    }
}

impl vstd::std_specs::cmp::PartialEqSpecImpl for NomBytes {
    open spec fn obeys_eq_spec() -> bool {
        true
    }

    open spec fn eq_spec(&self, other: &NomBytes) -> bool {
        self@ == other@
    }
}

impl Eq for NomBytes {

}

impl PartialOrd for NomBytes {
    /// Values are ordered as the bytes they denote, lexicographically.
    fn partial_cmp(&self, other: &NomBytes) -> (r: Option<Ordering>) {
        Some(slice_cmp(self.as_bytes(), other.as_bytes()))
    }
}

impl vstd::std_specs::cmp::PartialOrdSpecImpl for NomBytes {
    open spec fn obeys_partial_cmp_spec() -> bool {
        true
    }

    open spec fn partial_cmp_spec(&self, other: &NomBytes) -> Option<Ordering> {
        Some(lex_cmp(self@, other@))
    }
}

impl NomBytes {
    #[verifier::type_invariant]
    spec fn inv(self) -> bool {
        &&& raw_parts_valid(bytes_view(self.0), self.1)
        &&& self.2 + bytes_view(self.0).len() <= usize::MAX
    }

    /// The bytes of the backing buffer.
    pub closed spec fn backing(self) -> Seq<u8> {
        bytes_view(self.0)
    }

    /// The range kept beside the backing buffer, present only for an empty
    /// slice.
    pub closed spec fn stored_range(self) -> Option<RangeType<usize>> {
        self.1
    }

    /// Where the backing buffer starts within the buffer that the value was
    /// first made from.
    pub closed spec fn base(self) -> int {
        self.2 as int
    }

    /// The backing buffer itself.
    pub closed spec fn buffer(self) -> Bytes {
        self.0
    }

    /// Where the bytes this value denotes start within the buffer that the
    /// value was first made from.
    pub open spec fn start(self) -> int {
        self.base() + range_start(self.stored_range())
    }

    /// How far after the start of `self` the start of `second` lies.
    pub open spec fn offset_to(self, second: NomBytes) -> int {
        second.start() - self.start()
    }

    /// Wraps the buffer `bytes`, with no range; the value starts at 0.
    pub fn new(bytes: Bytes) -> (r: Self)
        ensures
            r.backing() == bytes_view(bytes),
            r.buffer() == bytes,
            r.stored_range() is None,
            r.start() == 0,
            r@ == bytes_view(bytes),
    {
        // The length of a buffer fits a `usize`, so a base of 0 leaves room
        // for it.
        let _len = bytes_len(&bytes);
        NomBytes(bytes, None, 0)
    }

    /// Where the bytes this value denotes start within the buffer that the
    /// value was first made from.
    pub fn start_index(&self) -> (r: usize)
        ensures
            r == self.start(),
            r + self@.len() <= usize::MAX,
    {
        proof {
            use_type_invariant(self);
        }
        match &self.1 {
            Some(range) => self.2 + range.start_or_zero(),
            None => self.2,
        }
    }

    /// The bytes this value denotes: the backing buffer, or the part of it
    /// that the kept range selects.
    pub fn as_bytes(&self) -> (r: &[u8])
        ensures
            r@ == self@,
    {
        proof {
            use_type_invariant(self);
        }
        match &self.1 {
            Some(range) => range.slice(bytes_as_slice(&self.0)),
            None => bytes_as_slice(&self.0),
        }
    }

    /// A buffer that holds the bytes this value denotes.
    pub fn to_bytes(&self) -> (r: Bytes)
        ensures
            bytes_view(r) == self@,
    {
        proof {
            use_type_invariant(self);
        }
        match &self.1 {
            Some(range) => Self::slice_backing(&self.0, range),
            None => self.0.clone(),
        }
    }

    /// Turns the value into a buffer that holds the bytes it denotes.
    pub fn into_bytes(self) -> (r: Bytes)
        ensures
            bytes_view(r) == self@,
            self.stored_range() is None ==> r == self.buffer(),
    {
        proof {
            use_type_invariant(&self);
        }
        let NomBytes(bytes, range, _) = self;
        match range {
            Some(range) => Self::slice_backing(&bytes, &range),
            None => bytes,
        }
    }

    /// The part of `bytes` that `range` denotes, as a buffer of its own.
    fn slice_backing(bytes: &Bytes, range: &RangeType<usize>) -> (r: Bytes)
        requires
            range.fits(bytes_view(*bytes).len()),
        ensures
            bytes_view(r) == range.apply(bytes_view(*bytes)),
    {
        let len = bytes_len(bytes);
        match range {
            RangeType::RangeFull(_) => bytes_slice(bytes, 0, len),
            RangeType::RangeTo(r) => bytes_slice(bytes, 0, r.end),
            RangeType::RangeFrom(r) => bytes_slice(bytes, r.start, len),
            RangeType::Range(r) => bytes_slice(bytes, r.start, r.end),
        }
    }

    /// The backing buffer, the kept range, and where the backing buffer
    /// starts within the buffer that the value was first made from.
    pub fn into_raw(self) -> (r: (Bytes, Option<RangeType<usize>>, usize))
        ensures
            r.0 == self.buffer(),
            r.1 == self.stored_range(),
            r.2 == self.base(),
            raw_parts_valid(bytes_view(r.0), r.1),
            r.2 + bytes_view(r.0).len() <= usize::MAX,
    {
        proof {
            use_type_invariant(&self);
        }
        let NomBytes(bytes, range, base) = self;
        (bytes, range, base)
    }

    /// Whether a backing buffer, a range and a base make valid parts for
    /// [`Self::from_raw`].
    pub fn raw_parts_are_valid(bytes: &Bytes, range: &Option<RangeType<usize>>, base: usize) -> (r:
        bool)
        ensures
            r == (raw_parts_valid(bytes_view(*bytes), *range) && base + bytes_view(*bytes).len()
                <= usize::MAX),
    {
        let len = bytes_len(bytes);
        if base > usize::MAX - len {
            return false;
        }
        match range {
            None => true,
            Some(range) => {
                if !range.fits_in(len) {
                    false
                } else {
                    range.slice(bytes_as_slice(bytes)).len() == 0
                }
            },
        }
    }

    /// Rebuilds a value from the parts that [`Self::into_raw`] gives.
    pub fn from_raw(parts: (Bytes, Option<RangeType<usize>>, usize)) -> (r: Self)
        requires
            raw_parts_valid(bytes_view(parts.0), parts.1),
            parts.2 + bytes_view(parts.0).len() <= usize::MAX,
        ensures
            r.buffer() == parts.0,
            r.backing() == bytes_view(parts.0),
            r.stored_range() == parts.1,
            r.base() == parts.2,
    {
        let (bytes, range, base) = parts;
        NomBytes(bytes, range, base)
    }

    /// The number of bytes this value denotes.
    pub fn input_len(&self) -> (r: usize)
        ensures
            r == self@.len(),
    {
        self.as_bytes().len()
    }

    /// Slices the value by `range`, which must fit it.
    ///
    /// A non-empty result holds the sliced buffer itself. An empty result
    /// keeps the buffer that was sliced, with `range`, so that it still
    /// knows where it sits. Slicing a value that is already empty gives a
    /// copy of it, which keeps the position it already had.
    pub fn slice(&self, range: RangeType<usize>) -> (r: Self)
        requires
            range.fits(self@.len()),
        ensures
            r@ == range.apply(self@),
            self@.len() == 0 ==> r.backing() == self.backing() && r.stored_range()
                == self.stored_range(),
            self@.len() > 0 && range.apply(self@).len() == 0 ==> r.backing()
                == self@ && r.stored_range() == Some(range),
            range.apply(self@).len() > 0 ==> r.backing() == range.apply(self@)
                && r.stored_range() is None,
            r.start() == self.start() + range.lo(),
    {
        let bytes = self.to_bytes();
        if bytes_len(&bytes) == 0 && range.is_trivial() {
            return self.clone();
        }
        let start = self.start_index();
        let slice = Self::slice_backing(&bytes, &range);
        if bytes_len(&slice) == 0 {
            NomBytes(bytes, Some(range), start)
        } else {
            let lo = range.start_or_zero();
            NomBytes(slice, None, start + lo)
        }
    }

    /// The first `count` bytes, which must be there.
    pub fn take(&self, count: usize) -> (r: Self)
        requires
            count <= self@.len(),
        ensures
            r@ == self@.take(count as int),
            r.start() == self.start(),
    {
        let r = self.slice(RangeType::RangeTo(RangeTo { end: count }));
        assert(r@ =~= self@.take(count as int));
        r
    }

    /// Splits the value after its first `count` bytes, which must be there,
    /// and returns the suffix and the prefix, in that order.
    pub fn take_split(&self, count: usize) -> (r: (Self, Self))
        requires
            count <= self@.len(),
        ensures
            is_split_at(r, *self, count as int),
    {
        let prefix = self.slice(RangeType::RangeTo(RangeTo { end: count }));
        let suffix = self.slice(RangeType::RangeFrom(RangeFrom { start: count }));
        assert(prefix@ =~= self@.take(count as int));
        assert(suffix@ =~= self@.skip(count as int));
        (suffix, prefix)
    }

    /// The first `count` bytes, where they are there; otherwise the number
    /// of bytes still missing.
    pub fn try_take(&self, count: usize) -> (r: Result<Self, InputError>)
        ensures
            count <= self@.len() ==> (r matches Ok(t) && t@ == self@.take(count as int)
                && t.start() == self.start()),
            count > self@.len() ==> r == Err::<Self, InputError>(
                InputError::Incomplete((count - self@.len()) as usize),
            ),
    {
        let len = self.input_len();
        if count <= len {
            Ok(self.take(count))
        } else {
            Err(InputError::Incomplete(count - len))
        }
    }

    /// As [`Self::take_split`] where the first `count` bytes are there;
    /// otherwise the number of bytes still missing.
    pub fn try_take_split(&self, count: usize) -> (r: Result<(Self, Self), InputError>)
        ensures
            count <= self@.len() ==> (r matches Ok(pair) && is_split_at(pair, *self, count as int)),
            count > self@.len() ==> r == Err::<(Self, Self), InputError>(
                InputError::Incomplete((count - self@.len()) as usize),
            ),
    {
        let len = self.input_len();
        if count <= len {
            Ok(self.take_split(count))
        } else {
            Err(InputError::Incomplete(count - len))
        }
    }

    /// The index of the first byte at which `predicate` holds, if any.
    pub fn position<P: Fn(u8) -> bool>(&self, predicate: P) -> (r: Option<usize>)
        requires
            forall|b: u8| predicate.requires((b,)),
        ensures
            r matches Some(i) ==> is_first_match(predicate, self@, i as int),
            r is None ==> no_match(predicate, self@),
    {
        let bytes = self.as_bytes();
        let mut i: usize = 0;
        while i < bytes.len()
            invariant
                bytes@ == self@,
                i <= bytes@.len(),
                forall|b: u8| predicate.requires((b,)),
                forall|j: int| 0 <= j < i ==> predicate.ensures((bytes@[j],), false),
            decreases bytes@.len() - i,
        {
            if predicate(bytes[i]) {
                return Some(i);
            }
            i = i + 1;
        }
        None
    }

    /// `Ok(count)` where at least `count` bytes are there; otherwise the
    /// number of bytes still missing.
    pub fn slice_index(&self, count: usize) -> (r: Result<usize, InputError>)
        ensures
            count <= self@.len() ==> r == Ok::<usize, InputError>(count),
            count > self@.len() ==> r == Err::<usize, InputError>(
                InputError::Incomplete((count - self@.len()) as usize),
            ),
    {
        let len = self.input_len();
        if len >= count {
            Ok(count)
        } else {
            Err(InputError::Incomplete(count - len))
        }
    }

    /// Splits before the first byte at which `predicate` holds, and returns
    /// the suffix and the prefix. With no such byte, one more byte of input
    /// is needed.
    pub fn split_at_position<P: Fn(u8) -> bool>(&self, predicate: P) -> (r: Result<
        (Self, Self),
        InputError,
    >)
        requires
            forall|b: u8| predicate.requires((b,)),
        ensures
            r matches Ok(pair) ==> is_first_match(predicate, self@, pair.1@.len() as int)
                && is_split_at(pair, *self, pair.1@.len() as int),
            r is Err ==> r == Err::<(Self, Self), InputError>(InputError::Incomplete(1))
                && no_match(predicate, self@),
    {
        match self.position(predicate) {
            Some(i) => Ok(self.take_split(i)),
            None => Err(InputError::Incomplete(1)),
        }
    }

    /// As [`Self::split_at_position`], but a match at the very start is an
    /// [`InputError::EmptyMatch`].
    pub fn split_at_position1<P: Fn(u8) -> bool>(&self, predicate: P) -> (r: Result<
        (Self, Self),
        InputError,
    >)
        requires
            forall|b: u8| predicate.requires((b,)),
        ensures
            r matches Ok(pair) ==> pair.1@.len() > 0 && is_first_match(
                predicate,
                self@,
                pair.1@.len() as int,
            ) && is_split_at(pair, *self, pair.1@.len() as int),
            r == Err::<(Self, Self), InputError>(InputError::EmptyMatch) ==> is_first_match(
                predicate,
                self@,
                0,
            ),
            r matches Err(e) ==> e == InputError::EmptyMatch || (e == InputError::Incomplete(1)
                && no_match(predicate, self@)),
    {
        match self.position(predicate) {
            Some(i) => {
                if i == 0 {
                    Err(InputError::EmptyMatch)
                } else {
                    Ok(self.take_split(i))
                }
            },
            None => Err(InputError::Incomplete(1)),
        }
    }

    /// As [`Self::split_at_position`], but on input that is complete: with
    /// no match, the whole input is the prefix.
    pub fn split_at_position_complete<P: Fn(u8) -> bool>(&self, predicate: P) -> (r: Result<
        (Self, Self),
        InputError,
    >)
        requires
            forall|b: u8| predicate.requires((b,)),
        ensures
            r matches Ok(pair) && is_split_at(pair, *self, pair.1@.len() as int),
            r matches Ok(pair) ==> is_first_match(predicate, self@, pair.1@.len() as int)
                || (no_match(predicate, self@) && pair.1@.len() == self@.len()),
    {
        match self.position(predicate) {
            Some(i) => Ok(self.take_split(i)),
            None => Ok(self.take_split(self.input_len())),
        }
    }

    /// As [`Self::split_at_position_complete`], but an empty prefix is an
    /// [`InputError::EmptyMatch`]: a match at the very start, or no match in
    /// empty input.
    pub fn split_at_position1_complete<P: Fn(u8) -> bool>(&self, predicate: P) -> (r: Result<
        (Self, Self),
        InputError,
    >)
        requires
            forall|b: u8| predicate.requires((b,)),
        ensures
            r matches Ok(pair) ==> pair.1@.len() > 0 && is_split_at(
                pair,
                *self,
                pair.1@.len() as int,
            ) && (is_first_match(predicate, self@, pair.1@.len() as int) || (no_match(
                predicate,
                self@,
            ) && pair.1@.len() == self@.len())),
            r is Err ==> r == Err::<(Self, Self), InputError>(InputError::EmptyMatch) && (
            is_first_match(predicate, self@, 0) || (no_match(predicate, self@)
                && self@.len() == 0)),
    {
        let len = self.input_len();
        match self.position(predicate) {
            Some(i) => {
                if i == 0 {
                    Err(InputError::EmptyMatch)
                } else {
                    Ok(self.take_split(i))
                }
            },
            None => {
                if len == 0 {
                    Err(InputError::EmptyMatch)
                } else {
                    Ok(self.take_split(len))
                }
            },
        }
    }

    /// The distance from where this value's bytes start to where `second`'s
    /// start, for a `second` cut from the same buffer at or after this
    /// value's start.
    ///
    /// An empty slice keeps its start too, so the distance to it is where it
    /// was cut.
    pub fn offset(&self, second: &Self) -> (r: usize)
        requires
            self.start() <= second.start(),
        ensures
            r == self.offset_to(*second),
    {
        second.start_index() - self.start_index()
    }

    /// Compares this value against the tag `t`: `Ok` where `t` is a prefix,
    /// `Incomplete` where this value is a proper prefix of `t`, `Error`
    /// otherwise.
    pub fn compare(&self, t: NomBytes) -> (r: CompareResult)
        ensures
            r == compare_spec(self@, t@),
    {
        slice_compare(self.as_bytes(), t.as_bytes())
    }

    /// As [`Self::compare`], with ASCII letters compared regardless of case.
    pub fn compare_no_case(&self, t: NomBytes) -> (r: CompareResult)
        ensures
            r == compare_no_case_spec(self@, t@),
    {
        slice_compare_no_case(self.as_bytes(), t.as_bytes())
    }

    /// As [`Self::compare`], against the UTF-8 bytes of the text `t`.
    pub fn compare_str(&self, t: &str) -> (r: CompareResult)
        ensures
            r == compare_spec(self@, t.spec_bytes()),
    {
        slice_compare(self.as_bytes(), t.as_bytes())
    }

    /// As [`Self::compare_no_case`], against the UTF-8 bytes of the text `t`.
    pub fn compare_no_case_str(&self, t: &str) -> (r: CompareResult)
        ensures
            r == compare_no_case_spec(self@, t.spec_bytes()),
    {
        slice_compare_no_case(self.as_bytes(), t.as_bytes())
    }

    /// A value over a fresh buffer that holds a copy of `bytes`.
    pub fn from_slice(bytes: &[u8]) -> (r: Self)
        ensures
            r@ == bytes@,
            r.stored_range() is None,
    {
        NomBytes::new(bytes_copy_from_slice(bytes))
    }

    /// A value over a fresh buffer that holds a copy of the UTF-8 bytes of
    /// `text`.
    pub fn from_str(text: &str) -> (r: Self)
        ensures
            r@ == text.spec_bytes(),
            r.stored_range() is None,
    {
        NomBytes::from_slice(text.as_bytes())
    }

    /// A value over a buffer that takes over the bytes of `text`.
    pub fn from_string(text: String) -> (r: Self)
        ensures
            r@ == encode_utf8(text@),
            r.stored_range() is None,
    {
        NomBytes::new(bytes_from_string(text))
    }

    /// The bytes this value denotes, read as text; an error where they are
    /// not valid UTF-8.
    pub fn try_to_str(&self) -> (r: Result<&str, Utf8Error>)
        ensures
            r is Ok <==> valid_utf8(self@),
            r matches Ok(s) ==> s.spec_bytes() == self@,
    {
        str_from_utf8(self.as_bytes())
    }

    /// The bytes this value denotes, read as text; they must be valid
    /// UTF-8.
    pub fn to_str(&self) -> (r: &str)
        requires
            valid_utf8(self@),
        ensures
            r.spec_bytes() == self@,
    {
        match self.try_to_str() {
            Ok(s) => s,
            Err(_) => {
                proof {
                    assert(false);
                }
                ""
            },
        }
    }
}

} // verus!

