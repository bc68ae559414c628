use core::ops::{Bound, Range, RangeFrom, RangeFull, RangeTo};
use vstd::prelude::*;
use vstd::string::StringSliceAdditionalSpecFns;
use vstd::utf8::{
    is_char_boundary, is_char_boundary_iff_not_is_continuation_byte,
    is_char_boundary_start_end_of_seq, valid_utf8,
};

verus! {

broadcast use vstd::utf8::group_utf8_lib;

#[verifier::external_type_specification]
pub struct ExRangeFull(std::ops::RangeFull);

#[verifier::external_type_specification]
#[verifier::reject_recursive_types(Idx)]
pub struct ExRangeTo<Idx>(std::ops::RangeTo<Idx>);

#[verifier::external_type_specification]
#[verifier::reject_recursive_types(Idx)]
pub struct ExRangeFrom<Idx>(std::ops::RangeFrom<Idx>);

#[verifier::external_type_specification]
#[verifier::reject_recursive_types(T)]
pub struct ExBound<T>(std::ops::Bound<T>);

/// Relies on the derived `Clone` of `RangeFull`, a unit struct.
pub assume_specification[ <std::ops::RangeFull as Clone>::clone ](r: &std::ops::RangeFull) -> std::ops::RangeFull;

/// Relies on the derived `Clone` of `RangeTo`: it clones the end bound.
pub assume_specification<Idx: Clone>[ <std::ops::RangeTo<Idx> as Clone>::clone ](r: &std::ops::RangeTo<Idx>) -> (res:
    std::ops::RangeTo<Idx>)
    ensures
        cloned(r.end, res.end),
;

/// Relies on the derived `Clone` of `RangeFrom`: it clones the start bound.
pub assume_specification<Idx: Clone>[ <std::ops::RangeFrom<Idx> as Clone>::clone ](r: &std::ops::RangeFrom<Idx>) -> (res:
    std::ops::RangeFrom<Idx>)
    ensures
        cloned(r.start, res.start),
;

/// Relies on the derived `Clone` of `Range`: it clones both bounds.
pub assume_specification<Idx: Clone>[ <std::ops::Range<Idx> as Clone>::clone ](r: &std::ops::Range<Idx>) -> (res: std::ops::Range<
    Idx,
>)
    ensures
        cloned(r.start, res.start),
        cloned(r.end, res.end),
;

/// One of the four range shapes `..`, `..end`, `start..` and `start..end`,
/// held as a single plain value.
#[derive(Clone, Debug, PartialEq, Eq)]
#[verifier::reject_recursive_types(T)]
pub enum RangeType<T> {
    /// Holds a [`RangeFull`] value
    RangeFull(RangeFull),
    /// Holds a [`RangeTo`] value
    RangeTo(RangeTo<T>),
    /// Holds a [`RangeFrom`] value
    RangeFrom(RangeFrom<T>),
    /// Holds a [`Range`] value
    Range(Range<T>),
}

impl<T> RangeType<T> {
    /// The inclusive start bound, if the shape has one.
    pub open spec fn start_spec(self) -> Option<T> {
        match self {
            RangeType::RangeFull(_) => None,
            RangeType::RangeTo(_) => None,
            RangeType::RangeFrom(r) => Some(r.start),
            RangeType::Range(r) => Some(r.start),
        }
    }

    /// The exclusive end bound, if the shape has one.
    pub open spec fn end_spec(self) -> Option<T> {
        match self {
            RangeType::RangeFull(_) => None,
            RangeType::RangeTo(r) => Some(r.end),
            RangeType::RangeFrom(_) => None,
            RangeType::Range(r) => Some(r.end),
        }
    }

    /// The start bound, as `RangeBounds::start_bound` gives it for the shape.
    pub fn start_bound(&self) -> (r: Bound<&T>)
        ensures
            r matches Bound::Included(x) ==> self.start_spec() == Some(*x),
            r is Unbounded <==> self.start_spec() is None,
            !(r is Excluded),
    {
        match self {
            RangeType::RangeFull(_) => Bound::Unbounded,
            RangeType::RangeTo(_) => Bound::Unbounded,
            RangeType::RangeFrom(r) => Bound::Included(&r.start),
            RangeType::Range(r) => Bound::Included(&r.start),
        }
    }

    /// The end bound, as `RangeBounds::end_bound` gives it for the shape.
    pub fn end_bound(&self) -> (r: Bound<&T>)
        ensures
            r matches Bound::Excluded(x) ==> self.end_spec() == Some(*x),
            r is Unbounded <==> self.end_spec() is None,
            !(r is Included),
    {
        match self {
            RangeType::RangeFull(_) => Bound::Unbounded,
            RangeType::RangeTo(r) => Bound::Excluded(&r.end),
            RangeType::RangeFrom(_) => Bound::Unbounded,
            RangeType::Range(r) => Bound::Excluded(&r.end),
        }
    }
}

impl<T> From<RangeFull> for RangeType<T> {
    /// Holds `..`.
    fn from(range: RangeFull) -> (r: Self) {
        RangeType::RangeFull(range)
    }
}

impl<T> vstd::std_specs::convert::FromSpecImpl<RangeFull> for RangeType<T> {
    open spec fn obeys_from_spec() -> bool {
        true
    }

    open spec fn from_spec(range: RangeFull) -> Self {
        RangeType::RangeFull(range)
    }
}

impl<T> From<RangeTo<T>> for RangeType<T> {
    /// Holds `..end`.
    fn from(range: RangeTo<T>) -> (r: Self) {
        RangeType::RangeTo(range)
    }
}

impl<T> vstd::std_specs::convert::FromSpecImpl<RangeTo<T>> for RangeType<T> {
    open spec fn obeys_from_spec() -> bool {
        true
    }

    open spec fn from_spec(range: RangeTo<T>) -> Self {
        RangeType::RangeTo(range)
    }
}

impl<T> From<RangeFrom<T>> for RangeType<T> {
    /// Holds `start..`.
    fn from(range: RangeFrom<T>) -> (r: Self) {
        RangeType::RangeFrom(range)
    }
}

impl<T> vstd::std_specs::convert::FromSpecImpl<RangeFrom<T>> for RangeType<T> {
    open spec fn obeys_from_spec() -> bool {
        true
    }

    open spec fn from_spec(range: RangeFrom<T>) -> Self {
        RangeType::RangeFrom(range)
    }
}

impl<T> From<Range<T>> for RangeType<T> {
    /// Holds `start..end`.
    fn from(range: Range<T>) -> (r: Self) {
        RangeType::Range(range)
    }
}

impl<T> vstd::std_specs::convert::FromSpecImpl<Range<T>> for RangeType<T> {
    open spec fn obeys_from_spec() -> bool {
        true
    }

    open spec fn from_spec(range: Range<T>) -> Self {
        RangeType::Range(range)
    }
}

impl RangeType<usize> {
    /// Where the denoted part of a sequence of length `len` starts.
    pub open spec fn lo(self) -> int {
        match self.start_spec() {
            Some(s) => s as int,
            None => 0,
        }
    }

    /// Where the denoted part of a sequence of length `len` ends.
    pub open spec fn hi(self, len: nat) -> int {
        match self.end_spec() {
            Some(e) => e as int,
            None => len as int,
        }
    }

    /// The range can be applied to a sequence of length `len` without
    /// going out of bounds or running backwards.
    pub open spec fn fits(self, len: nat) -> bool {
        0 <= self.lo() <= self.hi(len) <= len
    }

    /// The part of `s` that the range denotes.
    pub open spec fn apply<A>(self, s: Seq<A>) -> Seq<A> {
        s.subrange(self.lo(), self.hi(s.len()))
    }

    /// A copy of this range.
    pub fn copied(&self) -> (r: Self)
        ensures
            r == *self,
    {
        match self {
            RangeType::RangeFull(_) => RangeType::RangeFull(RangeFull),
            RangeType::RangeTo(r) => RangeType::RangeTo(RangeTo { end: r.end }),
            RangeType::RangeFrom(r) => RangeType::RangeFrom(RangeFrom { start: r.start }),
            RangeType::Range(r) => RangeType::Range(Range { start: r.start, end: r.end }),
        }
    }

    /// Whether the range is the trivial one of its shape for an empty
    /// sequence: `..`, `..0`, `0..` or `0..0`.
    pub open spec fn spec_is_trivial(self) -> bool {
        self.lo() == 0 && (self.end_spec() matches Some(e) ==> e == 0)
    }

    /// Whether the range is the trivial one of its shape for an empty
    /// sequence: `..`, `..0`, `0..` or `0..0`.
    pub fn is_trivial(&self) -> (r: bool)
        ensures
            r == self.spec_is_trivial(),
    {
        match self {
            RangeType::RangeFull(_) => true,
            RangeType::RangeTo(r) => r.end == 0,
            RangeType::RangeFrom(r) => r.start == 0,
            RangeType::Range(r) => r.start == 0 && r.end == 0,
        }
    }

    /// Where the range starts: its start bound, or 0 where it has none.
    pub fn start_or_zero(&self) -> (r: usize)
        ensures
            r == self.lo(),
    {
        match self {
            RangeType::RangeFull(_) => 0,
            RangeType::RangeTo(_) => 0,
            RangeType::RangeFrom(r) => r.start,
            RangeType::Range(r) => r.start,
        }
    }

    /// Whether the range can be applied to a sequence of length `len`.
    pub fn fits_in(&self, len: usize) -> (r: bool)
        ensures
            r == self.fits(len as nat),
    {
        match self {
            RangeType::RangeFull(_) => true,
            RangeType::RangeTo(r) => r.end <= len,
            RangeType::RangeFrom(r) => r.start <= len,
            RangeType::Range(r) => r.start <= r.end && r.end <= len,
        }
    }

    /// Returns the part of `t` that this range denotes: `&t[range]` for the
    /// range shape held.
    pub fn slice<'a>(&self, t: &'a [u8]) -> (r: &'a [u8])
        requires
            self.fits(t@.len()),
        ensures
            r@ == self.apply(t@),
    {
        match self {
            RangeType::RangeFull(_) => {
                assert(t@.subrange(0, t@.len() as int) =~= t@);
                t
            },
            RangeType::RangeTo(r) => &t[0..r.end],
            RangeType::RangeFrom(r) => &t[r.start..t.len()],
            RangeType::Range(r) => &t[r.start..r.end],
        }
    }

    /// Returns the part of the text `t` that this range denotes, counted in
    /// bytes; both ends must fall on character boundaries.
    pub fn slice_str<'a>(&self, t: &'a str) -> (r: &'a str)
        requires
            self.fits(t.spec_bytes().len()),
            is_char_boundary(t.spec_bytes(), self.lo()),
            is_char_boundary(t.spec_bytes(), self.hi(t.spec_bytes().len())),
        ensures
            r.spec_bytes() == self.apply(t.spec_bytes()),
    {
        let ghost b = t.spec_bytes();
        match self {
            RangeType::RangeFull(_) => {
                assert(b.subrange(0, b.len() as int) =~= b);
                t
            },
            RangeType::RangeTo(r) => t.split_at(r.end).0,
            RangeType::RangeFrom(r) => t.split_at(r.start).1,
            RangeType::Range(r) => {
                let (_, rest) = t.split_at(r.start);
                proof {
                    let rb = b.subrange(r.start as int, b.len() as int);
                    assert(valid_utf8(b));
                    assert(valid_utf8(rb));
                    let k = r.end - r.start;
                    if r.end < b.len() {
                        assert(rb[k as int] == b[r.end as int]);
                        is_char_boundary_iff_not_is_continuation_byte(b, r.end as int);
                        is_char_boundary_iff_not_is_continuation_byte(rb, k as int);
                    } else {
                        is_char_boundary_start_end_of_seq(rb);
                    }
                }
                let (mid, _) = rest.split_at(r.end - r.start);
                assert(mid.spec_bytes() =~= b.subrange(r.start as int, r.end as int));
                mid
            },
        }
    }
}

/// Wire tag of [`RangeType::RangeFull`].
pub const RANGE_FULL_TAG: u8 = 0;

/// Wire tag of [`RangeType::RangeTo`].
pub const RANGE_TO_TAG: u8 = 1;

/// Wire tag of [`RangeType::RangeFrom`].
pub const RANGE_FROM_TAG: u8 = 3;

/// Wire tag of [`RangeType::Range`].
pub const RANGE_TAG: u8 = 4;

/// The serialized form of a [`RangeType`]: a tag, plus the start and the end
/// bound where the shape has them.
#[derive(Clone, Debug, PartialEq, Eq)]
#[verifier::reject_recursive_types(T)]
pub struct RangeTypeSerialized<T> {
    /// Which shape: one of the four `*_TAG` values for a valid range.
    pub kind: u8,
    /// The inclusive start bound, absent when unbounded.
    pub start: Option<T>,
    /// The exclusive end bound, absent when unbounded.
    pub end: Option<T>,
}

/// The error of decoding a serialized range whose tag is none of the four
/// known ones; it holds the offending tag.
#[derive(Copy, Clone, Debug, PartialEq, Eq)]
pub struct RangeTypeDeserializationError(pub u8);

/// `kind` is the tag of one of the four shapes.
pub open spec fn is_known_tag(kind: u8) -> bool {
    kind == RANGE_FULL_TAG || kind == RANGE_TO_TAG || kind == RANGE_FROM_TAG || kind == RANGE_TAG
}

/// The decimal digits of `n`, most significant first.
pub open spec fn decimal(n: nat) -> Seq<char>
    decreases n,
{
    if n < 10 {
        seq![digit(n)]
    } else {
        decimal(n / 10).push(digit(n % 10))
    }
}

/// The character of the decimal digit `d`.
pub open spec fn digit(d: nat) -> char {
    seq!['0', '1', '2', '3', '4', '5', '6', '7', '8', '9'][d as int]
}

/// Relies on `u8`'s `ToString` (through `Display`): plain decimal digits.
#[verifier::external_body]
fn u8_to_decimal(x: u8) -> (r: String)
    ensures
        r@ == decimal(x as nat),
{
    x.to_string()
}

impl RangeTypeDeserializationError {
    /// The message that describes the error.
    pub open spec fn message(self) -> Seq<char> {
        "Invalid RangeType `kind` value encountered: "@ + decimal(self.0 as nat)
    }

    /// Renders the error as text: a fixed sentence followed by the tag in
    /// decimal.
    pub fn to_string(&self) -> (r: String)
        ensures
            r@ == self.message(),
    {
        let head = String::from_str("Invalid RangeType `kind` value encountered: ");
        let digits = u8_to_decimal(self.0);
        proof {
            reveal_strlit("Invalid RangeType `kind` value encountered: ");
        }
        head.concat(digits.as_str())
    }
}

impl<T> RangeType<T> {
    /// The wire tag of the shape.
    pub open spec fn tag(self) -> u8 {
        match self {
            RangeType::RangeFull(_) => RANGE_FULL_TAG,
            RangeType::RangeTo(_) => RANGE_TO_TAG,
            RangeType::RangeFrom(_) => RANGE_FROM_TAG,
            RangeType::Range(_) => RANGE_TAG,
        }
    }

    /// The serialized form: the tag and the bounds that the shape has.
    pub open spec fn serialized(self) -> RangeTypeSerialized<T> {
        RangeTypeSerialized { kind: self.tag(), start: self.start_spec(), end: self.end_spec() }
    }

    /// Decodes a serialized range: the shape that `rs.kind` names, built
    /// from the bounds it needs; an unknown tag is an error that holds it.
    pub fn try_from(rs: RangeTypeSerialized<T>) -> (r: Result<Self, RangeTypeDeserializationError>)
        requires
            rs.has_required_bounds(),
        ensures
            r == rs.decoded(),
            r is Err <==> !is_known_tag(rs.kind),
            r matches Err(e) ==> e.0 == rs.kind,
    {
        let RangeTypeSerialized { kind, start, end } = rs;
        if kind == RANGE_FULL_TAG {
            Ok(RangeType::RangeFull(RangeFull))
        } else if kind == RANGE_TO_TAG {
            Ok(RangeType::RangeTo(RangeTo { end: end.unwrap() }))
        } else if kind == RANGE_FROM_TAG {
            Ok(RangeType::RangeFrom(RangeFrom { start: start.unwrap() }))
        } else if kind == RANGE_TAG {
            Ok(RangeType::Range(Range { start: start.unwrap(), end: end.unwrap() }))
        } else {
            Err(RangeTypeDeserializationError(kind))
        }
    }
}

impl<T> RangeTypeSerialized<T> {
    /// Each bound that the tag's shape needs is present.
    pub open spec fn has_required_bounds(self) -> bool {
        &&& (self.kind == RANGE_TO_TAG || self.kind == RANGE_TAG) ==> self.end is Some
        &&& (self.kind == RANGE_FROM_TAG || self.kind == RANGE_TAG) ==> self.start is Some
    }

    /// Whether each bound that the tag's shape needs is present, as
    /// [`RangeType::try_from`] requires.
    pub fn has_bounds_for_kind(&self) -> (r: bool)
        ensures
            r == self.has_required_bounds(),
    {
        let needs_end = self.kind == RANGE_TO_TAG || self.kind == RANGE_TAG;
        let needs_start = self.kind == RANGE_FROM_TAG || self.kind == RANGE_TAG;
        (!needs_end || self.end.is_some()) && (!needs_start || self.start.is_some())
    }

    /// What decoding gives: the shape named by the tag with the bounds it
    /// needs (others are ignored), or the error for an unknown tag.
    pub open spec fn decoded(self) -> Result<RangeType<T>, RangeTypeDeserializationError> {
        if self.kind == RANGE_FULL_TAG {
            Ok(RangeType::RangeFull(RangeFull))
        } else if self.kind == RANGE_TO_TAG {
            Ok(RangeType::RangeTo(RangeTo { end: self.end->Some_0 }))
        } else if self.kind == RANGE_FROM_TAG {
            Ok(RangeType::RangeFrom(RangeFrom { start: self.start->Some_0 }))
        } else if self.kind == RANGE_TAG {
            Ok(RangeType::Range(Range { start: self.start->Some_0, end: self.end->Some_0 }))
        } else {
            Err(RangeTypeDeserializationError(self.kind))
        }
    }
}

impl<T> From<RangeType<T>> for RangeTypeSerialized<T> {
    /// Serializes a range: its tag, and its bounds where the shape has them.
    fn from(r: RangeType<T>) -> (s: Self) {
        match r {
            RangeType::RangeFull(_) => RangeTypeSerialized { kind: RANGE_FULL_TAG, start: None, end: None },
            RangeType::RangeTo(x) => RangeTypeSerialized { kind: RANGE_TO_TAG, start: None, end: Some(x.end) },
            RangeType::RangeFrom(x) => RangeTypeSerialized { kind: RANGE_FROM_TAG, start: Some(x.start), end: None },
            RangeType::Range(x) => RangeTypeSerialized { kind: RANGE_TAG, start: Some(x.start), end: Some(x.end) },
        }
    }
}

impl<T> vstd::std_specs::convert::FromSpecImpl<RangeType<T>> for RangeTypeSerialized<T> {
    open spec fn obeys_from_spec() -> bool {
        true
    }

    open spec fn from_spec(r: RangeType<T>) -> Self {
        r.serialized()
    }
}

/// Decoding the serialized form of any range gives that range back.
pub proof fn lemma_serialized_round_trip<T>(r: RangeType<T>)
    ensures
        r.serialized().has_required_bounds(),
        r.serialized().decoded() == Ok::<RangeType<T>, RangeTypeDeserializationError>(r),
{
}

/// Turns a bound into the value it holds, if any: `None` for an unbounded
/// side, a clone of the value for an inclusive or an exclusive one.
pub fn bound_to_option<T: Clone>(b: Bound<&T>) -> (r: Option<T>)
    ensures
        b is Unbounded <==> r is None,
        b matches Bound::Included(x) ==> r matches Some(y) && cloned(*x, y),
        b matches Bound::Excluded(x) ==> r matches Some(y) && cloned(*x, y),
{
    match b {
        Bound::Unbounded => None,
        Bound::Included(x) => Some(x.clone()),
        Bound::Excluded(x) => Some(x.clone()),
    }
}

} // verus!
