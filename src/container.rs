use vstd::prelude::*;
use vstd::slice::slice_subrange;
use crate::codec::Decode;
use crate::error::DecodeError;
use crate::offset::{offset_at, read_offset, sanitize_offset, BYTES_PER_LENGTH_OFFSET};

verus! {

/// How a field of a container is laid out: in place with a fixed width, or through an offset.
#[derive(Clone, Copy, Debug, PartialEq, Eq)]
pub enum FieldKind {
    Fixed(usize),
    Variable,
}

/// The layout of the fields of type `T`.
pub open spec fn kind_of<T: Decode>() -> FieldKind {
    if T::spec_is_fixed_len() {
        FieldKind::Fixed(T::spec_fixed_len())
    } else {
        FieldKind::Variable
    }
}

/// The bytes that a field takes in the fixed part.
pub open spec fn slot_width(k: FieldKind) -> nat {
    match k {
        FieldKind::Fixed(n) => n as nat,
        FieldKind::Variable => 4,
    }
}

/// The width of the fixed part of a container with fields `kinds`.
pub open spec fn fixed_part_len(kinds: Seq<FieldKind>) -> nat
    decreases kinds.len(),
{
    if kinds.len() == 0 {
        0
    } else {
        fixed_part_len(kinds.subrange(0, kinds.len() - 1)) + slot_width(kinds.last())
    }
}

/// Where field `i` stands in the fixed part.
pub open spec fn field_pos(kinds: Seq<FieldKind>, i: int) -> nat {
    fixed_part_len(kinds.subrange(0, i))
}

/// The start of the first variable field from `i` on, or the end of the buffer if none is left.
pub open spec fn next_var_start(bytes: Seq<u8>, kinds: Seq<FieldKind>, i: int) -> nat
    decreases kinds.len() - i,
{
    if i < 0 || i >= kinds.len() {
        bytes.len()
    } else if kinds[i] is Variable {
        offset_at(bytes, field_pos(kinds, i) as int)
    } else {
        next_var_start(bytes, kinds, i + 1)
    }
}

/// The first offset from field `i` on that goes back before the one preceding it (`prev`) or
/// past the end of the buffer.
pub open spec fn first_bad_offset(bytes: Seq<u8>, kinds: Seq<FieldKind>, i: int, prev: nat) -> Option<
    nat,
>
    decreases kinds.len() - i,
{
    if i < 0 || i >= kinds.len() {
        None
    } else if kinds[i] is Variable {
        let o = offset_at(bytes, field_pos(kinds, i) as int);
        if o < prev || o > bytes.len() {
            Some(o)
        } else {
            first_bad_offset(bytes, kinds, i + 1, o)
        }
    } else {
        first_bad_offset(bytes, kinds, i + 1, prev)
    }
}

/// Whether some field is variable-length.
pub open spec fn has_variable(kinds: Seq<FieldKind>) -> bool {
    exists|i: int| 0 <= i < kinds.len() && #[trigger] kinds[i] is Variable
}

/// The byte range of field `i`.
pub open spec fn field_range(bytes: Seq<u8>, kinds: Seq<FieldKind>, i: int) -> (usize, usize) {
    let pos = field_pos(kinds, i);
    match kinds[i] {
        FieldKind::Fixed(n) => (pos as usize, (pos + n) as usize),
        FieldKind::Variable => (
            offset_at(bytes, pos as int) as usize,
            next_var_start(bytes, kinds, i + 1) as usize,
        ),
    }
}

/// The bytes of `bytes` in `range`.
pub open spec fn range_bytes(bytes: Seq<u8>, range: (usize, usize)) -> Seq<u8> {
    bytes.subrange(range.0 as int, range.1 as int)
}

/// What splitting `bytes` into the fields `kinds` gives: the byte range of each field.
pub open spec fn spec_build(bytes: Seq<u8>, kinds: Seq<FieldKind>) -> Result<
    Seq<(usize, usize)>,
    DecodeError,
> {
    let fixed = fixed_part_len(kinds);
    let expected = if fixed > usize::MAX {
        usize::MAX
    } else {
        fixed as usize
    };
    if bytes.len() < fixed || (!has_variable(kinds) && bytes.len() != fixed) {
        Err(DecodeError::InvalidByteLength { len: bytes.len() as usize, expected })
    } else if first_bad_offset(bytes, kinds, 0, 0) is Some {
        Err(DecodeError::OutOfBoundsByte { i: first_bad_offset(bytes, kinds, 0, 0)->0 as usize })
    } else if has_variable(kinds) && next_var_start(bytes, kinds, 0) != fixed {
        Err(DecodeError::OutOfBoundsByte { i: next_var_start(bytes, kinds, 0) as usize })
    } else {
        Ok(Seq::new(kinds.len(), |i: int| field_range(bytes, kinds, i)))
    }
}

pub(crate) proof fn lemma_fixed_part_push(kinds: Seq<FieldKind>, i: int)
    requires
        0 <= i < kinds.len(),
    ensures
        fixed_part_len(kinds.subrange(0, i + 1)) == fixed_part_len(kinds.subrange(0, i))
            + slot_width(kinds[i]),
{
    let s = kinds.subrange(0, i + 1);
    assert(s.subrange(0, s.len() - 1) =~= kinds.subrange(0, i));
}

pub(crate) proof fn lemma_fixed_part_mono(kinds: Seq<FieldKind>, i: int, j: int)
    requires
        0 <= i <= j <= kinds.len(),
    ensures
        fixed_part_len(kinds.subrange(0, i)) <= fixed_part_len(kinds.subrange(0, j)),
    decreases j - i,
{
    if i < j {
        lemma_fixed_part_mono(kinds, i, j - 1);
        lemma_fixed_part_push(kinds, j - 1);
    }
}

/// Where no offset from `i` on is bad, the next variable field starts between `prev` and the end.
proof fn lemma_next_start_bounds(bytes: Seq<u8>, kinds: Seq<FieldKind>, i: int, prev: nat)
    requires
        0 <= i <= kinds.len(),
        prev <= bytes.len(),
        first_bad_offset(bytes, kinds, i, prev) is None,
    ensures
        prev <= next_var_start(bytes, kinds, i) <= bytes.len(),
    decreases kinds.len() - i,
{
    if i < kinds.len() {
        if kinds[i] is Variable {
        } else {
            lemma_next_start_bounds(bytes, kinds, i + 1, prev);
        }
    }
}

/// Where no offset from `i` on is bad, each variable field from `i` on ends no earlier than it
/// starts, and within the buffer.
proof fn lemma_var_ranges_ordered(bytes: Seq<u8>, kinds: Seq<FieldKind>, i: int, prev: nat, j: int)
    requires
        0 <= i <= j < kinds.len(),
        prev <= bytes.len(),
        first_bad_offset(bytes, kinds, i, prev) is None,
        kinds[j] is Variable,
    ensures
        offset_at(bytes, field_pos(kinds, j) as int) <= next_var_start(bytes, kinds, j + 1)
            <= bytes.len(),
    decreases kinds.len() - i,
{
    if kinds[i] is Variable {
        let o = offset_at(bytes, field_pos(kinds, i) as int);
        if i == j {
            lemma_next_start_bounds(bytes, kinds, i + 1, o);
        } else {
            lemma_var_ranges_ordered(bytes, kinds, i + 1, o, j);
        }
    } else {
        lemma_var_ranges_ordered(bytes, kinds, i + 1, prev, j);
    }
}

proof fn lemma_bad_between(bytes: Seq<u8>, kinds: Seq<FieldKind>, k: int, j: int, prev: nat)
    requires
        0 <= k <= j < kinds.len(),
        kinds[j] is Variable,
        forall|m: int| k <= m < j ==> !(#[trigger] kinds[m] is Variable),
        offset_at(bytes, field_pos(kinds, j) as int) < prev,
    ensures
        first_bad_offset(bytes, kinds, k, prev) is Some,
    decreases j - k,
{
    if k < j {
        lemma_bad_between(bytes, kinds, k + 1, j, prev);
    }
}

proof fn lemma_bad_reached(bytes: Seq<u8>, kinds: Seq<FieldKind>, k: int, i: int, j: int, prev: nat)
    requires
        0 <= k <= i < j < kinds.len(),
        kinds[i] is Variable,
        kinds[j] is Variable,
        forall|m: int| i < m < j ==> !(#[trigger] kinds[m] is Variable),
        offset_at(bytes, field_pos(kinds, j) as int) < offset_at(
            bytes,
            field_pos(kinds, i) as int,
        ),
    ensures
        first_bad_offset(bytes, kinds, k, prev) is Some,
    decreases i - k,
{
    if k < i {
        if kinds[k] is Variable {
            let o = offset_at(bytes, field_pos(kinds, k) as int);
            if !(o < prev || o > bytes.len()) {
                lemma_bad_reached(bytes, kinds, k + 1, i, j, o);
            }
        } else {
            lemma_bad_reached(bytes, kinds, k + 1, i, j, prev);
        }
    } else {
        let o = offset_at(bytes, field_pos(kinds, i) as int);
        if !(o < prev || o > bytes.len()) {
            lemma_bad_between(bytes, kinds, i + 1, j, o);
        }
    }
}

/// A container whose offset table goes back from one variable-length field to the next is
/// rejected, whatever the bytes that the offsets point to.
pub proof fn lemma_container_decreasing_offsets_rejected(
    bytes: Seq<u8>,
    kinds: Seq<FieldKind>,
    i: int,
    j: int,
)
    requires
        0 <= i < j < kinds.len(),
        kinds[i] is Variable,
        kinds[j] is Variable,
        forall|m: int| i < m < j ==> !(#[trigger] kinds[m] is Variable),
        offset_at(bytes, field_pos(kinds, j) as int) < offset_at(
            bytes,
            field_pos(kinds, i) as int,
        ),
    ensures
        spec_build(bytes, kinds) is Err,
{
    lemma_bad_reached(bytes, kinds, 0, i, j, 0);
}

/// Collects the layout of the fields of a container, in declared order, before its bytes are
/// split into one slice per field.
pub struct SszDecoderBuilder<'a> {
    pub bytes: &'a [u8],
    pub kinds: Vec<FieldKind>,
}

/// Decodes the fields of a container one after another from their byte ranges.
pub struct SszDecoder<'a> {
    pub bytes: &'a [u8],
    pub ranges: Vec<(usize, usize)>,
    pub next: usize,
}

impl<'a> SszDecoder<'a> {
    /// Every range lies within the bytes and ends no earlier than it starts.
    pub open spec fn wf(&self) -> bool {
        &&& self.next <= self.ranges@.len()
        &&& forall|i: int|
            0 <= i < self.ranges@.len() ==> #[trigger] self.ranges@[i].0 <= self.ranges@[i].1
                <= self.bytes@.len()
    }

    /// The bytes of field `i`.
    pub open spec fn field_bytes(&self, i: int) -> Seq<u8> {
        self.bytes@.subrange(self.ranges@[i].0 as int, self.ranges@[i].1 as int)
    }

    /// Decodes the next field as a `T`.
    pub fn decode_next<T: Decode>(&mut self) -> (r: Result<T, DecodeError>)
        requires
            old(self).wf(),
            old(self).next < old(self).ranges@.len(),
        ensures
            final(self).wf(),
            final(self).bytes == old(self).bytes,
            final(self).ranges == old(self).ranges,
            final(self).next == old(self).next + 1,
            r == T::spec_decode(old(self).field_bytes(old(self).next as int)),
    {
        let count = self.ranges.len();
        let (start, end) = self.ranges[self.next];
        let slice = slice_subrange(self.bytes, start, end);
        assert(self.next < count);
        self.next = self.next + 1;
        T::from_ssz_bytes(slice)
    }
}

impl<'a> SszDecoderBuilder<'a> {
    pub fn new(bytes: &'a [u8]) -> (r: Self)
        ensures
            r.bytes == bytes,
            r.kinds@ == Seq::<FieldKind>::empty(),
    {
        SszDecoderBuilder { bytes, kinds: Vec::new() }
    }

    /// Declares that the next field is a `T`.
    pub fn register_type<T: Decode>(&mut self)
        ensures
            final(self).bytes == old(self).bytes,
            final(self).kinds@ == old(self).kinds@.push(kind_of::<T>()),
    {
        self.register_type_parameterized(T::is_ssz_fixed_len(), T::ssz_fixed_len());
    }

    /// Declares that the next field takes `ssz_fixed_len` bytes in place if `is_ssz_fixed_len`,
    /// and is reached through an offset otherwise.
    pub fn register_type_parameterized(&mut self, is_ssz_fixed_len: bool, ssz_fixed_len: usize)
        ensures
            final(self).bytes == old(self).bytes,
            final(self).kinds@ == old(self).kinds@.push(
                if is_ssz_fixed_len {
                    FieldKind::Fixed(ssz_fixed_len)
                } else {
                    FieldKind::Variable
                },
            ),
    {
        if is_ssz_fixed_len {
            self.kinds.push(FieldKind::Fixed(ssz_fixed_len));
        } else {
            self.kinds.push(FieldKind::Variable);
        }
    }

    /// Checks the fixed part and the offset table, and splits the bytes into one range per field.
    pub fn build(self) -> (r: Result<SszDecoder<'a>, DecodeError>)
        ensures
            match (r, spec_build(self.bytes@, self.kinds@)) {
                (Ok(d), Ok(rs)) => d.bytes == self.bytes && d.ranges@ == rs && d.next == 0
                    && d.wf(),
                (Err(e), Err(f)) => e == f,
                _ => false,
            },
    {
        let bytes = self.bytes;
        let kinds = &self.kinds;
        let ghost ks = kinds@;
        let len = bytes.len();
        let nf = kinds.len();
        let mut positions: Vec<usize> = Vec::new();
        let mut pos: usize = 0;
        let mut seen_var = false;
        let mut i: usize = 0;
        while i < nf
            invariant
                nf == ks.len(),
                kinds@ == ks,
                self.kinds@ == ks,
                self.bytes == bytes,
                bytes@.len() == len,
                i <= nf,
                pos == field_pos(ks, i as int),
                positions@.len() == i,
                forall|j: int| 0 <= j < i ==> positions@[j] == field_pos(ks, j),
                seen_var == (exists|j: int| 0 <= j < i && #[trigger] ks[j] is Variable),
            decreases nf - i,
        {
            proof {
                lemma_fixed_part_push(ks, i as int);
                lemma_fixed_part_mono(ks, i as int + 1, nf as int);
                assert(ks.subrange(0, nf as int) =~= ks);
            }
            let width = match kinds[i] {
                FieldKind::Fixed(n) => n,
                FieldKind::Variable => {
                    seen_var = true;
                    BYTES_PER_LENGTH_OFFSET
                },
            };
            positions.push(pos);
            match pos.checked_add(width) {
                Some(p) => pos = p,
                None => {
                    assert(slot_width(ks[i as int]) == width);
                    assert(fixed_part_len(ks.subrange(0, i + 1)) == pos + width);
                    assert(fixed_part_len(ks) > usize::MAX);
                    return Err(DecodeError::InvalidByteLength { len, expected: usize::MAX });
                },
            }
            i = i + 1;
        }
        proof {
            assert(ks.subrange(0, nf as int) =~= ks);
            assert(seen_var == has_variable(ks));
        }
        if len < pos || (!seen_var && len != pos) {
            return Err(DecodeError::InvalidByteLength { len, expected: pos });
        }
        // The start of each field, checking the offsets in order.

        let mut starts: Vec<usize> = Vec::new();
        let mut prev: usize = 0;
        let mut first_var: Option<usize> = None;
        i = 0;
        while i < nf
            invariant
                nf == ks.len(),
                kinds@ == ks,
                self.kinds@ == ks,
                self.bytes == bytes,
                bytes@.len() == len,
                pos == fixed_part_len(ks),
                pos <= len,
                i <= nf,
                positions@.len() == nf,
                forall|j: int| 0 <= j < nf ==> positions@[j] == field_pos(ks, j),
                starts@.len() == i,
                forall|j: int|
                    0 <= j < i ==> #[trigger] starts@[j] == (if ks[j] is Variable {
                        offset_at(bytes@, field_pos(ks, j) as int)
                    } else {
                        field_pos(ks, j)
                    }),
                prev <= len,
                first_bad_offset(bytes@, ks, 0, 0) == first_bad_offset(bytes@, ks, i as int, prev as nat),
                first_var is None ==> next_var_start(bytes@, ks, 0) == next_var_start(bytes@, ks, i as int),
                first_var matches Some(f) ==> f == next_var_start(bytes@, ks, 0),
                seen_var == has_variable(ks),
                first_var is Some ==> seen_var,
                first_var is None ==> forall|j: int| 0 <= j < i ==> !(#[trigger] ks[j] is Variable),
            decreases nf - i,
        {
            proof {
                lemma_fixed_part_push(ks, i as int);
                lemma_fixed_part_mono(ks, i as int + 1, nf as int);
                assert(ks.subrange(0, nf as int) =~= ks);
            }
            let p = positions[i];
            assert(p + slot_width(ks[i as int]) <= pos);
            match kinds[i] {
                FieldKind::Fixed(_) => {
                    starts.push(p);
                },
                FieldKind::Variable => {
                    let tail = slice_subrange(bytes, p, len);
                    assert(tail@.subrange(0, 4) =~= bytes@.subrange(p as int, p + 4));
                    let o = match read_offset(tail) {
                        Ok(o) => o,
                        Err(e) => return Err(e),
                    };
                    match sanitize_offset(o, Some(prev), len, None) {
                        Ok(_) => {},
                        Err(e) => {
                            assert(ks[i as int] is Variable);
                            assert(has_variable(ks));
                            assert(o == offset_at(bytes@, field_pos(ks, i as int) as int));
                            assert(first_bad_offset(bytes@, ks, i as int, prev as nat) == Some(o as nat));
                            return Err(e);
                        },
                    }
                    if first_var.is_none() {
                        first_var = Some(o);
                    }
                    starts.push(o);
                    prev = o;
                },
            }
            i = i + 1;
        }
        match first_var {
            Some(f) => {
                if f != pos {
                    return Err(DecodeError::OutOfBoundsByte { i: f });
                }
            },
            None => {},
        }
        // The end of each field, walking backwards so that a variable field ends where the next
        // variable field starts.

        let mut ends_rev: Vec<usize> = Vec::new();
        let mut next_start: usize = len;
        let mut k: usize = nf;
        while k > 0
            invariant
                nf == ks.len(),
                kinds@ == ks,
                self.kinds@ == ks,
                self.bytes == bytes,
                bytes@.len() == len,
                k <= nf,
                starts@.len() == nf,
                forall|j: int|
                    0 <= j < nf ==> #[trigger] starts@[j] == (if ks[j] is Variable {
                        offset_at(bytes@, field_pos(ks, j) as int)
                    } else {
                        field_pos(ks, j)
                    }),
                positions@.len() == nf,
                forall|j: int| 0 <= j < nf ==> positions@[j] == field_pos(ks, j),
                pos == fixed_part_len(ks),
                pos <= len,
                next_start == next_var_start(bytes@, ks, k as int),
                ends_rev@.len() == nf - k,
                forall|j: int|
                    k <= j < nf ==> #[trigger] ends_rev@[nf - 1 - j] == field_range(bytes@, ks, j).1,
            decreases k,
        {
            k = k - 1;
            proof {
                lemma_fixed_part_push(ks, k as int);
                lemma_fixed_part_mono(ks, k as int + 1, nf as int);
                assert(ks.subrange(0, nf as int) =~= ks);
            }
            match kinds[k] {
                FieldKind::Fixed(n) => {
                    assert(ks[k as int] == FieldKind::Fixed(n));
                    assert(slot_width(ks[k as int]) == n);
                    assert(fixed_part_len(ks.subrange(0, k + 1)) == field_pos(ks, k as int) + n);
                    assert(fixed_part_len(ks.subrange(0, k + 1)) <= fixed_part_len(ks.subrange(0, nf as int)));
                    assert(positions@[k as int] + n <= pos);
                    ends_rev.push(positions[k] + n);
                },
                FieldKind::Variable => {
                    ends_rev.push(next_start);
                    next_start = starts[k];
                },
            }
        }
        let mut ranges: Vec<(usize, usize)> = Vec::new();
        i = 0;
        while i < nf
            invariant
                nf == ks.len(),
                kinds@ == ks,
                self.kinds@ == ks,
                self.bytes == bytes,
                bytes@.len() == len,
                i <= nf,
                starts@.len() == nf,
                forall|j: int|
                    0 <= j < nf ==> #[trigger] starts@[j] == (if ks[j] is Variable {
                        offset_at(bytes@, field_pos(ks, j) as int)
                    } else {
                        field_pos(ks, j)
                    }),
                ends_rev@.len() == nf,
                forall|j: int|
                    0 <= j < nf ==> #[trigger] ends_rev@[nf - 1 - j] == field_range(bytes@, ks, j).1,
                ranges@.len() == i,
                forall|j: int| 0 <= j < i ==> #[trigger] ranges@[j] == field_range(bytes@, ks, j),
            decreases nf - i,
        {
            assert(ends_rev@[nf - 1 - i as int] == field_range(bytes@, ks, i as int).1);
            ranges.push((starts[i], ends_rev[nf - 1 - i]));
            i = i + 1;
        }
        let d = SszDecoder { bytes, ranges, next: 0 };
        proof {
            let rs = Seq::new(ks.len(), |j: int| field_range(bytes@, ks, j));
            assert(d.ranges@ =~= rs);
            assert forall|j: int| 0 <= j < d.ranges@.len() implies #[trigger] d.ranges@[j].0
                <= d.ranges@[j].1 <= d.bytes@.len() by {
                lemma_fixed_part_push(ks, j);
                lemma_fixed_part_mono(ks, j + 1, nf as int);
                assert(ks.subrange(0, nf as int) =~= ks);
                if ks[j] is Variable {
                    lemma_var_ranges_ordered(bytes@, ks, 0, 0, j);
                }
            }
        }
        Ok(d)
    }
}

} // verus!
