use vstd::prelude::*;
use vstd::bytes::{lemma_auto_spec_u32_to_from_le_bytes, spec_u32_to_le_bytes};
use crate::container::{
    field_pos, first_bad_offset, fixed_part_len, has_variable, lemma_fixed_part_mono,
    lemma_fixed_part_push, next_var_start, range_bytes, slot_width, spec_build, FieldKind,
};
use crate::codec::{Decode, Encode};
use crate::container::kind_of;
use crate::offset::{offset_at, BYTES_PER_LENGTH_OFFSET};

verus! {

/// The bytes of the variable-length fields among the first `i`, back to back.
pub open spec fn var_concat(kinds: Seq<FieldKind>, encs: Seq<Seq<u8>>, i: nat) -> Seq<u8>
    decreases i,
{
    if i == 0 || i > kinds.len() {
        Seq::empty()
    } else {
        var_concat(kinds, encs, (i - 1) as nat) + if kinds[i - 1] is Variable {
            encs[i - 1]
        } else {
            Seq::empty()
        }
    }
}

/// Where the bytes of the first variable-length field from `i` on start.
pub open spec fn var_offset(kinds: Seq<FieldKind>, encs: Seq<Seq<u8>>, i: nat) -> nat {
    fixed_part_len(kinds) + var_concat(kinds, encs, i).len()
}

/// What field `i` puts in the fixed part: its bytes, or the offset of its bytes.
pub open spec fn slot_bytes(kinds: Seq<FieldKind>, encs: Seq<Seq<u8>>, i: nat) -> Seq<u8> {
    if kinds[i as int] is Variable {
        spec_u32_to_le_bytes(var_offset(kinds, encs, i) as u32)
    } else {
        encs[i as int]
    }
}

/// The fixed part that the first `i` fields fill.
pub open spec fn fixed_part(kinds: Seq<FieldKind>, encs: Seq<Seq<u8>>, i: nat) -> Seq<u8>
    decreases i,
{
    if i == 0 || i > kinds.len() {
        Seq::empty()
    } else {
        fixed_part(kinds, encs, (i - 1) as nat) + slot_bytes(kinds, encs, (i - 1) as nat)
    }
}

/// The encoding of a container whose fields have layouts `kinds` and encodings `encs`.
pub open spec fn spec_encode_container(kinds: Seq<FieldKind>, encs: Seq<Seq<u8>>) -> Seq<u8> {
    fixed_part(kinds, encs, kinds.len()) + var_concat(kinds, encs, kinds.len())
}

/// Each field has an encoding, as wide as its layout says where that is fixed.
pub open spec fn fields_match(kinds: Seq<FieldKind>, encs: Seq<Seq<u8>>) -> bool {
    &&& kinds.len() == encs.len()
    &&& forall|i: int|
        0 <= i < kinds.len() ==> (#[trigger] kinds[i] matches FieldKind::Fixed(w) ==> encs[i].len()
            == w)
}

proof fn lemma_fixed_part_len(kinds: Seq<FieldKind>, encs: Seq<Seq<u8>>, i: nat)
    requires
        fields_match(kinds, encs),
        i <= kinds.len(),
    ensures
        fixed_part(kinds, encs, i).len() == field_pos(kinds, i as int),
    decreases i,
{
    lemma_auto_spec_u32_to_from_le_bytes();
    if i == 0 {
        assert(kinds.subrange(0, 0) =~= Seq::<FieldKind>::empty());
    } else {
        lemma_fixed_part_len(kinds, encs, (i - 1) as nat);
        lemma_fixed_part_push(kinds, i - 1);
    }
}

proof fn lemma_fixed_part_slot(kinds: Seq<FieldKind>, encs: Seq<Seq<u8>>, i: nat, j: nat)
    requires
        fields_match(kinds, encs),
        j < i <= kinds.len(),
    ensures
        fixed_part(kinds, encs, i).subrange(
            field_pos(kinds, j as int) as int,
            (field_pos(kinds, j as int) + slot_width(kinds[j as int])) as int,
        ) == slot_bytes(kinds, encs, j),
    decreases i,
{
    lemma_auto_spec_u32_to_from_le_bytes();
    lemma_fixed_part_len(kinds, encs, (i - 1) as nat);
    lemma_fixed_part_push(kinds, j as int);
    let f = fixed_part(kinds, encs, i);
    let lo = field_pos(kinds, j as int) as int;
    let hi = lo + slot_width(kinds[j as int]);
    if j == i - 1 {
        assert(f.subrange(lo, hi) =~= slot_bytes(kinds, encs, j));
    } else {
        lemma_fixed_part_slot(kinds, encs, (i - 1) as nat, j);
        lemma_fixed_part_mono(kinds, j + 1 as int, i - 1 as int);
        assert(f.subrange(lo, hi) =~= fixed_part(kinds, encs, (i - 1) as nat).subrange(lo, hi));
    }
}

proof fn lemma_var_concat_prefix(kinds: Seq<FieldKind>, encs: Seq<Seq<u8>>, k: nat, m: nat)
    requires
        k <= m <= kinds.len(),
    ensures
        var_concat(kinds, encs, k).len() <= var_concat(kinds, encs, m).len(),
        var_concat(kinds, encs, m).subrange(0, var_concat(kinds, encs, k).len() as int)
            == var_concat(kinds, encs, k),
    decreases m - k,
{
    if k < m {
        lemma_var_concat_prefix(kinds, encs, k, (m - 1) as nat);
        let l = var_concat(kinds, encs, k).len() as int;
        assert(var_concat(kinds, encs, m).subrange(0, l) =~= var_concat(
            kinds,
            encs,
            (m - 1) as nat,
        ).subrange(0, l));
    } else {
        assert(var_concat(kinds, encs, m).subrange(0, var_concat(kinds, encs, m).len() as int)
            =~= var_concat(kinds, encs, m));
    }
}

/// The facts about the layout of an encoded container that the proofs below share.
pub(crate) proof fn lemma_layout(kinds: Seq<FieldKind>, encs: Seq<Seq<u8>>)
    requires
        fields_match(kinds, encs),
    ensures
        fixed_part(kinds, encs, kinds.len()).len() == fixed_part_len(kinds),
        spec_encode_container(kinds, encs).len() == var_offset(kinds, encs, kinds.len()),
{
    lemma_fixed_part_len(kinds, encs, kinds.len());
    assert(kinds.subrange(0, kinds.len() as int) =~= kinds);
}

/// The offset of variable-length field `j` reads back as the start of its bytes.
proof fn lemma_offset_of_field(kinds: Seq<FieldKind>, encs: Seq<Seq<u8>>, j: nat)
    requires
        fields_match(kinds, encs),
        var_offset(kinds, encs, kinds.len()) <= u32::MAX,
        j < kinds.len(),
        kinds[j as int] is Variable,
    ensures
        offset_at(spec_encode_container(kinds, encs), field_pos(kinds, j as int) as int)
            == var_offset(kinds, encs, j),
{
    let n = kinds.len();
    let e = spec_encode_container(kinds, encs);
    let lo = field_pos(kinds, j as int) as int;
    lemma_layout(kinds, encs);
    lemma_fixed_part_slot(kinds, encs, n, j);
    lemma_fixed_part_push(kinds, j as int);
    lemma_fixed_part_mono(kinds, j + 1 as int, n as int);
    assert(kinds.subrange(0, n as int) =~= kinds);
    assert(e.subrange(lo, lo + 4) =~= fixed_part(kinds, encs, n).subrange(lo, lo + 4));
    lemma_var_concat_prefix(kinds, encs, j, n);
    lemma_auto_spec_u32_to_from_le_bytes();
}

proof fn lemma_next_var_start_of_encoding(kinds: Seq<FieldKind>, encs: Seq<Seq<u8>>, i: nat)
    requires
        fields_match(kinds, encs),
        var_offset(kinds, encs, kinds.len()) <= u32::MAX,
        i <= kinds.len(),
    ensures
        next_var_start(spec_encode_container(kinds, encs), kinds, i as int) == var_offset(
            kinds,
            encs,
            i,
        ),
    decreases kinds.len() - i,
{
    lemma_layout(kinds, encs);
    if i < kinds.len() {
        if kinds[i as int] is Variable {
            lemma_offset_of_field(kinds, encs, i);
        } else {
            lemma_next_var_start_of_encoding(kinds, encs, i + 1);
            assert(var_concat(kinds, encs, i + 1) =~= var_concat(kinds, encs, i));
        }
    }
}

proof fn lemma_no_bad_offset(kinds: Seq<FieldKind>, encs: Seq<Seq<u8>>, i: nat, prev: nat)
    requires
        fields_match(kinds, encs),
        var_offset(kinds, encs, kinds.len()) <= u32::MAX,
        i <= kinds.len(),
        prev <= var_offset(kinds, encs, i),
    ensures
        first_bad_offset(spec_encode_container(kinds, encs), kinds, i as int, prev) is None,
    decreases kinds.len() - i,
{
    lemma_layout(kinds, encs);
    if i < kinds.len() {
        lemma_var_concat_prefix(kinds, encs, i + 1, kinds.len());
        lemma_var_concat_prefix(kinds, encs, i, i + 1);
        if kinds[i as int] is Variable {
            lemma_offset_of_field(kinds, encs, i);
            lemma_no_bad_offset(kinds, encs, i + 1, var_offset(kinds, encs, i));
        } else {
            assert(var_concat(kinds, encs, i + 1) =~= var_concat(kinds, encs, i));
            lemma_no_bad_offset(kinds, encs, i + 1, prev);
        }
    }
}

/// The bytes of field `i` of an encoded container, as the decoder finds them, are its encoding.
proof fn lemma_field_bytes(kinds: Seq<FieldKind>, encs: Seq<Seq<u8>>, i: nat)
    requires
        fields_match(kinds, encs),
        var_offset(kinds, encs, kinds.len()) <= u32::MAX,
        i < kinds.len(),
    ensures
        range_bytes(
            spec_encode_container(kinds, encs),
            crate::container::field_range(spec_encode_container(kinds, encs), kinds, i as int),
        ) == encs[i as int],
{
    let n = kinds.len();
    let e = spec_encode_container(kinds, encs);
    lemma_layout(kinds, encs);
    lemma_fixed_part_push(kinds, i as int);
    lemma_fixed_part_mono(kinds, i + 1 as int, n as int);
    assert(kinds.subrange(0, n as int) =~= kinds);
    let lo = field_pos(kinds, i as int) as int;
    if kinds[i as int] is Variable {
        lemma_offset_of_field(kinds, encs, i);
        lemma_next_var_start_of_encoding(kinds, encs, i + 1);
        lemma_var_concat_prefix(kinds, encs, i + 1, n);
        lemma_var_concat_prefix(kinds, encs, i, i + 1);
        let f = fixed_part_len(kinds) as int;
        let c = var_concat(kinds, encs, n);
        let ci = var_concat(kinds, encs, i).len() as int;
        let ci1 = var_concat(kinds, encs, i + 1).len() as int;
        assert(e.subrange(f + ci, f + ci1) =~= c.subrange(ci, ci1));
        assert(c.subrange(ci, ci1) =~= c.subrange(0, ci1).subrange(ci, ci1));
        assert(var_concat(kinds, encs, i + 1).subrange(ci, ci1) =~= encs[i as int]);
    } else {
        lemma_fixed_part_slot(kinds, encs, n, i);
        let hi = lo + slot_width(kinds[i as int]);
        assert(e.subrange(lo, hi) =~= fixed_part(kinds, encs, n).subrange(lo, hi));
    }
}

/// Splitting the encoding of a container gives back, for each field, exactly the bytes of its
/// encoding; a container without variable-length fields is exactly as long as its fixed part.
pub proof fn lemma_container_round_trip(kinds: Seq<FieldKind>, encs: Seq<Seq<u8>>)
    requires
        fields_match(kinds, encs),
        var_offset(kinds, encs, kinds.len()) <= u32::MAX,
    ensures
        spec_build(spec_encode_container(kinds, encs), kinds) matches Ok(rs) && rs.len()
            == kinds.len() && forall|i: int|
            0 <= i < kinds.len() ==> range_bytes(spec_encode_container(kinds, encs), #[trigger] rs[i])
                == encs[i],
        spec_encode_container(kinds, encs).len() == var_offset(kinds, encs, kinds.len()),
        !has_variable(kinds) ==> spec_encode_container(kinds, encs).len() == fixed_part_len(kinds),
{
    let n = kinds.len();
    let e = spec_encode_container(kinds, encs);
    lemma_layout(kinds, encs);
    lemma_var_concat_prefix(kinds, encs, 0, n);
    lemma_next_var_start_of_encoding(kinds, encs, 0);
    lemma_no_bad_offset(kinds, encs, 0, 0);
    if !has_variable(kinds) {
        assert(next_var_start(e, kinds, 0) == e.len()) by {
            lemma_no_var_start(e, kinds, 0);
        }
    }
    assert forall|i: int| 0 <= i < n implies range_bytes(
        e,
        crate::container::field_range(e, kinds, i),
    ) == encs[i] by {
        lemma_field_bytes(kinds, encs, i as nat);
    }
}

proof fn lemma_no_var_start(bytes: Seq<u8>, kinds: Seq<FieldKind>, i: int)
    requires
        !has_variable(kinds),
        0 <= i <= kinds.len(),
    ensures
        next_var_start(bytes, kinds, i) == bytes.len(),
    decreases kinds.len() - i,
{
    if i < kinds.len() {
        assert(!(kinds[i] is Variable));
        lemma_no_var_start(bytes, kinds, i + 1);
    }
}

/// The layouts of two fields side by side take the sum of their widths.
pub(crate) proof fn lemma_fixed_part_len2(k0: FieldKind, k1: FieldKind)
    ensures
        fixed_part_len(seq![k0, k1]) == slot_width(k0) + slot_width(k1),
{
    let ks = seq![k0, k1];
    let s1 = ks.subrange(0, 1);
    assert(s1.subrange(0, 0) =~= Seq::<FieldKind>::empty());
    assert(fixed_part_len(Seq::<FieldKind>::empty()) == 0);
    assert(fixed_part_len(s1) == slot_width(k0));
}

/// The layouts of three fields side by side take the sum of their widths.
pub(crate) proof fn lemma_fixed_part_len3(k0: FieldKind, k1: FieldKind, k2: FieldKind)
    ensures
        fixed_part_len(seq![k0, k1, k2]) == slot_width(k0) + slot_width(k1) + slot_width(k2),
{
    let ks = seq![k0, k1, k2];
    lemma_fixed_part_len2(k0, k1);
    assert(ks.subrange(0, 2) =~= seq![k0, k1]);
}

/// The width that a field of type `T` takes in the fixed part of a container.
pub fn slot_len<T: Decode>() -> (r: usize)
    ensures
        r == slot_width(kind_of::<T>()),
{
    if T::is_ssz_fixed_len() {
        T::ssz_fixed_len()
    } else {
        BYTES_PER_LENGTH_OFFSET
    }
}

/// The number of bytes that `v` adds to the variable part of a container.
pub fn variable_len<T: Encode>(v: &T) -> (r: usize)
    requires
        v.spec_encodable(),
    ensures
        r == (if T::spec_is_fixed_len() {
            0
        } else {
            v.spec_encode().len()
        }),
{
    if T::is_ssz_fixed_len() {
        0
    } else {
        v.ssz_bytes_len()
    }
}

/// Field `i` adds its slot to the fixed part and, if it is variable-length, its bytes to the
/// variable part.
pub(crate) proof fn lemma_container_step(kinds: Seq<FieldKind>, encs: Seq<Seq<u8>>, i: nat)
    requires
        i < kinds.len(),
    ensures
        var_concat(kinds, encs, 0) == Seq::<u8>::empty(),
        fixed_part(kinds, encs, 0) == Seq::<u8>::empty(),
        var_concat(kinds, encs, i + 1) == var_concat(kinds, encs, i) + if kinds[i as int] is Variable {
            encs[i as int]
        } else {
            Seq::<u8>::empty()
        },
        fixed_part(kinds, encs, i + 1) == fixed_part(kinds, encs, i) + slot_bytes(kinds, encs, i),
{
}

/// A field added at the end widens the fixed part by its slot.
pub(crate) proof fn lemma_fixed_part_len_push(kinds: Seq<FieldKind>, k: FieldKind)
    ensures
        fixed_part_len(kinds.push(k)) == fixed_part_len(kinds) + slot_width(k),
{
    let s = kinds.push(k);
    assert(s.subrange(0, s.len() - 1) =~= kinds);
}

} // verus!
