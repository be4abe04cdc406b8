use vstd::prelude::*;
use crate::codec::{Decode, Encode};
use crate::encode::SszEncoder;
use crate::record::{
    fields_match, lemma_container_round_trip, lemma_container_step, lemma_fixed_part_len2, lemma_fixed_part_len3, lemma_fixed_part_len_push,
    lemma_layout, slot_len,
    spec_encode_container, var_concat, var_offset, variable_len,
};
use crate::container::{
    fixed_part_len, has_variable, kind_of, range_bytes, spec_build, FieldKind, SszDecoderBuilder,
};
use crate::error::DecodeError;

verus! {

/// `x`, or the largest `usize` where `x` is larger.
pub open spec fn clamp(x: int) -> usize {
    if x > usize::MAX {
        usize::MAX
    } else {
        x as usize
    }
}

/// A container of fixed-width fields only must be exactly as long as its fixed part.
proof fn lemma_all_fixed_build(bytes: Seq<u8>, kinds: Seq<FieldKind>)
    requires
        forall|i: int| 0 <= i < kinds.len() ==> #[trigger] kinds[i] is Fixed,
        bytes.len() <= usize::MAX,
    ensures
        !has_variable(kinds),
        spec_build(bytes, kinds) is Ok ==> bytes.len() == fixed_part_len(kinds),
        bytes.len() != clamp(fixed_part_len(kinds) as int) ==> spec_build(bytes, kinds) == Err::<
            Seq<(usize, usize)>,
            DecodeError,
        >(
            DecodeError::InvalidByteLength {
                len: bytes.len() as usize,
                expected: clamp(fixed_part_len(kinds) as int),
            },
        ),
{
}

impl<A: Decode, B: Decode> Decode for (A, B) {
    open spec fn spec_is_fixed_len() -> bool {
        A::spec_is_fixed_len() && B::spec_is_fixed_len()
    }

    open spec fn spec_fixed_len() -> usize {
        if Self::spec_is_fixed_len() {
            clamp(A::spec_fixed_len() + B::spec_fixed_len())
        } else {
            4
        }
    }

    open spec fn spec_decode(bytes: Seq<u8>) -> Result<(A, B), DecodeError> {
        match spec_build(bytes, seq![kind_of::<A>(), kind_of::<B>()]) {
            Err(e) => Err(e),
            Ok(rs) => match A::spec_decode(range_bytes(bytes, rs[0])) {
                Err(e) => Err(e),
                Ok(a) => match B::spec_decode(range_bytes(bytes, rs[1])) {
                    Err(e) => Err(e),
                    Ok(b) => Ok((a, b)),
                },
            },
        }
    }

    fn is_ssz_fixed_len() -> (r: bool) {
        A::is_ssz_fixed_len() && B::is_ssz_fixed_len()
    }

    fn ssz_fixed_len() -> (r: usize) {
        if A::is_ssz_fixed_len() && B::is_ssz_fixed_len() {
            A::ssz_fixed_len().saturating_add(B::ssz_fixed_len())
        } else {
            4
        }
    }

    fn from_ssz_bytes(bytes: &[u8]) -> (r: Result<(A, B), DecodeError>) {
        let mut builder = SszDecoderBuilder::new(bytes);
        builder.register_type::<A>();
        builder.register_type::<B>();
        assert(builder.kinds@ =~= seq![kind_of::<A>(), kind_of::<B>()]);
        let mut decoder = match builder.build() {
            Ok(d) => d,
            Err(e) => return Err(e),
        };
        let a = match decoder.decode_next::<A>() {
            Ok(v) => v,
            Err(e) => return Err(e),
        };
        let b = match decoder.decode_next::<B>() {
            Ok(v) => v,
            Err(e) => return Err(e),
        };
        Ok((a, b))
    }

    proof fn lemma_fixed_len_consistency(bytes: Seq<u8>) {
        let ks = seq![kind_of::<A>(), kind_of::<B>()];
        let k1 = ks.subrange(0, 1);
        assert(k1.subrange(0, 0) =~= Seq::<FieldKind>::empty());
        assert(fixed_part_len(Seq::<FieldKind>::empty()) == 0);
        assert(k1.last() == kind_of::<A>());
        assert(fixed_part_len(k1) == A::spec_fixed_len());
        assert(ks.subrange(0, 1) == k1);
        assert(fixed_part_len(ks) == A::spec_fixed_len() + B::spec_fixed_len());
        lemma_all_fixed_build(bytes, ks);
    }
}

impl<A: Decode, B: Decode, C: Decode> Decode for (A, B, C) {
    open spec fn spec_is_fixed_len() -> bool {
        A::spec_is_fixed_len() && B::spec_is_fixed_len() && C::spec_is_fixed_len()
    }

    open spec fn spec_fixed_len() -> usize {
        if Self::spec_is_fixed_len() {
            clamp(A::spec_fixed_len() + B::spec_fixed_len() + C::spec_fixed_len())
        } else {
            4
        }
    }

    open spec fn spec_decode(bytes: Seq<u8>) -> Result<(A, B, C), DecodeError> {
        match spec_build(bytes, seq![kind_of::<A>(), kind_of::<B>(), kind_of::<C>()]) {
            Err(e) => Err(e),
            Ok(rs) => match A::spec_decode(range_bytes(bytes, rs[0])) {
                Err(e) => Err(e),
                Ok(a) => match B::spec_decode(range_bytes(bytes, rs[1])) {
                    Err(e) => Err(e),
                    Ok(b) => match C::spec_decode(range_bytes(bytes, rs[2])) {
                        Err(e) => Err(e),
                        Ok(c) => Ok((a, b, c)),
                    },
                },
            },
        }
    }

    fn is_ssz_fixed_len() -> (r: bool) {
        A::is_ssz_fixed_len() && B::is_ssz_fixed_len() && C::is_ssz_fixed_len()
    }

    fn ssz_fixed_len() -> (r: usize) {
        if A::is_ssz_fixed_len() && B::is_ssz_fixed_len() && C::is_ssz_fixed_len() {
            A::ssz_fixed_len().saturating_add(B::ssz_fixed_len()).saturating_add(C::ssz_fixed_len())
        } else {
            4
        }
    }

    fn from_ssz_bytes(bytes: &[u8]) -> (r: Result<(A, B, C), DecodeError>) {
        let mut builder = SszDecoderBuilder::new(bytes);
        builder.register_type::<A>();
        builder.register_type::<B>();
        builder.register_type::<C>();
        assert(builder.kinds@ =~= seq![kind_of::<A>(), kind_of::<B>(), kind_of::<C>()]);
        let mut decoder = match builder.build() {
            Ok(d) => d,
            Err(e) => return Err(e),
        };
        let a = match decoder.decode_next::<A>() {
            Ok(v) => v,
            Err(e) => return Err(e),
        };
        let b = match decoder.decode_next::<B>() {
            Ok(v) => v,
            Err(e) => return Err(e),
        };
        let c = match decoder.decode_next::<C>() {
            Ok(v) => v,
            Err(e) => return Err(e),
        };
        Ok((a, b, c))
    }

    proof fn lemma_fixed_len_consistency(bytes: Seq<u8>) {
        let ks = seq![kind_of::<A>(), kind_of::<B>(), kind_of::<C>()];
        let k2 = ks.subrange(0, 2);
        let k1 = k2.subrange(0, 1);
        assert(k1.subrange(0, 0) =~= Seq::<FieldKind>::empty());
        assert(fixed_part_len(Seq::<FieldKind>::empty()) == 0);
        assert(k1.last() == kind_of::<A>());
        assert(fixed_part_len(k1) == A::spec_fixed_len());
        assert(fixed_part_len(k2) == A::spec_fixed_len() + B::spec_fixed_len());
        assert(fixed_part_len(ks) == A::spec_fixed_len() + B::spec_fixed_len() + C::spec_fixed_len());
        lemma_all_fixed_build(bytes, ks);
    }
}

impl<A: Encode, B: Encode> Encode for (A, B) {
    open spec fn spec_encodable(&self) -> bool {
        &&& self.0.spec_encodable()
        &&& self.1.spec_encodable()
        &&& var_offset(
            seq![kind_of::<A>(), kind_of::<B>()],
            seq![self.0.spec_encode(), self.1.spec_encode()],
            2,
        ) <= u32::MAX
    }

    open spec fn spec_encode(&self) -> Seq<u8> {
        spec_encode_container(
            seq![kind_of::<A>(), kind_of::<B>()],
            seq![self.0.spec_encode(), self.1.spec_encode()],
        )
    }

    fn ssz_bytes_len(&self) -> (r: usize) {
        let ghost ks = seq![kind_of::<A>(), kind_of::<B>()];
        let ghost encs = seq![self.0.spec_encode(), self.1.spec_encode()];
        proof {
            A::lemma_round_trip(&self.0);
            B::lemma_round_trip(&self.1);
            assert(fields_match(ks, encs));
            lemma_layout(ks, encs);
            lemma_fixed_part_len2(ks[0], ks[1]);
            lemma_container_step(ks, encs, 0);
            lemma_container_step(ks, encs, 1);
            assert(var_concat(ks, encs, 1) =~= Seq::<u8>::empty() + var_concat(ks, encs, 1));
        }
        slot_len::<A>() + slot_len::<B>() + variable_len(&self.0) + variable_len(&self.1)
    }

    fn ssz_append(&self, buf: &mut Vec<u8>) {
        let ghost ks = seq![kind_of::<A>(), kind_of::<B>()];
        let ghost encs = seq![self.0.spec_encode(), self.1.spec_encode()];
        proof {
            A::lemma_round_trip(&self.0);
            B::lemma_round_trip(&self.1);
            assert(fields_match(ks, encs));
            lemma_layout(ks, encs);
            lemma_fixed_part_len2(ks[0], ks[1]);
            lemma_container_step(ks, encs, 0);
            lemma_container_step(ks, encs, 1);
            assert(var_concat(ks, encs, 1) =~= Seq::<u8>::empty() + var_concat(ks, encs, 1));
        }
        let mut encoder = SszEncoder::container(slot_len::<A>() + slot_len::<B>());
        encoder.append(&self.0);
        encoder.append(&self.1);
        proof {
            assert(encoder.fixed@ =~= crate::record::fixed_part(ks, encs, 2));
            assert(encoder.variable@ =~= var_concat(ks, encs, 2));
        }
        encoder.finalize(buf);
        proof {
            assert(buf@ =~= old(buf)@ + self.spec_encode());
        }
    }

    proof fn lemma_round_trip(v: &(A, B)) {
        let ks = seq![kind_of::<A>(), kind_of::<B>()];
        let encs = seq![v.0.spec_encode(), v.1.spec_encode()];
        A::lemma_round_trip(&v.0);
        B::lemma_round_trip(&v.1);
        assert(fields_match(ks, encs));
        lemma_container_round_trip(ks, encs);
        lemma_fixed_part_len2(ks[0], ks[1]);
        if Self::spec_is_fixed_len() {
            assert(!has_variable(ks)) by {
                assert(ks[0] is Fixed && ks[1] is Fixed);
            }
        }
    }
}

impl<A: Encode, B: Encode, C: Encode> Encode for (A, B, C) {
    open spec fn spec_encodable(&self) -> bool {
        &&& self.0.spec_encodable()
        &&& self.1.spec_encodable()
        &&& self.2.spec_encodable()
        &&& var_offset(
            seq![kind_of::<A>(), kind_of::<B>(), kind_of::<C>()],
            seq![self.0.spec_encode(), self.1.spec_encode(), self.2.spec_encode()],
            3,
        ) <= u32::MAX
    }

    open spec fn spec_encode(&self) -> Seq<u8> {
        spec_encode_container(
            seq![kind_of::<A>(), kind_of::<B>(), kind_of::<C>()],
            seq![self.0.spec_encode(), self.1.spec_encode(), self.2.spec_encode()],
        )
    }

    fn ssz_bytes_len(&self) -> (r: usize) {
        let ghost ks = seq![kind_of::<A>(), kind_of::<B>(), kind_of::<C>()];
        let ghost encs = seq![self.0.spec_encode(), self.1.spec_encode(), self.2.spec_encode()];
        proof {
            A::lemma_round_trip(&self.0);
            B::lemma_round_trip(&self.1);
            C::lemma_round_trip(&self.2);
            assert(fields_match(ks, encs));
            lemma_layout(ks, encs);
            lemma_fixed_part_len3(ks[0], ks[1], ks[2]);
            lemma_container_step(ks, encs, 0);
            lemma_container_step(ks, encs, 1);
            lemma_container_step(ks, encs, 2);
            assert(var_concat(ks, encs, 1) =~= Seq::<u8>::empty() + var_concat(ks, encs, 1));
        }
        slot_len::<A>() + slot_len::<B>() + slot_len::<C>() + variable_len(&self.0) + variable_len(
            &self.1,
        ) + variable_len(&self.2)
    }

    fn ssz_append(&self, buf: &mut Vec<u8>) {
        let ghost ks = seq![kind_of::<A>(), kind_of::<B>(), kind_of::<C>()];
        let ghost encs = seq![self.0.spec_encode(), self.1.spec_encode(), self.2.spec_encode()];
        proof {
            A::lemma_round_trip(&self.0);
            B::lemma_round_trip(&self.1);
            C::lemma_round_trip(&self.2);
            assert(fields_match(ks, encs));
            lemma_layout(ks, encs);
            lemma_fixed_part_len3(ks[0], ks[1], ks[2]);
            lemma_container_step(ks, encs, 0);
            lemma_container_step(ks, encs, 1);
            lemma_container_step(ks, encs, 2);
            assert(var_concat(ks, encs, 1) =~= Seq::<u8>::empty() + var_concat(ks, encs, 1));
        }
        let mut encoder = SszEncoder::container(slot_len::<A>() + slot_len::<B>() + slot_len::<C>());
        encoder.append(&self.0);
        encoder.append(&self.1);
        encoder.append(&self.2);
        proof {
            assert(encoder.fixed@ =~= crate::record::fixed_part(ks, encs, 3));
            assert(encoder.variable@ =~= var_concat(ks, encs, 3));
        }
        encoder.finalize(buf);
        proof {
            assert(buf@ =~= old(buf)@ + self.spec_encode());
        }
    }

    proof fn lemma_round_trip(v: &(A, B, C)) {
        let ks = seq![kind_of::<A>(), kind_of::<B>(), kind_of::<C>()];
        let encs = seq![v.0.spec_encode(), v.1.spec_encode(), v.2.spec_encode()];
        A::lemma_round_trip(&v.0);
        B::lemma_round_trip(&v.1);
        C::lemma_round_trip(&v.2);
        assert(fields_match(ks, encs));
        lemma_container_round_trip(ks, encs);
        lemma_fixed_part_len3(ks[0], ks[1], ks[2]);
        if Self::spec_is_fixed_len() {
            assert(!has_variable(ks)) by {
                assert(ks[0] is Fixed && ks[1] is Fixed && ks[2] is Fixed);
            }
        }
    }
}

impl<A: Decode, B: Decode, C: Decode, D: Decode> Decode for (A, B, C, D) {
    open spec fn spec_is_fixed_len() -> bool {
        A::spec_is_fixed_len() && B::spec_is_fixed_len() && C::spec_is_fixed_len() && D::spec_is_fixed_len()
    }

    open spec fn spec_fixed_len() -> usize {
        if Self::spec_is_fixed_len() {
            clamp(A::spec_fixed_len() + B::spec_fixed_len() + C::spec_fixed_len() + D::spec_fixed_len())
        } else {
            4
        }
    }

    open spec fn spec_decode(bytes: Seq<u8>) -> Result<(A, B, C, D), DecodeError> {
        match spec_build(bytes, seq![kind_of::<A>(), kind_of::<B>(), kind_of::<C>(), kind_of::<D>()]) {
            Err(e) => Err(e),
            Ok(rs) => match A::spec_decode(range_bytes(bytes, rs[0])) { Err(e) => Err(e), Ok(v0) => match B::spec_decode(range_bytes(bytes, rs[1])) { Err(e) => Err(e), Ok(v1) => match C::spec_decode(range_bytes(bytes, rs[2])) { Err(e) => Err(e), Ok(v2) => match D::spec_decode(range_bytes(bytes, rs[3])) { Err(e) => Err(e), Ok(v3) => Ok((v0, v1, v2, v3)) } } } },
        }
    }

    fn is_ssz_fixed_len() -> (r: bool) {
        A::is_ssz_fixed_len() && B::is_ssz_fixed_len() && C::is_ssz_fixed_len() && D::is_ssz_fixed_len()
    }

    fn ssz_fixed_len() -> (r: usize) {
        if A::is_ssz_fixed_len() && B::is_ssz_fixed_len() && C::is_ssz_fixed_len() && D::is_ssz_fixed_len() {
            A::ssz_fixed_len().saturating_add(B::ssz_fixed_len()).saturating_add(C::ssz_fixed_len()).saturating_add(D::ssz_fixed_len())
        } else {
            4
        }
    }

    fn from_ssz_bytes(bytes: &[u8]) -> (r: Result<(A, B, C, D), DecodeError>) {
        let mut builder = SszDecoderBuilder::new(bytes);
        builder.register_type::<A>();
        builder.register_type::<B>();
        builder.register_type::<C>();
        builder.register_type::<D>();
        assert(builder.kinds@ =~= seq![kind_of::<A>(), kind_of::<B>(), kind_of::<C>(), kind_of::<D>()]);
        let mut decoder = match builder.build() {
            Ok(d) => d,
            Err(e) => return Err(e),
        };
        let v0 = match decoder.decode_next::<A>() {
            Ok(v) => v,
            Err(e) => return Err(e),
        };
        let v1 = match decoder.decode_next::<B>() {
            Ok(v) => v,
            Err(e) => return Err(e),
        };
        let v2 = match decoder.decode_next::<C>() {
            Ok(v) => v,
            Err(e) => return Err(e),
        };
        let v3 = match decoder.decode_next::<D>() {
            Ok(v) => v,
            Err(e) => return Err(e),
        };
        Ok((v0, v1, v2, v3))
    }

    proof fn lemma_fixed_len_consistency(bytes: Seq<u8>) {
        let ks = seq![kind_of::<A>(), kind_of::<B>(), kind_of::<C>(), kind_of::<D>()];
        assert(fixed_part_len(Seq::<FieldKind>::empty()) == 0);
        lemma_fixed_part_len_push(Seq::<FieldKind>::empty(), kind_of::<A>());
        assert(Seq::<FieldKind>::empty().push(kind_of::<A>()) =~= seq![kind_of::<A>()]);
        lemma_fixed_part_len_push(seq![kind_of::<A>()], kind_of::<B>());
        assert(seq![kind_of::<A>()].push(kind_of::<B>()) =~= seq![kind_of::<A>(), kind_of::<B>()]);
        lemma_fixed_part_len_push(seq![kind_of::<A>(), kind_of::<B>()], kind_of::<C>());
        assert(seq![kind_of::<A>(), kind_of::<B>()].push(kind_of::<C>()) =~= seq![kind_of::<A>(), kind_of::<B>(), kind_of::<C>()]);
        lemma_fixed_part_len_push(seq![kind_of::<A>(), kind_of::<B>(), kind_of::<C>()], kind_of::<D>());
        assert(seq![kind_of::<A>(), kind_of::<B>(), kind_of::<C>()].push(kind_of::<D>()) =~= seq![kind_of::<A>(), kind_of::<B>(), kind_of::<C>(), kind_of::<D>()]);
        lemma_all_fixed_build(bytes, ks);
    }
}

impl<A: Encode, B: Encode, C: Encode, D: Encode> Encode for (A, B, C, D) {
    open spec fn spec_encodable(&self) -> bool {
        &&& self.0.spec_encodable()
        &&& self.1.spec_encodable()
        &&& self.2.spec_encodable()
        &&& self.3.spec_encodable()
        &&& var_offset(seq![kind_of::<A>(), kind_of::<B>(), kind_of::<C>(), kind_of::<D>()], seq![self.0.spec_encode(), self.1.spec_encode(), self.2.spec_encode(), self.3.spec_encode()], 4) <= u32::MAX
    }

    open spec fn spec_encode(&self) -> Seq<u8> {
        spec_encode_container(seq![kind_of::<A>(), kind_of::<B>(), kind_of::<C>(), kind_of::<D>()], seq![self.0.spec_encode(), self.1.spec_encode(), self.2.spec_encode(), self.3.spec_encode()])
    }

    fn ssz_bytes_len(&self) -> (r: usize) {
        let ghost ks = seq![kind_of::<A>(), kind_of::<B>(), kind_of::<C>(), kind_of::<D>()];
        let ghost encs = seq![self.0.spec_encode(), self.1.spec_encode(), self.2.spec_encode(), self.3.spec_encode()];
        proof {
            A::lemma_round_trip(&self.0);
            B::lemma_round_trip(&self.1);
            C::lemma_round_trip(&self.2);
            D::lemma_round_trip(&self.3);
            assert(fields_match(ks, encs));
            lemma_layout(ks, encs);
            assert(fixed_part_len(Seq::<FieldKind>::empty()) == 0);
            lemma_fixed_part_len_push(Seq::<FieldKind>::empty(), kind_of::<A>());
            assert(Seq::<FieldKind>::empty().push(kind_of::<A>()) =~= seq![kind_of::<A>()]);
            lemma_fixed_part_len_push(seq![kind_of::<A>()], kind_of::<B>());
            assert(seq![kind_of::<A>()].push(kind_of::<B>()) =~= seq![kind_of::<A>(), kind_of::<B>()]);
            lemma_fixed_part_len_push(seq![kind_of::<A>(), kind_of::<B>()], kind_of::<C>());
            assert(seq![kind_of::<A>(), kind_of::<B>()].push(kind_of::<C>()) =~= seq![kind_of::<A>(), kind_of::<B>(), kind_of::<C>()]);
            lemma_fixed_part_len_push(seq![kind_of::<A>(), kind_of::<B>(), kind_of::<C>()], kind_of::<D>());
            assert(seq![kind_of::<A>(), kind_of::<B>(), kind_of::<C>()].push(kind_of::<D>()) =~= seq![kind_of::<A>(), kind_of::<B>(), kind_of::<C>(), kind_of::<D>()]);
            lemma_container_step(ks, encs, 0);
            lemma_container_step(ks, encs, 1);
            lemma_container_step(ks, encs, 2);
            lemma_container_step(ks, encs, 3);
        }
        slot_len::<A>() + slot_len::<B>() + slot_len::<C>() + slot_len::<D>() + variable_len(&self.0) + variable_len(&self.1) + variable_len(&self.2) + variable_len(&self.3)
    }

    fn ssz_append(&self, buf: &mut Vec<u8>) {
        let ghost ks = seq![kind_of::<A>(), kind_of::<B>(), kind_of::<C>(), kind_of::<D>()];
        let ghost encs = seq![self.0.spec_encode(), self.1.spec_encode(), self.2.spec_encode(), self.3.spec_encode()];
        proof {
            A::lemma_round_trip(&self.0);
            B::lemma_round_trip(&self.1);
            C::lemma_round_trip(&self.2);
            D::lemma_round_trip(&self.3);
            assert(fields_match(ks, encs));
            lemma_layout(ks, encs);
            assert(fixed_part_len(Seq::<FieldKind>::empty()) == 0);
            lemma_fixed_part_len_push(Seq::<FieldKind>::empty(), kind_of::<A>());
            assert(Seq::<FieldKind>::empty().push(kind_of::<A>()) =~= seq![kind_of::<A>()]);
            lemma_fixed_part_len_push(seq![kind_of::<A>()], kind_of::<B>());
            assert(seq![kind_of::<A>()].push(kind_of::<B>()) =~= seq![kind_of::<A>(), kind_of::<B>()]);
            lemma_fixed_part_len_push(seq![kind_of::<A>(), kind_of::<B>()], kind_of::<C>());
            assert(seq![kind_of::<A>(), kind_of::<B>()].push(kind_of::<C>()) =~= seq![kind_of::<A>(), kind_of::<B>(), kind_of::<C>()]);
            lemma_fixed_part_len_push(seq![kind_of::<A>(), kind_of::<B>(), kind_of::<C>()], kind_of::<D>());
            assert(seq![kind_of::<A>(), kind_of::<B>(), kind_of::<C>()].push(kind_of::<D>()) =~= seq![kind_of::<A>(), kind_of::<B>(), kind_of::<C>(), kind_of::<D>()]);
            lemma_container_step(ks, encs, 0);
            lemma_container_step(ks, encs, 1);
            lemma_container_step(ks, encs, 2);
            lemma_container_step(ks, encs, 3);
        }
        let mut encoder = SszEncoder::container(slot_len::<A>() + slot_len::<B>() + slot_len::<C>() + slot_len::<D>());
        encoder.append(&self.0);
        encoder.append(&self.1);
        encoder.append(&self.2);
        encoder.append(&self.3);
        proof {
            assert(encoder.fixed@ =~= crate::record::fixed_part(ks, encs, 4));
            assert(encoder.variable@ =~= var_concat(ks, encs, 4));
        }
        encoder.finalize(buf);
        proof {
            assert(buf@ =~= old(buf)@ + self.spec_encode());
        }
    }

    proof fn lemma_round_trip(v: &(A, B, C, D)) {
        let ks = seq![kind_of::<A>(), kind_of::<B>(), kind_of::<C>(), kind_of::<D>()];
        let encs = seq![v.0.spec_encode(), v.1.spec_encode(), v.2.spec_encode(), v.3.spec_encode()];
        A::lemma_round_trip(&v.0);
        B::lemma_round_trip(&v.1);
        C::lemma_round_trip(&v.2);
        D::lemma_round_trip(&v.3);
        assert(fields_match(ks, encs));
        lemma_container_round_trip(ks, encs);
        assert(fixed_part_len(Seq::<FieldKind>::empty()) == 0);
        lemma_fixed_part_len_push(Seq::<FieldKind>::empty(), kind_of::<A>());
        assert(Seq::<FieldKind>::empty().push(kind_of::<A>()) =~= seq![kind_of::<A>()]);
        lemma_fixed_part_len_push(seq![kind_of::<A>()], kind_of::<B>());
        assert(seq![kind_of::<A>()].push(kind_of::<B>()) =~= seq![kind_of::<A>(), kind_of::<B>()]);
        lemma_fixed_part_len_push(seq![kind_of::<A>(), kind_of::<B>()], kind_of::<C>());
        assert(seq![kind_of::<A>(), kind_of::<B>()].push(kind_of::<C>()) =~= seq![kind_of::<A>(), kind_of::<B>(), kind_of::<C>()]);
        lemma_fixed_part_len_push(seq![kind_of::<A>(), kind_of::<B>(), kind_of::<C>()], kind_of::<D>());
        assert(seq![kind_of::<A>(), kind_of::<B>(), kind_of::<C>()].push(kind_of::<D>()) =~= seq![kind_of::<A>(), kind_of::<B>(), kind_of::<C>(), kind_of::<D>()]);
        if Self::spec_is_fixed_len() {
            assert(!has_variable(ks)) by {
                assert(ks[0] is Fixed && ks[1] is Fixed && ks[2] is Fixed && ks[3] is Fixed);
            }
        }
    }
}

impl<A: Decode, B: Decode, C: Decode, D: Decode, E: Decode> Decode for (A, B, C, D, E) {
    open spec fn spec_is_fixed_len() -> bool {
        A::spec_is_fixed_len() && B::spec_is_fixed_len() && C::spec_is_fixed_len() && D::spec_is_fixed_len() && E::spec_is_fixed_len()
    }

    open spec fn spec_fixed_len() -> usize {
        if Self::spec_is_fixed_len() {
            clamp(A::spec_fixed_len() + B::spec_fixed_len() + C::spec_fixed_len() + D::spec_fixed_len() + E::spec_fixed_len())
        } else {
            4
        }
    }

    open spec fn spec_decode(bytes: Seq<u8>) -> Result<(A, B, C, D, E), DecodeError> {
        match spec_build(bytes, seq![kind_of::<A>(), kind_of::<B>(), kind_of::<C>(), kind_of::<D>(), kind_of::<E>()]) {
            Err(e) => Err(e),
            Ok(rs) => match A::spec_decode(range_bytes(bytes, rs[0])) { Err(e) => Err(e), Ok(v0) => match B::spec_decode(range_bytes(bytes, rs[1])) { Err(e) => Err(e), Ok(v1) => match C::spec_decode(range_bytes(bytes, rs[2])) { Err(e) => Err(e), Ok(v2) => match D::spec_decode(range_bytes(bytes, rs[3])) { Err(e) => Err(e), Ok(v3) => match E::spec_decode(range_bytes(bytes, rs[4])) { Err(e) => Err(e), Ok(v4) => Ok((v0, v1, v2, v3, v4)) } } } } },
        }
    }

    fn is_ssz_fixed_len() -> (r: bool) {
        A::is_ssz_fixed_len() && B::is_ssz_fixed_len() && C::is_ssz_fixed_len() && D::is_ssz_fixed_len() && E::is_ssz_fixed_len()
    }

    fn ssz_fixed_len() -> (r: usize) {
        if A::is_ssz_fixed_len() && B::is_ssz_fixed_len() && C::is_ssz_fixed_len() && D::is_ssz_fixed_len() && E::is_ssz_fixed_len() {
            A::ssz_fixed_len().saturating_add(B::ssz_fixed_len()).saturating_add(C::ssz_fixed_len()).saturating_add(D::ssz_fixed_len()).saturating_add(E::ssz_fixed_len())
        } else {
            4
        }
    }

    fn from_ssz_bytes(bytes: &[u8]) -> (r: Result<(A, B, C, D, E), DecodeError>) {
        let mut builder = SszDecoderBuilder::new(bytes);
        builder.register_type::<A>();
        builder.register_type::<B>();
        builder.register_type::<C>();
        builder.register_type::<D>();
        builder.register_type::<E>();
        assert(builder.kinds@ =~= seq![kind_of::<A>(), kind_of::<B>(), kind_of::<C>(), kind_of::<D>(), kind_of::<E>()]);
        let mut decoder = match builder.build() {
            Ok(d) => d,
            Err(e) => return Err(e),
        };
        let v0 = match decoder.decode_next::<A>() {
            Ok(v) => v,
            Err(e) => return Err(e),
        };
        let v1 = match decoder.decode_next::<B>() {
            Ok(v) => v,
            Err(e) => return Err(e),
        };
        let v2 = match decoder.decode_next::<C>() {
            Ok(v) => v,
            Err(e) => return Err(e),
        };
        let v3 = match decoder.decode_next::<D>() {
            Ok(v) => v,
            Err(e) => return Err(e),
        };
        let v4 = match decoder.decode_next::<E>() {
            Ok(v) => v,
            Err(e) => return Err(e),
        };
        Ok((v0, v1, v2, v3, v4))
    }

    proof fn lemma_fixed_len_consistency(bytes: Seq<u8>) {
        let ks = seq![kind_of::<A>(), kind_of::<B>(), kind_of::<C>(), kind_of::<D>(), kind_of::<E>()];
        assert(fixed_part_len(Seq::<FieldKind>::empty()) == 0);
        lemma_fixed_part_len_push(Seq::<FieldKind>::empty(), kind_of::<A>());
        assert(Seq::<FieldKind>::empty().push(kind_of::<A>()) =~= seq![kind_of::<A>()]);
        lemma_fixed_part_len_push(seq![kind_of::<A>()], kind_of::<B>());
        assert(seq![kind_of::<A>()].push(kind_of::<B>()) =~= seq![kind_of::<A>(), kind_of::<B>()]);
        lemma_fixed_part_len_push(seq![kind_of::<A>(), kind_of::<B>()], kind_of::<C>());
        assert(seq![kind_of::<A>(), kind_of::<B>()].push(kind_of::<C>()) =~= seq![kind_of::<A>(), kind_of::<B>(), kind_of::<C>()]);
        lemma_fixed_part_len_push(seq![kind_of::<A>(), kind_of::<B>(), kind_of::<C>()], kind_of::<D>());
        assert(seq![kind_of::<A>(), kind_of::<B>(), kind_of::<C>()].push(kind_of::<D>()) =~= seq![kind_of::<A>(), kind_of::<B>(), kind_of::<C>(), kind_of::<D>()]);
        lemma_fixed_part_len_push(seq![kind_of::<A>(), kind_of::<B>(), kind_of::<C>(), kind_of::<D>()], kind_of::<E>());
        assert(seq![kind_of::<A>(), kind_of::<B>(), kind_of::<C>(), kind_of::<D>()].push(kind_of::<E>()) =~= seq![kind_of::<A>(), kind_of::<B>(), kind_of::<C>(), kind_of::<D>(), kind_of::<E>()]);
        lemma_all_fixed_build(bytes, ks);
    }
}

impl<A: Encode, B: Encode, C: Encode, D: Encode, E: Encode> Encode for (A, B, C, D, E) {
    open spec fn spec_encodable(&self) -> bool {
        &&& self.0.spec_encodable()
        &&& self.1.spec_encodable()
        &&& self.2.spec_encodable()
        &&& self.3.spec_encodable()
        &&& self.4.spec_encodable()
        &&& var_offset(seq![kind_of::<A>(), kind_of::<B>(), kind_of::<C>(), kind_of::<D>(), kind_of::<E>()], seq![self.0.spec_encode(), self.1.spec_encode(), self.2.spec_encode(), self.3.spec_encode(), self.4.spec_encode()], 5) <= u32::MAX
    }

    open spec fn spec_encode(&self) -> Seq<u8> {
        spec_encode_container(seq![kind_of::<A>(), kind_of::<B>(), kind_of::<C>(), kind_of::<D>(), kind_of::<E>()], seq![self.0.spec_encode(), self.1.spec_encode(), self.2.spec_encode(), self.3.spec_encode(), self.4.spec_encode()])
    }

    fn ssz_bytes_len(&self) -> (r: usize) {
        let ghost ks = seq![kind_of::<A>(), kind_of::<B>(), kind_of::<C>(), kind_of::<D>(), kind_of::<E>()];
        let ghost encs = seq![self.0.spec_encode(), self.1.spec_encode(), self.2.spec_encode(), self.3.spec_encode(), self.4.spec_encode()];
        proof {
            A::lemma_round_trip(&self.0);
            B::lemma_round_trip(&self.1);
            C::lemma_round_trip(&self.2);
            D::lemma_round_trip(&self.3);
            E::lemma_round_trip(&self.4);
            assert(fields_match(ks, encs));
            lemma_layout(ks, encs);
            assert(fixed_part_len(Seq::<FieldKind>::empty()) == 0);
            lemma_fixed_part_len_push(Seq::<FieldKind>::empty(), kind_of::<A>());
            assert(Seq::<FieldKind>::empty().push(kind_of::<A>()) =~= seq![kind_of::<A>()]);
            lemma_fixed_part_len_push(seq![kind_of::<A>()], kind_of::<B>());
            assert(seq![kind_of::<A>()].push(kind_of::<B>()) =~= seq![kind_of::<A>(), kind_of::<B>()]);
            lemma_fixed_part_len_push(seq![kind_of::<A>(), kind_of::<B>()], kind_of::<C>());
            assert(seq![kind_of::<A>(), kind_of::<B>()].push(kind_of::<C>()) =~= seq![kind_of::<A>(), kind_of::<B>(), kind_of::<C>()]);
            lemma_fixed_part_len_push(seq![kind_of::<A>(), kind_of::<B>(), kind_of::<C>()], kind_of::<D>());
            assert(seq![kind_of::<A>(), kind_of::<B>(), kind_of::<C>()].push(kind_of::<D>()) =~= seq![kind_of::<A>(), kind_of::<B>(), kind_of::<C>(), kind_of::<D>()]);
            lemma_fixed_part_len_push(seq![kind_of::<A>(), kind_of::<B>(), kind_of::<C>(), kind_of::<D>()], kind_of::<E>());
            assert(seq![kind_of::<A>(), kind_of::<B>(), kind_of::<C>(), kind_of::<D>()].push(kind_of::<E>()) =~= seq![kind_of::<A>(), kind_of::<B>(), kind_of::<C>(), kind_of::<D>(), kind_of::<E>()]);
            lemma_container_step(ks, encs, 0);
            lemma_container_step(ks, encs, 1);
            lemma_container_step(ks, encs, 2);
            lemma_container_step(ks, encs, 3);
            lemma_container_step(ks, encs, 4);
        }
        slot_len::<A>() + slot_len::<B>() + slot_len::<C>() + slot_len::<D>() + slot_len::<E>() + variable_len(&self.0) + variable_len(&self.1) + variable_len(&self.2) + variable_len(&self.3) + variable_len(&self.4)
    }

    fn ssz_append(&self, buf: &mut Vec<u8>) {
        let ghost ks = seq![kind_of::<A>(), kind_of::<B>(), kind_of::<C>(), kind_of::<D>(), kind_of::<E>()];
        let ghost encs = seq![self.0.spec_encode(), self.1.spec_encode(), self.2.spec_encode(), self.3.spec_encode(), self.4.spec_encode()];
        proof {
            A::lemma_round_trip(&self.0);
            B::lemma_round_trip(&self.1);
            C::lemma_round_trip(&self.2);
            D::lemma_round_trip(&self.3);
            E::lemma_round_trip(&self.4);
            assert(fields_match(ks, encs));
            lemma_layout(ks, encs);
            assert(fixed_part_len(Seq::<FieldKind>::empty()) == 0);
            lemma_fixed_part_len_push(Seq::<FieldKind>::empty(), kind_of::<A>());
            assert(Seq::<FieldKind>::empty().push(kind_of::<A>()) =~= seq![kind_of::<A>()]);
            lemma_fixed_part_len_push(seq![kind_of::<A>()], kind_of::<B>());
            assert(seq![kind_of::<A>()].push(kind_of::<B>()) =~= seq![kind_of::<A>(), kind_of::<B>()]);
            lemma_fixed_part_len_push(seq![kind_of::<A>(), kind_of::<B>()], kind_of::<C>());
            assert(seq![kind_of::<A>(), kind_of::<B>()].push(kind_of::<C>()) =~= seq![kind_of::<A>(), kind_of::<B>(), kind_of::<C>()]);
            lemma_fixed_part_len_push(seq![kind_of::<A>(), kind_of::<B>(), kind_of::<C>()], kind_of::<D>());
            assert(seq![kind_of::<A>(), kind_of::<B>(), kind_of::<C>()].push(kind_of::<D>()) =~= seq![kind_of::<A>(), kind_of::<B>(), kind_of::<C>(), kind_of::<D>()]);
            lemma_fixed_part_len_push(seq![kind_of::<A>(), kind_of::<B>(), kind_of::<C>(), kind_of::<D>()], kind_of::<E>());
            assert(seq![kind_of::<A>(), kind_of::<B>(), kind_of::<C>(), kind_of::<D>()].push(kind_of::<E>()) =~= seq![kind_of::<A>(), kind_of::<B>(), kind_of::<C>(), kind_of::<D>(), kind_of::<E>()]);
            lemma_container_step(ks, encs, 0);
            lemma_container_step(ks, encs, 1);
            lemma_container_step(ks, encs, 2);
            lemma_container_step(ks, encs, 3);
            lemma_container_step(ks, encs, 4);
        }
        let mut encoder = SszEncoder::container(slot_len::<A>() + slot_len::<B>() + slot_len::<C>() + slot_len::<D>() + slot_len::<E>());
        encoder.append(&self.0);
        encoder.append(&self.1);
        encoder.append(&self.2);
        encoder.append(&self.3);
        encoder.append(&self.4);
        proof {
            assert(encoder.fixed@ =~= crate::record::fixed_part(ks, encs, 5));
            assert(encoder.variable@ =~= var_concat(ks, encs, 5));
        }
        encoder.finalize(buf);
        proof {
            assert(buf@ =~= old(buf)@ + self.spec_encode());
        }
    }

    proof fn lemma_round_trip(v: &(A, B, C, D, E)) {
        let ks = seq![kind_of::<A>(), kind_of::<B>(), kind_of::<C>(), kind_of::<D>(), kind_of::<E>()];
        let encs = seq![v.0.spec_encode(), v.1.spec_encode(), v.2.spec_encode(), v.3.spec_encode(), v.4.spec_encode()];
        A::lemma_round_trip(&v.0);
        B::lemma_round_trip(&v.1);
        C::lemma_round_trip(&v.2);
        D::lemma_round_trip(&v.3);
        E::lemma_round_trip(&v.4);
        assert(fields_match(ks, encs));
        lemma_container_round_trip(ks, encs);
        assert(fixed_part_len(Seq::<FieldKind>::empty()) == 0);
        lemma_fixed_part_len_push(Seq::<FieldKind>::empty(), kind_of::<A>());
        assert(Seq::<FieldKind>::empty().push(kind_of::<A>()) =~= seq![kind_of::<A>()]);
        lemma_fixed_part_len_push(seq![kind_of::<A>()], kind_of::<B>());
        assert(seq![kind_of::<A>()].push(kind_of::<B>()) =~= seq![kind_of::<A>(), kind_of::<B>()]);
        lemma_fixed_part_len_push(seq![kind_of::<A>(), kind_of::<B>()], kind_of::<C>());
        assert(seq![kind_of::<A>(), kind_of::<B>()].push(kind_of::<C>()) =~= seq![kind_of::<A>(), kind_of::<B>(), kind_of::<C>()]);
        lemma_fixed_part_len_push(seq![kind_of::<A>(), kind_of::<B>(), kind_of::<C>()], kind_of::<D>());
        assert(seq![kind_of::<A>(), kind_of::<B>(), kind_of::<C>()].push(kind_of::<D>()) =~= seq![kind_of::<A>(), kind_of::<B>(), kind_of::<C>(), kind_of::<D>()]);
        lemma_fixed_part_len_push(seq![kind_of::<A>(), kind_of::<B>(), kind_of::<C>(), kind_of::<D>()], kind_of::<E>());
        assert(seq![kind_of::<A>(), kind_of::<B>(), kind_of::<C>(), kind_of::<D>()].push(kind_of::<E>()) =~= seq![kind_of::<A>(), kind_of::<B>(), kind_of::<C>(), kind_of::<D>(), kind_of::<E>()]);
        if Self::spec_is_fixed_len() {
            assert(!has_variable(ks)) by {
                assert(ks[0] is Fixed && ks[1] is Fixed && ks[2] is Fixed && ks[3] is Fixed && ks[4] is Fixed);
            }
        }
    }
}

impl<A: Decode, B: Decode, C: Decode, D: Decode, E: Decode, F: Decode> Decode for (A, B, C, D, E, F) {
    open spec fn spec_is_fixed_len() -> bool {
        A::spec_is_fixed_len() && B::spec_is_fixed_len() && C::spec_is_fixed_len() && D::spec_is_fixed_len() && E::spec_is_fixed_len() && F::spec_is_fixed_len()
    }

    open spec fn spec_fixed_len() -> usize {
        if Self::spec_is_fixed_len() {
            clamp(A::spec_fixed_len() + B::spec_fixed_len() + C::spec_fixed_len() + D::spec_fixed_len() + E::spec_fixed_len() + F::spec_fixed_len())
        } else {
            4
        }
    }

    open spec fn spec_decode(bytes: Seq<u8>) -> Result<(A, B, C, D, E, F), DecodeError> {
        match spec_build(bytes, seq![kind_of::<A>(), kind_of::<B>(), kind_of::<C>(), kind_of::<D>(), kind_of::<E>(), kind_of::<F>()]) {
            Err(e) => Err(e),
            Ok(rs) => match A::spec_decode(range_bytes(bytes, rs[0])) { Err(e) => Err(e), Ok(v0) => match B::spec_decode(range_bytes(bytes, rs[1])) { Err(e) => Err(e), Ok(v1) => match C::spec_decode(range_bytes(bytes, rs[2])) { Err(e) => Err(e), Ok(v2) => match D::spec_decode(range_bytes(bytes, rs[3])) { Err(e) => Err(e), Ok(v3) => match E::spec_decode(range_bytes(bytes, rs[4])) { Err(e) => Err(e), Ok(v4) => match F::spec_decode(range_bytes(bytes, rs[5])) { Err(e) => Err(e), Ok(v5) => Ok((v0, v1, v2, v3, v4, v5)) } } } } } },
        }
    }

    fn is_ssz_fixed_len() -> (r: bool) {
        A::is_ssz_fixed_len() && B::is_ssz_fixed_len() && C::is_ssz_fixed_len() && D::is_ssz_fixed_len() && E::is_ssz_fixed_len() && F::is_ssz_fixed_len()
    }

    fn ssz_fixed_len() -> (r: usize) {
        if A::is_ssz_fixed_len() && B::is_ssz_fixed_len() && C::is_ssz_fixed_len() && D::is_ssz_fixed_len() && E::is_ssz_fixed_len() && F::is_ssz_fixed_len() {
            A::ssz_fixed_len().saturating_add(B::ssz_fixed_len()).saturating_add(C::ssz_fixed_len()).saturating_add(D::ssz_fixed_len()).saturating_add(E::ssz_fixed_len()).saturating_add(F::ssz_fixed_len())
        } else {
            4
        }
    }

    fn from_ssz_bytes(bytes: &[u8]) -> (r: Result<(A, B, C, D, E, F), DecodeError>) {
        let mut builder = SszDecoderBuilder::new(bytes);
        builder.register_type::<A>();
        builder.register_type::<B>();
        builder.register_type::<C>();
        builder.register_type::<D>();
        builder.register_type::<E>();
        builder.register_type::<F>();
        assert(builder.kinds@ =~= seq![kind_of::<A>(), kind_of::<B>(), kind_of::<C>(), kind_of::<D>(), kind_of::<E>(), kind_of::<F>()]);
        let mut decoder = match builder.build() {
            Ok(d) => d,
            Err(e) => return Err(e),
        };
        let v0 = match decoder.decode_next::<A>() {
            Ok(v) => v,
            Err(e) => return Err(e),
        };
        let v1 = match decoder.decode_next::<B>() {
            Ok(v) => v,
            Err(e) => return Err(e),
        };
        let v2 = match decoder.decode_next::<C>() {
            Ok(v) => v,
            Err(e) => return Err(e),
        };
        let v3 = match decoder.decode_next::<D>() {
            Ok(v) => v,
            Err(e) => return Err(e),
        };
        let v4 = match decoder.decode_next::<E>() {
            Ok(v) => v,
            Err(e) => return Err(e),
        };
        let v5 = match decoder.decode_next::<F>() {
            Ok(v) => v,
            Err(e) => return Err(e),
        };
        Ok((v0, v1, v2, v3, v4, v5))
    }

    proof fn lemma_fixed_len_consistency(bytes: Seq<u8>) {
        let ks = seq![kind_of::<A>(), kind_of::<B>(), kind_of::<C>(), kind_of::<D>(), kind_of::<E>(), kind_of::<F>()];
        assert(fixed_part_len(Seq::<FieldKind>::empty()) == 0);
        lemma_fixed_part_len_push(Seq::<FieldKind>::empty(), kind_of::<A>());
        assert(Seq::<FieldKind>::empty().push(kind_of::<A>()) =~= seq![kind_of::<A>()]);
        lemma_fixed_part_len_push(seq![kind_of::<A>()], kind_of::<B>());
        assert(seq![kind_of::<A>()].push(kind_of::<B>()) =~= seq![kind_of::<A>(), kind_of::<B>()]);
        lemma_fixed_part_len_push(seq![kind_of::<A>(), kind_of::<B>()], kind_of::<C>());
        assert(seq![kind_of::<A>(), kind_of::<B>()].push(kind_of::<C>()) =~= seq![kind_of::<A>(), kind_of::<B>(), kind_of::<C>()]);
        lemma_fixed_part_len_push(seq![kind_of::<A>(), kind_of::<B>(), kind_of::<C>()], kind_of::<D>());
        assert(seq![kind_of::<A>(), kind_of::<B>(), kind_of::<C>()].push(kind_of::<D>()) =~= seq![kind_of::<A>(), kind_of::<B>(), kind_of::<C>(), kind_of::<D>()]);
        lemma_fixed_part_len_push(seq![kind_of::<A>(), kind_of::<B>(), kind_of::<C>(), kind_of::<D>()], kind_of::<E>());
        assert(seq![kind_of::<A>(), kind_of::<B>(), kind_of::<C>(), kind_of::<D>()].push(kind_of::<E>()) =~= seq![kind_of::<A>(), kind_of::<B>(), kind_of::<C>(), kind_of::<D>(), kind_of::<E>()]);
        lemma_fixed_part_len_push(seq![kind_of::<A>(), kind_of::<B>(), kind_of::<C>(), kind_of::<D>(), kind_of::<E>()], kind_of::<F>());
        assert(seq![kind_of::<A>(), kind_of::<B>(), kind_of::<C>(), kind_of::<D>(), kind_of::<E>()].push(kind_of::<F>()) =~= seq![kind_of::<A>(), kind_of::<B>(), kind_of::<C>(), kind_of::<D>(), kind_of::<E>(), kind_of::<F>()]);
        lemma_all_fixed_build(bytes, ks);
    }
}

impl<A: Decode, B: Decode, C: Decode, D: Decode, E: Decode, F: Decode, G: Decode> Decode for (A, B, C, D, E, F, G) {
    open spec fn spec_is_fixed_len() -> bool {
        A::spec_is_fixed_len() && B::spec_is_fixed_len() && C::spec_is_fixed_len() && D::spec_is_fixed_len() && E::spec_is_fixed_len() && F::spec_is_fixed_len() && G::spec_is_fixed_len()
    }

    open spec fn spec_fixed_len() -> usize {
        if Self::spec_is_fixed_len() {
            clamp(A::spec_fixed_len() + B::spec_fixed_len() + C::spec_fixed_len() + D::spec_fixed_len() + E::spec_fixed_len() + F::spec_fixed_len() + G::spec_fixed_len())
        } else {
            4
        }
    }

    open spec fn spec_decode(bytes: Seq<u8>) -> Result<(A, B, C, D, E, F, G), DecodeError> {
        match spec_build(bytes, seq![kind_of::<A>(), kind_of::<B>(), kind_of::<C>(), kind_of::<D>(), kind_of::<E>(), kind_of::<F>(), kind_of::<G>()]) {
            Err(e) => Err(e),
            Ok(rs) => match A::spec_decode(range_bytes(bytes, rs[0])) { Err(e) => Err(e), Ok(v0) => match B::spec_decode(range_bytes(bytes, rs[1])) { Err(e) => Err(e), Ok(v1) => match C::spec_decode(range_bytes(bytes, rs[2])) { Err(e) => Err(e), Ok(v2) => match D::spec_decode(range_bytes(bytes, rs[3])) { Err(e) => Err(e), Ok(v3) => match E::spec_decode(range_bytes(bytes, rs[4])) { Err(e) => Err(e), Ok(v4) => match F::spec_decode(range_bytes(bytes, rs[5])) { Err(e) => Err(e), Ok(v5) => match G::spec_decode(range_bytes(bytes, rs[6])) { Err(e) => Err(e), Ok(v6) => Ok((v0, v1, v2, v3, v4, v5, v6)) } } } } } } },
        }
    }

    fn is_ssz_fixed_len() -> (r: bool) {
        A::is_ssz_fixed_len() && B::is_ssz_fixed_len() && C::is_ssz_fixed_len() && D::is_ssz_fixed_len() && E::is_ssz_fixed_len() && F::is_ssz_fixed_len() && G::is_ssz_fixed_len()
    }

    fn ssz_fixed_len() -> (r: usize) {
        if A::is_ssz_fixed_len() && B::is_ssz_fixed_len() && C::is_ssz_fixed_len() && D::is_ssz_fixed_len() && E::is_ssz_fixed_len() && F::is_ssz_fixed_len() && G::is_ssz_fixed_len() {
            A::ssz_fixed_len().saturating_add(B::ssz_fixed_len()).saturating_add(C::ssz_fixed_len()).saturating_add(D::ssz_fixed_len()).saturating_add(E::ssz_fixed_len()).saturating_add(F::ssz_fixed_len()).saturating_add(G::ssz_fixed_len())
        } else {
            4
        }
    }

    fn from_ssz_bytes(bytes: &[u8]) -> (r: Result<(A, B, C, D, E, F, G), DecodeError>) {
        let mut builder = SszDecoderBuilder::new(bytes);
        builder.register_type::<A>();
        builder.register_type::<B>();
        builder.register_type::<C>();
        builder.register_type::<D>();
        builder.register_type::<E>();
        builder.register_type::<F>();
        builder.register_type::<G>();
        assert(builder.kinds@ =~= seq![kind_of::<A>(), kind_of::<B>(), kind_of::<C>(), kind_of::<D>(), kind_of::<E>(), kind_of::<F>(), kind_of::<G>()]);
        let mut decoder = match builder.build() {
            Ok(d) => d,
            Err(e) => return Err(e),
        };
        let v0 = match decoder.decode_next::<A>() {
            Ok(v) => v,
            Err(e) => return Err(e),
        };
        let v1 = match decoder.decode_next::<B>() {
            Ok(v) => v,
            Err(e) => return Err(e),
        };
        let v2 = match decoder.decode_next::<C>() {
            Ok(v) => v,
            Err(e) => return Err(e),
        };
        let v3 = match decoder.decode_next::<D>() {
            Ok(v) => v,
            Err(e) => return Err(e),
        };
        let v4 = match decoder.decode_next::<E>() {
            Ok(v) => v,
            Err(e) => return Err(e),
        };
        let v5 = match decoder.decode_next::<F>() {
            Ok(v) => v,
            Err(e) => return Err(e),
        };
        let v6 = match decoder.decode_next::<G>() {
            Ok(v) => v,
            Err(e) => return Err(e),
        };
        Ok((v0, v1, v2, v3, v4, v5, v6))
    }

    proof fn lemma_fixed_len_consistency(bytes: Seq<u8>) {
        let ks = seq![kind_of::<A>(), kind_of::<B>(), kind_of::<C>(), kind_of::<D>(), kind_of::<E>(), kind_of::<F>(), kind_of::<G>()];
        assert(fixed_part_len(Seq::<FieldKind>::empty()) == 0);
        lemma_fixed_part_len_push(Seq::<FieldKind>::empty(), kind_of::<A>());
        assert(Seq::<FieldKind>::empty().push(kind_of::<A>()) =~= seq![kind_of::<A>()]);
        lemma_fixed_part_len_push(seq![kind_of::<A>()], kind_of::<B>());
        assert(seq![kind_of::<A>()].push(kind_of::<B>()) =~= seq![kind_of::<A>(), kind_of::<B>()]);
        lemma_fixed_part_len_push(seq![kind_of::<A>(), kind_of::<B>()], kind_of::<C>());
        assert(seq![kind_of::<A>(), kind_of::<B>()].push(kind_of::<C>()) =~= seq![kind_of::<A>(), kind_of::<B>(), kind_of::<C>()]);
        lemma_fixed_part_len_push(seq![kind_of::<A>(), kind_of::<B>(), kind_of::<C>()], kind_of::<D>());
        assert(seq![kind_of::<A>(), kind_of::<B>(), kind_of::<C>()].push(kind_of::<D>()) =~= seq![kind_of::<A>(), kind_of::<B>(), kind_of::<C>(), kind_of::<D>()]);
        lemma_fixed_part_len_push(seq![kind_of::<A>(), kind_of::<B>(), kind_of::<C>(), kind_of::<D>()], kind_of::<E>());
        assert(seq![kind_of::<A>(), kind_of::<B>(), kind_of::<C>(), kind_of::<D>()].push(kind_of::<E>()) =~= seq![kind_of::<A>(), kind_of::<B>(), kind_of::<C>(), kind_of::<D>(), kind_of::<E>()]);
        lemma_fixed_part_len_push(seq![kind_of::<A>(), kind_of::<B>(), kind_of::<C>(), kind_of::<D>(), kind_of::<E>()], kind_of::<F>());
        assert(seq![kind_of::<A>(), kind_of::<B>(), kind_of::<C>(), kind_of::<D>(), kind_of::<E>()].push(kind_of::<F>()) =~= seq![kind_of::<A>(), kind_of::<B>(), kind_of::<C>(), kind_of::<D>(), kind_of::<E>(), kind_of::<F>()]);
        lemma_fixed_part_len_push(seq![kind_of::<A>(), kind_of::<B>(), kind_of::<C>(), kind_of::<D>(), kind_of::<E>(), kind_of::<F>()], kind_of::<G>());
        assert(seq![kind_of::<A>(), kind_of::<B>(), kind_of::<C>(), kind_of::<D>(), kind_of::<E>(), kind_of::<F>()].push(kind_of::<G>()) =~= seq![kind_of::<A>(), kind_of::<B>(), kind_of::<C>(), kind_of::<D>(), kind_of::<E>(), kind_of::<F>(), kind_of::<G>()]);
        lemma_all_fixed_build(bytes, ks);
    }
}

impl<A: Decode, B: Decode, C: Decode, D: Decode, E: Decode, F: Decode, G: Decode, H: Decode> Decode for (A, B, C, D, E, F, G, H) {
    open spec fn spec_is_fixed_len() -> bool {
        A::spec_is_fixed_len() && B::spec_is_fixed_len() && C::spec_is_fixed_len() && D::spec_is_fixed_len() && E::spec_is_fixed_len() && F::spec_is_fixed_len() && G::spec_is_fixed_len() && H::spec_is_fixed_len()
    }

    open spec fn spec_fixed_len() -> usize {
        if Self::spec_is_fixed_len() {
            clamp(A::spec_fixed_len() + B::spec_fixed_len() + C::spec_fixed_len() + D::spec_fixed_len() + E::spec_fixed_len() + F::spec_fixed_len() + G::spec_fixed_len() + H::spec_fixed_len())
        } else {
            4
        }
    }

    open spec fn spec_decode(bytes: Seq<u8>) -> Result<(A, B, C, D, E, F, G, H), DecodeError> {
        match spec_build(bytes, seq![kind_of::<A>(), kind_of::<B>(), kind_of::<C>(), kind_of::<D>(), kind_of::<E>(), kind_of::<F>(), kind_of::<G>(), kind_of::<H>()]) {
            Err(e) => Err(e),
            Ok(rs) => match A::spec_decode(range_bytes(bytes, rs[0])) { Err(e) => Err(e), Ok(v0) => match B::spec_decode(range_bytes(bytes, rs[1])) { Err(e) => Err(e), Ok(v1) => match C::spec_decode(range_bytes(bytes, rs[2])) { Err(e) => Err(e), Ok(v2) => match D::spec_decode(range_bytes(bytes, rs[3])) { Err(e) => Err(e), Ok(v3) => match E::spec_decode(range_bytes(bytes, rs[4])) { Err(e) => Err(e), Ok(v4) => match F::spec_decode(range_bytes(bytes, rs[5])) { Err(e) => Err(e), Ok(v5) => match G::spec_decode(range_bytes(bytes, rs[6])) { Err(e) => Err(e), Ok(v6) => match H::spec_decode(range_bytes(bytes, rs[7])) { Err(e) => Err(e), Ok(v7) => Ok((v0, v1, v2, v3, v4, v5, v6, v7)) } } } } } } } },
        }
    }

    fn is_ssz_fixed_len() -> (r: bool) {
        A::is_ssz_fixed_len() && B::is_ssz_fixed_len() && C::is_ssz_fixed_len() && D::is_ssz_fixed_len() && E::is_ssz_fixed_len() && F::is_ssz_fixed_len() && G::is_ssz_fixed_len() && H::is_ssz_fixed_len()
    }

    fn ssz_fixed_len() -> (r: usize) {
        if A::is_ssz_fixed_len() && B::is_ssz_fixed_len() && C::is_ssz_fixed_len() && D::is_ssz_fixed_len() && E::is_ssz_fixed_len() && F::is_ssz_fixed_len() && G::is_ssz_fixed_len() && H::is_ssz_fixed_len() {
            A::ssz_fixed_len().saturating_add(B::ssz_fixed_len()).saturating_add(C::ssz_fixed_len()).saturating_add(D::ssz_fixed_len()).saturating_add(E::ssz_fixed_len()).saturating_add(F::ssz_fixed_len()).saturating_add(G::ssz_fixed_len()).saturating_add(H::ssz_fixed_len())
        } else {
            4
        }
    }

    fn from_ssz_bytes(bytes: &[u8]) -> (r: Result<(A, B, C, D, E, F, G, H), DecodeError>) {
        let mut builder = SszDecoderBuilder::new(bytes);
        builder.register_type::<A>();
        builder.register_type::<B>();
        builder.register_type::<C>();
        builder.register_type::<D>();
        builder.register_type::<E>();
        builder.register_type::<F>();
        builder.register_type::<G>();
        builder.register_type::<H>();
        assert(builder.kinds@ =~= seq![kind_of::<A>(), kind_of::<B>(), kind_of::<C>(), kind_of::<D>(), kind_of::<E>(), kind_of::<F>(), kind_of::<G>(), kind_of::<H>()]);
        let mut decoder = match builder.build() {
            Ok(d) => d,
            Err(e) => return Err(e),
        };
        let v0 = match decoder.decode_next::<A>() {
            Ok(v) => v,
            Err(e) => return Err(e),
        };
        let v1 = match decoder.decode_next::<B>() {
            Ok(v) => v,
            Err(e) => return Err(e),
        };
        let v2 = match decoder.decode_next::<C>() {
            Ok(v) => v,
            Err(e) => return Err(e),
        };
        let v3 = match decoder.decode_next::<D>() {
            Ok(v) => v,
            Err(e) => return Err(e),
        };
        let v4 = match decoder.decode_next::<E>() {
            Ok(v) => v,
            Err(e) => return Err(e),
        };
        let v5 = match decoder.decode_next::<F>() {
            Ok(v) => v,
            Err(e) => return Err(e),
        };
        let v6 = match decoder.decode_next::<G>() {
            Ok(v) => v,
            Err(e) => return Err(e),
        };
        let v7 = match decoder.decode_next::<H>() {
            Ok(v) => v,
            Err(e) => return Err(e),
        };
        Ok((v0, v1, v2, v3, v4, v5, v6, v7))
    }

    proof fn lemma_fixed_len_consistency(bytes: Seq<u8>) {
        let ks = seq![kind_of::<A>(), kind_of::<B>(), kind_of::<C>(), kind_of::<D>(), kind_of::<E>(), kind_of::<F>(), kind_of::<G>(), kind_of::<H>()];
        assert(fixed_part_len(Seq::<FieldKind>::empty()) == 0);
        lemma_fixed_part_len_push(Seq::<FieldKind>::empty(), kind_of::<A>());
        assert(Seq::<FieldKind>::empty().push(kind_of::<A>()) =~= seq![kind_of::<A>()]);
        lemma_fixed_part_len_push(seq![kind_of::<A>()], kind_of::<B>());
        assert(seq![kind_of::<A>()].push(kind_of::<B>()) =~= seq![kind_of::<A>(), kind_of::<B>()]);
        lemma_fixed_part_len_push(seq![kind_of::<A>(), kind_of::<B>()], kind_of::<C>());
        assert(seq![kind_of::<A>(), kind_of::<B>()].push(kind_of::<C>()) =~= seq![kind_of::<A>(), kind_of::<B>(), kind_of::<C>()]);
        lemma_fixed_part_len_push(seq![kind_of::<A>(), kind_of::<B>(), kind_of::<C>()], kind_of::<D>());
        assert(seq![kind_of::<A>(), kind_of::<B>(), kind_of::<C>()].push(kind_of::<D>()) =~= seq![kind_of::<A>(), kind_of::<B>(), kind_of::<C>(), kind_of::<D>()]);
        lemma_fixed_part_len_push(seq![kind_of::<A>(), kind_of::<B>(), kind_of::<C>(), kind_of::<D>()], kind_of::<E>());
        assert(seq![kind_of::<A>(), kind_of::<B>(), kind_of::<C>(), kind_of::<D>()].push(kind_of::<E>()) =~= seq![kind_of::<A>(), kind_of::<B>(), kind_of::<C>(), kind_of::<D>(), kind_of::<E>()]);
        lemma_fixed_part_len_push(seq![kind_of::<A>(), kind_of::<B>(), kind_of::<C>(), kind_of::<D>(), kind_of::<E>()], kind_of::<F>());
        assert(seq![kind_of::<A>(), kind_of::<B>(), kind_of::<C>(), kind_of::<D>(), kind_of::<E>()].push(kind_of::<F>()) =~= seq![kind_of::<A>(), kind_of::<B>(), kind_of::<C>(), kind_of::<D>(), kind_of::<E>(), kind_of::<F>()]);
        lemma_fixed_part_len_push(seq![kind_of::<A>(), kind_of::<B>(), kind_of::<C>(), kind_of::<D>(), kind_of::<E>(), kind_of::<F>()], kind_of::<G>());
        assert(seq![kind_of::<A>(), kind_of::<B>(), kind_of::<C>(), kind_of::<D>(), kind_of::<E>(), kind_of::<F>()].push(kind_of::<G>()) =~= seq![kind_of::<A>(), kind_of::<B>(), kind_of::<C>(), kind_of::<D>(), kind_of::<E>(), kind_of::<F>(), kind_of::<G>()]);
        lemma_fixed_part_len_push(seq![kind_of::<A>(), kind_of::<B>(), kind_of::<C>(), kind_of::<D>(), kind_of::<E>(), kind_of::<F>(), kind_of::<G>()], kind_of::<H>());
        assert(seq![kind_of::<A>(), kind_of::<B>(), kind_of::<C>(), kind_of::<D>(), kind_of::<E>(), kind_of::<F>(), kind_of::<G>()].push(kind_of::<H>()) =~= seq![kind_of::<A>(), kind_of::<B>(), kind_of::<C>(), kind_of::<D>(), kind_of::<E>(), kind_of::<F>(), kind_of::<G>(), kind_of::<H>()]);
        lemma_all_fixed_build(bytes, ks);
    }
}

impl<A: Decode, B: Decode, C: Decode, D: Decode, E: Decode, F: Decode, G: Decode, H: Decode, I: Decode> Decode for (A, B, C, D, E, F, G, H, I) {
    open spec fn spec_is_fixed_len() -> bool {
        A::spec_is_fixed_len() && B::spec_is_fixed_len() && C::spec_is_fixed_len() && D::spec_is_fixed_len() && E::spec_is_fixed_len() && F::spec_is_fixed_len() && G::spec_is_fixed_len() && H::spec_is_fixed_len() && I::spec_is_fixed_len()
    }

    open spec fn spec_fixed_len() -> usize {
        if Self::spec_is_fixed_len() {
            clamp(A::spec_fixed_len() + B::spec_fixed_len() + C::spec_fixed_len() + D::spec_fixed_len() + E::spec_fixed_len() + F::spec_fixed_len() + G::spec_fixed_len() + H::spec_fixed_len() + I::spec_fixed_len())
        } else {
            4
        }
    }

    open spec fn spec_decode(bytes: Seq<u8>) -> Result<(A, B, C, D, E, F, G, H, I), DecodeError> {
        match spec_build(bytes, seq![kind_of::<A>(), kind_of::<B>(), kind_of::<C>(), kind_of::<D>(), kind_of::<E>(), kind_of::<F>(), kind_of::<G>(), kind_of::<H>(), kind_of::<I>()]) {
            Err(e) => Err(e),
            Ok(rs) => match A::spec_decode(range_bytes(bytes, rs[0])) { Err(e) => Err(e), Ok(v0) => match B::spec_decode(range_bytes(bytes, rs[1])) { Err(e) => Err(e), Ok(v1) => match C::spec_decode(range_bytes(bytes, rs[2])) { Err(e) => Err(e), Ok(v2) => match D::spec_decode(range_bytes(bytes, rs[3])) { Err(e) => Err(e), Ok(v3) => match E::spec_decode(range_bytes(bytes, rs[4])) { Err(e) => Err(e), Ok(v4) => match F::spec_decode(range_bytes(bytes, rs[5])) { Err(e) => Err(e), Ok(v5) => match G::spec_decode(range_bytes(bytes, rs[6])) { Err(e) => Err(e), Ok(v6) => match H::spec_decode(range_bytes(bytes, rs[7])) { Err(e) => Err(e), Ok(v7) => match I::spec_decode(range_bytes(bytes, rs[8])) { Err(e) => Err(e), Ok(v8) => Ok((v0, v1, v2, v3, v4, v5, v6, v7, v8)) } } } } } } } } },
        }
    }

    fn is_ssz_fixed_len() -> (r: bool) {
        A::is_ssz_fixed_len() && B::is_ssz_fixed_len() && C::is_ssz_fixed_len() && D::is_ssz_fixed_len() && E::is_ssz_fixed_len() && F::is_ssz_fixed_len() && G::is_ssz_fixed_len() && H::is_ssz_fixed_len() && I::is_ssz_fixed_len()
    }

    fn ssz_fixed_len() -> (r: usize) {
        if A::is_ssz_fixed_len() && B::is_ssz_fixed_len() && C::is_ssz_fixed_len() && D::is_ssz_fixed_len() && E::is_ssz_fixed_len() && F::is_ssz_fixed_len() && G::is_ssz_fixed_len() && H::is_ssz_fixed_len() && I::is_ssz_fixed_len() {
            A::ssz_fixed_len().saturating_add(B::ssz_fixed_len()).saturating_add(C::ssz_fixed_len()).saturating_add(D::ssz_fixed_len()).saturating_add(E::ssz_fixed_len()).saturating_add(F::ssz_fixed_len()).saturating_add(G::ssz_fixed_len()).saturating_add(H::ssz_fixed_len()).saturating_add(I::ssz_fixed_len())
        } else {
            4
        }
    }

    fn from_ssz_bytes(bytes: &[u8]) -> (r: Result<(A, B, C, D, E, F, G, H, I), DecodeError>) {
        let mut builder = SszDecoderBuilder::new(bytes);
        builder.register_type::<A>();
        builder.register_type::<B>();
        builder.register_type::<C>();
        builder.register_type::<D>();
        builder.register_type::<E>();
        builder.register_type::<F>();
        builder.register_type::<G>();
        builder.register_type::<H>();
        builder.register_type::<I>();
        assert(builder.kinds@ =~= seq![kind_of::<A>(), kind_of::<B>(), kind_of::<C>(), kind_of::<D>(), kind_of::<E>(), kind_of::<F>(), kind_of::<G>(), kind_of::<H>(), kind_of::<I>()]);
        let mut decoder = match builder.build() {
            Ok(d) => d,
            Err(e) => return Err(e),
        };
        let v0 = match decoder.decode_next::<A>() {
            Ok(v) => v,
            Err(e) => return Err(e),
        };
        let v1 = match decoder.decode_next::<B>() {
            Ok(v) => v,
            Err(e) => return Err(e),
        };
        let v2 = match decoder.decode_next::<C>() {
            Ok(v) => v,
            Err(e) => return Err(e),
        };
        let v3 = match decoder.decode_next::<D>() {
            Ok(v) => v,
            Err(e) => return Err(e),
        };
        let v4 = match decoder.decode_next::<E>() {
            Ok(v) => v,
            Err(e) => return Err(e),
        };
        let v5 = match decoder.decode_next::<F>() {
            Ok(v) => v,
            Err(e) => return Err(e),
        };
        let v6 = match decoder.decode_next::<G>() {
            Ok(v) => v,
            Err(e) => return Err(e),
        };
        let v7 = match decoder.decode_next::<H>() {
            Ok(v) => v,
            Err(e) => return Err(e),
        };
        let v8 = match decoder.decode_next::<I>() {
            Ok(v) => v,
            Err(e) => return Err(e),
        };
        Ok((v0, v1, v2, v3, v4, v5, v6, v7, v8))
    }

    proof fn lemma_fixed_len_consistency(bytes: Seq<u8>) {
        let ks = seq![kind_of::<A>(), kind_of::<B>(), kind_of::<C>(), kind_of::<D>(), kind_of::<E>(), kind_of::<F>(), kind_of::<G>(), kind_of::<H>(), kind_of::<I>()];
        assert(fixed_part_len(Seq::<FieldKind>::empty()) == 0);
        lemma_fixed_part_len_push(Seq::<FieldKind>::empty(), kind_of::<A>());
        assert(Seq::<FieldKind>::empty().push(kind_of::<A>()) =~= seq![kind_of::<A>()]);
        lemma_fixed_part_len_push(seq![kind_of::<A>()], kind_of::<B>());
        assert(seq![kind_of::<A>()].push(kind_of::<B>()) =~= seq![kind_of::<A>(), kind_of::<B>()]);
        lemma_fixed_part_len_push(seq![kind_of::<A>(), kind_of::<B>()], kind_of::<C>());
        assert(seq![kind_of::<A>(), kind_of::<B>()].push(kind_of::<C>()) =~= seq![kind_of::<A>(), kind_of::<B>(), kind_of::<C>()]);
        lemma_fixed_part_len_push(seq![kind_of::<A>(), kind_of::<B>(), kind_of::<C>()], kind_of::<D>());
        assert(seq![kind_of::<A>(), kind_of::<B>(), kind_of::<C>()].push(kind_of::<D>()) =~= seq![kind_of::<A>(), kind_of::<B>(), kind_of::<C>(), kind_of::<D>()]);
        lemma_fixed_part_len_push(seq![kind_of::<A>(), kind_of::<B>(), kind_of::<C>(), kind_of::<D>()], kind_of::<E>());
        assert(seq![kind_of::<A>(), kind_of::<B>(), kind_of::<C>(), kind_of::<D>()].push(kind_of::<E>()) =~= seq![kind_of::<A>(), kind_of::<B>(), kind_of::<C>(), kind_of::<D>(), kind_of::<E>()]);
        lemma_fixed_part_len_push(seq![kind_of::<A>(), kind_of::<B>(), kind_of::<C>(), kind_of::<D>(), kind_of::<E>()], kind_of::<F>());
        assert(seq![kind_of::<A>(), kind_of::<B>(), kind_of::<C>(), kind_of::<D>(), kind_of::<E>()].push(kind_of::<F>()) =~= seq![kind_of::<A>(), kind_of::<B>(), kind_of::<C>(), kind_of::<D>(), kind_of::<E>(), kind_of::<F>()]);
        lemma_fixed_part_len_push(seq![kind_of::<A>(), kind_of::<B>(), kind_of::<C>(), kind_of::<D>(), kind_of::<E>(), kind_of::<F>()], kind_of::<G>());
        assert(seq![kind_of::<A>(), kind_of::<B>(), kind_of::<C>(), kind_of::<D>(), kind_of::<E>(), kind_of::<F>()].push(kind_of::<G>()) =~= seq![kind_of::<A>(), kind_of::<B>(), kind_of::<C>(), kind_of::<D>(), kind_of::<E>(), kind_of::<F>(), kind_of::<G>()]);
        lemma_fixed_part_len_push(seq![kind_of::<A>(), kind_of::<B>(), kind_of::<C>(), kind_of::<D>(), kind_of::<E>(), kind_of::<F>(), kind_of::<G>()], kind_of::<H>());
        assert(seq![kind_of::<A>(), kind_of::<B>(), kind_of::<C>(), kind_of::<D>(), kind_of::<E>(), kind_of::<F>(), kind_of::<G>()].push(kind_of::<H>()) =~= seq![kind_of::<A>(), kind_of::<B>(), kind_of::<C>(), kind_of::<D>(), kind_of::<E>(), kind_of::<F>(), kind_of::<G>(), kind_of::<H>()]);
        lemma_fixed_part_len_push(seq![kind_of::<A>(), kind_of::<B>(), kind_of::<C>(), kind_of::<D>(), kind_of::<E>(), kind_of::<F>(), kind_of::<G>(), kind_of::<H>()], kind_of::<I>());
        assert(seq![kind_of::<A>(), kind_of::<B>(), kind_of::<C>(), kind_of::<D>(), kind_of::<E>(), kind_of::<F>(), kind_of::<G>(), kind_of::<H>()].push(kind_of::<I>()) =~= seq![kind_of::<A>(), kind_of::<B>(), kind_of::<C>(), kind_of::<D>(), kind_of::<E>(), kind_of::<F>(), kind_of::<G>(), kind_of::<H>(), kind_of::<I>()]);
        lemma_all_fixed_build(bytes, ks);
    }
}

impl<A: Decode, B: Decode, C: Decode, D: Decode, E: Decode, F: Decode, G: Decode, H: Decode, I: Decode, J: Decode> Decode for (A, B, C, D, E, F, G, H, I, J) {
    open spec fn spec_is_fixed_len() -> bool {
        A::spec_is_fixed_len() && B::spec_is_fixed_len() && C::spec_is_fixed_len() && D::spec_is_fixed_len() && E::spec_is_fixed_len() && F::spec_is_fixed_len() && G::spec_is_fixed_len() && H::spec_is_fixed_len() && I::spec_is_fixed_len() && J::spec_is_fixed_len()
    }

    open spec fn spec_fixed_len() -> usize {
        if Self::spec_is_fixed_len() {
            clamp(A::spec_fixed_len() + B::spec_fixed_len() + C::spec_fixed_len() + D::spec_fixed_len() + E::spec_fixed_len() + F::spec_fixed_len() + G::spec_fixed_len() + H::spec_fixed_len() + I::spec_fixed_len() + J::spec_fixed_len())
        } else {
            4
        }
    }

    open spec fn spec_decode(bytes: Seq<u8>) -> Result<(A, B, C, D, E, F, G, H, I, J), DecodeError> {
        match spec_build(bytes, seq![kind_of::<A>(), kind_of::<B>(), kind_of::<C>(), kind_of::<D>(), kind_of::<E>(), kind_of::<F>(), kind_of::<G>(), kind_of::<H>(), kind_of::<I>(), kind_of::<J>()]) {
            Err(e) => Err(e),
            Ok(rs) => match A::spec_decode(range_bytes(bytes, rs[0])) { Err(e) => Err(e), Ok(v0) => match B::spec_decode(range_bytes(bytes, rs[1])) { Err(e) => Err(e), Ok(v1) => match C::spec_decode(range_bytes(bytes, rs[2])) { Err(e) => Err(e), Ok(v2) => match D::spec_decode(range_bytes(bytes, rs[3])) { Err(e) => Err(e), Ok(v3) => match E::spec_decode(range_bytes(bytes, rs[4])) { Err(e) => Err(e), Ok(v4) => match F::spec_decode(range_bytes(bytes, rs[5])) { Err(e) => Err(e), Ok(v5) => match G::spec_decode(range_bytes(bytes, rs[6])) { Err(e) => Err(e), Ok(v6) => match H::spec_decode(range_bytes(bytes, rs[7])) { Err(e) => Err(e), Ok(v7) => match I::spec_decode(range_bytes(bytes, rs[8])) { Err(e) => Err(e), Ok(v8) => match J::spec_decode(range_bytes(bytes, rs[9])) { Err(e) => Err(e), Ok(v9) => Ok((v0, v1, v2, v3, v4, v5, v6, v7, v8, v9)) } } } } } } } } } },
        }
    }

    fn is_ssz_fixed_len() -> (r: bool) {
        A::is_ssz_fixed_len() && B::is_ssz_fixed_len() && C::is_ssz_fixed_len() && D::is_ssz_fixed_len() && E::is_ssz_fixed_len() && F::is_ssz_fixed_len() && G::is_ssz_fixed_len() && H::is_ssz_fixed_len() && I::is_ssz_fixed_len() && J::is_ssz_fixed_len()
    }

    fn ssz_fixed_len() -> (r: usize) {
        if A::is_ssz_fixed_len() && B::is_ssz_fixed_len() && C::is_ssz_fixed_len() && D::is_ssz_fixed_len() && E::is_ssz_fixed_len() && F::is_ssz_fixed_len() && G::is_ssz_fixed_len() && H::is_ssz_fixed_len() && I::is_ssz_fixed_len() && J::is_ssz_fixed_len() {
            A::ssz_fixed_len().saturating_add(B::ssz_fixed_len()).saturating_add(C::ssz_fixed_len()).saturating_add(D::ssz_fixed_len()).saturating_add(E::ssz_fixed_len()).saturating_add(F::ssz_fixed_len()).saturating_add(G::ssz_fixed_len()).saturating_add(H::ssz_fixed_len()).saturating_add(I::ssz_fixed_len()).saturating_add(J::ssz_fixed_len())
        } else {
            4
        }
    }

    fn from_ssz_bytes(bytes: &[u8]) -> (r: Result<(A, B, C, D, E, F, G, H, I, J), DecodeError>) {
        let mut builder = SszDecoderBuilder::new(bytes);
        builder.register_type::<A>();
        builder.register_type::<B>();
        builder.register_type::<C>();
        builder.register_type::<D>();
        builder.register_type::<E>();
        builder.register_type::<F>();
        builder.register_type::<G>();
        builder.register_type::<H>();
        builder.register_type::<I>();
        builder.register_type::<J>();
        assert(builder.kinds@ =~= seq![kind_of::<A>(), kind_of::<B>(), kind_of::<C>(), kind_of::<D>(), kind_of::<E>(), kind_of::<F>(), kind_of::<G>(), kind_of::<H>(), kind_of::<I>(), kind_of::<J>()]);
        let mut decoder = match builder.build() {
            Ok(d) => d,
            Err(e) => return Err(e),
        };
        let v0 = match decoder.decode_next::<A>() {
            Ok(v) => v,
            Err(e) => return Err(e),
        };
        let v1 = match decoder.decode_next::<B>() {
            Ok(v) => v,
            Err(e) => return Err(e),
        };
        let v2 = match decoder.decode_next::<C>() {
            Ok(v) => v,
            Err(e) => return Err(e),
        };
        let v3 = match decoder.decode_next::<D>() {
            Ok(v) => v,
            Err(e) => return Err(e),
        };
        let v4 = match decoder.decode_next::<E>() {
            Ok(v) => v,
            Err(e) => return Err(e),
        };
        let v5 = match decoder.decode_next::<F>() {
            Ok(v) => v,
            Err(e) => return Err(e),
        };
        let v6 = match decoder.decode_next::<G>() {
            Ok(v) => v,
            Err(e) => return Err(e),
        };
        let v7 = match decoder.decode_next::<H>() {
            Ok(v) => v,
            Err(e) => return Err(e),
        };
        let v8 = match decoder.decode_next::<I>() {
            Ok(v) => v,
            Err(e) => return Err(e),
        };
        let v9 = match decoder.decode_next::<J>() {
            Ok(v) => v,
            Err(e) => return Err(e),
        };
        Ok((v0, v1, v2, v3, v4, v5, v6, v7, v8, v9))
    }

    proof fn lemma_fixed_len_consistency(bytes: Seq<u8>) {
        let ks = seq![kind_of::<A>(), kind_of::<B>(), kind_of::<C>(), kind_of::<D>(), kind_of::<E>(), kind_of::<F>(), kind_of::<G>(), kind_of::<H>(), kind_of::<I>(), kind_of::<J>()];
        assert(fixed_part_len(Seq::<FieldKind>::empty()) == 0);
        lemma_fixed_part_len_push(Seq::<FieldKind>::empty(), kind_of::<A>());
        assert(Seq::<FieldKind>::empty().push(kind_of::<A>()) =~= seq![kind_of::<A>()]);
        lemma_fixed_part_len_push(seq![kind_of::<A>()], kind_of::<B>());
        assert(seq![kind_of::<A>()].push(kind_of::<B>()) =~= seq![kind_of::<A>(), kind_of::<B>()]);
        lemma_fixed_part_len_push(seq![kind_of::<A>(), kind_of::<B>()], kind_of::<C>());
        assert(seq![kind_of::<A>(), kind_of::<B>()].push(kind_of::<C>()) =~= seq![kind_of::<A>(), kind_of::<B>(), kind_of::<C>()]);
        lemma_fixed_part_len_push(seq![kind_of::<A>(), kind_of::<B>(), kind_of::<C>()], kind_of::<D>());
        assert(seq![kind_of::<A>(), kind_of::<B>(), kind_of::<C>()].push(kind_of::<D>()) =~= seq![kind_of::<A>(), kind_of::<B>(), kind_of::<C>(), kind_of::<D>()]);
        lemma_fixed_part_len_push(seq![kind_of::<A>(), kind_of::<B>(), kind_of::<C>(), kind_of::<D>()], kind_of::<E>());
        assert(seq![kind_of::<A>(), kind_of::<B>(), kind_of::<C>(), kind_of::<D>()].push(kind_of::<E>()) =~= seq![kind_of::<A>(), kind_of::<B>(), kind_of::<C>(), kind_of::<D>(), kind_of::<E>()]);
        lemma_fixed_part_len_push(seq![kind_of::<A>(), kind_of::<B>(), kind_of::<C>(), kind_of::<D>(), kind_of::<E>()], kind_of::<F>());
        assert(seq![kind_of::<A>(), kind_of::<B>(), kind_of::<C>(), kind_of::<D>(), kind_of::<E>()].push(kind_of::<F>()) =~= seq![kind_of::<A>(), kind_of::<B>(), kind_of::<C>(), kind_of::<D>(), kind_of::<E>(), kind_of::<F>()]);
        lemma_fixed_part_len_push(seq![kind_of::<A>(), kind_of::<B>(), kind_of::<C>(), kind_of::<D>(), kind_of::<E>(), kind_of::<F>()], kind_of::<G>());
        assert(seq![kind_of::<A>(), kind_of::<B>(), kind_of::<C>(), kind_of::<D>(), kind_of::<E>(), kind_of::<F>()].push(kind_of::<G>()) =~= seq![kind_of::<A>(), kind_of::<B>(), kind_of::<C>(), kind_of::<D>(), kind_of::<E>(), kind_of::<F>(), kind_of::<G>()]);
        lemma_fixed_part_len_push(seq![kind_of::<A>(), kind_of::<B>(), kind_of::<C>(), kind_of::<D>(), kind_of::<E>(), kind_of::<F>(), kind_of::<G>()], kind_of::<H>());
        assert(seq![kind_of::<A>(), kind_of::<B>(), kind_of::<C>(), kind_of::<D>(), kind_of::<E>(), kind_of::<F>(), kind_of::<G>()].push(kind_of::<H>()) =~= seq![kind_of::<A>(), kind_of::<B>(), kind_of::<C>(), kind_of::<D>(), kind_of::<E>(), kind_of::<F>(), kind_of::<G>(), kind_of::<H>()]);
        lemma_fixed_part_len_push(seq![kind_of::<A>(), kind_of::<B>(), kind_of::<C>(), kind_of::<D>(), kind_of::<E>(), kind_of::<F>(), kind_of::<G>(), kind_of::<H>()], kind_of::<I>());
        assert(seq![kind_of::<A>(), kind_of::<B>(), kind_of::<C>(), kind_of::<D>(), kind_of::<E>(), kind_of::<F>(), kind_of::<G>(), kind_of::<H>()].push(kind_of::<I>()) =~= seq![kind_of::<A>(), kind_of::<B>(), kind_of::<C>(), kind_of::<D>(), kind_of::<E>(), kind_of::<F>(), kind_of::<G>(), kind_of::<H>(), kind_of::<I>()]);
        lemma_fixed_part_len_push(seq![kind_of::<A>(), kind_of::<B>(), kind_of::<C>(), kind_of::<D>(), kind_of::<E>(), kind_of::<F>(), kind_of::<G>(), kind_of::<H>(), kind_of::<I>()], kind_of::<J>());
        assert(seq![kind_of::<A>(), kind_of::<B>(), kind_of::<C>(), kind_of::<D>(), kind_of::<E>(), kind_of::<F>(), kind_of::<G>(), kind_of::<H>(), kind_of::<I>()].push(kind_of::<J>()) =~= seq![kind_of::<A>(), kind_of::<B>(), kind_of::<C>(), kind_of::<D>(), kind_of::<E>(), kind_of::<F>(), kind_of::<G>(), kind_of::<H>(), kind_of::<I>(), kind_of::<J>()]);
        lemma_all_fixed_build(bytes, ks);
    }
}

impl<A: Decode, B: Decode, C: Decode, D: Decode, E: Decode, F: Decode, G: Decode, H: Decode, I: Decode, J: Decode, K: Decode> Decode for (A, B, C, D, E, F, G, H, I, J, K) {
    open spec fn spec_is_fixed_len() -> bool {
        A::spec_is_fixed_len() && B::spec_is_fixed_len() && C::spec_is_fixed_len() && D::spec_is_fixed_len() && E::spec_is_fixed_len() && F::spec_is_fixed_len() && G::spec_is_fixed_len() && H::spec_is_fixed_len() && I::spec_is_fixed_len() && J::spec_is_fixed_len() && K::spec_is_fixed_len()
    }

    open spec fn spec_fixed_len() -> usize {
        if Self::spec_is_fixed_len() {
            clamp(A::spec_fixed_len() + B::spec_fixed_len() + C::spec_fixed_len() + D::spec_fixed_len() + E::spec_fixed_len() + F::spec_fixed_len() + G::spec_fixed_len() + H::spec_fixed_len() + I::spec_fixed_len() + J::spec_fixed_len() + K::spec_fixed_len())
        } else {
            4
        }
    }

    open spec fn spec_decode(bytes: Seq<u8>) -> Result<(A, B, C, D, E, F, G, H, I, J, K), DecodeError> {
        match spec_build(bytes, seq![kind_of::<A>(), kind_of::<B>(), kind_of::<C>(), kind_of::<D>(), kind_of::<E>(), kind_of::<F>(), kind_of::<G>(), kind_of::<H>(), kind_of::<I>(), kind_of::<J>(), kind_of::<K>()]) {
            Err(e) => Err(e),
            Ok(rs) => match A::spec_decode(range_bytes(bytes, rs[0])) { Err(e) => Err(e), Ok(v0) => match B::spec_decode(range_bytes(bytes, rs[1])) { Err(e) => Err(e), Ok(v1) => match C::spec_decode(range_bytes(bytes, rs[2])) { Err(e) => Err(e), Ok(v2) => match D::spec_decode(range_bytes(bytes, rs[3])) { Err(e) => Err(e), Ok(v3) => match E::spec_decode(range_bytes(bytes, rs[4])) { Err(e) => Err(e), Ok(v4) => match F::spec_decode(range_bytes(bytes, rs[5])) { Err(e) => Err(e), Ok(v5) => match G::spec_decode(range_bytes(bytes, rs[6])) { Err(e) => Err(e), Ok(v6) => match H::spec_decode(range_bytes(bytes, rs[7])) { Err(e) => Err(e), Ok(v7) => match I::spec_decode(range_bytes(bytes, rs[8])) { Err(e) => Err(e), Ok(v8) => match J::spec_decode(range_bytes(bytes, rs[9])) { Err(e) => Err(e), Ok(v9) => match K::spec_decode(range_bytes(bytes, rs[10])) { Err(e) => Err(e), Ok(v10) => Ok((v0, v1, v2, v3, v4, v5, v6, v7, v8, v9, v10)) } } } } } } } } } } },
        }
    }

    fn is_ssz_fixed_len() -> (r: bool) {
        A::is_ssz_fixed_len() && B::is_ssz_fixed_len() && C::is_ssz_fixed_len() && D::is_ssz_fixed_len() && E::is_ssz_fixed_len() && F::is_ssz_fixed_len() && G::is_ssz_fixed_len() && H::is_ssz_fixed_len() && I::is_ssz_fixed_len() && J::is_ssz_fixed_len() && K::is_ssz_fixed_len()
    }

    fn ssz_fixed_len() -> (r: usize) {
        if A::is_ssz_fixed_len() && B::is_ssz_fixed_len() && C::is_ssz_fixed_len() && D::is_ssz_fixed_len() && E::is_ssz_fixed_len() && F::is_ssz_fixed_len() && G::is_ssz_fixed_len() && H::is_ssz_fixed_len() && I::is_ssz_fixed_len() && J::is_ssz_fixed_len() && K::is_ssz_fixed_len() {
            A::ssz_fixed_len().saturating_add(B::ssz_fixed_len()).saturating_add(C::ssz_fixed_len()).saturating_add(D::ssz_fixed_len()).saturating_add(E::ssz_fixed_len()).saturating_add(F::ssz_fixed_len()).saturating_add(G::ssz_fixed_len()).saturating_add(H::ssz_fixed_len()).saturating_add(I::ssz_fixed_len()).saturating_add(J::ssz_fixed_len()).saturating_add(K::ssz_fixed_len())
        } else {
            4
        }
    }

    fn from_ssz_bytes(bytes: &[u8]) -> (r: Result<(A, B, C, D, E, F, G, H, I, J, K), DecodeError>) {
        let mut builder = SszDecoderBuilder::new(bytes);
        builder.register_type::<A>();
        builder.register_type::<B>();
        builder.register_type::<C>();
        builder.register_type::<D>();
        builder.register_type::<E>();
        builder.register_type::<F>();
        builder.register_type::<G>();
        builder.register_type::<H>();
        builder.register_type::<I>();
        builder.register_type::<J>();
        builder.register_type::<K>();
        assert(builder.kinds@ =~= seq![kind_of::<A>(), kind_of::<B>(), kind_of::<C>(), kind_of::<D>(), kind_of::<E>(), kind_of::<F>(), kind_of::<G>(), kind_of::<H>(), kind_of::<I>(), kind_of::<J>(), kind_of::<K>()]);
        let mut decoder = match builder.build() {
            Ok(d) => d,
            Err(e) => return Err(e),
        };
        let v0 = match decoder.decode_next::<A>() {
            Ok(v) => v,
            Err(e) => return Err(e),
        };
        let v1 = match decoder.decode_next::<B>() {
            Ok(v) => v,
            Err(e) => return Err(e),
        };
        let v2 = match decoder.decode_next::<C>() {
            Ok(v) => v,
            Err(e) => return Err(e),
        };
        let v3 = match decoder.decode_next::<D>() {
            Ok(v) => v,
            Err(e) => return Err(e),
        };
        let v4 = match decoder.decode_next::<E>() {
            Ok(v) => v,
            Err(e) => return Err(e),
        };
        let v5 = match decoder.decode_next::<F>() {
            Ok(v) => v,
            Err(e) => return Err(e),
        };
        let v6 = match decoder.decode_next::<G>() {
            Ok(v) => v,
            Err(e) => return Err(e),
        };
        let v7 = match decoder.decode_next::<H>() {
            Ok(v) => v,
            Err(e) => return Err(e),
        };
        let v8 = match decoder.decode_next::<I>() {
            Ok(v) => v,
            Err(e) => return Err(e),
        };
        let v9 = match decoder.decode_next::<J>() {
            Ok(v) => v,
            Err(e) => return Err(e),
        };
        let v10 = match decoder.decode_next::<K>() {
            Ok(v) => v,
            Err(e) => return Err(e),
        };
        Ok((v0, v1, v2, v3, v4, v5, v6, v7, v8, v9, v10))
    }

    proof fn lemma_fixed_len_consistency(bytes: Seq<u8>) {
        let ks = seq![kind_of::<A>(), kind_of::<B>(), kind_of::<C>(), kind_of::<D>(), kind_of::<E>(), kind_of::<F>(), kind_of::<G>(), kind_of::<H>(), kind_of::<I>(), kind_of::<J>(), kind_of::<K>()];
        assert(fixed_part_len(Seq::<FieldKind>::empty()) == 0);
        lemma_fixed_part_len_push(Seq::<FieldKind>::empty(), kind_of::<A>());
        assert(Seq::<FieldKind>::empty().push(kind_of::<A>()) =~= seq![kind_of::<A>()]);
        lemma_fixed_part_len_push(seq![kind_of::<A>()], kind_of::<B>());
        assert(seq![kind_of::<A>()].push(kind_of::<B>()) =~= seq![kind_of::<A>(), kind_of::<B>()]);
        lemma_fixed_part_len_push(seq![kind_of::<A>(), kind_of::<B>()], kind_of::<C>());
        assert(seq![kind_of::<A>(), kind_of::<B>()].push(kind_of::<C>()) =~= seq![kind_of::<A>(), kind_of::<B>(), kind_of::<C>()]);
        lemma_fixed_part_len_push(seq![kind_of::<A>(), kind_of::<B>(), kind_of::<C>()], kind_of::<D>());
        assert(seq![kind_of::<A>(), kind_of::<B>(), kind_of::<C>()].push(kind_of::<D>()) =~= seq![kind_of::<A>(), kind_of::<B>(), kind_of::<C>(), kind_of::<D>()]);
        lemma_fixed_part_len_push(seq![kind_of::<A>(), kind_of::<B>(), kind_of::<C>(), kind_of::<D>()], kind_of::<E>());
        assert(seq![kind_of::<A>(), kind_of::<B>(), kind_of::<C>(), kind_of::<D>()].push(kind_of::<E>()) =~= seq![kind_of::<A>(), kind_of::<B>(), kind_of::<C>(), kind_of::<D>(), kind_of::<E>()]);
        lemma_fixed_part_len_push(seq![kind_of::<A>(), kind_of::<B>(), kind_of::<C>(), kind_of::<D>(), kind_of::<E>()], kind_of::<F>());
        assert(seq![kind_of::<A>(), kind_of::<B>(), kind_of::<C>(), kind_of::<D>(), kind_of::<E>()].push(kind_of::<F>()) =~= seq![kind_of::<A>(), kind_of::<B>(), kind_of::<C>(), kind_of::<D>(), kind_of::<E>(), kind_of::<F>()]);
        lemma_fixed_part_len_push(seq![kind_of::<A>(), kind_of::<B>(), kind_of::<C>(), kind_of::<D>(), kind_of::<E>(), kind_of::<F>()], kind_of::<G>());
        assert(seq![kind_of::<A>(), kind_of::<B>(), kind_of::<C>(), kind_of::<D>(), kind_of::<E>(), kind_of::<F>()].push(kind_of::<G>()) =~= seq![kind_of::<A>(), kind_of::<B>(), kind_of::<C>(), kind_of::<D>(), kind_of::<E>(), kind_of::<F>(), kind_of::<G>()]);
        lemma_fixed_part_len_push(seq![kind_of::<A>(), kind_of::<B>(), kind_of::<C>(), kind_of::<D>(), kind_of::<E>(), kind_of::<F>(), kind_of::<G>()], kind_of::<H>());
        assert(seq![kind_of::<A>(), kind_of::<B>(), kind_of::<C>(), kind_of::<D>(), kind_of::<E>(), kind_of::<F>(), kind_of::<G>()].push(kind_of::<H>()) =~= seq![kind_of::<A>(), kind_of::<B>(), kind_of::<C>(), kind_of::<D>(), kind_of::<E>(), kind_of::<F>(), kind_of::<G>(), kind_of::<H>()]);
        lemma_fixed_part_len_push(seq![kind_of::<A>(), kind_of::<B>(), kind_of::<C>(), kind_of::<D>(), kind_of::<E>(), kind_of::<F>(), kind_of::<G>(), kind_of::<H>()], kind_of::<I>());
        assert(seq![kind_of::<A>(), kind_of::<B>(), kind_of::<C>(), kind_of::<D>(), kind_of::<E>(), kind_of::<F>(), kind_of::<G>(), kind_of::<H>()].push(kind_of::<I>()) =~= seq![kind_of::<A>(), kind_of::<B>(), kind_of::<C>(), kind_of::<D>(), kind_of::<E>(), kind_of::<F>(), kind_of::<G>(), kind_of::<H>(), kind_of::<I>()]);
        lemma_fixed_part_len_push(seq![kind_of::<A>(), kind_of::<B>(), kind_of::<C>(), kind_of::<D>(), kind_of::<E>(), kind_of::<F>(), kind_of::<G>(), kind_of::<H>(), kind_of::<I>()], kind_of::<J>());
        assert(seq![kind_of::<A>(), kind_of::<B>(), kind_of::<C>(), kind_of::<D>(), kind_of::<E>(), kind_of::<F>(), kind_of::<G>(), kind_of::<H>(), kind_of::<I>()].push(kind_of::<J>()) =~= seq![kind_of::<A>(), kind_of::<B>(), kind_of::<C>(), kind_of::<D>(), kind_of::<E>(), kind_of::<F>(), kind_of::<G>(), kind_of::<H>(), kind_of::<I>(), kind_of::<J>()]);
        lemma_fixed_part_len_push(seq![kind_of::<A>(), kind_of::<B>(), kind_of::<C>(), kind_of::<D>(), kind_of::<E>(), kind_of::<F>(), kind_of::<G>(), kind_of::<H>(), kind_of::<I>(), kind_of::<J>()], kind_of::<K>());
        assert(seq![kind_of::<A>(), kind_of::<B>(), kind_of::<C>(), kind_of::<D>(), kind_of::<E>(), kind_of::<F>(), kind_of::<G>(), kind_of::<H>(), kind_of::<I>(), kind_of::<J>()].push(kind_of::<K>()) =~= seq![kind_of::<A>(), kind_of::<B>(), kind_of::<C>(), kind_of::<D>(), kind_of::<E>(), kind_of::<F>(), kind_of::<G>(), kind_of::<H>(), kind_of::<I>(), kind_of::<J>(), kind_of::<K>()]);
        lemma_all_fixed_build(bytes, ks);
    }
}

impl<A: Decode, B: Decode, C: Decode, D: Decode, E: Decode, F: Decode, G: Decode, H: Decode, I: Decode, J: Decode, K: Decode, L: Decode> Decode for (A, B, C, D, E, F, G, H, I, J, K, L) {
    open spec fn spec_is_fixed_len() -> bool {
        A::spec_is_fixed_len() && B::spec_is_fixed_len() && C::spec_is_fixed_len() && D::spec_is_fixed_len() && E::spec_is_fixed_len() && F::spec_is_fixed_len() && G::spec_is_fixed_len() && H::spec_is_fixed_len() && I::spec_is_fixed_len() && J::spec_is_fixed_len() && K::spec_is_fixed_len() && L::spec_is_fixed_len()
    }

    open spec fn spec_fixed_len() -> usize {
        if Self::spec_is_fixed_len() {
            clamp(A::spec_fixed_len() + B::spec_fixed_len() + C::spec_fixed_len() + D::spec_fixed_len() + E::spec_fixed_len() + F::spec_fixed_len() + G::spec_fixed_len() + H::spec_fixed_len() + I::spec_fixed_len() + J::spec_fixed_len() + K::spec_fixed_len() + L::spec_fixed_len())
        } else {
            4
        }
    }

    open spec fn spec_decode(bytes: Seq<u8>) -> Result<(A, B, C, D, E, F, G, H, I, J, K, L), DecodeError> {
        match spec_build(bytes, seq![kind_of::<A>(), kind_of::<B>(), kind_of::<C>(), kind_of::<D>(), kind_of::<E>(), kind_of::<F>(), kind_of::<G>(), kind_of::<H>(), kind_of::<I>(), kind_of::<J>(), kind_of::<K>(), kind_of::<L>()]) {
            Err(e) => Err(e),
            Ok(rs) => match A::spec_decode(range_bytes(bytes, rs[0])) { Err(e) => Err(e), Ok(v0) => match B::spec_decode(range_bytes(bytes, rs[1])) { Err(e) => Err(e), Ok(v1) => match C::spec_decode(range_bytes(bytes, rs[2])) { Err(e) => Err(e), Ok(v2) => match D::spec_decode(range_bytes(bytes, rs[3])) { Err(e) => Err(e), Ok(v3) => match E::spec_decode(range_bytes(bytes, rs[4])) { Err(e) => Err(e), Ok(v4) => match F::spec_decode(range_bytes(bytes, rs[5])) { Err(e) => Err(e), Ok(v5) => match G::spec_decode(range_bytes(bytes, rs[6])) { Err(e) => Err(e), Ok(v6) => match H::spec_decode(range_bytes(bytes, rs[7])) { Err(e) => Err(e), Ok(v7) => match I::spec_decode(range_bytes(bytes, rs[8])) { Err(e) => Err(e), Ok(v8) => match J::spec_decode(range_bytes(bytes, rs[9])) { Err(e) => Err(e), Ok(v9) => match K::spec_decode(range_bytes(bytes, rs[10])) { Err(e) => Err(e), Ok(v10) => match L::spec_decode(range_bytes(bytes, rs[11])) { Err(e) => Err(e), Ok(v11) => Ok((v0, v1, v2, v3, v4, v5, v6, v7, v8, v9, v10, v11)) } } } } } } } } } } } },
        }
    }

    fn is_ssz_fixed_len() -> (r: bool) {
        A::is_ssz_fixed_len() && B::is_ssz_fixed_len() && C::is_ssz_fixed_len() && D::is_ssz_fixed_len() && E::is_ssz_fixed_len() && F::is_ssz_fixed_len() && G::is_ssz_fixed_len() && H::is_ssz_fixed_len() && I::is_ssz_fixed_len() && J::is_ssz_fixed_len() && K::is_ssz_fixed_len() && L::is_ssz_fixed_len()
    }

    fn ssz_fixed_len() -> (r: usize) {
        if A::is_ssz_fixed_len() && B::is_ssz_fixed_len() && C::is_ssz_fixed_len() && D::is_ssz_fixed_len() && E::is_ssz_fixed_len() && F::is_ssz_fixed_len() && G::is_ssz_fixed_len() && H::is_ssz_fixed_len() && I::is_ssz_fixed_len() && J::is_ssz_fixed_len() && K::is_ssz_fixed_len() && L::is_ssz_fixed_len() {
            A::ssz_fixed_len().saturating_add(B::ssz_fixed_len()).saturating_add(C::ssz_fixed_len()).saturating_add(D::ssz_fixed_len()).saturating_add(E::ssz_fixed_len()).saturating_add(F::ssz_fixed_len()).saturating_add(G::ssz_fixed_len()).saturating_add(H::ssz_fixed_len()).saturating_add(I::ssz_fixed_len()).saturating_add(J::ssz_fixed_len()).saturating_add(K::ssz_fixed_len()).saturating_add(L::ssz_fixed_len())
        } else {
            4
        }
    }

    fn from_ssz_bytes(bytes: &[u8]) -> (r: Result<(A, B, C, D, E, F, G, H, I, J, K, L), DecodeError>) {
        let mut builder = SszDecoderBuilder::new(bytes);
        builder.register_type::<A>();
        builder.register_type::<B>();
        builder.register_type::<C>();
        builder.register_type::<D>();
        builder.register_type::<E>();
        builder.register_type::<F>();
        builder.register_type::<G>();
        builder.register_type::<H>();
        builder.register_type::<I>();
        builder.register_type::<J>();
        builder.register_type::<K>();
        builder.register_type::<L>();
        assert(builder.kinds@ =~= seq![kind_of::<A>(), kind_of::<B>(), kind_of::<C>(), kind_of::<D>(), kind_of::<E>(), kind_of::<F>(), kind_of::<G>(), kind_of::<H>(), kind_of::<I>(), kind_of::<J>(), kind_of::<K>(), kind_of::<L>()]);
        let mut decoder = match builder.build() {
            Ok(d) => d,
            Err(e) => return Err(e),
        };
        let v0 = match decoder.decode_next::<A>() {
            Ok(v) => v,
            Err(e) => return Err(e),
        };
        let v1 = match decoder.decode_next::<B>() {
            Ok(v) => v,
            Err(e) => return Err(e),
        };
        let v2 = match decoder.decode_next::<C>() {
            Ok(v) => v,
            Err(e) => return Err(e),
        };
        let v3 = match decoder.decode_next::<D>() {
            Ok(v) => v,
            Err(e) => return Err(e),
        };
        let v4 = match decoder.decode_next::<E>() {
            Ok(v) => v,
            Err(e) => return Err(e),
        };
        let v5 = match decoder.decode_next::<F>() {
            Ok(v) => v,
            Err(e) => return Err(e),
        };
        let v6 = match decoder.decode_next::<G>() {
            Ok(v) => v,
            Err(e) => return Err(e),
        };
        let v7 = match decoder.decode_next::<H>() {
            Ok(v) => v,
            Err(e) => return Err(e),
        };
        let v8 = match decoder.decode_next::<I>() {
            Ok(v) => v,
            Err(e) => return Err(e),
        };
        let v9 = match decoder.decode_next::<J>() {
            Ok(v) => v,
            Err(e) => return Err(e),
        };
        let v10 = match decoder.decode_next::<K>() {
            Ok(v) => v,
            Err(e) => return Err(e),
        };
        let v11 = match decoder.decode_next::<L>() {
            Ok(v) => v,
            Err(e) => return Err(e),
        };
        Ok((v0, v1, v2, v3, v4, v5, v6, v7, v8, v9, v10, v11))
    }

    proof fn lemma_fixed_len_consistency(bytes: Seq<u8>) {
        let ks = seq![kind_of::<A>(), kind_of::<B>(), kind_of::<C>(), kind_of::<D>(), kind_of::<E>(), kind_of::<F>(), kind_of::<G>(), kind_of::<H>(), kind_of::<I>(), kind_of::<J>(), kind_of::<K>(), kind_of::<L>()];
        assert(fixed_part_len(Seq::<FieldKind>::empty()) == 0);
        lemma_fixed_part_len_push(Seq::<FieldKind>::empty(), kind_of::<A>());
        assert(Seq::<FieldKind>::empty().push(kind_of::<A>()) =~= seq![kind_of::<A>()]);
        lemma_fixed_part_len_push(seq![kind_of::<A>()], kind_of::<B>());
        assert(seq![kind_of::<A>()].push(kind_of::<B>()) =~= seq![kind_of::<A>(), kind_of::<B>()]);
        lemma_fixed_part_len_push(seq![kind_of::<A>(), kind_of::<B>()], kind_of::<C>());
        assert(seq![kind_of::<A>(), kind_of::<B>()].push(kind_of::<C>()) =~= seq![kind_of::<A>(), kind_of::<B>(), kind_of::<C>()]);
        lemma_fixed_part_len_push(seq![kind_of::<A>(), kind_of::<B>(), kind_of::<C>()], kind_of::<D>());
        assert(seq![kind_of::<A>(), kind_of::<B>(), kind_of::<C>()].push(kind_of::<D>()) =~= seq![kind_of::<A>(), kind_of::<B>(), kind_of::<C>(), kind_of::<D>()]);
        lemma_fixed_part_len_push(seq![kind_of::<A>(), kind_of::<B>(), kind_of::<C>(), kind_of::<D>()], kind_of::<E>());
        assert(seq![kind_of::<A>(), kind_of::<B>(), kind_of::<C>(), kind_of::<D>()].push(kind_of::<E>()) =~= seq![kind_of::<A>(), kind_of::<B>(), kind_of::<C>(), kind_of::<D>(), kind_of::<E>()]);
        lemma_fixed_part_len_push(seq![kind_of::<A>(), kind_of::<B>(), kind_of::<C>(), kind_of::<D>(), kind_of::<E>()], kind_of::<F>());
        assert(seq![kind_of::<A>(), kind_of::<B>(), kind_of::<C>(), kind_of::<D>(), kind_of::<E>()].push(kind_of::<F>()) =~= seq![kind_of::<A>(), kind_of::<B>(), kind_of::<C>(), kind_of::<D>(), kind_of::<E>(), kind_of::<F>()]);
        lemma_fixed_part_len_push(seq![kind_of::<A>(), kind_of::<B>(), kind_of::<C>(), kind_of::<D>(), kind_of::<E>(), kind_of::<F>()], kind_of::<G>());
        assert(seq![kind_of::<A>(), kind_of::<B>(), kind_of::<C>(), kind_of::<D>(), kind_of::<E>(), kind_of::<F>()].push(kind_of::<G>()) =~= seq![kind_of::<A>(), kind_of::<B>(), kind_of::<C>(), kind_of::<D>(), kind_of::<E>(), kind_of::<F>(), kind_of::<G>()]);
        lemma_fixed_part_len_push(seq![kind_of::<A>(), kind_of::<B>(), kind_of::<C>(), kind_of::<D>(), kind_of::<E>(), kind_of::<F>(), kind_of::<G>()], kind_of::<H>());
        assert(seq![kind_of::<A>(), kind_of::<B>(), kind_of::<C>(), kind_of::<D>(), kind_of::<E>(), kind_of::<F>(), kind_of::<G>()].push(kind_of::<H>()) =~= seq![kind_of::<A>(), kind_of::<B>(), kind_of::<C>(), kind_of::<D>(), kind_of::<E>(), kind_of::<F>(), kind_of::<G>(), kind_of::<H>()]);
        lemma_fixed_part_len_push(seq![kind_of::<A>(), kind_of::<B>(), kind_of::<C>(), kind_of::<D>(), kind_of::<E>(), kind_of::<F>(), kind_of::<G>(), kind_of::<H>()], kind_of::<I>());
        assert(seq![kind_of::<A>(), kind_of::<B>(), kind_of::<C>(), kind_of::<D>(), kind_of::<E>(), kind_of::<F>(), kind_of::<G>(), kind_of::<H>()].push(kind_of::<I>()) =~= seq![kind_of::<A>(), kind_of::<B>(), kind_of::<C>(), kind_of::<D>(), kind_of::<E>(), kind_of::<F>(), kind_of::<G>(), kind_of::<H>(), kind_of::<I>()]);
        lemma_fixed_part_len_push(seq![kind_of::<A>(), kind_of::<B>(), kind_of::<C>(), kind_of::<D>(), kind_of::<E>(), kind_of::<F>(), kind_of::<G>(), kind_of::<H>(), kind_of::<I>()], kind_of::<J>());
        assert(seq![kind_of::<A>(), kind_of::<B>(), kind_of::<C>(), kind_of::<D>(), kind_of::<E>(), kind_of::<F>(), kind_of::<G>(), kind_of::<H>(), kind_of::<I>()].push(kind_of::<J>()) =~= seq![kind_of::<A>(), kind_of::<B>(), kind_of::<C>(), kind_of::<D>(), kind_of::<E>(), kind_of::<F>(), kind_of::<G>(), kind_of::<H>(), kind_of::<I>(), kind_of::<J>()]);
        lemma_fixed_part_len_push(seq![kind_of::<A>(), kind_of::<B>(), kind_of::<C>(), kind_of::<D>(), kind_of::<E>(), kind_of::<F>(), kind_of::<G>(), kind_of::<H>(), kind_of::<I>(), kind_of::<J>()], kind_of::<K>());
        assert(seq![kind_of::<A>(), kind_of::<B>(), kind_of::<C>(), kind_of::<D>(), kind_of::<E>(), kind_of::<F>(), kind_of::<G>(), kind_of::<H>(), kind_of::<I>(), kind_of::<J>()].push(kind_of::<K>()) =~= seq![kind_of::<A>(), kind_of::<B>(), kind_of::<C>(), kind_of::<D>(), kind_of::<E>(), kind_of::<F>(), kind_of::<G>(), kind_of::<H>(), kind_of::<I>(), kind_of::<J>(), kind_of::<K>()]);
        lemma_fixed_part_len_push(seq![kind_of::<A>(), kind_of::<B>(), kind_of::<C>(), kind_of::<D>(), kind_of::<E>(), kind_of::<F>(), kind_of::<G>(), kind_of::<H>(), kind_of::<I>(), kind_of::<J>(), kind_of::<K>()], kind_of::<L>());
        assert(seq![kind_of::<A>(), kind_of::<B>(), kind_of::<C>(), kind_of::<D>(), kind_of::<E>(), kind_of::<F>(), kind_of::<G>(), kind_of::<H>(), kind_of::<I>(), kind_of::<J>(), kind_of::<K>()].push(kind_of::<L>()) =~= seq![kind_of::<A>(), kind_of::<B>(), kind_of::<C>(), kind_of::<D>(), kind_of::<E>(), kind_of::<F>(), kind_of::<G>(), kind_of::<H>(), kind_of::<I>(), kind_of::<J>(), kind_of::<K>(), kind_of::<L>()]);
        lemma_all_fixed_build(bytes, ks);
    }
}

} // verus!
