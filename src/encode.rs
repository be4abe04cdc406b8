use vstd::prelude::*;
use vstd::bytes::{lemma_auto_spec_u32_to_from_le_bytes, spec_u32_to_le_bytes, u32_to_le_bytes};
use crate::codec::{Decode, Encode};
use crate::list::{list_len, spec_decode_items, spec_decode_list};
use crate::offset::offset_at;

verus! {

/// Assembles the encoding of a container: fixed-width fields and offsets go into the fixed
/// part, the bytes of variable-length fields into the variable part.
pub struct SszEncoder {
    pub fixed: Vec<u8>,
    pub variable: Vec<u8>,
    pub offset: usize,
    pub num_fixed_bytes: usize,
}

impl SszEncoder {
    /// The next offset is where the variable part currently ends, and it fits the offset width.
    pub open spec fn wf(&self) -> bool {
        &&& self.offset == self.num_fixed_bytes + self.variable@.len()
        &&& self.offset <= u32::MAX
    }

    /// Starts a container whose fixed part is `num_fixed_bytes` wide.
    pub fn container(num_fixed_bytes: usize) -> (r: Self)
        requires
            num_fixed_bytes <= u32::MAX,
        ensures
            r.wf(),
            r.num_fixed_bytes == num_fixed_bytes,
            r.fixed@ == Seq::<u8>::empty(),
            r.variable@ == Seq::<u8>::empty(),
    {
        SszEncoder { fixed: Vec::new(), variable: Vec::new(), offset: num_fixed_bytes, num_fixed_bytes }
    }

    /// Appends a field, in place if `is_fixed` and through an offset otherwise.
    pub fn append_parameterized<T: Encode>(&mut self, is_fixed: bool, item: &T)
        requires
            old(self).wf(),
            item.spec_encodable(),
            !is_fixed ==> old(self).offset + item.spec_encode().len() <= u32::MAX,
        ensures
            final(self).wf(),
            final(self).num_fixed_bytes == old(self).num_fixed_bytes,
            is_fixed ==> final(self).fixed@ == old(self).fixed@ + item.spec_encode()
                && final(self).variable@ == old(self).variable@,
            !is_fixed ==> final(self).fixed@ == old(self).fixed@ + spec_u32_to_le_bytes(
                old(self).offset as u32,
            ) && final(self).variable@ == old(self).variable@ + item.spec_encode(),
    {
        if is_fixed {
            item.ssz_append(&mut self.fixed);
        } else {
            let len = item.ssz_bytes_len();
            let mut slot = u32_to_le_bytes(self.offset as u32);
            self.fixed.append(&mut slot);
            item.ssz_append(&mut self.variable);
            self.offset = self.offset + len;
        }
    }

    /// Appends a field, laid out as its type asks.
    pub fn append<T: Encode>(&mut self, item: &T)
        requires
            old(self).wf(),
            item.spec_encodable(),
            !T::spec_is_fixed_len() ==> old(self).offset + item.spec_encode().len() <= u32::MAX,
        ensures
            final(self).wf(),
            final(self).num_fixed_bytes == old(self).num_fixed_bytes,
            T::spec_is_fixed_len() ==> final(self).fixed@ == old(self).fixed@ + item.spec_encode()
                && final(self).variable@ == old(self).variable@,
            !T::spec_is_fixed_len() ==> final(self).fixed@ == old(self).fixed@
                + spec_u32_to_le_bytes(old(self).offset as u32) && final(self).variable@
                == old(self).variable@ + item.spec_encode(),
    {
        self.append_parameterized(T::is_ssz_fixed_len(), item);
    }

    /// Writes the fixed part and then the variable part to `buf`. Every field must have been
    /// appended, so that the fixed part has its declared width.
    pub fn finalize(self, buf: &mut Vec<u8>)
        requires
            self.fixed@.len() == self.num_fixed_bytes,
        ensures
            final(buf)@ == old(buf)@ + self.fixed@ + self.variable@,
    {
        let mut fixed = self.fixed;
        let mut variable = self.variable;
        buf.append(&mut fixed);
        buf.append(&mut variable);
    }
}

/// The encodings of the first `k` items, back to back.
pub open spec fn items_concat<T: Encode>(items: Seq<T>, k: nat) -> Seq<u8>
    decreases k,
{
    if k == 0 || k > items.len() {
        Seq::empty()
    } else {
        items_concat(items, (k - 1) as nat) + items[k - 1].spec_encode()
    }
}

/// Where item `k` of a list of variable-length items starts.
pub open spec fn item_offset<T: Encode>(items: Seq<T>, k: nat) -> nat {
    4 * items.len() + items_concat(items, k).len()
}

/// The first `k` offsets of the offset table of a list.
pub open spec fn offset_table<T: Encode>(items: Seq<T>, k: nat) -> Seq<u8>
    decreases k,
{
    if k == 0 || k > items.len() {
        Seq::empty()
    } else {
        offset_table(items, (k - 1) as nat) + spec_u32_to_le_bytes(
            item_offset(items, (k - 1) as nat) as u32,
        )
    }
}

/// The encoding of a list of variable-length items: the offset table, then the items.
pub open spec fn spec_encode_list<T: Encode>(items: Seq<T>) -> Seq<u8> {
    offset_table(items, items.len()) + items_concat(items, items.len())
}

/// Whether every item can be encoded and every offset of the list fits the offset width.
pub open spec fn list_encodable<T: Encode>(items: Seq<T>) -> bool {
    &&& forall|i: int| 0 <= i < items.len() ==> (#[trigger] items[i]).spec_encodable()
    &&& item_offset(items, items.len()) <= u32::MAX
}

proof fn lemma_concat_len_mono<T: Encode>(items: Seq<T>, k: nat, m: nat)
    requires
        k <= m <= items.len(),
    ensures
        items_concat(items, k).len() <= items_concat(items, m).len(),
        items_concat(items, m).subrange(0, items_concat(items, k).len() as int) == items_concat(
            items,
            k,
        ),
    decreases m - k,
{
    if k < m {
        lemma_concat_len_mono(items, k, (m - 1) as nat);
        let prev = items_concat(items, (m - 1) as nat);
        let all = items_concat(items, m);
        let l = items_concat(items, k).len() as int;
        assert(all.subrange(0, l) =~= prev.subrange(0, l));
    }
}

proof fn lemma_offset_table_len<T: Encode>(items: Seq<T>, k: nat)
    requires
        k <= items.len(),
    ensures
        offset_table(items, k).len() == 4 * k,
    decreases k,
{
    lemma_auto_spec_u32_to_from_le_bytes();
    if k > 0 {
        lemma_offset_table_len(items, (k - 1) as nat);
    }
}

/// Encodes a list of items, each through an offset, as a list of variable-length items is laid
/// out.
pub fn encode_list_of_variable_length_items<T: Encode>(items: &Vec<T>) -> (r: Vec<u8>)
    requires
        list_encodable(items@),
    ensures
        r@ == spec_encode_list(items@),
{
    let n = items.len();
    let ghost s = items@;
    proof {
        lemma_concat_len_mono(s, 0, n as nat);
    }
    let mut encoder = SszEncoder::container(n * 4);
    let mut k: usize = 0;
    while k < n
        invariant
            n == s.len(),
            items@ == s,
            list_encodable(s),
            k <= n,
            encoder.wf(),
            encoder.num_fixed_bytes == 4 * n,
            encoder.fixed@ == offset_table(s, k as nat),
            encoder.variable@ == items_concat(s, k as nat),
        decreases n - k,
    {
        proof {
            lemma_concat_len_mono(s, (k + 1) as nat, n as nat);
        }
        encoder.append_parameterized(false, &items[k]);
        k = k + 1;
    }
    proof {
        lemma_offset_table_len(s, n as nat);
    }
    let mut buf: Vec<u8> = Vec::new();
    encoder.finalize(&mut buf);
    proof {
        assert(buf@ =~= spec_encode_list(s));
    }
    buf
}

proof fn lemma_table_entry<T: Encode>(items: Seq<T>, k: nat, j: nat)
    requires
        j < k <= items.len(),
    ensures
        offset_table(items, k).subrange(4 * j as int, 4 * j as int + 4) == spec_u32_to_le_bytes(
            item_offset(items, j) as u32,
        ),
    decreases k,
{
    lemma_auto_spec_u32_to_from_le_bytes();
    lemma_offset_table_len(items, (k - 1) as nat);
    let t = offset_table(items, k);
    if j == k - 1 {
        assert(t.subrange(4 * j as int, 4 * j as int + 4) =~= spec_u32_to_le_bytes(
            item_offset(items, j) as u32,
        ));
    } else {
        lemma_table_entry(items, (k - 1) as nat, j);
        assert(t.subrange(4 * j as int, 4 * j as int + 4) =~= offset_table(items, (k - 1) as nat).subrange(
            4 * j as int,
            4 * j as int + 4,
        ));
    }
}

/// Offset `j` of an encoded list reads back as the start of item `j`.
proof fn lemma_offset_read<T: Encode>(items: Seq<T>, j: nat)
    requires
        list_encodable(items),
        j < items.len(),
    ensures
        offset_at(spec_encode_list(items), 4 * j as int) == item_offset(items, j),
{
    let n = items.len();
    let e = spec_encode_list(items);
    lemma_table_entry(items, n, j);
    lemma_offset_table_len(items, n);
    assert(e.subrange(4 * j as int, 4 * j as int + 4) =~= offset_table(items, n).subrange(
        4 * j as int,
        4 * j as int + 4,
    ));
    lemma_concat_len_mono(items, j, n);
    lemma_auto_spec_u32_to_from_le_bytes();
}

/// The bytes between the starts of items `k` and `k + 1` of an encoded list are the encoding of
/// item `k`.
proof fn lemma_item_bytes<T: Encode>(items: Seq<T>, k: nat)
    requires
        k < items.len(),
    ensures
        spec_encode_list(items).subrange(
            item_offset(items, k) as int,
            item_offset(items, k + 1) as int,
        ) == items[k as int].spec_encode(),
{
    let n = items.len();
    let e = spec_encode_list(items);
    let c = items_concat(items, n);
    let ck = items_concat(items, k).len() as int;
    let ck1 = items_concat(items, k + 1).len() as int;
    lemma_offset_table_len(items, n);
    lemma_concat_len_mono(items, k + 1, n);
    lemma_concat_len_mono(items, k, k + 1);
    assert(e.subrange(4 * n + ck, 4 * n + ck1) =~= c.subrange(ck, ck1));
    assert(c.subrange(ck, ck1) =~= c.subrange(0, ck1).subrange(ck, ck1));
    assert(items_concat(items, k + 1).subrange(ck, ck1) =~= items[k as int].spec_encode());
}

proof fn lemma_decode_items_of_encoding<T: Encode>(items: Seq<T>, k: nat)
    requires
        list_encodable(items),
        k <= items.len(),
    ensures
        spec_decode_items::<T>(spec_encode_list(items), items.len(), k) == Ok::<
            Seq<T>,
            crate::error::DecodeError,
        >(items.subrange(k as int, items.len() as int)),
    decreases items.len() - k,
{
    let n = items.len();
    if k < n {
        lemma_decode_items_of_encoding(items, k + 1);
        lemma_offset_read(items, k);
        if k + 1 < n {
            lemma_offset_read(items, k + 1);
        }
        lemma_item_bytes(items, k);
        lemma_offset_table_len(items, n);
        lemma_concat_len_mono(items, k, k + 1);
        lemma_concat_len_mono(items, k + 1, n);
        T::lemma_round_trip(&items[k as int]);
        assert(seq![items[k as int]] + items.subrange(k + 1 as int, n as int) =~= items.subrange(
            k as int,
            n as int,
        ));
    } else {
        assert(items.subrange(k as int, n as int) =~= Seq::<T>::empty());
    }
}

/// Decoding the encoding of a list of variable-length items gives back the items, whenever the
/// list respects the maximum length.
pub proof fn lemma_list_round_trip<T: Encode>(items: Seq<T>, max_len: Option<usize>)
    requires
        list_encodable(items),
        max_len matches Some(m) ==> items.len() <= m,
    ensures
        spec_decode_list::<T>(spec_encode_list(items), max_len) == Ok::<
            Seq<T>,
            crate::error::DecodeError,
        >(items),
{
    let n = items.len();
    let e = spec_encode_list(items);
    lemma_offset_table_len(items, n);
    lemma_concat_len_mono(items, 0, n);
    if n == 0 {
        assert(e =~= Seq::<u8>::empty());
        assert(items =~= Seq::<T>::empty());
    } else {
        lemma_offset_read(items, 0);
        assert(items_concat(items, 0).len() == 0);
        assert(offset_at(e, 0) == 4 * n);
        assert(list_len(e) == n);
        lemma_decode_items_of_encoding(items, 0);
        assert(items.subrange(0, n as int) =~= items);
    }
}

/// The encoding of a list is as long as its offset table and its items together.
pub proof fn lemma_list_encoded_len<T: Encode>(items: Seq<T>)
    ensures
        spec_encode_list(items).len() == item_offset(items, items.len()),
{
    lemma_offset_table_len(items, items.len());
}

} // verus!
