//! Binary layout of one translation table: 512 little-endian 64-bit entries
//! forming a 4096-byte page image, with the lemmas that read an entry back
//! out of the bytes.

use vstd::bytes::*;
use vstd::prelude::*;

verus! {

/// Size in bytes of one translation-table page image.
pub const PAGE_TABLE_SIZE: usize = 4096;

/// The byte image of a table: each entry in order, little-endian.
pub open spec fn table_bytes(entries: Seq<u64>) -> Seq<u8>
    decreases entries.len(),
{
    if entries.len() == 0 {
        Seq::<u8>::empty()
    } else {
        table_bytes(entries.drop_last()) + spec_u64_to_le_bytes(entries.last())
    }
}

/// Entry `i` of a table image, decoded as a little-endian 64-bit word.
pub open spec fn table_word(bytes: Seq<u8>, i: int) -> u64 {
    spec_u64_from_le_bytes(bytes.subrange(8 * i, 8 * i + 8))
}

/// A table image is 8 bytes per entry.
pub proof fn lemma_table_bytes_len(entries: Seq<u64>)
    ensures
        table_bytes(entries).len() == 8 * entries.len(),
    decreases entries.len(),
{
    lemma_auto_spec_u64_to_from_le_bytes();
    if entries.len() > 0 {
        lemma_table_bytes_len(entries.drop_last());
    }
}

/// The 8 bytes of entry `i` inside a table image are the little-endian
/// encoding of that entry.
pub proof fn lemma_table_bytes_at(entries: Seq<u64>, i: int)
    requires
        0 <= i < entries.len(),
    ensures
        table_bytes(entries).subrange(8 * i, 8 * i + 8) == spec_u64_to_le_bytes(entries[i]),
    decreases entries.len(),
{
    lemma_auto_spec_u64_to_from_le_bytes();
    lemma_table_bytes_len(entries);
    lemma_table_bytes_len(entries.drop_last());
    if i == entries.len() - 1 {
        assert(entries.last() == entries[i]);
        assert(table_bytes(entries).subrange(8 * i, 8 * i + 8) =~= spec_u64_to_le_bytes(
            entries[i],
        ));
    } else {
        lemma_table_bytes_at(entries.drop_last(), i);
        assert(table_bytes(entries).subrange(8 * i, 8 * i + 8) =~= table_bytes(
            entries.drop_last(),
        ).subrange(8 * i, 8 * i + 8));
    }
}

/// Decoding entry `i` of a table image gives the entry back.
pub proof fn lemma_table_word(entries: Seq<u64>, i: int)
    requires
        0 <= i < entries.len(),
    ensures
        table_word(table_bytes(entries), i) == entries[i],
{
    lemma_auto_spec_u64_to_from_le_bytes();
    lemma_table_bytes_at(entries, i);
}

/// Serializes a table's entries into its byte image.
pub fn serialize_table(entries: &Vec<u64>) -> (r: Vec<u8>)
    ensures
        r@ == table_bytes(entries@),
        r@.len() == 8 * entries@.len(),
{
    let mut r: Vec<u8> = Vec::new();
    let n = entries.len();
    proof {
        assert(entries@.take(0) =~= Seq::<u64>::empty());
    }
    for i in 0..n
        invariant
            n == entries@.len(),
            r@ == table_bytes(entries@.take(i as int)),
            r@.len() == 8 * i,
    {
        let mut word = u64_to_le_bytes(entries[i]);
        r.append(&mut word);
        proof {
            lemma_table_bytes_len(entries@.take(i as int));
            assert(entries@.take(i + 1).drop_last() =~= entries@.take(i as int));
            assert(entries@.take(i + 1).last() == entries@[i as int]);
        }
    }
    proof {
        assert(entries@.take(n as int) =~= entries@);
        lemma_table_bytes_len(entries@);
    }
    r
}

} // verus!
