//! A model of guest memory: the readable bytes by address.
use crate::bytes;
use vstd::prelude::*;

verus! {

/// Memory after `b` has been written at `addr`.
pub open spec fn written(m: Map<int, u8>, addr: int, b: Seq<u8>) -> Map<int, u8> {
    Map::new(
        |a: int| m.contains_key(a) || addr <= a < addr + b.len(),
        |a: int|
            if addr <= a < addr + b.len() {
                b[a - addr]
            } else {
                m[a]
            },
    )
}

/// The eight bytes at `addr`.
pub open spec fn word_bytes_at(m: Map<int, u8>, addr: int) -> Seq<u8> {
    Seq::new(8, |i: int| m[addr + i])
}

/// The word at `addr` can be read and is `value`.
pub open spec fn word_is(m: Map<int, u8>, addr: int, value: int) -> bool {
    &&& forall|a: int| addr <= a < addr + 8 ==> #[trigger] m.contains_key(a)
    &&& bytes::le_u64(word_bytes_at(m, addr), 0) == value
}

/// A word that has been written is read back.
pub proof fn law_word_write_reads_back(m: Map<int, u8>, addr: int, value: u64)
    ensures
        word_is(written(m, addr, bytes::word_bytes(value)), addr, value as int),
{
    bytes::law_word_round_trip(value);
    let after = written(m, addr, bytes::word_bytes(value));
    assert(word_bytes_at(after, addr) =~= bytes::word_bytes(value));
}

/// Writing elsewhere leaves a word as it is.
pub proof fn law_word_survives_other_writes(
    m: Map<int, u8>,
    addr: int,
    value: int,
    other: int,
    b: Seq<u8>,
)
    requires
        word_is(m, addr, value),
        other + b.len() <= addr || addr + 8 <= other,
    ensures
        word_is(written(m, other, b), addr, value),
{
    assert(word_bytes_at(written(m, other, b), addr) =~= word_bytes_at(m, addr));
}

} // verus!
