//! Looking a key up in a table of vetted keys.

use vstd::prelude::*;
use crate::error::RngError;

verus! {

/// The key that `index` selects in `table`: the table is walked in a circle,
/// so every index selects a key unless the table is empty.
pub open spec fn key_at(table: Seq<u64>, index: u64) -> Result<u64, RngError> {
    if table.len() == 0 {
        Err(RngError::ConfigurationError)
    } else {
        Ok(table[index as int % table.len() as int])
    }
}

/// Looks up the key that `index` selects in `table`.
pub fn lookup_key(table: &[u64], index: u64) -> (r: Result<u64, RngError>)
    ensures
        r == key_at(table@, index),
{
    let n: usize = table.len();
    if n == 0 {
        return Err(RngError::ConfigurationError);
    }
    let slot: u64 = index % (n as u64);
    Ok(table[slot as usize])
}

/// The fewest set bits of a key that counts as balanced.
pub const BALANCED_MIN_BITS: u32 = 28;

/// The most set bits of a key that counts as balanced.
pub const BALANCED_MAX_BITS: u32 = 36;

/// The number of set bits among the lowest `width` bits of `word`.
pub open spec fn set_bits(word: u64, width: nat) -> nat
    decreases width,
{
    if width == 0 {
        0
    } else {
        (word % 2) as nat + set_bits(word / 2, (width - 1) as nat)
    }
}

/// Counts the set bits of `key`.
pub fn count_set_bits(key: u64) -> (count: u32)
    ensures
        count == set_bits(key, 64),
        count <= 64,
{
    let mut rest: u64 = key;
    let mut count: u32 = 0;
    let mut i: u32 = 0;
    while i < 64
        invariant
            i <= 64,
            count <= i,
            count + set_bits(rest, (64 - i) as nat) == set_bits(key, 64),
        decreases 64 - i,
    {
        if rest % 2 == 1 {
            count = count + 1;
        }
        rest = rest / 2;
        i = i + 1;
    }
    count
}

/// Tells whether about half of the bits of `key` are set, as the keys that
/// mix well have it: at least [`BALANCED_MIN_BITS`] and at most
/// [`BALANCED_MAX_BITS`] of the 64. This is advice: a generator takes any key.
pub fn is_balanced(key: u64) -> (balanced: bool)
    ensures
        balanced == (BALANCED_MIN_BITS <= set_bits(key, 64) <= BALANCED_MAX_BITS),
{
    let count: u32 = count_set_bits(key);
    BALANCED_MIN_BITS <= count && count <= BALANCED_MAX_BITS
}

} // verus!
