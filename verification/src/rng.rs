//! The generator: its state, its draws, and what holds of its streams.

use vstd::prelude::*;
use crate::error::RngError;
use crate::keys::{key_at, lookup_key};
use crate::mixing::{mix, squares, wrap};
use vstd::arithmetic::div_mod::{lemma_add_mod_noop, lemma_mod_decreases};

verus! {

/// The modulus that reduces a raw draw before it is scaled: 2^32 - 1.
pub const SCALE_MODULUS: u64 = 0xFFFF_FFFF;

/// A raw draw reduced below [`SCALE_MODULUS`].
pub open spec fn scaled(raw: u64) -> u64 {
    (raw % SCALE_MODULUS) as u64
}

/// A generator: a key, which picks the stream, and a counter, which is the
/// place in it.
///
/// Any key is accepted. A key serves well when about half of its bits are
/// set; [`crate::keys::is_balanced`] tells.
pub struct SquaresRNG {
    pub key: u64,
    pub counter: u64,
}

impl SquaresRNG {
    /// The raw word that the next draw gives.
    pub open spec fn upcoming(self) -> u64 {
        squares(self.counter, self.key)
    }

    /// The generator after one draw: the counter moves on by one and goes
    /// from 2^64 - 1 back to 0; the key stays.
    pub open spec fn stepped(self) -> SquaresRNG {
        SquaresRNG { key: self.key, counter: wrap(self.counter + 1) as u64 }
    }

    /// The generator after `n` draws.
    pub open spec fn after(self, n: nat) -> SquaresRNG
        decreases n,
    {
        if n == 0 {
            self
        } else {
            self.stepped().after((n - 1) as nat)
        }
    }

    /// The raw words of the first `n` draws, in the order drawn.
    pub open spec fn draws(self, n: nat) -> Seq<u64> {
        Seq::new(n, |i: int| self.after(i as nat).upcoming())
    }

    /// A generator that starts at `counter` with a key taken from `table`, in
    /// which `key` is an index that goes round in a circle. An empty table
    /// holds no key: that is the one error.
    pub fn new(counter: u64, key: u64, table: &[u64]) -> (r: Result<SquaresRNG, RngError>)
        ensures
            r == match key_at(table@, key) {
                Ok(k) => Ok(SquaresRNG { key: k, counter }),
                Err(e) => Err(e),
            },
    {
        match lookup_key(table, key) {
            Ok(k) => Ok(SquaresRNG { key: k, counter }),
            Err(e) => Err(e),
        }
    }

    /// A generator that starts at `counter` with the key given, whatever it
    /// is.
    pub fn new_with_key(counter: u64, key: u64) -> (rng: SquaresRNG)
        ensures
            rng == (SquaresRNG { key, counter }),
    {
        SquaresRNG { key, counter }
    }

    /// Draws one raw word, which fits in 32 bits, and moves the counter on.
    pub fn rand_u64(&mut self) -> (out: u64)
        ensures
            out == old(self).upcoming(),
            out <= 0xFFFF_FFFF,
            *final(self) == old(self).stepped(),
    {
        let out: u64 = mix(self.counter, self.key);
        self.counter = self.counter.wrapping_add(1);
        out
    }

    /// Draws one word and reduces it below [`SCALE_MODULUS`]: the numerator
    /// of a fraction in `[0, 1)` whose denominator is the modulus.
    pub fn rand_scaled(&mut self) -> (out: u64)
        ensures
            out == scaled(old(self).upcoming()),
            out < SCALE_MODULUS,
            *final(self) == old(self).stepped(),
    {
        self.rand_u64() % SCALE_MODULUS
    }

    /// Draws `N` words in a row, each reduced below [`SCALE_MODULUS`]: place
    /// `i` of the array holds the draw that comes `i` steps on.
    pub fn rand_scaled_array<const N: usize>(&mut self) -> (out: [u64; N])
        ensures
            out@ == old(self).draws(N as nat).map_values(|raw: u64| scaled(raw)),
            *final(self) == old(self).after(N as nat),
    {
        let mut out: [u64; N] = [0; N];
        let mut i: usize = 0;
        while i < N
            invariant
                i <= N,
                *self == old(self).after(i as nat),
                forall|j: int| 0 <= j < i ==> out@[j] == scaled(old(self).after(j as nat).upcoming()),
            decreases N - i,
        {
            proof {
                lemma_after_one_more(*old(self), i as nat);
            }
            let word: u64 = self.rand_scaled();
            out.set(i, word);
            i = i + 1;
        }
        assert(out@ =~= old(self).draws(N as nat).map_values(|raw: u64| scaled(raw)));
        out
    }

    /// Draws an index below `size`, for picking an element of a slice of that
    /// length. With `size` zero there is no such index: the call is refused
    /// and nothing is drawn.
    pub fn rand_index(&mut self, size: u64) -> (r: Result<usize, RngError>)
        ensures
            size == 0 ==> r == Err::<usize, RngError>(RngError::DomainError),
            size == 0 ==> *final(self) == *old(self),
            size != 0 ==> (r matches Ok(i) && i == scaled(old(self).upcoming()) % size && i < size),
            size != 0 ==> *final(self) == old(self).stepped(),
    {
        if size == 0 {
            return Err(RngError::DomainError);
        }
        let rand: u64 = self.rand_scaled();
        let pick: u64 = rand % size;
        proof {
            lemma_mod_decreases(rand as nat, size as nat);
        }
        Ok(pick as usize)
    }
}

/// The counter after `n` draws is the first counter plus `n`, modulo 2^64,
/// and the key is the one the generator began with.
pub proof fn lemma_counter_progression(rng: SquaresRNG, n: nat)
    ensures
        rng.after(n).key == rng.key,
        rng.after(n).counter == wrap(rng.counter + n),
    decreases n,
{
    if n > 0 {
        lemma_counter_progression(rng.stepped(), (n - 1) as nat);
        lemma_add_mod_noop(rng.counter + 1, n - 1, 0x1_0000_0000_0000_0000);
    }
}

/// One draw more: the generator after `n + 1` draws is the one after `n`
/// draws, stepped once.
pub proof fn lemma_after_one_more(rng: SquaresRNG, n: nat)
    ensures
        rng.after(n + 1) == rng.after(n).stepped(),
    decreases n,
{
    if n > 0 {
        lemma_after_one_more(rng.stepped(), (n - 1) as nat);
    } else {
        assert(rng.stepped().after(0) == rng.stepped());
    }
}

/// Drawing `a` times and then `b` times leaves the generator where `a + b`
/// draws leave it.
pub proof fn lemma_after_after(rng: SquaresRNG, a: nat, b: nat)
    ensures
        rng.after(a).after(b) == rng.after(a + b),
    decreases a,
{
    if a > 0 {
        lemma_after_after(rng.stepped(), (a - 1) as nat, b);
    }
}

/// The draw at place `i` of a stream depends on nothing but the key and the
/// counter `i` steps on: no draw depends on the draws before it.
pub proof fn lemma_draw_at(rng: SquaresRNG, n: nat, i: nat)
    requires
        i < n,
    ensures
        rng.draws(n)[i as int] == squares(wrap(rng.counter + i) as u64, rng.key),
{
    lemma_counter_progression(rng, i);
}

/// Two generators that start with the same counter and the same key give the
/// same draws, however many are taken, and are left in the same state.
pub proof fn lemma_equal_starts_equal_streams(a: SquaresRNG, b: SquaresRNG, n: nat)
    requires
        a.counter == b.counter,
        a.key == b.key,
    ensures
        a.draws(n) == b.draws(n),
        a.after(n) == b.after(n),
{
}

/// A generator made from the counter and key that another holds after `m`
/// draws goes on exactly as that one does: its first `n` draws are draws `m`
/// to `m + n` of the other.
pub proof fn lemma_resume_from_snapshot(rng: SquaresRNG, m: nat, n: nat)
    ensures
        (SquaresRNG { key: rng.after(m).key, counter: rng.after(m).counter }).draws(n)
            == rng.draws(m + n).subrange(m as int, (m + n) as int),
{
    let snapshot = SquaresRNG { key: rng.after(m).key, counter: rng.after(m).counter };
    let continued = rng.draws(m + n).subrange(m as int, (m + n) as int);
    assert forall|i: int| 0 <= i < n implies snapshot.draws(n)[i] == continued[i] by {
        lemma_after_after(rng, m, i as nat);
    }
    assert(snapshot.draws(n) =~= continued);
}

/// After 2^64 draws the generator is back where it began, and the stream
/// starts again.
pub proof fn lemma_full_period(rng: SquaresRNG)
    ensures
        rng.after(0x1_0000_0000_0000_0000) == rng,
{
    lemma_counter_progression(rng, 0x1_0000_0000_0000_0000);
}

} // verus!
