//! The deterministic pseudo-random generator used by the random-byte
//! opcode: a multiply-with-carry generator over a 4096-word history, fully
//! determined by one 32-bit seed.

use vstd::arithmetic::power2::pow2;
use vstd::bits::lemma_u64_shr_is_div;
use vstd::prelude::*;

verus! {

broadcast use vstd::array::group_array_axioms;

/// Number of 32-bit words of generator history.
pub const CYCLE_SIZE: usize = 4096;

/// Odd constant used to spread the seed across the history.
pub const PHI: u32 = 0x9E3779B9;

/// Multiplier of the carry step.
pub const MULTIPLIER: u64 = 18782;

/// The generator's outputs are this constant minus the folded product.
pub const OUTPUT_BASE: u32 = 0xFFFFFFFE;

/// Mathematical model of the generator state.
#[verifier::ext_equal]
pub struct RandomView {
    pub history: Seq<u32>,
    pub carry: u32,
    pub index: int,
}

/// Word `i` of the freshly seeded history: the seed itself, then the seed
/// plus one and two times [`PHI`] (wrapping), then each word the XOR of the
/// words three and two back with [`PHI`] and the seed.
pub open spec fn seed_word(seed: u32, i: int) -> u32
    decreases i,
{
    if i <= 0 {
        seed
    } else if i == 1 {
        seed.wrapping_add(PHI)
    } else if i == 2 {
        seed.wrapping_add(PHI).wrapping_add(PHI)
    } else {
        seed_word(seed, i - 3) ^ seed_word(seed, i - 2) ^ PHI ^ seed
    }
}

/// The generator state right after seeding.
pub open spec fn initial_rng(seed: u32) -> RandomView {
    RandomView {
        history: Seq::new(CYCLE_SIZE as nat, |i: int| seed_word(seed, i)),
        carry: 362436u32,
        index: (CYCLE_SIZE - 1) as int,
    }
}

/// One generation step: advance the rotating index, fold the 64-bit
/// product of [`MULTIPLIER`] and the current history word plus the carry
/// into a new carry (high half) and candidate (low half plus carry, with a
/// single wraparound corrected by incrementing both), and store and return
/// [`OUTPUT_BASE`] minus the candidate (wrapping).
pub open spec fn mwc_step(s: RandomView) -> (RandomView, u32) {
    let i = (s.index + 1) % (CYCLE_SIZE as int);
    let t: int = MULTIPLIER * s.history[i] + s.carry;
    let c1: int = t / 0x1_0000_0000;
    let x0: int = (t + c1) % 0x1_0000_0000;
    let x: int = if x0 < c1 {
        x0 + 1
    } else {
        x0
    };
    let c2: int = if x0 < c1 {
        c1 + 1
    } else {
        c1
    };
    let out: u32 = OUTPUT_BASE.wrapping_sub(x as u32);
    (RandomView { history: s.history.update(i, out), carry: c2 as u32, index: i }, out)
}

/// The generator. Owned by the engine; reseeded only when the engine is
/// reconstructed.
pub struct MultiplyWithCarry {
    history: [u32; CYCLE_SIZE],
    carry: u32,
    index: usize,
}

impl View for MultiplyWithCarry {
    type V = RandomView;

    closed spec fn view(&self) -> RandomView {
        RandomView { history: self.history@, carry: self.carry, index: self.index as int }
    }
}

impl MultiplyWithCarry {
    /// Which well-formed states the generator keeps.
    pub open spec fn inv(&self) -> bool {
        &&& self@.history.len() == CYCLE_SIZE
        &&& 0 <= self@.index < CYCLE_SIZE
    }

    /// A generator deterministically seeded from `seed`.
    pub fn new(seed: u32) -> (r: Self)
        ensures
            r.inv(),
            r@ == initial_rng(seed),
    {
        let mut history = [0u32; CYCLE_SIZE];

        history[0] = seed;
        history[1] = seed.wrapping_add(PHI);
        history[2] = seed.wrapping_add(PHI).wrapping_add(PHI);

        let mut i: usize = 3;
        while i < CYCLE_SIZE
            invariant
                3 <= i <= CYCLE_SIZE,
                history@.len() == CYCLE_SIZE,
                forall|k: int| 0 <= k < i ==> history@[k] == seed_word(seed, k),
            decreases CYCLE_SIZE - i,
        {
            history[i] = history[i - 3] ^ history[i - 2] ^ PHI ^ seed;
            proof {
                assert(history@[i - 3] == seed_word(seed, i - 3));
                assert(history@[i - 2] == seed_word(seed, i - 2));
                assert(seed_word(seed, i as int) == seed_word(seed, i - 3) ^ seed_word(seed, i - 2)
                    ^ PHI ^ seed);
                assert(history@[i as int] == seed_word(seed, i as int));
            }
            i += 1;
        }

        let r = Self { history, carry: 362436, index: CYCLE_SIZE - 1 };
        proof {
            assert(r@.history =~= initial_rng(seed).history);
            assert(r@ =~= initial_rng(seed));
        }
        r
    }

    /// The next 32-bit output, by one [`mwc_step`]. Pure mutation of the
    /// internal state; never fails, and the sequence of outputs is a
    /// function of the seed alone.
    pub fn random(&mut self) -> (r: u32)
        requires
            old(self).inv(),
        ensures
            final(self).inv(),
            final(self)@ == mwc_step(old(self)@).0,
            r == mwc_step(old(self)@).1,
    {
        self.index = (self.index + 1) % CYCLE_SIZE;

        let h = self.history[self.index];
        let t: u64 = MULTIPLIER * (h as u64) + (self.carry as u64);
        proof {
            lemma_u64_shr_is_div(t, 32);
            vstd::arithmetic::power2::lemma2_to64();
            assert(pow2(32) == 0x1_0000_0000);
            assert(t < 18783u64 * 0x1_0000_0000u64);
            assert((t >> 32u64) == t as nat / 0x1_0000_0000);
            assert(t as int / 0x1_0000_0000 <= 18782);
        }

        self.carry = (t >> 32u64) as u32;
        let t2: u64 = t + self.carry as u64;
        let mut x: u32 = t2 as u32;
        proof {
            assert(t2 as u32 == t2 % 0x1_0000_0000) by (bit_vector);
        }
        if x < self.carry {
            x = x + 1;
            self.carry = self.carry + 1;
        }

        let out = OUTPUT_BASE.wrapping_sub(x);
        self.history[self.index] = out;
        proof {
            let step = mwc_step(old(self)@);
            assert(self.index as int == step.0.index);
            assert(self.carry == step.0.carry);
            assert(out == step.1);
            assert(self@.history =~= step.0.history);
            assert(self@ =~= step.0);
        }
        out
    }
}

} // verus!
