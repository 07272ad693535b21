//! Program addresses: a 32-byte public key and a deterministic scheme
//! that derives a program address from seed bytes.

use vstd::prelude::*;

verus! {

/// A 32-byte public key.
#[derive(Clone, PartialEq, Eq, Debug)]
pub struct Pubkey {
    /// The raw key bytes; always exactly 32 of them.
    pub bytes: Vec<u8>,
}

impl View for Pubkey {
    type V = Seq<u8>;

    open spec fn view(&self) -> Seq<u8> {
        self.bytes@
    }
}

impl Pubkey {
    /// A well-formed key holds exactly 32 bytes.
    pub open spec fn valid(&self) -> bool {
        self@.len() == 32
    }

    /// Whether this key equals `other` byte for byte.
    pub fn same_as(&self, other: &Pubkey) -> (r: bool)
        ensures
            r == (self@ == other@),
    {
        if self.bytes.len() != other.bytes.len() {
            assert(self@.len() != other@.len());
            return false;
        }
        let n = self.bytes.len();
        let mut i: usize = 0;
        while i < n
            invariant
                n == self.bytes.len() == other.bytes.len(),
                0 <= i <= n,
                forall|j: int| 0 <= j < i ==> self@[j] == other@[j],
            decreases n - i,
        {
            if self.bytes[i] != other.bytes[i] {
                return false;
            }
            i += 1;
        }
        assert(self@ =~= other@);
        true
    }

    /// A fresh vector holding this key's bytes.
    pub fn bytes_copy(&self) -> (r: Vec<u8>)
        ensures
            r@ == self@,
    {
        let n = self.bytes.len();
        let mut out: Vec<u8> = Vec::new();
        let mut i: usize = 0;
        while i < n
            invariant
                n == self.bytes.len(),
                0 <= i <= n,
                out@ == self@.subrange(0, i as int),
            decreases n - i,
        {
            out.push(self.bytes[i]);
            i += 1;
        }
        proof {
            assert(out@ =~= self@);
        }
        out
    }
}

/// Builds a key from a 32-byte array.
pub fn new_from_array(pubkey_array: [u8; 32]) -> (r: Pubkey)
    ensures
        r@ == pubkey_array@,
        r.valid(),
{
    let mut bytes: Vec<u8> = Vec::new();
    let mut i: usize = 0;
    while i < 32
        invariant
            0 <= i <= 32,
            bytes@ == pubkey_array@.subrange(0, i as int),
        decreases 32 - i,
    {
        bytes.push(pubkey_array[i]);
        i += 1;
    }
    proof {
        assert(bytes@ =~= pubkey_array@);
    }
    Pubkey { bytes }
}

/// Folds one byte of a seed into position `pos % 32` of the accumulator,
/// adding modulo 256.
pub open spec fn mix_byte(acc: Seq<u8>, pos: int, b: u8) -> Seq<u8> {
    acc.update(pos % 32, (((acc[pos % 32] + b) % 256) as u8))
}

/// The accumulator after folding in the first `n` bytes of `seed`.
pub open spec fn mix_seed_upto(acc: Seq<u8>, seed: Seq<u8>, n: int) -> Seq<u8>
    decreases n,
{
    if n <= 0 {
        acc
    } else {
        mix_byte(mix_seed_upto(acc, seed, n - 1), n - 1, seed[n - 1])
    }
}

/// The accumulator after folding in a whole seed.
pub open spec fn mix_seed(acc: Seq<u8>, seed: Seq<u8>) -> Seq<u8> {
    mix_seed_upto(acc, seed, seed.len() as int)
}

/// The accumulator after folding in the first `k` seeds.
pub open spec fn mix_seeds_upto(acc: Seq<u8>, seeds: Seq<Seq<u8>>, k: int) -> Seq<u8>
    decreases k,
{
    if k <= 0 {
        acc
    } else {
        mix_seed(mix_seeds_upto(acc, seeds, k - 1), seeds[k - 1])
    }
}

/// The mathematical value of a list of seeds.
pub open spec fn seeds_view(s: Seq<Vec<u8>>) -> Seq<Seq<u8>> {
    s.map_values(|v: Vec<u8>| v@)
}

/// The address derived from the given seeds and program key: the key
/// bytes with every seed byte folded in.
pub open spec fn derived_address(seeds: Seq<Seq<u8>>, program_id: Seq<u8>) -> Seq<u8> {
    mix_seeds_upto(program_id, seeds, seeds.len() as int)
}

/// Derives a program address from the seeds and the program key, and
/// hands back the fixed bump byte alongside it.
pub fn find_program_address(seeds: &Vec<Vec<u8>>, program_id: &Pubkey) -> (r: (Pubkey, u8))
    requires
        program_id.valid(),
    ensures
        r.0@ == derived_address(seeds_view(seeds@), program_id@),
        r.0.valid(),
        r.1 == 255u8,
{
    let mut acc: Vec<u8> = Vec::new();
    let mut i: usize = 0;
    while i < 32
        invariant
            0 <= i <= 32,
            program_id@.len() == 32,
            acc@ == program_id@.subrange(0, i as int),
        decreases 32 - i,
    {
        acc.push(program_id.bytes[i]);
        i += 1;
    }
    proof {
        assert(acc@ =~= program_id@);
    }
    let ghost sv = seeds_view(seeds@);
    let m = seeds.len();
    let mut k: usize = 0;
    while k < m
        invariant
            m == seeds.len(),
            0 <= k <= m,
            sv == seeds_view(seeds@),
            sv.len() == m,
            acc@ == mix_seeds_upto(program_id@, sv, k as int),
            acc@.len() == 32,
        decreases m - k,
    {
        let seed = &seeds[k];
        let ghost base = acc@;
        let n = seed.len();
        let mut j: usize = 0;
        while j < n
            invariant
                n == seed.len(),
                0 <= j <= n,
                seed@ == sv[k as int],
                acc@ == mix_seed_upto(base, seed@, j as int),
                acc@.len() == 32,
            decreases n - j,
        {
            let pos = j % 32;
            let s: u16 = acc[pos] as u16 + seed[j] as u16;
            acc[pos] = (s % 256) as u8;
            proof {
                assert(acc@ =~= mix_byte(mix_seed_upto(base, seed@, j as int), j as int, seed@[j as int]));
            }
            j += 1;
        }
        k += 1;
    }
    (Pubkey { bytes: acc }, 255)
}

} // verus!
