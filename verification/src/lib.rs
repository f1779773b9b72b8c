//! TinyMT: a small Mersenne-Twister-style pseudo-random number generator
//! with 127 bits of state, in a 32-bit and a 64-bit variant.
//!
//! Every generator is a pure function of its seed and its three parameters:
//! the contracts state each result over the mathematical models `State32`
//! and `State64`. Both generators implement `rand`'s `RngCore` and
//! `SeedableRng`. Not for cryptographic use.

use rand::{Error, RngCore, SeedableRng};
use vstd::prelude::*;
use vstd::std_specs::convert::FromSpecImpl;

pub mod tinymt32;
pub mod tinymt64;

verus! {

/// The four bytes of a 32-bit word, least significant first.
pub open spec fn spec_u32_le_bytes(x: u32) -> Seq<u8> {
    seq![
        (x % 0x100) as u8,
        (x / 0x100 % 0x100) as u8,
        (x / 0x1_0000 % 0x100) as u8,
        (x / 0x100_0000) as u8,
    ]
}

/// The 32-bit word whose bytes, least significant first, are `b`.
pub open spec fn spec_u32_from_le_bytes(b: Seq<u8>) -> u32 {
    (b[0] + b[1] * 0x100 + b[2] * 0x1_0000 + b[3] * 0x100_0000) as u32
}

/// `u32::to_le_bytes` of the standard library: the word's memory
/// representation as a byte array in little-endian order, so byte `k` holds
/// bits `8k` to `8k + 7`.
#[verifier::external_body]
fn u32_to_le_bytes(x: u32) -> (r: [u8; 4])
    ensures
        r@ == spec_u32_le_bytes(x),
{
    x.to_le_bytes()
}

/// `u32::from_le_bytes` of the standard library: the word whose
/// little-endian memory representation is the given byte array.
#[verifier::external_body]
fn u32_from_le_bytes(b: [u8; 4]) -> (r: u32)
    ensures
        r == spec_u32_from_le_bytes(b@),
{
    u32::from_le_bytes(b)
}

/// The eight bytes of a 64-bit word, least significant first.
pub open spec fn spec_u64_le_bytes(x: u64) -> Seq<u8> {
    seq![
        (x % 0x100) as u8,
        (x / 0x100 % 0x100) as u8,
        (x / 0x1_0000 % 0x100) as u8,
        (x / 0x100_0000 % 0x100) as u8,
        (x / 0x1_0000_0000 % 0x100) as u8,
        (x / 0x100_0000_0000 % 0x100) as u8,
        (x / 0x1_0000_0000_0000 % 0x100) as u8,
        (x / 0x100_0000_0000_0000) as u8,
    ]
}

/// The 64-bit word whose bytes, least significant first, are `b`.
pub open spec fn spec_u64_from_le_bytes(b: Seq<u8>) -> u64 {
    (b[0] + b[1] * 0x100 + b[2] * 0x1_0000 + b[3] * 0x100_0000 + b[4] * 0x1_0000_0000 + b[5]
        * 0x100_0000_0000 + b[6] * 0x1_0000_0000_0000 + b[7] * 0x100_0000_0000_0000) as u64
}

/// `u64::to_le_bytes` of the standard library: the word's memory
/// representation as a byte array in little-endian order, so byte `k` holds
/// bits `8k` to `8k + 7`.
#[verifier::external_body]
fn u64_to_le_bytes(x: u64) -> (r: [u8; 8])
    ensures
        r@ == spec_u64_le_bytes(x),
{
    x.to_le_bytes()
}

/// `u64::from_le_bytes` of the standard library: the word whose
/// little-endian memory representation is the given byte array.
#[verifier::external_body]
fn u64_from_le_bytes(b: [u8; 8]) -> (r: u64)
    ensures
        r == spec_u64_from_le_bytes(b@),
{
    u64::from_le_bytes(b)
}

/// Reading back the bytes of a 32-bit word gives the word.
pub proof fn lemma_u32_le_bytes_round_trip(x: u32)
    ensures
        spec_u32_le_bytes(x).len() == 4,
        spec_u32_from_le_bytes(spec_u32_le_bytes(x)) == x,
{
}

proof fn lemma_u64_byte_sum(x: u64)
    by (bit_vector)
    ensures
        x == (x % 0x100) + (x / 0x100 % 0x100) * 0x100 + (x / 0x1_0000 % 0x100) * 0x1_0000 + (x
            / 0x100_0000 % 0x100) * 0x100_0000 + (x / 0x1_0000_0000 % 0x100) * 0x1_0000_0000 + (x
            / 0x100_0000_0000 % 0x100) * 0x100_0000_0000 + (x / 0x1_0000_0000_0000 % 0x100)
            * 0x1_0000_0000_0000 + (x / 0x100_0000_0000_0000) * 0x100_0000_0000_0000,
{
}

/// Reading back the bytes of a 64-bit word gives the word.
pub proof fn lemma_u64_le_bytes_round_trip(x: u64)
    ensures
        spec_u64_le_bytes(x).len() == 8,
        spec_u64_from_le_bytes(spec_u64_le_bytes(x)) == x,
{
    lemma_u64_byte_sum(x);
    let b = spec_u64_le_bytes(x);
    assert(b[0] == x % 0x100);
    assert(b[1] == x / 0x100 % 0x100);
    assert(b[2] == x / 0x1_0000 % 0x100);
    assert(b[3] == x / 0x100_0000 % 0x100);
    assert(b[4] == x / 0x1_0000_0000 % 0x100);
    assert(b[5] == x / 0x100_0000_0000 % 0x100);
    assert(b[6] == x / 0x1_0000_0000_0000 % 0x100);
    assert(b[7] == x / 0x100_0000_0000_0000);
}

/// The error type of `rand`'s generator interface, which no operation of
/// this crate ever produces.
#[verifier::external_type_specification]
#[verifier::external_body]
pub struct ExRandError(Error);

/// Seed of a narrow generator: the four bytes of a 32-bit word, least
/// significant first.
pub struct TinyMT32Seed(pub [u8; 4]);

/// The seed that holds the bytes of `v`.
pub open spec fn spec_seed32(v: u32) -> TinyMT32Seed {
    TinyMT32Seed(
        [
            (v % 0x100) as u8,
            (v / 0x100 % 0x100) as u8,
            (v / 0x1_0000 % 0x100) as u8,
            (v / 0x100_0000) as u8,
        ],
    )
}

impl From<u32> for TinyMT32Seed {
    fn from(seed: u32) -> (r: Self) {
        let bytes = u32_to_le_bytes(seed);
        assert(bytes =~= spec_seed32(seed).0);
        TinyMT32Seed(bytes)
    }
}

impl FromSpecImpl<u32> for TinyMT32Seed {
    open spec fn obeys_from_spec() -> bool {
        true
    }

    open spec fn from_spec(v: u32) -> Self {
        spec_seed32(v)
    }
}

impl From<TinyMT32Seed> for u32 {
    fn from(seed: TinyMT32Seed) -> (r: Self) {
        u32_from_le_bytes(seed.0)
    }
}

impl FromSpecImpl<TinyMT32Seed> for u32 {
    open spec fn obeys_from_spec() -> bool {
        true
    }

    open spec fn from_spec(v: TinyMT32Seed) -> Self {
        spec_u32_from_le_bytes(v.0@)
    }
}

impl Default for TinyMT32Seed {
    fn default() -> (r: TinyMT32Seed)
        ensures
            r.0@ == seq![0u8, 0u8, 0u8, 0u8],
    {
        TinyMT32Seed([0;4])
    }
}

impl AsMut<[u8]> for TinyMT32Seed {
    fn as_mut(&mut self) -> (r: &mut [u8])
        ensures
            r@ == old(self).0@,
            final(self).0@ == final(r)@,
    {
        &mut self.0
    }
}

/// Mathematical model of a narrow generator: four 32-bit state words and the
/// three constants that select the recurrence.
pub struct State32 {
    pub status: Seq<u32>,
    pub mat1: u32,
    pub mat2: u32,
    pub tmat: u32,
}

/// Narrow generator: 127 bits of state in four 32-bit words, plus parameters.
#[derive(PartialEq, Debug, Copy, Clone)]
pub struct TinyMT32 {
    status: [u32; 4],
    mat1: u32,
    mat2: u32,
    tmat: u32,
}

impl View for TinyMT32 {
    type V = State32;

    open(crate) spec fn view(&self) -> State32 {
        State32 { status: self.status@, mat1: self.mat1, mat2: self.mat2, tmat: self.tmat }
    }
}

/// Seed of a wide generator: the eight bytes of a 64-bit word, least
/// significant first.
pub struct TinyMT64Seed(pub [u8; 8]);

/// The seed that holds the bytes of `v`.
pub open spec fn spec_seed64(v: u64) -> TinyMT64Seed {
    TinyMT64Seed(
        [
            (v % 0x100) as u8,
            (v / 0x100 % 0x100) as u8,
            (v / 0x1_0000 % 0x100) as u8,
            (v / 0x100_0000 % 0x100) as u8,
            (v / 0x1_0000_0000 % 0x100) as u8,
            (v / 0x100_0000_0000 % 0x100) as u8,
            (v / 0x1_0000_0000_0000 % 0x100) as u8,
            (v / 0x100_0000_0000_0000) as u8,
        ],
    )
}

impl From<u64> for TinyMT64Seed {
    fn from(seed: u64) -> (r: Self) {
        let bytes = u64_to_le_bytes(seed);
        assert(bytes =~= spec_seed64(seed).0);
        TinyMT64Seed(bytes)
    }
}

impl FromSpecImpl<u64> for TinyMT64Seed {
    open spec fn obeys_from_spec() -> bool {
        true
    }

    open spec fn from_spec(v: u64) -> Self {
        spec_seed64(v)
    }
}

impl From<TinyMT64Seed> for u64 {
    fn from(seed: TinyMT64Seed) -> (r: Self) {
        u64_from_le_bytes(seed.0)
    }
}

impl FromSpecImpl<TinyMT64Seed> for u64 {
    open spec fn obeys_from_spec() -> bool {
        true
    }

    open spec fn from_spec(v: TinyMT64Seed) -> Self {
        spec_u64_from_le_bytes(v.0@)
    }
}

impl Default for TinyMT64Seed {
    fn default() -> (r: TinyMT64Seed)
        ensures
            r.0@ == seq![0u8, 0u8, 0u8, 0u8, 0u8, 0u8, 0u8, 0u8],
    {
        TinyMT64Seed([0;8])
    }
}

impl AsMut<[u8]> for TinyMT64Seed {
    fn as_mut(&mut self) -> (r: &mut [u8])
        ensures
            r@ == old(self).0@,
            final(self).0@ == final(r)@,
    {
        &mut self.0
    }
}

/// Mathematical model of a wide generator: two 64-bit state words and the
/// three constants that select the recurrence.
pub struct State64 {
    pub status: Seq<u64>,
    pub mat1: u32,
    pub mat2: u32,
    pub tmat: u64,
}

/// Wide generator: 127 bits of state in two 64-bit words, plus parameters.
#[derive(PartialEq, Debug, Copy, Clone)]
pub struct TinyMT64 {
    status: [u64; 2],
    mat1: u32,
    mat2: u32,
    tmat: u64,
}

impl View for TinyMT64 {
    type V = State64;

    open(crate) spec fn view(&self) -> State64 {
        State64 { status: self.status@, mat1: self.mat1, mat2: self.mat2, tmat: self.tmat }
    }
}


/// The little-endian bytes of the first `words` output words of a generator
/// in state `g`, one word after the other.
pub open spec fn spec_byte_stream32(g: State32, words: nat) -> Seq<u8>
    decreases words,
{
    if words == 0 {
        Seq::empty()
    } else {
        spec_byte_stream32(g, (words - 1) as nat) + spec_u32_le_bytes(
            tinymt32::spec_output(g, (words - 1) as nat),
        )
    }
}

/// Byte `p` of the stream is byte `p mod 4` of output word `p / 4`.
pub proof fn lemma_byte_stream32_index(g: State32, words: nat, p: int)
    requires
        0 <= p < 4 * words,
    ensures
        spec_byte_stream32(g, words).len() == 4 * words,
        spec_byte_stream32(g, words)[p] == spec_u32_le_bytes(
            tinymt32::spec_output(g, (p / 4) as nat),
        )[p % 4],
    decreases words,
{
    lemma_byte_stream32_len(g, (words - 1) as nat);
    if p < 4 * (words - 1) {
        lemma_byte_stream32_index(g, (words - 1) as nat, p);
    }
}

/// The stream of `words` output words is `4 * words` bytes long.
pub proof fn lemma_byte_stream32_len(g: State32, words: nat)
    ensures
        spec_byte_stream32(g, words).len() == 4 * words,
    decreases words,
{
    if words > 0 {
        lemma_byte_stream32_len(g, (words - 1) as nat);
    }
}

impl TinyMT32 {
    /// The generator that the scalar initializer builds from `seed` with all
    /// three parameters zero.
    pub fn from_seed_u32(seed: u32) -> (r: Self)
        ensures
            r@ == tinymt32::spec_init(0, 0, 0, seed),
            tinymt32::spec_certified(r@),
    {
        proof {
            lemma_u32_le_bytes_round_trip(seed);
        }
        Self::from_seed(TinyMT32Seed::from(seed))
    }

    /// The state words.
    pub fn status(&self) -> (r: [u32; 4])
        ensures
            r@ == self@.status,
    {
        self.status
    }

    /// The first parameter of the recurrence.
    pub fn mat1(&self) -> (r: u32)
        ensures
            r == self@.mat1,
    {
        self.mat1
    }

    /// The second parameter of the recurrence.
    pub fn mat2(&self) -> (r: u32)
        ensures
            r == self@.mat2,
    {
        self.mat2
    }

    /// The tempering parameter.
    pub fn tmat(&self) -> (r: u32)
        ensures
            r == self@.tmat,
    {
        self.tmat
    }
}

/// Seeding through `rand`'s interface: the seed is a 32-bit word in
/// little-endian bytes.
impl SeedableRng for TinyMT32 {
    type Seed = TinyMT32Seed;

    /// The generator that the scalar initializer builds from the seed's word
    /// with all three parameters zero.
    fn from_seed(seed: TinyMT32Seed) -> (r: Self)
        ensures
            r@ == tinymt32::spec_init(0, 0, 0, spec_u32_from_le_bytes(seed.0@)),
            tinymt32::spec_certified(r@),
    {
        let mut random = TinyMT32 { status: [0, 0, 0, 0], mat1: 0, mat2: 0, tmat: 0 };
        tinymt32::tinymt32_init(&mut random, u32::from(seed));
        random
    }
}

/// Drawing words and bytes through `rand`'s interface.
impl RngCore for TinyMT32 {
    /// The next 32-bit output word.
    fn next_u32(&mut self) -> (r: u32)
        ensures
            final(self)@ == tinymt32::spec_next_state(old(self)@),
            r == tinymt32::spec_output(old(self)@, 0),
            tinymt32::spec_certified(old(self)@) ==> tinymt32::spec_certified(final(self)@),
    {
        tinymt32::tinymt32_generate_uint32(self)
    }

    /// Two output words as one 64-bit value, the first in the upper half.
    fn next_u64(&mut self) -> (r: u64)
        ensures
            final(self)@ == tinymt32::spec_advance(old(self)@, 2),
            r == ((tinymt32::spec_output(old(self)@, 0) as u64) << 32) | (tinymt32::spec_output(
                old(self)@,
                1,
            ) as u64),
            tinymt32::spec_certified(old(self)@) ==> tinymt32::spec_certified(final(self)@),
    {
        proof {
            reveal_with_fuel(tinymt32::spec_advance, 3);
        }
        let high: u32 = self.next_u32();
        let low: u32 = self.next_u32();
        ((high as u64) << 32) | (low as u64)
    }

    /// Fills `dest` with the little-endian bytes of as many output words as
    /// it takes; of the last word only the bytes that still fit are used.
    fn fill_bytes(&mut self, dest: &mut [u8])
        ensures
            final(dest)@ == spec_byte_stream32(
                old(self)@,
                ((old(dest)@.len() + 3) / 4) as nat,
            ).subrange(0, old(dest)@.len() as int),
            final(self)@ == tinymt32::spec_advance(
                old(self)@,
                ((old(dest)@.len() + 3) / 4) as nat,
            ),
            tinymt32::spec_certified(old(self)@) ==> tinymt32::spec_certified(final(self)@),
    {
        let ghost g0 = self@;
        let ghost n = dest@.len();
        let ghost mut words: nat = 0;
        let mut position: usize = 0;
        let mut remaining: usize = dest.len();
        while remaining > 0
            invariant
                dest@.len() == n,
                position + remaining == n,
                remaining > 0 ==> position == 4 * words,
                remaining == 0 ==> words == (n + 3) / 4,
                self@ == tinymt32::spec_advance(g0, words),
                tinymt32::spec_certified(g0) ==> tinymt32::spec_certified(self@),
                forall|p: int|
                    0 <= p < position ==> dest@[p] == #[trigger] spec_u32_le_bytes(
                        tinymt32::spec_output(g0, (p / 4) as nat),
                    )[p % 4],
            decreases remaining,
        {
            proof {
                reveal_with_fuel(tinymt32::spec_advance, 2);
            }
            let bytes: [u8; 4] = u32_to_le_bytes(self.next_u32());
            let take: usize = if remaining < 4 {
                remaining
            } else {
                4
            };
            let mut k: usize = 0;
            while k < take
                invariant
                    dest@.len() == n,
                    position + remaining == n,
                    k <= take <= 4,
                    remaining + k >= take,
                    remaining + k > 4 ==> take == 4,
                    remaining + k <= 4 ==> take == remaining + k,
                    position == 4 * words + k,
                    bytes@ == spec_u32_le_bytes(tinymt32::spec_output(g0, words)),
                    forall|p: int|
                        0 <= p < position ==> dest@[p] == #[trigger] spec_u32_le_bytes(
                            tinymt32::spec_output(g0, (p / 4) as nat),
                        )[p % 4],
                decreases take - k,
            {
                dest[position] = bytes[k];
                position += 1;
                remaining -= 1;
                k += 1;
            }
            proof {
                words = words + 1;
            }
        }
        proof {
            let stream = spec_byte_stream32(g0, words);
            lemma_byte_stream32_len(g0, words);
            assert forall|p: int| 0 <= p < n implies dest@[p] == stream[p] by {
                lemma_byte_stream32_index(g0, words, p);
            }
            assert(dest@ =~= stream.subrange(0, n as int));
        }
    }

    /// Fills `dest` as `fill_bytes` does; it never fails.
    fn try_fill_bytes(&mut self, dest: &mut [u8]) -> (r: Result<(), Error>)
        ensures
            r is Ok,
            final(dest)@ == spec_byte_stream32(
                old(self)@,
                ((old(dest)@.len() + 3) / 4) as nat,
            ).subrange(0, old(dest)@.len() as int),
            final(self)@ == tinymt32::spec_advance(
                old(self)@,
                ((old(dest)@.len() + 3) / 4) as nat,
            ),
            tinymt32::spec_certified(old(self)@) ==> tinymt32::spec_certified(final(self)@),
    {
        self.fill_bytes(dest);
        Ok(())
    }
}

/// The little-endian bytes of the first `words` output words of a generator
/// in state `g`, one word after the other.
pub open spec fn spec_byte_stream64(g: State64, words: nat) -> Seq<u8>
    decreases words,
{
    if words == 0 {
        Seq::empty()
    } else {
        spec_byte_stream64(g, (words - 1) as nat) + spec_u64_le_bytes(
            tinymt64::spec_output(g, (words - 1) as nat),
        )
    }
}

/// Byte `p` of the stream is byte `p mod 8` of output word `p / 8`.
pub proof fn lemma_byte_stream64_index(g: State64, words: nat, p: int)
    requires
        0 <= p < 8 * words,
    ensures
        spec_byte_stream64(g, words).len() == 8 * words,
        spec_byte_stream64(g, words)[p] == spec_u64_le_bytes(
            tinymt64::spec_output(g, (p / 8) as nat),
        )[p % 8],
    decreases words,
{
    lemma_byte_stream64_len(g, (words - 1) as nat);
    if p < 8 * (words - 1) {
        lemma_byte_stream64_index(g, (words - 1) as nat, p);
    }
}

/// The stream of `words` output words is `8 * words` bytes long.
pub proof fn lemma_byte_stream64_len(g: State64, words: nat)
    ensures
        spec_byte_stream64(g, words).len() == 8 * words,
    decreases words,
{
    if words > 0 {
        lemma_byte_stream64_len(g, (words - 1) as nat);
    }
}

impl TinyMT64 {
    /// The generator that the scalar initializer builds from `seed` with all
    /// three parameters zero.
    pub fn from_seed_u64(seed: u64) -> (r: Self)
        ensures
            r@ == tinymt64::spec_init(0, 0, 0, seed),
            tinymt64::spec_certified(r@),
    {
        proof {
            lemma_u64_le_bytes_round_trip(seed);
        }
        Self::from_seed(TinyMT64Seed::from(seed))
    }

    /// The state words.
    pub fn status(&self) -> (r: [u64; 2])
        ensures
            r@ == self@.status,
    {
        self.status
    }

    /// The first parameter of the recurrence.
    pub fn mat1(&self) -> (r: u32)
        ensures
            r == self@.mat1,
    {
        self.mat1
    }

    /// The second parameter of the recurrence.
    pub fn mat2(&self) -> (r: u32)
        ensures
            r == self@.mat2,
    {
        self.mat2
    }

    /// The tempering parameter.
    pub fn tmat(&self) -> (r: u64)
        ensures
            r == self@.tmat,
    {
        self.tmat
    }
}

/// Seeding through `rand`'s interface: the seed is a 64-bit word in
/// little-endian bytes.
impl SeedableRng for TinyMT64 {
    type Seed = TinyMT64Seed;

    /// The generator that the scalar initializer builds from the seed's word
    /// with all three parameters zero.
    fn from_seed(seed: TinyMT64Seed) -> (r: Self)
        ensures
            r@ == tinymt64::spec_init(0, 0, 0, spec_u64_from_le_bytes(seed.0@)),
            tinymt64::spec_certified(r@),
    {
        let mut random = TinyMT64 { status: [0, 0], mat1: 0, mat2: 0, tmat: 0 };
        tinymt64::tinymt64_init(&mut random, u64::from(seed));
        random
    }
}

/// Drawing words and bytes through `rand`'s interface.
impl RngCore for TinyMT64 {
    /// The lower half of the next 64-bit output word.
    fn next_u32(&mut self) -> (r: u32)
        ensures
            final(self)@ == tinymt64::spec_next_state(old(self)@),
            r == tinymt64::spec_output(old(self)@, 0) % 0x1_0000_0000,
            tinymt64::spec_certified(old(self)@) ==> tinymt64::spec_certified(final(self)@),
    {
        let word: u64 = self.next_u64();
        assert(word as u32 == word % 0x1_0000_0000) by (bit_vector);
        #[verifier::truncate] (word as u32)
    }

    /// The next 64-bit output word.
    fn next_u64(&mut self) -> (r: u64)
        ensures
            final(self)@ == tinymt64::spec_next_state(old(self)@),
            r == tinymt64::spec_output(old(self)@, 0),
            tinymt64::spec_certified(old(self)@) ==> tinymt64::spec_certified(final(self)@),
    {
        tinymt64::tinymt64_generate_uint64(self)
    }

    /// Fills `dest` with the little-endian bytes of as many output words as
    /// it takes; of the last word only the bytes that still fit are used.
    fn fill_bytes(&mut self, dest: &mut [u8])
        ensures
            final(dest)@ == spec_byte_stream64(
                old(self)@,
                ((old(dest)@.len() + 7) / 8) as nat,
            ).subrange(0, old(dest)@.len() as int),
            final(self)@ == tinymt64::spec_advance(
                old(self)@,
                ((old(dest)@.len() + 7) / 8) as nat,
            ),
            tinymt64::spec_certified(old(self)@) ==> tinymt64::spec_certified(final(self)@),
    {
        let ghost g0 = self@;
        let ghost n = dest@.len();
        let ghost mut words: nat = 0;
        let mut position: usize = 0;
        let mut remaining: usize = dest.len();
        while remaining > 0
            invariant
                dest@.len() == n,
                position + remaining == n,
                remaining > 0 ==> position == 8 * words,
                remaining == 0 ==> words == (n + 7) / 8,
                self@ == tinymt64::spec_advance(g0, words),
                tinymt64::spec_certified(g0) ==> tinymt64::spec_certified(self@),
                forall|p: int|
                    0 <= p < position ==> dest@[p] == #[trigger] spec_u64_le_bytes(
                        tinymt64::spec_output(g0, (p / 8) as nat),
                    )[p % 8],
            decreases remaining,
        {
            proof {
                reveal_with_fuel(tinymt64::spec_advance, 2);
            }
            let bytes: [u8; 8] = u64_to_le_bytes(self.next_u64());
            let take: usize = if remaining < 8 {
                remaining
            } else {
                8
            };
            let mut k: usize = 0;
            while k < take
                invariant
                    dest@.len() == n,
                    position + remaining == n,
                    k <= take <= 8,
                    remaining + k >= take,
                    remaining + k > 8 ==> take == 8,
                    remaining + k <= 8 ==> take == remaining + k,
                    position == 8 * words + k,
                    bytes@ == spec_u64_le_bytes(tinymt64::spec_output(g0, words)),
                    forall|p: int|
                        0 <= p < position ==> dest@[p] == #[trigger] spec_u64_le_bytes(
                            tinymt64::spec_output(g0, (p / 8) as nat),
                        )[p % 8],
                decreases take - k,
            {
                dest[position] = bytes[k];
                position += 1;
                remaining -= 1;
                k += 1;
            }
            proof {
                words = words + 1;
            }
        }
        proof {
            let stream = spec_byte_stream64(g0, words);
            lemma_byte_stream64_len(g0, words);
            assert forall|p: int| 0 <= p < n implies dest@[p] == stream[p] by {
                lemma_byte_stream64_index(g0, words, p);
            }
            assert(dest@ =~= stream.subrange(0, n as int));
        }
    }

    /// Fills `dest` as `fill_bytes` does; it never fails.
    fn try_fill_bytes(&mut self, dest: &mut [u8]) -> (r: Result<(), Error>)
        ensures
            r is Ok,
            final(dest)@ == spec_byte_stream64(
                old(self)@,
                ((old(dest)@.len() + 7) / 8) as nat,
            ).subrange(0, old(dest)@.len() as int),
            final(self)@ == tinymt64::spec_advance(
                old(self)@,
                ((old(dest)@.len() + 7) / 8) as nat,
            ),
            tinymt64::spec_certified(old(self)@) ==> tinymt64::spec_certified(final(self)@),
    {
        self.fill_bytes(dest);
        Ok(())
    }
}

} // verus!
