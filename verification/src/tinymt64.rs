//! The wide engine: two 64-bit state words, 64-bit output.

use vstd::prelude::*;
use vstd::wrapping::u64_specs;
use crate::{State64, TinyMT64};

verus! {

pub const TINYMT64_MEXP: usize = 127;
pub const TINYMT64_SH0: u64 = 12;
pub const TINYMT64_SH1: u64 = 11;
pub const TINYMT64_SH8: u64 = 8;
pub const TINYMT64_MASK: u64 = 0x7fff_ffff_ffff_ffff_u64;
pub const MIN_LOOP: usize = 8;

impl TinyMT64 {
    /// A generator with the given state words and parameters, taken as they
    /// are: nothing is mixed or certified.
    pub fn new(status: [u64; 2], mat1: u32, mat2: u32, tmat: u64) -> (r: TinyMT64)
        ensures
            r@ == (State64 { status: status@, mat1, mat2, tmat }),
    {
        TinyMT64 { status, mat1, mat2, tmat }
    }
}

/// All ones when `bit` is one, all zeros otherwise.
pub open spec fn spec_bit_to_mask(bit: u64) -> u64 {
    if bit == 1 { 0xffff_ffff_ffff_ffffu64 } else { 0u64 }
}

/// Turns a single bit into an all-ones or all-zeros word without branching:
/// the bit is negated as a signed value and read back as unsigned.
fn bit_to_mask(bit: u64) -> (m: u64)
    requires
        bit <= 1,
    ensures
        m == spec_bit_to_mask(bit),
{
    let b: i64 = bit as i64;
    let n: i64 = -b;
    assert(bit <= 1 && b == bit as i64 && n == -b ==> (n as u64) == spec_bit_to_mask(bit))
        by (bit_vector);
    #[verifier::truncate] (n as u64)
}

/// First multiplicative mixing function of the array initializer.
pub open spec fn spec_ini_func1(x: u64) -> u64 {
    u64_specs::wrapping_mul(x ^ (x >> 59), 2_173_292_883_993u64)
}

/// Second multiplicative mixing function of the array initializer.
pub open spec fn spec_ini_func2(x: u64) -> u64 {
    u64_specs::wrapping_mul(x ^ (x >> 59), 58_885_565_329_898_161u64)
}

fn ini_func1(x: u64) -> (r: u64)
    ensures
        r == spec_ini_func1(x),
{
    (x ^ (x >> 59)).wrapping_mul(2_173_292_883_993_u64)
}

fn ini_func2(x: u64) -> (r: u64)
    ensures
        r == spec_ini_func2(x),
{
    (x ^ (x >> 59)).wrapping_mul(58_885_565_329_898_161_u64)
}

/// The state that must never be used: every one of the 127 state bits is
/// zero (the top bit of the first word does not belong to the state).
pub open spec fn spec_degenerate(status: Seq<u64>) -> bool {
    status[0] & TINYMT64_MASK == 0 && status[1] == 0
}

/// A two-word state that is not degenerate.
pub open spec fn spec_certified(g: State64) -> bool {
    g.status.len() == 2 && !spec_degenerate(g.status)
}

/// Replaces a degenerate state by the marker words `T`, `M`.
pub open spec fn spec_period_certification(g: State64) -> State64 {
    if spec_degenerate(g.status) {
        State64 { status: seq!['T' as u64, 'M' as u64], ..g }
    } else {
        g
    }
}

fn period_certification(random: &mut TinyMT64)
    ensures
        final(random)@ == spec_period_certification(old(random)@),
        spec_certified(final(random)@),
{
    if random.status[0] & TINYMT64_MASK == 0 && random.status[1] == 0 {
        random.status[0] = 'T' as u64;
        random.status[1] = 'M' as u64;
        assert(random@.status =~= spec_period_certification(old(random)@).status);
        assert(0x54u64 & 0x7fff_ffff_ffff_ffffu64 != 0) by (bit_vector);
    }
}

/// One transition of the recurrence.
pub open spec fn spec_next_state(g: State64) -> State64 {
    let s0 = g.status[0] & TINYMT64_MASK;
    let x0 = s0 ^ g.status[1];
    let x1 = x0 ^ (x0 << TINYMT64_SH0);
    let x2 = x1 ^ (x1 >> 32);
    let x3 = x2 ^ (x2 << 32);
    let x = x3 ^ (x3 << TINYMT64_SH1);
    let m = spec_bit_to_mask(x & 1);
    State64 {
        status: seq![g.status[1] ^ (m & (g.mat1 as u64)), x ^ (m & ((g.mat2 as u64) << 32))],
        ..g
    }
}

/// `n` transitions in a row.
pub open spec fn spec_advance(g: State64, n: nat) -> State64
    decreases n,
{
    if n == 0 {
        g
    } else {
        spec_next_state(spec_advance(g, (n - 1) as nat))
    }
}

/// The output word read from a state.
pub open spec fn spec_temper(g: State64) -> u64 {
    let x0 = u64_specs::wrapping_add(g.status[0], g.status[1]);
    let x = x0 ^ (g.status[0] >> TINYMT64_SH8);
    x ^ (spec_bit_to_mask(x & 1) & g.tmat)
}

/// The `k`-th word that a generator in state `g` hands out, counted from zero.
pub open spec fn spec_output(g: State64, k: nat) -> u64 {
    spec_temper(spec_advance(g, k + 1))
}

/// Advances the generator by exactly one step.
pub fn tinymt64_next_state(random: &mut TinyMT64)
    ensures
        final(random)@ == spec_next_state(old(random)@),
        spec_certified(old(random)@) ==> spec_certified(final(random)@),
{
    random.status[0] &= TINYMT64_MASK;
    let mut x: u64 = random.status[0] ^ random.status[1];
    x ^= x << TINYMT64_SH0;
    x ^= x >> 32;
    x ^= x << 32;
    x ^= x << TINYMT64_SH1;
    random.status[0] = random.status[1];
    random.status[1] = x;
    assert(x & 1 <= 1) by (bit_vector);
    let m: u64 = bit_to_mask(x & 1);
    random.status[0] ^= m & (random.mat1 as u64);
    random.status[1] ^= m & ((random.mat2 as u64) << 32);
    proof {
        assert(random@.status =~= spec_next_state(old(random)@).status);
        if spec_certified(old(random)@) {
            lemma_next_state_keeps_certified(old(random)@);
        }
    }
}

/// The transition on plain words: if the new state is degenerate, the old
/// one was.
proof fn lemma_step_words(s0: u64, s1: u64, mat1: u32, mat2: u32)
    by (bit_vector)
    ensures
        ({
            let x0 = (s0 & 0x7fff_ffff_ffff_ffffu64) ^ s1;
            let x1 = x0 ^ (x0 << 12u64);
            let x2 = x1 ^ (x1 >> 32u64);
            let x3 = x2 ^ (x2 << 32u64);
            let x = x3 ^ (x3 << 11u64);
            let m = if x & 1 == 1 { 0xffff_ffff_ffff_ffffu64 } else { 0u64 };
            let n0 = s1 ^ (m & (mat1 as u64));
            let n1 = x ^ (m & ((mat2 as u64) << 32u64));
            (n0 & 0x7fff_ffff_ffff_ffffu64 == 0 && n1 == 0) ==> (s0 & 0x7fff_ffff_ffff_ffffu64 == 0
                && s1 == 0)
        }),
{
}

/// A certified state is not the all-zero vector.
pub proof fn lemma_certified_not_all_zero(g: State64)
    requires
        spec_certified(g),
    ensures
        g.status != seq![0u64, 0u64],
{
    assert(0u64 & 0x7fff_ffff_ffff_ffffu64 == 0) by (bit_vector);
}

/// A transition never leads from a certified state to the degenerate one.
pub proof fn lemma_next_state_keeps_certified(g: State64)
    requires
        spec_certified(g),
    ensures
        spec_certified(spec_next_state(g)),
{
    lemma_step_words(g.status[0], g.status[1], g.mat1, g.mat2);
}

/// Any number of transitions leaves a certified state certified.
pub proof fn lemma_advance_keeps_certified(g: State64, n: nat)
    requires
        spec_certified(g),
    ensures
        spec_certified(spec_advance(g, n)),
    decreases n,
{
    if n > 0 {
        lemma_advance_keeps_certified(g, (n - 1) as nat);
        lemma_next_state_keeps_certified(spec_advance(g, (n - 1) as nat));
    }
}

/// Round `i` of the scalar initializer: a multiplicative hash of the previous
/// word and the round number is folded into word `i mod 2`.
pub open spec fn spec_init_round(s: Seq<u64>, i: int) -> Seq<u64> {
    let prev = s[(i - 1) % 2];
    s.update(
        i % 2,
        s[i % 2] ^ u64_specs::wrapping_add(
            i as u64,
            u64_specs::wrapping_mul(6_364_136_223_846_793_005u64, prev ^ (prev >> 62)),
        ),
    )
}

/// Rounds `1` to `n` of the scalar initializer, in that order.
pub open spec fn spec_init_rounds(s: Seq<u64>, n: nat) -> Seq<u64>
    decreases n,
{
    if n == 0 {
        s
    } else {
        spec_init_round(spec_init_rounds(s, (n - 1) as nat), n as int)
    }
}

/// The generator that the scalar initializer builds from a seed: the seed and
/// the parameters are mixed for seven rounds and the period is certified.
pub open spec fn spec_init(mat1: u32, mat2: u32, tmat: u64, seed: u64) -> State64 {
    let start = seq![seed ^ ((mat1 as u64) << 32), (mat2 as u64) ^ tmat];
    let mixed = spec_init_rounds(start, (MIN_LOOP - 1) as nat);
    spec_period_certification(State64 { status: mixed, mat1, mat2, tmat })
}

/// Initializes the state from a 64-bit seed; the parameters stay as they are.
pub fn tinymt64_init(random: &mut TinyMT64, seed: u64)
    ensures
        final(random)@ == spec_init(
            old(random)@.mat1,
            old(random)@.mat2,
            old(random)@.tmat,
            seed,
        ),
        spec_certified(final(random)@),
{
    let ghost start = seq![seed ^ ((random.mat1 as u64) << 32), (random.mat2 as u64) ^ random.tmat];
    let ghost g0 = random@;
    random.status[0] = seed ^ ((random.mat1 as u64) << 32);
    random.status[1] = (random.mat2 as u64) ^ random.tmat;
    assert(random@.status =~= start);
    for i in 1..MIN_LOOP
        invariant
            random@.status == spec_init_rounds(start, (i - 1) as nat),
            random@.mat1 == g0.mat1,
            random@.mat2 == g0.mat2,
            random@.tmat == g0.tmat,
    {
        assert(i & 1 == i % 2 && (i - 1) as usize & 1 == (i - 1) as usize % 2 && i & 1 < 2 && ((i
            - 1) as usize) & 1 < 2) by (bit_vector)
            requires
                1 <= i < 8,
        ;
        let ghost before = random@.status;
        let prev: u64 = random.status[(i - 1) & 1];
        random.status[i & 1] ^= (i as u64).wrapping_add(
            6_364_136_223_846_793_005_u64.wrapping_mul(prev ^ (prev >> 62)),
        );
        assert(random@.status =~= spec_init_round(before, i as int));
    }
    period_certification(random);
}

/// One step of the first pass of the array initializer at ring position `i`
/// (from 0 to 3): the hash of three neighbouring words is added to the next
/// word, `extra` is added to the hash, the sum is added to the word after
/// that and replaces word `i`.
#[verifier::opaque]
pub open spec fn spec_mix1(st: Seq<u64>, i: int, extra: u64) -> Seq<u64> {
    let r0 = spec_ini_func1(st[i] ^ st[(i + 1) % 4] ^ st[(i + 3) % 4]);
    let st1 = st.update((i + 1) % 4, u64_specs::wrapping_add(st[(i + 1) % 4], r0));
    let r = u64_specs::wrapping_add(r0, extra);
    let st2 = st1.update((i + 2) % 4, u64_specs::wrapping_add(st1[(i + 2) % 4], r));
    st2.update(i, r)
}

/// One step of the closing pass of the array initializer at ring position
/// `i` (from 0 to 3): as the first pass, with sums for the hash's argument,
/// XOR in place of the additions, and the position subtracted from the hash.
#[verifier::opaque]
pub open spec fn spec_mix2(st: Seq<u64>, i: int) -> Seq<u64> {
    let r0 = spec_ini_func2(
        u64_specs::wrapping_add(
            u64_specs::wrapping_add(st[i], st[(i + 1) % 4]),
            st[(i + 3) % 4],
        ),
    );
    let st1 = st.update((i + 1) % 4, st[(i + 1) % 4] ^ r0);
    let r = u64_specs::wrapping_sub(r0, i as u64);
    let st2 = st1.update((i + 2) % 4, st1[(i + 2) % 4] ^ r);
    st2.update(i, r)
}

/// Runs one step of the first pass on the working buffer.
fn mix1(st: &mut [u64; 4], i: usize, extra: u64)
    requires
        i < 4,
    ensures
        final(st)@ == spec_mix1(old(st)@, i as int, extra),
{
    let lag: usize = 1;
    let mid: usize = 1;
    let size: usize = 4;
    let mut r: u64 = ini_func1(st[i] ^ st[(i + mid) % size] ^ st[(i + size - 1) % size]);
    st[(i + mid) % size] = st[(i + mid) % size].wrapping_add(r);
    r = r.wrapping_add(extra);
    st[(i + mid + lag) % size] = st[(i + mid + lag) % size].wrapping_add(r);
    st[i] = r;
    proof {
        reveal(spec_mix1);
    }
    assert(st@ =~= spec_mix1(old(st)@, i as int, extra));
}

/// Runs one step of the closing pass on the working buffer.
fn mix2(st: &mut [u64; 4], i: usize)
    requires
        i < 4,
    ensures
        final(st)@ == spec_mix2(old(st)@, i as int),
{
    let lag: usize = 1;
    let mid: usize = 1;
    let size: usize = 4;
    let mut r: u64 = ini_func2(
        st[i].wrapping_add(st[(i + mid) % size]).wrapping_add(st[(i + size - 1) % size]),
    );
    st[(i + mid) % size] ^= r;
    r = r.wrapping_sub(i as u64);
    st[(i + mid + lag) % size] ^= r;
    st[i] = r;
    proof {
        reveal(spec_mix2);
    }
    assert(st@ =~= spec_mix2(old(st)@, i as int));
}

/// What step `j` of the first pass folds in: the ring position, and before
/// it the `j`-th key word while there is one.
pub open spec fn spec_key_material(key: Seq<u64>, j: int) -> u64 {
    let i = ((j + 1) % 4) as u64;
    if j < key.len() {
        u64_specs::wrapping_add(key[j], i)
    } else {
        i
    }
}

/// The working buffer after the first `n` steps of the first pass, which
/// starts at ring position 1.
pub open spec fn spec_array_pass1(st: Seq<u64>, key: Seq<u64>, n: nat) -> Seq<u64>
    decreases n,
{
    if n == 0 {
        st
    } else {
        spec_mix1(
            spec_array_pass1(st, key, (n - 1) as nat),
            n as int % 4,
            spec_key_material(key, n - 1),
        )
    }
}

/// The working buffer after the first `n` steps of the closing pass, which
/// starts at ring position `first mod 4`.
pub open spec fn spec_array_pass2(st: Seq<u64>, first: int, n: nat) -> Seq<u64>
    decreases n,
{
    if n == 0 {
        st
    } else {
        spec_mix2(spec_array_pass2(st, first, (n - 1) as nat), (first + n - 1) % 4)
    }
}

/// Number of steps of the first pass after the opening one: one for each key
/// word, and at least seven.
pub open spec fn spec_array_count(key_length: nat) -> nat {
    if key_length >= MIN_LOOP {
        key_length
    } else {
        (MIN_LOOP - 1) as nat
    }
}

/// The generator that the array initializer builds from a key of any length:
/// the four-word working buffer is folded pairwise into the two state words.
pub open spec fn spec_init_by_array(mat1: u32, mat2: u32, tmat: u64, key: Seq<u64>) -> State64 {
    let count = spec_array_count(key.len());
    let opened = spec_mix1(seq![0u64, mat1 as u64, mat2 as u64, tmat], 0, key.len() as u64);
    let folded = spec_array_pass1(opened, key, count);
    let closed = spec_array_pass2(folded, (count + 1) as int, 4);
    spec_period_certification(
        State64 { status: seq![closed[0] ^ closed[1], closed[2] ^ closed[3]], mat1, mat2, tmat },
    )
}

/// Initializes the state from an array of 64-bit seeds of any length; the
/// parameters stay as they are.
pub fn tinymt64_init_by_array(random: &mut TinyMT64, init_key: &[u64])
    ensures
        final(random)@ == spec_init_by_array(
            old(random)@.mat1,
            old(random)@.mat2,
            old(random)@.tmat,
            init_key@,
        ),
        spec_certified(final(random)@),
{
    let size: usize = 4;
    let key_length: usize = init_key.len();
    let ghost g0 = random@;
    let ghost key = init_key@;

    let mut st: [u64; 4] = [0, random.mat1 as u64, random.mat2 as u64, random.tmat];
    assert(st@ =~= seq![0u64, g0.mat1 as u64, g0.mat2 as u64, g0.tmat]);
    let count: usize = if key_length >= MIN_LOOP {
        key_length
    } else {
        MIN_LOOP - 1
    };
    mix1(&mut st, 0, key_length as u64);
    let ghost opened = st@;
    let mut i: usize = 1;
    let boundary: usize = if count < key_length {
        count
    } else {
        key_length
    };
    for j in 0..boundary
        invariant
            boundary == key_length,
            key_length == key.len(),
            init_key@ == key,
            size == 4,
            i == (j + 1) % 4,
            st@ == spec_array_pass1(opened, key, j as nat),
    {
        mix1(&mut st, i, init_key[j].wrapping_add(i as u64));
        i = (i + 1) % size;
    }
    for j in boundary..count
        invariant
            boundary == key_length,
            key_length == key.len(),
            size == 4,
            i == (j + 1) % 4,
            st@ == spec_array_pass1(opened, key, j as nat),
    {
        mix1(&mut st, i, i as u64);
        i = (i + 1) % size;
    }
    let ghost folded = st@;
    for j in 0..size
        invariant
            size == 4,
            i == (count + 1 + j) % 4,
            st@ == spec_array_pass2(folded, count + 1, j as nat),
    {
        mix2(&mut st, i);
        i = (i + 1) % size;
    }
    random.status[0] = st[0] ^ st[1];
    random.status[1] = st[2] ^ st[3];
    assert(random@.status =~= seq![st@[0] ^ st@[1], st@[2] ^ st@[3]]);
    period_certification(random);
}

/// Reads the output word from the state.
pub fn tinymt64_temper(random: &TinyMT64) -> (r: u64)
    ensures
        r == spec_temper(random@),
{
    let mut x: u64 = random.status[0].wrapping_add(random.status[1]);
    x ^= random.status[0] >> TINYMT64_SH8;
    assert(x & 1 <= 1) by (bit_vector);
    x ^ (bit_to_mask(x & 1) & random.tmat)
}

/// The bit pattern of the IEEE-754 double in [1, 2) that a state stands for:
/// the upper 52 bits of the output word as the mantissa, under a zero
/// sign and the exponent of one.
pub open spec fn spec_temper_conv(g: State64) -> u64 {
    (spec_temper(g) >> 12) | 0x3ff0_0000_0000_0000u64
}

/// As `spec_temper_conv`, with the lowest mantissa bit set, which keeps the
/// number above one.
pub open spec fn spec_temper_conv_open(g: State64) -> u64 {
    (spec_temper(g) >> 12) | 0x3ff0_0000_0000_0001u64
}

/// The upper 53 bits of the output word: the numerator of a fraction
/// over 2^53 in [0, 1).
pub open spec fn spec_temper_fraction(g: State64) -> u64 {
    spec_temper(g) >> 11
}

/// The bits of a double in [1, 2), read from the state: sign zero, the
/// exponent of one, and the upper bits of the output word as the mantissa.
pub fn tinymt64_temper_conv_bits(random: &TinyMT64) -> (r: u64)
    ensures
        r == spec_temper_conv(random@),
        0x3ff0_0000_0000_0000 <= r < 0x4000_0000_0000_0000,
        r >> 52 == 0x3ff,
{
    let t: u64 = tinymt64_temper(random);
    assert(((t >> 12) | 0x3ff0_0000_0000_0000u64) >> 52 == 0x3ff) by (bit_vector);
    assert(0x3ff0_0000_0000_0000 <= ((t >> 12) | 0x3ff0_0000_0000_0000u64) < 0x4000_0000_0000_0000) by (bit_vector);
    (t >> 12) | 0x3ff0_0000_0000_0000u64
}

/// The bits of a double in (1, 2), read from the state: as
/// `tinymt64_temper_conv_bits`, with the lowest mantissa bit set.
pub fn tinymt64_temper_conv_open_bits(random: &TinyMT64) -> (r: u64)
    ensures
        r == spec_temper_conv_open(random@),
        0x3ff0_0000_0000_0000 < r < 0x4000_0000_0000_0000,
        r >> 52 == 0x3ff,
        r & 1 == 1,
{
    let t: u64 = tinymt64_temper(random);
    assert(((t >> 12) | 0x3ff0_0000_0000_0001u64) >> 52 == 0x3ff) by (bit_vector);
    assert(((t >> 12) | 0x3ff0_0000_0000_0001u64) & 1 == 1) by (bit_vector);
    assert(0x3ff0_0000_0000_0000 < ((t >> 12) | 0x3ff0_0000_0000_0001u64) < 0x4000_0000_0000_0000) by (bit_vector);
    (t >> 12) | 0x3ff0_0000_0000_0001u64
}

/// The numerator, below 2^53, of the fraction over 2^53 that the state
/// stands for.
pub fn tinymt64_temper_fraction(random: &TinyMT64) -> (r: u64)
    ensures
        r == spec_temper_fraction(random@),
        r < 0x20_0000_0000_0000,
{
    let t: u64 = tinymt64_temper(random);
    assert(t >> 11 < 0x20_0000_0000_0000) by (bit_vector);
    t >> 11
}

/// Stepping first and then `n` times is stepping `n + 1` times.
pub proof fn lemma_advance_after_step(g: State64, n: nat)
    ensures
        spec_advance(spec_next_state(g), n) == spec_advance(g, n + 1),
    decreases n,
{
    reveal_with_fuel(spec_advance, 2);
    if n > 0 {
        lemma_advance_after_step(g, (n - 1) as nat);
    }
}

/// Drawing from a generator after one step gives the words that follow the
/// first: output `k` of the stepped state is output `k + 1` of the state.
pub proof fn lemma_output_after_step(g: State64, k: nat)
    ensures
        spec_output(spec_next_state(g), k) == spec_output(g, k + 1),
{
    lemma_advance_after_step(g, k + 1);
}

/// Two generators with the same state words and parameters, such as two
/// that were built from the same seed with the same parameters, or a
/// generator and its copy, hand out the same words and pass through the same
/// states, however many words are drawn.
pub proof fn lemma_equal_generators_equal_outputs(a: TinyMT64, b: TinyMT64, k: nat)
    requires
        a@ == b@,
    ensures
        spec_output(a@, k) == spec_output(b@, k),
        spec_advance(a@, k) == spec_advance(b@, k),
{
}

/// One step, then the output word of the new state.
pub fn tinymt64_generate_uint64(random: &mut TinyMT64) -> (r: u64)
    ensures
        final(random)@ == spec_next_state(old(random)@),
        r == spec_temper(spec_next_state(old(random)@)),
        r == spec_output(old(random)@, 0),
        spec_certified(old(random)@) ==> spec_certified(final(random)@),
{
    tinymt64_next_state(random);
    proof {
        reveal_with_fuel(spec_advance, 2);
    }
    tinymt64_temper(random)
}

/// The Mersenne exponent of the period, 2^127 - 1.
pub fn tinymt64_get_mexp(_random: &TinyMT64) -> (r: usize)
    ensures
        r == 127,
{
    TINYMT64_MEXP
}

} // verus!
