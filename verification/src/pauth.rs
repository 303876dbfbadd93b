//! QARMA5 and the bounded AArch64 v8.3 pointer-authentication policy.
//!
//! The cipher is built from 16-cell nibble arrays.  Each layer has a spec
//! function; the layer inverses the cipher relies on (shuffle, tweak,
//! S-box, the involutory mix matrix, nibble packing) are proved as laws below.
use vstd::prelude::*;

verus! {

#[derive(Clone, Copy, Debug, PartialEq, Eq, Structural)]
pub struct Key {
    pub lo: u64,
    pub hi: u64,
}

pub type Cells = [u8; 16];

// ---------------------------------------------------------------------------
// Layers.
// ---------------------------------------------------------------------------

/// Every cell is a nibble.
pub open spec fn nibbles(c: Seq<u8>) -> bool {
    c.len() == 16 && forall|i: int| 0 <= i < 16 ==> #[trigger] c[i] < 16
}

pub open spec fn cell_of(word: u64, i: int) -> u8 {
    ((word >> ((i * 4) as u64)) & 15) as u8
}

pub open spec fn spec_cells(word: u64) -> Seq<u8> {
    Seq::new(16, |i: int| cell_of(word, i))
}

/// The word whose nibble `i` is cell `i`, for the first `n` cells.
pub open spec fn packed_prefix(c: Seq<u8>, n: int) -> u64
    decreases n,
{
    if n <= 0 {
        0
    } else {
        packed_prefix(c, n - 1) | ((c[n - 1] as u64) << ((n - 1) * 4) as u64)
    }
}

pub open spec fn spec_packed(c: Seq<u8>) -> u64 {
    packed_prefix(c, 16)
}

pub open spec fn spec_xor(c: Seq<u8>, word: u64) -> Seq<u8> {
    Seq::new(16, |i: int| c[i] ^ cell_of(word, i))
}

/// The cell permutation used by the round function, and its inverse.
pub open spec fn spec_shuffle(v: Seq<u8>) -> Seq<u8> {
    seq![v[13], v[6], v[11], v[0], v[7], v[12], v[1], v[10], v[8], v[3], v[14], v[5], v[2], v[9], v[4], v[15]]
}

pub open spec fn spec_unshuffle(v: Seq<u8>) -> Seq<u8> {
    seq![v[3], v[6], v[12], v[9], v[14], v[11], v[1], v[4], v[8], v[13], v[7], v[2], v[5], v[0], v[10], v[15]]
}

/// The tweak-schedule cell permutation and its inverse.
pub open spec fn spec_tweak_perm(v: Seq<u8>) -> Seq<u8> {
    seq![v[4], v[5], v[6], v[7], v[11], v[2], v[3], v[8], v[12], v[13], v[14], v[15], v[0], v[1], v[10], v[9]]
}

pub open spec fn spec_tweak_unperm(v: Seq<u8>) -> Seq<u8> {
    seq![v[12], v[13], v[5], v[6], v[0], v[1], v[2], v[3], v[7], v[15], v[14], v[4], v[8], v[9], v[10], v[11]]
}

/// The public 4-bit S-box and its inverse (an out-of-range cell maps to 0).
pub open spec fn spec_sbox(c: u8) -> u8 {
    if c == 0 { 11 } else if c == 1 { 6 } else if c == 2 { 8 } else if c == 3 { 15 } else if c == 4 { 12 }
    else if c == 5 { 0 } else if c == 6 { 9 } else if c == 7 { 14 } else if c == 8 { 3 } else if c == 9 { 7 }
    else if c == 10 { 4 } else if c == 11 { 5 } else if c == 12 { 13 } else if c == 13 { 2 } else if c == 14 { 1 }
    else { 10 }
}

pub open spec fn spec_sbox_inv(c: u8) -> u8 {
    if c == 0 { 5 } else if c == 1 { 14 } else if c == 2 { 13 } else if c == 3 { 8 } else if c == 4 { 10 }
    else if c == 5 { 11 } else if c == 6 { 1 } else if c == 7 { 9 } else if c == 8 { 2 } else if c == 9 { 6 }
    else if c == 10 { 15 } else if c == 11 { 0 } else if c == 12 { 4 } else if c == 13 { 12 } else if c == 14 { 7 }
    else if c == 15 { 3 } else { 0 }
}

pub open spec fn spec_substitute(v: Seq<u8>, inverse: bool) -> Seq<u8> {
    Seq::new(16, |i: int| if inverse { spec_sbox_inv(v[i]) } else { spec_sbox(v[i]) })
}

/// Left rotation of a nibble by 1 or 2.
pub open spec fn rot(c: u8, amount: u8) -> u8 {
    (((c << amount) | (c >> (4 - amount) as u8)) & 15) as u8
}

/// Row `row` of one mixed column `(a, b, c, d)`: the XOR of the other
/// rows, rotated by 2 for the opposite row and by 1 for the neighbours.
pub open spec fn col_mix(a: u8, b: u8, c: u8, d: u8, row: int) -> u8 {
    if row == 0 {
        rot(b, 1) ^ rot(c, 2) ^ rot(d, 1)
    } else if row == 1 {
        rot(a, 1) ^ rot(c, 1) ^ rot(d, 2)
    } else if row == 2 {
        rot(a, 2) ^ rot(b, 1) ^ rot(d, 1)
    } else {
        rot(a, 1) ^ rot(b, 2) ^ rot(c, 1)
    }
}

pub open spec fn mix_cell(v: Seq<u8>, column: int, row: int) -> u8 {
    col_mix(v[column], v[column + 4], v[column + 8], v[column + 12], row)
}

/// The involutory column mix.
pub open spec fn spec_mix(v: Seq<u8>) -> Seq<u8> {
    Seq::new(16, |i: int| mix_cell(v, i % 4, i / 4))
}

pub open spec fn lfsr(c: u8) -> u8 {
    ((c >> 1u8) | (((c ^ (c >> 1u8)) & 1) << 3u8)) as u8
}

pub open spec fn lfsr_inv(c: u8) -> u8 {
    (((c << 1u8) & 15) | ((c ^ (c >> 3u8)) & 1)) as u8
}

pub open spec fn is_lfsr_cell(i: int) -> bool {
    i == 2 || i == 4 || i == 7 || i == 11 || i == 12 || i == 14 || i == 15
}

/// One step of the tweak schedule (or its inverse).
pub open spec fn spec_tweak(v: Seq<u8>, inverse: bool) -> Seq<u8> {
    if inverse {
        spec_tweak_unperm(Seq::new(16, |i: int| if is_lfsr_cell(i) { lfsr_inv(v[i]) } else { v[i] }))
    } else {
        let p = spec_tweak_perm(v);
        Seq::new(16, |i: int| if is_lfsr_cell(i) { lfsr(p[i]) } else { p[i] })
    }
}

pub open spec fn round_constant(i: int) -> u64 {
    if i == 0 {
        0
    } else if i == 1 {
        0x13198a2e03707344
    } else if i == 2 {
        0xa4093822299f31d0
    } else if i == 3 {
        0x082efa98ec4e6c89
    } else {
        0x452821e638d01377
    }
}

pub const ALPHA: u64 = 0xc0ac29b7c97c50dd;

/// Forward rounds `0..n` on `(state, schedule)`.
pub open spec fn forward(state: Seq<u8>, schedule: Seq<u8>, key: Key, n: int) -> (Seq<u8>, Seq<u8>)
    decreases n,
{
    if n <= 0 {
        (state, schedule)
    } else {
        let (s, t) = forward(state, schedule, key, n - 1);
        let round = n - 1;
        let x = spec_xor(s, key.lo ^ spec_packed(t) ^ round_constant(round));
        let y = if round != 0 { spec_mix(spec_shuffle(x)) } else { x };
        (spec_substitute(y, false), spec_tweak(t, false))
    }
}

/// Backward rounds `round, round - 1, ..., 0`.
pub open spec fn backward(state: Seq<u8>, schedule: Seq<u8>, key: Key, round: int) -> (Seq<u8>, Seq<u8>)
    decreases round + 1,
{
    if round < 0 {
        (state, schedule)
    } else {
        let s = spec_substitute(state, true);
        let s2 = if round != 0 { spec_unshuffle(spec_mix(s)) } else { s };
        let t = spec_tweak(schedule, true);
        let s3 = spec_xor(s2, key.lo ^ spec_packed(t) ^ round_constant(round) ^ ALPHA);
        backward(s3, t, key, round - 1)
    }
}

pub open spec fn whitening(key: Key) -> u64 {
    ((key.hi >> 1u64) | (key.hi << 63u64)) ^ (key.hi >> 63u64)
}

/// QARMA5 of `data` under `modifier` and `key`.
pub open spec fn spec_qarma5(data: u64, modifier: u64, key: Key) -> u64 {
    let w = whitening(key);
    let (s1, t1) = forward(spec_cells(data ^ key.hi), spec_cells(modifier), key, 5);
    let s2 = spec_xor(s1, w ^ spec_packed(t1));
    let s3 = spec_substitute(spec_mix(spec_shuffle(s2)), false);
    let s4 = spec_xor(spec_mix(spec_shuffle(s3)), key.lo);
    let s5 = spec_unshuffle(spec_mix(spec_substitute(spec_unshuffle(s4), true)));
    let s6 = spec_xor(s5, key.hi ^ spec_packed(t1));
    let (s7, _) = backward(s6, t1, key, 4);
    spec_packed(s7) ^ w
}

// ---------------------------------------------------------------------------
// Layer implementations.
// ---------------------------------------------------------------------------

/// Four-bit cell arithmetic: XORs, rotations and the LFSR steps stay
/// within a nibble, and the LFSR steps undo each other.
proof fn lemma_nibble_ops(a: u8, b: u8, c: u8, amount: u8, s: u8)
    by (bit_vector)
    ensures
        a < 16 && b < 16 ==> a ^ b < 16,
        a < 16 && b < 16 && c < 16 ==> a ^ b ^ c < 16,
        a < 16 && 1 <= amount <= 2 ==> (a << amount) < 64,
        (((a << amount) | (a >> s)) & 15) < 16,
        a < 16 ==> ((a >> 1u8) | (((a ^ (a >> 1u8)) & 1) << 3u8)) < 16,
        (((a << 1u8) & 15) | ((a ^ (a >> 3u8)) & 1)) < 16,
        a < 16 ==> lfsr_inv(lfsr(a)) == a,
{
}

/// Packing one more nibble extends the low mask by four bits.
proof fn lemma_packed_bits(word: u64, s: u64)
    by (bit_vector)
    ensures
        word & ((1u64 << 0u64) - 1) as u64 == 0,
        s < 60 ==> (word & ((1u64 << s) - 1) as u64) | (((word >> s) & 15) << s) == word & ((1u64 << (s + 4) as u64)
            - 1) as u64,
        (word & ((1u64 << 60u64) - 1) as u64) | (((word >> 60u64) & 15) << 60u64) == word,
{
}

pub fn cells(word: u64) -> (c: Cells)
    ensures
        c@ == spec_cells(word),
        nibbles(c@),
{
    let mut c = [0u8; 16];
    let mut i: usize = 0;
    while i < 16
        invariant
            i <= 16,
            forall|j: int| 0 <= j < i ==> c@[j] == cell_of(word, j),
            forall|j: int| 0 <= j < 16 ==> c@[j] < 16,
        decreases 16 - i,
    {
        proof {
            let s = (i * 4) as u64;
            assert((word >> s) & 15 < 16) by {
                crate::bits::lemma_u64_bits(word >> s);
            }
        }
        c[i] = ((word >> ((i * 4) as u64)) & 15) as u8;
        i = i + 1;
    }
    assert(c@ =~= spec_cells(word));
    c
}

pub fn packed(value: Cells) -> (w: u64)
    ensures
        w == spec_packed(value@),
{
    let mut word: u64 = 0;
    let mut i: usize = 0;
    while i < 16
        invariant
            i <= 16,
            word == packed_prefix(value@, i as int),
        decreases 16 - i,
    {
        word = word | ((value[i] as u64) << ((i * 4) as u64));
        i = i + 1;
    }
    word
}

fn xor(state: &mut Cells, word: u64)
    ensures
        final(state)@ == spec_xor(old(state)@, word),
        nibbles(old(state)@) ==> nibbles(final(state)@),
{
    let ghost start = state@;
    let mut i: usize = 0;
    while i < 16
        invariant
            i <= 16,
            forall|j: int| 0 <= j < i ==> state@[j] == start[j] ^ cell_of(word, j),
            forall|j: int| i <= j < 16 ==> state@[j] == start[j],
            nibbles(start) ==> forall|j: int| 0 <= j < i ==> state@[j] < 16,
        decreases 16 - i,
    {
        let a = state[i];
        let b = ((word >> ((i * 4) as u64)) & 15) as u8;
        proof {
            if nibbles(start) {
                assert(start[i as int] < 16);
            }
            let s = (i * 4) as u64;
            assert((word >> s) & 15 < 16) by {
                crate::bits::lemma_u64_bits(word >> s);
            }
            assert(a < 16 && b < 16 ==> a ^ b < 16) by {
                lemma_nibble_ops(a, b, 0, 0, 0);
            }
        }
        state[i] = a ^ b;
        i = i + 1;
    }
    assert(state@ =~= spec_xor(start, word));
}

pub fn shuffle(v: Cells) -> (r: Cells)
    ensures
        r@ == spec_shuffle(v@),
{
    let r = [v[13], v[6], v[11], v[0], v[7], v[12], v[1], v[10], v[8], v[3], v[14], v[5], v[2], v[9], v[4], v[15]];
    assert(r@ =~= spec_shuffle(v@));
    r
}

pub fn unshuffle(v: Cells) -> (r: Cells)
    ensures
        r@ == spec_unshuffle(v@),
{
    let r = [v[3], v[6], v[12], v[9], v[14], v[11], v[1], v[4], v[8], v[13], v[7], v[2], v[5], v[0], v[10], v[15]];
    assert(r@ =~= spec_unshuffle(v@));
    r
}

fn sbox(c: u8) -> (r: u8)
    ensures
        c < 16 ==> r == spec_sbox(c),
{
    match c {
        0 => 11,
        1 => 6,
        2 => 8,
        3 => 15,
        4 => 12,
        5 => 0,
        6 => 9,
        7 => 14,
        8 => 3,
        9 => 7,
        10 => 4,
        11 => 5,
        12 => 13,
        13 => 2,
        14 => 1,
        _ => 10,
    }
}

/// Position of `c` in the S-box, found by search as the table is the one
/// public bijection; 0 when `c` is not a nibble.
fn sbox_inv(c: u8) -> (r: u8)
    ensures
        r == spec_sbox_inv(c),
{
    let mut i: u8 = 0;
    while i < 16
        invariant
            i <= 16,
            forall|j: u8| j < i ==> spec_sbox(j) != c,
        decreases 16 - i,
    {
        if sbox(i) == c {
            proof {
                lemma_sbox_inverse_pairs(i);
            }
            return i;
        }
        i = i + 1;
    }
    proof {
        if c < 16 {
            lemma_sbox_onto(c);
        }
    }
    0
}

proof fn lemma_sbox_inverse_pairs(i: u8)
    requires
        i < 16,
    ensures
        spec_sbox_inv(spec_sbox(i)) == i,
{
}

proof fn lemma_sbox_onto(c: u8)
    requires
        c < 16,
    ensures
        exists|j: u8| j < 16 && spec_sbox(j) == c,
{
    let j = spec_sbox_inv(c);
    assert(spec_sbox(j) == c);
}

pub fn substitute(value: &mut Cells, inverse: bool)
    requires
        nibbles(old(value)@),
    ensures
        final(value)@ == spec_substitute(old(value)@, inverse),
        nibbles(final(value)@),
{
    let ghost start = value@;
    let mut i: usize = 0;
    while i < 16
        invariant
            i <= 16,
            nibbles(start),
            forall|j: int| 0 <= j < i ==> value@[j] == (if inverse { spec_sbox_inv(start[j]) } else { spec_sbox(start[j]) }),
            forall|j: int| i <= j < 16 ==> value@[j] == start[j],
            forall|j: int| 0 <= j < 16 ==> value@[j] < 16,
        decreases 16 - i,
    {
        let cell = value[i];
        value[i] = if inverse { sbox_inv(cell) } else { sbox(cell) };
        i = i + 1;
    }
    assert(value@ =~= spec_substitute(start, inverse));
}

fn rot_exec(c: u8, amount: u8) -> (r: u8)
    requires
        c < 16,
        1 <= amount <= 2,
    ensures
        r == rot(c, amount),
        r < 16,
{
    proof {
        let s = (4 - amount) as u8;
        lemma_nibble_ops(c, 0, 0, amount, s);
    }
    ((c << amount) | (c >> (4 - amount))) & 15
}

pub fn mix(value: Cells) -> (r: Cells)
    requires
        nibbles(value@),
    ensures
        r@ == spec_mix(value@),
        nibbles(r@),
{
    let mut out = [0u8; 16];
    let mut i: usize = 0;
    while i < 16
        invariant
            i <= 16,
            nibbles(value@),
            forall|j: int| 0 <= j < i ==> out@[j] == mix_cell(value@, j % 4, j / 4),
            forall|j: int| 0 <= j < 16 ==> out@[j] < 16,
        decreases 16 - i,
    {
        let column = i % 4;
        let row = i / 4;
        let a = value[column];
        let b = value[column + 4];
        let c = value[column + 8];
        let d = value[column + 12];
        proof {
            assert(a == value@[column as int] && a < 16);
            assert(b == value@[column + 4] && b < 16);
            assert(c == value@[column + 8] && c < 16);
            assert(d == value@[column + 12] && d < 16);
        }
        let (x, y, z) = if row == 0 {
            (rot_exec(b, 1), rot_exec(c, 2), rot_exec(d, 1))
        } else if row == 1 {
            (rot_exec(a, 1), rot_exec(c, 1), rot_exec(d, 2))
        } else if row == 2 {
            (rot_exec(a, 2), rot_exec(b, 1), rot_exec(d, 1))
        } else {
            (rot_exec(a, 1), rot_exec(b, 2), rot_exec(c, 1))
        };
        proof {
            lemma_nibble_ops(x, y, z, 0, 0);
        }
        out[i] = x ^ y ^ z;
        i = i + 1;
    }
    assert(out@ =~= spec_mix(value@));
    out
}

fn lfsr_exec(c: u8) -> (r: u8)
    ensures
        r == lfsr(c),
        c < 16 ==> r < 16,
{
    proof {
        lemma_nibble_ops(c, 0, 0, 0, 0);
    }
    (c >> 1u8) | (((c ^ (c >> 1u8)) & 1) << 3u8)
}

fn lfsr_inv_exec(c: u8) -> (r: u8)
    ensures
        r == lfsr_inv(c),
        r < 16,
{
    proof {
        lemma_nibble_ops(c, 0, 0, 0, 0);
    }
    ((c << 1u8) & 15) | ((c ^ (c >> 3u8)) & 1)
}

fn tweak_perm(v: Cells) -> (r: Cells)
    ensures
        r@ == spec_tweak_perm(v@),
{
    let r = [v[4], v[5], v[6], v[7], v[11], v[2], v[3], v[8], v[12], v[13], v[14], v[15], v[0], v[1], v[10], v[9]];
    assert(r@ =~= spec_tweak_perm(v@));
    r
}

fn tweak_unperm(v: Cells) -> (r: Cells)
    ensures
        r@ == spec_tweak_unperm(v@),
{
    let r = [v[12], v[13], v[5], v[6], v[0], v[1], v[2], v[3], v[7], v[15], v[14], v[4], v[8], v[9], v[10], v[11]];
    assert(r@ =~= spec_tweak_unperm(v@));
    r
}

pub fn tweak(value: Cells, inverse: bool) -> (r: Cells)
    requires
        nibbles(value@),
    ensures
        r@ == spec_tweak(value@, inverse),
        nibbles(r@),
{
    let mut result = if inverse { value } else { tweak_perm(value) };
    let ghost start = result@;
    let mut i: usize = 0;
    while i < 16
        invariant
            i <= 16,
            nibbles(start),
            forall|j: int| 0 <= j < i ==> result@[j] == (if is_lfsr_cell(j) {
                if inverse { lfsr_inv(start[j]) } else { lfsr(start[j]) }
            } else {
                start[j]
            }),
            forall|j: int| i <= j < 16 ==> result@[j] == start[j],
            forall|j: int| 0 <= j < 16 ==> result@[j] < 16,
        decreases 16 - i,
    {
        if i == 2 || i == 4 || i == 7 || i == 11 || i == 12 || i == 14 || i == 15 {
            let cell = result[i];
            result[i] = if inverse { lfsr_inv_exec(cell) } else { lfsr_exec(cell) };
        }
        i = i + 1;
    }
    if inverse {
        let r = tweak_unperm(result);
        assert(result@ =~= Seq::new(16, |j: int| if is_lfsr_cell(j) { lfsr_inv(value@[j]) } else { value@[j] }));
        assert(r@ =~= spec_tweak(value@, inverse));
        r
    } else {
        assert(result@ =~= spec_tweak(value@, inverse));
        result
    }
}

fn round_constant_exec(i: usize) -> (c: u64)
    ensures
        c == round_constant(i as int),
{
    if i == 0 {
        0
    } else if i == 1 {
        0x13198a2e03707344
    } else if i == 2 {
        0xa4093822299f31d0
    } else if i == 3 {
        0x082efa98ec4e6c89
    } else {
        0x452821e638d01377
    }
}

fn forward_rounds(state: Cells, schedule: Cells, key: Key) -> (r: (Cells, Cells))
    requires
        nibbles(state@),
        nibbles(schedule@),
    ensures
        (r.0@, r.1@) == forward(state@, schedule@, key, 5),
        nibbles(r.0@),
        nibbles(r.1@),
{
    let ghost s0 = state@;
    let ghost t0 = schedule@;
    let mut state = state;
    let mut schedule = schedule;
    let mut round: usize = 0;
    while round < 5
        invariant
            round <= 5,
            (state@, schedule@) == forward(s0, t0, key, round as int),
            nibbles(state@),
            nibbles(schedule@),
        decreases 5 - round,
    {
        xor(&mut state, key.lo ^ packed(schedule) ^ round_constant_exec(round));
        if round != 0 {
            state = mix(shuffle(state));
        }
        substitute(&mut state, false);
        schedule = tweak(schedule, false);
        round = round + 1;
    }
    (state, schedule)
}

pub open spec fn center(state: Seq<u8>, t_packed: u64, key: Key) -> Seq<u8> {
    let s2 = spec_xor(state, whitening(key) ^ t_packed);
    let s3 = spec_substitute(spec_mix(spec_shuffle(s2)), false);
    let s4 = spec_xor(spec_mix(spec_shuffle(s3)), key.lo);
    let s5 = spec_unshuffle(spec_mix(spec_substitute(spec_unshuffle(s4), true)));
    spec_xor(s5, key.hi ^ t_packed)
}

#[verifier::rlimit(40)]
fn center_exec(state: Cells, t_packed: u64, w: u64, key: Key) -> (r: Cells)
    requires
        nibbles(state@),
        w == whitening(key),
    ensures
        r@ == center(state@, t_packed, key),
        nibbles(r@),
{
    let mut state = state;
    xor(&mut state, w ^ t_packed);
    state = mix(shuffle(state));
    substitute(&mut state, false);
    state = mix(shuffle(state));
    xor(&mut state, key.lo);
    state = unshuffle(state);
    substitute(&mut state, true);
    state = unshuffle(mix(state));
    xor(&mut state, key.hi ^ t_packed);
    state
}

fn backward_round(state: Cells, schedule: Cells, key: Key, r: usize) -> (out: (Cells, Cells))
    requires
        nibbles(state@),
        nibbles(schedule@),
    ensures
        nibbles(out.0@),
        nibbles(out.1@),
        backward(out.0@, out.1@, key, r as int - 1) == backward(state@, schedule@, key, r as int),
{
    let mut state = state;
    substitute(&mut state, true);
    if r != 0 {
        state = unshuffle(mix(state));
    }
    let schedule = tweak(schedule, true);
    xor(&mut state, key.lo ^ packed(schedule) ^ round_constant_exec(r) ^ ALPHA);
    (state, schedule)
}

/// QARMA5 block cipher (64-bit block, 64-bit tweak, 128-bit key).
pub fn qarma5(data: u64, modifier: u64, key: Key) -> (r: u64)
    ensures
        r == spec_qarma5(data, modifier, key),
{
    let w = ((key.hi >> 1u64) | (key.hi << 63u64)) ^ (key.hi >> 63u64);
    let (state, schedule) = forward_rounds(cells(data ^ key.hi), cells(modifier), key);
    let ghost t1 = schedule@;
    let mut state = center_exec(state, packed(schedule), w, key);
    let mut schedule = schedule;
    let ghost s6 = state@;
    let mut round: usize = 5;
    while round > 0
        invariant
            round <= 5,
            backward(state@, schedule@, key, round as int - 1) == backward(s6, t1, key, 4),
            nibbles(state@),
            nibbles(schedule@),
        decreases round,
    {
        let (s, t) = backward_round(state, schedule, key, round - 1);
        state = s;
        schedule = t;
        round = round - 1;
    }
    packed(state) ^ w
}

// ---------------------------------------------------------------------------
// Pointer-authentication policy.
// ---------------------------------------------------------------------------

#[derive(Clone, Copy, Debug, PartialEq, Eq, Structural)]
pub enum PauthError {
    Unsupported,
}

/// Key order is instruction A/B, data A/B, generic A.  Keys reset to zero.
#[derive(Clone, Copy, Debug, PartialEq, Eq)]
pub struct PauthState {
    pub keys: [Key; 5],
}

pub const TAG_MASK: u64 = 0xff7f_0000_0000_0000;
pub const LOW48: u64 = 0x0000_ffff_ffff_ffff;

/// The pointer with its extension bits rebuilt from bit 55.
pub open spec fn spec_canonical(pointer: u64) -> u64 {
    (pointer & LOW48) | (if pointer & 0x80_0000_0000_0000 != 0 { !LOW48 } else { 0 })
}

/// The supported regime: a 48-bit region (TnSZ = 16) for the half selected
/// by bit 55, TBI and TBID off.
pub open spec fn spec_valid_profile(pointer: u64, tcr: u64) -> bool {
    let shift: u64 = if pointer & 0x80_0000_0000_0000 != 0 { 16 } else { 0 };
    (tcr >> shift) & 63 == 16 && tcr & 0x0800_0060_0000_0000 == 0
}

/// The signed pointer: address bits kept, bit 55 taken from bit 63, the PAC
/// field from QARMA5 of the bit-63-extended address (bit 62 flipped when the
/// original extension was not canonical).
pub open spec fn spec_sign(keys: Seq<Key>, pointer: u64, modifier: u64, key: int) -> u64 {
    let high: u64 = if pointer >> 63u64 != 0 { !LOW48 } else { 0 };
    let original = (pointer & LOW48) | high;
    let t = spec_qarma5(original, modifier, keys[key]);
    let extension = pointer & !LOW48;
    let tag: u64 = if extension != 0 && extension != !LOW48 { t ^ 0x4000_0000_0000_0000 } else { t };
    (pointer & LOW48) | (high & 0x80_0000_0000_0000) | (tag & TAG_MASK)
}

/// Authentication: the canonical pointer when the PAC matches, otherwise
/// the canonical pointer with bits 62:61 poisoned (01 for A keys, 10 for B).
pub open spec fn spec_authenticate(keys: Seq<Key>, pointer: u64, modifier: u64, key: int) -> u64 {
    let original = spec_canonical(pointer);
    let expected = spec_qarma5(original, modifier, keys[key]);
    if (expected ^ pointer) & TAG_MASK == 0 {
        original
    } else {
        let failure: u64 = if key % 2 == 0 { 1 } else { 2 };
        (original & !0x6000_0000_0000_0000u64) | (failure << 61u64)
    }
}

fn canonical(pointer: u64) -> (r: u64)
    ensures
        r == spec_canonical(pointer),
{
    (pointer & LOW48) | if pointer & 0x80_0000_0000_0000 != 0 { !LOW48 } else { 0 }
}

fn valid_profile(pointer: u64, tcr: u64) -> (b: bool)
    ensures
        b == spec_valid_profile(pointer, tcr),
{
    let shift: u64 = if pointer & 0x80_0000_0000_0000 != 0 { 16 } else { 0 };
    (tcr >> shift) & 63 == 16 && tcr & 0x0800_0060_0000_0000 == 0
}

impl PauthState {
    pub fn reset() -> (s: Self)
        ensures
            forall|i: int| 0 <= i < 5 ==> s.keys@[i] == (Key { lo: 0, hi: 0 }),
    {
        let z = Key { lo: 0, hi: 0 };
        PauthState { keys: [z, z, z, z, z] }
    }

    /// Sign `pointer` with instruction/data key `key` (0..=3).
    pub fn sign(&self, pointer: u64, modifier: u64, key: usize, tcr: u64) -> (r: Result<u64, PauthError>)
        ensures
            key < 4 && spec_valid_profile(pointer, tcr) ==> r == Ok::<u64, PauthError>(spec_sign(self.keys@, pointer, modifier, key as int)),
            !(key < 4 && spec_valid_profile(pointer, tcr)) ==> r == Err::<u64, PauthError>(PauthError::Unsupported),
    {
        if key >= 4 || !valid_profile(pointer, tcr) {
            return Err(PauthError::Unsupported);
        }
        let high: u64 = if pointer >> 63u64 != 0 { !LOW48 } else { 0 };
        let original = (pointer & LOW48) | high;
        let mut tag = qarma5(original, modifier, self.keys[key]);
        let extension = pointer & !LOW48;
        if extension != 0 && extension != !LOW48 {
            tag = tag ^ 0x4000_0000_0000_0000;
        }
        Ok((pointer & LOW48) | (high & 0x80_0000_0000_0000) | (tag & TAG_MASK))
    }

    /// Authenticate `pointer`; a mismatch poisons bits 62:61 rather than
    /// failing (FEAT_PAuth without FPAC).
    pub fn authenticate(&self, pointer: u64, modifier: u64, key: usize, tcr: u64) -> (r: Result<u64, PauthError>)
        ensures
            key < 4 && spec_valid_profile(pointer, tcr) ==> r == Ok::<u64, PauthError>(spec_authenticate(self.keys@, pointer, modifier, key as int)),
            !(key < 4 && spec_valid_profile(pointer, tcr)) ==> r == Err::<u64, PauthError>(PauthError::Unsupported),
    {
        if key >= 4 || !valid_profile(pointer, tcr) {
            return Err(PauthError::Unsupported);
        }
        let original = canonical(pointer);
        let expected = qarma5(original, modifier, self.keys[key]);
        if (expected ^ pointer) & TAG_MASK == 0 {
            return Ok(original);
        }
        let failure: u64 = if key % 2 == 0 { 1 } else { 2 };
        Ok((original & !0x6000_0000_0000_0000u64) | (failure << 61u64))
    }

    /// Remove the PAC field.
    pub fn strip(pointer: u64, tcr: u64) -> (r: Result<u64, PauthError>)
        ensures
            spec_valid_profile(pointer, tcr) ==> r == Ok::<u64, PauthError>(spec_canonical(pointer)),
            !spec_valid_profile(pointer, tcr) ==> r == Err::<u64, PauthError>(PauthError::Unsupported),
    {
        if !valid_profile(pointer, tcr) {
            return Err(PauthError::Unsupported);
        }
        Ok(canonical(pointer))
    }
}

/// Architecture-only slow-path state shared with the native dispatcher.
#[derive(Clone, Copy)]
pub struct PauthContext {
    pub x: [u64; 31],
    pub sp: u64,
    pub pc: u64,
    pub sctlr: u64,
    pub tcr: u64,
    pub keys: [Key; 5],
    pub current_el: u32,
    pub reserved: u32,
}

/// The context as mathematics.
pub struct PauthView {
    pub x: Seq<u64>,
    pub sp: u64,
    pub pc: u64,
    pub sctlr: u64,
    pub tcr: u64,
    pub keys: Seq<Key>,
    pub current_el: u32,
    pub reserved: u32,
}

impl View for PauthContext {
    type V = PauthView;

    open spec fn view(&self) -> PauthView {
        PauthView {
            x: self.x@,
            sp: self.sp,
            pc: self.pc,
            sctlr: self.sctlr,
            tcr: self.tcr,
            keys: self.keys@,
            current_el: self.current_el,
            reserved: self.reserved,
        }
    }
}

/// Register `index` as a source: X0..X30, then SP or XZR.
pub open spec fn spec_reg(c: PauthView, index: u32, allow_sp: bool) -> u64 {
    if index < 31 { c.x[index as int] } else if allow_sp { c.sp } else { 0 }
}

/// Register `index` written; index 31 (XZR) discards.
pub open spec fn spec_put(c: PauthView, index: u32, value: u64) -> PauthView {
    if index < 31 {
        PauthView { x: c.x.update(index as int, value), ..c }
    } else {
        c
    }
}

/// The MRS/MSR system-register key (op0:op1:CRn:CRm:op2) of `word`.
pub open spec fn sys_key(word: u32) -> u32 {
    (word >> 5u32) & 0x7fff
}

/// The key register (key, half) addressed by a system-register key:
/// APIA/APIB, APDA/APDB, then APGA, low half first.
pub open spec fn key_slot(syskey: u32) -> Option<(u32, u32)> {
    if 0x4108 <= syskey <= 0x410b {
        Some((((syskey - 0x4108) / 2) as u32, ((syskey - 0x4108) % 2) as u32))
    } else if 0x4110 <= syskey <= 0x4113 {
        Some(((2 + (syskey - 0x4110) / 2) as u32, ((syskey - 0x4110) % 2) as u32))
    } else if 0x4118 <= syskey <= 0x4119 {
        Some((4, syskey % 2))
    } else {
        None
    }
}

pub open spec fn is_mrs(word: u32) -> bool {
    word & 0xffe00000 == 0xd5200000
}

pub open spec fn is_msr(word: u32) -> bool {
    word & 0xffe00000 == 0xd5000000
}

/// Whether `word` is an MRS/MSR of a key register, SCTLR_EL1, TCR_EL1 or
/// ID_AA64ISAR1_EL1.
pub open spec fn is_pauth_sysreg(word: u32) -> bool {
    (is_mrs(word) || is_msr(word)) && (key_slot(sys_key(word)) is Some || sys_key(word) == 0x4080 || sys_key(
        word,
    ) == 0x4102 || sys_key(word) == 0x4031)
}

/// The address of the next instruction, wrapping at the top of the space.
pub open spec fn pc_after(pc: u64) -> u64 {
    ((pc + 4) % 0x1_0000_0000_0000_0000) as u64
}

/// The effect of a system-register access handled here.
pub open spec fn sysreg_step(c: PauthView, word: u32) -> Result<PauthView, PauthError> {
    let rd = word & 31;
    let syskey = sys_key(word);
    let next_pc = PauthView { pc: pc_after(c.pc), ..c };
    if c.current_el != 1 || c.reserved != 0 {
        Err(PauthError::Unsupported)
    } else if key_slot(syskey) is Some {
        let (index, half) = key_slot(syskey)->Some_0;
        let k = c.keys[index as int];
        if is_mrs(word) {
            Ok(spec_put(PauthView { pc: next_pc.pc, ..c }, rd, if half == 0 { k.lo } else { k.hi }))
        } else {
            let value = spec_reg(c, rd, false);
            let nk = if half == 0 { Key { lo: value, hi: k.hi } } else { Key { lo: k.lo, hi: value } };
            Ok(PauthView { keys: c.keys.update(index as int, nk), pc: next_pc.pc, ..c })
        }
    } else if is_mrs(word) {
        Ok(spec_put(PauthView { pc: next_pc.pc, ..c }, rd, if syskey == 0x4080 {
            c.sctlr
        } else if syskey == 0x4102 {
            c.tcr
        } else {
            0x10
        }))
    } else if syskey == 0x4031 {
        Err(PauthError::Unsupported)
    } else if syskey == 0x4080 {
        // Enabling the MMU is not supported on this path.
        if spec_reg(c, rd, false) & 1 != 0 {
            Err(PauthError::Unsupported)
        } else {
            Ok(PauthView { sctlr: spec_reg(c, rd, false), pc: next_pc.pc, ..c })
        }
    } else {
        Ok(PauthView { tcr: spec_reg(c, rd, false), pc: next_pc.pc, ..c })
    }
}

/// A decoded PAC instruction: operation 0 sign, 1 authenticate, 2 strip.
#[derive(Clone, Copy, Debug, PartialEq, Eq, Structural)]
pub struct PacOp {
    pub operation: u32,
    pub key: u32,
    pub destination: u32,
    pub pointer: u64,
    pub modifier: u64,
    pub branch: bool,
    pub link: bool,
}

/// Decode the PAC families: PAC*/AUT* (register and zero-modifier forms),
/// XPACI/XPACD, XPACLRI, the HINT-space PAC*SP/Z and *1716 forms, BRAA/BLRAA
/// (and the zero-modifier forms) and RETAA/RETAB.  `Some(Err)` is a
/// malformed zero-modifier form.
pub open spec fn decode_pac(c: PauthView, word: u32) -> Option<Result<PacOp, PauthError>> {
    let rd = word & 31;
    let rn = (word >> 5u32) & 31;
    if word & 0xffffc000 == 0xdac10000 {
        let zero = word & 0x2000 != 0;
        if zero && rn != 31 {
            Some(Err(PauthError::Unsupported))
        } else {
            Some(Ok(PacOp {
                operation: (word >> 12u32) & 1,
                key: (word >> 10u32) & 3,
                destination: rd,
                pointer: spec_reg(c, rd, false),
                modifier: if zero { 0 } else { spec_reg(c, rn, true) },
                branch: false,
                link: false,
            }))
        }
    } else if word & 0xfffffbff == (0xdac143e0 | rd) {
        Some(Ok(PacOp { operation: 2, key: 0, destination: rd, pointer: spec_reg(c, rd, false), modifier: 0, branch: false, link: false }))
    } else if word == 0xd50320ff {
        Some(Ok(PacOp { operation: 2, key: 0, destination: 30, pointer: c.x[30], modifier: 0, branch: false, link: false }))
    } else if word & 0xffffff1f == 0xd503231f {
        Some(Ok(PacOp {
            operation: (word >> 7u32) & 1,
            key: (word >> 6u32) & 1,
            destination: 30,
            pointer: c.x[30],
            modifier: if word & 0x20 != 0 { c.sp } else { 0 },
            branch: false,
            link: false,
        }))
    } else if word & 0xffffff3f == 0xd503211f {
        Some(Ok(PacOp {
            operation: (word >> 7u32) & 1,
            key: (word >> 6u32) & 1,
            destination: 17,
            pointer: c.x[17],
            modifier: c.x[16],
            branch: false,
            link: false,
        }))
    } else if word & 0xffdff800 == 0xd71f0800 {
        Some(Ok(PacOp {
            operation: 1,
            key: (word >> 10u32) & 1,
            destination: rd,
            pointer: spec_reg(c, rn, false),
            modifier: spec_reg(c, rd, true),
            branch: true,
            link: word & 0x20_0000 != 0,
        }))
    } else if word & 0xffdff81f == 0xd61f081f {
        Some(Ok(PacOp {
            operation: 1,
            key: (word >> 10u32) & 1,
            destination: rd,
            pointer: spec_reg(c, rn, false),
            modifier: 0,
            branch: true,
            link: word & 0x20_0000 != 0,
        }))
    } else if word == 0xd65f0bff || word == 0xd65f0fff {
        Some(Ok(PacOp {
            operation: 1,
            key: (word >> 10u32) & 1,
            destination: rd,
            pointer: c.x[30],
            modifier: c.sp,
            branch: true,
            link: false,
        }))
    } else {
        None
    }
}

/// SCTLR_EL1 enable bit of each key: EnIA, EnIB, EnDA, EnDB.
pub open spec fn enable_bit(key: u32) -> u64 {
    if key == 0 { 31 } else if key == 1 { 30 } else if key == 2 { 27 } else { 13 }
}

/// The value a decoded operation produces.
pub open spec fn pac_value(c: PauthView, op: PacOp) -> Result<u64, PauthError> {
    if op.operation == 2 {
        if spec_valid_profile(op.pointer, c.tcr) { Ok(spec_canonical(op.pointer)) } else { Err(PauthError::Unsupported) }
    } else if c.sctlr & (1u64 << enable_bit(op.key)) == 0 {
        Ok(op.pointer)
    } else if !spec_valid_profile(op.pointer, c.tcr) {
        Err(PauthError::Unsupported)
    } else if op.operation == 0 {
        Ok(spec_sign(c.keys, op.pointer, op.modifier, op.key as int))
    } else {
        Ok(spec_authenticate(c.keys, op.pointer, op.modifier, op.key as int))
    }
}

/// The context after a decoded operation produced `value`: a branch
/// (optionally linking X30) or a register write, then the PC update.
pub open spec fn apply_op(c: PauthView, op: PacOp, value: u64) -> PauthView {
    if op.branch {
        let linked = if op.link { spec_put(c, 30, pc_after(c.pc)) } else { c };
        PauthView { pc: value, ..linked }
    } else {
        PauthView { pc: pc_after(c.pc), ..spec_put(c, op.destination, value) }
    }
}

/// What `step` does: `None` when the word is not a PAC instruction; an
/// error leaves the context unchanged.
pub open spec fn step_spec(c: PauthView, word: u32) -> Option<Result<PauthView, PauthError>> {
    if is_pauth_sysreg(word) {
        Some(sysreg_step(c, word))
    } else {
        match decode_pac(c, word) {
            None => None,
            Some(Err(e)) => Some(Err(e)),
            Some(Ok(op)) => if c.current_el != 1 || c.reserved != 0 {
                Some(Err(PauthError::Unsupported))
            } else {
                match pac_value(c, op) {
                    Err(e) => Some(Err(e)),
                    Ok(value) => Some(Ok(apply_op(c, op, value))),
                }
            },
        }
    }
}

/// The HINT-space PACIASP/PACIBSP/AUTIASP/AUTIBSP and PACIAZ/PACIBZ/
/// AUTIAZ/AUTIBZ forms act on X30 at EL1: with the key's SCTLR enable bit
/// clear they only step the PC; with it set and a supported pointer they
/// sign (bit 7 clear) or authenticate (bit 7 set) X30 with key A (bit 6
/// clear) or B, using SP as the modifier for the *SP forms (bit 5 set) and
/// zero for the *Z forms, and step the PC.
pub proof fn lemma_hint_pac_modifier(c: PauthView, word: u32)
    requires
        word & 0xffffff1f == 0xd503231f,
        c.current_el == 1,
        c.reserved == 0,
        c.x.len() == 31,
    ensures
        ({
            let key: int = if word & 0x40 == 0 { 0 } else { 1 };
            let modifier = if word & 0x20 != 0 { c.sp } else { 0 };
            let enabled = c.sctlr & (if key == 0 { 0x8000_0000u64 } else { 0x4000_0000u64 }) != 0;
            let next_pc = ((c.pc + 4) % 0x1_0000_0000_0000_0000) as u64;
            let p = c.x[30];
            &&& !enabled ==> step_spec(c, word) == Some(Ok::<PauthView, PauthError>(PauthView { pc: next_pc, ..c }))
            &&& enabled && spec_valid_profile(p, c.tcr) ==> step_spec(c, word) == Some(
                Ok::<PauthView, PauthError>(
                    PauthView {
                        x: c.x.update(
                            30,
                            if word & 0x80 == 0 {
                                spec_sign(c.keys, p, modifier, key)
                            } else {
                                spec_authenticate(c.keys, p, modifier, key)
                            },
                        ),
                        pc: next_pc,
                        ..c
                    },
                ),
            )
        }),
{
    assert(word & 0xffffc000 != 0xdac10000 && word & 0xfffffbff != (0xdac143e0 | (word & 31)) && word != 0xd50320ff
        && 0x1918 <= (word >> 5u32) & 0x7fff <= 0x191f && ((word >> 7u32) & 1 == 0) == (word & 0x80 == 0) && (word
        >> 7u32) & 1 <= 1 && ((word >> 6u32) & 1 == 0) == (word & 0x40 == 0) && (word >> 6u32) & 1 <= 1)
        by (bit_vector)
        requires
            word & 0xffffff1f == 0xd503231f,
    ;
    assert(1u64 << 31u64 == 0x8000_0000u64 && 1u64 << 30u64 == 0x4000_0000u64) by (bit_vector);
    let op = decode_pac(c, word)->Some_0->Ok_0;
    assert(op.key as int == if word & 0x40 == 0 { 0int } else { 1int });
    assert(c.x.update(30, c.x[30]) =~= c.x);
}

/// The register forms PAC{I,D}{A,B} / AUT{I,D}{A,B} Xd, Xn|SP and their
/// zero-modifier forms (bit 13 set, Xn = 31) act on Xd at EL1: with the
/// key's SCTLR enable bit clear they only step the PC; with it set and a
/// supported pointer they sign (bit 12 clear) or authenticate Xd with the
/// key in bits 11:10 (IA, IB, DA, DB), using Xn (SP for 31) as the modifier,
/// or zero for the zero forms, and step the PC.
pub proof fn lemma_register_pac_modifier(c: PauthView, word: u32)
    requires
        word & 0xffffc000 == 0xdac10000,
        !(word & 0x2000 != 0 && (word >> 5u32) & 31 != 31),
        word & 31 != 31,
        c.current_el == 1,
        c.reserved == 0,
        c.x.len() == 31,
    ensures
        ({
            let d = (word & 31) as int;
            let n = (word >> 5u32) & 31;
            let key = ((word >> 10u32) & 3) as int;
            let modifier = if word & 0x2000 != 0 { 0 } else if n == 31 { c.sp } else { c.x[n as int] };
            let enable: u64 = if key == 0 { 0x8000_0000 } else if key == 1 { 0x4000_0000 } else if key == 2 {
                0x800_0000
            } else {
                0x2000
            };
            let next_pc = ((c.pc + 4) % 0x1_0000_0000_0000_0000) as u64;
            let p = c.x[d];
            &&& c.sctlr & enable == 0 ==> step_spec(c, word) == Some(Ok::<PauthView, PauthError>(PauthView { pc: next_pc, ..c }))
            &&& c.sctlr & enable != 0 && spec_valid_profile(p, c.tcr) ==> step_spec(c, word) == Some(
                Ok::<PauthView, PauthError>(
                    PauthView {
                        x: c.x.update(
                            d,
                            if word & 0x1000 == 0 {
                                spec_sign(c.keys, p, modifier, key)
                            } else {
                                spec_authenticate(c.keys, p, modifier, key)
                            },
                        ),
                        pc: next_pc,
                        ..c
                    },
                ),
            )
        }),
{
    assert(!is_mrs(word) && !is_msr(word) && ((word >> 12u32) & 1 == 0) == (word & 0x1000 == 0) && (word >> 12u32)
        & 1 <= 1 && (word >> 10u32) & 3 <= 3 && (word >> 5u32) & 31 <= 31 && word & 31 <= 31) by (bit_vector)
        requires
            word & 0xffffc000 == 0xdac10000,
    ;
    assert(1u64 << 31u64 == 0x8000_0000u64 && 1u64 << 30u64 == 0x4000_0000u64 && 1u64 << 27u64 == 0x800_0000u64 && 1u64
        << 13u64 == 0x2000u64) by (bit_vector);
    assert(c.x.update((word & 31) as int, c.x[(word & 31) as int]) =~= c.x);
}

impl PauthContext {
    pub fn new(x: [u64; 31], sp: u64, pc: u64, sctlr: u64, tcr: u64, state: PauthState, current_el: u32) -> (c: Self)
        ensures
            c.x == x && c.sp == sp && c.pc == pc && c.sctlr == sctlr && c.tcr == tcr,
            c.keys == state.keys && c.current_el == current_el && c.reserved == 0,
    {
        PauthContext { x, sp, pc, sctlr, tcr, keys: state.keys, current_el, reserved: 0 }
    }

    pub fn state(&self) -> (s: PauthState)
        ensures
            s.keys == self.keys,
    {
        PauthState { keys: self.keys }
    }

    fn reg(&self, index: u32, allow_sp: bool) -> (v: u64)
        ensures
            v == spec_reg(self@, index, allow_sp),
    {
        if index < 31 {
            self.x[index as usize]
        } else if allow_sp {
            self.sp
        } else {
            0
        }
    }

    fn put(&mut self, index: u32, value: u64)
        ensures
            final(self)@ == spec_put(old(self)@, index, value),
    {
        if index < 31 {
            self.x[index as usize] = value;
        }
        proof {
            if index < 31 {
                assert(self.x@ =~= old(self).x@.update(index as int, value));
            }
        }
    }
}

fn decode_pac_exec(c: &PauthContext, word: u32) -> (r: Option<Result<PacOp, PauthError>>)
    ensures
        r == decode_pac(c@, word),
{
    let rd = word & 31;
    let rn = (word >> 5u32) & 31;
    if word & 0xffffc000 == 0xdac10000 {
        let zero = word & 0x2000 != 0;
        if zero && rn != 31 {
            return Some(Err(PauthError::Unsupported));
        }
        return Some(Ok(PacOp {
            operation: (word >> 12u32) & 1,
            key: (word >> 10u32) & 3,
            destination: rd,
            pointer: c.reg(rd, false),
            modifier: if zero { 0 } else { c.reg(rn, true) },
            branch: false,
            link: false,
        }));
    }
    if word & 0xfffffbff == (0xdac143e0 | rd) {
        return Some(Ok(PacOp { operation: 2, key: 0, destination: rd, pointer: c.reg(rd, false), modifier: 0, branch: false, link: false }));
    }
    if word == 0xd50320ff {
        return Some(Ok(PacOp { operation: 2, key: 0, destination: 30, pointer: c.x[30], modifier: 0, branch: false, link: false }));
    }
    if word & 0xffffff1f == 0xd503231f {
        return Some(Ok(PacOp {
            operation: (word >> 7u32) & 1,
            key: (word >> 6u32) & 1,
            destination: 30,
            pointer: c.x[30],
            modifier: if word & 0x20 != 0 { c.sp } else { 0 },
            branch: false,
            link: false,
        }));
    }
    if word & 0xffffff3f == 0xd503211f {
        return Some(Ok(PacOp {
            operation: (word >> 7u32) & 1,
            key: (word >> 6u32) & 1,
            destination: 17,
            pointer: c.x[17],
            modifier: c.x[16],
            branch: false,
            link: false,
        }));
    }
    if word & 0xffdff800 == 0xd71f0800 {
        return Some(Ok(PacOp {
            operation: 1,
            key: (word >> 10u32) & 1,
            destination: rd,
            pointer: c.reg(rn, false),
            modifier: c.reg(rd, true),
            branch: true,
            link: word & 0x20_0000 != 0,
        }));
    }
    if word & 0xffdff81f == 0xd61f081f {
        return Some(Ok(PacOp {
            operation: 1,
            key: (word >> 10u32) & 1,
            destination: rd,
            pointer: c.reg(rn, false),
            modifier: 0,
            branch: true,
            link: word & 0x20_0000 != 0,
        }));
    }
    if word == 0xd65f0bff || word == 0xd65f0fff {
        return Some(Ok(PacOp {
            operation: 1,
            key: (word >> 10u32) & 1,
            destination: rd,
            pointer: c.x[30],
            modifier: c.sp,
            branch: true,
            link: false,
        }));
    }
    None
}

fn key_slot_exec(syskey: u32) -> (r: Option<(u32, u32)>)
    ensures
        r == key_slot(syskey),
{
    if 0x4108 <= syskey && syskey <= 0x410b {
        Some(((syskey - 0x4108) / 2, (syskey - 0x4108) % 2))
    } else if 0x4110 <= syskey && syskey <= 0x4113 {
        Some((2 + (syskey - 0x4110) / 2, (syskey - 0x4110) % 2))
    } else if 0x4118 <= syskey && syskey <= 0x4119 {
        Some((4, syskey % 2))
    } else {
        None
    }
}

fn sysreg_exec(context: &mut PauthContext, word: u32) -> (r: Result<(), PauthError>)
    requires
        is_pauth_sysreg(word),
    ensures
        match (r, sysreg_step(old(context)@, word)) {
            (Err(e), Err(se)) => e == se && *final(context) == *old(context),
            (Ok(()), Ok(n)) => final(context)@ == n,
            _ => false,
        },
{
    let rd = word & 31;
    let syskey = (word >> 5u32) & 0x7fff;
    let mrs = word & 0xffe00000 == 0xd5200000;
    if context.current_el != 1 || context.reserved != 0 {
        return Err(PauthError::Unsupported);
    }
    let next_pc = context.pc.wrapping_add(4);
    let mut next = *context;
    match key_slot_exec(syskey) {
        Some((index, half)) => {
            proof {
                assert(index < 5);
            }
            if mrs {
                let key = context.keys[index as usize];
                next.put(rd, if half == 0 { key.lo } else { key.hi });
            } else {
                let value = context.reg(rd, false);
                let k = next.keys[index as usize];
                next.keys[index as usize] = if half == 0 { Key { lo: value, hi: k.hi } } else { Key { lo: k.lo, hi: value } };
            }
        },
        None => {
            if mrs {
                next.put(rd, if syskey == 0x4080 { context.sctlr } else if syskey == 0x4102 { context.tcr } else { 0x10 });
            } else if syskey == 0x4031 {
                return Err(PauthError::Unsupported);
            } else if syskey == 0x4080 {
                let value = context.reg(rd, false);
                if value & 1 != 0 {
                    return Err(PauthError::Unsupported);
                }
                next.sctlr = value;
            } else {
                next.tcr = context.reg(rd, false);
            }
        },
    }
    next.pc = next_pc;
    *context = next;
    proof {
        let sp = sysreg_step(old(context)@, word);
        assert(sp is Ok);
        assert(context.x@ =~= sp->Ok_0.x);
        assert(context.keys@ =~= sp->Ok_0.keys);
    }
    Ok(())
}

fn pac_value_exec(context: &PauthContext, op: PacOp) -> (r: Result<u64, PauthError>)
    requires
        op.key < 4,
        op.operation <= 2,
    ensures
        r == pac_value(context@, op),
{
    let enable: u64 = if op.key == 0 { 31 } else if op.key == 1 { 30 } else if op.key == 2 { 27 } else { 13 };
    let state = context.state();
    if op.operation == 2 {
        PauthState::strip(op.pointer, context.tcr)
    } else if context.sctlr & (1u64 << enable) == 0 {
        Ok(op.pointer)
    } else if op.operation == 0 {
        state.sign(op.pointer, op.modifier, op.key as usize, context.tcr)
    } else {
        state.authenticate(op.pointer, op.modifier, op.key as usize, context.tcr)
    }
}

/// Execute one pointer-authentication instruction.  `None` means the word
/// belongs to another decoder; an error leaves `context` unchanged.
pub fn step(context: &mut PauthContext, word: u32) -> (r: Option<Result<(), PauthError>>)
    ensures
        match (r, step_spec(old(context)@, word)) {
            (None, None) => *final(context) == *old(context),
            (Some(Err(e)), Some(Err(se))) => e == se && *final(context) == *old(context),
            (Some(Ok(())), Some(Ok(n))) => final(context)@ == n,
            _ => false,
        },
{
    let syskey = (word >> 5u32) & 0x7fff;
    let mrs = word & 0xffe00000 == 0xd5200000;
    let msr = word & 0xffe00000 == 0xd5000000;
    if (mrs || msr) && (key_slot_exec(syskey).is_some() || syskey == 0x4080 || syskey == 0x4102 || syskey == 0x4031) {
        return Some(sysreg_exec(context, word));
    }
    let op = match decode_pac_exec(context, word) {
        None => return None,
        Some(Err(e)) => return Some(Err(e)),
        Some(Ok(op)) => op,
    };
    if context.current_el != 1 || context.reserved != 0 {
        return Some(Err(PauthError::Unsupported));
    }
    proof {
        assert((word >> 12u32) & 1 <= 1) by {
            crate::bits::lemma_u32_bits(word);
        }
        assert((word >> 7u32) & 1 <= 1) by {
            crate::bits::lemma_u32_bits(word);
        }
        assert((word >> 10u32) & 3 <= 3) by {
            crate::bits::lemma_u32_bits(word);
        }
        assert((word >> 10u32) & 1 <= 1) by {
            crate::bits::lemma_u32_bits(word);
        }
        assert((word >> 6u32) & 1 <= 1) by {
            crate::bits::lemma_u32_bits(word);
        }
    }
    let value = match pac_value_exec(context, op) {
        Ok(v) => v,
        Err(e) => return Some(Err(e)),
    };
    apply_exec(context, op, value);
    Some(Ok(()))
}

fn apply_exec(context: &mut PauthContext, op: PacOp, value: u64)
    ensures
        final(context)@ == apply_op(old(context)@, op, value),
{
    let next_pc = context.pc.wrapping_add(4);
    if op.branch {
        if op.link {
            context.x[30] = next_pc;
            proof {
                assert(context.x@ =~= old(context).x@.update(30, pc_after(old(context).pc)));
            }
        }
        context.pc = value;
    } else {
        context.put(op.destination, value);
        context.pc = next_pc;
    }
}

/// A pointer whose bits 48..=63 all equal bit 47... or all equal bit 55's
/// extension: its upper sixteen bits are all zero or all one.
pub open spec fn canonical_pointer(p: u64) -> bool {
    p & !LOW48 == 0 || p & !LOW48 == !LOW48
}

/// Signing then authenticating with the same key and modifier gives the
/// canonical pointer back; stripping a signed pointer does too.
pub proof fn lemma_sign_then_authenticate(keys: Seq<Key>, pointer: u64, modifier: u64, key: int, tcr: u64)
    requires
        0 <= key < 4,
        keys.len() == 5,
        canonical_pointer(pointer),
        spec_valid_profile(pointer, tcr),
    ensures
        spec_valid_profile(spec_sign(keys, pointer, modifier, key), tcr),
        spec_authenticate(keys, spec_sign(keys, pointer, modifier, key), modifier, key) == pointer,
        spec_canonical(spec_sign(keys, pointer, modifier, key)) == pointer,
{
    let high: u64 = if pointer >> 63u64 != 0 { !LOW48 } else { 0 };
    let original = (pointer & LOW48) | high;
    let t = spec_qarma5(original, modifier, keys[key]);
    let signed = (pointer & LOW48) | (high & 0x80_0000_0000_0000) | (t & TAG_MASK);
    assert(pointer & !LOW48 == 0 || pointer & !LOW48 == !LOW48 ==> original == pointer) by (bit_vector)
        requires
            high == (if pointer >> 63u64 != 0 { !LOW48 } else { 0u64 }),
            original == (pointer & LOW48) | high,
    ;
    assert(spec_sign(keys, pointer, modifier, key) == signed);
    assert(pointer & !LOW48 == 0 || pointer & !LOW48 == !LOW48 ==> {
        &&& (signed & 0x80_0000_0000_0000 != 0) == (pointer & 0x80_0000_0000_0000 != 0)
        &&& ((signed & LOW48) | (if signed & 0x80_0000_0000_0000 != 0 { !LOW48 } else { 0u64 })) == pointer
        &&& (t ^ signed) & TAG_MASK == 0
    }) by (bit_vector)
        requires
            high == (if pointer >> 63u64 != 0 { !LOW48 } else { 0u64 }),
            signed == (pointer & LOW48) | (high & 0x80_0000_0000_0000) | (t & TAG_MASK),
    ;
}

// ---------------------------------------------------------------------------
// Layer laws.
// ---------------------------------------------------------------------------

/// The first `n` cells of a word pack to its low `4 n` bits.
proof fn lemma_packed_prefix(word: u64, n: int)
    requires
        0 <= n <= 15,
    ensures
        packed_prefix(spec_cells(word), n) == word & ((1u64 << ((n * 4) as u64)) - 1) as u64,
    decreases n,
{
    let c = spec_cells(word);
    if n == 0 {
        lemma_packed_bits(word, 0);
    } else {
        lemma_packed_prefix(word, n - 1);
        let s = ((n - 1) * 4) as u64;
        assert(c[n - 1] as u64 == (word >> s) & 15) by {
            assert((word >> s) & 15 < 16) by {
                crate::bits::lemma_u64_bits(word >> s);
            }
        }
        lemma_packed_bits(word, s);
    }
}

/// Unpacking then packing a word gives the word back.
pub proof fn lemma_packed_cells(word: u64)
    ensures
        spec_packed(spec_cells(word)) == word,
{
    let c = spec_cells(word);
    lemma_packed_prefix(word, 15);
    assert(c[15] as u64 == (word >> 60u64) & 15) by {
        assert((word >> 60u64) & 15 < 16) by {
            crate::bits::lemma_u64_bits(word);
        }
    }
    lemma_packed_bits(word, 60);
}

/// The shuffle and tweak permutations are undone by their inverses.
pub proof fn lemma_permutations_invert(v: Seq<u8>)
    requires
        v.len() == 16,
    ensures
        spec_unshuffle(spec_shuffle(v)) == v,
        spec_shuffle(spec_unshuffle(v)) == v,
        spec_tweak_unperm(spec_tweak_perm(v)) == v,
        spec_tweak_perm(spec_tweak_unperm(v)) == v,
{
    assert(spec_unshuffle(spec_shuffle(v)) =~= v);
    assert(spec_shuffle(spec_unshuffle(v)) =~= v);
    assert(spec_tweak_unperm(spec_tweak_perm(v)) =~= v);
    assert(spec_tweak_perm(spec_tweak_unperm(v)) =~= v);
}

/// The inverse S-box undoes the S-box on nibbles.
pub proof fn lemma_substitute_inverts(v: Seq<u8>)
    requires
        nibbles(v),
    ensures
        spec_substitute(spec_substitute(v, false), true) == v,
{
    assert forall|i: int| 0 <= i < 16 implies spec_sbox_inv(spec_sbox(v[i])) == v[i] by {
        lemma_sbox_inverse_pairs(v[i]);
    }
    assert(spec_substitute(spec_substitute(v, false), true) =~= v);
}

/// The inverse tweak step undoes the tweak step on nibbles.
pub proof fn lemma_tweak_inverts(v: Seq<u8>)
    requires
        nibbles(v),
    ensures
        spec_tweak(spec_tweak(v, false), true) == v,
{
    let p = spec_tweak_perm(v);
    let f = spec_tweak(v, false);
    assert forall|i: int| 0 <= i < 16 implies (if is_lfsr_cell(i) { lfsr_inv(f[i]) } else { f[i] }) == p[i] by {
        let c = p[i];
        assert(c < 16);
        lemma_nibble_ops(c, 0, 0, 0, 0);
    }
    let q = Seq::new(16, |i: int| if is_lfsr_cell(i) { lfsr_inv(f[i]) } else { f[i] });
    assert(q =~= p);
    lemma_permutations_invert(v);
}

/// The mix matrix is an involution on nibble arrays.
pub proof fn lemma_mix_involution(v: Seq<u8>)
    requires
        nibbles(v),
    ensures
        spec_mix(spec_mix(v)) == v,
{
    let m = spec_mix(v);
    assert forall|i: int| 0 <= i < 16 implies #[trigger] spec_mix(m)[i] == v[i] by {
        let col = i % 4;
        let row = i / 4;
        let a = v[col];
        let b = v[col + 4];
        let c = v[col + 8];
        let d = v[col + 12];
        assert(a < 16 && b < 16 && c < 16 && d < 16);
        lemma_mix_column(a, b, c, d);
        assert(m[col] == col_mix(a, b, c, d, 0));
        assert(m[col + 4] == col_mix(a, b, c, d, 1));
        assert(m[col + 8] == col_mix(a, b, c, d, 2));
        assert(m[col + 12] == col_mix(a, b, c, d, 3));
        assert(i == col + 4 * row);
    }
    assert(spec_mix(m) =~= v);
}

/// One column of the mix matrix, applied twice, is the identity.
proof fn lemma_mix_column(a: u8, b: u8, c: u8, d: u8)
    requires
        a < 16,
        b < 16,
        c < 16,
        d < 16,
    ensures
        ({
            let r0 = col_mix(a, b, c, d, 0);
            let r1 = col_mix(a, b, c, d, 1);
            let r2 = col_mix(a, b, c, d, 2);
            let r3 = col_mix(a, b, c, d, 3);
            &&& col_mix(r0, r1, r2, r3, 0) == a
            &&& col_mix(r0, r1, r2, r3, 1) == b
            &&& col_mix(r0, r1, r2, r3, 2) == c
            &&& col_mix(r0, r1, r2, r3, 3) == d
        }),
{
    let r0 = col_mix(a, b, c, d, 0);
    let r1 = col_mix(a, b, c, d, 1);
    let r2 = col_mix(a, b, c, d, 2);
    let r3 = col_mix(a, b, c, d, 3);
    assert(
        r0 == ((((b << 1u8) | (b >> 3u8)) & 15) ^ (((c << 2u8) | (c >> 2u8)) & 15) ^ (((d << 1u8) | (d >> 3u8)) & 15))
        && r1 == ((((a << 1u8) | (a >> 3u8)) & 15) ^ (((c << 1u8) | (c >> 3u8)) & 15) ^ (((d << 2u8) | (d >> 2u8)) & 15))
        && r2 == ((((a << 2u8) | (a >> 2u8)) & 15) ^ (((b << 1u8) | (b >> 3u8)) & 15) ^ (((d << 1u8) | (d >> 3u8)) & 15))
        && r3 == ((((a << 1u8) | (a >> 3u8)) & 15) ^ (((b << 2u8) | (b >> 2u8)) & 15) ^ (((c << 1u8) | (c >> 3u8)) & 15))
        ==> (
        ((((r1 << 1u8) | (r1 >> 3u8)) & 15) ^ (((r2 << 2u8) | (r2 >> 2u8)) & 15) ^ (((r3 << 1u8) | (r3 >> 3u8)) & 15)) == a
        && ((((r0 << 1u8) | (r0 >> 3u8)) & 15) ^ (((r2 << 1u8) | (r2 >> 3u8)) & 15) ^ (((r3 << 2u8) | (r3 >> 2u8)) & 15)) == b
        && ((((r0 << 2u8) | (r0 >> 2u8)) & 15) ^ (((r1 << 1u8) | (r1 >> 3u8)) & 15) ^ (((r3 << 1u8) | (r3 >> 3u8)) & 15)) == c
        && ((((r0 << 1u8) | (r0 >> 3u8)) & 15) ^ (((r1 << 2u8) | (r1 >> 2u8)) & 15) ^ (((r2 << 1u8) | (r2 >> 3u8)) & 15)) == d)
    ) by (bit_vector)
        requires
            a < 16,
            b < 16,
            c < 16,
            d < 16,
    ;
}

} // verus!
