//! Binary-code modulation: the row cache loader and the phase encoder.
//!
//! A row pair (a panel row and the row 32 below it) is first mapped through
//! the gamma table into a cache of 10-bit drive durations, six per column.
//! Each of the ten BCM phases then sends one bit of every cached value: the
//! encoder packs, for one phase, the six bits of each column into one byte of
//! a line buffer, ready to be clocked out to the panel.
use vstd::prelude::*;
use vstd::arithmetic::power2::{pow2, lemma2_to64};
use crate::framebuf::MainFrameBuf;
use crate::gamma::{gamma, gamma_lookup, lemma_gamma_bounded};

verus! {

/// Number of BCM phases per row pair.
pub const BCM_PHASES: u8 = 10;

/// Number of row pairs the panel multiplexes between.
pub const ROW_PAIRS: u8 = 32;

/// Number of columns of the panel.
pub const COLUMNS: usize = 64;

/// Number of values in a row cache: six channels for each column.
pub const CACHE_LEN: usize = 384;

/// Number of bytes in a line buffer: one per column and a blanking byte.
pub const LINE_LEN: usize = 65;

/// The output bit that drives the latch strobe.
pub const LATCH_BIT: u8 = 0x40;

/// Gamma-mapped values for one row pair: for column `c`, entries `6c..6c+6`
/// hold R1, G1, B1 of the addressed row and R2, G2, B2 of the row 32 below.
pub type RowCache = [u16; 384];

/// One BCM phase of one row pair, as clocked out to the panel.
pub type LineBuf = [u8; 65];

/// The raw sample that entry `i` of the row cache for `row_pair` is mapped from.
pub open spec fn cache_sample(fb: MainFrameBuf, row_pair: int, i: int) -> u8 {
    let col = i / 6;
    let ch = i % 6;
    if ch < 3 {
        fb.sample(row_pair, col, ch)
    } else {
        fb.sample(row_pair + 32, col, ch - 3)
    }
}

/// The row cache for `row_pair` of the frame buffer `fb`.
pub open spec fn loaded_cache(fb: MainFrameBuf, row_pair: int) -> Seq<u16> {
    Seq::new(384, |i: int| gamma(cache_sample(fb, row_pair, i) as int))
}

/// Every value of the cache fits in ten bits.
pub open spec fn cache_in_range(cache: Seq<u16>) -> bool {
    cache.len() == CACHE_LEN && forall|i: int| 0 <= i < cache.len() ==> #[trigger] cache[i] < 1024
}

/// The bit of the cached values that a phase sends, once brightness skip is added.
pub open spec fn effective_phase(phase: u8, brightness_skip: u8) -> u8 {
    if phase + brightness_skip < BCM_PHASES {
        (phase + brightness_skip) as u8
    } else {
        BCM_PHASES
    }
}

/// Bit `e` of the value `v`, as 0 or 1.
pub open spec fn phase_bit(v: u16, e: u8) -> u8 {
    ((v >> (e as u16)) & 1u16) as u8
}

/// The six bits of column `col` for bit `e`, R1 in bit 0 up to B2 in bit 5.
pub open spec fn column_byte(cache: Seq<u16>, col: int, e: u8) -> u8 {
    phase_bit(cache[6 * col], e)
    | (phase_bit(cache[6 * col + 1], e) << 1u8)
    | (phase_bit(cache[6 * col + 2], e) << 2u8)
    | (phase_bit(cache[6 * col + 3], e) << 3u8)
    | (phase_bit(cache[6 * col + 4], e) << 4u8)
    | (phase_bit(cache[6 * col + 5], e) << 5u8)
}

/// The line buffer that sends bit `e` of every cached value: one byte per
/// column, the latch strobe on the last column, and a final blanking byte.
pub open spec fn rendered_line(cache: Seq<u16>, e: u8) -> Seq<u8> {
    Seq::new(65, |i: int|
        if i < 63 {
            column_byte(cache, i, e)
        } else if i == 63 {
            column_byte(cache, 63, e) | LATCH_BIT
        } else {
            0u8
        })
}

/// Map row `row_pair` and row `row_pair + 32` of the frame buffer through the
/// gamma table into `cache`, overwriting all of it.
pub fn load_row_cache(fb: &MainFrameBuf, row_pair: u8, cache: &mut RowCache)
    requires
        row_pair < ROW_PAIRS,
    ensures
        final(cache)@ == loaded_cache(*fb, row_pair as int),
{
    let upper = row_pair as usize;
    let lower = row_pair as usize + 32;
    let mut col: usize = 0;
    while col < COLUMNS
        invariant
            col <= COLUMNS,
            row_pair < ROW_PAIRS,
            upper == row_pair,
            lower == row_pair + 32,
            cache@.len() == CACHE_LEN,
            forall|i: int| 0 <= i < 6 * col ==> #[trigger] cache@[i] == loaded_cache(*fb, row_pair as int)[i],
        decreases COLUMNS - col,
    {
        let base = 6 * col;
        let ghost before = cache@;
        cache[base] = gamma_lookup(fb.0[upper][col][0]);
        cache[base + 1] = gamma_lookup(fb.0[upper][col][1]);
        cache[base + 2] = gamma_lookup(fb.0[upper][col][2]);
        cache[base + 3] = gamma_lookup(fb.0[lower][col][0]);
        cache[base + 4] = gamma_lookup(fb.0[lower][col][1]);
        cache[base + 5] = gamma_lookup(fb.0[lower][col][2]);
        assert forall|i: int| 0 <= i < 6 * (col + 1) implies #[trigger] cache@[i] == loaded_cache(*fb, row_pair as int)[i] by {
            if i >= base {
                assert((i / 6) == col && i % 6 == i - base);
            } else {
                assert(cache@[i] == before[i]);
            }
        }
        col = col + 1;
    }
    assert(cache@ =~= loaded_cache(*fb, row_pair as int));
}

/// The effective phase, computed without overflow.
fn effective_phase_of(phase: u8, brightness_skip: u8) -> (r: u8)
    requires
        phase < BCM_PHASES,
        brightness_skip <= BCM_PHASES,
    ensures
        r == effective_phase(phase, brightness_skip),
        r <= BCM_PHASES,
{
    if phase + brightness_skip < BCM_PHASES {
        phase + brightness_skip
    } else {
        BCM_PHASES
    }
}

/// Bit `e` of `v`.
fn bit_of(v: u16, e: u8) -> (r: u8)
    requires
        e <= BCM_PHASES,
    ensures
        r == phase_bit(v, e),
        r <= 1,
{
    let r = ((v >> (e as u16)) & 1u16) as u8;
    assert(((v >> (e as u16)) & 1u16) <= 1u16) by (bit_vector);
    r
}

/// Encode one BCM phase of the cached row pair into `out`.
///
/// The phase sends bit `min(phase + brightness_skip, 10)` of each cached
/// value. Bit 10 is zero for every value that fits in ten bits, as all
/// gamma-mapped values do, so for such a cache a skip that reaches it leaves
/// the columns dark.
pub fn render_phase(cache: &RowCache, phase: u8, brightness_skip: u8, out: &mut LineBuf)
    requires
        phase < BCM_PHASES,
        brightness_skip <= BCM_PHASES,
    ensures
        final(out)@ == rendered_line(cache@, effective_phase(phase, brightness_skip)),
{
    let e = effective_phase_of(phase, brightness_skip);
    let mut col: usize = 0;
    while col < COLUMNS
        invariant
            col <= COLUMNS,
            e <= BCM_PHASES,
            cache@.len() == CACHE_LEN,
            out@.len() == LINE_LEN,
            forall|i: int| 0 <= i < col ==> #[trigger] out@[i] == column_byte(cache@, i, e),
        decreases COLUMNS - col,
    {
        let base = 6 * col;
        let r1 = bit_of(cache[base], e);
        let g1 = bit_of(cache[base + 1], e);
        let b1 = bit_of(cache[base + 2], e);
        let r2 = bit_of(cache[base + 3], e);
        let g2 = bit_of(cache[base + 4], e);
        let b2 = bit_of(cache[base + 5], e);
        out[col] = r1 | (g1 << 1u8) | (b1 << 2u8) | (r2 << 3u8) | (g2 << 4u8) | (b2 << 5u8);
        col = col + 1;
    }
    out[63] = out[63] | LATCH_BIT;
    out[64] = 0;
    assert(out@ =~= rendered_line(cache@, e));
}

/// A line buffer that lights nothing: only the latch strobe on the last column.
pub open spec fn dark_line() -> Seq<u8> {
    Seq::new(65, |i: int| if i == 63 { LATCH_BIT } else { 0u8 })
}

/// Bit `ch` of byte `col` of a line buffer, as 0 or 1.
pub open spec fn line_bit(line: Seq<u8>, col: int, ch: int) -> int {
    ((line[col] >> (ch as u8)) & 1u8) as int
}

/// The value of channel `ch` of column `col` rebuilt from the first `n`
/// phases rendered without brightness skip, phase `p` weighing `2^p`.
pub open spec fn decoded_value(cache: Seq<u16>, col: int, ch: int, n: nat) -> int
    decreases n,
{
    if n == 0 {
        0
    } else {
        decoded_value(cache, col, ch, (n - 1) as nat)
            + line_bit(rendered_line(cache, effective_phase((n - 1) as u8, 0)), col, ch) * pow2((n - 1) as nat)
    }
}

proof fn lemma_bit_at_most_one(v: u16, e: u8)
    ensures
        phase_bit(v, e) <= 1,
{
    assert(((v >> (e as u16)) & 1u16) <= 1u16) by (bit_vector);
}

/// The six bits packed into a column byte can be read back one by one, and
/// none of them reaches the latch bit.
proof fn lemma_unpack(a: u8, b: u8, c: u8, d: u8, f: u8, g: u8)
    requires
        a <= 1, b <= 1, c <= 1, d <= 1, f <= 1, g <= 1,
    ensures
        ({
            let x = a | (b << 1u8) | (c << 2u8) | (d << 3u8) | (f << 4u8) | (g << 5u8);
            &&& x & LATCH_BIT == 0
            &&& x < 64
            &&& (x >> 0u8) & 1u8 == a
            &&& (x >> 1u8) & 1u8 == b
            &&& (x >> 2u8) & 1u8 == c
            &&& (x >> 3u8) & 1u8 == d
            &&& (x >> 4u8) & 1u8 == f
            &&& (x >> 5u8) & 1u8 == g
            &&& ((x | 0x40u8) >> 0u8) & 1u8 == a
            &&& ((x | 0x40u8) >> 1u8) & 1u8 == b
            &&& ((x | 0x40u8) >> 2u8) & 1u8 == c
            &&& ((x | 0x40u8) >> 3u8) & 1u8 == d
            &&& ((x | 0x40u8) >> 4u8) & 1u8 == f
            &&& ((x | 0x40u8) >> 5u8) & 1u8 == g
            &&& (x | 0x40u8) & 0x40u8 != 0
        }),
{
    assert({
        let x = a | (b << 1u8) | (c << 2u8) | (d << 3u8) | (f << 4u8) | (g << 5u8);
        &&& x & 0x40u8 == 0
        &&& x < 64
        &&& (x >> 0u8) & 1u8 == a
        &&& (x >> 1u8) & 1u8 == b
        &&& (x >> 2u8) & 1u8 == c
        &&& (x >> 3u8) & 1u8 == d
        &&& (x >> 4u8) & 1u8 == f
        &&& (x >> 5u8) & 1u8 == g
        &&& ((x | 0x40u8) >> 0u8) & 1u8 == a
        &&& ((x | 0x40u8) >> 1u8) & 1u8 == b
        &&& ((x | 0x40u8) >> 2u8) & 1u8 == c
        &&& ((x | 0x40u8) >> 3u8) & 1u8 == d
        &&& ((x | 0x40u8) >> 4u8) & 1u8 == f
        &&& ((x | 0x40u8) >> 5u8) & 1u8 == g
        &&& (x | 0x40u8) & 0x40u8 != 0
    }) by (bit_vector)
        requires
            a <= 1, b <= 1, c <= 1, d <= 1, f <= 1, g <= 1,
    ;
}

proof fn lemma_column_byte_bits(cache: Seq<u16>, col: int, e: u8)
    requires
        cache.len() == CACHE_LEN,
        0 <= col < 64,
    ensures
        column_byte(cache, col, e) & LATCH_BIT == 0,
        (column_byte(cache, col, e) | LATCH_BIT) & LATCH_BIT != 0,
        forall|ch: int| 0 <= ch < 6 ==> #[trigger] line_bit(rendered_line(cache, e), col, ch)
            == phase_bit(cache[6 * col + ch], e) as int,
{
    lemma_bit_at_most_one(cache[6 * col], e);
    lemma_bit_at_most_one(cache[6 * col + 1], e);
    lemma_bit_at_most_one(cache[6 * col + 2], e);
    lemma_bit_at_most_one(cache[6 * col + 3], e);
    lemma_bit_at_most_one(cache[6 * col + 4], e);
    lemma_bit_at_most_one(cache[6 * col + 5], e);
    lemma_unpack(
        phase_bit(cache[6 * col], e),
        phase_bit(cache[6 * col + 1], e),
        phase_bit(cache[6 * col + 2], e),
        phase_bit(cache[6 * col + 3], e),
        phase_bit(cache[6 * col + 4], e),
        phase_bit(cache[6 * col + 5], e),
    );
}

/// The latch strobe is set on the last column byte of every rendered line,
/// and on no other byte, whatever the cache, phase and brightness skip.
pub proof fn lemma_latch_only_on_last_column(cache: Seq<u16>, phase: u8, brightness_skip: u8)
    requires
        cache.len() == CACHE_LEN,
        phase < BCM_PHASES,
        brightness_skip <= BCM_PHASES,
    ensures
        forall|i: int| 0 <= i < LINE_LEN ==>
            (#[trigger] rendered_line(cache, effective_phase(phase, brightness_skip))[i] & LATCH_BIT != 0
                <==> i == 63),
{
    let e = effective_phase(phase, brightness_skip);
    assert forall|i: int| 0 <= i < LINE_LEN implies
        (#[trigger] rendered_line(cache, e)[i] & LATCH_BIT != 0 <==> i == 63) by {
        if i < 64 {
            lemma_column_byte_bits(cache, i, e);
        } else {
            assert(0u8 & 0x40u8 == 0) by (bit_vector);
        }
    }
}

/// The final byte of every rendered line is zero, blanking all data lines
/// after the latch edge.
pub proof fn lemma_blanking_byte(cache: Seq<u16>, phase: u8, brightness_skip: u8)
    ensures
        rendered_line(cache, effective_phase(phase, brightness_skip))[64] == 0,
{
}

/// With a brightness skip of ten phases every rendered line is dark: all
/// column bytes are zero but for the latch strobe, whatever the cache holds.
pub proof fn lemma_full_skip_is_dark(cache: Seq<u16>, phase: u8)
    requires
        cache_in_range(cache),
        phase < BCM_PHASES,
    ensures
        rendered_line(cache, effective_phase(phase, BCM_PHASES)) == dark_line(),
{
    let e = effective_phase(phase, BCM_PHASES);
    assert(e == 10);
    assert forall|i: int| 0 <= i < 384 implies #[trigger] phase_bit(cache[i], e) == 0 by {
        let v = cache[i];
        assert(v < 1024u16 ==> (v >> 10u16) & 1u16 == 0u16) by (bit_vector);
    }
    lemma_dark_when_bits_clear(cache, e);
}

/// A cache whose bit `e` is clear everywhere renders the dark line.
proof fn lemma_dark_when_bits_clear(cache: Seq<u16>, e: u8)
    requires
        cache.len() == CACHE_LEN,
        forall|i: int| 0 <= i < 384 ==> #[trigger] phase_bit(cache[i], e) == 0,
    ensures
        rendered_line(cache, e) == dark_line(),
{
    assert forall|col: int| 0 <= col < 64 implies #[trigger] column_byte(cache, col, e) == 0 by {
        assert(phase_bit(cache[6 * col], e) == 0);
        assert(phase_bit(cache[6 * col + 1], e) == 0);
        assert(phase_bit(cache[6 * col + 2], e) == 0);
        assert(phase_bit(cache[6 * col + 3], e) == 0);
        assert(phase_bit(cache[6 * col + 4], e) == 0);
        assert(phase_bit(cache[6 * col + 5], e) == 0);
        assert((0u8 | (0u8 << 1u8) | (0u8 << 2u8) | (0u8 << 3u8) | (0u8 << 4u8) | (0u8 << 5u8)) == 0u8) by (bit_vector);
    }
    assert((0u8 | LATCH_BIT) == LATCH_BIT) by (bit_vector);
    assert(rendered_line(cache, e) =~= dark_line());
}

/// An all-black frame buffer renders dark lines for every row pair, phase and
/// brightness skip.
pub proof fn lemma_black_frame_is_dark(fb: MainFrameBuf, row_pair: int, phase: u8, brightness_skip: u8)
    requires
        0 <= row_pair < ROW_PAIRS,
        phase < BCM_PHASES,
        brightness_skip <= BCM_PHASES,
        forall|y: int, x: int, ch: int|
            0 <= y < 64 && 0 <= x < 64 && 0 <= ch < 3 ==> #[trigger] fb.sample(y, x, ch) == 0,
    ensures
        rendered_line(loaded_cache(fb, row_pair), effective_phase(phase, brightness_skip)) == dark_line(),
{
    let cache = loaded_cache(fb, row_pair);
    let e = effective_phase(phase, brightness_skip);
    assert(gamma(0) == 0);
    assert forall|i: int| 0 <= i < 384 implies #[trigger] phase_bit(cache[i], e) == 0 by {
        let ch = i % 6;
        if ch < 3 {
            assert(fb.sample(row_pair, i / 6, ch) == 0);
        } else {
            assert(fb.sample(row_pair + 32, i / 6, ch - 3) == 0);
        }
        assert(cache[i] == 0);
        assert((0u16 >> (e as u16)) & 1u16 == 0u16) by (bit_vector);
    }
    lemma_dark_when_bits_clear(cache, e);
}

/// A 10-bit value is the sum of its ten bits, bit `p` weighing `2^p`.
proof fn lemma_ten_bits(v: u16)
    requires
        v < 1024,
    ensures
        v as int == phase_bit(v, 0) as int + phase_bit(v, 1) as int * 2 + phase_bit(v, 2) as int * 4
            + phase_bit(v, 3) as int * 8 + phase_bit(v, 4) as int * 16 + phase_bit(v, 5) as int * 32
            + phase_bit(v, 6) as int * 64 + phase_bit(v, 7) as int * 128 + phase_bit(v, 8) as int * 256
            + phase_bit(v, 9) as int * 512,
{
    assert(v < 1024u16 ==> v == ((v & 1u16) + ((v >> 1u16) & 1u16) * 2u16 + ((v >> 2u16) & 1u16) * 4u16 + ((v >> 3u16) & 1u16) * 8u16 + ((v >> 4u16) & 1u16) * 16u16 + ((v >> 5u16) & 1u16) * 32u16 + ((v >> 6u16) & 1u16) * 64u16 + ((v >> 7u16) & 1u16) * 128u16 + ((v >> 8u16) & 1u16) * 256u16 + ((v >> 9u16) & 1u16) * 512u16) as u16) by (bit_vector);
    assert(v >> 0u16 == v) by (bit_vector);
    assert(((v >> 0u16) & 1u16) <= 1u16 && ((v >> 1u16) & 1u16) <= 1u16 && ((v >> 2u16) & 1u16) <= 1u16 && ((v >> 3u16) & 1u16) <= 1u16 && ((v >> 4u16) & 1u16) <= 1u16 && ((v >> 5u16) & 1u16) <= 1u16 && ((v >> 6u16) & 1u16) <= 1u16 && ((v >> 7u16) & 1u16) <= 1u16 && ((v >> 8u16) & 1u16) <= 1u16 && ((v >> 9u16) & 1u16) <= 1u16) by (bit_vector);
    lemma_bit_at_most_one(v, 0);
    lemma_bit_at_most_one(v, 1);
    lemma_bit_at_most_one(v, 2);
    lemma_bit_at_most_one(v, 3);
    lemma_bit_at_most_one(v, 4);
    lemma_bit_at_most_one(v, 5);
    lemma_bit_at_most_one(v, 6);
    lemma_bit_at_most_one(v, 7);
    lemma_bit_at_most_one(v, 8);
    lemma_bit_at_most_one(v, 9);
}

/// Sending the ten phases of a cached value without brightness skip, phase
/// `p` weighing `2^p`, rebuilds the value: the encoder loses nothing.
pub proof fn lemma_phases_rebuild_cache(cache: Seq<u16>, col: int, ch: int)
    requires
        cache_in_range(cache),
        0 <= col < 64,
        0 <= ch < 6,
    ensures
        decoded_value(cache, col, ch, BCM_PHASES as nat) == cache[6 * col + ch] as int,
{
    reveal_with_fuel(decoded_value, 11);
    lemma2_to64();
    lemma_column_byte_bits(cache, col, 0u8);
    assert(line_bit(rendered_line(cache, effective_phase(0u8, 0)), col, ch) == phase_bit(cache[6 * col + ch], 0u8) as int);
    lemma_column_byte_bits(cache, col, 1u8);
    assert(line_bit(rendered_line(cache, effective_phase(1u8, 0)), col, ch) == phase_bit(cache[6 * col + ch], 1u8) as int);
    lemma_column_byte_bits(cache, col, 2u8);
    assert(line_bit(rendered_line(cache, effective_phase(2u8, 0)), col, ch) == phase_bit(cache[6 * col + ch], 2u8) as int);
    lemma_column_byte_bits(cache, col, 3u8);
    assert(line_bit(rendered_line(cache, effective_phase(3u8, 0)), col, ch) == phase_bit(cache[6 * col + ch], 3u8) as int);
    lemma_column_byte_bits(cache, col, 4u8);
    assert(line_bit(rendered_line(cache, effective_phase(4u8, 0)), col, ch) == phase_bit(cache[6 * col + ch], 4u8) as int);
    lemma_column_byte_bits(cache, col, 5u8);
    assert(line_bit(rendered_line(cache, effective_phase(5u8, 0)), col, ch) == phase_bit(cache[6 * col + ch], 5u8) as int);
    lemma_column_byte_bits(cache, col, 6u8);
    assert(line_bit(rendered_line(cache, effective_phase(6u8, 0)), col, ch) == phase_bit(cache[6 * col + ch], 6u8) as int);
    lemma_column_byte_bits(cache, col, 7u8);
    assert(line_bit(rendered_line(cache, effective_phase(7u8, 0)), col, ch) == phase_bit(cache[6 * col + ch], 7u8) as int);
    lemma_column_byte_bits(cache, col, 8u8);
    assert(line_bit(rendered_line(cache, effective_phase(8u8, 0)), col, ch) == phase_bit(cache[6 * col + ch], 8u8) as int);
    lemma_column_byte_bits(cache, col, 9u8);
    assert(line_bit(rendered_line(cache, effective_phase(9u8, 0)), col, ch) == phase_bit(cache[6 * col + ch], 9u8) as int);
    lemma_ten_bits(cache[6 * col + ch]);
    assert(decoded_value(cache, col, ch, 1) == decoded_value(cache, col, ch, 0) + line_bit(rendered_line(cache, effective_phase(0u8, 0)), col, ch) * pow2(0));
    assert(decoded_value(cache, col, ch, 5) == decoded_value(cache, col, ch, 1)
        + phase_bit(cache[6 * col + ch], 1) as int * 2 + phase_bit(cache[6 * col + ch], 2) as int * 4
        + phase_bit(cache[6 * col + ch], 3) as int * 8 + phase_bit(cache[6 * col + ch], 4) as int * 16);
}

/// Loading a row pair and sending its ten phases without brightness skip
/// rebuilds the gamma-mapped value of every sample of both rows.
pub proof fn lemma_load_then_phases_rebuild_gamma(fb: MainFrameBuf, row_pair: int, col: int, ch: int)
    requires
        0 <= row_pair < ROW_PAIRS,
        0 <= col < 64,
        0 <= ch < 6,
    ensures
        decoded_value(loaded_cache(fb, row_pair), col, ch, BCM_PHASES as nat)
            == gamma(cache_sample(fb, row_pair, 6 * col + ch) as int) as int,
        ch < 3 ==> cache_sample(fb, row_pair, 6 * col + ch) == fb.sample(row_pair, col, ch),
        ch >= 3 ==> cache_sample(fb, row_pair, 6 * col + ch) == fb.sample(row_pair + 32, col, ch - 3),
{
    lemma_loaded_cache_in_range(fb, row_pair);
    lemma_phases_rebuild_cache(loaded_cache(fb, row_pair), col, ch);
    assert((6 * col + ch) / 6 == col && (6 * col + ch) % 6 == ch);
}

/// A loaded row cache holds 10-bit values only.
pub proof fn lemma_loaded_cache_in_range(fb: MainFrameBuf, row_pair: int)
    ensures
        cache_in_range(loaded_cache(fb, row_pair)),
{
    assert forall|i: int| 0 <= i < 384 implies #[trigger] loaded_cache(fb, row_pair)[i] < 1024 by {
        lemma_gamma_bounded(cache_sample(fb, row_pair, i) as int);
    }
}

} // verus!
