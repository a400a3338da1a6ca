//! Magnitude spectra and the frequency-bin arithmetic of the display.
//!
//! One analysis tick turns a window of samples into `SPECTRUM_BINS`
//! magnitudes. The transform itself is floating-point work done outside
//! the library; what comes back in is each bin's display level, an integer
//! 0..=100 (the magnitude scaled by 200 and clamped). The library owns
//! everything decided from those levels: the DC bin forced to zero, the
//! bin each terminal column shows under the current zoom, and the mapping
//! of bins to frequencies.

use vstd::prelude::*;
use crate::view::STEP_LIMIT;

verus! {

/// Number of samples in one analysis window.
pub const FFT_SIZE: usize = 2048;

/// Number of usable frequency bins: the transform of a real window is
/// symmetric, so only the first half carries information.
pub const SPECTRUM_BINS: usize = 2048 / 2;

/// Largest display level of one bin.
pub const LEVEL_MAX: u8 = 100;

/// 5 raised to `n`.
pub open spec fn pow5(n: nat) -> int
    decreases n,
{
    if n == 0 {
        1
    } else {
        5 * pow5((n - 1) as nat)
    }
}

/// 6 raised to `n`.
pub open spec fn pow6(n: nat) -> int
    decreases n,
{
    if n == 0 {
        1
    } else {
        6 * pow6((n - 1) as nat)
    }
}

proof fn lemma_pow5_pos(n: nat)
    ensures
        pow5(n) >= 1,
    decreases n,
{
    if n > 0 {
        lemma_pow5_pos((n - 1) as nat);
    }
}

proof fn lemma_pow6_pos(n: nat)
    ensures
        pow6(n) >= 1,
    decreases n,
{
    if n > 0 {
        lemma_pow6_pos((n - 1) as nat);
    }
}

proof fn lemma_pow5_mono(a: nat, b: nat)
    requires
        a <= b,
    ensures
        pow5(a) <= pow5(b),
    decreases b,
{
    if a < b {
        lemma_pow5_mono(a, (b - 1) as nat);
        lemma_pow5_pos((b - 1) as nat);
    }
}

proof fn lemma_pow6_mono(a: nat, b: nat)
    requires
        a <= b,
    ensures
        pow6(a) <= pow6(b),
    decreases b,
{
    if a < b {
        lemma_pow6_mono(a, (b - 1) as nat);
        lemma_pow6_pos((b - 1) as nat);
    }
}

proof fn lemma_pow5_30_value()
    ensures
        pow5(30) == 931322574615478515625,
{
    reveal_with_fuel(pow5, 31);
}

proof fn lemma_pow6_30_value()
    ensures
        pow6(30) == 221073919720733357899776,
{
    reveal_with_fuel(pow6, 31);
}

/// 5 raised to `n`, for the zoom-ratio arithmetic.
fn pow5_u128(n: u32) -> (r: u128)
    requires
        n <= 30,
    ensures
        r as int == pow5(n as nat),
        r as int <= 931322574615478515625,
{
    proof {
        lemma_pow5_30_value();
    }
    let mut r: u128 = 1;
    let mut i: u32 = 0;
    while i < n
        invariant
            i <= n <= 30,
            r as int == pow5(i as nat),
        decreases n - i,
    {
        proof {
            lemma_pow5_30_value();
            lemma_pow5_mono((i + 1) as nat, 30);
        }
        r = r * 5;
        i = i + 1;
    }
    proof {
        lemma_pow5_mono(n as nat, 30);
    }
    r
}

/// 6 raised to `n`, for the zoom-ratio arithmetic.
fn pow6_u128(n: u32) -> (r: u128)
    requires
        n <= 30,
    ensures
        r as int == pow6(n as nat),
        r as int <= 221073919720733357899776,
{
    proof {
        lemma_pow6_30_value();
    }
    let mut r: u128 = 1;
    let mut i: u32 = 0;
    while i < n
        invariant
            i <= n <= 30,
            r as int == pow6(i as nat),
        decreases n - i,
    {
        proof {
            lemma_pow6_30_value();
            lemma_pow6_mono((i + 1) as nat, 30);
        }
        r = r * 6;
        i = i + 1;
    }
    proof {
        lemma_pow6_mono(n as nat, 30);
    }
    r
}

/// Numerator of the zoom multiplier (6/5) raised to `k`.
pub open spec fn zoom_num(k: int) -> int {
    if k >= 0 {
        pow6(k as nat)
    } else {
        pow5((-k) as nat)
    }
}

/// Denominator of the zoom multiplier (6/5) raised to `k`.
pub open spec fn zoom_den(k: int) -> int {
    if k >= 0 {
        pow5(k as nat)
    } else {
        pow6((-k) as nat)
    }
}

/// The frequency bin terminal column `col` shows, out of `width` columns,
/// at zoom step `k`: the column's share of the zoomed half-spectrum,
/// `col * FFT_SIZE / (2 * zoom * width)` rounded down, clamped into the
/// valid bin range.
pub open spec fn bin_index_spec(col: int, width: int, k: int) -> int {
    let raw = (col * FFT_SIZE * zoom_den(k)) / (2 * width * zoom_num(k));
    if raw < SPECTRUM_BINS {
        raw
    } else {
        SPECTRUM_BINS - 1
    }
}

/// Compute the bin shown in one terminal column, exactly: the zoom
/// multiplier (6/5)^k is carried as an integer ratio.
pub fn bin_index_for_column(col: usize, width: usize, zoom_steps: i32) -> (idx: usize)
    requires
        0 < width <= 0xFFFF,
        col < width,
        -STEP_LIMIT <= zoom_steps <= STEP_LIMIT,
    ensures
        idx as int == bin_index_spec(col as int, width as int, zoom_steps as int),
        idx < SPECTRUM_BINS,
{
    let m: u32 = if zoom_steps >= 0 {
        zoom_steps as u32
    } else {
        (-zoom_steps) as u32
    };
    let (num, den): (u128, u128) = if zoom_steps >= 0 {
        (pow6_u128(m), pow5_u128(m))
    } else {
        (pow5_u128(m), pow6_u128(m))
    };
    proof {
        lemma_pow5_pos(m as nat);
        lemma_pow6_pos(m as nat);
        assert((col as u128) * 2048 * den <= 0xFFFF * 2048 * 221073919720733357899776)
            by (nonlinear_arith)
            requires
                col as u128 <= 0xFFFF,
                den <= 221073919720733357899776,
        ;
        assert(2 * (width as u128) * num <= 2 * 0xFFFF * 221073919720733357899776)
            by (nonlinear_arith)
            requires
                width as u128 <= 0xFFFF,
                num <= 221073919720733357899776,
        ;
        assert(2 * (width as u128) * num >= 1) by (nonlinear_arith)
            requires
                width as u128 >= 1,
                num >= 1,
        ;
    }
    let raw: u128 = ((col as u128) * (FFT_SIZE as u128) * den) / (2 * (width as u128) * num);
    if raw < SPECTRUM_BINS as u128 {
        raw as usize
    } else {
        SPECTRUM_BINS - 1
    }
}

/// The display levels one analysis tick hands over, in bin order: each the
/// bin's magnitude scaled to 0..=100.
pub struct Spectrum {
    bins: Vec<u8>,
}

impl View for Spectrum {
    type V = Seq<u8>;

    closed spec fn view(&self) -> Seq<u8> {
        self.bins@
    }
}

/// What the library makes of raw per-bin levels: the DC bin is forced to
/// zero and every level is clamped to `LEVEL_MAX`.
pub open spec fn normalize_spec(b: Seq<u8>) -> Seq<u8> {
    Seq::new(b.len(), |i: int| if i == 0 {
        0u8
    } else if b[i] > LEVEL_MAX {
        LEVEL_MAX
    } else {
        b[i]
    })
}

impl Spectrum {
    /// Every level fits the display range, the DC bin is silent, and there
    /// is one level per usable bin.
    pub open spec fn well_formed(self) -> bool {
        &&& self@.len() == SPECTRUM_BINS
        &&& self@[0] == 0
        &&& forall|i: int| 0 <= i < self@.len() ==> self@[i] <= LEVEL_MAX
    }

    /// Take one level per bin, silence the DC bin, clamp the rest.
    /// Rejects input with the wrong number of bins.
    pub fn from_levels(levels: Vec<u8>) -> (r: Option<Spectrum>)
        ensures
            r is Some <==> levels@.len() == SPECTRUM_BINS,
            r is Some ==> r.unwrap()@ == normalize_spec(levels@) && r.unwrap().well_formed(),
    {
        if levels.len() != SPECTRUM_BINS {
            return None;
        }
        let mut bins: Vec<u8> = Vec::new();
        let mut i: usize = 0;
        while i < levels.len()
            invariant
                i <= levels@.len(),
                bins@.len() == i,
                forall|j: int| 0 <= j < i ==> bins@[j] == normalize_spec(levels@)[j],
            decreases levels@.len() - i,
        {
            let lv = if i == 0 {
                0
            } else if levels[i] > LEVEL_MAX {
                LEVEL_MAX
            } else {
                levels[i]
            };
            bins.push(lv);
            i = i + 1;
        }
        let r = Spectrum { bins };
        proof {
            assert(r@ =~= normalize_spec(levels@));
        }
        Some(r)
    }

    /// The silent spectrum: every bin at level zero.
    pub fn zeros() -> (r: Spectrum)
        ensures
            r@ == Seq::new(SPECTRUM_BINS as nat, |i: int| 0u8),
            r.well_formed(),
    {
        let mut bins: Vec<u8> = Vec::new();
        let mut i: usize = 0;
        while i < SPECTRUM_BINS
            invariant
                i <= SPECTRUM_BINS,
                bins@.len() == i,
                forall|j: int| 0 <= j < i ==> bins@[j] == 0u8,
            decreases SPECTRUM_BINS - i,
        {
            bins.push(0);
            i = i + 1;
        }
        let r = Spectrum { bins };
        proof {
            assert(r@ =~= Seq::new(SPECTRUM_BINS as nat, |i: int| 0u8));
        }
        r
    }

    /// The display level of one bin.
    pub fn level(&self, i: usize) -> (r: u8)
        requires
            i < self@.len(),
        ensures
            r == self@[i as int],
    {
        self.bins[i]
    }

    /// How many bins the spectrum holds.
    pub fn len(&self) -> (r: usize)
        ensures
            r as int == self@.len(),
    {
        self.bins.len()
    }
}

/// The frequency of bin `i` in millihertz: bin `i` stands for
/// `i * sample_rate / FFT_SIZE` hertz, held in thousandths so that no
/// rounding hides the fraction.
pub fn bin_frequency_millihz(i: usize, sample_rate: u32) -> (f: u64)
    requires
        i < SPECTRUM_BINS,
    ensures
        f as int == (i * sample_rate * 1000) as int / FFT_SIZE as int,
{
    proof {
        assert((i as u64) * (sample_rate as u64) * 1000 <= 1023 * 0xFFFF_FFFF * 1000)
            by (nonlinear_arith)
            requires
                i as u64 <= 1023,
                sample_rate as u64 <= 0xFFFF_FFFF,
        ;
    }
    ((i as u64) * (sample_rate as u64) * 1000) / (FFT_SIZE as u64)
}

} // verus!
