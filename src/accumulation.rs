use vstd::prelude::*;
use crate::integrator::SINGLE_SHOT_SAMPLES;

verus! {

/// The bookkeeping of the progressive accumulation buffer: its resolution and the
/// number of samples per pixel folded into it so far. The per-pixel running averages
/// themselves are laid out row by row, as `pixel_index` says.
#[derive(Debug, Copy, Clone, PartialEq, Eq)]
pub struct Accumulation {
    width: u32,
    height: u32,
    samples: u64,
}

impl Accumulation {
    pub closed spec fn spec_width(self) -> nat {
        self.width as nat
    }

    pub closed spec fn spec_height(self) -> nat {
        self.height as nat
    }

    pub closed spec fn spec_samples(self) -> nat {
        self.samples as nat
    }

    /// An empty buffer of `width` by `height` pixels.
    pub fn new(width: u32, height: u32) -> (a: Accumulation)
        ensures
            a.spec_width() == width,
            a.spec_height() == height,
            a.spec_samples() == 0,
    {
        Accumulation { width, height, samples: 0 }
    }

    pub fn width(&self) -> (w: u32)
        ensures
            w == self.spec_width(),
    {
        self.width
    }

    pub fn height(&self) -> (h: u32)
        ensures
            h == self.spec_height(),
    {
        self.height
    }

    /// The number of samples per pixel accumulated since the last reset.
    pub fn samples(&self) -> (n: u64)
        ensures
            n == self.spec_samples(),
    {
        self.samples
    }

    /// Changes the resolution; what was accumulated is discarded.
    pub fn resize(&mut self, width: u32, height: u32)
        ensures
            final(self).spec_width() == width,
            final(self).spec_height() == height,
            final(self).spec_samples() == 0,
    {
        self.width = width;
        self.height = height;
        self.samples = 0;
    }

    /// Discards what was accumulated, keeping the resolution.
    pub fn reset(&mut self)
        ensures
            final(self).spec_width() == old(self).spec_width(),
            final(self).spec_height() == old(self).spec_height(),
            final(self).spec_samples() == 0,
    {
        self.samples = 0;
    }

    /// The number of pixels.
    pub fn pixel_count(&self) -> (n: u64)
        ensures
            n == self.spec_width() * self.spec_height(),
    {
        assert(self.width as nat * self.height as nat <= 0xffff_ffff * 0xffff_ffff) by (nonlinear_arith)
            requires
                self.width <= 0xffff_ffff,
                self.height <= 0xffff_ffff,
        ;
        self.width as u64 * self.height as u64
    }

    /// Where pixel (`x`, `y`) stands in the row-major buffer.
    pub fn pixel_index(&self, x: u32, y: u32) -> (i: u64)
        requires
            x < self.spec_width(),
            y < self.spec_height(),
        ensures
            i == y * self.spec_width() + x,
            i < self.spec_width() * self.spec_height(),
    {
        let w = self.width as u64;
        let h = self.height as u64;
        assert(y * w + x < h * w) by (nonlinear_arith)
            requires
                x < w,
                y < h,
        ;
        assert(h * w <= 0xffff_ffff * 0xffff_ffff) by (nonlinear_arith)
            requires
                w <= 0xffff_ffff,
                h <= 0xffff_ffff,
        ;
        y as u64 * w + x as u64
    }

    /// The weights of the next batch's blend: the running average is scaled by
    /// `old_n / total` and the batch average by `(total - old_n) / total`, where `old_n`
    /// is the number of samples accumulated so far and `total` that number plus one
    /// batch.
    pub fn blend_weights(&self) -> (w: (u64, u64))
        requires
            self.spec_samples() + SINGLE_SHOT_SAMPLES <= u64::MAX,
        ensures
            w.0 == self.spec_samples(),
            w.1 == self.spec_samples() + SINGLE_SHOT_SAMPLES,
    {
        (self.samples, self.samples + SINGLE_SHOT_SAMPLES)
    }

    /// Counts one more batch as folded into every pixel.
    pub fn record_batch(&mut self)
        requires
            old(self).spec_samples() + SINGLE_SHOT_SAMPLES <= u64::MAX,
        ensures
            final(self).spec_width() == old(self).spec_width(),
            final(self).spec_height() == old(self).spec_height(),
            final(self).spec_samples() == old(self).spec_samples() + SINGLE_SHOT_SAMPLES,
    {
        self.samples = self.samples + SINGLE_SHOT_SAMPLES;
    }

    /// The seed of pixel (`x`, `y`)'s random stream for the next batch: the state
    /// starts from the number of samples taken so far, and each pixel draws from a
    /// stream of its own.
    pub fn pixel_seed(&self, x: u32, y: u32) -> (s: (u128, u128))
        requires
            x < self.spec_width(),
            y < self.spec_height(),
        ensures
            s.0 == self.spec_samples(),
            s.1 == y * self.spec_width() + x,
    {
        (self.samples as u128, self.pixel_index(x, y) as u128)
    }
}

/// Within one batch, distinct pixels draw from distinct random streams.
pub proof fn lemma_pixel_streams_distinct(w: nat, x1: nat, y1: nat, x2: nat, y2: nat)
    requires
        x1 < w,
        x2 < w,
        y1 * w + x1 == y2 * w + x2,
    ensures
        x1 == x2 && y1 == y2,
{
    if y1 < y2 {
        assert(y1 * w + w <= y2 * w) by (nonlinear_arith)
            requires
                y1 < y2,
        ;
    } else if y2 < y1 {
        assert(y2 * w + w <= y1 * w) by (nonlinear_arith)
            requires
                y2 < y1,
        ;
    }
}

/// The sum of the sample values `s`.
pub open spec fn sum(s: Seq<int>) -> int
    decreases s.len(),
{
    if s.len() == 0 {
        0
    } else {
        sum(s.drop_last()) + s.last()
    }
}

/// The sum of the sample values of all `batches`.
pub open spec fn total(batches: Seq<Seq<int>>) -> int
    decreases batches.len(),
{
    if batches.len() == 0 {
        0
    } else {
        total(batches.drop_last()) + sum(batches.last())
    }
}

/// The blend of a running average `value` over `old_n` samples with a batch average
/// `batch` over `batch_n` samples, in exact arithmetic: averages are fractions
/// (numerator, denominator) and the weights are those of `blend_weights`.
pub open spec fn blend(value: (int, int), old_n: int, batch: (int, int), batch_n: int) -> (int, int) {
    (
        value.0 * batch.1 * old_n + batch.0 * value.1 * batch_n,
        value.1 * batch.1 * (old_n + batch_n),
    )
}

/// The running average after folding in `batches` one after the other, from an empty
/// buffer, each batch with its `batch_n` samples.
pub open spec fn progressive(batches: Seq<Seq<int>>, batch_n: int) -> (int, int)
    decreases batches.len(),
{
    if batches.len() == 0 {
        (0, 1)
    } else {
        let k = batches.len() - 1;
        blend(progressive(batches.drop_last(), batch_n), k * batch_n, (sum(batches.last()), batch_n), batch_n)
    }
}

/// Progressive accumulation is consistent: folding N batches of S samples each into
/// the buffer, batch by batch with the blend weights, gives exactly the plain average
/// of all N times S samples, as one batch of them would.
pub proof fn lemma_progressive_is_mean(batches: Seq<Seq<int>>, batch_n: int)
    requires
        batch_n > 0,
        forall|i: int| 0 <= i < batches.len() ==> #[trigger] batches[i].len() == batch_n,
    ensures
        progressive(batches, batch_n).1 > 0,
        progressive(batches, batch_n).0 * (batches.len() * batch_n)
            == total(batches) * progressive(batches, batch_n).1,
    decreases batches.len(),
{
    if batches.len() > 0 {
        let rest = batches.drop_last();
        assert forall|i: int| 0 <= i < rest.len() implies #[trigger] rest[i].len() == batch_n by {
            assert(rest[i] == batches[i]);
        }
        lemma_progressive_is_mean(rest, batch_n);
        let (vn, vd) = progressive(rest, batch_n);
        let k = rest.len() as int;
        let t = total(rest);
        let b = sum(batches.last());
        let s = batch_n;
        assert(vd * s * (k * s + s) > 0) by (nonlinear_arith)
            requires
                vd > 0,
                s > 0,
                k >= 0,
        ;
        let m = k * s;
        let c = t + b;
        assert(vn * s * m + b * vd * s == s * (vn * m + b * vd)) by (nonlinear_arith);
        assert(t * vd + b * vd == c * vd) by (nonlinear_arith)
            requires
                c == t + b,
        ;
        assert((k + 1) * s == m + s) by (nonlinear_arith)
            requires
                m == k * s,
        ;
        assert(s * (c * vd) * (m + s) == c * (vd * s * (m + s))) by (nonlinear_arith);
    }
}

} // verus!
