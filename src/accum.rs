//! The progressive accumulation buffer: a running per-pixel sum of sampled
//! radiance over the frames since the last reset.
use vstd::prelude::*;
use crate::material::Color;

verus! {

/// A per-pixel sum of samples, per channel.
#[derive(Clone, Copy, Debug, PartialEq, Eq, Structural)]
pub struct Sum {
    pub r: u64,
    pub g: u64,
    pub b: u64,
}

/// Sums of `frames` frames of samples, one per pixel.
pub struct Accumulator {
    pub sums: Vec<Sum>,
    pub frames: u32,
}

pub open spec fn sample_sum(c: Color) -> Sum {
    Sum { r: c.r as u64, g: c.g as u64, b: c.b as u64 }
}

pub open spec fn add_sum(s: Sum, c: Color) -> Sum {
    Sum { r: (s.r + c.r) as u64, g: (s.g + c.g) as u64, b: (s.b + c.b) as u64 }
}

/// Each channel of `s` is at most `frames` samples' worth.
pub open spec fn sum_fits(s: Sum, frames: int) -> bool {
    s.r <= frames * 0xffff_ffff && s.g <= frames * 0xffff_ffff && s.b <= frames * 0xffff_ffff
}

/// Total of all channels of all sums.
pub open spec fn total(s: Seq<Sum>) -> int
    decreases s.len(),
{
    if s.len() == 0 {
        0
    } else {
        total(s.drop_last()) + s.last().r + s.last().g + s.last().b
    }
}

impl Accumulator {
    pub open spec fn wf(&self) -> bool {
        forall|i: int| 0 <= i < self.sums@.len() ==> sum_fits(#[trigger] self.sums@[i], self.frames as int)
    }

    /// An empty buffer of `pixels` pixels.
    pub fn new(pixels: usize) -> (r: Accumulator)
        ensures
            r.wf(),
            r.frames == 0,
            r.sums@.len() == pixels,
            forall|i: int| 0 <= i < pixels ==> #[trigger] r.sums@[i] == (Sum { r: 0, g: 0, b: 0 }),
    {
        let mut sums: Vec<Sum> = Vec::new();
        let mut i: usize = 0;
        while i < pixels
            invariant
                i <= pixels,
                sums@.len() == i,
                forall|j: int| 0 <= j < i ==> #[trigger] sums@[j] == (Sum { r: 0, g: 0, b: 0 }),
            decreases pixels - i,
        {
            sums.push(Sum { r: 0, g: 0, b: 0 });
            i += 1;
        }
        Accumulator { sums, frames: 0 }
    }

    /// Adds one frame of samples. Frame 1 starts over: every pixel then
    /// holds exactly its new sample; any later frame adds to the sums.
    pub fn add_frame(&mut self, samples: &Vec<Color>, frame_num: u32)
        requires
            old(self).wf(),
            samples@.len() == old(self).sums@.len(),
            frame_num == 1 || frame_num == old(self).frames + 1,
        ensures
            final(self).wf(),
            final(self).frames == frame_num,
            final(self).sums@.len() == old(self).sums@.len(),
            frame_num == 1 ==> forall|i: int|
                0 <= i < samples@.len() ==> #[trigger] final(self).sums@[i] == sample_sum(samples@[i]),
            frame_num != 1 ==> forall|i: int|
                0 <= i < samples@.len() ==> #[trigger] final(self).sums@[i] == add_sum(old(self).sums@[i], samples@[i]),
    {
        let n = self.sums.len();
        let mut i: usize = 0;
        while i < n
            invariant
                i <= n,
                n == self.sums@.len(),
                n == samples@.len(),
                self.frames == old(self).frames,
                frame_num == 1 || frame_num == old(self).frames + 1,
                forall|j: int| i <= j < n ==> #[trigger] self.sums@[j] == old(self).sums@[j],
                forall|j: int| 0 <= j < n ==> sum_fits(#[trigger] old(self).sums@[j], old(self).frames as int),
                frame_num == 1 ==> forall|j: int| 0 <= j < i ==> #[trigger] self.sums@[j] == sample_sum(samples@[j]),
                frame_num != 1 ==> forall|j: int|
                    0 <= j < i ==> #[trigger] self.sums@[j] == add_sum(old(self).sums@[j], samples@[j]),
                forall|j: int| 0 <= j < i ==> sum_fits(#[trigger] self.sums@[j], frame_num as int),
            decreases n - i,
        {
            let c = samples[i];
            let next = if frame_num == 1 {
                Sum { r: c.r as u64, g: c.g as u64, b: c.b as u64 }
            } else {
                let s = self.sums[i];
                let ghost prev = old(self).frames as int;
                assert(sum_fits(s, prev));
                assert(prev * 0xffff_ffff + 0xffff_ffff == frame_num * 0xffff_ffff) by (nonlinear_arith)
                    requires
                        frame_num == prev + 1,
                ;
                assert(frame_num * 0xffff_ffff <= 0xffff_ffff * 0xffff_ffff) by (nonlinear_arith)
                    requires
                        frame_num <= 0xffff_ffff,
                ;
                Sum { r: s.r + c.r as u64, g: s.g + c.g as u64, b: s.b + c.b as u64 }
            };
            proof {
                if frame_num == 1 {
                    assert(1 * 0xffff_ffff == 0xffff_ffffint);
                }
            }
            self.sums.set(i, next);
            i += 1;
        }
        self.frames = frame_num;
    }

    /// The displayed value of pixel `i`: its sum divided by the frame count.
    pub fn average(&self, i: usize) -> (r: Color)
        requires
            self.wf(),
            self.frames > 0,
            i < self.sums@.len(),
        ensures
            r.r == self.sums@[i as int].r / (self.frames as u64),
            r.g == self.sums@[i as int].g / (self.frames as u64),
            r.b == self.sums@[i as int].b / (self.frames as u64),
    {
        let s = self.sums[i];
        let f = self.frames as u64;
        assert(sum_fits(s, self.frames as int));
        proof {
            lemma_quotient_fits(s.r as int, f as int);
            lemma_quotient_fits(s.g as int, f as int);
            lemma_quotient_fits(s.b as int, f as int);
        }
        Color { r: (s.r / f) as u32, g: (s.g / f) as u32, b: (s.b / f) as u32 }
    }

    /// Energy of the image: the total of all channels of all pixels divided
    /// by `frame_num`, rounded down.
    pub fn energy(&self, frame_num: u32) -> (r: u128)
        requires
            frame_num > 0,
            self.sums@.len() < 0x1_0000_0000,
        ensures
            r == total(self.sums@) / (frame_num as int),
    {
        let mut acc: u128 = 0;
        let mut i: usize = 0;
        while i < self.sums.len()
            invariant
                i <= self.sums@.len() < 0x1_0000_0000,
                acc == total(self.sums@.take(i as int)),
                acc <= i * 3 * 0xffff_ffff_ffff_ffff,
            decreases self.sums@.len() - i,
        {
            let s = self.sums[i];
            proof {
                assert(self.sums@.take(i + 1).drop_last() == self.sums@.take(i as int));
                assert(i * 3 * 0xffff_ffff_ffff_ffff + 3 * 0xffff_ffff_ffff_ffff == (i + 1) * 3 * 0xffff_ffff_ffff_ffff) by (nonlinear_arith);
                assert((i + 1) * 3 * 0xffff_ffff_ffff_ffff <= 0x1_0000_0000 * 3 * 0xffff_ffff_ffff_ffff) by (nonlinear_arith)
                    requires
                        i + 1 <= 0x1_0000_0000,
                ;
            }
            acc = acc + s.r as u128 + s.g as u128 + s.b as u128;
            i += 1;
        }
        proof {
            assert(self.sums@.take(self.sums@.len() as int) == self.sums@);
        }
        acc / (frame_num as u128)
    }
}

proof fn lemma_quotient_fits(s: int, f: int)
    requires
        f > 0,
        0 <= s <= f * 0xffff_ffff,
    ensures
        s / f <= 0xffff_ffff,
{
    assert(s / f <= 0xffff_ffff) by (nonlinear_arith)
        requires
            f > 0,
            0 <= s <= f * 0xffff_ffff,
    ;
}

/// After a frame numbered 1, each pixel displays exactly its fresh sample:
/// its sum is the sample, and dividing by the frame count 1 leaves it as it is.
pub proof fn lemma_first_frame_displays_sample(acc: Accumulator, samples: Seq<Color>, i: int)
    requires
        acc.frames == 1,
        0 <= i < samples.len(),
        i < acc.sums@.len(),
        acc.sums@[i] == sample_sum(samples[i]),
    ensures
        acc.sums@[i].r / (acc.frames as u64) == samples[i].r,
        acc.sums@[i].g / (acc.frames as u64) == samples[i].g,
        acc.sums@[i].b / (acc.frames as u64) == samples[i].b,
{
}

} // verus!
