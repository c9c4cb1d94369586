use vstd::prelude::*;
use vstd::arithmetic::div_mod::{lemma_fundamental_div_mod_converse, lemma_mod_bound};
use vstd::arithmetic::mul::{lemma_mul_inequality, lemma_mul_is_distributive_add_other_way};

verus! {

/// The pixel that the sample with number `k` belongs to, when every pixel
/// gets `rate` consecutive samples and pixels run column by column, each
/// column `height` pixels tall: `(column, row)`.
pub open spec fn pixel_of(k: int, height: int, rate: int) -> (int, int) {
    ((k / rate) / height, (k / rate) % height)
}

/// Enumerates the samples of an image: for each column `w`, each row `h`,
/// `rate` samples of pixel `(w, h)`.
pub struct SampleGrid {
    width: u64,
    height: u64,
    rate: u64,
    w: u64,
    h: u64,
    s: u64,
}

impl SampleGrid {
    pub closed spec fn width(&self) -> nat {
        self.width as nat
    }

    pub closed spec fn height(&self) -> nat {
        self.height as nat
    }

    pub closed spec fn rate(&self) -> nat {
        self.rate as nat
    }

    /// How many samples the whole image has.
    pub open spec fn total(&self) -> nat {
        self.width() * self.height() * self.rate()
    }

    /// How many samples have been handed out.
    pub closed spec fn done(&self) -> nat {
        if self.w >= self.width {
            self.total()
        } else {
            ((self.w * self.height + self.h) * self.rate + self.s) as nat
        }
    }

    pub closed spec fn wf(&self) -> bool {
        if self.width == 0 || self.height == 0 || self.rate == 0 {
            self.w >= self.width
        } else {
            self.w < self.width && self.h < self.height && self.s < self.rate || self.w
                == self.width
        }
    }

    /// A grid of `width` by `height` pixels with `rate` samples each.
    pub fn new(width: u64, height: u64, rate: u64) -> (r: SampleGrid)
        ensures
            r.wf(),
            r.width() == width,
            r.height() == height,
            r.rate() == rate,
            r.done() == 0,
    {
        let w: u64 = if height == 0 || rate == 0 {
            width
        } else {
            0
        };
        let r = SampleGrid { width, height, rate, w, h: 0, s: 0 };
        proof {
            if width == 0 || height == 0 || rate == 0 {
                let (a, b, c) = (width as int, height as int, rate as int);
                assert(a * b * c == 0) by (nonlinear_arith)
                    requires
                        a == 0 || b == 0 || c == 0,
                ;
                assert(r.total() == a * b * c);
            } else {
                assert(r.w * r.height == 0);
            }
        }
        r
    }

    proof fn lemma_done_bound(&self)
        requires
            self.wf(),
            self.w < self.width,
        ensures
            self.done() < self.total(),
    {
        let (wd, ht, rt) = (self.width as int, self.height as int, self.rate as int);
        let (w, h, s) = (self.w as int, self.h as int, self.s as int);
        assert((w * ht + h) * rt + s < wd * ht * rt) by (nonlinear_arith)
            requires
                0 <= w < wd,
                0 <= h < ht,
                0 <= s < rt,
        {
            assert(w * ht + h < (w + 1) * ht);
            assert((w + 1) * ht <= wd * ht);
            assert((w * ht + h) * rt + s < (w * ht + h + 1) * rt);
            assert((w * ht + h + 1) * rt <= wd * ht * rt);
        }
    }

    /// Hands out the pixel of the next sample, or `None` once every sample
    /// has been handed out.
    pub fn next(&mut self) -> (r: Option<(u64, u64)>)
        requires
            old(self).wf(),
        ensures
            final(self).wf(),
            final(self).width() == old(self).width(),
            final(self).height() == old(self).height(),
            final(self).rate() == old(self).rate(),
            old(self).done() >= old(self).total() ==> {
                &&& r.is_none()
                &&& final(self).done() == old(self).done()
            },
            old(self).done() < old(self).total() ==> {
                let p = pixel_of(
                    old(self).done() as int,
                    old(self).height() as int,
                    old(self).rate() as int,
                );
                &&& r == Some((p.0 as u64, p.1 as u64))
                &&& p.0 < old(self).width() && p.1 < old(self).height()
                &&& final(self).done() == old(self).done() + 1
            },
    {
        if self.w >= self.width {
            return None;
        }
        proof {
            self.lemma_done_bound();
            let (ht, rt) = (self.height as int, self.rate as int);
            let (w, h, s) = (self.w as int, self.h as int, self.s as int);
            let k = (w * ht + h) * rt + s;
            lemma_fundamental_div_mod_converse(k, rt, w * ht + h, s);
            lemma_fundamental_div_mod_converse(w * ht + h, ht, w, h);
        }
        let out = (self.w, self.h);
        let ghost before = self.done();
        if self.s + 1 < self.rate {
            self.s = self.s + 1;
        } else if self.h + 1 < self.height {
            self.s = 0;
            self.h = self.h + 1;
            proof {
                let (ht, rt) = (self.height as int, self.rate as int);
                let (w, h) = (self.w as int, self.h as int);
                assert((w * ht + h - 1) * rt + (rt - 1) + 1 == (w * ht + h) * rt) by (nonlinear_arith);
            }
        } else {
            self.s = 0;
            self.h = 0;
            self.w = self.w + 1;
            proof {
                let (ht, rt) = (self.height as int, self.rate as int);
                let w = self.w as int;
                assert(((w - 1) * ht + ht - 1) * rt + (rt - 1) + 1 == (w * ht) * rt)
                    by (nonlinear_arith);
                if self.w >= self.width {
                    assert(w * ht * rt == (w * ht) * rt) by (nonlinear_arith);
                }
            }
        }
        Some(out)
    }
}

/// Position of pixel `(w, h)` in a row-major buffer of `width` by `height`
/// pixels.
pub fn pixel_index(w: u64, h: u64, width: u64, height: u64) -> (r: usize)
    requires
        w < width,
        h < height,
        width * height <= usize::MAX,
    ensures
        r == h * width + w,
        r < width * height,
{
    proof {
        assert(h * width + w < width * height) by (nonlinear_arith)
            requires
                w < width,
                h < height,
        {
            assert(h * width + w < (h + 1) * width);
            assert((h + 1) * width <= height * width);
        }
    }
    (h * width + w) as usize
}

} // verus!
