use vstd::prelude::*;

use crate::canvas::{Canvas, HeapCanvas, PixelDraw, RGBA8};

verus! {

/// Whole centiseconds in the ideal delay `100 / rate` between frames.
pub open spec fn delay_floor_of(rate: int) -> int {
    100int / rate
}

/// What `100 / rate` exceeds its whole part by, in units of `1 / rate`.
pub open spec fn delay_frac_of(rate: int) -> int {
    100int % rate
}

/// Shortfall carried after `n` delays have been emitted at `rate`, in units
/// of `1 / rate`: each delay adds the fractional part, and a delay that is
/// lengthened by one centisecond takes a whole one back.
pub open spec fn accumulator_after(rate: int, n: nat) -> int
    decreases n,
{
    if n == 0 {
        0
    } else {
        let acc = accumulator_after(rate, (n - 1) as nat) + delay_frac_of(rate);
        if 2 * acc >= rate {
            acc - rate
        } else {
            acc
        }
    }
}

/// The delay emitted by call number `n` (counted from 0) at `rate`: the whole
/// part, plus one once the carried shortfall reaches half a centisecond.
pub open spec fn delay_at(rate: int, n: nat) -> int {
    if 2 * (accumulator_after(rate, n) + delay_frac_of(rate)) >= rate {
        delay_floor_of(rate) + 1
    } else {
        delay_floor_of(rate)
    }
}

/// Sum of the first `n` delays emitted at `rate`.
pub open spec fn delay_total(rate: int, n: nat) -> int
    decreases n,
{
    if n == 0 {
        0
    } else {
        delay_total(rate, (n - 1) as nat) + delay_at(rate, (n - 1) as nat)
    }
}

/// `a / b` rounded to the nearest integer, halves upward.
pub open spec fn round_div(a: int, b: int) -> int {
    (2 * a + b) / (2 * b)
}

proof fn lemma_accumulator(rate: int, n: nat)
    requires
        rate > 0,
    ensures
        rate * delay_total(rate, n) + accumulator_after(rate, n) == 100 * n,
        -rate <= 2 * accumulator_after(rate, n) < rate,
    decreases n,
{
    let f = delay_frac_of(rate);
    let d = delay_floor_of(rate);
    assert(rate * d + f == 100 && 0 <= f < rate) by {
        vstd::arithmetic::div_mod::lemma_fundamental_div_mod(100, rate);
    }
    if n > 0 {
        let m = (n - 1) as nat;
        lemma_accumulator(rate, m);
        let acc = accumulator_after(rate, m) + f;
        if 2 * acc >= rate {
            assert(rate * (delay_total(rate, m) + d + 1) == rate * delay_total(rate, m) + rate * d
                + rate) by (nonlinear_arith);
        } else {
            assert(rate * (delay_total(rate, m) + d) == rate * delay_total(rate, m) + rate * d)
                by (nonlinear_arith);
        }
    }
}

/// Delay conservation: over any number `n` of frames at any rate, the
/// emitted delays add up to the ideal total `100 * n / rate` within half a
/// centisecond, and so to the rounded ideal total within one centisecond.
pub proof fn lemma_delay_conservation(rate: u16, n: nat)
    requires
        rate > 0,
    ensures
        -(rate as int) <= 2 * (rate * delay_total(rate as int, n) - 100 * n) <= rate,
        -1 <= delay_total(rate as int, n) - round_div(100 * (n as int), rate as int) <= 1,
{
    let r = rate as int;
    lemma_accumulator(r, n);
    let s = delay_total(r, n);
    let q = round_div(100 * (n as int), r);
    vstd::arithmetic::div_mod::lemma_fundamental_div_mod(200 * n + r, 2 * r);
    let m = (200 * n + r) % (2 * r);
    assert(2 * r * q + m == 200 * n + r);
    assert(0 <= m < 2 * r);
    assert(-1 <= s - q <= 1) by (nonlinear_arith)
        requires
            r > 0,
            -r <= 2 * (r * s - 100 * n) <= r,
            2 * r * q + m == 200 * n + r,
            0 <= m < 2 * r,
    ;
}

/// Spreads the fractional part of an ideal frame delay of `100 / rate`
/// centiseconds over whole-centisecond delays, so that their running sum
/// stays within half a centisecond of the ideal.
pub struct GifRendererDelayData {
    rate: u16,
    delay_floor: u16,
    delay_rem: u16,
    delay_last: u16,
    head: i32,
    perfect: bool,
    emitted: Ghost<nat>,
}

impl GifRendererDelayData {
    /// Frames per second that the delays are for.
    pub closed spec fn frame_rate(&self) -> nat {
        self.rate as nat
    }

    /// Number of delays emitted so far.
    pub closed spec fn emitted(&self) -> nat {
        self.emitted@
    }

    pub closed spec fn wf(&self) -> bool {
        &&& self.rate > 0
        &&& self.delay_floor == delay_floor_of(self.rate as int)
        &&& self.delay_rem == delay_frac_of(self.rate as int)
        &&& self.perfect == (self.delay_rem == 0)
        &&& self.head == accumulator_after(self.rate as int, self.emitted@)
        &&& self.delay_last == if self.emitted@ == 0 {
            delay_floor_of(self.rate as int)
        } else {
            delay_at(self.rate as int, (self.emitted@ - 1) as nat)
        }
    }

    pub fn new(rate: u16) -> (r: GifRendererDelayData)
        requires
            rate > 0,
        ensures
            r.wf(),
            r.frame_rate() == rate,
            r.emitted() == 0,
    {
        let delay_floor: u16 = 100u16 / rate;
        let delay_rem: u16 = 100u16 % rate;
        GifRendererDelayData {
            rate,
            delay_floor,
            delay_rem,
            delay_last: delay_floor,
            head: 0i32,
            perfect: delay_rem == 0,
            emitted: Ghost(0),
        }
    }

    fn next_delay0(&mut self) -> (r: u16)
        requires
            old(self).wf(),
        ensures
            r == delay_at(old(self).rate as int, old(self).emitted@),
            final(self).rate == old(self).rate,
            final(self).delay_floor == old(self).delay_floor,
            final(self).delay_rem == old(self).delay_rem,
            final(self).perfect == old(self).perfect,
            final(self).delay_last == old(self).delay_last,
            final(self).emitted@ == old(self).emitted@ + 1,
            final(self).head == accumulator_after(old(self).rate as int, final(self).emitted@),
    {
        let ghost n = self.emitted@;
        proof {
            lemma_accumulator(self.rate as int, n);
            lemma_accumulator(self.rate as int, n + 1);
            vstd::arithmetic::div_mod::lemma_fundamental_div_mod(100, self.rate as int);
            assert(accumulator_after(self.rate as int, n + 1) == if 2 * (accumulator_after(
                self.rate as int,
                n,
            ) + delay_frac_of(self.rate as int)) >= self.rate {
                accumulator_after(self.rate as int, n) + delay_frac_of(self.rate as int)
                    - self.rate
            } else {
                accumulator_after(self.rate as int, n) + delay_frac_of(self.rate as int)
            });
        }
        self.emitted = Ghost(n + 1);
        if self.perfect {
            return self.delay_floor;
        }
        self.head = self.head + (self.delay_rem as i32);
        if 2 * (self.head as i64) >= self.rate as i64 {
            self.head = self.head - (self.rate as i32);
            self.delay_floor + 1
        } else {
            self.delay_floor
        }
    }

    /// The delay, in centiseconds, of the next frame.
    pub fn next_delay(&mut self) -> (r: u16)
        requires
            old(self).wf(),
        ensures
            final(self).wf(),
            final(self).frame_rate() == old(self).frame_rate(),
            final(self).emitted() == old(self).emitted() + 1,
            r == delay_at(old(self).frame_rate() as int, old(self).emitted()),
    {
        let d: u16 = self.next_delay0();
        self.delay_last = d;
        d
    }

    /// The delay last emitted, or the whole part of the ideal delay before
    /// any was.
    pub fn last_delay(&self) -> (r: u16)
        requires
            self.wf(),
        ensures
            r == if self.emitted() == 0 {
                delay_floor_of(self.frame_rate() as int)
            } else {
                delay_at(self.frame_rate() as int, (self.emitted() - 1) as nat)
            },
    {
        self.delay_last
    }
}


/// What a step hands the caller for the frame it opens.
pub struct GifFrameData {
    pub width: u32,
    pub height: u32,
    /// Number of the frame now open, from 0.
    pub index: u16,
    /// Number of frames in the animation.
    pub total: u16,
    /// The delay last scheduled, in centiseconds.
    pub delay: u16,
    /// When set, the canvas still holds the previous frame, which must be
    /// encoded with this delay (in centiseconds) before the canvas changes.
    pub flush: Option<u16>,
}

/// Outcome of one step of the renderer.
pub enum GifRendererStep {
    /// Every frame has been opened; nothing was done.
    Done(),
    /// A new frame is open for drawing.
    Next(GifFrameData),
}

/// A drawing operation on the renderer's canvas.
pub enum GifRendererOp<'t> {
    Fill(&'t RGBA8),
    SetPixel(u32, u32, &'t RGBA8),
}

/// Frame pacing for a streamed animation of `frame_count` frames: owns the
/// one canvas being drawn, tells its caller when the previous frame must be
/// encoded and with which delay, and refuses drawing outside an open frame.
pub struct GifRenderer {
    canvas: HeapCanvas,
    frame_count: u16,
    head: u16,
    finished: bool,
    done: bool,
    delay: GifRendererDelayData,
}

impl GifRenderer {
    /// Number of frames in the animation.
    pub closed spec fn frame_count(&self) -> nat {
        self.frame_count as nat
    }

    /// Number of frames opened so far.
    pub closed spec fn head(&self) -> nat {
        self.head as nat
    }

    /// Whether the last frame has been handed out for encoding.
    pub closed spec fn finished(&self) -> bool {
        self.finished
    }

    /// Whether a step has reported that every frame was opened.
    pub closed spec fn done(&self) -> bool {
        self.done
    }

    /// Frames per second.
    pub closed spec fn frame_rate(&self) -> nat {
        self.delay.frame_rate()
    }

    /// Number of frames handed out for encoding so far.
    pub closed spec fn flushed(&self) -> nat {
        self.delay.emitted()
    }

    /// The canvas being drawn.
    pub closed spec fn surface(&self) -> HeapCanvas {
        self.canvas
    }

    pub fn new(canvas: HeapCanvas, frame_rate: u16, frame_count: u16) -> (r: GifRenderer)
        requires
            canvas.inv(),
            frame_rate > 0,
        ensures
            r.inv(),
            r.surface() == canvas,
            r.frame_rate() == frame_rate,
            r.frame_count() == frame_count,
            r.head() == 0,
            r.flushed() == 0,
            !r.finished(),
            !r.done(),
    {
        GifRenderer {
            canvas,
            frame_count,
            head: 0u16,
            finished: false,
            done: false,
            delay: GifRendererDelayData::new(frame_rate),
        }
    }

    /// Read access to the canvas, for encoding it.
    pub fn canvas(&self) -> (r: &HeapCanvas)
        requires
            self.inv(),
        ensures
            *r == self.surface(),
            r.inv(),
    {
        &self.canvas
    }

    /// The delay to encode the pending frame with, when one is pending.
    fn flush(&mut self) -> (r: Option<u16>)
        requires
            old(self).inv(),
        ensures
            final(self).delay.wf(),
            final(self).canvas == old(self).canvas,
            final(self).frame_count == old(self).frame_count,
            final(self).head == old(self).head,
            final(self).finished == old(self).finished,
            final(self).done == old(self).done,
            final(self).delay.frame_rate() == old(self).delay.frame_rate(),
            old(self).head > 0 ==> r == Some(
                delay_at(old(self).frame_rate() as int, old(self).flushed()) as u16,
            ) && final(self).flushed() == old(self).flushed() + 1,
            old(self).head == 0 ==> r is None && final(self).flushed() == old(self).flushed(),
    {
        if self.head > 0 {
            Some(self.delay.next_delay())
        } else {
            None
        }
    }

    /// Opens the next frame. The previous frame, if any, is handed out
    /// through `flush` before the caller draws again. Once every frame has
    /// been opened, or after `finish`, the step is `Done`: it changes neither
    /// the canvas nor the frame count, and from then on drawing is ignored.
    pub fn step(&mut self) -> (r: GifRendererStep)
        requires
            old(self).inv(),
        ensures
            final(self).inv(),
            final(self).surface() == old(self).surface(),
            final(self).frame_count() == old(self).frame_count(),
            final(self).frame_rate() == old(self).frame_rate(),
            final(self).finished() == old(self).finished(),
            old(self).finished() || old(self).done() || old(self).head() >= old(
                self,
            ).frame_count() ==> {
                &&& r is Done
                &&& final(self).done()
                &&& !final(self).draws()
                &&& final(self).head() == old(self).head()
                &&& final(self).flushed() == old(self).flushed()
            },
            !old(self).finished() && !old(self).done() && old(self).head() < old(
                self,
            ).frame_count() ==> {
                &&& r matches GifRendererStep::Next(fd)
                &&& !final(self).done()
                &&& final(self).draws()
                &&& fd.index == old(self).head()
                &&& fd.total == old(self).frame_count()
                &&& fd.width == old(self).surface().draw_width()
                &&& fd.height == old(self).surface().draw_height()
                &&& final(self).head() == old(self).head() + 1
                &&& fd.flush == if old(self).head() > 0 {
                    Some(delay_at(old(self).frame_rate() as int, old(self).flushed()) as u16)
                } else {
                    None::<u16>
                }
                &&& fd.delay == if final(self).flushed() == 0 {
                    delay_floor_of(old(self).frame_rate() as int)
                } else {
                    delay_at(old(self).frame_rate() as int, (final(self).flushed() - 1) as nat)
                }
            },
    {
        let head: u16 = self.head;
        if self.finished || self.done || head >= self.frame_count {
            self.done = true;
            return GifRendererStep::Done();
        }
        let flush = self.flush();
        self.head = head + 1;
        GifRendererStep::Next(
            GifFrameData {
                width: self.canvas.get_width(),
                height: self.canvas.get_height(),
                index: head,
                total: self.frame_count,
                delay: self.delay.last_delay(),
                flush,
            },
        )
    }

    /// Whether a frame is open, so that `write` takes effect.
    pub fn accepts_writes(&self) -> (r: bool)
        ensures
            r == self.draws(),
    {
        self.head >= 1 && !self.finished && !self.done
    }

    /// Applies `op` to the canvas while a frame is open; ignored, without
    /// error, before the first step, after a step has returned `Done`, and
    /// after `finish`.
    pub fn write(&mut self, op: GifRendererOp)
        requires
            old(self).inv(),
            old(self).draws() ==> (op matches GifRendererOp::SetPixel(x, y, _) ==> x < old(
                self,
            ).surface().draw_width() && y < old(self).surface().draw_height()),
        ensures
            final(self).inv(),
            final(self).frame_count() == old(self).frame_count(),
            final(self).frame_rate() == old(self).frame_rate(),
            final(self).head() == old(self).head(),
            final(self).finished() == old(self).finished(),
            final(self).done() == old(self).done(),
            final(self).flushed() == old(self).flushed(),
            final(self).surface().draw_width() == old(self).surface().draw_width(),
            final(self).surface().draw_height() == old(self).surface().draw_height(),
            forall|i: int, j: int|
                0 <= i < old(self).surface().draw_width() && 0 <= j < old(
                    self,
                ).surface().draw_height() ==> #[trigger] final(self).surface().pixel_at(i, j)
                    == if old(self).draws() {
                    match op {
                        GifRendererOp::Fill(c) => *c,
                        GifRendererOp::SetPixel(x, y, c) => if i == x && j == y {
                            *c
                        } else {
                            old(self).surface().pixel_at(i, j)
                        },
                    }
                } else {
                    old(self).surface().pixel_at(i, j)
                },
    {
        if self.head < 1 || self.finished || self.done {
            return;
        }
        match op {
            GifRendererOp::Fill(col) => {
                self.canvas.fill(col);
            },
            GifRendererOp::SetPixel(x, y, col) => {
                self.canvas.set_pixel(x, y, col);
            },
        }
    }

    /// Ends the animation: hands out the delay of the pending last frame, if
    /// a frame was opened, and refuses further steps and drawing. A second
    /// call does nothing.
    pub fn finish(&mut self) -> (r: Option<u16>)
        requires
            old(self).inv(),
        ensures
            final(self).inv(),
            final(self).finished(),
            !final(self).draws(),
            final(self).done() == old(self).done(),
            final(self).surface() == old(self).surface(),
            final(self).frame_count() == old(self).frame_count(),
            final(self).frame_rate() == old(self).frame_rate(),
            final(self).head() == old(self).head(),
            old(self).finished() ==> r is None && final(self).flushed() == old(self).flushed(),
            !old(self).finished() ==> r == if old(self).head() > 0 {
                Some(delay_at(old(self).frame_rate() as int, old(self).flushed()) as u16)
            } else {
                None::<u16>
            },
    {
        if self.finished {
            return None;
        }
        let r = self.flush();
        self.finished = true;
        r
    }
}

impl PixelDraw for GifRenderer {
    /// The canvas is well formed, at most every frame has been opened, and
    /// exactly the frames that were closed have been handed out.
    closed spec fn inv(&self) -> bool {
        &&& self.canvas.inv()
        &&& self.delay.wf()
        &&& self.head <= self.frame_count
        &&& self.delay.emitted() == if self.head == 0 {
            0
        } else if self.finished {
            self.head as int
        } else {
            self.head - 1
        }
    }

    closed spec fn draw_width(&self) -> nat {
        self.canvas.draw_width()
    }

    closed spec fn draw_height(&self) -> nat {
        self.canvas.draw_height()
    }

    open spec fn draws(&self) -> bool {
        self.head() >= 1 && !self.finished() && !self.done()
    }

    closed spec fn pixel_at(&self, x: int, y: int) -> RGBA8 {
        self.canvas.pixel_at(x, y)
    }

    fn set_pixel(&mut self, x: u32, y: u32, col: &RGBA8) {
        self.write(GifRendererOp::SetPixel(x, y, col));
    }
}

} // verus!
