use vstd::prelude::*;
use vstd::arithmetic::div_mod::{
    lemma_fundamental_div_mod, lemma_fundamental_div_mod_converse_div, lemma_mod_pos_bound,
};

verus! {

/// Analysis window for high-register material.
pub const SHORT_WINDOW: usize = 1024;

/// Analysis window for low-register material.
pub const LONG_WINDOW: usize = 2048;

/// `a / b` rounded up.
pub open spec fn ceil_div(a: int, b: int) -> int {
    (a + b - 1) / b
}

/// How many frames follow the seed window when stretching `len` samples with
/// window `win` and analysis hop `hop_a`.
pub open spec fn frame_total(len: int, win: int, hop_a: int) -> int {
    if len <= win {
        0
    } else if ceil_div(len - win, hop_a) >= 2 {
        ceil_div(len - win, hop_a) - 1
    } else {
        0
    }
}

/// Where the output tail and the head of the next frame are compared.
/// The tail is `output[tail_start..]`; the probe is
/// `input[probe_start..probe_start + probe_len]`.
#[derive(Clone, Copy, Debug, PartialEq, Eq)]
pub struct Search {
    pub tail_start: usize,
    pub probe_start: usize,
    pub probe_len: usize,
}

/// Where a frame goes: `input[start..end]` is the frame; its first `fade_len`
/// samples are cross-faded into `output[fade_at..fade_at + fade_len]`, and the
/// rest of it past the synthesis hop is appended.
#[derive(Clone, Copy, Debug, PartialEq, Eq)]
pub struct Placement {
    pub start: usize,
    pub end: usize,
    pub fade_at: usize,
    pub fade_len: usize,
}

/// The frame geometry of one time stretch: window, hops, drift radius and
/// the length of the input they are laid over.
pub struct SolaLayout {
    input_len: usize,
    win_size: usize,
    hop_s: usize,
    hop_a: usize,
    drift: usize,
}

impl SolaLayout {
    pub closed spec fn input_len(&self) -> int {
        self.input_len as int
    }

    pub closed spec fn win_size(&self) -> int {
        self.win_size as int
    }

    pub closed spec fn hop_s(&self) -> int {
        self.hop_s as int
    }

    pub closed spec fn hop_a(&self) -> int {
        self.hop_a as int
    }

    pub closed spec fn drift(&self) -> int {
        self.drift as int
    }

    /// The window is one of the two sizes, the synthesis hop is half of it,
    /// the analysis hop is positive and the drift radius stays under the
    /// synthesis hop, so that a probe is never empty and the tail it is
    /// searched in is longer than it.
    pub open spec fn wf(&self) -> bool {
        &&& (self.win_size() == SHORT_WINDOW || self.win_size() == LONG_WINDOW)
        &&& self.hop_s() * 2 == self.win_size()
        &&& self.hop_a() >= 1
        &&& 1 <= self.drift() < self.hop_s()
        &&& 0 <= self.input_len()
    }

    /// Samples taken over unchanged from the start of the input.
    pub open spec fn spec_seed_len(&self) -> int {
        if self.input_len() <= self.win_size() {
            self.input_len()
        } else {
            self.win_size()
        }
    }

    pub open spec fn spec_frame_count(&self) -> int {
        frame_total(self.input_len(), self.win_size(), self.hop_a())
    }

    /// The output length when no frame is cut short: the seed and one
    /// synthesis hop per frame.
    pub open spec fn nominal_len(&self) -> int {
        self.spec_seed_len() + self.spec_frame_count() * self.hop_s()
    }

    /// Where frame `i` starts before drift correction.
    pub open spec fn nominal_start(&self, i: int) -> int {
        self.hop_a() * i
    }

    /// Lays out a stretch of `input_len` samples. High-register material takes
    /// the short window. A zero analysis hop counts as one; the drift radius
    /// is kept between one and the synthesis hop.
    pub fn new(input_len: usize, high_register: bool, hop_a: usize, drift: usize) -> (r: Self)
        ensures
            r.wf(),
            r.input_len() == input_len,
            r.win_size() == (if high_register { SHORT_WINDOW } else { LONG_WINDOW }),
            r.hop_a() == (if hop_a == 0 { 1 } else { hop_a as int }),
            r.drift() == (if drift == 0 {
                1
            } else if drift < r.hop_s() {
                drift as int
            } else {
                r.hop_s() - 1
            }),
    {
        let win_size = if high_register { SHORT_WINDOW } else { LONG_WINDOW };
        let hop_s = win_size / 2;
        SolaLayout {
            input_len,
            win_size,
            hop_s,
            hop_a: if hop_a == 0 { 1 } else { hop_a },
            drift: if drift == 0 {
                1
            } else if drift < hop_s {
                drift
            } else {
                hop_s - 1
            },
        }
    }

    pub fn window_size(&self) -> (r: usize)
        ensures
            r == self.win_size(),
    {
        self.win_size
    }

    pub fn synthesis_hop(&self) -> (r: usize)
        ensures
            r == self.hop_s(),
    {
        self.hop_s
    }

    pub fn analysis_hop(&self) -> (r: usize)
        ensures
            r == self.hop_a(),
    {
        self.hop_a
    }

    pub fn drift_radius(&self) -> (r: usize)
        ensures
            r == self.drift(),
    {
        self.drift
    }

    /// How many leading input samples open the output unchanged.
    pub fn seed_len(&self) -> (r: usize)
        requires
            self.wf(),
        ensures
            r == self.spec_seed_len(),
    {
        if self.input_len <= self.win_size {
            self.input_len
        } else {
            self.win_size
        }
    }

    /// How many frames follow the seed; they are numbered from 1.
    pub fn frame_count(&self) -> (r: usize)
        requires
            self.wf(),
        ensures
            r == self.spec_frame_count(),
    {
        if self.input_len <= self.win_size {
            return 0;
        }
        let x = self.input_len - self.win_size;
        let c = x / self.hop_a + if x % self.hop_a == 0 { 0 } else { 1 };
        proof {
            lemma_ceil_div(x as int, self.hop_a as int);
        }
        if c >= 2 {
            c - 1
        } else {
            0
        }
    }

    pub open spec fn spec_search(&self, i: int, out_len: int) -> Search {
        Search {
            tail_start: (out_len - self.hop_s() - self.drift()) as usize,
            probe_start: self.nominal_start(i) as usize,
            probe_len: (self.hop_s() - self.drift()) as usize,
        }
    }

    pub open spec fn spec_place(&self, i: int, out_len: int, offset: int) -> Placement {
        let start = clamp_start(self.nominal_start(i), self.drift(), offset);
        let end = if start + self.win_size() <= self.input_len() {
            start + self.win_size()
        } else {
            self.input_len()
        };
        Placement {
            start: start as usize,
            end: end as usize,
            fade_at: (out_len - self.hop_s()) as usize,
            fade_len: (if end - start < self.hop_s() { end - start } else { self.hop_s() }) as usize,
        }
    }

    /// Where frame `i` is searched for, given the current output length:
    /// the tail spans the last synthesis hop plus the drift radius, the probe
    /// is the head of the frame at its nominal start, shortened by the drift
    /// radius.
    pub fn search(&self, i: usize, out_len: usize) -> (r: Search)
        requires
            self.wf(),
            1 <= i <= self.spec_frame_count(),
            out_len >= self.win_size(),
        ensures
            r.tail_start == out_len - self.hop_s() - self.drift(),
            r.probe_start == self.nominal_start(i as int),
            r.probe_len == self.hop_s() - self.drift(),
            r.probe_start + r.probe_len <= self.input_len(),
            0 < r.probe_len < out_len - r.tail_start,
            r == self.spec_search(i as int, out_len as int),
    {
        proof {
            self.lemma_frame_in_input(i as int);
        }
        Search {
            tail_start: out_len - self.hop_s - self.drift,
            probe_start: self.hop_a * i,
            probe_len: self.hop_s - self.drift,
        }
    }

    /// Where frame `i` goes once the search has returned `offset` (at most
    /// twice the drift radius; larger values count as that). The frame start is
    /// moved by the drift radius less the offset, and the frame is clamped to
    /// the input, so that it may come out shorter than the window.
    pub fn place(&self, i: usize, out_len: usize, offset: usize) -> (r: Placement)
        requires
            self.wf(),
            1 <= i <= self.spec_frame_count(),
            out_len >= self.win_size(),
        ensures
            r.start <= r.end <= self.input_len(),
            r.end - r.start <= self.win_size(),
            r.start == clamp_start(self.nominal_start(i as int), self.drift(), offset as int),
            r.end == (if r.start + self.win_size() <= self.input_len() {
                r.start + self.win_size()
            } else {
                self.input_len()
            }),
            r.fade_at + self.hop_s() == out_len,
            r.fade_len == (if r.end - r.start < self.hop_s() {
                r.end - r.start
            } else {
                self.hop_s()
            }),
            r == self.spec_place(i as int, out_len as int, offset as int),
    {
        proof {
            self.lemma_frame_in_input(i as int);
        }
        let d = if offset <= 2 * self.drift { offset } else { 2 * self.drift };
        let pos = self.hop_a * i + self.drift;
        let start = if pos >= d { pos - d } else { 0 };
        let end = if start <= self.input_len - self.win_size {
            start + self.win_size
        } else {
            self.input_len
        };
        let fade_len = if end - start < self.hop_s { end - start } else { self.hop_s };
        Placement { start, end, fade_at: out_len - self.hop_s, fade_len }
    }

    /// The output length after placing a frame of `frame_len` samples: the
    /// part past the synthesis hop is appended.
    pub open spec fn grown_len(&self, out_len: int, frame_len: int) -> int {
        if frame_len > self.hop_s() {
            out_len + frame_len - self.hop_s()
        } else {
            out_len
        }
    }

    proof fn lemma_frame_in_input(&self, i: int)
        requires
            self.wf(),
            1 <= i <= self.spec_frame_count(),
        ensures
            self.nominal_start(i) + self.win_size() < self.input_len(),
            i < self.spec_frame_count() ==> self.nominal_start(i) + self.win_size()
                + self.hop_a() < self.input_len(),
            self.nominal_start(i) >= self.hop_a(),
    {
        let x = self.input_len() - self.win_size();
        let h = self.hop_a();
        lemma_ceil_div(x, h);
        let c = ceil_div(x, h);
        assert(h * i <= h * c - h) by (nonlinear_arith)
            requires
                h >= 1,
                i <= c - 1,
        ;
        if i < self.spec_frame_count() {
            assert(h * i + h <= h * c - h) by (nonlinear_arith)
                requires
                    h >= 1,
                    i <= c - 2,
            ;
        }
        assert(h * c == c * h) by (nonlinear_arith);
        assert(h * i >= h) by (nonlinear_arith)
            requires
                h >= 1,
                i >= 1,
        ;
    }
}

/// The bookkeeping of one time stretch in progress: which frame comes next
/// and how long the output is so far.
pub struct StretchRun {
    layout: SolaLayout,
    next: usize,
    out_len: usize,
}

impl StretchRun {
    pub closed spec fn layout(&self) -> SolaLayout {
        self.layout
    }

    /// The number of the frame to be placed next.
    pub closed spec fn next_frame(&self) -> int {
        self.next as int
    }

    pub closed spec fn spec_output_len(&self) -> int {
        self.out_len as int
    }

    pub open spec fn spec_is_done(&self) -> bool {
        self.next_frame() > self.layout().spec_frame_count()
    }

    /// Frames are placed in order; the output holds at least the seed and
    /// grows by at most one synthesis hop per frame, so it never outgrows the
    /// nominal length. At a ratio of at most one every frame but the last
    /// adds exactly a hop, and the last one falls short of it by less than the
    /// drift radius.
    pub open spec fn wf(&self) -> bool {
        let l = self.layout();
        &&& l.wf()
        &&& l.nominal_len() <= usize::MAX
        &&& 1 <= self.next_frame() <= l.spec_frame_count() + 1
        &&& l.spec_seed_len() <= self.spec_output_len()
        &&& self.spec_output_len() <= l.spec_seed_len() + (self.next_frame() - 1) * l.hop_s()
        &&& l.hop_s() <= l.hop_a() && self.next_frame() <= l.spec_frame_count()
            ==> self.spec_output_len() == l.spec_seed_len() + (self.next_frame() - 1) * l.hop_s()
        &&& l.hop_s() <= l.hop_a() ==> self.spec_output_len() + l.drift() >= l.spec_seed_len() + (
        self.next_frame() - 1) * l.hop_s()
    }

    /// Starts a stretch laid out by `layout`, with the seed as the output so
    /// far; `None` when the nominal output length does not fit in `usize`.
    pub fn start(layout: SolaLayout) -> (r: Option<Self>)
        requires
            layout.wf(),
        ensures
            r is Some <==> layout.nominal_len() <= usize::MAX,
            r matches Some(run) ==> {
                &&& run.wf()
                &&& run.layout() == layout
                &&& run.next_frame() == 1
                &&& run.spec_output_len() == layout.spec_seed_len()
            },
    {
        let seed = layout.seed_len();
        let frames = layout.frame_count();
        let hop_s = layout.hop_s;
        if frames > 0 && (usize::MAX - seed) / frames < hop_s {
            proof {
                assert((usize::MAX - seed) < frames * hop_s) by (nonlinear_arith)
                    requires
                        (usize::MAX - seed) / (frames as int) < hop_s,
                        frames > 0,
                        usize::MAX - seed >= 0,
                ;
            }
            return None;
        }
        proof {
            if frames > 0 {
                assert(frames * hop_s <= usize::MAX - seed) by (nonlinear_arith)
                    requires
                        (usize::MAX - seed) / (frames as int) >= hop_s,
                        frames > 0,
                        usize::MAX - seed >= 0,
                ;
            }
        }
        Some(StretchRun { layout, next: 1, out_len: seed })
    }

    pub fn is_done(&self) -> (r: bool)
        requires
            self.wf(),
        ensures
            r == self.spec_is_done(),
    {
        self.next > self.layout.frame_count()
    }

    /// The output length so far.
    pub fn output_len(&self) -> (r: usize)
        requires
            self.wf(),
        ensures
            r == self.spec_output_len(),
    {
        self.out_len
    }

    /// Where the next frame is searched for.
    pub fn search(&self) -> (r: Search)
        requires
            self.wf(),
            !self.spec_is_done(),
        ensures
            r == self.layout().spec_search(self.next_frame(), self.spec_output_len()),
            r.probe_start + r.probe_len <= self.layout().input_len(),
            r.tail_start + r.probe_len < self.spec_output_len(),
            r.probe_len > 0,
    {
        self.layout.search(self.next, self.out_len)
    }

    /// Places the next frame for the search result `offset` and moves on:
    /// the output grows by the part of the frame past the synthesis hop.
    pub fn commit(&mut self, offset: usize) -> (r: Placement)
        requires
            old(self).wf(),
            !old(self).spec_is_done(),
        ensures
            final(self).wf(),
            final(self).layout() == old(self).layout(),
            final(self).next_frame() == old(self).next_frame() + 1,
            r == old(self).layout().spec_place(
                old(self).next_frame(),
                old(self).spec_output_len(),
                offset as int,
            ),
            r.start <= r.end <= old(self).layout().input_len(),
            r.fade_at + r.fade_len <= old(self).spec_output_len(),
            r.fade_len <= r.end - r.start,
            final(self).spec_output_len() == old(self).layout().grown_len(
                old(self).spec_output_len(),
                r.end - r.start,
            ),
    {
        let p = self.layout.place(self.next, self.out_len, offset);
        proof {
            if self.layout.hop_s <= self.layout.hop_a {
                if self.next < self.layout.spec_frame_count() {
                    lemma_frames_not_clamped(self.layout, self.next as int, offset as int);
                } else {
                    lemma_last_frame(self.layout, offset as int);
                }
            }
            assert(self.next * self.layout.hop_s + 0 == (self.next - 1) * self.layout.hop_s
                + self.layout.hop_s) by (nonlinear_arith);
            assert((self.next as int) * (self.layout.hop_s as int) <= (self.layout.spec_frame_count())
                * (self.layout.hop_s as int)) by (nonlinear_arith)
                requires
                    self.next <= self.layout.spec_frame_count(),
                    self.layout.hop_s >= 0,
            ;
            assert(self.layout.spec_frame_count() < self.layout.spec_frame_count() * (
            self.layout.hop_s as int)) by (nonlinear_arith)
                requires
                    self.layout.spec_frame_count() >= 1,
                    self.layout.hop_s >= 2,
            ;
        }
        if p.end - p.start > self.layout.hop_s {
            self.out_len = self.out_len + (p.end - p.start - self.layout.hop_s);
        }
        self.next = self.next + 1;
        p
    }
}

/// The drift-corrected frame start: the nominal start moved on by the drift
/// radius and back by the offset (capped at twice the radius), never below 0.
pub open spec fn clamp_start(nominal: int, drift: int, offset: int) -> int {
    let d = if offset <= 2 * drift { offset } else { 2 * drift };
    if nominal + drift >= d {
        nominal + drift - d
    } else {
        0
    }
}

proof fn lemma_ceil_div(x: int, h: int)
    requires
        x >= 0,
        h >= 1,
    ensures
        ceil_div(x, h) * h >= x,
        ceil_div(x, h) * h <= x + h - 1,
        ceil_div(x, h) >= 0,
        ceil_div(x, h) == x / h + (if x % h == 0 { 0int } else { 1int }),
{
    lemma_fundamental_div_mod(x, h);
    lemma_mod_pos_bound(x, h);
    let q = x / h;
    let m = x % h;
    assert(q >= 0) by (nonlinear_arith)
        requires
            h >= 1,
            x >= 0,
            x == h * q + m,
            0 <= m < h,
    ;
    if m == 0 {
        assert(x + h - 1 == q * h + (h - 1)) by (nonlinear_arith)
            requires
                x == h * q + m,
                m == 0,
        ;
        lemma_fundamental_div_mod_converse_div(x + h - 1, h, q, h - 1);
    } else {
        assert(x + h - 1 == (q + 1) * h + (m - 1)) by (nonlinear_arith)
            requires
                x == h * q + m,
        ;
        lemma_fundamental_div_mod_converse_div(x + h - 1, h, q + 1, m - 1);
        assert((q + 1) * h == x - m + h) by (nonlinear_arith)
            requires
                x == h * q + m,
        ;
    }
}

/// When the analysis hop is at least the synthesis hop (a ratio of at most
/// one), no frame but the last is ever clamped: whatever offset the search
/// returns, the corrected frame starts past the drift radius and a whole
/// window of input follows it.
pub proof fn lemma_frames_not_clamped(layout: SolaLayout, i: int, offset: int)
    requires
        layout.wf(),
        layout.hop_s() <= layout.hop_a(),
        1 <= i < layout.spec_frame_count(),
        offset >= 0,
    ensures
        clamp_start(layout.nominal_start(i), layout.drift(), offset) + layout.win_size()
            <= layout.input_len(),
        clamp_start(layout.nominal_start(i), layout.drift(), offset) == layout.nominal_start(i)
            + layout.drift() - (if offset <= 2 * layout.drift() {
            offset
        } else {
            2 * layout.drift()
        }),
{
    layout.lemma_frame_in_input(i);
}

/// At a ratio of at most one the last frame loses less than the drift radius
/// to clamping, so it still reaches past the synthesis hop.
proof fn lemma_last_frame(layout: SolaLayout, offset: int)
    requires
        layout.wf(),
        layout.hop_s() <= layout.hop_a(),
        1 <= layout.spec_frame_count(),
        offset >= 0,
    ensures
        ({
            let start = clamp_start(
                layout.nominal_start(layout.spec_frame_count()),
                layout.drift(),
                offset,
            );
            let len = if start + layout.win_size() <= layout.input_len() {
                layout.win_size()
            } else {
                layout.input_len() - start
            };
            len + layout.drift() > layout.win_size() && len > layout.hop_s()
        }),
{
    layout.lemma_frame_in_input(layout.spec_frame_count());
}

/// A stretch with analysis hop `hop_a` and synthesis hop `hop_s` has the
/// ratio `hop_s / hop_a`. For a ratio of at most one, a finished run's output
/// lies within one window of the ratio times the input length:
/// `|output_len - ratio * input_len| <= win_size`, here scaled by `hop_a`.
pub proof fn lemma_stretch_length(run: StretchRun)
    requires
        run.wf(),
        run.spec_is_done(),
        run.layout().hop_s() <= run.layout().hop_a(),
    ensures
        run.spec_output_len() * run.layout().hop_a() <= run.layout().input_len()
            * run.layout().hop_s() + run.layout().win_size() * run.layout().hop_a(),
        run.layout().input_len() * run.layout().hop_s() <= run.spec_output_len()
            * run.layout().hop_a() + run.layout().win_size() * run.layout().hop_a(),
{
    let l = run.layout();
    let len = l.input_len();
    let w = l.win_size();
    let s = l.hop_s();
    let h = l.hop_a();
    let d = l.drift();
    let f = l.spec_frame_count();
    let out = run.spec_output_len();
    assert(run.next_frame() - 1 == f);
    if len <= w {
        assert(out == len);
        assert(len * h <= len * s + w * h) by (nonlinear_arith)
            requires
                0 <= len <= w,
                1 <= s <= h,
        ;
        assert(len * s <= len * h + w * h) by (nonlinear_arith)
            requires
                0 <= len <= w,
                1 <= s <= h,
        ;
    } else {
        let x = len - w;
        lemma_ceil_div(x, h);
        let c = ceil_div(x, h);
        assert(f * h <= x && x <= (f + 1) * h) by (nonlinear_arith)
            requires
                c * h >= x,
                c * h <= x + h - 1,
                h >= 1,
                x >= 1,
                f == (if c >= 2 { c - 1 } else { 0 }),
        ;
        assert(out <= w + f * s);
        assert(out + d >= w + f * s);
        assert(out * h <= (w + f * s) * h) by (nonlinear_arith)
            requires
                out <= w + f * s,
                h >= 1,
        ;
        assert(f * s * h <= x * s) by (nonlinear_arith)
            requires
                f * h <= x,
                s >= 1,
        ;
        assert(x * s <= len * s) by (nonlinear_arith)
            requires
                x <= len,
                s >= 1,
        ;
        assert((w + f * s) * h == w * h + f * s * h) by (nonlinear_arith);
        assert(len * s <= (f + 1) * h * s + w * s) by (nonlinear_arith)
            requires
                x <= (f + 1) * h,
                len == x + w,
                s >= 1,
        ;
        assert((w + f * s - d) * h <= out * h) by (nonlinear_arith)
            requires
                out + d >= w + f * s,
                h >= 1,
        ;
        assert(d * h < s * h && s * s <= s * h) by (nonlinear_arith)
            requires
                0 <= d < s,
                1 <= s <= h,
        ;
        assert((f + 1) * h * s + w * s <= (w + f * s - d) * h + w * h) by (nonlinear_arith)
            requires
                d * h < s * h,
                s * s <= s * h,
                w == 2 * s,
        ;
    }
}

/// Time-stretching by a ratio of one (equal hops) gives an output whose
/// length is within one window of the input's.
pub proof fn lemma_unit_ratio_length(run: StretchRun)
    requires
        run.wf(),
        run.spec_is_done(),
        run.layout().hop_s() == run.layout().hop_a(),
    ensures
        run.spec_output_len() <= run.layout().input_len() + run.layout().win_size(),
        run.layout().input_len() <= run.spec_output_len() + run.layout().win_size(),
{
    lemma_stretch_length(run);
    let h = run.layout().hop_a();
    let n = run.spec_output_len();
    let len = run.layout().input_len();
    let w = run.layout().win_size();
    assert(n <= len + w && len <= n + w) by (nonlinear_arith)
        requires
            n * h <= len * h + w * h,
            len * h <= n * h + w * h,
            h >= 1,
    ;
}

} // verus!
