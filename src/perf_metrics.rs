//! Frame-time measurement: frames per second, or the duration of the last
//! frame. Times are microseconds on a monotonic clock that the caller reads.
use vstd::prelude::*;
use crate::text::{layout_fits, layout_uvs, layout_vertices, Text};
use crate::vec::Vec2;

verus! {

/// One second, in microseconds.
pub const SECOND: u64 = 1_000_000;

/// `now - start`, or 0 where the clock reads earlier than the start.
pub open spec fn elapsed(now: u64, start: u64) -> u64 {
    if now >= start {
        (now - start) as u64
    } else {
        0
    }
}

fn elapsed_exec(now: u64, start: u64) -> (r: u64)
    ensures
        r == elapsed(now, start),
{
    if now >= start {
        now - start
    } else {
        0
    }
}

/// Counts the frames ended within each second.
#[derive(Clone, Copy, Debug, PartialEq, Eq, Structural)]
pub struct Fps {
    /// Frames ended in the last full second.
    pub frames: u64,
    /// Frames ended so far in the current second.
    pub cur_frames: u64,
    /// When the current second began.
    pub frame_start: u64,
}

impl Fps {
    pub fn new(now: u64) -> (r: Fps)
        ensures
            r == (Fps { frames: 0, cur_frames: 0, frame_start: now }),
    {
        Fps { frames: 0, cur_frames: 0, frame_start: now }
    }

    pub fn reset(&mut self, now: u64)
        ensures
            *final(self) == (Fps { frames: 0, cur_frames: 0, frame_start: now }),
    {
        self.frames = 0;
        self.cur_frames = 0;
        self.frame_start = now;
    }

    pub fn frame_begin(&mut self, now: u64)
        ensures
            *final(self) == *old(self),
    {
    }

    /// Counts the frame; once a second has passed since the current second
    /// began, publishes the count and starts a new second at `now`.
    pub fn frame_end(&mut self, now: u64)
        ensures
            ({
                let counted = if old(self).cur_frames < u64::MAX {
                    (old(self).cur_frames + 1) as u64
                } else {
                    u64::MAX
                };
                if elapsed(now, old(self).frame_start) >= SECOND {
                    *final(self) == Fps { frames: counted, cur_frames: 0, frame_start: now }
                } else {
                    *final(self) == Fps { cur_frames: counted, ..*old(self) }
                }
            }),
    {
        self.cur_frames = self.cur_frames.saturating_add(1);
        if elapsed_exec(now, self.frame_start) >= SECOND {
            self.frame_start = now;
            self.frames = self.cur_frames;
            self.cur_frames = 0;
        }
    }

    pub fn get_value(&self) -> (r: u64)
        ensures
            r == self.frames,
    {
        self.frames
    }
}

/// Measures the duration of the last frame.
#[derive(Clone, Copy, Debug, PartialEq, Eq, Structural)]
pub struct Mpf {
    /// Duration of the last frame, in microseconds.
    pub m_sec: u64,
    /// When the current frame began.
    pub frame_start: u64,
}

impl Mpf {
    pub fn new(now: u64) -> (r: Mpf)
        ensures
            r == (Mpf { m_sec: 0, frame_start: now }),
    {
        Mpf { m_sec: 0, frame_start: now }
    }

    pub fn reset(&mut self, now: u64)
        ensures
            *final(self) == (Mpf { m_sec: 0, frame_start: now }),
    {
        self.m_sec = 0;
        self.frame_start = now;
    }

    pub fn frame_begin(&mut self, now: u64)
        ensures
            *final(self) == (Mpf { frame_start: now, ..*old(self) }),
    {
        self.frame_start = now;
    }

    pub fn frame_end(&mut self, now: u64)
        ensures
            *final(self) == (Mpf { m_sec: elapsed(now, old(self).frame_start), ..*old(self) }),
    {
        self.m_sec = elapsed_exec(now, self.frame_start);
    }

    pub fn get_value(&self) -> (r: u64)
        ensures
            r == self.m_sec,
    {
        self.m_sec
    }
}

/// A frame-time measurement of either kind.
#[derive(Clone, Copy, Debug, PartialEq, Eq, Structural)]
pub enum PerfHandler {
    FramesPerSecond(Fps),
    MillisecondsPerFrame(Mpf),
}

impl PerfHandler {
    pub open spec fn after_reset(self, now: u64) -> PerfHandler {
        match self {
            PerfHandler::FramesPerSecond(_) => PerfHandler::FramesPerSecond(
                Fps { frames: 0, cur_frames: 0, frame_start: now },
            ),
            PerfHandler::MillisecondsPerFrame(_) => PerfHandler::MillisecondsPerFrame(
                Mpf { m_sec: 0, frame_start: now },
            ),
        }
    }

    pub open spec fn after_begin(self, now: u64) -> PerfHandler {
        match self {
            PerfHandler::FramesPerSecond(f) => PerfHandler::FramesPerSecond(f),
            PerfHandler::MillisecondsPerFrame(m) => PerfHandler::MillisecondsPerFrame(
                Mpf { frame_start: now, ..m },
            ),
        }
    }

    pub open spec fn after_end(self, now: u64) -> PerfHandler {
        match self {
            PerfHandler::FramesPerSecond(f) => {
                let counted = if f.cur_frames < u64::MAX {
                    (f.cur_frames + 1) as u64
                } else {
                    u64::MAX
                };
                if elapsed(now, f.frame_start) >= SECOND {
                    PerfHandler::FramesPerSecond(
                        Fps { frames: counted, cur_frames: 0, frame_start: now },
                    )
                } else {
                    PerfHandler::FramesPerSecond(Fps { cur_frames: counted, ..f })
                }
            },
            PerfHandler::MillisecondsPerFrame(m) => PerfHandler::MillisecondsPerFrame(
                Mpf { m_sec: elapsed(now, m.frame_start), ..m },
            ),
        }
    }

    /// Frames per second, or the last frame's duration in microseconds.
    pub open spec fn value(self) -> u64 {
        match self {
            PerfHandler::FramesPerSecond(f) => f.frames,
            PerfHandler::MillisecondsPerFrame(m) => m.m_sec,
        }
    }

    pub fn reset(&mut self, now: u64)
        ensures
            *final(self) == old(self).after_reset(now),
    {
        match self {
            PerfHandler::FramesPerSecond(f) => f.reset(now),
            PerfHandler::MillisecondsPerFrame(m) => m.reset(now),
        }
    }

    pub fn frame_begin(&mut self, now: u64)
        ensures
            *final(self) == old(self).after_begin(now),
    {
        match self {
            PerfHandler::FramesPerSecond(f) => f.frame_begin(now),
            PerfHandler::MillisecondsPerFrame(m) => m.frame_begin(now),
        }
    }

    pub fn frame_end(&mut self, now: u64)
        ensures
            *final(self) == old(self).after_end(now),
    {
        match self {
            PerfHandler::FramesPerSecond(f) => f.frame_end(now),
            PerfHandler::MillisecondsPerFrame(m) => m.frame_end(now),
        }
    }

    pub fn get_value(&self) -> (r: u64)
        ensures
            r == self.value(),
    {
        match self {
            PerfHandler::FramesPerSecond(f) => f.get_value(),
            PerfHandler::MillisecondsPerFrame(m) => m.get_value(),
        }
    }
}

/// The decimal digits of `n`, most significant first, as ASCII.
pub open spec fn decimal(n: nat) -> Seq<u8>
    decreases n,
{
    if n < 10 {
        seq![(48 + n) as u8]
    } else {
        decimal(n / 10).push((48 + n % 10) as u8)
    }
}

/// `10^k`.
pub open spec fn ten_to(k: nat) -> nat
    decreases k,
{
    if k == 0 {
        1
    } else {
        10 * ten_to((k - 1) as nat)
    }
}

proof fn lemma_decimal_bounded(n: nat, k: nat)
    requires
        n < ten_to(k),
        k >= 1,
    ensures
        decimal(n).len() <= k,
    decreases k,
{
    if n >= 10 {
        if k == 1 {
            assert(ten_to(1) == 10 * ten_to(0));
        } else {
            lemma_decimal_bounded(n / 10, (k - 1) as nat);
        }
    }
}

/// `label` followed by the decimal digits of `n`.
pub fn append_decimal(label: &Vec<u8>, n: u64) -> (r: Vec<u8>)
    ensures
        r@ == label@ + decimal(n as nat),
{
    let mut digits: Vec<u8> = Vec::new();
    let mut m: u64 = n;
    // digits holds the low digits of n, least significant first
    while m >= 10
        invariant
            decimal(n as nat) == decimal(m as nat) + digits@.reverse(),
        decreases m,
    {
        let d = (48 + m % 10) as u8;
        proof {
            assert(decimal(m as nat) == decimal((m / 10) as nat).push(d));
            assert(digits@.push(d).reverse() =~= seq![d] + digits@.reverse());
            assert(decimal((m / 10) as nat).push(d) + digits@.reverse() =~= decimal(
                (m / 10) as nat,
            ) + (seq![d] + digits@.reverse()));
        }
        digits.push(d);
        m = m / 10;
    }
    let mut out: Vec<u8> = Vec::new();
    let mut i: usize = 0;
    while i < label.len()
        invariant
            i <= label@.len(),
            out@ == label@.subrange(0, i as int),
        decreases label@.len() - i,
    {
        out.push(label[i]);
        proof {
            assert(out@ =~= label@.subrange(0, i + 1));
        }
        i += 1;
    }
    let first = (48 + m) as u8;
    out.push(first);
    proof {
        assert(label@.subrange(0, label@.len() as int) =~= label@);
        assert(decimal(m as nat) == seq![first]);
    }
    let mut j: usize = digits.len();
    while j > 0
        invariant
            j <= digits@.len(),
            out@ == label@ + seq![first] + digits@.subrange(j as int, digits@.len() as int).reverse(),
        decreases j,
    {
        j -= 1;
        out.push(digits[j]);
        proof {
            let tail = digits@.subrange(j as int, digits@.len() as int);
            let rest = digits@.subrange(j + 1, digits@.len() as int);
            assert(tail =~= seq![digits@[j as int]] + rest);
            assert(tail.reverse() =~= rest.reverse().push(digits@[j as int]));
        }
    }
    proof {
        assert(digits@.subrange(0, digits@.len() as int) =~= digits@);
        assert(out@ =~= label@ + decimal(n as nat));
    }
    out
}

/// Where the measurement is shown.
pub open spec fn label_position() -> Vec2 {
    Vec2 { x: 458752, y: 458752 }
}

/// The label's prefix, `Fps: `.
pub open spec fn label_prefix() -> Seq<u8> {
    seq![70u8, 112u8, 115u8, 58u8, 32u8]
}

fn label_prefix_exec() -> (r: Vec<u8>)
    ensures
        r@ == label_prefix(),
{
    let mut v: Vec<u8> = Vec::new();
    v.push(70);
    v.push(112);
    v.push(115);
    v.push(58);
    v.push(32);
    assert(v@ =~= label_prefix());
    v
}

/// A frame-time measurement and the label that shows it.
#[derive(Clone, Debug)]
pub struct PerfMetrics {
    perf_handler: PerfHandler,
    text: Text,
}

impl PerfMetrics {
    /// The label sits at its place at the standard size.
    pub closed spec fn wf(self) -> bool {
        self.text.position == label_position() && self.text.size == 12
    }

    pub closed spec fn handler(self) -> PerfHandler {
        self.perf_handler
    }

    pub closed spec fn label(self) -> Text {
        self.text
    }

    /// A measurement labelled `Fps: ` at `(7, 7)`.
    pub fn new(perf_handler: PerfHandler) -> (r: PerfMetrics)
        ensures
            r.wf(),
            r.handler() == perf_handler,
            r.label().vertices@ == layout_vertices(label_position(), 12, 5),
            r.label().tex_coords@ == layout_uvs(label_prefix()),
    {
        let prefix = label_prefix_exec();
        let position = Vec2 { x: 7 * 65536, y: 7 * 65536 };
        PerfMetrics { perf_handler, text: Text::new(Some(prefix), position) }
    }

    pub fn frame_begin(&mut self, now: u64)
        requires
            old(self).wf(),
        ensures
            final(self).wf(),
            final(self).handler() == old(self).handler().after_begin(now),
            final(self).label() == old(self).label(),
    {
        self.perf_handler.frame_begin(now);
    }

    /// Ends the frame and relabels with the new value.
    pub fn frame_end(&mut self, now: u64)
        requires
            old(self).wf(),
        ensures
            final(self).wf(),
            final(self).handler() == old(self).handler().after_end(now),
            final(self).label().vertices@ == layout_vertices(
                label_position(),
                12,
                5 + decimal(final(self).handler().value() as nat).len() as int,
            ),
            final(self).label().tex_coords@ == layout_uvs(
                label_prefix() + decimal(final(self).handler().value() as nat),
            ),
    {
        self.perf_handler.frame_end(now);
        let value = self.perf_handler.get_value();
        let label = append_decimal(&label_prefix_exec(), value);
        proof {
            reveal_with_fuel(ten_to, 21);
            assert(ten_to(20) == 100_000_000_000_000_000_000);
            lemma_decimal_bounded(value as nat, 20);
        }
        self.text.set_text(label);
    }

    /// The label's quads and atlas coordinates.
    pub fn label_text(&self) -> (r: &Text)
        ensures
            *r == self.label(),
    {
        &self.text
    }
}

} // verus!
