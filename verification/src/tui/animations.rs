//! Braille animations for the terminal: a spinner, a pulse and a progress bar.
//!
//! Each animation steps to its next frame once its interval has passed since
//! the last step, and wraps around after the last frame.

use vstd::prelude::*;
use std::time::Instant;

verus! {

#[verifier::external_type_specification]
#[verifier::external_body]
pub struct ExInstant(Instant);

/// The current instant (std's `Instant::now`); nothing is claimed of it.
#[verifier::external_body]
fn instant_now() -> Instant {
    Instant::now()
}

/// Milliseconds elapsed since `t` (std's `Instant::elapsed`, in whole
/// milliseconds); it depends on the clock, so nothing is claimed of it.
#[verifier::external_body]
fn elapsed_millis(t: &Instant) -> u128 {
    t.elapsed().as_millis()
}

/// The frame after `f` in a cycle of `n` frames.
pub open spec fn next_frame(f: nat, n: nat) -> nat {
    (f + 1) % n
}

/// The frame reached from `f` after `k` steps in a cycle of `n` frames.
pub open spec fn frame_after(f: nat, n: nat, k: nat) -> nat
    decreases k,
{
    if k == 0 {
        f
    } else {
        next_frame(frame_after(f, n, (k - 1) as nat), n)
    }
}

proof fn lemma_frame_after(f: nat, n: nat, k: nat)
    requires
        f < n,
    ensures
        frame_after(f, n, k) == (f + k) % n,
    decreases k,
{
    if k > 0 {
        lemma_frame_after(f, n, (k - 1) as nat);
        let a: int = f + k - 1;
        let m: int = n as int;
        vstd::arithmetic::div_mod::lemma_add_mod_noop(a, 1, m);
        if n == 1 {
            vstd::arithmetic::div_mod::lemma_mod_bound(a, 1);
            vstd::arithmetic::div_mod::lemma_mod_bound(a + 1, 1);
            vstd::arithmetic::div_mod::lemma_mod_bound((a % 1) + 1, 1);
        } else {
            vstd::arithmetic::div_mod::lemma_small_mod(1, n);
        }
        assert(((a % m) + 1) % m == (a + 1) % m);
        assert(frame_after(f, n, (k - 1) as nat) == a % m);
        assert(frame_after(f, n, k) == (frame_after(f, n, (k - 1) as nat) + 1) % n);
    } else {
        vstd::arithmetic::div_mod::lemma_small_mod(f, n);
    }
}

/// After as many steps as it has frames, an animation is back at the frame
/// it started from.
pub proof fn law_full_cycle(f: nat, n: nat)
    requires
        f < n,
    ensures
        frame_after(f, n, n) == f,
{
    lemma_frame_after(f, n, n);
    vstd::arithmetic::div_mod::lemma_mod_add_multiples_vanish(f as int, n as int);
    vstd::arithmetic::div_mod::lemma_small_mod(f, n);
}

/// The frames of an animation and where it stands.
struct Cycle {
    frames: Vec<&'static str>,
    frame: usize,
    interval_ms: u128,
    start: Instant,
}

impl Cycle {
    spec fn wf(&self) -> bool {
        self.frames@.len() > 0 && self.frame < self.frames@.len()
    }

    fn tick(&mut self, elapsed_ms: u128) -> (stepped: bool)
        requires
            old(self).wf(),
        ensures
            final(self).wf(),
            final(self).frames@ == old(self).frames@,
            final(self).interval_ms == old(self).interval_ms,
            stepped == (elapsed_ms >= old(self).interval_ms),
            stepped ==> final(self).frame == next_frame(old(self).frame as nat, old(self).frames@.len()),
            !stepped ==> final(self).frame == old(self).frame,
        no_unwind
    {
        if elapsed_ms >= self.interval_ms {
            let n = self.frames.len();
            self.frame = (self.frame + 1) % n;
            true
        } else {
            false
        }
    }

    fn current(&self) -> (s: &'static str)
        requires
            self.wf(),
        ensures
            s@ == self.frames@[self.frame as int]@,
    {
        self.frames[self.frame]
    }
}

/// A spinning braille dot, stepping every 80 ms.
pub struct BrailleSpinner {
    cycle: Cycle,
}

impl BrailleSpinner {
    #[verifier::type_invariant]
    spec fn inv(self) -> bool {
        self.cycle.wf() && self.cycle.frames@.len() == 10 && self.cycle.interval_ms == 80
    }

    /// The index of the frame shown.
    pub closed spec fn frame(&self) -> nat {
        self.cycle.frame as nat
    }

    /// The frames, in order.
    pub closed spec fn frames(&self) -> Seq<Seq<char>> {
        self.cycle.frames@.map_values(|f: &'static str| f@)
    }

    /// The number of frames.
    pub open spec fn frame_count(&self) -> nat {
        10
    }

    /// Step to the next frame if 80 ms have passed since the last step;
    /// tell whether it stepped.
    pub fn tick(&mut self, elapsed_ms: u128) -> (stepped: bool)
        ensures
            stepped == (elapsed_ms >= 80),
            stepped ==> final(self).frame() == next_frame(old(self).frame(), 10),
            !stepped ==> final(self).frame() == old(self).frame(),
            final(self).frames() == old(self).frames(),
    {
        proof {
            use_type_invariant(&*self);
        }
        self.cycle.tick(elapsed_ms)
    }

    /// Step to the next frame, and restart the clock, if 80 ms have passed on the
    /// clock since the last step: `tick` with the milliseconds the clock shows.
    pub fn update(&mut self)
        ensures
            final(self).frame() == old(self).frame() || final(self).frame() == next_frame(old(self).frame(), 10),
            final(self).frames() == old(self).frames(),
    {
        let e = elapsed_millis(&self.cycle.start);
        if self.tick(e) {
            proof {
                use_type_invariant(&*self);
            }
            self.cycle.start = instant_now();
        }
    }

    /// The frame shown.
    pub fn current(&self) -> (s: &'static str)
        ensures
            self.frame() < 10,
            s@ == self.frames()[self.frame() as int],
    {
        proof {
            use_type_invariant(self);
        }
        self.cycle.current()
    }
}

impl Default for BrailleSpinner {
    /// The first frame, with the clock started now.
    fn default() -> (r: Self)
        ensures
            r.frame() == 0,
    {
        let mut frames: Vec<&'static str> = Vec::new();
        frames.push("\u{280b}");
        frames.push("\u{2819}");
        frames.push("\u{2839}");
        frames.push("\u{2838}");
        frames.push("\u{283c}");
        frames.push("\u{2834}");
        frames.push("\u{2826}");
        frames.push("\u{2827}");
        frames.push("\u{2807}");
        frames.push("\u{280f}");
        BrailleSpinner { cycle: Cycle { frames, frame: 0, interval_ms: 80, start: instant_now() } }
    }
}

/// A braille bar that rises and falls, stepping every 120 ms.
pub struct BraillePulse {
    cycle: Cycle,
}

impl BraillePulse {
    #[verifier::type_invariant]
    spec fn inv(self) -> bool {
        self.cycle.wf() && self.cycle.frames@.len() == 7 && self.cycle.interval_ms == 120
    }

    /// The index of the frame shown.
    pub closed spec fn frame(&self) -> nat {
        self.cycle.frame as nat
    }

    /// The frames, in order.
    pub closed spec fn frames(&self) -> Seq<Seq<char>> {
        self.cycle.frames@.map_values(|f: &'static str| f@)
    }

    /// The number of frames.
    pub open spec fn frame_count(&self) -> nat {
        7
    }

    /// Step to the next frame if 120 ms have passed since the last step;
    /// tell whether it stepped.
    pub fn tick(&mut self, elapsed_ms: u128) -> (stepped: bool)
        ensures
            stepped == (elapsed_ms >= 120),
            stepped ==> final(self).frame() == next_frame(old(self).frame(), 7),
            !stepped ==> final(self).frame() == old(self).frame(),
            final(self).frames() == old(self).frames(),
    {
        proof {
            use_type_invariant(&*self);
        }
        self.cycle.tick(elapsed_ms)
    }

    /// Step to the next frame, and restart the clock, if 120 ms have passed on the
    /// clock since the last step: `tick` with the milliseconds the clock shows.
    pub fn update(&mut self)
        ensures
            final(self).frame() == old(self).frame() || final(self).frame() == next_frame(old(self).frame(), 7),
            final(self).frames() == old(self).frames(),
    {
        let e = elapsed_millis(&self.cycle.start);
        if self.tick(e) {
            proof {
                use_type_invariant(&*self);
            }
            self.cycle.start = instant_now();
        }
    }

    /// The frame shown.
    pub fn current(&self) -> (s: &'static str)
        ensures
            self.frame() < 7,
            s@ == self.frames()[self.frame() as int],
    {
        proof {
            use_type_invariant(self);
        }
        self.cycle.current()
    }
}

impl Default for BraillePulse {
    /// The first frame, with the clock started now.
    fn default() -> (r: Self)
        ensures
            r.frame() == 0,
    {
        let mut frames: Vec<&'static str> = Vec::new();
        frames.push("\u{28c0}");
        frames.push("\u{28e4}");
        frames.push("\u{28f6}");
        frames.push("\u{28ff}");
        frames.push("\u{28f6}");
        frames.push("\u{28e4}");
        frames.push("\u{28c0}");
        BraillePulse { cycle: Cycle { frames, frame: 0, interval_ms: 120, start: instant_now() } }
    }
}

/// A braille column that fills and empties, stepping every 100 ms.
pub struct BrailleProgress {
    cycle: Cycle,
}

impl BrailleProgress {
    #[verifier::type_invariant]
    spec fn inv(self) -> bool {
        self.cycle.wf() && self.cycle.frames@.len() == 7 && self.cycle.interval_ms == 100
    }

    /// The index of the frame shown.
    pub closed spec fn frame(&self) -> nat {
        self.cycle.frame as nat
    }

    /// The frames, in order.
    pub closed spec fn frames(&self) -> Seq<Seq<char>> {
        self.cycle.frames@.map_values(|f: &'static str| f@)
    }

    /// The number of frames.
    pub open spec fn frame_count(&self) -> nat {
        7
    }

    /// Step to the next frame if 100 ms have passed since the last step;
    /// tell whether it stepped.
    pub fn tick(&mut self, elapsed_ms: u128) -> (stepped: bool)
        ensures
            stepped == (elapsed_ms >= 100),
            stepped ==> final(self).frame() == next_frame(old(self).frame(), 7),
            !stepped ==> final(self).frame() == old(self).frame(),
            final(self).frames() == old(self).frames(),
    {
        proof {
            use_type_invariant(&*self);
        }
        self.cycle.tick(elapsed_ms)
    }

    /// Step to the next frame, and restart the clock, if 100 ms have passed on the
    /// clock since the last step: `tick` with the milliseconds the clock shows.
    pub fn update(&mut self)
        ensures
            final(self).frame() == old(self).frame() || final(self).frame() == next_frame(old(self).frame(), 7),
            final(self).frames() == old(self).frames(),
    {
        let e = elapsed_millis(&self.cycle.start);
        if self.tick(e) {
            proof {
                use_type_invariant(&*self);
            }
            self.cycle.start = instant_now();
        }
    }

    /// The frame shown.
    pub fn current(&self) -> (s: &'static str)
        ensures
            self.frame() < 7,
            s@ == self.frames()[self.frame() as int],
    {
        proof {
            use_type_invariant(self);
        }
        self.cycle.current()
    }
}

impl Default for BrailleProgress {
    /// The first frame, with the clock started now.
    fn default() -> (r: Self)
        ensures
            r.frame() == 0,
    {
        let mut frames: Vec<&'static str> = Vec::new();
        frames.push("\u{2840}");
        frames.push("\u{2844}");
        frames.push("\u{2846}");
        frames.push("\u{2847}");
        frames.push("\u{2846}");
        frames.push("\u{2844}");
        frames.push("\u{2840}");
        BrailleProgress { cycle: Cycle { frames, frame: 0, interval_ms: 100, start: instant_now() } }
    }
}

} // verus!
