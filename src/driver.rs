//! The cycle and timer driver: a frame runs a fixed number of decoder steps,
//! then counts both timers down once and reports whether the tone sounds.
//!
//! Timers count down once per frame (the 60 Hz cadence of the frame loop),
//! not once per executed instruction.
use vstd::prelude::*;
use crate::cpu::{CPU, Chip8Error, CpuState};
use crate::instruction::{outcome_matches, step_spec};
use crate::window::Window;

verus! {

/// Decoder steps run in one frame.
pub const CYCLES_PER_FRAME: usize = 8;

/// Relies on `rand::random::<u8>`: a byte drawn from the thread-local
/// generator. Nothing is known of its value.
#[verifier::external_body]
fn random_byte() -> (r: u8) {
    rand::random::<u8>()
}

/// Both timers counted down by one, stopping at zero.
pub open spec fn tick(s: CpuState) -> CpuState {
    CpuState {
        delay_timer: if s.delay_timer > 0 { (s.delay_timer - 1) as u8 } else { 0u8 },
        sound_timer: if s.sound_timer > 0 { (s.sound_timer - 1) as u8 } else { 0u8 },
        ..s
    }
}

/// The outcome of running one decoder step per byte of `rnds`, each step
/// using its byte as the random byte; the first error ends the run.
pub open spec fn run_cycles(s: CpuState, screen: Seq<bool>, keys: Seq<bool>, rnds: Seq<u8>) -> Result<
    (CpuState, Seq<bool>),
    Chip8Error,
>
    decreases rnds.len(),
{
    if rnds.len() == 0 {
        Ok((s, screen))
    } else {
        match run_cycles(s, screen, keys, rnds.drop_last()) {
            Ok((s1, px1)) => step_spec(s1, px1, keys, rnds.last()),
            Err(e) => Err(e),
        }
    }
}

/// The outcome of a frame whose steps drew the random bytes `rnds`: on
/// success the timers are counted down after the steps and the result says
/// whether the sound timer is still running.
pub open spec fn frame_matches(
    pre: CpuState,
    pre_screen: Seq<bool>,
    keys: Seq<bool>,
    rnds: Seq<u8>,
    post: CpuState,
    post_screen: Seq<bool>,
    r: Result<bool, Chip8Error>,
) -> bool {
    match run_cycles(pre, pre_screen, keys, rnds) {
        Ok((s, px)) => r == Ok::<bool, Chip8Error>(tick(s).sound_timer > 0) && post == tick(s)
            && post_screen == px,
        Err(e) => r == Err::<bool, Chip8Error>(e),
    }
}

/// A run that failed stays failed whatever steps would have followed.
proof fn lemma_cycles_err_extends(
    s: CpuState,
    screen: Seq<bool>,
    keys: Seq<bool>,
    rnds: Seq<u8>,
    extra: Seq<u8>,
)
    requires
        run_cycles(s, screen, keys, rnds) is Err,
    ensures
        run_cycles(s, screen, keys, rnds + extra) == run_cycles(s, screen, keys, rnds),
    decreases extra.len(),
{
    if extra.len() == 0 {
        assert(rnds + extra =~= rnds);
    } else {
        lemma_cycles_err_extends(s, screen, keys, rnds, extra.drop_last());
        assert((rnds + extra).drop_last() =~= rnds + extra.drop_last());
    }
}

impl CPU {
    /// Counts both timers down by one, stopping at zero, and returns whether
    /// the tone should sound, that is whether the sound timer is still
    /// nonzero.
    pub fn tick_timers(&mut self) -> (sound_on: bool)
        requires
            old(self).wf(),
        ensures
            final(self).wf(),
            final(self)@ == tick(old(self)@),
            sound_on == (final(self)@.sound_timer > 0),
    {
        if self.delay_timer > 0 {
            self.delay_timer = self.delay_timer - 1;
        }
        if self.sound_timer > 0 {
            self.sound_timer = self.sound_timer - 1;
        }
        self.sound_timer > 0
    }

    /// One decoder step with a freshly drawn random byte.
    pub fn run_loop(&mut self, screen: &mut Window, keys: &[bool; 16]) -> (r: Result<
        (),
        Chip8Error,
    >)
        requires
            old(self).wf(),
        ensures
            final(self).wf(),
            exists|rnd: u8|
                outcome_matches(
                    old(self)@,
                    old(screen)@,
                    final(self)@,
                    final(screen)@,
                    r,
                    #[trigger] step_spec(old(self)@, old(screen)@, keys@, rnd),
                ),
    {
        let rnd = random_byte();
        self.step(screen, keys, rnd)
    }

    /// One frame: `CYCLES_PER_FRAME` decoder steps against the key snapshot
    /// `keys`, then one countdown of both timers. Returns whether the tone
    /// should sound. The first error ends the frame and is returned.
    pub fn run_frame(&mut self, screen: &mut Window, keys: &[bool; 16]) -> (r: Result<
        bool,
        Chip8Error,
    >)
        requires
            old(self).wf(),
        ensures
            final(self).wf(),
            exists|rnds: Seq<u8>|
                rnds.len() == CYCLES_PER_FRAME && #[trigger] frame_matches(
                    old(self)@,
                    old(screen)@,
                    keys@,
                    rnds,
                    final(self)@,
                    final(screen)@,
                    r,
                ),
    {
        let ghost rnds: Seq<u8> = Seq::empty();
        let mut c: usize = 0;
        while c < CYCLES_PER_FRAME
            invariant
                c <= CYCLES_PER_FRAME,
                rnds.len() == c,
                self.wf(),
                run_cycles(old(self)@, old(screen)@, keys@, rnds) == Ok::<
                    (CpuState, Seq<bool>),
                    Chip8Error,
                >((self@, screen@)),
            decreases CYCLES_PER_FRAME - c,
        {
            let ghost pre = self@;
            let ghost pre_screen = screen@;
            let res = self.run_loop(screen, keys);
            let ghost rnd = choose|rnd: u8|
                outcome_matches(
                    pre,
                    pre_screen,
                    self@,
                    screen@,
                    res,
                    #[trigger] step_spec(pre, pre_screen, keys@, rnd),
                );
            let ghost prev = rnds;
            proof {
                rnds = rnds.push(rnd);
                assert(rnds.drop_last() =~= prev);
            }
            match res {
                Ok(()) => {},
                Err(e) => {
                    proof {
                        let pad = Seq::new((CYCLES_PER_FRAME - c - 1) as nat, |k: int| 0u8);
                        lemma_cycles_err_extends(old(self)@, old(screen)@, keys@, rnds, pad);
                        assert(frame_matches(
                            old(self)@,
                            old(screen)@,
                            keys@,
                            rnds + pad,
                            self@,
                            screen@,
                            Err(e),
                        ));
                    }
                    return Err(e);
                },
            }
            c += 1;
        }
        let sound_on = self.tick_timers();
        assert(frame_matches(old(self)@, old(screen)@, keys@, rnds, self@, screen@, Ok(sound_on)));
        Ok(sound_on)
    }
}

} // verus!
