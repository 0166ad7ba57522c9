//! The machine around the processor: cadence bookkeeping and frame output.
//!
//! [`CHIPMachine`] owns a [`Processor`] together with the bookkeeping its
//! driver needs: how long one cycle should take, when the last cycle ran,
//! and whether a program is loaded. The driver decides *when* to call
//! [`CHIPMachine::cycle`]; the machine performs exactly one step per call.

use vstd::prelude::*;

use crate::model::{tick_enabled, tick_spec};
use crate::processor::Processor;

verus! {

/// Marker making `std::time::Instant` usable in verified signatures; the
/// type stays opaque to the verifier.
#[verifier::external_type_specification]
#[verifier::external_body]
pub struct ExInstant(std::time::Instant);

/// Relies on std::time::Instant::now: a reading of the monotonic clock. The
/// value depends on the time of the call, so nothing is promised of it.
#[verifier::external_body]
fn instant_now() -> std::time::Instant {
    std::time::Instant::now()
}

/// Relies on std::time::Duration::from_micros to build the cycle cadence
/// value; the result is opaque to the verifier, so nothing is promised of
/// it.
#[verifier::external_body]
fn duration_from_micros(us: u64) -> std::time::Duration {
    std::time::Duration::from_micros(us)
}

/// One CHIP-8 machine with the bookkeeping its event-loop driver reads.
pub struct CHIPMachine {
    /// The processor holding all machine state.
    pub cpu: Processor,
    /// How long one cycle should take; read by the driver, never by the
    /// core.
    pub cycle_duration: std::time::Duration,
    /// When the last cycle ran; read and reset by the driver.
    pub start_time: std::time::Instant,
    /// Whether a program image has been loaded.
    pub running: bool,
}

impl CHIPMachine {
    /// A fresh machine for a `width` by `height` display, not yet running.
    pub fn new(width: usize, height: usize) -> (r: CHIPMachine)
        requires
            width >= 1,
            height >= 1,
            width * height <= usize::MAX,
        ensures
            r.cpu@ == crate::model::initial(width, height),
            r.cpu@.wf(),
            !r.running,
    {
        CHIPMachine {
            cpu: Processor::new(width, height),
            start_time: instant_now(),
            cycle_duration: duration_from_micros(200),
            running: false,
        }
    }

    /// Run exactly one fetch/decode/execute step of the processor.
    pub fn cycle(&mut self)
        requires
            tick_enabled(old(self).cpu@),
        ensures
            exists|b: u8| final(self).cpu@ == tick_spec(old(self).cpu@, b),
            final(self).running == old(self).running,
            final(self).cycle_duration == old(self).cycle_duration,
            final(self).start_time == old(self).start_time,
    {
        self.cpu.tick();
    }

    /// Restart the cadence clock at the current time; the machine state is
    /// untouched.
    pub fn reset_start_time(&mut self)
        ensures
            final(self).cpu == old(self).cpu,
            final(self).running == old(self).running,
            final(self).cycle_duration == old(self).cycle_duration,
    {
        self.start_time = instant_now();
    }

    /// The byte at offset `k` of the four-byte color a pixel state maps to:
    /// one teal color for a set pixel, one slate color for a clear one, both
    /// fully opaque.
    pub open spec fn color_byte(on: bool, k: int) -> u8 {
        if k == 0 {
            if on { 0x2a } else { 0x26 }
        } else if k == 1 {
            if on { 0x9d } else { 0x46 }
        } else if k == 2 {
            if on { 0x8f } else { 0x53 }
        } else {
            0xFF
        }
    }

    /// The whole frame a pixel buffer maps to: four color bytes per pixel,
    /// in pixel order.
    pub open spec fn frame_bytes(pixels: Seq<bool>) -> Seq<u8> {
        Seq::new(4 * pixels.len(), |j: int| Self::color_byte(pixels[j / 4], j % 4))
    }

    /// Render the visible display buffer into a frame of four color bytes
    /// per pixel.
    #[verifier::loop_isolation(false)]
    pub fn draw(&self, screen: &mut Vec<u8>)
        requires
            old(screen)@.len() == 4 * self.cpu.pixels@.len(),
        ensures
            final(screen)@ == Self::frame_bytes(self.cpu.pixels@),
    {
        let n = self.cpu.pixels.len();
        let slen = screen.len();
        proof {
            assert(slen == 4 * n);
        }
        let mut p: usize = 0;
        while p < n
            invariant
                p <= n,
                screen@.len() == 4 * n,
                forall|j: int|
                    0 <= j < 4 * p ==> screen@[j] == Self::color_byte(
                        self.cpu.pixels@[j / 4],
                        j % 4,
                    ),
            decreases n - p,
        {
            let on = self.cpu.pixels[p];
            let (b0, b1, b2) = if on {
                (0x2a, 0x9d, 0x8f)
            } else {
                (0x26, 0x46, 0x53)
            };
            screen[4 * p] = b0;
            screen[4 * p + 1] = b1;
            screen[4 * p + 2] = b2;
            screen[4 * p + 3] = 0xFF;
            proof {
                assert forall|j: int| 0 <= j < 4 * (p + 1) implies screen@[j]
                    == Self::color_byte(self.cpu.pixels@[j / 4], j % 4) by {
                    if 4 * p <= j {
                        assert(j / 4 == p && j % 4 == j - 4 * p) by (nonlinear_arith)
                            requires
                                4 * p <= j < 4 * (p + 1),
                        ;
                    }
                }
            }
            p = p + 1;
        }
        proof {
            assert(screen@ =~= Self::frame_bytes(self.cpu.pixels@));
        }
    }
}

} // verus!
