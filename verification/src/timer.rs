use crate::consts;
use crate::context::Context;
use vstd::prelude::*;

verus! {

/// The divider and the programmable counter.
///
/// DIV advances once per 256 ticks. TIMA advances once per `period(tac)`
/// ticks while bit 2 of TAC is set; when it would pass 0xff it is reloaded
/// from TMA and the timer interrupt is requested.
pub struct Timer {
    pub div: u8,
    pub tima: u8,
    pub tma: u8,
    pub tac: u8,
    pub timer_counter: usize,
    pub divider_counter: usize,
}

impl Default for Timer {
    fn default() -> (timer: Timer)
        ensures
            timer.in_step(),
            timer == (Timer {
                div: 0,
                tima: 0,
                tma: 0,
                tac: 0,
                timer_counter: 0,
                divider_counter: 0,
            }),
    {
        Timer { div: 0, tima: 0, tma: 0, tac: 0, timer_counter: 0, divider_counter: 0 }
    }
}

/// Ticks between two increments of DIV.
pub const DIVIDER_PERIOD: usize = 256;

/// True when TAC lets TIMA count.
pub open spec fn counting(tac: u8) -> bool {
    tac & 0x04 != 0
}

/// Ticks between two increments of TIMA, selected by the low two bits of TAC.
pub open spec fn period(tac: u8) -> int {
    let mode = tac & 3;
    if mode == 0 {
        1024
    } else if mode == 1 {
        16
    } else if mode == 2 {
        64
    } else {
        256
    }
}

/// A sub-tick counter one tick later. It starts again from zero after the
/// largest value the machine word holds.
pub open spec fn next_count(c: usize) -> usize {
    if c == usize::MAX {
        0
    } else {
        (c + 1) as usize
    }
}

/// An 8-bit counter one step later, wrapping at 0xff.
pub open spec fn next_byte(v: u8) -> u8 {
    if v == 0xff {
        0
    } else {
        (v + 1) as u8
    }
}

/// TIMA one increment later: past 0xff it restarts from the reload value.
pub open spec fn next_tima(tima: u8, tma: u8) -> u8 {
    if tima == 0xff {
        tma
    } else {
        (tima + 1) as u8
    }
}

/// TIMA after `k` increments with a fixed reload value.
pub open spec fn tima_after(tima: u8, tma: u8, k: nat) -> u8
    decreases k,
{
    if k == 0 {
        tima
    } else {
        next_tima(tima_after(tima, tma, (k - 1) as nat), tma)
    }
}

impl Timer {
    /// Both sub-tick counters are below their periods, as they are after
    /// power-on and after every tick that starts from such a state.
    pub open spec fn in_step(self) -> bool {
        &&& self.divider_counter < DIVIDER_PERIOD
        &&& counting(self.tac) ==> self.timer_counter < period(self.tac)
    }

    /// The timer and the interrupt state one tick later.
    pub open spec fn tick_spec(self, ctx: Context) -> (Timer, Context) {
        let dc = next_count(self.divider_counter);
        let divided = if dc == DIVIDER_PERIOD {
            Timer { div: next_byte(self.div), divider_counter: 0, ..self }
        } else {
            Timer { divider_counter: dc, ..self }
        };
        if counting(self.tac) {
            let tc = next_count(self.timer_counter);
            if tc == period(self.tac) {
                (
                    Timer {
                        tima: next_tima(self.tima, self.tma),
                        timer_counter: 0,
                        ..divided
                    },
                    if self.tima == 0xff {
                        Context {
                            interrupt_flag: ctx.interrupt_flag | consts::TIMER_INTERRUPT,
                            ..ctx
                        }
                    } else {
                        ctx
                    },
                )
            } else {
                (Timer { timer_counter: tc, ..divided }, ctx)
            }
        } else {
            (divided, ctx)
        }
    }

    /// The timer and the interrupt state `n` ticks later.
    pub open spec fn ticks_spec(self, ctx: Context, n: nat) -> (Timer, Context)
        decreases n,
    {
        if n == 0 {
            (self, ctx)
        } else {
            let (timer, c) = self.ticks_spec(ctx, (n - 1) as nat);
            timer.tick_spec(c)
        }
    }

    /// Advances the timer by one tick.
    pub fn tick(&mut self, ctx: &mut Context)
        ensures
            (*final(self), *final(ctx)) == old(self).tick_spec(*old(ctx)),
    {
        self.divider_counter = self.divider_counter.wrapping_add(1);
        if self.divider_counter == DIVIDER_PERIOD {
            self.div = self.div.wrapping_add(1);
            self.divider_counter = 0;
        }
        if self.tac & 0x04 != 0 {
            let mode = self.tac & 3;
            let target: usize = if mode == 0 {
                1024  // 4096 Hz
            } else if mode == 1 {
                16  // 262144 Hz
            } else if mode == 2 {
                64  // 65536 Hz
            } else {
                256  // 16384 Hz
            };
            self.timer_counter = self.timer_counter.wrapping_add(1);
            if self.timer_counter == target {
                if self.tima == 0xff {
                    self.tima = self.tma;
                    ctx.interrupt_flag |= consts::TIMER_INTERRUPT;
                } else {
                    self.tima += 1;
                }
                self.timer_counter = 0;
            }
        }
    }
}

/// A tick keeps the sub-tick counters below their periods.
pub proof fn lemma_tick_keeps_in_step(timer: Timer, ctx: Context)
    requires
        timer.in_step(),
    ensures
        timer.tick_spec(ctx).0.in_step(),
{
}

/// DIV advances exactly once per 256 ticks, whatever TAC holds: after `n`
/// ticks the sub-tick counter and DIV are where plain counting puts them.
pub proof fn lemma_div_rate(timer: Timer, ctx: Context, n: nat)
    requires
        timer.divider_counter < DIVIDER_PERIOD,
    ensures
        timer.ticks_spec(ctx, n).0.divider_counter == (timer.divider_counter + n) % 256,
        timer.ticks_spec(ctx, n).0.div == (timer.div + (timer.divider_counter + n) / 256) % 256,
    decreases n,
{
    if n > 0 {
        lemma_div_rate(timer, ctx, (n - 1) as nat);
        let (before, c) = timer.ticks_spec(ctx, (n - 1) as nat);
        let after = before.tick_spec(c).0;
        let count = timer.divider_counter + n - 1;
        assert(timer.ticks_spec(ctx, n).0 == after);
        assert(before.divider_counter == count % 256);
        assert(before.div == (timer.div + count / 256) % 256);
        if count % 256 == 255 {
            // This tick completes a period.
            assert((count + 1) % 256 == 0);
            assert((count + 1) / 256 == count / 256 + 1);
            assert(next_count(before.divider_counter) == DIVIDER_PERIOD);
            assert(after.divider_counter == 0);
            assert(after.div == next_byte(before.div));
            assert(next_byte(before.div) == (before.div + 1) % 256);
        } else {
            assert((count + 1) % 256 == count % 256 + 1);
            assert((count + 1) / 256 == count / 256);
            assert(next_count(before.divider_counter) == before.divider_counter + 1);
            assert(after.divider_counter == before.divider_counter + 1);
            assert(after.div == before.div);
        }
    }
}

/// Ticking changes neither TAC nor TMA.
pub proof fn lemma_ticks_keep_control(timer: Timer, ctx: Context, n: nat)
    ensures
        timer.ticks_spec(ctx, n).0.tac == timer.tac,
        timer.ticks_spec(ctx, n).0.tma == timer.tma,
    decreases n,
{
    if n > 0 {
        lemma_ticks_keep_control(timer, ctx, (n - 1) as nat);
    }
}

/// While TAC enables counting, TIMA advances exactly once per `period(tac)`
/// ticks: after `n` ticks it has made `(timer_counter + n) / period`
/// increments.
pub proof fn lemma_tima_rate(timer: Timer, ctx: Context, n: nat)
    requires
        counting(timer.tac),
        timer.timer_counter < period(timer.tac),
    ensures
        timer.ticks_spec(ctx, n).0.timer_counter == (timer.timer_counter + n) % period(timer.tac),
        timer.ticks_spec(ctx, n).0.tima == tima_after(
            timer.tima,
            timer.tma,
            ((timer.timer_counter + n) / period(timer.tac)) as nat,
        ),
    decreases n,
{
    if n > 0 {
        lemma_tima_rate(timer, ctx, (n - 1) as nat);
        lemma_ticks_keep_control(timer, ctx, (n - 1) as nat);
        let (before, c) = timer.ticks_spec(ctx, (n - 1) as nat);
        let after = before.tick_spec(c).0;
        let p = period(timer.tac);
        let count = timer.timer_counter + n - 1;
        assert(p == 1024 || p == 16 || p == 64 || p == 256);
        assert(timer.ticks_spec(ctx, n).0 == after);
        assert(before.tac == timer.tac && before.tma == timer.tma);
        assert(before.timer_counter == count % p);
        if count % p == p - 1 {
            // This tick completes a period.
            assert((count + 1) % p == 0);
            assert((count + 1) / p == count / p + 1);
            assert(next_count(before.timer_counter) == p);
            assert(after.timer_counter == 0);
            assert(after.tima == next_tima(before.tima, timer.tma));
        } else {
            assert((count + 1) % p == count % p + 1);
            assert((count + 1) / p == count / p);
            assert(next_count(before.timer_counter) == before.timer_counter + 1);
            assert(after.timer_counter == before.timer_counter + 1);
            assert(after.tima == before.tima);
        }
    }
}

/// While TAC stops the counter, TIMA and its sub-tick counter stand still.
pub proof fn lemma_tima_stopped(timer: Timer, ctx: Context, n: nat)
    requires
        !counting(timer.tac),
    ensures
        timer.ticks_spec(ctx, n).0.timer_counter == timer.timer_counter,
        timer.ticks_spec(ctx, n).0.tima == timer.tima,
        timer.ticks_spec(ctx, n).1 == ctx,
    decreases n,
{
    if n > 0 {
        lemma_tima_stopped(timer, ctx, (n - 1) as nat);
        lemma_ticks_keep_control(timer, ctx, (n - 1) as nat);
    }
}

/// A tick that takes TIMA past 0xff reloads it from TMA and requests the
/// timer interrupt in the same tick, leaving the other request bits as they
/// were. Any other tick leaves the requests alone.
pub proof fn lemma_overflow_requests_interrupt(timer: Timer, ctx: Context)
    ensures
        ({
            let (after, c) = timer.tick_spec(ctx);
            let overflow = counting(timer.tac) && next_count(timer.timer_counter) == period(
                timer.tac,
            ) && timer.tima == 0xff;
            &&& overflow ==> after.tima == timer.tma
            &&& overflow ==> c.interrupt_flag & consts::TIMER_INTERRUPT != 0
            &&& overflow ==> c.interrupt_flag & 0xfb == ctx.interrupt_flag & 0xfb
            &&& !overflow ==> c == ctx
            &&& c.interrupt_enable == ctx.interrupt_enable
        }),
{
    let f = ctx.interrupt_flag;
    assert((f | 0x04) & 0x04 != 0 && (f | 0x04) & 0xfb == f & 0xfb) by (bit_vector);
}

} // verus!
