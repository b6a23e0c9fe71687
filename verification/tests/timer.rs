use gb_core::context::Context;
use gb_core::timer::Timer;

fn tick_times(timer: &mut Timer, ctx: &mut Context, n: usize) {
    for _ in 0..n {
        timer.tick(ctx);
    }
}

#[test]
fn div_advances_once_per_256_ticks() {
    for tac in [0x00u8, 0x04, 0x05, 0x06, 0x07] {
        let mut timer = Timer::default();
        let mut ctx = Context::default();
        timer.tac = tac;
        tick_times(&mut timer, &mut ctx, 255);
        assert_eq!(timer.div, 0);
        timer.tick(&mut ctx);
        assert_eq!(timer.div, 1);
        tick_times(&mut timer, &mut ctx, 256 * 3);
        assert_eq!(timer.div, 4);
        assert_eq!(timer.divider_counter, 0);
    }
}

#[test]
fn div_wraps_at_0xff() {
    let mut timer = Timer::default();
    let mut ctx = Context::default();
    timer.div = 0xff;
    tick_times(&mut timer, &mut ctx, 256);
    assert_eq!(timer.div, 0);
}

#[test]
fn tima_rate_follows_tac() {
    for (tac, period) in [(0x04u8, 1024usize), (0x05, 16), (0x06, 64), (0x07, 256)] {
        let mut timer = Timer::default();
        let mut ctx = Context::default();
        timer.tac = tac;
        tick_times(&mut timer, &mut ctx, period - 1);
        assert_eq!(timer.tima, 0);
        timer.tick(&mut ctx);
        assert_eq!(timer.tima, 1);
        assert_eq!(timer.timer_counter, 0);
        tick_times(&mut timer, &mut ctx, period * 9);
        assert_eq!(timer.tima, 10);
        assert_eq!(ctx.interrupt_flag, 0);
    }
}

#[test]
fn tima_stands_still_when_disabled() {
    for tac in [0x00u8, 0x01, 0x02, 0x03, 0xfb] {
        let mut timer = Timer::default();
        let mut ctx = Context::default();
        timer.tac = tac;
        timer.tima = 0xfe;
        tick_times(&mut timer, &mut ctx, 5000);
        assert_eq!(timer.tima, 0xfe);
        assert_eq!(timer.timer_counter, 0);
        assert_eq!(ctx.interrupt_flag, 0);
    }
}

#[test]
fn tima_overflow_reloads_and_requests_interrupt() {
    let mut timer = Timer::default();
    let mut ctx = Context::default();
    ctx.interrupt_flag = 0x01;
    timer.tac = 0x05;
    timer.tma = 0xab;
    timer.tima = 0xff;
    tick_times(&mut timer, &mut ctx, 15);
    assert_eq!(timer.tima, 0xff);
    assert_eq!(ctx.interrupt_flag, 0x01);
    timer.tick(&mut ctx);
    assert_eq!(timer.tima, 0xab);
    // The timer bit is added to the requests that are already there.
    assert_eq!(ctx.interrupt_flag, 0x05);
}

#[test]
fn tima_overflow_with_zero_reload() {
    let mut timer = Timer::default();
    let mut ctx = Context::default();
    timer.tac = 0x05;
    timer.tima = 0xff;
    tick_times(&mut timer, &mut ctx, 16);
    assert_eq!(timer.tima, 0x00);
    assert_eq!(ctx.interrupt_flag & 0x04, 0x04);
}

#[test]
fn upper_bits_of_tac_are_ignored() {
    let mut timer = Timer::default();
    let mut ctx = Context::default();
    timer.tac = 0xfd;
    tick_times(&mut timer, &mut ctx, 16);
    assert_eq!(timer.tima, 1);
}
