use vstd::prelude::*;
use vstd::arithmetic::div_mod::{lemma_fundamental_div_mod, lemma_hoist_over_denominator, lemma_mod_multiples_vanish};
use crate::machine::{tick_timers, Emulator, ExecError, MachineModel};
use crate::execute::{step, step_drawn, step_drawn_outcome};

verus! {

/// Rate of the delay and sound timers, in ticks per second.
pub const TIMER_HZ: u64 = 60;

/// Turns elapsed time into the instructions and timer ticks that fall due.
///
/// Time is counted in units of `1 / units_per_second` seconds. Each schedule
/// keeps the part of a period that has elapsed but not yet fired, so that
/// timer ticks follow elapsed time alone, whatever the instruction rate and
/// however time is sliced.
pub struct Clock {
    pub units_per_second: u64,
    pub instructions_per_second: u64,
    pub instruction_remainder: u64,
    pub timer_remainder: u64,
}

/// What falls due over an interval.
#[derive(Debug, Clone, Copy, PartialEq, Eq, Structural)]
pub struct Due {
    pub instructions: u128,
    pub timer_ticks: u128,
}

/// Events of a schedule at `rate` per second that fire within `elapsed`
/// units, starting `remainder` units into the current period (scaled by `rate`).
pub open spec fn fired(remainder: int, elapsed: int, rate: int, units_per_second: int) -> int {
    (remainder + elapsed * rate) / units_per_second
}

/// The scaled part of a period left over after `elapsed` units.
pub open spec fn left_over(remainder: int, elapsed: int, rate: int, units_per_second: int) -> int {
    (remainder + elapsed * rate) % units_per_second
}

impl Clock {
    pub open spec fn wf(&self) -> bool {
        &&& self.units_per_second > 0
        &&& self.instruction_remainder < self.units_per_second
        &&& self.timer_remainder < self.units_per_second
    }

    /// A clock counting time in units of `1 / units_per_second` seconds that
    /// runs `instructions_per_second` instructions a second.
    pub fn new(units_per_second: u64, instructions_per_second: u64) -> (r: Clock)
        requires
            units_per_second > 0,
        ensures
            r.wf(),
            r == (Clock {
                units_per_second,
                instructions_per_second,
                instruction_remainder: 0,
                timer_remainder: 0,
            }),
    {
        Clock { units_per_second, instructions_per_second, instruction_remainder: 0, timer_remainder: 0 }
    }
}

/// One schedule: how many events fire within `elapsed` units, and the new remainder.
fn schedule(remainder: u64, elapsed: u64, rate: u64, units_per_second: u64) -> (r: (u128, u64))
    requires
        units_per_second > 0,
        remainder < units_per_second,
    ensures
        r.0 == fired(remainder as int, elapsed as int, rate as int, units_per_second as int),
        r.1 == left_over(remainder as int, elapsed as int, rate as int, units_per_second as int),
{
    assert(elapsed as int * rate as int <= 0xffff_ffff_ffff_ffffu64 as int * 0xffff_ffff_ffff_ffffu64 as int)
        by (nonlinear_arith)
        requires
            elapsed <= 0xffff_ffff_ffff_ffffu64,
            rate <= 0xffff_ffff_ffff_ffffu64,
    ;
    let work: u128 = remainder as u128 + elapsed as u128 * rate as u128;
    let count = work / units_per_second as u128;
    let rest = work % units_per_second as u128;
    (count, rest as u64)
}

/// Advances the clock by `elapsed` units and says what fell due.
pub fn advance(clock: &mut Clock, elapsed: u64) -> (r: Due)
    requires
        old(clock).wf(),
    ensures
        final(clock).wf(),
        final(clock).units_per_second == old(clock).units_per_second,
        final(clock).instructions_per_second == old(clock).instructions_per_second,
        r.instructions == fired(
            old(clock).instruction_remainder as int,
            elapsed as int,
            old(clock).instructions_per_second as int,
            old(clock).units_per_second as int,
        ),
        final(clock).instruction_remainder == left_over(
            old(clock).instruction_remainder as int,
            elapsed as int,
            old(clock).instructions_per_second as int,
            old(clock).units_per_second as int,
        ),
        r.timer_ticks == fired(
            old(clock).timer_remainder as int,
            elapsed as int,
            TIMER_HZ as int,
            old(clock).units_per_second as int,
        ),
        final(clock).timer_remainder == left_over(
            old(clock).timer_remainder as int,
            elapsed as int,
            TIMER_HZ as int,
            old(clock).units_per_second as int,
        ),
{
    let (instructions, irest) = schedule(
        clock.instruction_remainder,
        elapsed,
        clock.instructions_per_second,
        clock.units_per_second,
    );
    let (timer_ticks, trest) = schedule(clock.timer_remainder, elapsed, TIMER_HZ, clock.units_per_second);
    clock.instruction_remainder = irest;
    clock.timer_remainder = trest;
    Due { instructions, timer_ticks }
}

/// Splitting an interval in two fires the same events, and leaves the same
/// remainder, as advancing over it at once: the schedule does not drift with
/// how time is sliced.
pub proof fn lemma_schedule_split(remainder: int, e1: int, e2: int, rate: int, units_per_second: int)
    requires
        units_per_second > 0,
        0 <= remainder < units_per_second,
        e1 >= 0,
        e2 >= 0,
        rate >= 0,
    ensures
        fired(remainder, e1, rate, units_per_second) + fired(
            left_over(remainder, e1, rate, units_per_second),
            e2,
            rate,
            units_per_second,
        ) == fired(remainder, e1 + e2, rate, units_per_second),
        left_over(left_over(remainder, e1, rate, units_per_second), e2, rate, units_per_second)
            == left_over(remainder, e1 + e2, rate, units_per_second),
{
    let u = units_per_second;
    let a = remainder + e1 * rate;
    let q = a / u;
    let m = a % u;
    let b = e2 * rate;
    assert(e1 * rate >= 0 && e2 * rate >= 0) by (nonlinear_arith)
        requires
            e1 >= 0,
            e2 >= 0,
            rate >= 0,
    ;
    assert((e1 + e2) * rate == e1 * rate + e2 * rate) by (nonlinear_arith);
    lemma_fundamental_div_mod(a, u);
    assert(q >= 0) by {
        vstd::arithmetic::div_mod::lemma_div_pos_is_pos(a, u);
    }
    lemma_hoist_over_denominator(m + b, q, u as nat);
    assert(u * q == q * u) by (nonlinear_arith);
    lemma_mod_multiples_vanish(q, m + b, u);
}

/// Steps in turn from `m`, the `k`-th with `draws[k]` as what the random source
/// gave, stopping at the first error: the result and the machine after it.
pub open spec fn ran(m: MachineModel, draws: Seq<Option<u8>>) -> (Result<(), ExecError>, MachineModel)
    decreases draws.len(),
{
    if draws.len() == 0 {
        (Ok(()), m)
    } else {
        match step_drawn(m, draws[0]) {
            Ok(n) => ran(n, draws.drop_first()),
            Err(e) => (Err(e), m),
        }
    }
}

/// Running `a` then `b` is running `a`, then `b` from where `a` left off
/// unless `a` stopped on an error.
pub proof fn lemma_ran_append(m: MachineModel, a: Seq<Option<u8>>, b: Seq<Option<u8>>)
    ensures
        ran(m, a + b) == if ran(m, a).0 is Ok {
            ran(ran(m, a).1, b)
        } else {
            ran(m, a)
        },
    decreases a.len(),
{
    if a.len() == 0 {
        assert(a + b =~= b);
    } else {
        assert((a + b)[0] == a[0]);
        assert((a + b).drop_first() =~= a.drop_first() + b);
        if let Ok(n) = step_drawn(m, a[0]) {
            lemma_ran_append(n, a.drop_first(), b);
        }
    }
}

/// One more step, with `d` drawn, extends a run that has not failed.
proof fn lemma_ran_step(
    m: MachineModel,
    draws: Seq<Option<u8>>,
    d: Option<u8>,
    before: MachineModel,
    r: Result<(), ExecError>,
    after: MachineModel,
)
    requires
        ran(m, draws) == (Ok::<(), ExecError>(()), before),
        step_drawn_outcome(before, d, r, after),
    ensures
        ran(m, draws.push(d)) == (r, after),
{
    let one = seq![d];
    lemma_ran_append(m, draws, one);
    assert(one.drop_first() =~= Seq::<Option<u8>>::empty());
    assert(one[0] == d);
    match step_drawn(before, d) {
        Ok(n) => {
            assert(ran(n, one.drop_first()) == (Ok::<(), ExecError>(()), n));
            assert(ran(before, one) == (r, after));
        },
        Err(e) => {
            assert(ran(before, one) == (r, after));
        },
    }
    assert(draws + one =~= draws.push(d));
}

/// Whatever follows a run that stopped on an error is not run.
proof fn lemma_ran_after_error(m: MachineModel, a: Seq<Option<u8>>, b: Seq<Option<u8>>)
    requires
        ran(m, a).0 is Err,
    ensures
        ran(m, a + b) == ran(m, a),
{
    lemma_ran_append(m, a, b);
}

/// Performs what fell due: each timer tick, then each instruction, stopping at
/// the first instruction that fails.
pub fn run_due(emulator: &mut Emulator, due: Due) -> (r: Result<(), ExecError>)
    requires
        old(emulator).wf(),
    ensures
        final(emulator).wf(),
        exists|draws: Seq<Option<u8>>|
            draws.len() == due.instructions && #[trigger] ran(
                ticked_times(old(emulator)@, due.timer_ticks as nat),
                draws,
            ) == (r, final(emulator)@),
{
    let mut k: u128 = 0;
    while k < due.timer_ticks
        invariant
            emulator.wf(),
            k <= due.timer_ticks,
            emulator@ == ticked_times(old(emulator)@, k as nat),
        decreases due.timer_ticks - k,
    {
        tick_timers(emulator);
        k = k + 1;
    }
    let ghost start = emulator@;
    let ghost mut draws: Seq<Option<u8>> = Seq::empty();
    let mut j: u128 = 0;
    while j < due.instructions
        invariant
            emulator.wf(),
            start == ticked_times(old(emulator)@, due.timer_ticks as nat),
            j <= due.instructions,
            draws.len() == j,
            ran(start, draws) == (Ok::<(), ExecError>(()), emulator@),
        decreases due.instructions - j,
    {
        let ghost before = emulator@;
        let r = step(emulator);
        let ghost d = choose|d: Option<u8>| #[trigger] step_drawn_outcome(before, d, r, emulator@);
        proof {
            lemma_ran_step(start, draws, d, before, r, emulator@);
        }
        if let Err(e) = r {
            proof {
                let pad = Seq::new((due.instructions - j - 1) as nat, |q: int| None::<u8>);
                lemma_ran_after_error(start, draws.push(d), pad);
                assert((draws.push(d) + pad).len() == due.instructions);
            }
            return Err(e);
        }
        proof {
            draws = draws.push(d);
        }
        j = j + 1;
    }
    assert(ran(start, draws) == (Ok::<(), ExecError>(()), emulator@));
    Ok(())
}

/// The machine after `k` timer ticks.
pub open spec fn ticked_times(m: MachineModel, k: nat) -> MachineModel
    decreases k,
{
    if k == 0 {
        m
    } else {
        ticked_times(m, (k - 1) as nat).ticked()
    }
}

} // verus!
