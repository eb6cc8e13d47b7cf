//! The delay provider: exclusive owner of the SysTick peripheral, and the
//! chunked countdown loop that drives it.
//!
//! The provider records every operation it issues to the timer in a ghost
//! log, so that the contracts can pin down exactly which reload values are
//! programmed, in which order, and that every enable is paired with a
//! disable.  Polling the wrap flag only reads status and is not part of
//! that log.

use crate::ticks::{chunk_seq, next_chunk, ticks_for, ticks_of, MAX_RELOAD};
use cortex_m::peripheral::SYST;
use vstd::prelude::*;

verus! {

/// One observable operation on the countdown timer.
pub enum TimerOp {
    /// The core-provided clock was selected as the counter's clock source.
    SetClockSourceCore,
    /// The reload register was programmed with this chunk size.
    SetReload(u32),
    /// The current-value register was cleared.
    ClearCurrent,
    /// Counting was enabled.
    Enable,
    /// Counting was disabled.
    Disable,
}

/// The four timer operations one chunk takes, in order: program the reload
/// register, clear the current value, count with the counter enabled, and
/// disable it again once the counter has wrapped.
pub open spec fn chunk_ops(chunk: u32) -> Seq<TimerOp> {
    seq![
        TimerOp::SetReload(chunk),
        TimerOp::ClearCurrent,
        TimerOp::Enable,
        TimerOp::Disable,
    ]
}

/// The full operation sequence for a list of chunk sizes, run front to back.
pub open spec fn ops_for_chunks(chunks: Seq<u32>) -> Seq<TimerOp>
    decreases chunks.len(),
{
    if chunks.len() == 0 {
        Seq::empty()
    } else {
        chunk_ops(chunks[0]) + ops_for_chunks(chunks.skip(1))
    }
}

/// How often `op` occurs in `s`.
pub open spec fn count_op(s: Seq<TimerOp>, op: TimerOp) -> nat
    decreases s.len(),
{
    if s.len() == 0 {
        0
    } else if s[0] == op {
        (1 + count_op(s.skip(1), op)) as nat
    } else {
        count_op(s.skip(1), op)
    }
}

/// Declares `cortex_m::peripheral::SYST`, the owned handle to the SysTick
/// register block, so that it can stand in fields and signatures.  A value
/// of it is opaque here: everything the timer does is captured by the
/// operation log instead.
#[verifier::external_type_specification]
#[verifier::external_body]
pub struct ExSyst(SYST);

/// System timer (SysTick) as a delay provider.
///
/// Owns the peripheral handle exclusively until [`Delay::free`] gives it
/// back; a released provider is consumed and cannot be used again.  Not
/// for re-entrant use: a delay call occupies its execution context for the
/// whole requested duration, and driving the same counter from a second
/// context at the same time would corrupt its state.
pub struct Delay {
    sysclock: u32,
    syst: SYST,
    ops: Ghost<Seq<TimerOp>>,
}

impl Delay {
    /// The core clock frequency this provider was constructed with, in Hz.
    pub closed spec fn freq(self) -> u32 {
        self.sysclock
    }

    /// Every operation this provider has issued to the timer, oldest first.
    pub closed spec fn log(self) -> Seq<TimerOp> {
        self.ops@
    }

    /// The peripheral handle this provider owns: the one it was built on,
    /// and the one [`Delay::free`] gives back.
    pub closed spec fn handle(self) -> SYST {
        self.syst
    }

    /// Relies on `cortex_m::peripheral::SYST::set_clock_source`: selects
    /// the core-provided clock as the counter's clock source.  Recorded in
    /// the log.
    #[verifier::external_body]
    fn hw_use_core_clock(&mut self)
        ensures
            final(self).freq() == old(self).freq(),
            final(self).handle() == old(self).handle(),
            final(self).log() == old(self).log().push(TimerOp::SetClockSourceCore),
    {
        self.syst.set_clock_source(cortex_m::peripheral::syst::SystClkSource::Core);
    }

    /// Relies on `cortex_m::peripheral::SYST::set_reload`: programs the
    /// reload value register, whose valid values are 1 through
    /// `MAX_RELOAD`.  Recorded in the log.
    #[verifier::external_body]
    fn hw_set_reload(&mut self, chunk: u32)
        requires
            1 <= chunk <= MAX_RELOAD,
        ensures
            final(self).freq() == old(self).freq(),
            final(self).handle() == old(self).handle(),
            final(self).log() == old(self).log().push(TimerOp::SetReload(chunk)),
    {
        self.syst.set_reload(chunk);
    }

    /// Relies on `cortex_m::peripheral::SYST::clear_current`: clears the
    /// current-value register to zero.  Recorded in the log.
    #[verifier::external_body]
    fn hw_clear_current(&mut self)
        ensures
            final(self).freq() == old(self).freq(),
            final(self).handle() == old(self).handle(),
            final(self).log() == old(self).log().push(TimerOp::ClearCurrent),
    {
        self.syst.clear_current();
    }

    /// Relies on `cortex_m::peripheral::SYST::enable_counter`: sets the
    /// enable bit of the control register.  Recorded in the log.
    #[verifier::external_body]
    fn hw_enable_counter(&mut self)
        ensures
            final(self).freq() == old(self).freq(),
            final(self).handle() == old(self).handle(),
            final(self).log() == old(self).log().push(TimerOp::Enable),
    {
        self.syst.enable_counter();
    }

    /// Relies on `cortex_m::peripheral::SYST::disable_counter`: clears the
    /// enable bit of the control register.  Recorded in the log.
    #[verifier::external_body]
    fn hw_disable_counter(&mut self)
        ensures
            final(self).freq() == old(self).freq(),
            final(self).handle() == old(self).handle(),
            final(self).log() == old(self).log().push(TimerOp::Disable),
    {
        self.syst.disable_counter();
    }

    /// Relies on `cortex_m::peripheral::SYST::has_wrapped`: reads the
    /// COUNTFLAG bit, which the hardware sets when the counter counts down
    /// to zero.  Blocks until the bit is seen set; whether and when that
    /// happens is the hardware's doing, so nothing is promised beyond the
    /// timer programming being left untouched.  This busy poll is the one
    /// suspension point of a delay, and it is a hard block, not a yield.
    #[verifier::external_body]
    fn hw_wait_for_wrap(&mut self)
        ensures
            final(self).freq() == old(self).freq(),
            final(self).handle() == old(self).handle(),
            final(self).log() == old(self).log(),
    {
        while !self.syst.has_wrapped() {}
    }

    /// Configures the system timer (SysTick) as a delay provider: takes
    /// exclusive ownership of the handle, selects the core clock as the
    /// counter's clock source — the one operation construction issues —
    /// and snapshots the given core clock frequency, in Hz.
    pub fn new(syst: SYST, sysclock_hz: u32) -> (delay: Delay)
        requires
            sysclock_hz > 0,
        ensures
            delay.freq() == sysclock_hz,
            delay.handle() == syst,
            delay.log() == seq![TimerOp::SetClockSourceCore],
    {
        let mut delay = Delay { sysclock: sysclock_hz, syst, ops: Ghost(Seq::empty()) };
        delay.hw_use_core_clock();
        proof {
            assert(Seq::<TimerOp>::empty().push(TimerOp::SetClockSourceCore) =~= seq![
                TimerOp::SetClockSourceCore,
            ]);
        }
        delay
    }

    /// Releases the system timer (SysTick) resource, consuming the
    /// provider: the very handle it was built on comes back, and a new
    /// provider may then be built on it.
    pub fn free(self) -> (syst: SYST)
        ensures
            syst == self.handle(),
    {
        self.syst
    }

    /// Busy-waits for `total` ticks by walking `chunk_seq(total)`: each
    /// chunk is programmed into the reload register, counted down to its
    /// wrap, and the counter disabled again before the next chunk starts.
    fn run_chunks(&mut self, total: u32)
        ensures
            final(self).freq() == old(self).freq(),
            final(self).handle() == old(self).handle(),
            final(self).log() == old(self).log() + ops_for_chunks(chunk_seq(total as nat)),
    {
        let mut remaining: u32 = total;
        while remaining != 0
            invariant
                self.freq() == old(self).freq(),
                self.handle() == old(self).handle(),
                self.log() + ops_for_chunks(chunk_seq(remaining as nat)) == old(self).log()
                    + ops_for_chunks(chunk_seq(total as nat)),
            decreases remaining,
        {
            let ghost log0 = self.log();
            let ghost rem0 = remaining as nat;
            let chunk = next_chunk(remaining);
            self.hw_set_reload(chunk);
            self.hw_clear_current();
            self.hw_enable_counter();
            remaining = remaining - chunk;
            self.hw_wait_for_wrap();
            self.hw_disable_counter();
            proof {
                lemma_ops_step(rem0, chunk);
                assert(self.log() =~= log0 + chunk_ops(chunk));
                assert((log0 + chunk_ops(chunk)) + ops_for_chunks(chunk_seq(remaining as nat))
                    =~= log0 + (chunk_ops(chunk) + ops_for_chunks(chunk_seq(remaining as nat))));
            }
        }
        proof {
            assert(ops_for_chunks(chunk_seq(0)) =~= Seq::<TimerOp>::empty());
            assert(self.log() + Seq::<TimerOp>::empty() =~= self.log());
        }
    }

    /// Blocks for `us` microseconds: the request becomes
    /// `us * (freq / 1_000_000)` ticks, which are then driven through the
    /// timer chunk by chunk.  The caller keeps that product inside the
    /// `u32` domain.
    pub fn delay_us(&mut self, us: u32)
        requires
            ticks_of(us, old(self).freq()) <= u32::MAX,
        ensures
            final(self).freq() == old(self).freq(),
            final(self).handle() == old(self).handle(),
            final(self).log() == old(self).log() + ops_for_chunks(
                chunk_seq(ticks_of(us, old(self).freq())),
            ),
    {
        let total = ticks_for(us, self.sysclock);
        self.run_chunks(total);
    }

    /// Blocks for `ms` milliseconds: exactly one delay of `ms * 1000`
    /// microseconds.  The caller keeps both that product and the resulting
    /// tick count inside the `u32` domain.
    pub fn delay_ms(&mut self, ms: u32)
        requires
            ms * 1000 <= u32::MAX,
            ticks_of((ms * 1000) as u32, old(self).freq()) <= u32::MAX,
        ensures
            final(self).freq() == old(self).freq(),
            final(self).handle() == old(self).handle(),
            final(self).log() == old(self).log() + ops_for_chunks(
                chunk_seq(ticks_of((ms * 1000) as u32, old(self).freq())),
            ),
    {
        self.delay_us(ms * 1000);
    }

    /// Blocks for `us` microseconds, taking a 16-bit request.  A 16-bit
    /// microsecond count can never overflow the tick conversion, so there
    /// is no precondition; otherwise this is exactly the 32-bit path.
    pub fn delay_us_u16(&mut self, us: u16)
        ensures
            final(self).freq() == old(self).freq(),
            final(self).handle() == old(self).handle(),
            final(self).log() == old(self).log() + ops_for_chunks(
                chunk_seq(ticks_of(us as u32, old(self).freq())),
            ),
    {
        proof {
            crate::ticks::lemma_ticks_bound(us as u32, self.freq());
        }
        self.delay_us(us as u32);
    }

    /// Blocks for `us` microseconds, taking an 8-bit request; exactly the
    /// 32-bit path, with no overflow possible.
    pub fn delay_us_u8(&mut self, us: u8)
        ensures
            final(self).freq() == old(self).freq(),
            final(self).handle() == old(self).handle(),
            final(self).log() == old(self).log() + ops_for_chunks(
                chunk_seq(ticks_of(us as u32, old(self).freq())),
            ),
    {
        proof {
            crate::ticks::lemma_ticks_bound(us as u32, self.freq());
        }
        self.delay_us(us as u32);
    }

    /// Blocks for `ms` milliseconds, taking a 16-bit request: exactly one
    /// delay of `ms * 1000` microseconds.  The microsecond count always
    /// fits, but the caller keeps the tick count inside the `u32` domain.
    pub fn delay_ms_u16(&mut self, ms: u16)
        requires
            ticks_of((ms * 1000) as u32, old(self).freq()) <= u32::MAX,
        ensures
            final(self).freq() == old(self).freq(),
            final(self).handle() == old(self).handle(),
            final(self).log() == old(self).log() + ops_for_chunks(
                chunk_seq(ticks_of((ms * 1000) as u32, old(self).freq())),
            ),
    {
        self.delay_ms(ms as u32);
    }

    /// Blocks for `ms` milliseconds, taking an 8-bit request: exactly one
    /// delay of `ms * 1000` microseconds, with no overflow possible.
    pub fn delay_ms_u8(&mut self, ms: u8)
        ensures
            final(self).freq() == old(self).freq(),
            final(self).handle() == old(self).handle(),
            final(self).log() == old(self).log() + ops_for_chunks(
                chunk_seq(ticks_of((ms as u32 * 1000) as u32, old(self).freq())),
            ),
    {
        proof {
            crate::ticks::lemma_ticks_bound((ms as u32 * 1000) as u32, self.freq());
        }
        self.delay_ms(ms as u32);
    }

    /// Legacy result-wrapped form of [`Self::delay_us`]: the same delay,
    /// and the result is always success.
    pub fn try_delay_us(&mut self, us: u32) -> (r: Result<(), ()>)
        requires
            ticks_of(us, old(self).freq()) <= u32::MAX,
        ensures
            final(self).freq() == old(self).freq(),
            final(self).handle() == old(self).handle(),
            final(self).log() == old(self).log() + ops_for_chunks(
                chunk_seq(ticks_of(us, old(self).freq())),
            ),
            r == Ok::<(), ()>(()),
    {
        self.delay_us(us);
        Ok(())
    }

    /// Legacy result-wrapped form of [`Self::delay_us_u16`]: the same
    /// delay, and the result is always success.
    pub fn try_delay_us_u16(&mut self, us: u16) -> (r: Result<(), ()>)
        ensures
            final(self).freq() == old(self).freq(),
            final(self).handle() == old(self).handle(),
            final(self).log() == old(self).log() + ops_for_chunks(
                chunk_seq(ticks_of(us as u32, old(self).freq())),
            ),
            r == Ok::<(), ()>(()),
    {
        self.delay_us_u16(us);
        Ok(())
    }

    /// Legacy result-wrapped form of [`Self::delay_us_u8`]: the same
    /// delay, and the result is always success.
    pub fn try_delay_us_u8(&mut self, us: u8) -> (r: Result<(), ()>)
        ensures
            final(self).freq() == old(self).freq(),
            final(self).handle() == old(self).handle(),
            final(self).log() == old(self).log() + ops_for_chunks(
                chunk_seq(ticks_of(us as u32, old(self).freq())),
            ),
            r == Ok::<(), ()>(()),
    {
        self.delay_us_u8(us);
        Ok(())
    }

    /// Legacy result-wrapped form of [`Self::delay_ms`]: the same delay,
    /// and the result is always success.
    pub fn try_delay_ms(&mut self, ms: u32) -> (r: Result<(), ()>)
        requires
            ms * 1000 <= u32::MAX,
            ticks_of((ms * 1000) as u32, old(self).freq()) <= u32::MAX,
        ensures
            final(self).freq() == old(self).freq(),
            final(self).handle() == old(self).handle(),
            final(self).log() == old(self).log() + ops_for_chunks(
                chunk_seq(ticks_of((ms * 1000) as u32, old(self).freq())),
            ),
            r == Ok::<(), ()>(()),
    {
        self.delay_ms(ms);
        Ok(())
    }

    /// Legacy result-wrapped form of [`Self::delay_ms_u16`]: the same
    /// delay, and the result is always success.
    pub fn try_delay_ms_u16(&mut self, ms: u16) -> (r: Result<(), ()>)
        requires
            ticks_of((ms * 1000) as u32, old(self).freq()) <= u32::MAX,
        ensures
            final(self).freq() == old(self).freq(),
            final(self).handle() == old(self).handle(),
            final(self).log() == old(self).log() + ops_for_chunks(
                chunk_seq(ticks_of((ms * 1000) as u32, old(self).freq())),
            ),
            r == Ok::<(), ()>(()),
    {
        self.delay_ms_u16(ms);
        Ok(())
    }

    /// Legacy result-wrapped form of [`Self::delay_ms_u8`]: the same
    /// delay, and the result is always success.
    pub fn try_delay_ms_u8(&mut self, ms: u8) -> (r: Result<(), ()>)
        ensures
            final(self).freq() == old(self).freq(),
            final(self).handle() == old(self).handle(),
            final(self).log() == old(self).log() + ops_for_chunks(
                chunk_seq(ticks_of((ms as u32 * 1000) as u32, old(self).freq())),
            ),
            r == Ok::<(), ()>(()),
    {
        self.delay_ms_u8(ms);
        Ok(())
    }
}

/// For any nonzero remainder, the operations of its chunk decomposition
/// start with the four operations of its first chunk, followed by the
/// operations of the decomposition of what is then left.
proof fn lemma_ops_step(rem: nat, chunk: u32)
    requires
        rem > 0,
        chunk == chunk_seq(rem)[0],
    ensures
        1 <= chunk <= rem,
        ops_for_chunks(chunk_seq(rem)) == chunk_ops(chunk) + ops_for_chunks(
            chunk_seq((rem - chunk) as nat),
        ),
{
    crate::ticks::lemma_chunk_bounds(rem);
    assert(chunk_seq(rem).skip(1) =~= chunk_seq((rem - chunk) as nat));
}

/// One chunk's operations hold exactly one enable and one disable.
proof fn lemma_chunk_ops_counts(c: u32)
    ensures
        count_op(chunk_ops(c), TimerOp::Enable) == 1,
        count_op(chunk_ops(c), TimerOp::Disable) == 1,
{
    let s0 = chunk_ops(c);
    let s1 = seq![TimerOp::ClearCurrent, TimerOp::Enable, TimerOp::Disable];
    let s2 = seq![TimerOp::Enable, TimerOp::Disable];
    let s3 = seq![TimerOp::Disable];
    let s4 = Seq::<TimerOp>::empty();
    assert(s0.skip(1) =~= s1);
    assert(s1.skip(1) =~= s2);
    assert(s2.skip(1) =~= s3);
    assert(s3.skip(1) =~= s4);
    assert(count_op(s4, TimerOp::Enable) == 0);
    assert(count_op(s3, TimerOp::Enable) == 0);
    assert(count_op(s2, TimerOp::Enable) == 1);
    assert(count_op(s1, TimerOp::Enable) == 1);
    assert(count_op(s0, TimerOp::Enable) == 1);
    assert(count_op(s4, TimerOp::Disable) == 0);
    assert(count_op(s3, TimerOp::Disable) == 1);
    assert(count_op(s2, TimerOp::Disable) == 1);
    assert(count_op(s1, TimerOp::Disable) == 1);
    assert(count_op(s0, TimerOp::Disable) == 1);
}

/// Occurrence counts distribute over concatenation.
proof fn lemma_count_op_add(a: Seq<TimerOp>, b: Seq<TimerOp>, op: TimerOp)
    ensures
        count_op(a + b, op) == count_op(a, op) + count_op(b, op),
    decreases a.len(),
{
    if a.len() == 0 {
        assert(a + b =~= b);
    } else {
        lemma_count_op_add(a.skip(1), b, op);
        assert((a + b).skip(1) =~= a.skip(1) + b);
        assert((a + b)[0] == a[0]);
    }
}

/// Over any list of chunks: enables and disables are balanced one to one
/// per chunk, and when there is at least one chunk the very last
/// operation is the disable.
proof fn lemma_ops_balance(chunks: Seq<u32>)
    ensures
        count_op(ops_for_chunks(chunks), TimerOp::Enable) == chunks.len(),
        count_op(ops_for_chunks(chunks), TimerOp::Disable) == chunks.len(),
        chunks.len() > 0 ==> ops_for_chunks(chunks).last() == TimerOp::Disable,
    decreases chunks.len(),
{
    if chunks.len() > 0 {
        let head = chunk_ops(chunks[0]);
        let rest = ops_for_chunks(chunks.skip(1));
        lemma_ops_balance(chunks.skip(1));
        lemma_chunk_ops_counts(chunks[0]);
        lemma_count_op_add(head, rest, TimerOp::Enable);
        lemma_count_op_add(head, rest, TimerOp::Disable);
        if chunks.skip(1).len() == 0 {
            assert(head + rest =~= head);
            assert((head + rest).last() == TimerOp::Disable);
        } else {
            assert((head + rest).last() == rest.last());
        }
    }
}

/// The counter never stays running: over the operations of any delay, the
/// counter is enabled exactly once and disabled exactly once per chunk,
/// and whenever any work was done at all the final operation is the
/// disable — so after a delay call returns, the counter is disabled.
pub proof fn lemma_counter_left_disabled(total: nat)
    ensures
        count_op(ops_for_chunks(chunk_seq(total)), TimerOp::Enable) == chunk_seq(total).len(),
        count_op(ops_for_chunks(chunk_seq(total)), TimerOp::Disable) == chunk_seq(total).len(),
        total > 0 ==> ops_for_chunks(chunk_seq(total)).last() == TimerOp::Disable,
{
    lemma_ops_balance(chunk_seq(total));
}

/// A zero-microsecond request is zero ticks at every clock frequency and
/// performs no timer operation at all: no reload, enable or disable
/// cycle.
pub proof fn lemma_zero_request_no_ops(hz: u32)
    ensures
        ticks_of(0, hz) == 0,
        chunk_seq(ticks_of(0, hz)) == Seq::<u32>::empty(),
        ops_for_chunks(chunk_seq(ticks_of(0, hz))) == Seq::<TimerOp>::empty(),
{
    assert(chunk_seq(0) =~= Seq::<u32>::empty());
    assert(ops_for_chunks(Seq::<u32>::empty()) =~= Seq::<TimerOp>::empty());
}

} // verus!
