//! The tick and chunk model: how a requested duration becomes a tick count,
//! and how a tick count is split into reload-register-sized chunks.

use vstd::arithmetic::div_mod::{
    lemma_basic_div_specific_divisor, lemma_div_is_ordered, lemma_div_plus_one,
};
use vstd::arithmetic::mul::lemma_mul_upper_bound;
use vstd::prelude::*;

verus! {

/// Largest value the SysTick reload register can hold: a 24-bit ceiling.
pub const MAX_RELOAD: u32 = 0x00FF_FFFF;

/// Ticks needed for `us` microseconds at a core clock of `hz` Hz: the
/// counter advances `hz / 1_000_000` times per microsecond (truncating
/// division, as the hardware ratio is taken).
pub open spec fn ticks_of(us: u32, hz: u32) -> nat {
    (us as nat) * ((hz as nat) / 1_000_000)
}

/// The chunk decomposition of `total` ticks: greedy slices of at most
/// `MAX_RELOAD` ticks each, in the order they are run.  Zero ticks yield
/// no chunk at all.
pub open spec fn chunk_seq(total: nat) -> Seq<u32>
    decreases total,
{
    if total == 0 {
        Seq::empty()
    } else if total <= MAX_RELOAD {
        seq![total as u32]
    } else {
        seq![MAX_RELOAD] + chunk_seq((total - MAX_RELOAD) as nat)
    }
}

/// Sum of a sequence of chunk sizes.
pub open spec fn sum_of(s: Seq<u32>) -> nat
    decreases s.len(),
{
    if s.len() == 0 {
        0
    } else {
        (s[0] + sum_of(s.skip(1))) as nat
    }
}

/// `total / MAX_RELOAD`, rounded up: the number of chunks a delay takes.
pub open spec fn chunk_count(total: nat) -> nat {
    ((total + MAX_RELOAD - 1) / (MAX_RELOAD as int)) as nat
}

/// The chunks of a delay add up to exactly the requested tick count:
/// no tick is lost to the splitting and none is invented.
pub proof fn lemma_chunk_sum(total: nat)
    ensures
        sum_of(chunk_seq(total)) == total,
    decreases total,
{
    if total == 0 {
    } else if total <= MAX_RELOAD {
        assert(chunk_seq(total)[0] == total as u32);
        assert(chunk_seq(total).skip(1) =~= Seq::<u32>::empty());
        assert(sum_of(Seq::<u32>::empty()) == 0);
    } else {
        let rest = (total - MAX_RELOAD) as nat;
        lemma_chunk_sum(rest);
        assert(chunk_seq(total)[0] == MAX_RELOAD);
        assert(chunk_seq(total).skip(1) =~= chunk_seq(rest));
    }
}

/// A delay of `total` ticks takes exactly `ceil(total / MAX_RELOAD)` chunks.
pub proof fn lemma_chunk_count(total: nat)
    ensures
        chunk_seq(total).len() == chunk_count(total),
    decreases total,
{
    let m = MAX_RELOAD as int;
    if total == 0 {
        lemma_basic_div_specific_divisor(m);
    } else if total <= MAX_RELOAD {
        lemma_basic_div_specific_divisor(m);
        lemma_div_plus_one(total - 1, m);
    } else {
        let rest = (total - MAX_RELOAD) as nat;
        lemma_chunk_count(rest);
        lemma_div_plus_one(rest + MAX_RELOAD - 1, m);
    }
}

/// Every chunk is between 1 and `MAX_RELOAD`: a value the reload register
/// can be programmed with, and never a pointless zero-length cycle.
pub proof fn lemma_chunk_bounds(total: nat)
    ensures
        forall|i: int|
            0 <= i < chunk_seq(total).len() ==> 1 <= #[trigger] chunk_seq(total)[i] <= MAX_RELOAD,
    decreases total,
{
    if total > MAX_RELOAD {
        let rest = (total - MAX_RELOAD) as nat;
        lemma_chunk_bounds(rest);
        assert forall|i: int| 0 <= i < chunk_seq(total).len() implies 1 <= #[trigger] chunk_seq(
            total,
        )[i] <= MAX_RELOAD by {
            if i > 0 {
                assert(chunk_seq(total)[i] == chunk_seq(rest)[i - 1]);
            }
        }
    }
}

/// A tick count that just fits the reload register runs as a single chunk
/// of exactly that size.
pub proof fn lemma_exact_fit_single_chunk()
    ensures
        chunk_seq(MAX_RELOAD as nat) =~= seq![MAX_RELOAD],
{
}

/// One tick past the reload register's ceiling takes two chunks: a full
/// one, then a single leftover tick, in that order.
pub proof fn lemma_one_past_fit_two_chunks()
    ensures
        chunk_seq(MAX_RELOAD as nat + 1) =~= seq![MAX_RELOAD, 1u32],
{
    assert(chunk_seq(1) =~= seq![1u32]);
}

/// For every requested duration and clock frequency: the delay's chunk
/// decomposition has exactly `ceil(total / MAX_RELOAD)` chunks (none when
/// the tick total is zero), and the chunk sizes add up to the tick total
/// exactly.
pub proof fn lemma_delay_chunking(us: u32, hz: u32)
    ensures
        chunk_seq(ticks_of(us, hz)).len() == chunk_count(ticks_of(us, hz)),
        sum_of(chunk_seq(ticks_of(us, hz))) == ticks_of(us, hz),
        ticks_of(us, hz) == 0 ==> chunk_seq(ticks_of(us, hz)).len() == 0,
{
    lemma_chunk_count(ticks_of(us, hz));
    lemma_chunk_sum(ticks_of(us, hz));
}

/// The per-microsecond tick ratio is at most 4294 at any representable
/// clock frequency, so the tick total of a request grows no faster than
/// 4294 per microsecond.  This is what lets the narrow entry points (16
/// bits of microseconds, 8 bits of milliseconds) go without an overflow
/// precondition.
pub proof fn lemma_ticks_bound(us: u32, hz: u32)
    ensures
        ticks_of(us, hz) <= (us as nat) * 4294,
{
    lemma_div_is_ordered(hz as int, u32::MAX as int, 1_000_000);
    lemma_mul_upper_bound(us as int, us as int, (hz as int) / 1_000_000, 4294);
}

/// The tick count for `us` microseconds at `hz` Hz.
///
/// The caller keeps the product inside the `u32` domain; this mirrors the
/// hardware API, where the requested duration is bounded by what the
/// conversion can represent.
pub fn ticks_for(us: u32, hz: u32) -> (total: u32)
    requires
        ticks_of(us, hz) <= u32::MAX,
    ensures
        total == ticks_of(us, hz),
{
    us * (hz / 1_000_000)
}

/// The size of the next chunk when `remaining` ticks are still owed:
/// the whole remainder when it fits the reload register, else a full
/// register's worth.
pub fn next_chunk(remaining: u32) -> (chunk: u32)
    requires
        remaining > 0,
    ensures
        chunk == chunk_seq(remaining as nat)[0],
        1 <= chunk <= MAX_RELOAD,
        chunk <= remaining,
{
    if remaining <= MAX_RELOAD {
        remaining
    } else {
        MAX_RELOAD
    }
}

/// The chunk decomposition of `total` ticks as a vector, in execution
/// order: what the driver will program into the reload register, cycle
/// by cycle.
pub fn chunk_sizes(total: u32) -> (chunks: Vec<u32>)
    ensures
        chunks@ == chunk_seq(total as nat),
{
    let mut chunks: Vec<u32> = Vec::new();
    let mut remaining: u32 = total;
    while remaining != 0
        invariant
            remaining <= total,
            chunks@ + chunk_seq(remaining as nat) =~= chunk_seq(total as nat),
        decreases remaining,
    {
        let chunk = next_chunk(remaining);
        proof {
            assert(chunk_seq(remaining as nat).skip(1) =~= chunk_seq((remaining - chunk) as nat));
            assert(chunks@ + seq![chunk] + chunk_seq((remaining - chunk) as nat) =~= chunks@
                + chunk_seq(remaining as nat));
        }
        chunks.push(chunk);
        remaining = remaining - chunk;
    }
    proof {
        assert(chunks@ + chunk_seq(0) =~= chunks@);
    }
    chunks
}

} // verus!
