use rand::RngExt;
use vstd::prelude::*;

verus! {

/// Draws an offset uniformly from `-jitter..=jitter`, with the thread-local
/// generator of `rand` (`rand::rng().random_range`). The source of `rand`
/// returns a value of the range and panics only on an empty range, which
/// `jitter >= 0` rules out; which value comes out is left to chance.
#[verifier::external_body]
fn random_offset(jitter: i64) -> (offset: i64)
    requires
        jitter >= 0,
    ensures
        -jitter <= offset <= jitter,
{
    rand::rng().random_range(-jitter..=jitter)
}

/// A wait of `ms` milliseconds moved by `offset`, kept within what a `u64`
/// wait can be: never below zero nor above `u64::MAX`.
pub open spec fn jittered_delay_spec(ms: u64, offset: int) -> int {
    let moved = ms + offset;
    if moved < 0 {
        0
    } else if moved > u64::MAX {
        u64::MAX as int
    } else {
        moved
    }
}

/// Moves a wait of `ms` milliseconds by `offset` milliseconds (see
/// [`jittered_delay_spec`]).
pub fn apply_jitter(ms: u64, offset: i64) -> (delay: u64)
    ensures
        delay == jittered_delay_spec(ms, offset as int),
{
    let moved: i128 = ms as i128 + offset as i128;
    if moved < 0 {
        0
    } else if moved > 0xffff_ffff_ffff_ffff {
        u64::MAX
    } else {
        moved as u64
    }
}

/// A wait of `ms` milliseconds with a random jitter of at most `jitter`
/// milliseconds either way (see [`jittered_delay_spec`]).
pub fn jittered_millis(ms: u64, jitter: i64) -> (delay: u64)
    requires
        jitter >= 0,
    ensures
        exists|offset: int| -jitter <= offset <= jitter && delay == jittered_delay_spec(ms, offset),
{
    let offset = random_offset(jitter);
    apply_jitter(ms, offset)
}

/// A jittered wait stays within the jitter of the requested wait, and without
/// jitter it is the requested wait itself.
pub proof fn lemma_jitter_bounds(ms: u64, jitter: int, offset: int)
    requires
        0 <= jitter,
        -jitter <= offset <= jitter,
    ensures
        0 <= jittered_delay_spec(ms, offset) <= u64::MAX,
        jittered_delay_spec(ms, offset) <= ms + jitter,
        ms - jitter <= jittered_delay_spec(ms, offset),
        jitter == 0 ==> jittered_delay_spec(ms, offset) == ms,
{
}

/// Longest single rest of an interruptible sleep: one millisecond.
pub const SLEEP_CHUNK_NANOS: u128 = 1_000_000;

/// An interruptible sleep of `duration_ns` goes on while less time than that has
/// elapsed and nobody asked it to stop.
pub fn keep_sleeping(duration_ns: u128, elapsed_ns: u128, cancelled: bool) -> (go_on: bool)
    ensures
        go_on == (elapsed_ns < duration_ns && !cancelled),
{
    elapsed_ns < duration_ns && !cancelled
}

/// What is left of a sleep of `duration_ns` after `elapsed_ns` (nothing once it
/// is over), capped at one millisecond.
pub open spec fn sleep_chunk_spec(duration_ns: u128, elapsed_ns: u128) -> int {
    if elapsed_ns >= duration_ns {
        0
    } else if duration_ns - elapsed_ns < SLEEP_CHUNK_NANOS {
        duration_ns - elapsed_ns
    } else {
        SLEEP_CHUNK_NANOS as int
    }
}

/// Length of the next rest of an interruptible sleep (see [`sleep_chunk_spec`]).
pub fn sleep_chunk_nanos(duration_ns: u128, elapsed_ns: u128) -> (chunk: u128)
    ensures
        chunk == sleep_chunk_spec(duration_ns, elapsed_ns),
{
    let remaining: u128 = if elapsed_ns <= duration_ns {
        duration_ns - elapsed_ns
    } else {
        0
    };
    if remaining < SLEEP_CHUNK_NANOS {
        remaining
    } else {
        SLEEP_CHUNK_NANOS
    }
}

/// A rest never lasts more than a millisecond nor past the end of the sleep,
/// and is empty only once the sleep is over.
pub proof fn lemma_sleep_chunk_bounded(duration_ns: u128, elapsed_ns: u128)
    ensures
        0 <= sleep_chunk_spec(duration_ns, elapsed_ns) <= SLEEP_CHUNK_NANOS,
        elapsed_ns < duration_ns ==> elapsed_ns + sleep_chunk_spec(duration_ns, elapsed_ns)
            <= duration_ns,
        (sleep_chunk_spec(duration_ns, elapsed_ns) == 0) == (elapsed_ns >= duration_ns),
{
}

} // verus!
