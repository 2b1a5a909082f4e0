//! The retry schedules of calls to a language model: network retries wait
//! 1, 2, 4, … seconds between attempts; a schema recommendation whose reply
//! fails validation is asked for again, with the rejection in the prompt.

use vstd::arithmetic::power2::{lemma2_to64, lemma_pow2_strictly_increases, lemma_pow2_unfold, pow2};
use crate::text::{decimal, decimal_string, owned, push_str};
use vstd::prelude::*;

verus! {

/// The seconds to wait after failed attempt `attempt` (counted from 1)
/// before the next one: one second, doubling each time.
pub open spec fn backoff_secs(attempt: nat) -> nat {
    pow2((attempt - 1) as nat)
}

/// What follows a failed attempt `attempt` (counted from 1) of
/// `max_retries`: the seconds to wait before the next attempt, or `None`
/// when that was the last attempt and the call gives up with its error.
pub fn after_failed_attempt(attempt: u32, max_retries: u32) -> (r: Option<u64>)
    requires
        1 <= attempt <= max_retries,
        attempt < max_retries ==> attempt <= 64,
    ensures
        attempt < max_retries ==> r == Some(backoff_secs(attempt as nat) as u64),
        attempt == max_retries ==> r is None,
{
    if attempt >= max_retries {
        return None;
    }
    let mut d: u64 = 1;
    let mut k: u32 = 0;
    proof {
        lemma2_to64();
    }
    while k < attempt - 1
        invariant
            k <= attempt - 1,
            attempt <= 64,
            d == pow2(k as nat),
        decreases attempt - 1 - k,
    {
        proof {
            lemma_pow2_unfold((k + 1) as nat);
            lemma2_to64();
            lemma_pow2_strictly_increases((k + 1) as nat, 64);
            assert(d * 2 == pow2((k + 1) as nat));
        }
        d = d * 2;
        k += 1;
    }
    Some(d)
}

/// Whether a call with `max_retries` attempts makes any attempt at all;
/// with none it fails at once with its fallback error.
pub fn makes_an_attempt(max_retries: u32) -> (b: bool)
    ensures
        b <==> max_retries >= 1,
{
    max_retries >= 1
}

/// Each wait is twice the one before.
pub proof fn law_backoff_doubles(attempt: nat)
    requires
        attempt >= 1,
    ensures
        backoff_secs(attempt + 1) == 2 * backoff_secs(attempt),
        backoff_secs(1) == 1,
{
    lemma_pow2_unfold(attempt);
    lemma2_to64();
}

// ---------------------------------------------------------------------------
// Asking again for a valid recommendation
// ---------------------------------------------------------------------------

/// How many times a schema recommendation is asked for: the configured
/// retries, but at least one and at most three.
pub open spec fn validation_attempts_for(max_retries: u32) -> u32 {
    if max_retries < 1 {
        1
    } else if max_retries > 3 {
        3
    } else {
        max_retries
    }
}

/// How many times a schema recommendation is asked for.
pub fn validation_attempts(max_retries: u32) -> (n: u32)
    ensures
        n == validation_attempts_for(max_retries),
        1 <= n <= 3,
{
    if max_retries < 1 {
        1
    } else if max_retries > 3 {
        3
    } else {
        max_retries
    }
}

/// The prompt of attempt `attempt` (from 1): the base prompt, followed on
/// a retry by the reason the previous reply was rejected.
pub open spec fn attempt_prompt(base: Seq<char>, attempt: u32, last_error: Option<Seq<char>>) -> Seq<char> {
    match last_error {
        Some(e) => if attempt > 1 {
            base + "\n\nYour previous response was rejected: "@ + e + ". Fix this issue."@
        } else {
            base
        },
        None => base,
    }
}

/// The prompt for attempt `attempt` given the message of the previous
/// rejection, if any.
pub fn prompt_for_attempt(base: &str, attempt: u32, last_error: Option<&str>) -> (p: String)
    ensures
        p@ == attempt_prompt(
            base@,
            attempt,
            match last_error {
                Some(e) => Some(e@),
                None => None,
            },
        ),
{
    match last_error {
        Some(e) => {
            if attempt > 1 {
                let mut p = owned(base);
                push_str(&mut p, "\n\nYour previous response was rejected: ");
                push_str(&mut p, e);
                push_str(&mut p, ". Fix this issue.");
                p
            } else {
                owned(base)
            }
        },
        None => owned(base),
    }
}

/// Whether the loop pauses (one second) after rejected attempt `attempt`
/// of `attempts`: before every attempt but the last.
pub fn pauses_after(attempt: u32, attempts: u32) -> (b: bool)
    ensures
        b == (attempt < attempts),
{
    attempt < attempts
}

/// The message when the overall deadline of `timeout_seconds` passes
/// after `attempts_made` attempts.
pub open spec fn deadline_text(timeout_seconds: u64, attempts_made: u32) -> Seq<char> {
    "AI recommendation deadline exceeded ("@ + decimal(timeout_seconds as nat) + "s) after "@ + decimal(
        attempts_made as nat,
    ) + " attempts"@
}

/// The message for a recommendation that ran out of time.
pub fn deadline_message(timeout_seconds: u64, attempts_made: u32) -> (m: String)
    ensures
        m@ == deadline_text(timeout_seconds, attempts_made),
{
    let mut m = owned("AI recommendation deadline exceeded (");
    let t = decimal_string(timeout_seconds);
    push_str(&mut m, t.as_str());
    push_str(&mut m, "s) after ");
    let a = decimal_string(attempts_made as u64);
    push_str(&mut m, a.as_str());
    push_str(&mut m, " attempts");
    m
}

} // verus!
