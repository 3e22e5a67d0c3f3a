use vstd::prelude::*;

use crate::game::domain::item::bounded_digits;
use crate::game::engine::DeathContext;
use crate::text::{all_digits, dec, digit_value, digits_value, is_digit, owned, push_dec, push_str, trim, trimmed_chars};

verus! {

/// `u64::from_str`: an optional `+`, then one or more decimal digits, at most `u64::MAX`.
pub open spec fn u64_text_value(s: Seq<char>) -> Option<nat> {
    let d = if s.len() > 0 && s[0] == '+' {
        s.drop_first()
    } else {
        s
    };
    bounded_digits(d, u64::MAX as nat)
}

fn parse_u64_chars(t: &Vec<char>) -> (r: Option<u64>)
    ensures
        r == (match u64_text_value(t@) {
            Some(v) => Some(v as u64),
            None => None::<u64>,
        }),
{
    let from: usize = if t.len() > 0 && t[0] == '+' {
        1
    } else {
        0
    };
    let ghost d = t@.subrange(from as int, t@.len() as int);
    assert(d =~= (if t@.len() > 0 && t@[0] == '+' {
        t@.drop_first()
    } else {
        t@
    }));
    assert(u64_text_value(t@) == bounded_digits(d, u64::MAX as nat));
    if from == t.len() {
        return None;
    }
    let mut acc: u128 = 0;
    let mut i = from;
    while i < t.len()
        invariant
            from <= i <= t@.len(),
            d == t@.subrange(from as int, t@.len() as int),
            u64_text_value(t@) == bounded_digits(d, u64::MAX as nat),
            all_digits(t@.subrange(from as int, i as int)),
            acc == digits_value(t@.subrange(from as int, i as int)),
            acc <= u64::MAX,
        decreases t@.len() - i,
    {
        let c = t[i];
        assert(t@.subrange(from as int, i + 1).drop_last() =~= t@.subrange(from as int, i as int));
        if !('0' <= c && c <= '9') {
            assert(d[i - from] == c);
            assert(!is_digit(d[(i - from) as int]));
            assert(!all_digits(d));
            return None;
        }
        let next = acc * 10 + (c as u32 - '0' as u32) as u128;
        assert(digit_value(c) == (c as u32 - '0' as u32));
        if next > 0xFFFF_FFFF_FFFF_FFFFu128 {
            proof {
                assert(digits_value(t@.subrange(from as int, i + 1)) == next);
                if all_digits(d) {
                    lemma_digits_value_prefix(t@, from as int, i + 1, t@.len() as int);
                }
            }
            return None;
        }
        acc = next;
        i += 1;
    }
    assert(t@.subrange(from as int, t@.len() as int) =~= d);
    Some(acc as u64)
}

/// A Discord user id typed into a command: surrounding white space allowed.
pub fn parse_user_id(raw: &str) -> (r: Option<u64>)
    ensures
        r == (match u64_text_value(trim(raw@)) {
            Some(v) => Some(v as u64),
            None => None::<u64>,
        }),
{
    let t = trimmed_chars(raw);
    parse_u64_chars(&t)
}

/// Reads a `u64` as `str::parse::<u64>` does.
pub fn parse_u64(s: &str) -> (r: Option<u64>)
    ensures
        r == (match u64_text_value(s@) {
            Some(v) => Some(v as u64),
            None => None::<u64>,
        }),
{
    let t = crate::text::chars_of(s);
    parse_u64_chars(&t)
}

proof fn lemma_digits_value_prefix(s: Seq<char>, from: int, i: int, n: int)
    requires
        0 <= from <= i <= n <= s.len(),
        all_digits(s.subrange(from, n)),
    ensures
        digits_value(s.subrange(from, i)) <= digits_value(s.subrange(from, n)),
    decreases n - i,
{
    if i < n {
        lemma_digits_value_prefix(s, from, i + 1, n);
        assert(s.subrange(from, i + 1).drop_last() =~= s.subrange(from, i));
    }
}

/// The death an admin inflicts: the given trial and outcome, or stock wording.
pub fn admin_death_context(death_trial: Option<String>, death_outcome: Option<String>) -> (r: DeathContext)
    ensures
        r.trial@ == (match death_trial {
            Some(t) => t@,
            None => "Unknown peril"@,
        }),
        r.outcome@ == (match death_outcome {
            Some(o) => o@,
            None => "They did not make it"@,
        }),
{
    let trial = match death_trial {
        Some(t) => t,
        None => owned("Unknown peril"),
    };
    let outcome = match death_outcome {
        Some(o) => o,
        None => owned("They did not make it"),
    };
    DeathContext { trial, outcome }
}

/// A job's goal from the form: trimmed, and none when blank.
pub fn job_goal(goal: Option<&str>) -> (r: Option<String>)
    ensures
        r matches Some(g) ==> goal matches Some(s) && trim(s@).len() > 0 && g@ == trim(s@),
        r is None ==> (goal is None || trim(goal.unwrap()@).len() == 0),
{
    match goal {
        None => None,
        Some(s) => {
            let t = trimmed_chars(s);
            if t.len() == 0 {
                None
            } else {
                Some(crate::text::string_of(&t))
            }
        },
    }
}

pub open spec fn queue_full_text(max_job_queue: usize) -> Seq<char> {
    "Job queue is full ("@ + dec(max_job_queue as nat) + " queued max)."@
}

fn queue_full(max_job_queue: usize) -> (r: String)
    ensures
        r@ == queue_full_text(max_job_queue),
{
    let mut s = owned("Job queue is full (");
    push_dec(&mut s, max_job_queue as u64);
    push_str(&mut s, " queued max).");
    s
}

/// Room for a job to generate: refused when the queued and in-flight jobs already fill the
/// queue; else the job's place counting it.
pub fn admit_generated_job(queued: usize, pending: usize, max_job_queue: usize) -> (r: Result<usize, String>)
    requires
        queued + pending + 1 <= usize::MAX,
    ensures
        queued + pending >= max_job_queue ==> (r matches Err(m) && m@ == queue_full_text(max_job_queue)),
        queued + pending < max_job_queue ==> r == Ok::<usize, String>((queued + pending + 1) as usize),
{
    if queued + pending >= max_job_queue {
        Err(queue_full(max_job_queue))
    } else {
        Ok(queued + pending + 1)
    }
}

/// Room for a written job: refused when the queue is full.
pub fn admit_written_job(queued: usize, max_job_queue: usize) -> (r: Result<(), String>)
    ensures
        queued >= max_job_queue ==> (r matches Err(m) && m@ == queue_full_text(max_job_queue)),
        queued < max_job_queue ==> r is Ok,
{
    if queued >= max_job_queue {
        Err(queue_full(max_job_queue))
    } else {
        Ok(())
    }
}

/// The reply to a submitted job: its place in the queue out of the maximum.
pub fn queue_status_line(count: usize, max_job_queue: usize) -> (r: String)
    ensures
        r@ == dec(count as nat) + "/"@ + dec(max_job_queue as nat) + " jobs in queue"@,
{
    let mut s = crate::text::dec_string(count as u64);
    push_str(&mut s, "/");
    push_dec(&mut s, max_job_queue as u64);
    push_str(&mut s, " jobs in queue");
    s
}

} // verus!
