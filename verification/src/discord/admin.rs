//! The decisions of the admin commands: reading a start time, arming a merchant visit,
//! scheduling the start of the game.

use vstd::prelude::*;

use crate::game::domain::item::{bounded_digits, parse_digits_wide};
use crate::game::domain::session::{GamePhase, GameSession};
use crate::game::merchant::ForcedSpawnError;
use crate::text::{chars_of, dec, dec_int, owned, push_int, push_str, trim, trimmed_chars};

verus! {

/// `i64::from_str`: an optional sign, then one or more decimal digits, within `i64`.
pub open spec fn i64_text_value(s: Seq<char>) -> Option<int> {
    if s.len() > 0 && s[0] == '-' {
        match bounded_digits(s.drop_first(), 0x8000_0000_0000_0000) {
            Some(v) => Some(-(v as int)),
            None => None,
        }
    } else {
        let d = if s.len() > 0 && s[0] == '+' {
            s.drop_first()
        } else {
            s
        };
        match bounded_digits(d, 0x7FFF_FFFF_FFFF_FFFF) {
            Some(v) => Some(v as int),
            None => None,
        }
    }
}

fn parse_i64_chars(v: &Vec<char>) -> (r: Option<i64>)
    ensures
        r == (match i64_text_value(v@) {
            Some(x) => Some(x as i64),
            None => None::<i64>,
        }),
{
    if v.len() > 0 && v[0] == '-' {
        assert(v@.subrange(1, v@.len() as int) =~= v@.drop_first());
        match parse_digits_wide(v, 1, 0x8000_0000_0000_0000) {
            Some(m) => {
                if m == 0x8000_0000_0000_0000 {
                    Some(i64::MIN)
                } else {
                    Some(-(m as i64))
                }
            },
            None => None,
        }
    } else {
        let from: usize = if v.len() > 0 && v[0] == '+' {
            1
        } else {
            0
        };
        assert(v@.subrange(from as int, v@.len() as int) =~= (if v@.len() > 0 && v@[0] == '+' {
            v@.drop_first()
        } else {
            v@
        }));
        match parse_digits_wide(v, from, 0x7FFF_FFFF_FFFF_FFFF) {
            Some(m) => Some(m as i64),
            None => None,
        }
    }
}

/// Reads an `i64` as `str::parse::<i64>` does.
pub fn parse_i64(s: &str) -> (r: Option<i64>)
    ensures
        r == (match i64_text_value(s@) {
            Some(x) => Some(x as i64),
            None => None::<i64>,
        }),
{
    let v = chars_of(s);
    parse_i64_chars(&v)
}

/// The unix seconds of an RFC 3339 date and time, as chrono reads it; none where it does
/// not parse.
pub uninterp spec fn rfc3339_seconds(s: Seq<char>) -> Option<i64>;

/// The unix seconds of a date and time written in the strftime format `fmt` and taken as
/// UTC, as chrono reads it; none where it does not parse.
pub uninterp spec fn naive_utc_seconds(s: Seq<char>, fmt: Seq<char>) -> Option<i64>;

/// `chrono::DateTime::parse_from_rfc3339`, its result taken by `DateTime::timestamp`. The
/// contract only names the result: which texts parse, and to what, is chrono's.
#[verifier::external_body]
fn rfc3339_timestamp(s: &str) -> (r: Option<i64>)
    ensures
        r == rfc3339_seconds(s@),
{
    match chrono::DateTime::parse_from_rfc3339(s) {
        Ok(dt) => Some(dt.timestamp()),
        Err(_) => None,
    }
}

/// `chrono::NaiveDateTime::parse_from_str`, its result read as UTC (`and_utc`) and taken by
/// `timestamp`. The contract only names the result.
#[verifier::external_body]
fn naive_utc_timestamp(s: &str, fmt: &str) -> (r: Option<i64>)
    ensures
        r == naive_utc_seconds(s@, fmt@),
{
    match chrono::NaiveDateTime::parse_from_str(s, fmt) {
        Ok(naive) => Some(naive.and_utc().timestamp()),
        Err(_) => None,
    }
}

/// A start time typed by the admin, trimmed: a unix timestamp; else an RFC 3339 date and
/// time; else a date and time in one of the UTC forms, tried in order.
pub open spec fn start_time(input: Seq<char>) -> Option<i64> {
    let s = trim(input);
    match i64_text_value(s) {
        Some(v) => Some(v as i64),
        None => match rfc3339_seconds(s) {
            Some(t) => Some(t),
            None => match naive_utc_seconds(s, "%Y-%m-%d %H:%M:%S"@) {
                Some(t) => Some(t),
                None => match naive_utc_seconds(s, "%Y-%m-%dT%H:%M:%S"@) {
                    Some(t) => Some(t),
                    None => match naive_utc_seconds(s, "%Y-%m-%d %H:%M"@) {
                        Some(t) => Some(t),
                        None => naive_utc_seconds(s, "%Y-%m-%dT%H:%M"@),
                    },
                },
            },
        },
    }
}

/// Read an admin-supplied start time into unix seconds (see `start_time`).
pub fn parse_start_time(input: &str) -> (r: Option<i64>)
    ensures
        r == start_time(input@),
{
    let t = trimmed_chars(input);
    let s = crate::text::string_of(&t);
    match parse_i64_chars(&t) {
        Some(v) => {
            return Some(v);
        },
        None => {},
    }
    match rfc3339_timestamp(s.as_str()) {
        Some(v) => {
            return Some(v);
        },
        None => {},
    }
    let a = naive_utc_timestamp(s.as_str(), "%Y-%m-%d %H:%M:%S");
    if a.is_some() {
        return a;
    }
    let b = naive_utc_timestamp(s.as_str(), "%Y-%m-%dT%H:%M:%S");
    if b.is_some() {
        return b;
    }
    let c = naive_utc_timestamp(s.as_str(), "%Y-%m-%d %H:%M");
    if c.is_some() {
        return c;
    }
    naive_utc_timestamp(s.as_str(), "%Y-%m-%dT%H:%M")
}

pub open spec fn unparsed_time_text() -> Seq<char> {
    "couldn't parse that time. try a unix timestamp, `2026-06-10T18:00:00-07:00`, or `2026-06-10 18:00` (UTC)"@
}

pub open spec fn not_attract_text() -> Seq<char> {
    "you can only schedule a start while in the attract phase"@
}

/// Schedule the start of the game: refused outside the attract phase and for a time that
/// does not parse (with the reply for each); else the session counts down to it.
pub fn schedule_start(session: &mut GameSession, when: &str) -> (r: Result<i64, String>)
    ensures
        old(session).phase != GamePhase::Attract ==> (r matches Err(m) && m@ == not_attract_text()
            && *final(session) == *old(session)),
        old(session).phase == GamePhase::Attract && start_time(when@) is None ==> (r matches Err(m)
            && m@ == unparsed_time_text() && *final(session) == *old(session)),
        old(session).phase == GamePhase::Attract && start_time(when@) is Some ==> (r matches Ok(at)
            && Some(at) == start_time(when@)
            && *final(session) == (GameSession { game_start_at: Some(at), ..*old(session) })),
{
    if session.phase != GamePhase::Attract {
        return Err(owned("you can only schedule a start while in the attract phase"));
    }
    match parse_start_time(when) {
        None => Err(owned(
            "couldn't parse that time. try a unix timestamp, `2026-06-10T18:00:00-07:00`, or `2026-06-10 18:00` (UTC)",
        )),
        Some(at) => {
            session.game_start_at = Some(at);
            Ok(at)
        },
    }
}

/// The reply to a scheduled start: a Discord relative timestamp of it.
pub fn scheduled_reply(at_unix: i64) -> (r: String)
    ensures
        r@ == "ok, game starts <t:"@ + dec_int(at_unix as int) + ":R>"@,
{
    let mut s = owned("ok, game starts <t:");
    push_int(&mut s, at_unix);
    push_str(&mut s, ":R>");
    s
}

/// The reply to arming a merchant visit: when it is armed, with the merchant's name if one
/// was asked for; else why not.
pub open spec fn spawn_reply_text(name: Option<Seq<char>>, result: Result<(), ForcedSpawnError>) -> Seq<char> {
    let n = match name {
        Some(x) => x,
        None => Seq::empty(),
    };
    match result {
        Ok(()) => match name {
            Some(x) => "ok, "@ + x + " will appear next tick"@,
            None => "ok, a merchant will appear next tick"@,
        },
        Err(ForcedSpawnError::AlreadyVisiting) => "a merchant is already visiting"@,
        Err(ForcedSpawnError::NoCatalog) => "no merchant catalog loaded yet"@,
        Err(ForcedSpawnError::MerchantNotFound) => "no merchant named \""@ + n + "\""@,
        Err(ForcedSpawnError::MerchantEmpty) => n + " has no stock"@,
    }
}

pub fn spawn_merchant_reply(merchant_name: &Option<String>, result: &Result<(), ForcedSpawnError>) -> (r: String)
    ensures
        r@ == spawn_reply_text(
            match merchant_name {
                Some(x) => Some(x@),
                None => None,
            },
            *result,
        ),
{
    let n: &str = match merchant_name {
        Some(x) => x.as_str(),
        None => "",
    };
    proof {
        reveal_strlit("");
    }
    match result {
        Ok(()) => match merchant_name {
            Some(x) => {
                let mut s = owned("ok, ");
                push_str(&mut s, x.as_str());
                push_str(&mut s, " will appear next tick");
                s
            },
            None => owned("ok, a merchant will appear next tick"),
        },
        Err(ForcedSpawnError::AlreadyVisiting) => owned("a merchant is already visiting"),
        Err(ForcedSpawnError::NoCatalog) => owned("no merchant catalog loaded yet"),
        Err(ForcedSpawnError::MerchantNotFound) => {
            let mut s = owned("no merchant named \"");
            push_str(&mut s, n);
            push_str(&mut s, "\"");
            s
        },
        Err(ForcedSpawnError::MerchantEmpty) => {
            let mut s = owned(n);
            push_str(&mut s, " has no stock");
            s
        },
    }
}

/// Whether the generation worker has nothing in flight: no quest, job or catalog pending.
pub fn generation_idle(pending_quests: usize, pending_auto_jobs: usize, pending_merchant_catalog: usize) -> (r: bool)
    ensures
        r == (pending_quests == 0 && pending_auto_jobs == 0 && pending_merchant_catalog == 0),
{
    pending_quests == 0 && pending_auto_jobs == 0 && pending_merchant_catalog == 0
}

} // verus!
