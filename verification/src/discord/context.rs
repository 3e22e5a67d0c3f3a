use vstd::prelude::*;

use crate::game::domain::item::{bounded_digits, parse_digits};
use crate::text::{trim, trimmed_chars};

verus! {

/// Payload sent when the final story mission is completed, driving the Playing -> Complete
/// transition (handled off the tick task so the simulation can stop itself cleanly).
#[derive(Debug)]
pub struct GameCompletion {
    pub user_id: u64,
    pub chud_name: String,
}

impl Clone for GameCompletion {
    fn clone(&self) -> (r: Self)
        ensures
            r == *self,
    {
        GameCompletion { user_id: self.user_id, chud_name: self.chud_name.clone() }
    }
}

/// May this user post jobs here: the admin or a chudmaster (`is_chudmaster`, from the
/// saved list), in the game channel only.
pub fn chudmaster_check(user_id: u64, channel_id: u64, admin_user_id: u64, game_channel_id: u64, is_chudmaster: bool) -> (r: bool)
    ensures
        r == ((user_id == admin_user_id || is_chudmaster) && channel_id == game_channel_id),
{
    (user_id == admin_user_id || is_chudmaster) && channel_id == game_channel_id
}

/// `u8::from_str`: an optional `+`, then one or more decimal digits, at most 255.
pub open spec fn u8_text_value(s: Seq<char>) -> Option<nat> {
    let d = if s.len() > 0 && s[0] == '+' {
        s.drop_first()
    } else {
        s
    };
    bounded_digits(d, 255)
}

/// A job difficulty: a number from 1 to 10, surrounding white space allowed.
pub open spec fn difficulty_value(raw: Seq<char>) -> Result<u8, Seq<char>> {
    match u8_text_value(trim(raw)) {
        None => Err("difficulty must be a number"@),
        Some(v) => if 1 <= v <= 10 {
            Ok(v as u8)
        } else {
            Err("difficulty must be between 1 and 10"@)
        },
    }
}

pub open spec fn result_view(r: Result<u8, &'static str>) -> Result<u8, Seq<char>> {
    match r {
        Ok(v) => Ok(v),
        Err(m) => Err(m@),
    }
}

pub fn parse_difficulty(raw: &str) -> (r: Result<u8, &'static str>)
    ensures
        result_view(r) == difficulty_value(raw@),
{
    let t = trimmed_chars(raw);
    let from: usize = if t.len() > 0 && t[0] == '+' {
        1
    } else {
        0
    };
    assert(t@.subrange(from as int, t@.len() as int) =~= (if t@.len() > 0 && t@[0] == '+' {
        t@.drop_first()
    } else {
        t@
    }));
    match parse_digits(&t, from, 255) {
        None => Err("difficulty must be a number"),
        Some(v) => if 1 <= v && v <= 10 {
            Ok(v as u8)
        } else {
            Err("difficulty must be between 1 and 10")
        },
    }
}

/// An optional difficulty field: blank or missing takes `auto_difficulty` (rolled from the
/// chuds' stats by the caller); anything else must be a valid difficulty.
pub fn parse_difficulty_optional(raw: Option<&str>, auto_difficulty: u8) -> (r: Result<u8, &'static str>)
    ensures
        result_view(r) == (match raw {
            Some(s) => if trim(s@).len() > 0 {
                difficulty_value(s@)
            } else {
                Ok(auto_difficulty)
            },
            None => Ok(auto_difficulty),
        }),
{
    match raw {
        None => Ok(auto_difficulty),
        Some(s) => {
            let t = trimmed_chars(s);
            if t.len() == 0 {
                Ok(auto_difficulty)
            } else {
                parse_difficulty(s)
            }
        },
    }
}

/// The fields of the job-generation form.
#[derive(Debug)]
pub struct GenerateJobModal {
    pub description: String,
    pub goal: Option<String>,
    pub difficulty: Option<String>,
}

/// The fields of the job-writing form.
#[derive(Debug)]
pub struct WriteJobModal {
    pub title: String,
    pub giver: String,
    pub description: String,
    pub goal: String,
    pub difficulty: String,
}

} // verus!
