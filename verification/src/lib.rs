//! Rules of a chat bot that keeps a per-user point currency: a counting game,
//! a last-message streak game, taxation and transfers between users.

use vstd::prelude::*;
use vstd::string::StringExecFns;
use crate::error::DungeonBotError;

pub mod commands;
pub mod counting;
pub mod db;
pub mod error;
pub mod event;
pub mod lastmessage;
pub mod messagehandler;
mod table;
pub mod tax;
pub mod text;

verus! {

/// Quotient of `a` by a positive `b`, rounded towards zero.
pub open spec fn trunc_div(a: int, b: int) -> int {
    if a >= 0 {
        a / b
    } else {
        -((-a) / b)
    }
}

/// Remainder that goes with [`trunc_div`]: it has the sign of `a`.
pub open spec fn trunc_rem(a: int, b: int) -> int {
    a - b * trunc_div(a, b)
}

/// The text `hms` writes for a number of seconds: hours, minutes and seconds,
/// each reduced modulo 60 and written in two digits, joined by colons.
pub open spec fn hms_text(seconds: int) -> Seq<char> {
    text::padded2(trunc_rem(trunc_div(seconds, 3600), 60)) + seq![':'] + text::padded2(
        trunc_rem(trunc_div(seconds, 60), 60),
    ) + seq![':'] + text::padded2(trunc_rem(seconds, 60))
}

/// Formats a duration in seconds as `hh:mm:ss`.
///
/// The hour field wraps at 60 like the other two, so 60 hours reads `00:00:00`.
pub fn hms(seconds: i64) -> (out: String)
    ensures
        out@ == hms_text(seconds as int),
{
    let s: i64 = seconds % 60;
    let m: i64 = (seconds / 60) % 60;
    let h: i64 = (seconds / 3600) % 60;
    proof {
        reveal_strlit(":");
        assert(":"@ =~= seq![':']);
    }
    let out = text::padded2_i64(h);
    let out = out.concat(":");
    let out = out.concat(text::padded2_i64(m).as_str());
    let out = out.concat(":");
    let out = out.concat(text::padded2_i64(s).as_str());
    out
}

/// Reads the configuration value named `key` as a platform id. `value` is
/// what the environment holds under that name, if anything.
pub fn env_snowflake(key: &str, value: Option<&str>) -> (id: Result<u64, DungeonBotError>)
    ensures
        match value {
            None => id matches Err(DungeonBotError::EnvVarError { key: name }) && name@ == key@,
            Some(text) => match text::parsed_u64(text@) {
                Some(number) => id == Ok::<u64, DungeonBotError>(number),
                None => id matches Err(DungeonBotError::SnowflakeParseError { snowflake: name })
                    && name@ == key@,
            },
        },
{
    match value {
        None => Err(DungeonBotError::EnvVarError { key: String::from_str(key) }),
        Some(text) => match text::parse_u64(text) {
            Some(number) => Ok(number),
            None => Err(DungeonBotError::SnowflakeParseError { snowflake: String::from_str(key) }),
        },
    }
}

/// Reads the configuration value named `key` as text. `value` is what the
/// environment holds under that name, if anything.
pub fn env_str(key: &str, value: Option<String>) -> (text: Result<String, DungeonBotError>)
    ensures
        match value {
            None => text matches Err(DungeonBotError::EnvVarError { key: name }) && name@ == key@,
            Some(held) => text == Ok::<String, DungeonBotError>(held),
        },
{
    match value {
        None => Err(DungeonBotError::EnvVarError { key: String::from_str(key) }),
        Some(held) => Ok(held),
    }
}

} // verus!
