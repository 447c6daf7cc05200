//! Taxation: now and then a message costs its author a point.

use std::collections::HashMap;
use vstd::prelude::*;
use crate::db::{awarded, DbUser, Ledger};
use crate::error::DungeonBotError;
use crate::event::Message;

verus! {

broadcast use vstd::std_specs::hash::group_hash_axioms;

/// How many messages in a hundred are taxed.
pub const TAX_RATE: u32 = 10;

/// What a taxed message earns its author: a loss of one point.
pub const TAX_POINTS: i32 = -1;

/// How often each user was taxed since the bot started.
pub type TaxData = HashMap<u64, i32>;

/// Draws a number below 100 with `Rng::gen_range` on `rand::thread_rng()`.
/// All that is claimed of the draw is that it lies in the range asked for.
#[verifier::external_body]
fn draw_percent() -> (draw: u32)
    ensures
        draw < 100,
{
    rand::Rng::gen_range(&mut rand::thread_rng(), 0..100u32)
}

/// Whether a message with this draw is taxed.
pub open spec fn is_taxed(draw: u32) -> bool {
    draw < TAX_RATE
}

/// The count of a user after one more tax. It stops at the largest value it
/// can hold.
pub open spec fn count_raised(counts: Map<u64, i32>, user: u64) -> i32 {
    let was = if counts.contains_key(user) {
        counts[user]
    } else {
        0
    };
    if was < i32::MAX {
        (was + 1) as i32
    } else {
        i32::MAX
    }
}

/// The balances, the counts and the report after a message with the given
/// draw: whether tax was collected, or why it could not be.
///
/// The point is taken first, and an author without an account pays nothing;
/// either way the author is counted as taxed. A balance that cannot go lower
/// is left alone, and the author is then not counted.
pub open spec fn taxation(
    balances: Map<u64, i32>,
    counts: Map<u64, i32>,
    author: u64,
    draw: u32,
) -> (Map<u64, i32>, Map<u64, i32>, Result<bool, DungeonBotError>) {
    if !is_taxed(draw) {
        (balances, counts, Ok(false))
    } else {
        match awarded(balances, author, TAX_POINTS as int) {
            Err(why) => (balances, counts, Err(why)),
            Ok(after) => (after, counts.insert(author, count_raised(counts, author)), Ok(true)),
        }
    }
}

/// The tax subsystem's operations on its counts and on the ledger.
pub struct Tax;

impl Tax {
    /// Whether a message with this draw is taxed.
    pub fn collects(draw: u32) -> (yes: bool)
        ensures
            yes == is_taxed(draw),
    {
        draw < TAX_RATE
    }

    /// Handles a message for which `draw` was drawn: see [`taxation`].
    pub fn message_handler_with(
        data: &mut TaxData,
        conn: &mut Ledger,
        msg: &Message,
        draw: u32,
    ) -> (collected: Result<bool, DungeonBotError>)
        requires
            old(conn).wf(),
        ensures
            final(conn).wf(),
            final(conn).vars() == old(conn).vars(),
            (final(conn).balances(), final(data)@, collected) == taxation(
                old(conn).balances(),
                old(data)@,
                msg.author,
                draw,
            ),
    {
        if !Self::collects(draw) {
            return Ok(false);
        }
        match DbUser::add_points(conn, msg.author, TAX_POINTS) {
            Err(why) => {
                return Err(why);
            },
            Ok(_) => {},
        }
        let was: i32 = match data.get(&msg.author) {
            Some(count) => *count,
            None => 0,
        };
        let now: i32 = if was < i32::MAX {
            was + 1
        } else {
            i32::MAX
        };
        data.insert(msg.author, now);
        Ok(true)
    }

    /// Handles a message: draws a number below 100 and taxes the author if
    /// it is below [`TAX_RATE`]. Whatever is drawn, the outcome is the one
    /// that [`taxation`] gives for some draw below 100.
    pub fn message_handler(data: &mut TaxData, conn: &mut Ledger, msg: &Message) -> (collected:
        Result<bool, DungeonBotError>)
        requires
            old(conn).wf(),
        ensures
            final(conn).wf(),
            final(conn).vars() == old(conn).vars(),
            exists|draw: u32|
                draw < 100 && (final(conn).balances(), final(data)@, collected)
                    == #[trigger] taxation(old(conn).balances(), old(data)@, msg.author, draw),
    {
        let draw = draw_percent();
        Self::message_handler_with(data, conn, msg, draw)
    }
}

} // verus!
