//! The counting game: members count upwards in the game's channel, one
//! message each, from 1 to 1000 and round again.
//!
//! The count lives in a cell and, as text, in the ledger's named values, so
//! that it outlives a restart. A message is judged and the count moved on in
//! one call, which the caller makes with the cell locked for writing: of two
//! guesses of the same number, only the first that gets the cell is right.

use vstd::prelude::*;
use vstd::string::StringExecFns;
use crate::db::{awarded, DbUser, Ledger};
use crate::error::DungeonBotError;
use crate::event::Message;
use crate::text::{decimal, decimal_u64, leading_number, leading_token, parse_u64, parsed_u64};

verus! {

/// The count after which the game starts again at 1.
pub const MILESTONE: u64 = 1000;

/// Points for the right number.
pub const POINTS_CORRECT: i32 = 3;

/// Points for reaching the milestone.
pub const POINTS_MILESTONE: i32 = 500;

/// Points for a wrong number: a loss.
pub const POINTS_WRONG: i32 = -10;

/// The last number that was counted.
#[derive(Clone, Copy, Debug, PartialEq, Eq, Structural)]
pub struct CountingData {
    pub num: u64,
}

impl Default for CountingData {
    /// A game that has just reached the milestone, so that 1 comes next.
    fn default() -> (data: CountingData)
        ensures
            data.num == MILESTONE,
    {
        CountingData { num: MILESTONE }
    }
}

/// What the game makes of a message.
#[derive(Clone, Copy, Debug, PartialEq, Eq, Structural)]
pub enum Verdict {
    /// The message is no guess: it is from an automated account, in another
    /// channel, or does not begin with a number.
    Ignored,
    /// The message counts on. `value` is the new count and `points` what its
    /// author earns; at the milestone the author is given the milestone role
    /// as well.
    Correct { value: u64, points: i32, milestone: bool },
    /// The message begins with the wrong number; `penalty` is what its
    /// author earns, a negative amount.
    Wrong { penalty: i32 },
}

/// The name under which the ledger keeps the count.
pub open spec fn count_key() -> Seq<char> {
    "COUNT"@
}

/// The number that comes after `num`.
pub open spec fn next_count(num: u64) -> u64 {
    (num % MILESTONE + 1) as u64
}

/// The number that a message guesses, if it is a guess.
pub open spec fn guess_of(ctchannel: u64, msg: Message) -> Option<u64> {
    if msg.bot || msg.channel_id != ctchannel {
        None
    } else {
        parsed_u64(leading_token(msg.content@))
    }
}

/// What the game makes of `msg` when the count stands at `num`.
pub open spec fn verdict_for(num: u64, ctchannel: u64, msg: Message) -> Verdict {
    match guess_of(ctchannel, msg) {
        None => Verdict::Ignored,
        Some(value) => if value == next_count(num) {
            Verdict::Correct {
                value,
                points: if value == MILESTONE {
                    POINTS_MILESTONE
                } else {
                    POINTS_CORRECT
                },
                milestone: value == MILESTONE,
            }
        } else {
            Verdict::Wrong { penalty: POINTS_WRONG }
        },
    }
}

/// The count after `msg` was judged at `num`.
pub open spec fn count_after(num: u64, ctchannel: u64, msg: Message) -> u64 {
    match verdict_for(num, ctchannel, msg) {
        Verdict::Correct { value, .. } => value,
        _ => num,
    }
}

/// The points that a verdict gives the author, if any.
pub open spec fn points_for(verdict: Verdict) -> Option<i32> {
    match verdict {
        Verdict::Ignored => None,
        Verdict::Correct { points, .. } => Some(points),
        Verdict::Wrong { penalty } => Some(penalty),
    }
}

/// The count that the ledger keeps, if it keeps one that reads as a number.
pub open spec fn saved_count(vars: Map<Seq<char>, Seq<char>>) -> Option<u64> {
    if vars.contains_key(count_key()) {
        parsed_u64(vars[count_key()])
    } else {
        None
    }
}

impl Verdict {
    /// The mark to put on the message: a check for a right number, a cross
    /// for a wrong one, none for a message that is no guess.
    pub fn reaction(&self) -> (mark: Option<char>)
        ensures
            mark == match *self {
                Verdict::Ignored => None::<char>,
                Verdict::Correct { .. } => Some('✅'),
                Verdict::Wrong { .. } => Some('❌'),
            },
    {
        match self {
            Verdict::Ignored => None,
            Verdict::Correct { .. } => Some('✅'),
            Verdict::Wrong { .. } => Some('❌'),
        }
    }
}

/// The counting game's operations on its cell and on the ledger.
pub struct Counting;

impl Counting {
    /// Judges a message against the count `num`, changing nothing.
    pub fn judge(num: u64, ctchannel: u64, msg: &Message) -> (verdict: Verdict)
        ensures
            verdict == verdict_for(num, ctchannel, *msg),
    {
        if msg.bot || msg.channel_id != ctchannel {
            return Verdict::Ignored;
        }
        match leading_number(msg.content.as_str()) {
            None => Verdict::Ignored,
            Some(value) => {
                if value == num % MILESTONE + 1 {
                    if value == MILESTONE {
                        Verdict::Correct { value, points: POINTS_MILESTONE, milestone: true }
                    } else {
                        Verdict::Correct { value, points: POINTS_CORRECT, milestone: false }
                    }
                } else {
                    Verdict::Wrong { penalty: POINTS_WRONG }
                }
            },
        }
    }

    /// Handles a message: judges it, and for a right number moves the count
    /// on in the cell and in the ledger before the author is paid; for a
    /// wrong number the author pays the penalty and the count stays.
    ///
    /// An author without an account is paid nothing. If the payment would
    /// take the balance out of its range it is refused with
    /// [`DungeonBotError::InvalidAmount`]; a count that was moved on stays
    /// moved on.
    pub fn message_handler(
        data: &mut CountingData,
        conn: &mut Ledger,
        ctchannel: u64,
        msg: &Message,
    ) -> (handled: Result<Verdict, DungeonBotError>)
        requires
            old(conn).wf(),
        ensures
            final(conn).wf(),
            final(data).num == count_after(old(data).num, ctchannel, *msg),
            saved_count(old(conn).vars()) == Some(old(data).num) ==> saved_count(
                final(conn).vars(),
            ) == Some(final(data).num),
            match verdict_for(old(data).num, ctchannel, *msg) {
                Verdict::Correct { value, .. } => final(conn).vars() == old(conn).vars().insert(
                    count_key(),
                    decimal(value as int),
                ) && saved_count(final(conn).vars()) == Some(value),
                _ => final(conn).vars() == old(conn).vars(),
            },
            match points_for(verdict_for(old(data).num, ctchannel, *msg)) {
                None => final(conn).balances() == old(conn).balances() && handled == Ok::<
                    Verdict,
                    DungeonBotError,
                >(Verdict::Ignored),
                Some(points) => match awarded(old(conn).balances(), msg.author, points as int) {
                    Ok(after) => final(conn).balances() == after && handled == Ok::<
                        Verdict,
                        DungeonBotError,
                    >(verdict_for(old(data).num, ctchannel, *msg)),
                    Err(why) => final(conn).balances() == old(conn).balances() && handled
                        == Err::<Verdict, DungeonBotError>(why),
                },
            },
    {
        let verdict = Self::judge(data.num, ctchannel, msg);
        match verdict {
            Verdict::Ignored => Ok(verdict),
            Verdict::Correct { value, points, milestone: _ } => {
                data.num = value;
                Self::set_db_ct(conn, value);
                match DbUser::add_points(conn, msg.author, points) {
                    Ok(_) => Ok(verdict),
                    Err(why) => Err(why),
                }
            },
            Verdict::Wrong { penalty } => {
                match DbUser::add_points(conn, msg.author, penalty) {
                    Ok(_) => Ok(verdict),
                    Err(why) => Err(why),
                }
            },
        }
    }

    /// The count in the cell.
    pub fn get_lock_ct(data: &CountingData) -> (ct: u64)
        ensures
            ct == data.num,
    {
        data.num
    }

    /// Puts `ct` in the cell.
    pub fn set_lock_ct(data: &mut CountingData, ct: u64)
        ensures
            final(data).num == ct,
    {
        data.num = ct;
    }

    /// Reads the count that the ledger keeps. A ledger that keeps none is
    /// first given the milestone, so that 1 comes next. A value that does
    /// not read as a number is an error.
    pub fn get_db_ct(conn: &mut Ledger) -> (saved: Result<u64, DungeonBotError>)
        requires
            old(conn).wf(),
        ensures
            final(conn).wf(),
            final(conn).balances() == old(conn).balances(),
            final(conn).vars() == if old(conn).vars().contains_key(count_key()) {
                old(conn).vars()
            } else {
                old(conn).vars().insert(count_key(), "1000"@)
            },
            match saved_count(final(conn).vars()) {
                Some(ct) => saved == Ok::<u64, DungeonBotError>(ct),
                None => saved matches Err(DungeonBotError::Other(what)) && what@
                    == "Unable to parse saved count value"@,
            },
    {
        conn.init_state("COUNT", "1000");
        match conn.get_state("COUNT") {
            Some(text) => match parse_u64(text.as_str()) {
                Some(ct) => Ok(ct),
                None => Err(
                    DungeonBotError::Other(String::from_str("Unable to parse saved count value")),
                ),
            },
            None => Err(
                DungeonBotError::Other(String::from_str("Unable to parse saved count value")),
            ),
        }
    }

    /// Has the ledger keep `ct` as the count.
    pub fn set_db_ct(conn: &mut Ledger, ct: u64)
        requires
            old(conn).wf(),
        ensures
            final(conn).wf(),
            final(conn).balances() == old(conn).balances(),
            final(conn).vars() == old(conn).vars().insert(count_key(), decimal(ct as int)),
            saved_count(final(conn).vars()) == Some(ct),
    {
        proof {
            crate::text::lemma_parse_decimal(ct);
        }
        conn.set_state("COUNT", decimal_u64(ct).as_str());
    }
}

/// The count after the messages `msgs` were handled one after another.
pub open spec fn count_after_all(num: u64, ctchannel: u64, msgs: Seq<Message>) -> u64
    decreases msgs.len(),
{
    if msgs.len() == 0 {
        num
    } else {
        count_after(count_after_all(num, ctchannel, msgs.drop_last()), ctchannel, msgs.last())
    }
}

/// How many of the messages `msgs`, handled one after another, counted on.
pub open spec fn correct_among(num: u64, ctchannel: u64, msgs: Seq<Message>) -> nat
    decreases msgs.len(),
{
    if msgs.len() == 0 {
        0
    } else {
        correct_among(num, ctchannel, msgs.drop_last()) + if verdict_for(
            count_after_all(num, ctchannel, msgs.drop_last()),
            ctchannel,
            msgs.last(),
        ) is Correct {
            1nat
        } else {
            0nat
        }
    }
}

/// The number that comes next lies between 1 and the milestone, is never
/// the count itself, and is 1 after the milestone.
pub proof fn lemma_next_count(num: u64)
    ensures
        1 <= next_count(num) <= MILESTONE,
        next_count(next_count(num)) != next_count(num),
        num < MILESTONE ==> next_count(num) == num + 1,
        num % MILESTONE == 0 ==> next_count(num) == 1,
        next_count(MILESTONE) == 1,
{
}

/// When several messages all guess the number that comes next, in whatever
/// order they get hold of the cell, exactly one of them counts on, the
/// first, and the count then stands at the number they guessed.
pub proof fn lemma_one_guess_wins(num: u64, ctchannel: u64, msgs: Seq<Message>)
    requires
        msgs.len() >= 1,
        forall|i: int|
            0 <= i < msgs.len() ==> guess_of(ctchannel, #[trigger] msgs[i]) == Some(
                next_count(num),
            ),
    ensures
        correct_among(num, ctchannel, msgs) == 1,
        count_after_all(num, ctchannel, msgs) == next_count(num),
        verdict_for(num, ctchannel, msgs[0]) is Correct,
        forall|i: int|
            1 <= i < msgs.len() ==> verdict_for(
                count_after_all(num, ctchannel, msgs.subrange(0, i)),
                ctchannel,
                #[trigger] msgs[i],
            ) is Wrong,
    decreases msgs.len(),
{
    lemma_next_count(num);
    let rest = msgs.drop_last();
    if msgs.len() == 1 {
        assert(rest.len() == 0);
        assert(count_after_all(num, ctchannel, rest) == num);
        assert(correct_among(num, ctchannel, rest) == 0);
        assert(msgs.last() == msgs[0]);
    } else {
        assert forall|i: int| 0 <= i < rest.len() implies guess_of(ctchannel, #[trigger] rest[i])
            == Some(next_count(num)) by {
            assert(rest[i] == msgs[i]);
        }
        lemma_one_guess_wins(num, ctchannel, rest);
        assert(rest[0] == msgs[0]);
        assert forall|i: int| 1 <= i < msgs.len() implies verdict_for(
            count_after_all(num, ctchannel, msgs.subrange(0, i)),
            ctchannel,
            #[trigger] msgs[i],
        ) is Wrong by {
            if i < rest.len() {
                assert(rest.subrange(0, i) =~= msgs.subrange(0, i));
                assert(rest[i] == msgs[i]);
            } else {
                assert(msgs.subrange(0, i) =~= rest);
            }
        }
    }
}

} // verus!
