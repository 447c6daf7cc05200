//! The last-message game: whoever wrote last in the game's channel holds the
//! streak and wears the holder role, until someone else writes.
//!
//! A change of holder takes two calls to the chat platform, first taking the
//! role from the previous holder, then giving it to the new one. The calls
//! are made by the caller, while it keeps the holder's cell locked for
//! writing; this module decides which call comes next and what a result
//! means. The order is what keeps the role from ever having two members.

use vstd::prelude::*;
use vstd::string::StringExecFns;
use crate::db::{awarded, DbUser, Ledger};
use crate::error::DungeonBotError;
use crate::event::{Message, Timestamp};
use crate::text::{decimal, decimal_i64};
use crate::{hms, hms_text};

verus! {

/// Seconds of a streak that earn its holder one point.
pub const STREAK_MULTIPLIER: i64 = 5;

/// Seconds of a streak that earn the member who breaks it one point.
pub const STREAK_BONUS_MULTIPLIER: i64 = 40;

/// A broken streak of at least this many seconds is announced in the channel.
pub const STREAK_NOTICE_SECONDS: i64 = 300;

/// The streak holder: who, and since when.
#[derive(Clone, Copy, Debug, PartialEq, Eq, Structural)]
pub struct LastMessageData {
    pub memb: u64,
    pub timestamp: Timestamp,
}

impl LastMessageData {
    /// The holder's user id.
    pub fn id(&self) -> (id: u64)
        ensures
            id == self.memb,
    {
        self.memb
    }

    /// When the holder took the streak.
    pub fn timestamp(&self) -> (since: Timestamp)
        ensures
            since == self.timestamp,
    {
        self.timestamp
    }
}

/// A call to the chat platform that a change of holder needs.
#[derive(Clone, Copy, Debug, PartialEq, Eq, Structural)]
pub enum RoleCall {
    /// Take the holder role from this member.
    Remove { user: u64 },
    /// Give the holder role to this member.
    Add { user: u64 },
}

/// Which of the two calls a change of holder is waiting for.
#[derive(Clone, Copy, Debug, PartialEq, Eq, Structural)]
pub enum Stage {
    /// The role is being taken from the previous holder.
    Pop,
    /// The role is being given to the new holder.
    Push,
}

/// A change of holder that has begun and is not finished.
#[derive(Clone, Copy, Debug, PartialEq, Eq, Structural)]
pub struct Pending {
    /// The holder when the change began.
    pub prev: Option<LastMessageData>,
    /// The member who is to hold the streak.
    pub new: u64,
    /// When the message that began the change was sent.
    pub at: Timestamp,
    pub stage: Stage,
}

/// A streak that has just been broken.
#[derive(Clone, Copy, Debug, PartialEq, Eq, Structural)]
pub struct Streak {
    /// The member who held the streak.
    pub outgoing: u64,
    /// The member who broke it.
    pub incoming: u64,
    /// How long the streak lasted, in seconds.
    pub elapsed: i64,
}

/// Where a change of holder stands after the result of a call.
#[derive(Clone, Copy, Debug, PartialEq, Eq, Structural)]
pub enum Progress {
    /// Another call is needed.
    Next(Pending),
    /// The new holder is in place. The streak, if one was broken, is to be
    /// settled once the cell is unlocked.
    Done(Option<Streak>),
    /// The call failed and the change was given up.
    Aborted,
}

/// True when a message from `new` changes the holder.
pub open spec fn changes_holder(cell: Option<LastMessageData>, new: u64) -> bool {
    match cell {
        Some(holder) => holder.memb != new,
        None => true,
    }
}

/// The change of holder that `msg` begins, if it begins one: it must be in
/// the game's channel, from a member who is not automated and does not hold
/// the streak already.
pub open spec fn change_begun(cell: Option<LastMessageData>, lmchannel: u64, msg: Message) -> Option<
    Pending,
> {
    if msg.channel_id != lmchannel || msg.bot || !changes_holder(cell, msg.author) {
        None
    } else {
        Some(
            Pending {
                prev: cell,
                new: msg.author,
                at: msg.timestamp,
                stage: if cell is Some {
                    Stage::Pop
                } else {
                    Stage::Push
                },
            },
        )
    }
}

/// The call that a pending change is waiting for.
pub open spec fn call_due(p: Pending) -> RoleCall {
    match p.stage {
        Stage::Pop => RoleCall::Remove {
            user: match p.prev {
                Some(holder) => holder.memb,
                None => p.new,
            },
        },
        Stage::Push => RoleCall::Add { user: p.new },
    }
}

/// The streak that ends when `new` takes over at `at`: none if nobody held
/// it, and none if the holder's time lies after `at`.
pub open spec fn streak_broken(prev: Option<LastMessageData>, new: u64, at: Timestamp) -> Option<
    Streak,
> {
    match prev {
        Some(holder) => if at.seconds() - holder.timestamp.seconds() >= 0 {
            Some(
                Streak {
                    outgoing: holder.memb,
                    incoming: new,
                    elapsed: (at.seconds() - holder.timestamp.seconds()) as i64,
                },
            )
        } else {
            None
        },
        None => None,
    }
}

/// The cell and the state of the change after the call that `p` was waiting
/// for has returned.
///
/// A failed removal leaves the holder in place and gives the change up, so
/// that the role is never given to a second member. A failed grant leaves the
/// cell as the removal left it: empty.
pub open spec fn after_result(p: Pending, cell: Option<LastMessageData>, succeeded: bool) -> (
    Option<LastMessageData>,
    Progress,
) {
    if !succeeded {
        (cell, Progress::Aborted)
    } else {
        match p.stage {
            Stage::Pop => (
                None,
                Progress::Next(Pending { prev: p.prev, new: p.new, at: p.at, stage: Stage::Push }),
            ),
            Stage::Push => (
                Some(LastMessageData { memb: p.new, timestamp: p.at }),
                Progress::Done(streak_broken(p.prev, p.new, p.at)),
            ),
        }
    }
}

impl Pending {
    /// The call to make now.
    pub fn call(&self) -> (due: RoleCall)
        ensures
            due == call_due(*self),
    {
        match self.stage {
            Stage::Pop => RoleCall::Remove {
                user: match self.prev {
                    Some(holder) => holder.memb,
                    None => self.new,
                },
            },
            Stage::Push => RoleCall::Add { user: self.new },
        }
    }

    /// Takes the result of the call that was due, updates the holder's cell
    /// and says how the change goes on.
    pub fn advance(self, cell: &mut Option<LastMessageData>, succeeded: bool) -> (progress:
        Progress)
        ensures
            (*final(cell), progress) == after_result(self, *old(cell), succeeded),
    {
        if !succeeded {
            return Progress::Aborted;
        }
        match self.stage {
            Stage::Pop => {
                *cell = None;
                Progress::Next(
                    Pending { prev: self.prev, new: self.new, at: self.at, stage: Stage::Push },
                )
            },
            Stage::Push => {
                *cell = Some(LastMessageData { memb: self.new, timestamp: self.at });
                let broken = match self.prev {
                    Some(holder) => {
                        let t0 = holder.timestamp.unix_timestamp();
                        let t1 = self.at.unix_timestamp();
                        if t1 >= t0 {
                            Some(
                                Streak {
                                    outgoing: holder.memb,
                                    incoming: self.new,
                                    elapsed: t1 - t0,
                                },
                            )
                        } else {
                            None
                        }
                    },
                    None => None,
                };
                Progress::Done(broken)
            },
        }
    }
}

impl Streak {
    /// Points for the member who held the streak: one for every full
    /// [`STREAK_MULTIPLIER`] seconds, and none for a negative time.
    pub open spec fn reward_points(self) -> int {
        if self.elapsed >= 0 {
            self.elapsed as int / STREAK_MULTIPLIER as int
        } else {
            0
        }
    }

    /// Points for the member who broke the streak: one for every full
    /// [`STREAK_BONUS_MULTIPLIER`] seconds, and none for a negative time.
    pub open spec fn bonus_points(self) -> int {
        if self.elapsed >= 0 {
            self.elapsed as int / STREAK_BONUS_MULTIPLIER as int
        } else {
            0
        }
    }

    /// Whether the streak was long enough to be announced.
    pub open spec fn is_announced(self) -> bool {
        self.elapsed >= STREAK_NOTICE_SECONDS
    }

    /// Points for the member who held the streak.
    pub fn reward(&self) -> (points: i64)
        ensures
            points == self.reward_points(),
    {
        if self.elapsed >= 0 {
            self.elapsed / STREAK_MULTIPLIER
        } else {
            0
        }
    }

    /// Points for the member who broke the streak.
    pub fn bonus(&self) -> (points: i64)
        ensures
            points == self.bonus_points(),
    {
        if self.elapsed >= 0 {
            self.elapsed / STREAK_BONUS_MULTIPLIER
        } else {
            0
        }
    }

    /// Whether the streak was long enough to be announced.
    pub fn announced(&self) -> (yes: bool)
        ensures
            yes == self.is_announced(),
    {
        self.elapsed >= STREAK_NOTICE_SECONDS
    }
}

/// The balances after a broken streak was paid out, and how the payment
/// ended. The holder is paid first; if that fails the breaker is not paid.
pub open spec fn settled(m: Map<u64, i32>, streak: Streak) -> (
    Map<u64, i32>,
    Result<bool, DungeonBotError>,
) {
    match awarded(m, streak.outgoing, streak.reward_points()) {
        Err(why) => (m, Err(why)),
        Ok(paid) => match awarded(paid, streak.incoming, streak.bonus_points()) {
            Err(why) => (paid, Err(why)),
            Ok(both) => (both, Ok(streak.is_announced())),
        },
    }
}

/// The announcement of a broken streak.
pub open spec fn streak_message_text(new: Seq<char>, curr: Seq<char>, dt: int) -> Seq<char> {
    "😱 "@ + new + " broke "@ + curr + "'s "@ + hms_text(dt) + " last message streak! As a bonus, they earn "@
        + decimal(crate::trunc_div(dt, STREAK_BONUS_MULTIPLIER as int)) + " aura."@
}

/// The last-message game's operations on the holder's cell.
pub struct LastMessage;

impl LastMessage {
    /// The holder and the length of the running streak at `now`, in seconds.
    pub fn state(cell: &Option<LastMessageData>, now: Timestamp) -> (state: Option<(u64, i64)>)
        ensures
            match *cell {
                Some(holder) => state == Some(
                    (holder.memb, (now.seconds() - holder.timestamp.seconds()) as i64),
                ) && i64::MIN <= now.seconds() - holder.timestamp.seconds() <= i64::MAX,
                None => state is None,
            },
    {
        match cell {
            Some(holder) => Some(
                (holder.memb, now.unix_timestamp() - holder.timestamp.unix_timestamp()),
            ),
            None => None,
        }
    }

    /// The length of the running streak at `now`, in seconds.
    pub fn current_streak(cell: &Option<LastMessageData>, now: Timestamp) -> (streak: Option<i64>)
        ensures
            match *cell {
                Some(holder) => streak == Some(
                    (now.seconds() - holder.timestamp.seconds()) as i64,
                ) && i64::MIN <= now.seconds() - holder.timestamp.seconds() <= i64::MAX,
                None => streak is None,
            },
    {
        match cell {
            Some(holder) => Some(now.unix_timestamp() - holder.timestamp.unix_timestamp()),
            None => None,
        }
    }

    /// The holder's user id.
    pub fn get_winner(cell: &Option<LastMessageData>) -> (winner: Option<u64>)
        ensures
            match *cell {
                Some(holder) => winner == Some(holder.memb),
                None => winner is None,
            },
    {
        match cell {
            Some(holder) => Some(holder.memb),
            None => None,
        }
    }

    /// Puts `memb` in the cell as the holder since `timestamp`.
    pub fn set_winner(cell: &mut Option<LastMessageData>, memb: u64, timestamp: Timestamp)
        ensures
            *final(cell) == Some(LastMessageData { memb, timestamp }),
    {
        *cell = Some(LastMessageData { memb, timestamp });
    }

    /// Whether a message from `new` changes the holder.
    pub fn is_new_winner(cell: &Option<LastMessageData>, new: u64) -> (changes: bool)
        ensures
            changes == changes_holder(*cell, new),
    {
        match cell {
            Some(holder) => holder.memb != new,
            None => true,
        }
    }

    /// Looks at a message and begins a change of holder if it calls for one.
    /// The cell is not touched: a message from the holder, from an automated
    /// account or in another channel resets nothing and asks for no call.
    pub fn message_handler(cell: &Option<LastMessageData>, lmchannel: u64, msg: &Message) -> (begun:
        Option<Pending>)
        ensures
            begun == change_begun(*cell, lmchannel, *msg),
    {
        if msg.channel_id != lmchannel || msg.bot {
            return None;
        }
        if !Self::is_new_winner(cell, msg.author) {
            return None;
        }
        Some(
            Pending {
                prev: *cell,
                new: msg.author,
                at: msg.timestamp,
                stage: if cell.is_some() {
                    Stage::Pop
                } else {
                    Stage::Push
                },
            },
        )
    }

    /// Pays out a broken streak and says whether it is to be announced.
    pub fn settle(conn: &mut Ledger, streak: &Streak) -> (announce: Result<bool, DungeonBotError>)
        requires
            old(conn).wf(),
        ensures
            final(conn).wf(),
            final(conn).vars() == old(conn).vars(),
            (final(conn).balances(), announce) == settled(old(conn).balances(), *streak),
    {
        match DbUser::award(conn, streak.outgoing, streak.reward()) {
            Err(why) => {
                return Err(why);
            },
            Ok(_) => {},
        }
        match DbUser::award(conn, streak.incoming, streak.bonus()) {
            Err(why) => {
                return Err(why);
            },
            Ok(_) => {},
        }
        Ok(streak.announced())
    }

    /// Writes the announcement of a streak of `dt` seconds that `new` took
    /// from `curr`.
    pub fn streak_message(new: &str, curr: &str, dt: i64) -> (out: String)
        ensures
            out@ == streak_message_text(new@, curr@, dt as int),
    {
        let out = String::from_str("😱 ");
        let out = out.concat(new);
        let out = out.concat(" broke ");
        let out = out.concat(curr);
        let out = out.concat("'s ");
        let out = out.concat(hms(dt).as_str());
        let out = out.concat(" last message streak! As a bonus, they earn ");
        let out = out.concat(decimal_i64(dt / STREAK_BONUS_MULTIPLIER).as_str());
        let out = out.concat(" aura.");
        out
    }
}

/// The game as an observer of the chat platform sees it: the holder's cell,
/// the change of holder in progress, if any, and the members who wear the
/// holder role.
pub struct World {
    pub cell: Option<LastMessageData>,
    pub pending: Option<Pending>,
    pub role: Set<u64>,
}

/// One thing that happens to the game.
pub enum Happening {
    /// A message gets hold of the cell. A message that arrives while a change
    /// of holder is in progress waits for the cell, so it stands in a history
    /// where the change is over.
    Arrives(Message),
    /// The call that the change in progress is waiting for returns.
    /// `took_effect` says whether a removal that reported failure took the
    /// role away all the same.
    Returns { succeeded: bool, took_effect: bool },
}

/// The members of the role after a call. A call that succeeds does what it
/// says. A removal that fails may or may not have removed the member; a
/// grant that fails grants nothing.
pub open spec fn role_after(role: Set<u64>, call: RoleCall, succeeded: bool, took_effect: bool) -> Set<
    u64,
> {
    match call {
        RoleCall::Remove { user } => if succeeded || took_effect {
            role.remove(user)
        } else {
            role
        },
        RoleCall::Add { user } => if succeeded {
            role.insert(user)
        } else {
            role
        },
    }
}

/// The world after one happening.
pub open spec fn step(w: World, lmchannel: u64, h: Happening) -> World {
    match h {
        Happening::Arrives(msg) => match w.pending {
            Some(_) => w,
            None => World { cell: w.cell, pending: change_begun(w.cell, lmchannel, msg), role: w.role },
        },
        Happening::Returns { succeeded, took_effect } => match w.pending {
            None => w,
            Some(p) => World {
                cell: after_result(p, w.cell, succeeded).0,
                pending: match after_result(p, w.cell, succeeded).1 {
                    Progress::Next(q) => Some(q),
                    _ => None,
                },
                role: role_after(w.role, call_due(p), succeeded, took_effect),
            },
        },
    }
}

/// The world after a history of happenings.
pub open spec fn run(w: World, lmchannel: u64, history: Seq<Happening>) -> World
    decreases history.len(),
{
    if history.len() == 0 {
        w
    } else {
        step(run(w, lmchannel, history.drop_last()), lmchannel, history.last())
    }
}

/// The role has no member, or one.
pub open spec fn at_most_one(role: Set<u64>) -> bool {
    forall|a: u64, b: u64| role.contains(a) && role.contains(b) ==> a == b
}

/// The role is worn by nobody but the holder in the cell, and the change in
/// progress, if any, fits the cell: while the role is being taken away the
/// cell still holds the previous holder, and while it is being given the
/// cell is empty.
pub open spec fn consistent(w: World) -> bool {
    &&& match w.cell {
        Some(holder) => w.role.subset_of(set![holder.memb]),
        None => w.role == Set::<u64>::empty(),
    }
    &&& match w.pending {
        Some(p) => match p.stage {
            Stage::Pop => w.cell is Some && p.prev == w.cell,
            Stage::Push => w.cell is None,
        },
        None => true,
    }
}

/// The game starts with no holder, no change in progress and nobody in the role.
pub open spec fn at_start() -> World {
    World { cell: None, pending: None, role: Set::<u64>::empty() }
}

/// One happening keeps a consistent world consistent.
pub proof fn lemma_step_consistent(w: World, lmchannel: u64, h: Happening)
    requires
        consistent(w),
    ensures
        consistent(step(w, lmchannel, h)),
{
    let after = step(w, lmchannel, h);
    match h {
        Happening::Arrives(msg) => {},
        Happening::Returns { succeeded, took_effect } => {
            match w.pending {
                None => {},
                Some(p) => {
                    match p.stage {
                        Stage::Pop => {
                            let holder = w.cell->Some_0;
                            if succeeded || took_effect {
                                assert(after.role =~= Set::<u64>::empty());
                            }
                        },
                        Stage::Push => {
                            if succeeded {
                                assert(after.role =~= set![p.new]);
                            }
                        },
                    }
                },
            }
        },
    }
}

/// Whatever messages arrive and however the calls to the platform end, the
/// holder role never has two members: not after a message, and not between
/// the two calls of a change of holder. All along, nobody but the holder in
/// the cell wears the role.
pub proof fn lemma_role_never_shared(lmchannel: u64, history: Seq<Happening>)
    ensures
        consistent(run(at_start(), lmchannel, history)),
        at_most_one(run(at_start(), lmchannel, history).role),
    decreases history.len(),
{
    if history.len() > 0 {
        lemma_role_never_shared(lmchannel, history.drop_last());
        lemma_step_consistent(
            run(at_start(), lmchannel, history.drop_last()),
            lmchannel,
            history.last(),
        );
    }
}

/// A message from the holder begins nothing: no call is asked for, and the
/// world, the holder's `timestamp` included, stays as it is.
pub proof fn lemma_holder_message_changes_nothing(w: World, lmchannel: u64, msg: Message)
    requires
        w.cell is Some,
        w.cell->Some_0.memb == msg.author,
        w.pending is None,
    ensures
        change_begun(w.cell, lmchannel, msg) is None,
        step(w, lmchannel, Happening::Arrives(msg)) == w,
{
}

/// When a member takes the streak from another after `elapsed` seconds, with
/// `elapsed` not negative, the streak that is settled pays the previous
/// holder `elapsed / 5` points and the new holder `elapsed / 40`, rounded
/// down, and is announced from 300 seconds on. With a negative `elapsed`, or
/// with nobody holding the streak, nothing is settled.
pub proof fn lemma_streak_rewards(p: Pending, cell: Option<LastMessageData>)
    requires
        p.stage == Stage::Push,
        Timestamp::in_range(p.at.seconds()),
        p.prev is Some ==> Timestamp::in_range(p.prev->Some_0.timestamp.seconds()),
    ensures
        ({
            let done = after_result(p, cell, true).1;
            match p.prev {
                Some(holder) => {
                    let elapsed = p.at.seconds() - holder.timestamp.seconds();
                    if elapsed >= 0 {
                        &&& done matches Progress::Done(Some(streak))
                        &&& streak.outgoing == holder.memb
                        &&& streak.incoming == p.new
                        &&& streak.elapsed == elapsed
                        &&& streak.reward_points() == elapsed / 5
                        &&& streak.bonus_points() == elapsed / 40
                        &&& streak.is_announced() == (elapsed >= 300)
                    } else {
                        done == Progress::Done(None)
                    }
                },
                None => done == Progress::Done(None),
            }
        }),
{
}

} // verus!
