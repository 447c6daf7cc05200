//! What the bot's commands decide and say: the leaderboard, a member's
//! balance, gifts between members, grants by the owner, and the count.

use vstd::prelude::*;
use vstd::string::StringExecFns;
use crate::counting::{count_key, Counting, CountingData, MILESTONE};
use crate::db::{
    awarded, balance_after, fits_points, is_ranking, page_end, page_start, transfer, with_account, DbUser,
    Ledger,
};
use crate::error::DungeonBotError;
use crate::messagehandler::{report, report_text};
use crate::text::{decimal, decimal_i128, decimal_i64, decimal_u64};
use crate::trunc_div;

verus! {

/// Entries on one page of the leaderboard.
pub const PAGE_SIZE: i64 = 10;

/// The last page that can be asked for.
pub const MAX_PAGE: i64 = 10000;

/// What it costs to pin a message.
pub const PIN_PRICE: i32 = 500;

/// What it costs to unpin a message.
pub const UNPIN_PRICE: i32 = 1000;

/// One line of the leaderboard.
#[derive(Clone, Copy, Debug, PartialEq, Eq, Structural)]
pub struct Entry {
    /// The place on the board, from 1.
    pub rank: i64,
    /// The account.
    pub user: DbUser,
    /// The points of the streak that the user is holding right now, if the
    /// user is the streak holder.
    pub streak: Option<i64>,
}

/// The points that a running streak of `seconds` is worth so far.
pub open spec fn streak_points(seconds: int) -> int {
    trunc_div(seconds, 5)
}

/// The running streak's points for `user`, if `user` holds the streak.
pub open spec fn streak_of(lmstate: Option<(u64, i64)>, user: u64) -> Option<i64> {
    match lmstate {
        Some((holder, seconds)) => if holder == user {
            Some(streak_points(seconds as int) as i64)
        } else {
            None
        },
        None => None,
    }
}

/// The lines of page `page` for the accounts `page_rows` found there.
pub open spec fn entries_of(page_rows: Seq<DbUser>, lmstate: Option<(u64, i64)>, page: int) -> Seq<
    Entry,
> {
    Seq::new(
        page_rows.len(),
        |i: int|
            Entry {
                rank: ((page - 1) * PAGE_SIZE + 1 + i) as i64,
                user: page_rows[i],
                streak: streak_of(lmstate, page_rows[i].id),
            },
    )
}

/// The heading of a line: place and name, with a star for the streak holder.
pub open spec fn entry_title_text(entry: Entry, name: Seq<char>) -> Seq<char> {
    decimal(entry.rank as int) + ". "@ + name + if entry.streak is Some {
        " ⭐"@
    } else {
        Seq::<char>::empty()
    }
}

/// The body of a line: the balance, and for the streak holder the balance
/// with the running streak added.
pub open spec fn entry_body_text(entry: Entry) -> Seq<char> {
    match entry.streak {
        Some(extra) => decimal(entry.user.points + extra) + " ("@ + decimal(
            entry.user.points as int,
        ) + " total + "@ + decimal(extra as int) + " current streak)"@,
        None => decimal(entry.user.points as int) + " aura"@,
    }
}

/// The foot of the board.
pub open spec fn footer_text(page: int, accounts: int) -> Seq<char> {
    "Page "@ + decimal(page) + "/"@ + decimal(accounts / PAGE_SIZE as int)
}

/// What a member is told about the balance `points`.
pub open spec fn balance_text(name: Seq<char>, points: i32, streak: Option<i64>) -> Seq<char> {
    match streak {
        Some(extra) => name + ", you have "@ + decimal(points + extra) + " aura. ("@ + decimal(
            points as int,
        ) + " total + "@ + decimal(extra as int) + " current streak)"@,
        None => name + ", you have "@ + decimal(points as int) + " aura."@,
    }
}

/// How a gift ended.
#[derive(Clone, Copy, Debug, PartialEq, Eq, Structural)]
pub enum Gift {
    /// The amount is below 1.
    Invalid,
    /// The recipient is an automated account.
    Refused,
    /// The giver's balance is negative.
    InDebt,
    /// The giver has `have` points and wants to give `want`.
    Insufficient { have: i32, want: i32 },
    /// The recipient's balance would leave its range.
    Overflow,
    /// The points were moved.
    Transferred,
}

/// How a gift of `pts` points from `from_id` to `to_id` ends, given the
/// balances after both have been given an account.
pub open spec fn gift_for(m: Map<u64, i32>, to_id: u64, to_is_bot: bool, from_id: u64, pts: i32) -> Gift
    recommends
        m.contains_key(to_id),
        m.contains_key(from_id),
{
    if pts < 1 {
        Gift::Invalid
    } else if to_is_bot {
        Gift::Refused
    } else if m[from_id] < 0 {
        Gift::InDebt
    } else if m[from_id] < pts {
        Gift::Insufficient { have: m[from_id], want: pts }
    } else if !fits_points(m[to_id] + pts) {
        Gift::Overflow
    } else {
        Gift::Transferred
    }
}

/// What the giver is told.
pub open spec fn gift_text(gift: Gift, pts: i32, from: Seq<char>, to: Seq<char>) -> Seq<char> {
    match gift {
        Gift::Invalid => "You can only give 1 aura or more."@,
        Gift::Refused => "No."@,
        Gift::InDebt => "You are in aura debt."@,
        Gift::Insufficient { have, want } =>
            "Not enough points to complete this transaction!\nYou have "@ + decimal(have as int)
                + ", but you are trying to give "@ + decimal(want as int),
        Gift::Overflow => "Sorry, this would cause an integer overflow lol."@,
        Gift::Transferred => "Transferred "@ + decimal(pts as int) + " aura from "@ + from
            + " to "@ + to + "."@,
    }
}

impl Entry {
    /// The heading of this line for a user called `name`.
    pub fn title(&self, name: &str) -> (out: String)
        ensures
            out@ == entry_title_text(*self, name@),
    {
        let out = decimal_i64(self.rank).concat(". ").concat(name);
        if self.streak.is_some() {
            out.concat(" ⭐")
        } else {
            assert(out@ + Seq::<char>::empty() =~= out@);
            out
        }
    }

    /// The body of this line.
    pub fn body(&self) -> (out: String)
        ensures
            out@ == entry_body_text(*self),
    {
        match self.streak {
            Some(extra) => decimal_i128(self.user.points as i128 + extra as i128).concat(
                " (",
            ).concat(
                decimal_i64(self.user.points as i64).as_str(),
            ).concat(" total + ").concat(decimal_i64(extra).as_str()).concat(" current streak)"),
            None => decimal_i64(self.user.points as i64).concat(" aura"),
        }
    }
}

impl Gift {
    /// What the giver is told about a gift of `pts` points from the member
    /// called `from` to the member called `to`.
    pub fn reply(&self, pts: i32, from: &str, to: &str) -> (out: String)
        ensures
            out@ == gift_text(*self, pts, from@, to@),
    {
        match self {
            Gift::Invalid => String::from_str("You can only give 1 aura or more."),
            Gift::Refused => String::from_str("No."),
            Gift::InDebt => String::from_str("You are in aura debt."),
            Gift::Insufficient { have, want } => String::from_str(
                "Not enough points to complete this transaction!\nYou have ",
            ).concat(decimal_i64(*have as i64).as_str()).concat(
                ", but you are trying to give ",
            ).concat(decimal_i64(*want as i64).as_str()),
            Gift::Overflow => String::from_str("Sorry, this would cause an integer overflow lol."),
            Gift::Transferred => String::from_str("Transferred ").concat(
                decimal_i64(pts as i64).as_str(),
            ).concat(" aura from ").concat(from).concat(" to ").concat(to).concat("."),
        }
    }
}

/// The points of a running streak of `seconds`.
pub fn streak_bonus(seconds: i64) -> (points: i64)
    ensures
        points == streak_points(seconds as int),
{
    seconds / 5
}

/// The running streak's points for `user`, if `user` holds the streak.
pub fn holder_streak(lmstate: Option<(u64, i64)>, user: u64) -> (streak: Option<i64>)
    ensures
        streak == streak_of(lmstate, user),
{
    match lmstate {
        Some((holder, seconds)) => if holder == user {
            Some(streak_bonus(seconds))
        } else {
            None
        },
        None => None,
    }
}

/// The lines of one page of the leaderboard, ten to a page, the highest
/// balance first. `lmstate` is the streak holder and the seconds of the
/// running streak. A missing `page` is the first page; a page below 1 or
/// above [`MAX_PAGE`] has no board.
pub fn leaderboard(conn: &Ledger, lmstate: Option<(u64, i64)>, page: Option<i64>) -> (board:
    Option<Vec<Entry>>)
    requires
        conn.wf(),
    ensures
        ({
            let asked = match page {
                Some(p) => p,
                None => 1i64,
            };
            if 1 <= asked <= MAX_PAGE {
                &&& board is Some
                &&& exists|s: Seq<DbUser>| #[trigger]
                    is_ranking(s, conn.balances()) && board.unwrap()@ == entries_of(
                        s.subrange(
                            page_start(s.len() as int, (asked - 1) * PAGE_SIZE),
                            page_end(s.len() as int, PAGE_SIZE as int, (asked - 1) * PAGE_SIZE),
                        ),
                        lmstate,
                        asked as int,
                    )
            } else {
                board is None
            }
        }),
{
    let asked: i64 = match page {
        Some(p) => p,
        None => 1,
    };
    if asked < 1 || asked > MAX_PAGE {
        return None;
    }
    let offset: i64 = (asked - 1) * PAGE_SIZE;
    let rows = DbUser::top(conn, PAGE_SIZE, offset);
    let mut board: Vec<Entry> = Vec::new();
    let mut i: usize = 0;
    while i < rows.len()
        invariant
            i <= rows.len(),
            rows.len() <= PAGE_SIZE,
            1 <= asked <= MAX_PAGE,
            offset == (asked - 1) * PAGE_SIZE,
            board@ == entries_of(rows@.subrange(0, i as int), lmstate, asked as int),
        decreases rows.len() - i,
    {
        let entry = Entry {
            rank: offset + 1 + i as i64,
            user: rows[i],
            streak: holder_streak(lmstate, rows[i].id),
        };
        board.push(entry);
        proof {
            assert(board@ =~= entries_of(rows@.subrange(0, i + 1), lmstate, asked as int));
        }
        i += 1;
    }
    proof {
        assert(rows@.subrange(0, rows.len() as int) =~= rows@);
    }
    Some(board)
}

/// The foot of page `page` of the leaderboard.
pub fn leaderboard_footer(conn: &Ledger, page: i64) -> (out: String)
    requires
        conn.wf(),
    ensures
        out@ == footer_text(page as int, conn.balances().dom().len() as int),
{
    let accounts = DbUser::count(conn);
    String::from_str("Page ").concat(decimal_i64(page).as_str()).concat("/").concat(
        decimal_u64((accounts / 10) as u64).as_str(),
    )
}

/// What the member `user_id`, called `name`, is told about the balance, or
/// the error that the member has no account.
pub fn aura_show(conn: &Ledger, lmstate: Option<(u64, i64)>, user_id: u64, name: &str) -> (said:
    Result<String, DungeonBotError>)
    requires
        conn.wf(),
    ensures
        match said {
            Ok(out) => conn.balances().contains_key(user_id) && out@ == balance_text(
                name@,
                conn.balances()[user_id],
                streak_of(lmstate, user_id),
            ),
            Err(why) => !conn.balances().contains_key(user_id) && why
                == DungeonBotError::DbUserNotFoundError(user_id),
        },
{
    let points = match DbUser::get(conn, user_id) {
        Some(user) => user.points,
        None => {
            return Err(DungeonBotError::DbUserNotFoundError(user_id));
        },
    };
    let out = String::from_str(name).concat(", you have ");
    match holder_streak(lmstate, user_id) {
        Some(extra) => Ok(
            out.concat(decimal_i128(points as i128 + extra as i128).as_str()).concat(
                " aura. (",
            ).concat(
                decimal_i64(points as i64).as_str(),
            ).concat(" total + ").concat(decimal_i64(extra).as_str()).concat(" current streak)"),
        ),
        None => Ok(out.concat(decimal_i64(points as i64).as_str()).concat(" aura.")),
    }
}

/// Gives `pts` points of `from_id` to `to_id`.
///
/// An amount below 1 and a recipient that is an automated account are
/// turned down before anything else happens. Then both members are given an
/// account if they have none, and the gift goes through if the giver is not
/// in debt, has the points, and the recipient's balance can take them.
pub fn aura_give(conn: &mut Ledger, to_id: u64, to_is_bot: bool, from_id: u64, pts: i32) -> (gift:
    Gift)
    requires
        old(conn).wf(),
    ensures
        final(conn).wf(),
        final(conn).vars() == old(conn).vars(),
        pts < 1 ==> gift == Gift::Invalid && final(conn).balances() == old(conn).balances(),
        pts >= 1 && to_is_bot ==> gift == Gift::Refused && final(conn).balances() == old(
            conn,
        ).balances(),
        pts >= 1 && !to_is_bot ==> ({
            let opened = with_account(with_account(old(conn).balances(), to_id), from_id);
            &&& gift == gift_for(opened, to_id, to_is_bot, from_id, pts)
            &&& gift != Gift::Transferred ==> final(conn).balances() == opened
            &&& gift == Gift::Transferred ==> transfer(opened, to_id, from_id, pts) == Ok::<
                Map<u64, i32>,
                DungeonBotError,
            >(final(conn).balances())
        }),
{
    if pts < 1 {
        return Gift::Invalid;
    }
    if to_is_bot {
        return Gift::Refused;
    }
    let to_db = DbUser::new(conn, to_id);
    let from_db = DbUser::new(conn, from_id);
    if from_db.points < 0 {
        return Gift::InDebt;
    }
    if from_db.points < pts {
        return Gift::Insufficient { have: from_db.points, want: pts };
    }
    if to_db.points.checked_add(pts).is_none() {
        return Gift::Overflow;
    }
    match DbUser::xfer_points(conn, to_id, from_id, pts) {
        Ok(_) => Gift::Transferred,
        Err(_) => {
            assert(false);
            Gift::Overflow
        },
    }
}

/// Grants `pts` points, which may be negative, to `to_id`, who is given an
/// account if there is none. Returns whether the points were granted: they
/// are not if the balance would leave its range.
pub fn aura_add(conn: &mut Ledger, to_id: u64, pts: i32) -> (granted: bool)
    requires
        old(conn).wf(),
    ensures
        final(conn).wf(),
        final(conn).vars() == old(conn).vars(),
        ({
            let opened = with_account(old(conn).balances(), to_id);
            &&& granted == fits_points(opened[to_id] + pts)
            &&& final(conn).balances() == if granted {
                opened.insert(to_id, (opened[to_id] + pts) as i32)
            } else {
                opened
            }
        }),
{
    let to_db = DbUser::new(conn, to_id);
    if to_db.points.checked_add(pts).is_none() {
        return false;
    }
    match DbUser::add_points(conn, to_id, pts) {
        Ok(_) => true,
        Err(_) => {
            assert(false);
            false
        },
    }
}

/// What the owner is told after a grant.
pub fn aura_add_reply(granted: bool, pts: i32, to: &str) -> (out: String)
    ensures
        out@ == if granted {
            "Added "@ + decimal(pts as int) + " aura to "@ + to@ + "."@
        } else {
            "Sorry, this would cause an integer overflow lol."@
        },
{
    if granted {
        String::from_str("Added ").concat(decimal_i64(pts as i64).as_str()).concat(
            " aura to ",
        ).concat(to).concat(".")
    } else {
        String::from_str("Sorry, this would cause an integer overflow lol.")
    }
}

/// What a member is told who asks for the count.
pub fn count_show(data: &CountingData) -> (out: String)
    ensures
        out@ == "The current count is "@ + decimal(data.num as int),
{
    String::from_str("The current count is ").concat(decimal_u64(data.num).as_str())
}

/// Sets the count, in the cell and in the ledger, to a number from 1 to the
/// milestone, and returns what the owner is told. Any other number is turned
/// down and changes nothing.
pub fn count_set(data: &mut CountingData, conn: &mut Ledger, count: u64) -> (said: Option<String>)
    requires
        old(conn).wf(),
    ensures
        final(conn).wf(),
        final(conn).balances() == old(conn).balances(),
        if 1 <= count <= MILESTONE {
            &&& said is Some
            &&& said.unwrap()@ == "Successfully set count to "@ + decimal(count as int)
            &&& final(data).num == count
            &&& final(conn).vars() == old(conn).vars().insert(count_key(), decimal(count as int))
        } else {
            &&& said is None
            &&& final(data).num == old(data).num
            &&& final(conn).vars() == old(conn).vars()
        },
{
    if count < 1 || count > MILESTONE {
        return None;
    }
    Counting::set_lock_ct(data, count);
    Counting::set_db_ct(conn, count);
    Some(String::from_str("Successfully set count to ").concat(decimal_u64(count).as_str()))
}

/// The two things that can be done to a message for a price.
#[derive(Clone, Copy, Debug, PartialEq, Eq, Structural)]
pub enum Pinning {
    Pin,
    Unpin,
}

/// What is to be done about a request to pin or unpin a message.
#[derive(Clone, Copy, Debug, PartialEq, Eq, Structural)]
pub enum PinRequest {
    /// The member cannot pay the price.
    Insufficient,
    /// The link does not lead to a message.
    Failure,
    /// The message is to be changed, and the price paid once that is done.
    Change { channel_id: u64, message_id: u64 },
}

/// The guild, the channel and the message that
/// `serenity::utils::parse_message_url` finds in a link to a message, or
/// `None` where it finds the link malformed.
pub uninterp spec fn message_url_parts(url: Seq<char>) -> Option<(u64, u64, u64)>;

/// Takes a link to a message apart with `serenity::utils::parse_message_url`
/// and hands the three ids out as plain numbers. What the parts of a given
/// link are is not stated here, only that they depend on the link alone.
#[verifier::external_body]
fn parse_message_link(url: &str) -> (parts: Option<(u64, u64, u64)>)
    ensures
        parts == message_url_parts(url@),
{
    match serenity::utils::parse_message_url(url) {
        Some((guild, channel, message)) => Some((guild.get(), channel.get(), message.get())),
        None => None,
    }
}

/// What is to be done when a member with `points` points asks for something
/// that costs `price`, with a link that has the given parts.
pub open spec fn pin_request_for(points: i32, price: i32, parts: Option<(u64, u64, u64)>) -> PinRequest {
    if points < price {
        PinRequest::Insufficient
    } else {
        match parts {
            Some((_, channel_id, message_id)) => PinRequest::Change { channel_id, message_id },
            None => PinRequest::Failure,
        }
    }
}

impl Pinning {
    /// What it costs.
    pub fn price(&self) -> (price: i32)
        ensures
            price == if *self == Pinning::Pin {
                PIN_PRICE
            } else {
                UNPIN_PRICE
            },
    {
        match self {
            Pinning::Pin => PIN_PRICE,
            Pinning::Unpin => UNPIN_PRICE,
        }
    }

    /// Decides a request from the member's points and the parts of the link.
    pub fn request_with(&self, points: i32, parts: Option<(u64, u64, u64)>) -> (request:
        PinRequest)
        ensures
            request == pin_request_for(
                points,
                if *self == Pinning::Pin {
                    PIN_PRICE
                } else {
                    UNPIN_PRICE
                },
                parts,
            ),
    {
        if points < self.price() {
            return PinRequest::Insufficient;
        }
        match parts {
            Some((_, channel_id, message_id)) => PinRequest::Change { channel_id, message_id },
            None => PinRequest::Failure,
        }
    }

    /// Decides the request of `user_id` about the message that `url` leads
    /// to, or fails if the user has no account. Nothing is paid yet.
    pub fn request(&self, conn: &Ledger, user_id: u64, url: &str) -> (request: Result<
        PinRequest,
        DungeonBotError,
    >)
        requires
            conn.wf(),
        ensures
            match request {
                Ok(what) => conn.balances().contains_key(user_id) && what == pin_request_for(
                    conn.balances()[user_id],
                    if *self == Pinning::Pin {
                        PIN_PRICE
                    } else {
                        UNPIN_PRICE
                    },
                    message_url_parts(url@),
                ),
                Err(why) => !conn.balances().contains_key(user_id) && why
                    == DungeonBotError::DbUserNotFoundError(user_id),
            },
    {
        match DbUser::get_points(conn, user_id) {
            Some(points) => Ok(self.request_with(points, parse_message_link(url))),
            None => Err(DungeonBotError::DbUserNotFoundError(user_id)),
        }
    }

    /// Takes the price from `user_id` once the message has been changed, and
    /// returns the new balance, or `None` if the user has no account.
    pub fn pay(&self, conn: &mut Ledger, user_id: u64) -> (balance: Result<
        Option<i32>,
        DungeonBotError,
    >)
        requires
            old(conn).wf(),
        ensures
            final(conn).wf(),
            final(conn).vars() == old(conn).vars(),
            ({
                let price = if *self == Pinning::Pin {
                    PIN_PRICE
                } else {
                    UNPIN_PRICE
                };
                match awarded(old(conn).balances(), user_id, -price) {
                    Ok(after) => balance == Ok::<Option<i32>, DungeonBotError>(
                        balance_after(old(conn).balances(), user_id, -price),
                    ) && final(conn).balances() == after,
                    Err(why) => balance == Err::<Option<i32>, DungeonBotError>(why)
                        && final(conn).balances() == old(conn).balances(),
                }
            }),
    {
        DbUser::add_points(conn, user_id, -self.price())
    }
}

impl PinRequest {
    /// What the member is told: about a request that is turned down at
    /// once, and about one that went through once the message is changed.
    pub fn reply(&self) -> (out: String)
        ensures
            out@ == match *self {
                PinRequest::Insufficient => "Insufficient aura."@,
                PinRequest::Failure => "Failure."@,
                PinRequest::Change { .. } => "Success."@,
            },
    {
        match self {
            PinRequest::Insufficient => String::from_str("Insufficient aura."),
            PinRequest::Failure => String::from_str("Failure."),
            PinRequest::Change { .. } => String::from_str("Success."),
        }
    }
}

/// Why a command did not run to its end.
#[derive(Clone, Debug, PartialEq, Eq)]
pub enum Failure {
    /// The command is the owner's and someone else called it.
    NotAnOwner,
    /// The command returned an error.
    Command(DungeonBotError),
    /// The command panicked; the payload is what it panicked with, written out.
    CommandPanic(String),
    /// Anything else: it is not answered.
    Other,
}

/// What the caller of a command is told when it fails, if anything. A
/// command that was turned down says so plainly; an error inside the bot is
/// reported under a banner of its own.
pub open spec fn failure_text(failure: Failure) -> Option<Seq<char>> {
    match failure {
        Failure::NotAnOwner => Some("Sorry, only Jasper is allowed to use this command"@),
        Failure::Command(why) => Some(report_text("[Command Error]"@, why.message_text())),
        Failure::CommandPanic(payload) => Some(report_text("[Command Panic]"@, payload@)),
        Failure::Other => None,
    }
}

/// Writes what the caller of a failed command is told.
pub fn error_handler(failure: &Failure) -> (said: Option<String>)
    ensures
        match failure_text(*failure) {
            Some(text) => said is Some && said.unwrap()@ == text,
            None => said is None,
        },
{
    match failure {
        Failure::NotAnOwner => Some(
            String::from_str("Sorry, only Jasper is allowed to use this command"),
        ),
        Failure::Command(why) => Some(report("[Command Error]", why.message().as_str())),
        Failure::CommandPanic(payload) => Some(report("[Command Panic]", payload.as_str())),
        Failure::Other => None,
    }
}

} // verus!
