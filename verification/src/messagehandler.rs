//! The dispatcher: which subsystems see a message, in what order, and how
//! their failures are reported.

use vstd::prelude::*;
use vstd::string::StringExecFns;
use crate::db::{with_account, DbUser, Ledger};
use crate::error::DungeonBotError;
use crate::event::Message;

verus! {

/// The parts of the bot that react to messages. Each owns its own state and
/// none needs another's, so one may fail without holding up the others.
#[derive(Clone, Copy, Debug, PartialEq, Eq, Structural)]
pub enum Subsystem {
    LastMessage,
    Counting,
    Tax,
}

/// How a subsystem's state cell may be held.
#[derive(Clone, Copy, Debug, PartialEq, Eq, Structural)]
pub enum CellKind {
    /// The cell is never kept locked across a call to the chat platform.
    Blocking,
    /// The cell may stay locked while a call to the chat platform is awaited.
    Suspending,
}

impl Subsystem {
    /// The kind of cell that holds this subsystem's state. Only the
    /// last-message game keeps its cell locked across calls to the platform:
    /// the role must change hands before anyone else sees the holder.
    pub fn cell_kind(&self) -> (kind: CellKind)
        ensures
            kind == if *self == Subsystem::LastMessage {
                CellKind::Suspending
            } else {
                CellKind::Blocking
            },
    {
        match self {
            Subsystem::LastMessage => CellKind::Suspending,
            Subsystem::Counting => CellKind::Blocking,
            Subsystem::Tax => CellKind::Blocking,
        }
    }
}

/// The order in which the subsystems are handed a message.
pub open spec fn dispatch_order() -> Seq<Subsystem> {
    seq![Subsystem::LastMessage, Subsystem::Counting, Subsystem::Tax]
}

/// The failure of one subsystem, if it failed.
pub open spec fn failure_of(subsystem: Subsystem, outcome: Result<(), DungeonBotError>) -> Seq<
    (Subsystem, DungeonBotError),
> {
    match outcome {
        Ok(_) => Seq::empty(),
        Err(why) => seq![(subsystem, why)],
    }
}

/// The first line of every report of an internal error.
pub open spec fn report_header() -> Seq<char> {
    "Oh noes, an error <:flabbergasted:1250998996596555817>. Please let Jasper know about this immediately.\n"@
}

/// The report of an internal error under the given banner.
pub open spec fn report_text(banner: Seq<char>, detail: Seq<char>) -> Seq<char> {
    report_header() + "```\n"@ + banner + "\n"@ + detail + "\n"@ + "```"@
}

/// Writes the report of an internal error: the header, and in a code block
/// the banner and the detail, each on a line of its own. The banner tells an
/// internal error from the refusal of a command.
pub fn report(banner: &str, detail: &str) -> (out: String)
    ensures
        out@ == report_text(banner@, detail@),
{
    String::from_str(
        "Oh noes, an error <:flabbergasted:1250998996596555817>. Please let Jasper know about this immediately.\n",
    ).concat("```\n").concat(banner).concat("\n").concat(detail).concat("\n").concat("```")
}

/// The dispatcher.
pub struct MessageHandler;

impl MessageHandler {
    /// Admits a message: the message of an automated account goes to no
    /// subsystem and changes nothing; for any other the author is given an
    /// account if there is none, and the message goes to every subsystem in
    /// the order of [`dispatch_order`].
    pub fn message(conn: &mut Ledger, msg: &Message) -> (order: Vec<Subsystem>)
        requires
            old(conn).wf(),
        ensures
            final(conn).wf(),
            final(conn).vars() == old(conn).vars(),
            msg.bot ==> order@ == Seq::<Subsystem>::empty() && final(conn).balances() == old(
                conn,
            ).balances(),
            !msg.bot ==> order@ == dispatch_order() && final(conn).balances() == with_account(
                old(conn).balances(),
                msg.author,
            ),
    {
        let mut order: Vec<Subsystem> = Vec::new();
        if msg.bot {
            return order;
        }
        DbUser::new(conn, msg.author);
        order.push(Subsystem::LastMessage);
        order.push(Subsystem::Counting);
        order.push(Subsystem::Tax);
        assert(order@ =~= dispatch_order());
        order
    }

    /// Gathers the failures of the subsystems, in the order of dispatch.
    pub fn failures(
        lastmessage: Result<(), DungeonBotError>,
        counting: Result<(), DungeonBotError>,
        tax: Result<(), DungeonBotError>,
    ) -> (failed: Vec<(Subsystem, DungeonBotError)>)
        ensures
            failed@ == failure_of(Subsystem::LastMessage, lastmessage) + failure_of(
                Subsystem::Counting,
                counting,
            ) + failure_of(Subsystem::Tax, tax),
    {
        let mut failed: Vec<(Subsystem, DungeonBotError)> = Vec::new();
        if let Err(why) = lastmessage {
            failed.push((Subsystem::LastMessage, why));
        }
        assert(failed@ =~= failure_of(Subsystem::LastMessage, lastmessage));
        if let Err(why) = counting {
            failed.push((Subsystem::Counting, why));
        }
        assert(failed@ =~= failure_of(Subsystem::LastMessage, lastmessage) + failure_of(
            Subsystem::Counting,
            counting,
        ));
        if let Err(why) = tax {
            failed.push((Subsystem::Tax, why));
        }
        assert(failed@ =~= failure_of(Subsystem::LastMessage, lastmessage) + failure_of(
            Subsystem::Counting,
            counting,
        ) + failure_of(Subsystem::Tax, tax));
        failed
    }

    /// Writes the report of a subsystem's failure.
    pub fn error_handler(err: &DungeonBotError) -> (out: String)
        ensures
            out@ == report_text("[Message Subsystem Error]"@, err.message_text()),
    {
        report("[Message Subsystem Error]", err.message().as_str())
    }
}

} // verus!
