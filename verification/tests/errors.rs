use dungeonbot::commands::{error_handler, Failure};
use dungeonbot::error::{CountingError, DungeonBotError, SubsystemError};
use dungeonbot::messagehandler::{report, CellKind, MessageHandler, Subsystem};
use dungeonbot::db::{DbUser, Ledger};
use dungeonbot::event::{Message, Timestamp};

const HEADER: &str = "Oh noes, an error <:flabbergasted:1250998996596555817>. Please let Jasper know about this immediately.\n";

#[test]
fn every_error_has_its_text() {
    assert_eq!(DungeonBotError::DbError("locked".to_string()).message(), "Database (diesel) error");
    assert_eq!(
        DungeonBotError::DbConnError("no such file".to_string()).message(),
        "Error connecting to database"
    );
    assert_eq!(DungeonBotError::DiscordError("503".to_string()).message(), "Discord (serenity) error");
    assert_eq!(DungeonBotError::MigrationError("bad".to_string()).message(), "Unknown");
    assert_eq!(
        DungeonBotError::EnvVarError { key: "BOT_TOKEN".to_string() }.message(),
        "Error retrieving environment variable `BOT_TOKEN`"
    );
    assert_eq!(
        DungeonBotError::SnowflakeParseError { snowflake: "GUILD_ID".to_string() }.message(),
        "Unable to convert `GUILD_ID` into snowflake"
    );
    assert_eq!(
        DungeonBotError::CountingError(CountingError::CTLockReadError).message(),
        "Error acquiring counting lock (read)"
    );
    assert_eq!(
        DungeonBotError::CountingError(CountingError::CTLockWriteError).message(),
        "Error acquiring counting lock (write)"
    );
    assert_eq!(
        DungeonBotError::SubsystemError(SubsystemError::LockReadError("poisoned".to_string())).message(),
        "Error acquiring subsystem lock (read): poisoned"
    );
    assert_eq!(
        DungeonBotError::SubsystemError(SubsystemError::LockWriteError("poisoned".to_string())).message(),
        "Error acquiring subsystem lock (write): poisoned"
    );
    assert_eq!(DungeonBotError::DbUserNotFoundError(42).message(), "User 42 not found (database)");
    assert_eq!(DungeonBotError::DiscordUserNotFoundError(42).message(), "User 42 not found (discord)");
    assert_eq!(DungeonBotError::InvalidAmount.message(), "Amount out of range");
    assert_eq!(DungeonBotError::Other("boom".to_string()).message(), "Other: boom");
    assert_eq!(DungeonBotError::Unknown.message(), "Unknown");
}

#[test]
fn report_puts_banner_and_detail_in_a_code_block() {
    assert_eq!(report("[Banner]", "detail"), format!("{}```\n[Banner]\ndetail\n```", HEADER));
    assert_eq!(
        MessageHandler::error_handler(&DungeonBotError::DbUserNotFoundError(9)),
        format!("{}```\n[Message Subsystem Error]\nUser 9 not found (database)\n```", HEADER)
    );
}

#[test]
fn command_failures_are_answered() {
    assert_eq!(
        error_handler(&Failure::NotAnOwner),
        Some("Sorry, only Jasper is allowed to use this command".to_string())
    );
    assert_eq!(
        error_handler(&Failure::Command(DungeonBotError::Unknown)),
        Some(format!("{}```\n[Command Error]\nUnknown\n```", HEADER))
    );
    assert_eq!(
        error_handler(&Failure::CommandPanic("Some(\"oops\")".to_string())),
        Some(format!("{}```\n[Command Panic]\nSome(\"oops\")\n```", HEADER))
    );
    assert_eq!(error_handler(&Failure::Other), None);
}

fn message(author: u64, bot: bool) -> Message {
    Message {
        author,
        bot,
        channel_id: 1,
        content: "hello".to_string(),
        timestamp: Timestamp::from_unix_timestamp(0).unwrap(),
    }
}

#[test]
fn dispatcher_admits_members_in_a_fixed_order() {
    let mut ledger = Ledger::new();
    assert_eq!(
        MessageHandler::message(&mut ledger, &message(5, false)),
        vec![Subsystem::LastMessage, Subsystem::Counting, Subsystem::Tax]
    );
    assert_eq!(DbUser::get_points(&ledger, 5), Some(0));
}

#[test]
fn dispatcher_turns_bots_away() {
    let mut ledger = Ledger::new();
    assert_eq!(MessageHandler::message(&mut ledger, &message(5, true)), vec![]);
    assert_eq!(DbUser::get(&ledger, 5), None);
}

#[test]
fn dispatcher_gathers_every_failure() {
    assert_eq!(MessageHandler::failures(Ok(()), Ok(()), Ok(())), vec![]);
    assert_eq!(
        MessageHandler::failures(
            Err(DungeonBotError::DiscordError("503".to_string())),
            Ok(()),
            Err(DungeonBotError::InvalidAmount)
        ),
        vec![
            (Subsystem::LastMessage, DungeonBotError::DiscordError("503".to_string())),
            (Subsystem::Tax, DungeonBotError::InvalidAmount),
        ]
    );
    assert_eq!(
        MessageHandler::failures(Ok(()), Err(DungeonBotError::Unknown), Ok(())),
        vec![(Subsystem::Counting, DungeonBotError::Unknown)]
    );
}

#[test]
fn only_the_last_message_game_keeps_its_cell_across_calls() {
    assert_eq!(Subsystem::LastMessage.cell_kind(), CellKind::Suspending);
    assert_eq!(Subsystem::Counting.cell_kind(), CellKind::Blocking);
    assert_eq!(Subsystem::Tax.cell_kind(), CellKind::Blocking);
}
