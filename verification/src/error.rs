//! Error values of the bot and the text each one is reported with.

use vstd::prelude::*;
use vstd::string::StringExecFns;
use crate::text::{decimal, decimal_u64};

verus! {

/// A shared state cell could not be locked.
#[derive(Clone, Debug, PartialEq, Eq)]
pub enum SubsystemError {
    /// Shared access failed; the payload is the lock's own description.
    LockReadError(String),
    /// Exclusive access failed; the payload is the lock's own description.
    LockWriteError(String),
}

impl SubsystemError {
    /// The text this error is reported with.
    pub open spec fn message_text(self) -> Seq<char> {
        match self {
            SubsystemError::LockReadError(why) => "Error acquiring subsystem lock (read): "@
                + why@,
            SubsystemError::LockWriteError(why) => "Error acquiring subsystem lock (write): "@
                + why@,
        }
    }

    /// Writes the error out for a report.
    pub fn message(&self) -> (out: String)
        ensures
            out@ == self.message_text(),
    {
        match self {
            SubsystemError::LockReadError(why) => String::from_str(
                "Error acquiring subsystem lock (read): ",
            ).concat(why.as_str()),
            SubsystemError::LockWriteError(why) => String::from_str(
                "Error acquiring subsystem lock (write): ",
            ).concat(why.as_str()),
        }
    }
}

/// The counting game's cell could not be locked.
#[derive(Clone, Copy, Debug, PartialEq, Eq, Structural)]
pub enum CountingError {
    CTLockReadError,
    CTLockWriteError,
}

impl CountingError {
    /// The text this error is reported with.
    pub open spec fn message_text(self) -> Seq<char> {
        match self {
            CountingError::CTLockReadError => "Error acquiring counting lock (read)"@,
            CountingError::CTLockWriteError => "Error acquiring counting lock (write)"@,
        }
    }

    /// Writes the error out for a report.
    pub fn message(&self) -> (out: String)
        ensures
            out@ == self.message_text(),
    {
        match self {
            CountingError::CTLockReadError => String::from_str(
                "Error acquiring counting lock (read)",
            ),
            CountingError::CTLockWriteError => String::from_str(
                "Error acquiring counting lock (write)",
            ),
        }
    }
}

/// Everything that can go wrong while the bot handles a message or a command.
#[derive(Clone, Debug, PartialEq, Eq)]
pub enum DungeonBotError {
    /// The point store failed; the payload is its own description.
    DbError(String),
    /// The point store could not be reached; the payload is its own description.
    DbConnError(String),
    /// A call to the chat platform failed; the payload is its own description.
    DiscordError(String),
    /// A required configuration value is absent.
    EnvVarError { key: String },
    /// A configuration value is present but is no 64-bit identifier.
    SnowflakeParseError { snowflake: String },
    /// The counting game's cell could not be locked.
    CountingError(CountingError),
    /// A subsystem's cell could not be locked.
    SubsystemError(SubsystemError),
    /// The point store has no account for this user.
    DbUserNotFoundError(u64),
    /// The chat platform knows no member with this id.
    DiscordUserNotFoundError(u64),
    /// A point amount would take a balance out of its range.
    InvalidAmount,
    /// The point store could not be brought to its current layout; the
    /// payload is its own description.
    MigrationError(String),
    /// Any other failure, described by its payload.
    Other(String),
    Unknown,
}

impl DungeonBotError {
    /// The text this error is reported with.
    pub open spec fn message_text(self) -> Seq<char> {
        match self {
            DungeonBotError::DbError(_) => "Database (diesel) error"@,
            DungeonBotError::DbConnError(_) => "Error connecting to database"@,
            DungeonBotError::DiscordError(_) => "Discord (serenity) error"@,
            DungeonBotError::EnvVarError { key } => "Error retrieving environment variable `"@
                + key@ + "`"@,
            DungeonBotError::SnowflakeParseError { snowflake } => "Unable to convert `"@
                + snowflake@ + "` into snowflake"@,
            DungeonBotError::CountingError(inner) => inner.message_text(),
            DungeonBotError::SubsystemError(inner) => inner.message_text(),
            DungeonBotError::DbUserNotFoundError(id) => "User "@ + decimal(id as int)
                + " not found (database)"@,
            DungeonBotError::DiscordUserNotFoundError(id) => "User "@ + decimal(id as int)
                + " not found (discord)"@,
            DungeonBotError::InvalidAmount => "Amount out of range"@,
            DungeonBotError::MigrationError(_) => "Unknown"@,
            DungeonBotError::Other(what) => "Other: "@ + what@,
            DungeonBotError::Unknown => "Unknown"@,
        }
    }

    /// Writes the error out for a report.
    pub fn message(&self) -> (out: String)
        ensures
            out@ == self.message_text(),
    {
        match self {
            DungeonBotError::DbError(_) => String::from_str("Database (diesel) error"),
            DungeonBotError::DbConnError(_) => String::from_str("Error connecting to database"),
            DungeonBotError::DiscordError(_) => String::from_str("Discord (serenity) error"),
            DungeonBotError::EnvVarError { key } => String::from_str(
                "Error retrieving environment variable `",
            ).concat(key.as_str()).concat("`"),
            DungeonBotError::SnowflakeParseError { snowflake } => String::from_str(
                "Unable to convert `",
            ).concat(snowflake.as_str()).concat("` into snowflake"),
            DungeonBotError::CountingError(inner) => inner.message(),
            DungeonBotError::SubsystemError(inner) => inner.message(),
            DungeonBotError::DbUserNotFoundError(id) => String::from_str("User ").concat(
                decimal_u64(*id).as_str(),
            ).concat(" not found (database)"),
            DungeonBotError::DiscordUserNotFoundError(id) => String::from_str("User ").concat(
                decimal_u64(*id).as_str(),
            ).concat(" not found (discord)"),
            DungeonBotError::InvalidAmount => String::from_str("Amount out of range"),
            DungeonBotError::MigrationError(_) => String::from_str("Unknown"),
            DungeonBotError::Other(what) => String::from_str("Other: ").concat(what.as_str()),
            DungeonBotError::Unknown => String::from_str("Unknown"),
        }
    }
}

} // verus!
