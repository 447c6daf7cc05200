//! What the bot is told about the outside world: instants and messages.

use vstd::prelude::*;

verus! {

/// The earliest instant a [`Timestamp`] can name, in seconds since 1970.
pub const MIN_UNIX_SECONDS: i64 = -10_000_000_000_000;

/// The latest instant a [`Timestamp`] can name, in seconds since 1970.
pub const MAX_UNIX_SECONDS: i64 = 10_000_000_000_000;

/// An instant, to the second.
///
/// The range is some 300,000 years either side of 1970, which is wider than
/// what the chat platform can send, so that the difference of two instants
/// is always a number of seconds that fits in an `i64`.
#[derive(Clone, Copy, Debug, PartialEq, Eq, Structural)]
pub struct Timestamp {
    secs: i64,
}

impl Timestamp {
    #[verifier::type_invariant]
    spec fn inv(self) -> bool {
        MIN_UNIX_SECONDS <= self.secs <= MAX_UNIX_SECONDS
    }

    /// True when `secs` seconds since 1970 is an instant a `Timestamp` can name.
    pub open spec fn in_range(secs: int) -> bool {
        MIN_UNIX_SECONDS <= secs <= MAX_UNIX_SECONDS
    }

    /// Seconds since 1970.
    pub closed spec fn seconds(self) -> int {
        self.secs as int
    }

    /// The instant `secs` seconds after the start of 1970, if it is in range.
    pub fn from_unix_timestamp(secs: i64) -> (at: Option<Timestamp>)
        ensures
            at is Some <==> Self::in_range(secs as int),
            at is Some ==> at.unwrap().seconds() == secs,
    {
        if MIN_UNIX_SECONDS <= secs && secs <= MAX_UNIX_SECONDS {
            Some(Timestamp { secs })
        } else {
            None
        }
    }

    /// Seconds since 1970.
    pub fn unix_timestamp(&self) -> (secs: i64)
        ensures
            secs == self.seconds(),
            Self::in_range(secs as int),
    {
        proof {
            use_type_invariant(self);
        }
        self.secs
    }
}

/// A message as the chat platform delivered it.
#[derive(Clone, Debug, PartialEq, Eq)]
pub struct Message {
    /// Who wrote it.
    pub author: u64,
    /// Whether the author is an automated account.
    pub bot: bool,
    /// The channel it was written in.
    pub channel_id: u64,
    /// The text.
    pub content: String,
    /// When it was sent.
    pub timestamp: Timestamp,
}

} // verus!
