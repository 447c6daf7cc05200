use dungeonbot::counting::{Counting, CountingData, Verdict};
use dungeonbot::db::{DbUser, Ledger};
use dungeonbot::error::DungeonBotError;
use dungeonbot::event::{Message, Timestamp};

const CHANNEL: u64 = 900;

fn message(author: u64, content: &str) -> Message {
    Message {
        author,
        bot: false,
        channel_id: CHANNEL,
        content: content.to_string(),
        timestamp: Timestamp::from_unix_timestamp(1_700_000_000).unwrap(),
    }
}

#[test]
fn counting_reaches_the_milestone() {
    let mut data = CountingData { num: 999 };
    let mut ledger = Ledger::new();
    DbUser::new(&mut ledger, 7);
    let handled = Counting::message_handler(&mut data, &mut ledger, CHANNEL, &message(7, "1000 lets go"));
    let verdict = handled.unwrap();
    assert_eq!(verdict, Verdict::Correct { value: 1000, points: 500, milestone: true });
    assert_eq!(verdict.reaction(), Some('✅'));
    assert_eq!(data.num, 1000);
    assert_eq!(DbUser::get_points(&ledger, 7), Some(500));
    assert_eq!(ledger.get_state("COUNT"), Some("1000".to_string()));
    assert_eq!(Counting::get_db_ct(&mut ledger), Ok(1000));
}

#[test]
fn counting_wrong_guess_changes_no_count() {
    let mut data = CountingData { num: 5 };
    let mut ledger = Ledger::new();
    DbUser::new(&mut ledger, 7);
    Counting::set_db_ct(&mut ledger, 5);
    let handled = Counting::message_handler(&mut data, &mut ledger, CHANNEL, &message(7, "3 wrong guess"));
    let verdict = handled.unwrap();
    assert_eq!(verdict, Verdict::Wrong { penalty: -10 });
    assert_eq!(verdict.reaction(), Some('❌'));
    assert_eq!(data.num, 5);
    assert_eq!(Counting::get_db_ct(&mut ledger), Ok(5));
    assert_eq!(DbUser::get_points(&ledger, 7), Some(-10));
}

#[test]
fn counting_wraps_after_the_milestone() {
    let mut data = CountingData { num: 1000 };
    let mut ledger = Ledger::new();
    DbUser::new(&mut ledger, 7);
    let handled = Counting::message_handler(&mut data, &mut ledger, CHANNEL, &message(7, "1"));
    assert_eq!(handled, Ok(Verdict::Correct { value: 1, points: 3, milestone: false }));
    assert_eq!(data.num, 1);
    assert_eq!(DbUser::get_points(&ledger, 7), Some(3));
}

#[test]
fn counting_default_expects_one() {
    let data = CountingData::default();
    assert_eq!(data.num, 1000);
    assert_eq!(
        Counting::judge(data.num, CHANNEL, &message(7, "1")),
        Verdict::Correct { value: 1, points: 3, milestone: false }
    );
    assert_eq!(Counting::judge(data.num, CHANNEL, &message(7, "1001")), Verdict::Wrong { penalty: -10 });
}

#[test]
fn counting_only_the_first_of_equal_guesses_wins() {
    let mut data = CountingData { num: 41 };
    let mut ledger = Ledger::new();
    for author in [1u64, 2, 3] {
        DbUser::new(&mut ledger, author);
    }
    let verdicts: Vec<Verdict> = [1u64, 2, 3]
        .iter()
        .map(|author| {
            Counting::message_handler(&mut data, &mut ledger, CHANNEL, &message(*author, "42")).unwrap()
        })
        .collect();
    assert_eq!(
        verdicts,
        vec![
            Verdict::Correct { value: 42, points: 3, milestone: false },
            Verdict::Wrong { penalty: -10 },
            Verdict::Wrong { penalty: -10 },
        ]
    );
    assert_eq!(data.num, 42);
    assert_eq!(Counting::get_db_ct(&mut ledger), Ok(42));
    assert_eq!(DbUser::get_points(&ledger, 1), Some(3));
    assert_eq!(DbUser::get_points(&ledger, 2), Some(-10));
    assert_eq!(DbUser::get_points(&ledger, 3), Some(-10));
}

#[test]
fn counting_ignores_bots_other_channels_and_words() {
    let mut data = CountingData { num: 5 };
    let mut ledger = Ledger::new();
    DbUser::new(&mut ledger, 7);
    let mut from_bot = message(7, "6");
    from_bot.bot = true;
    let mut elsewhere = message(7, "6");
    elsewhere.channel_id = CHANNEL + 1;
    for msg in [from_bot, elsewhere, message(7, "six"), message(7, ""), message(7, " 6"), message(7, "6th")] {
        let handled = Counting::message_handler(&mut data, &mut ledger, CHANNEL, &msg);
        assert_eq!(handled, Ok(Verdict::Ignored));
        assert_eq!(Verdict::Ignored.reaction(), None);
    }
    assert_eq!(data.num, 5);
    assert_eq!(DbUser::get_points(&ledger, 7), Some(0));
    assert_eq!(ledger.get_state("COUNT"), None);
}

#[test]
fn counting_reads_the_first_word_only() {
    assert_eq!(
        Counting::judge(5, CHANNEL, &message(7, "6\nand on")),
        Verdict::Correct { value: 6, points: 3, milestone: false }
    );
    assert_eq!(
        Counting::judge(5, CHANNEL, &message(7, "+6 7 8")),
        Verdict::Correct { value: 6, points: 3, milestone: false }
    );
    assert_eq!(
        Counting::judge(5, CHANNEL, &message(7, "006\tsix")),
        Verdict::Correct { value: 6, points: 3, milestone: false }
    );
    assert_eq!(Counting::judge(5, CHANNEL, &message(7, "-6")), Verdict::Ignored);
    assert_eq!(
        Counting::judge(5, CHANNEL, &message(7, "99999999999999999999999")),
        Verdict::Ignored
    );
}

#[test]
fn counting_author_without_account_earns_nothing() {
    let mut data = CountingData { num: 5 };
    let mut ledger = Ledger::new();
    let handled = Counting::message_handler(&mut data, &mut ledger, CHANNEL, &message(7, "6"));
    assert_eq!(handled, Ok(Verdict::Correct { value: 6, points: 3, milestone: false }));
    assert_eq!(data.num, 6);
    assert_eq!(DbUser::get_points(&ledger, 7), None);
}

#[test]
fn counting_refused_payment_keeps_the_count_moved() {
    let mut data = CountingData { num: 5 };
    let mut ledger = Ledger::new();
    DbUser::new(&mut ledger, 7);
    DbUser::add_points(&mut ledger, 7, i32::MAX).unwrap();
    let handled = Counting::message_handler(&mut data, &mut ledger, CHANNEL, &message(7, "6"));
    assert_eq!(handled, Err(DungeonBotError::InvalidAmount));
    assert_eq!(data.num, 6);
    assert_eq!(Counting::get_db_ct(&mut ledger), Ok(6));
    assert_eq!(DbUser::get_points(&ledger, 7), Some(i32::MAX));
}

#[test]
fn saved_count_starts_at_the_milestone() {
    let mut ledger = Ledger::new();
    assert_eq!(Counting::get_db_ct(&mut ledger), Ok(1000));
    assert_eq!(ledger.get_state("COUNT"), Some("1000".to_string()));
}

#[test]
fn saved_count_that_is_no_number_is_an_error() {
    let mut ledger = Ledger::new();
    ledger.set_state("COUNT", "many");
    assert_eq!(
        Counting::get_db_ct(&mut ledger),
        Err(DungeonBotError::Other("Unable to parse saved count value".to_string()))
    );
}

#[test]
fn cell_count_is_read_and_set() {
    let mut data = CountingData { num: 5 };
    assert_eq!(Counting::get_lock_ct(&data), 5);
    Counting::set_lock_ct(&mut data, 77);
    assert_eq!(Counting::get_lock_ct(&data), 77);
}
