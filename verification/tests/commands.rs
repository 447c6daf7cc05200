use dungeonbot::commands::{
    aura_add, aura_add_reply, aura_give, aura_show, count_set, count_show, holder_streak,
    leaderboard, leaderboard_footer, streak_bonus, Entry, Gift, PinRequest, Pinning, PIN_PRICE,
    UNPIN_PRICE,
};
use dungeonbot::counting::{Counting, CountingData};
use dungeonbot::db::{DbUser, Ledger};
use dungeonbot::error::DungeonBotError;

fn ledger_with(accounts: &[(u64, i32)]) -> Ledger {
    let mut ledger = Ledger::new();
    for (id, points) in accounts {
        DbUser::new(&mut ledger, *id);
        DbUser::add_points(&mut ledger, *id, *points).unwrap();
    }
    ledger
}

#[test]
fn leaderboard_numbers_the_lines_and_marks_the_holder() {
    let ledger = ledger_with(&[(1, 5), (2, 50), (3, 20)]);
    let board = leaderboard(&ledger, Some((3, 103)), None).unwrap();
    assert_eq!(
        board,
        vec![
            Entry { rank: 1, user: DbUser { id: 2, points: 50 }, streak: None },
            Entry { rank: 2, user: DbUser { id: 3, points: 20 }, streak: Some(20) },
            Entry { rank: 3, user: DbUser { id: 1, points: 5 }, streak: None },
        ]
    );
    assert_eq!(board[0].title("Bee"), "1. Bee");
    assert_eq!(board[0].body(), "50 aura");
    assert_eq!(board[1].title("Cee"), "2. Cee ⭐");
    assert_eq!(board[1].body(), "40 (20 total + 20 current streak)");
}

#[test]
fn leaderboard_has_ten_lines_to_a_page() {
    let accounts: Vec<(u64, i32)> = (1..=25u64).map(|id| (id, 1000 - id as i32)).collect();
    let ledger = ledger_with(&accounts);
    let first = leaderboard(&ledger, None, Some(1)).unwrap();
    assert_eq!(first.len(), 10);
    assert_eq!(first[0], Entry { rank: 1, user: DbUser { id: 1, points: 999 }, streak: None });
    let second = leaderboard(&ledger, None, Some(2)).unwrap();
    assert_eq!(second.len(), 10);
    assert_eq!(second[0], Entry { rank: 11, user: DbUser { id: 11, points: 989 }, streak: None });
    let third = leaderboard(&ledger, None, Some(3)).unwrap();
    assert_eq!(third.len(), 5);
    assert_eq!(third[4], Entry { rank: 25, user: DbUser { id: 25, points: 975 }, streak: None });
    assert_eq!(leaderboard(&ledger, None, Some(4)), Some(vec![]));
    assert_eq!(leaderboard_footer(&ledger, 2), "Page 2/2");
}

#[test]
fn leaderboard_has_no_page_out_of_range() {
    let ledger = ledger_with(&[(1, 5)]);
    assert_eq!(leaderboard(&ledger, None, Some(0)), None);
    assert_eq!(leaderboard(&ledger, None, Some(-1)), None);
    assert_eq!(leaderboard(&ledger, None, Some(10001)), None);
    assert_eq!(leaderboard(&ledger, None, Some(10000)), Some(vec![]));
    assert_eq!(leaderboard_footer(&ledger, 1), "Page 1/0");
}

#[test]
fn running_streak_is_worth_a_point_in_five_seconds() {
    assert_eq!(streak_bonus(0), 0);
    assert_eq!(streak_bonus(4), 0);
    assert_eq!(streak_bonus(5), 1);
    assert_eq!(streak_bonus(103), 20);
    assert_eq!(streak_bonus(-7), -1);
    assert_eq!(holder_streak(Some((3, 103)), 3), Some(20));
    assert_eq!(holder_streak(Some((3, 103)), 4), None);
    assert_eq!(holder_streak(None, 3), None);
}

#[test]
fn entry_body_adds_any_streak() {
    let entry = Entry { rank: 1, user: DbUser { id: 1, points: i32::MAX }, streak: Some(i64::MAX) };
    assert_eq!(
        entry.body(),
        format!(
            "{} ({} total + {} current streak)",
            i32::MAX as i128 + i64::MAX as i128,
            i32::MAX,
            i64::MAX
        )
    );
}

#[test]
fn aura_show_tells_the_balance() {
    let ledger = ledger_with(&[(1, 5), (2, -50)]);
    assert_eq!(aura_show(&ledger, None, 1, "Ay"), Ok("Ay, you have 5 aura.".to_string()));
    assert_eq!(aura_show(&ledger, Some((1, 103)), 2, "Bee"), Ok("Bee, you have -50 aura.".to_string()));
    assert_eq!(
        aura_show(&ledger, Some((1, 103)), 1, "Ay"),
        Ok("Ay, you have 25 aura. (5 total + 20 current streak)".to_string())
    );
    assert_eq!(aura_show(&ledger, None, 3, "Cee"), Err(DungeonBotError::DbUserNotFoundError(3)));
}

#[test]
fn aura_give_moves_points() {
    let mut ledger = ledger_with(&[(1, 100)]);
    let gift = aura_give(&mut ledger, 2, false, 1, 40);
    assert_eq!(gift, Gift::Transferred);
    assert_eq!(DbUser::get_points(&ledger, 1), Some(60));
    assert_eq!(DbUser::get_points(&ledger, 2), Some(40));
    assert_eq!(gift.reply(40, "Ay", "Bee"), "Transferred 40 aura from Ay to Bee.");
}

#[test]
fn aura_give_turns_down_what_it_must() {
    let mut ledger = ledger_with(&[(1, 100), (2, -5), (3, i32::MAX)]);

    assert_eq!(aura_give(&mut ledger, 9, false, 1, 0), Gift::Invalid);
    assert_eq!(aura_give(&mut ledger, 9, true, 1, 10), Gift::Refused);
    assert_eq!(DbUser::get(&ledger, 9), None);

    assert_eq!(aura_give(&mut ledger, 1, false, 2, 1), Gift::InDebt);
    let short = aura_give(&mut ledger, 2, false, 1, 101);
    assert_eq!(short, Gift::Insufficient { have: 100, want: 101 });
    assert_eq!(
        short.reply(101, "Ay", "Bee"),
        "Not enough points to complete this transaction!\nYou have 100, but you are trying to give 101"
    );
    assert_eq!(aura_give(&mut ledger, 3, false, 1, 1), Gift::Overflow);
    assert_eq!(Gift::Overflow.reply(1, "Ay", "Cee"), "Sorry, this would cause an integer overflow lol.");
    assert_eq!(Gift::InDebt.reply(1, "Bee", "Ay"), "You are in aura debt.");
    assert_eq!(Gift::Refused.reply(1, "Ay", "Bot"), "No.");
    assert_eq!(Gift::Invalid.reply(0, "Ay", "Bee"), "You can only give 1 aura or more.");

    assert_eq!(DbUser::get_points(&ledger, 1), Some(100));
    assert_eq!(DbUser::get_points(&ledger, 2), Some(-5));
    assert_eq!(DbUser::get_points(&ledger, 3), Some(i32::MAX));
}

#[test]
fn aura_give_opens_accounts_before_it_decides() {
    let mut ledger = Ledger::new();
    assert_eq!(aura_give(&mut ledger, 2, false, 1, 5), Gift::Insufficient { have: 0, want: 5 });
    assert_eq!(DbUser::get_points(&ledger, 1), Some(0));
    assert_eq!(DbUser::get_points(&ledger, 2), Some(0));
}

#[test]
fn aura_add_grants_points() {
    let mut ledger = Ledger::new();
    assert!(aura_add(&mut ledger, 1, 70));
    assert!(aura_add(&mut ledger, 1, -100));
    assert_eq!(DbUser::get_points(&ledger, 1), Some(-30));
    assert!(aura_add(&mut ledger, 1, i32::MAX));
    assert!(!aura_add(&mut ledger, 1, 31));
    assert_eq!(DbUser::get_points(&ledger, 1), Some(i32::MAX - 30));
    assert_eq!(aura_add_reply(true, 70, "Ay"), "Added 70 aura to Ay.");
    assert_eq!(aura_add_reply(false, 31, "Ay"), "Sorry, this would cause an integer overflow lol.");
}

#[test]
fn count_is_shown_and_set() {
    let mut data = CountingData { num: 12 };
    let mut ledger = Ledger::new();
    assert_eq!(count_show(&data), "The current count is 12");
    assert_eq!(count_set(&mut data, &mut ledger, 998), Some("Successfully set count to 998".to_string()));
    assert_eq!(data.num, 998);
    assert_eq!(Counting::get_db_ct(&mut ledger), Ok(998));
    assert_eq!(count_set(&mut data, &mut ledger, 0), None);
    assert_eq!(count_set(&mut data, &mut ledger, 1001), None);
    assert_eq!(data.num, 998);
    assert_eq!(Counting::get_db_ct(&mut ledger), Ok(998));
    assert_eq!(count_set(&mut data, &mut ledger, 1000), Some("Successfully set count to 1000".to_string()));
    assert_eq!(count_set(&mut data, &mut ledger, 1), Some("Successfully set count to 1".to_string()));
}

#[test]
fn pinning_has_its_price() {
    assert_eq!(PIN_PRICE, 500);
    assert_eq!(UNPIN_PRICE, 1000);
    assert_eq!(Pinning::Pin.price(), 500);
    assert_eq!(Pinning::Unpin.price(), 1000);
    let link = Some((1, 2, 3));
    assert_eq!(Pinning::Pin.request_with(499, link), PinRequest::Insufficient);
    assert_eq!(Pinning::Pin.request_with(500, link), PinRequest::Change { channel_id: 2, message_id: 3 });
    assert_eq!(Pinning::Pin.request_with(500, None), PinRequest::Failure);
    assert_eq!(Pinning::Pin.request_with(499, None), PinRequest::Insufficient);
    assert_eq!(Pinning::Unpin.request_with(999, link), PinRequest::Insufficient);
    assert_eq!(Pinning::Unpin.request_with(1000, link), PinRequest::Change { channel_id: 2, message_id: 3 });
}

#[test]
fn pin_request_reads_the_link() {
    let ledger = ledger_with(&[(1, 500), (2, 499)]);
    let link = "https://discord.com/channels/381880193251409931/381880193700069377/806164913558781963";
    assert_eq!(
        Pinning::Pin.request(&ledger, 1, link),
        Ok(PinRequest::Change { channel_id: 381880193700069377, message_id: 806164913558781963 })
    );
    assert_eq!(Pinning::Pin.request(&ledger, 1, "https://google.com"), Ok(PinRequest::Failure));
    assert_eq!(Pinning::Pin.request(&ledger, 2, link), Ok(PinRequest::Insufficient));
    assert_eq!(Pinning::Unpin.request(&ledger, 1, link), Ok(PinRequest::Insufficient));
    assert_eq!(
        Pinning::Pin.request(&ledger, 3, link),
        Err(DungeonBotError::DbUserNotFoundError(3))
    );
}

#[test]
fn pin_is_paid_for_afterwards() {
    let mut ledger = ledger_with(&[(1, 1200)]);
    assert_eq!(Pinning::Pin.pay(&mut ledger, 1), Ok(Some(700)));
    assert_eq!(DbUser::get_points(&ledger, 1), Some(700));
    assert_eq!(Pinning::Unpin.pay(&mut ledger, 1), Ok(Some(-300)));
    assert_eq!(DbUser::get_points(&ledger, 1), Some(-300));
    assert_eq!(Pinning::Pin.pay(&mut ledger, 2), Ok(None));
    assert_eq!(PinRequest::Insufficient.reply(), "Insufficient aura.");
    assert_eq!(PinRequest::Failure.reply(), "Failure.");
    assert_eq!(PinRequest::Change { channel_id: 2, message_id: 3 }.reply(), "Success.");
}
