use std::collections::HashMap;

use dungeonbot::db::{DbUser, Ledger};
use dungeonbot::error::DungeonBotError;
use dungeonbot::event::{Message, Timestamp};
use dungeonbot::tax::{Tax, TaxData, TAX_RATE};

fn message(author: u64) -> Message {
    Message {
        author,
        bot: false,
        channel_id: 1,
        content: "hello".to_string(),
        timestamp: Timestamp::from_unix_timestamp(0).unwrap(),
    }
}

#[test]
fn one_draw_in_ten_is_taxed() {
    assert_eq!(TAX_RATE, 10);
    let taxed = (0u32..100).filter(|draw| Tax::collects(*draw)).count();
    assert_eq!(taxed, 10);
    assert!(Tax::collects(0));
    assert!(Tax::collects(9));
    assert!(!Tax::collects(10));
    assert!(!Tax::collects(99));
}

#[test]
fn taxed_message_costs_a_point_and_is_counted() {
    let mut data: TaxData = HashMap::new();
    let mut ledger = Ledger::new();
    DbUser::new(&mut ledger, 5);
    assert_eq!(Tax::message_handler_with(&mut data, &mut ledger, &message(5), 3), Ok(true));
    assert_eq!(Tax::message_handler_with(&mut data, &mut ledger, &message(5), 9), Ok(true));
    assert_eq!(DbUser::get_points(&ledger, 5), Some(-2));
    assert_eq!(data.get(&5), Some(&2));
    assert_eq!(data.len(), 1);
}

#[test]
fn untaxed_message_changes_nothing() {
    let mut data: TaxData = HashMap::new();
    let mut ledger = Ledger::new();
    DbUser::new(&mut ledger, 5);
    assert_eq!(Tax::message_handler_with(&mut data, &mut ledger, &message(5), 10), Ok(false));
    assert_eq!(DbUser::get_points(&ledger, 5), Some(0));
    assert!(data.is_empty());
}

#[test]
fn tax_on_a_balance_that_cannot_go_lower_is_refused() {
    let mut data: TaxData = HashMap::new();
    let mut ledger = Ledger::new();
    DbUser::new(&mut ledger, 5);
    DbUser::add_points(&mut ledger, 5, i32::MIN).unwrap();
    assert_eq!(
        Tax::message_handler_with(&mut data, &mut ledger, &message(5), 0),
        Err(DungeonBotError::InvalidAmount)
    );
    assert_eq!(DbUser::get_points(&ledger, 5), Some(i32::MIN));
    assert!(data.is_empty());
}

#[test]
fn tax_count_stops_at_its_largest_value() {
    let mut data: TaxData = HashMap::new();
    data.insert(5, i32::MAX);
    let mut ledger = Ledger::new();
    assert_eq!(Tax::message_handler_with(&mut data, &mut ledger, &message(5), 0), Ok(true));
    assert_eq!(data.get(&5), Some(&i32::MAX));
    assert_eq!(DbUser::get_points(&ledger, 5), None);
}

#[test]
fn drawn_tax_is_one_of_the_two_outcomes() {
    let mut data: TaxData = HashMap::new();
    let mut ledger = Ledger::new();
    DbUser::new(&mut ledger, 5);
    let mut taxed = 0;
    for _ in 0..2000 {
        match Tax::message_handler(&mut data, &mut ledger, &message(5)) {
            Ok(true) => taxed += 1,
            Ok(false) => {}
            Err(why) => panic!("unexpected failure: {:?}", why),
        }
        assert_eq!(DbUser::get_points(&ledger, 5), Some(-taxed));
        assert_eq!(data.get(&5).copied().unwrap_or(0), taxed);
    }
    assert!(taxed > 0);
    assert!(taxed < 2000);
}
