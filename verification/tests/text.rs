use dungeonbot::text::{
    decimal_i128, decimal_i64, decimal_u128, decimal_u64, ends_word, leading_number, padded2_i64,
    parse_u64,
};
use dungeonbot::{env_snowflake, env_str};
use dungeonbot::error::DungeonBotError;

#[test]
fn decimal_writes_numbers() {
    assert_eq!(decimal_u64(0), "0");
    assert_eq!(decimal_u64(7), "7");
    assert_eq!(decimal_u64(1000), "1000");
    assert_eq!(decimal_u64(u64::MAX), "18446744073709551615");
    assert_eq!(decimal_i64(-1), "-1");
    assert_eq!(decimal_i64(i64::MIN), "-9223372036854775808");
    assert_eq!(decimal_i64(i64::MAX), "9223372036854775807");
    assert_eq!(decimal_u128(u128::MAX), u128::MAX.to_string());
    assert_eq!(decimal_i128(i128::MIN), i128::MIN.to_string());
    assert_eq!(decimal_i128(-305), "-305");
}

#[test]
fn padded2_fills_to_two_characters() {
    assert_eq!(padded2_i64(0), "00");
    assert_eq!(padded2_i64(9), "09");
    assert_eq!(padded2_i64(10), "10");
    assert_eq!(padded2_i64(123), "123");
    assert_eq!(padded2_i64(-5), "-5");
    assert_eq!(padded2_i64(-15), "-15");
    for n in -70i64..70 {
        assert_eq!(padded2_i64(n), format!("{:02}", n));
    }
}

#[test]
fn parse_u64_reads_what_std_reads() {
    for text in [
        "", "+", "-", "0", "007", "+12", "-12", "12a", "a12", " 12", "12 ", "１２",
        "18446744073709551615", "18446744073709551616", "99999999999999999999999999", "++1",
        "1+", "000000000000000000000000000001",
    ] {
        assert_eq!(parse_u64(text), text.parse::<u64>().ok(), "for {:?}", text);
    }
    assert_eq!(parse_u64("18446744073709551615"), Some(u64::MAX));
    assert_eq!(parse_u64("18446744073709551616"), None);
}

#[test]
fn parse_reads_back_what_decimal_writes() {
    for n in [0u64, 1, 9, 10, 999, 1000, 1001, 4294967296, u64::MAX] {
        assert_eq!(parse_u64(&decimal_u64(n)), Some(n));
    }
}

#[test]
fn leading_number_reads_the_first_word() {
    assert_eq!(leading_number("1000 lets go"), Some(1000));
    assert_eq!(leading_number("3 wrong guess"), Some(3));
    assert_eq!(leading_number("42"), Some(42));
    assert_eq!(leading_number("42\n43"), Some(42));
    assert_eq!(leading_number("42\t"), Some(42));
    assert_eq!(leading_number(" 42"), None);
    assert_eq!(leading_number(""), None);
    assert_eq!(leading_number("forty two"), None);
    assert_eq!(leading_number("4２ 1"), None);
    assert_eq!(leading_number("42é 1"), None);
    assert_eq!(leading_number("é 1"), None);
}

#[test]
fn five_characters_end_a_word() {
    for c in [' ', '\t', '\n', '\x0c', '\r'] {
        assert!(ends_word(c));
    }
    for c in ['a', '0', '\u{a0}', '\x0b', '-'] {
        assert!(!ends_word(c));
    }
}

#[test]
fn snowflake_is_read_from_the_environment_value() {
    assert_eq!(env_snowflake("GUILD_ID", Some("175928847299117063")), Ok(175928847299117063));
    assert_eq!(
        env_snowflake("GUILD_ID", None),
        Err(DungeonBotError::EnvVarError { key: "GUILD_ID".to_string() })
    );
    assert_eq!(
        env_snowflake("GUILD_ID", Some("abc")),
        Err(DungeonBotError::SnowflakeParseError { snowflake: "GUILD_ID".to_string() })
    );
    assert_eq!(
        env_snowflake("GUILD_ID", Some("")),
        Err(DungeonBotError::SnowflakeParseError { snowflake: "GUILD_ID".to_string() })
    );
}

#[test]
fn text_is_read_from_the_environment_value() {
    assert_eq!(env_str("BOT_TOKEN", Some("abc".to_string())), Ok("abc".to_string()));
    assert_eq!(
        env_str("BOT_TOKEN", None),
        Err(DungeonBotError::EnvVarError { key: "BOT_TOKEN".to_string() })
    );
}
