use option_contract::date::CalendarDate;
use option_contract::option;
use option_contract::option::OptionType;

fn contract(symbol: &str, kind: OptionType, strike: f64, ymd: (i32, u32, u32), size: u32) -> option::Option {
    let expiration = CalendarDate::from_ymd_opt(ymd.0, ymd.1, ymd.2).unwrap();
    option::Option::new(symbol.to_string(), kind, strike.to_string(), expiration, size)
}

#[test]
fn describes_a_call() {
    let c = contract("AAPL", OptionType::Call, 150.0, (2024, 1, 19), 100);
    assert_eq!(c.description(), "AAPL Call $150 2024-01-19");
}

#[test]
fn describes_a_put() {
    let c = contract("TSLA", OptionType::Put, 700.5, (2024, 6, 21), 10);
    assert_eq!(c.description(), "TSLA Put $700.5 2024-06-21");
}

#[test]
fn strike_with_zero_fraction_shows_no_fraction() {
    let c = contract("SPY", OptionType::Call, 50.00, (2025, 12, 19), 100);
    assert_eq!(c.description(), "SPY Call $50 2025-12-19");
}

#[test]
fn strike_text_is_shown_as_given() {
    let expiration = CalendarDate::from_ymd_opt(2024, 1, 19).unwrap();
    let c = option::Option::new(
        "AAPL".to_string(),
        OptionType::Call,
        "150.00".to_string(),
        expiration,
        100,
    );
    assert_eq!(c.description(), "AAPL Call $150.00 2024-01-19");
}

#[test]
fn negative_and_tiny_strikes_are_shown() {
    let c = contract("X", OptionType::Put, -0.125, (2024, 1, 19), 1);
    assert_eq!(c.description(), "X Put $-0.125 2024-01-19");
}

#[test]
fn empty_symbol_is_accepted() {
    let c = contract("", OptionType::Call, 1.0, (2024, 1, 19), 1);
    assert_eq!(c.symbol, "");
    assert_eq!(c.description(), " Call $1 2024-01-19");
}

#[test]
fn whitespace_symbol_is_accepted() {
    let c = contract("  \t", OptionType::Put, 2.5, (2024, 1, 19), 1);
    assert_eq!(c.symbol, "  \t");
    assert_eq!(c.description(), "  \t Put $2.5 2024-01-19");
}

#[test]
fn zero_size_is_accepted_and_not_shown() {
    let c = contract("IBM", OptionType::Call, 10.0, (2030, 3, 15), 0);
    assert_eq!(c.size, 0);
    assert_eq!(c.description(), "IBM Call $10 2030-03-15");
}

#[test]
fn new_keeps_every_field() {
    let expiration = CalendarDate::from_ymd_opt(2024, 6, 21).unwrap();
    let c = option::Option::new(
        "TSLA".to_string(),
        OptionType::Put,
        "700.5".to_string(),
        expiration,
        u32::MAX,
    );
    assert_eq!(c.symbol, "TSLA");
    assert_eq!(c.kind, OptionType::Put);
    assert_eq!(c.strike, "700.5");
    assert_eq!(c.expiration, expiration);
    assert_eq!(c.size, u32::MAX);
}

#[test]
fn description_is_the_same_each_time() {
    let c = contract("MSFT", OptionType::Call, 312.75, (2026, 9, 18), 100);
    let first = c.description();
    let second = c.description();
    assert_eq!(first, second);
    assert_eq!(first, "MSFT Call $312.75 2026-09-18");
}

#[test]
fn size_does_not_change_the_description() {
    let a = contract("MSFT", OptionType::Call, 312.75, (2026, 9, 18), 1);
    let b = contract("MSFT", OptionType::Call, 312.75, (2026, 9, 18), 1000);
    assert_eq!(a.description(), b.description());
}

#[test]
fn kind_word_follows_the_symbol() {
    let call = contract("GOOG", OptionType::Call, 99.0, (2024, 1, 19), 1).description();
    let put = contract("GOOG", OptionType::Put, 99.0, (2024, 1, 19), 1).description();
    assert_eq!(&call[5..9], "Call");
    assert_eq!(&put[5..8], "Put");
    assert!(!call.contains("Put"));
    assert!(!put.contains("Call"));
}

#[test]
fn kinds_compare_by_variant() {
    assert_eq!(OptionType::Call, OptionType::Call);
    assert_eq!(OptionType::Put, OptionType::Put);
    assert_ne!(OptionType::Call, OptionType::Put);
}

#[test]
fn date_part_is_year_month_day() {
    let c = contract("AAPL", OptionType::Call, 150.0, (2024, 1, 19), 100);
    let text = c.description();
    assert!(text.ends_with(" 2024-01-19"));
    assert_eq!(c.expiration.to_iso_string(), "2024-01-19");
}
