use fbarcalc::calc::assemble;
use fbarcalc::calc::calculate;
use fbarcalc::calc::calculate_with_quote;
use fbarcalc::calc::get_exchange_rate;
use fbarcalc::calc::maximum_value;
use fbarcalc::calc::parse_amount;
use fbarcalc::calc::parse_entry;
use fbarcalc::calc::rate_from_quote;
use fbarcalc::calc::rate_request;
use fbarcalc::calc::shown_entry;
use fbarcalc::calc::starting_balance;
use fbarcalc::calc::starting_prompt;
use fbarcalc::calc::transaction_prompt;
use fbarcalc::calc::truncate_to_two;
use fbarcalc::calc::Accumulator;
use fbarcalc::calc::Rate;
use fbarcalc::calc::Report;
use fbarcalc::calc::Step;
use fbarcalc::config::Config;
use fbarcalc::failure::Failure;
use fbarcalc::money::parse_decimal;
use fbarcalc::money::Decimal;
use fbarcalc::money::Money;

fn decimal(mantissa: i64, scale: u32) -> Decimal {
    Decimal { mantissa, scale }
}

fn cents(cents: i128) -> Money {
    Money { cents }
}

fn config(code: Option<&str>, key: Option<&str>) -> Config {
    Config {
        version: 1,
        default_input_currency: code.map(String::from),
        fca_api_key: key.map(String::from),
    }
}

#[test]
fn test_truncate_to_two() {
    let cut = truncate_to_two(parse_decimal("12.345").unwrap());
    assert_eq!(cut.cents as f64 / 100.0, 12.34);
}

#[test]
fn truncation_rounds_towards_negative_infinity() {
    assert_eq!(truncate_to_two(decimal(-5, 3)), cents(-1));
    assert_eq!(truncate_to_two(decimal(12345, 3)), cents(1234));
    assert_eq!(truncate_to_two(decimal(-12345, 3)), cents(-1235));
    assert_eq!(truncate_to_two(decimal(-12340, 3)), cents(-1234));
}

#[test]
fn truncation_of_short_and_long_fractions() {
    assert_eq!(truncate_to_two(decimal(7, 0)), cents(700));
    assert_eq!(truncate_to_two(decimal(75, 1)), cents(750));
    assert_eq!(truncate_to_two(decimal(0, 9)), cents(0));
    assert_eq!(truncate_to_two(decimal(1, 4_000_000_000)), cents(0));
    assert_eq!(truncate_to_two(decimal(-1, 4_000_000_000)), cents(-1));
    assert_eq!(truncate_to_two(decimal(i64::MAX, 0)), cents(922337203685477580700));
    assert_eq!(truncate_to_two(decimal(i64::MIN, 0)), cents(-922337203685477580800));
}

#[test]
fn maximum_of_running_totals() {
    let deltas = vec![decimal(-5000, 2), decimal(3000, 2), decimal(2500, 2)];
    assert_eq!(maximum_value(decimal(10000, 2), &deltas), Ok(cents(10500)));
}

#[test]
fn maximum_of_a_single_entry() {
    assert_eq!(maximum_value(decimal(0, 2), &vec![]), Ok(cents(0)));
}

#[test]
fn maximum_is_the_start_when_the_balance_only_falls() {
    let deltas = vec![decimal(-1, 0), decimal(-2, 0)];
    assert_eq!(maximum_value(decimal(5, 0), &deltas), Ok(cents(500)));
}

#[test]
fn each_delta_is_truncated_before_it_is_added() {
    let deltas = vec![decimal(1009, 3), decimal(1009, 3), decimal(-5, 3)];
    assert_eq!(maximum_value(decimal(1009, 3), &deltas), Ok(cents(300)));
}

#[test]
fn accumulator_collects_until_the_terminator() {
    let mut acc = Accumulator::new(decimal(10000, 2));
    assert!(!acc.is_done());
    assert_eq!(acc.feed(Some(decimal(-5000, 2))), Ok(Step::Collecting));
    assert_eq!(acc.total(), cents(5000));
    assert_eq!(acc.feed(Some(decimal(3000, 2))), Ok(Step::Collecting));
    assert_eq!(acc.feed(Some(decimal(2500, 2))), Ok(Step::Collecting));
    assert_eq!(acc.total(), cents(10500));
    assert_eq!(acc.maximum(), cents(10500));
    assert_eq!(acc.feed(None), Ok(Step::Done(cents(10500))));
    assert!(acc.is_done());
}

#[test]
fn accumulator_ignores_entries_once_done() {
    let mut acc = Accumulator::new(decimal(1, 0));
    assert_eq!(acc.feed(None), Ok(Step::Done(cents(100))));
    assert_eq!(acc.feed(Some(decimal(5, 0))), Ok(Step::Done(cents(100))));
    assert_eq!(acc.total(), cents(100));
}

#[test]
fn accumulator_agrees_with_the_batch_maximum() {
    let start = decimal(250, 1);
    let deltas = vec![decimal(-100, 1), decimal(333, 2), decimal(-1, 3), decimal(9999, 2)];
    let mut acc = Accumulator::new(start);
    for d in &deltas {
        acc.feed(Some(*d)).unwrap();
    }
    let done = acc.feed(None).unwrap();
    assert_eq!(done, Step::Done(maximum_value(start, &deltas).unwrap()));
}

#[test]
fn accumulator_holds_the_largest_amounts() {
    let big = decimal(i64::MAX, 0);
    let mut acc = Accumulator::new(big);
    for _ in 0..1000 {
        assert_eq!(acc.feed(Some(big)), Ok(Step::Collecting));
    }
    assert_eq!(acc.maximum(), cents(1001 * 922337203685477580700));
    assert_eq!(acc.feed(Some(decimal(i64::MIN, 0))), Ok(Step::Collecting));
    assert_eq!(acc.total(), cents(1000 * 922337203685477580700 - 100));
}

#[test]
fn rate_needs_both_parts_above_zero() {
    assert!(Rate::new(108, 100).is_some());
    assert!(Rate::new(0, 100).is_none());
    assert!(Rate::new(108, 0).is_none());
}

#[test]
fn rate_from_a_decimal_and_from_a_quote() {
    assert_eq!(Rate::from_decimal(decimal(108, 2)), Rate::new(108, 100));
    assert_eq!(Rate::reciprocal_of(decimal(92, 2)), Rate::new(100, 92));
    assert_eq!(Rate::reciprocal_of(decimal(0, 2)), None);
    assert_eq!(Rate::reciprocal_of(decimal(-92, 2)), None);
    assert_eq!(Rate::reciprocal_of(decimal(1, 20)), None);
    assert_eq!(Rate::reciprocal_of(decimal(1, 19)), Rate::new(10_000_000_000_000_000_000, 1));
}

#[test]
fn report_in_euro_and_dollars() {
    let report = assemble(cents(10500), "EUR", Rate::new(108, 100).unwrap()).unwrap();
    assert_eq!(report.native_amount, cents(10500));
    assert_eq!(report.native_code, "EUR");
    assert_eq!(report.usd_amount, cents(11340));
    assert_eq!(report.usd_amount.cents as f64 / 100.0, 113.40);
}

#[test]
fn conversion_rounds_to_the_nearest_cent() {
    let third = Rate::new(1, 3).unwrap();
    assert_eq!(assemble(cents(100), "EUR", third).unwrap().usd_amount, cents(33));
    assert_eq!(assemble(cents(200), "EUR", third).unwrap().usd_amount, cents(67));
    assert_eq!(assemble(cents(-100), "EUR", third).unwrap().usd_amount, cents(-33));
    assert_eq!(assemble(cents(-200), "EUR", third).unwrap().usd_amount, cents(-67));
    let half = Rate::new(1, 2).unwrap();
    assert_eq!(assemble(cents(1), "EUR", half).unwrap().usd_amount, cents(1));
    assert_eq!(assemble(cents(-1), "EUR", half).unwrap().usd_amount, cents(-1));
    assert_eq!(assemble(cents(3), "EUR", half).unwrap().usd_amount, cents(2));
    assert_eq!(assemble(cents(0), "EUR", half).unwrap().usd_amount, cents(0));
}

#[test]
fn conversion_out_of_range_is_refused() {
    let rate = Rate::new(3, 1).unwrap();
    assert_eq!(assemble(cents(i128::MAX), "EUR", rate), Err(Failure::AmountOutOfRange));
    assert_eq!(assemble(cents(i128::MIN), "EUR", rate), Err(Failure::AmountOutOfRange));
}

#[test]
fn rate_from_the_providers_quote() {
    assert_eq!(rate_from_quote(Some("0.92")), Ok(Rate::new(100, 92).unwrap()));
    assert_eq!(rate_from_quote(Some("149.35")), Ok(Rate::new(100, 14935).unwrap()));
    assert_eq!(rate_from_quote(Some("1")), Ok(Rate::new(1, 1).unwrap()));
    assert_eq!(rate_from_quote(None), Err(Failure::RateUnavailable));
    assert_eq!(rate_from_quote(Some("0")), Err(Failure::RateUnavailable));
    assert_eq!(rate_from_quote(Some("-0.92")), Err(Failure::RateUnavailable));
    assert_eq!(rate_from_quote(Some("1e-7")), Ok(Rate::new(10_000_000, 1).unwrap()));
    assert_eq!(rate_from_quote(Some("")), Err(Failure::RateUnavailable));
}

fn rate(numerator: u64, denominator: u64) -> Result<Rate, Failure> {
    Ok(Rate::new(numerator, denominator).unwrap())
}

#[test]
fn rate_from_a_quote_with_an_exponent() {
    assert_eq!(rate_from_quote(Some("1e-7")), rate(10_000_000, 1));
    assert_eq!(rate_from_quote(Some("1.5e-7")), rate(100_000_000, 15));
    assert_eq!(rate_from_quote(Some("9.999e-6")), rate(1_000_000_000, 9999));
    assert_eq!(rate_from_quote(Some("1e16")), rate(1, 10_000_000_000_000_000));
    assert_eq!(rate_from_quote(Some("1.25e16")), rate(1, 12_500_000_000_000_000));
    assert_eq!(rate_from_quote(Some("1E16")), rate(1, 10_000_000_000_000_000));
    assert_eq!(rate_from_quote(Some("1e+5")), rate(1, 100_000));
    assert_eq!(rate_from_quote(Some("1.5e1")), rate(1, 15));
    assert_eq!(rate_from_quote(Some("1.5e0")), rate(10, 15));
    assert_eq!(rate_from_quote(Some("150e-2")), rate(100, 150));
    assert_eq!(rate_from_quote(Some("+0.92e0")), rate(100, 92));
    assert_eq!(rate_from_quote(Some(".5e1")), rate(1, 5));
    assert_eq!(rate_from_quote(Some("5.e-1")), rate(10, 5));
    assert_eq!(rate_from_quote(Some("0.000001e6")), rate(1, 1));
    assert_eq!(rate_from_quote(Some("1e-0")), rate(1, 1));
    assert_eq!(rate_from_quote(Some("1e0007")), rate(1, 10_000_000));
}

#[test]
fn rate_is_had_up_to_the_largest_parts_that_fit() {
    assert_eq!(rate_from_quote(Some("1e19")), rate(1, 10_000_000_000_000_000_000));
    assert_eq!(rate_from_quote(Some("1e-19")), rate(10_000_000_000_000_000_000, 1));
    assert_eq!(rate_from_quote(Some("18446744073709551615")), rate(1, u64::MAX));
    assert_eq!(rate_from_quote(Some("1844674407370955161.5")), rate(10, u64::MAX));
    assert_eq!(rate_from_quote(Some("1.8446744073709551615e19")), rate(1, u64::MAX));
    assert_eq!(rate_from_quote(Some("0.0000000000000000001")), rate(10_000_000_000_000_000_000, 1));
    for text in [
        "1e20",
        "1e-20",
        "18446744073709551616",
        "1.8446744073709551616e19",
        "2e19",
        "1.5e300",
        "1e-300",
        "1e99999999999999999999999999999999999999999999",
        "1e-99999999999999999999999999999999999999999999",
        "0.00000000000000000001",
    ] {
        assert_eq!(rate_from_quote(Some(text)), Err(Failure::RateUnavailable), "{}", text);
    }
}

#[test]
fn quotes_that_are_no_numbers_give_no_rate() {
    for text in [
        "e5", "1e", "1e+", "1e-", "1e5.5", "1ee5", "1e 5", "1 e5", "1e5e5", "e", "E", "1x5", "0x10", ".e5",
        "1e५", "-1e5", "0e5", "0.0e-3", "-0e0", "inf", "NaN", " 1e5",
    ] {
        assert_eq!(rate_from_quote(Some(text)), Err(Failure::RateUnavailable), "{:?}", text);
    }
}

#[test]
fn rate_from_the_providers_answer() {
    let body = "{\"data\":{\"EUR\":0.9234,\"JPY\":149.35}}";
    assert_eq!(get_exchange_rate(Some(body), "EUR"), Ok(Rate::new(10000, 9234).unwrap()));
    assert_eq!(get_exchange_rate(Some(body), "JPY"), Ok(Rate::new(100, 14935).unwrap()));
    assert_eq!(get_exchange_rate(Some("{\"data\":{\"USD\":1}}"), "USD"), Ok(Rate::new(1, 1).unwrap()));
}

#[test]
fn rate_from_an_answer_that_quotes_with_an_exponent() {
    assert_eq!(get_exchange_rate(Some("{\"data\":{\"XXX\":0.0000001}}"), "XXX"), rate(10_000_000, 1));
    assert_eq!(get_exchange_rate(Some("{\"data\":{\"XXX\":1e-7}}"), "XXX"), rate(10_000_000, 1));
    assert_eq!(get_exchange_rate(Some("{\"data\":{\"XXX\":0.0000025}}"), "XXX"), rate(10_000_000, 25));
    assert_eq!(
        get_exchange_rate(Some("{\"data\":{\"XXX\":10000000000000000.0}}"), "XXX"),
        rate(1, 10_000_000_000_000_000)
    );
    assert_eq!(
        get_exchange_rate(Some("{\"data\":{\"XXX\":12500000000000000.0}}"), "XXX"),
        rate(1, 12_500_000_000_000_000)
    );
    assert_eq!(get_exchange_rate(Some("{\"data\":{\"XXX\":0.00001}}"), "XXX"), rate(100_000, 1));
    assert_eq!(get_exchange_rate(Some("{\"data\":{\"XXX\":1e300}}"), "XXX"), Err(Failure::RateUnavailable));
}

#[test]
fn answer_without_the_rate_gives_none() {
    let body = "{\"data\":{\"EUR\":0.9234}}";
    assert_eq!(get_exchange_rate(Some(body), "GBP"), Err(Failure::RateUnavailable));
    assert_eq!(get_exchange_rate(Some("{\"message\":\"Invalid\"}"), "EUR"), Err(Failure::RateUnavailable));
    assert_eq!(get_exchange_rate(Some("{\"data\":{\"EUR\":\"0.9\"}}"), "EUR"), Err(Failure::RateUnavailable));
    assert_eq!(get_exchange_rate(Some("not json"), "EUR"), Err(Failure::RateUnavailable));
    assert_eq!(get_exchange_rate(Some("0.92"), "EUR"), Err(Failure::RateUnavailable));
    assert_eq!(get_exchange_rate(Some(""), "EUR"), Err(Failure::RateUnavailable));
}

#[test]
fn no_answer_gives_no_rate() {
    assert_eq!(get_exchange_rate(None, "EUR"), Err(Failure::RateUnavailable));
    assert_eq!(
        calculate(&config(Some("EUR"), Some("k")), "Euro", decimal(1, 0), &vec![], None),
        Err(Failure::RateUnavailable)
    );
}

#[test]
fn request_names_the_credential_and_the_currency() {
    let request = rate_request(&config(Some("EUR"), Some("SECRET-REDACTED")), "EUR").unwrap();
    assert_eq!(request.url, "https://api.freecurrencyapi.com/v1/latest");
    assert_eq!(request.user_agent, "fbarcalc/0.1.0 https://github.com/mfinelli/fbarcalc");
    assert_eq!(
        request.query,
        vec![
            ("apikey".to_string(), "SECRET-REDACTED".to_string()),
            ("base_currency".to_string(), "USD".to_string()),
            ("currencies".to_string(), "EUR".to_string()),
        ]
    );
}

#[test]
fn request_without_a_credential_is_refused() {
    assert_eq!(rate_request(&config(Some("EUR"), None), "EUR"), Err(Failure::RateUnavailable));
}

#[test]
fn calculation_from_known_inputs() {
    let deltas = vec![decimal(-5000, 2), decimal(3000, 2), decimal(2500, 2)];
    let body = "{\"data\":{\"EUR\":0.5}}";
    let report = calculate(&config(Some("EUR"), Some("k")), "Euro", decimal(10000, 2), &deltas, Some(body));
    assert_eq!(
        report,
        Ok(Report {
            native_amount: cents(10500),
            native_code: "EUR".to_string(),
            usd_amount: cents(21000),
        })
    );
}

#[test]
fn calculation_with_a_quote_in_hand() {
    let report =
        calculate_with_quote(&config(None, Some("k")), "Japanese Yen", decimal(1000, 0), &vec![], Some("150"));
    assert_eq!(
        report,
        Ok(Report {
            native_amount: cents(100000),
            native_code: "JPY".to_string(),
            usd_amount: cents(667),
        })
    );
}

#[test]
fn calculation_stops_on_each_failure() {
    let body = "{\"data\":{\"EUR\":0.5}}";
    let none = vec![];
    assert_eq!(
        calculate(&config(Some("XXX"), Some("k")), "Euro", decimal(1, 0), &none, Some(body)),
        Err(Failure::InvalidCurrencyCode)
    );
    assert_eq!(
        calculate(&config(Some("EUR"), Some("k")), "Dollar", decimal(1, 0), &none, Some(body)),
        Err(Failure::InvalidCurrencyCode)
    );
    assert_eq!(
        calculate(&config(Some("EUR"), None), "Euro", decimal(1, 0), &none, Some(body)),
        Err(Failure::RateUnavailable)
    );
    assert_eq!(
        calculate(&config(Some("EUR"), Some("k")), "British Pound Sterling", decimal(1, 0), &none, Some(body)),
        Err(Failure::RateUnavailable)
    );
}

#[test]
fn report_lines_as_shown() {
    let report = Report {
        native_amount: cents(10500),
        native_code: "EUR".to_string(),
        usd_amount: cents(11340),
    };
    assert_eq!(
        report.lines(),
        Ok(vec![
            String::new(),
            "Maximum value in EUR: €105.00".to_string(),
            "Maximum value in USD: $113.40".to_string(),
        ])
    );
}

#[test]
fn report_lines_need_a_known_currency() {
    let report = Report {
        native_amount: cents(1),
        native_code: "XXX".to_string(),
        usd_amount: cents(1),
    };
    assert_eq!(report.lines(), Err(Failure::InvalidCurrencyCode));
}

#[test]
fn amounts_are_read_from_what_was_typed() {
    assert_eq!(parse_amount("12.345"), Ok(decimal(12345, 3)));
    assert_eq!(parse_amount("abc"), Err(Failure::InvalidAmount));
    assert_eq!(parse_amount(""), Err(Failure::InvalidAmount));
    assert_eq!(parse_entry(""), Ok(None));
    assert_eq!(parse_entry("-50.00"), Ok(Some(decimal(-5000, 2))));
    assert_eq!(parse_entry("12,34"), Err(Failure::InvalidAmount));
}

#[test]
fn an_aborted_starting_prompt_ends_the_run() {
    assert_eq!(starting_balance(None), Err(Failure::UserCancelled));
    assert_eq!(starting_balance(Some(decimal(5, 0))), Ok(decimal(5, 0)));
}

#[test]
fn entries_are_echoed_truncated() {
    assert_eq!(shown_entry("€", Some(decimal(12345, 3))), "€12.34");
    assert_eq!(shown_entry("$", Some(decimal(-5, 3))), "$-0.01");
    assert_eq!(shown_entry("$", None), "");
}

#[test]
fn prompts_have_their_texts() {
    assert_eq!(starting_prompt().message, "Starting value:");
    assert_eq!(starting_prompt().placeholder, "12.34");
    assert_eq!(starting_prompt().error_message, "Please enter a valid amount.");
    assert_eq!(transaction_prompt().message, "Next Transaction:");
    assert_eq!(transaction_prompt().error_message, "Please enter a valid amount or empty to finish.");
}
