use query_watch::duration::{current_time, duration_text, int_text, elapsed_seconds, time_diff_text, time_diff_text_at};
use query_watch::message::{report_at, report_text};
use query_watch::query::{RunningQuery, Timestamp};
use query_watch::text::{escape_markdown_v2, is_reserved};

fn at(secs: i64) -> Timestamp {
    Timestamp { secs, nanos: 0 }
}

#[test]
fn escape_mixed_text() {
    assert_eq!(escape_markdown_v2("a.b_c"), "a\\.b\\_c");
}

#[test]
fn escape_plain_text_unchanged() {
    assert_eq!(escape_markdown_v2("select 1 from t where x"), "select 1 from t where x");
    assert_eq!(escape_markdown_v2(""), "");
}

#[test]
fn escape_each_reserved_character() {
    let reserved = "_*[]()~`><#+-=|{}.!";
    for c in reserved.chars() {
        assert!(is_reserved(c));
        let s = c.to_string();
        assert_eq!(escape_markdown_v2(&s), format!("\\{}", c));
    }
    assert!(!is_reserved('a'));
    assert!(!is_reserved('\\'));
}

#[test]
fn escape_is_not_idempotent() {
    let once = escape_markdown_v2("a.b");
    assert_eq!(escape_markdown_v2(&once), "a\\\\.b");
}

#[test]
fn escape_keeps_non_ascii() {
    assert_eq!(escape_markdown_v2("é-ü"), "é\\-ü");
}

#[test]
fn duration_boundaries() {
    assert_eq!(duration_text(0), "0 seconds");
    assert_eq!(duration_text(45), "45 seconds");
    assert_eq!(duration_text(90), "1 minutes and 30 seconds");
    assert_eq!(duration_text(3661), "1 hours, 1 minutes, and 1 seconds");
    assert_eq!(duration_text(90061), "1 days, 1 hours, 1 minutes, and 1 seconds");
}

#[test]
fn duration_keeps_zero_sub_units() {
    assert_eq!(duration_text(86400), "1 days, 0 hours, 0 minutes, and 0 seconds");
    assert_eq!(duration_text(3600), "1 hours, 0 minutes, and 0 seconds");
    assert_eq!(duration_text(60), "1 minutes and 0 seconds");
    assert_eq!(duration_text(59), "59 seconds");
    assert_eq!(duration_text(2 * 86400 + 23 * 3600 + 59 * 60 + 59), "2 days, 23 hours, 59 minutes, and 59 seconds");
}

#[test]
fn duration_negative_elapsed() {
    assert_eq!(duration_text(-5), "-5 seconds");
    assert_eq!(duration_text(-65), "-5 seconds");
}

#[test]
fn elapsed_rounds_toward_zero() {
    let from = Timestamp { secs: 100, nanos: 500_000_000 };
    assert_eq!(elapsed_seconds(from, Timestamp { secs: 110, nanos: 200_000_000 }), 9);
    assert_eq!(elapsed_seconds(from, Timestamp { secs: 110, nanos: 600_000_000 }), 10);
    assert_eq!(elapsed_seconds(Timestamp { secs: 110, nanos: 200_000_000 }, from), -9);
}

#[test]
fn time_diff_between_two_instants() {
    assert_eq!(time_diff_text_at(at(1_000), at(1_090)), "1 minutes and 30 seconds");
    assert_eq!(time_diff_text_at(at(1_000), at(1_000 + 90061)), "1 days, 1 hours, 1 minutes, and 1 seconds");
}

#[test]
fn time_diff_against_now() {
    let text = time_diff_text(at(0));
    assert!(text.starts_with(|c: char| c.is_ascii_digit()));
    assert!(text.contains(" days, "));
}

#[test]
fn report_escapes_every_part() {
    let q = RunningQuery::new(at(0), 7, "my-app".to_string(), "select a.b from t".to_string());
    assert_eq!(
        report_text(&q, "45 seconds"),
        "Query done \\- 45 seconds by my\\-app: \n ```sql\nselect a\\.b from t```"
    );
}

#[test]
fn report_at_measures_from_start() {
    let q = RunningQuery::new(at(100), 7, "psql".to_string(), "select 1".to_string());
    assert_eq!(
        report_at(&q, at(190)),
        "Query done \\- 1 minutes and 30 seconds by psql: \n ```sql\nselect 1```"
    );
}

#[test]
fn integers_in_decimal() {
    assert_eq!(int_text(0), "0");
    assert_eq!(int_text(7), "7");
    assert_eq!(int_text(1_234_567), "1234567");
    assert_eq!(int_text(-40), "-40");
    assert_eq!(int_text(i128::MAX), i128::MAX.to_string());
    assert_eq!(int_text(i128::MIN), i128::MIN.to_string());
}

#[test]
fn clock_reading_is_normalised() {
    let now = current_time();
    assert!(now.nanos < 1_000_000_000);
    assert!(now.secs > 1_600_000_000);
}

#[test]
fn records_compare_by_all_fields() {
    let q = RunningQuery::new(at(5), 3, "app".to_string(), "select 1".to_string());
    let copy = q.clone();
    assert!(q == copy);
    assert!(q != RunningQuery::new(at(5), 3, "app".to_string(), "select 2".to_string()));
    assert!(q != RunningQuery::new(at(6), 3, "app".to_string(), "select 1".to_string()));
    assert!(q != RunningQuery::new(at(5), 4, "app".to_string(), "select 1".to_string()));
    assert!(q != RunningQuery::new(at(5), 3, "other".to_string(), "select 1".to_string()));
}
