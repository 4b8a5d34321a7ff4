use jira_issue_api::models::IssueKey;
use jira_issue_api::models::WorklogDuration;
use jira_issue_api::JiraClientError;

fn seconds(raw: &str) -> String {
    WorklogDuration::parse(raw).unwrap().to_string()
}

#[test]
fn duration_whole_numbers_in_every_unit() {
    assert_eq!(seconds("1"), "60");
    assert_eq!(seconds("1m"), "60");
    assert_eq!(seconds("1H"), "3600");
    assert_eq!(seconds("1d"), "28800");
    assert_eq!(seconds("1W"), "144000");
    assert_eq!(seconds("2H"), "7200");
    assert_eq!(seconds("45"), "2700");
    assert_eq!(seconds("3w"), "432000");
}

#[test]
fn duration_decimal_numbers() {
    assert_eq!(seconds("1.5h"), "5400");
    assert_eq!(seconds("0.5m"), "30");
    assert_eq!(seconds("2.25d"), "64800");
    assert_eq!(seconds("0.1m"), "6");
}

#[test]
fn duration_rounds_to_nearest_second() {
    assert_eq!(seconds("0.0125m"), "1");
    assert_eq!(seconds("0.001m"), "0");
    assert_eq!(seconds("0.009m"), "1");
}

#[test]
fn duration_ties_round_to_even() {
    assert_eq!(seconds("0.025m"), "2");
    assert_eq!(seconds("0.075m"), "4");
}

#[test]
fn duration_ignores_what_follows_the_unit() {
    assert_eq!(seconds("2hours"), "7200");
    assert_eq!(seconds("1.h"), "60");
    assert_eq!(seconds("3x"), "180");
}

#[test]
fn duration_without_leading_number_fails() {
    for raw in ["abc", "", "h", " 1h", ".5h", "x5h"] {
        assert!(matches!(
            WorklogDuration::parse(raw),
            Err(JiraClientError::TryFromError(_))
        ));
    }
}

#[test]
fn duration_too_large_fails() {
    assert!(matches!(
        WorklogDuration::parse("99999999999999999999"),
        Err(JiraClientError::TryFromError(_))
    ));
    assert!(matches!(
        WorklogDuration::parse("307445734561825861"),
        Err(JiraClientError::TryFromError(_))
    ));
    assert_eq!(seconds("307445734561825860"), "18446744073709551600");
}

#[test]
fn duration_long_fractions_are_exact() {
    assert_eq!(seconds("1.00000000000000000000"), "60");
    assert_eq!(seconds("1.00000000000000000000h"), "3600");
    assert_eq!(seconds("0.0250000000000000000000001m"), "2");
    assert_eq!(seconds("0.0750000000000000000000001m"), "5");
    assert_eq!(seconds("0.0749999999999999999999999m"), "4");
    assert_eq!(seconds("2.500000000000000000000000000000000000000000w"), "360000");
}

#[test]
fn duration_round_trips_its_text() {
    let d = WorklogDuration::parse("90").unwrap();
    assert_eq!(d.to_string(), "5400");
    let again = WorklogDuration::parse(&d.to_string()).unwrap();
    assert_eq!(again.to_string(), "324000");
}

#[test]
fn issue_key_is_uppercased() {
    assert_eq!(IssueKey::parse("jb-1").unwrap().to_string(), "JB-1");
}

#[test]
fn issue_key_found_in_free_text() {
    let key = IssueKey::parse("see JB-42 for details").unwrap();
    assert_eq!(key.to_string(), "JB-42");
    let key = IssueKey::parse("fix(proj-7): typo").unwrap();
    assert_eq!(key.to_string(), "PROJ-7");
}

#[test]
fn issue_key_takes_the_leftmost_and_longest() {
    assert_eq!(IssueKey::parse("XAB-12x").unwrap().to_string(), "XAB-12");
    assert_eq!(IssueKey::parse("A-1 BC-2 DE-3").unwrap().to_string(), "BC-2");
    assert_eq!(IssueKey::parse("ABC-DE-45").unwrap().to_string(), "DE-45");
}

#[test]
fn issue_key_missing_fails() {
    for raw in ["", "abc", "J-1", "JB-", "JB1", "JB -1"] {
        assert!(matches!(
            IssueKey::parse(raw),
            Err(JiraClientError::TryFromError(_))
        ));
    }
}

#[test]
fn issue_key_uses_unicode_uppercase() {
    assert_eq!(IssueKey::parse("ıb-3").unwrap().to_string(), "IB-3");
}

#[test]
fn issue_key_found_in_uppercased_text_only() {
    assert!(IssueKey::find_in("jb-1").is_err());
    assert_eq!(IssueKey::find_in("x JB-10").unwrap().to_string(), "JB-10");
}
