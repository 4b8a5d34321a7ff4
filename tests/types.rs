use jira_issue_api::models::IssueKey;
use jira_issue_api::models::WorklogDuration;
use jira_issue_api::JiraClientError;

#[test]
fn types_worklog_tryfrom_all_units_returns_duration_in_seconds() -> Result<(), JiraClientError> {
    let worklogs = vec![
        (60, "1"),
        (60, "1m"),
        (60, "1M"),
        (3600, "1h"),
        (3600, "1H"),
        (3600 * 8, "1d"),
        (3600 * 8, "1D"),
        (3600 * 8 * 5, "1w"),
        (3600 * 8 * 5, "1W"),
    ];

    for (expected_seconds, input) in worklogs {
        let seconds = WorklogDuration::try_from(input.to_string())?.to_string();
        assert_eq!(expected_seconds.to_string(), seconds);
    }
    Ok(())
}

#[test]
fn types_worklog_tryfrom_lowercase_unit() -> Result<(), JiraClientError> {
    let wl = WorklogDuration::try_from(String::from("1h"))?;
    assert_eq!(String::from("3600"), wl.to_string());
    Ok(())
}

#[test]
fn types_worklog_tryfrom_uppercase_unit() -> Result<(), JiraClientError> {
    let wl = WorklogDuration::try_from(String::from("2H"))?;
    assert_eq!(String::from("7200"), wl.to_string());
    Ok(())
}

#[test]
fn types_worklog_tostring() -> Result<(), JiraClientError> {
    let wl = WorklogDuration::try_from(String::from("1h"))?;
    let expected = String::from("3600");
    assert_eq!(expected, wl.to_string());
    Ok(())
}

#[test]
fn types_issuekey_tryfrom_uppercase_id() -> Result<(), JiraClientError> {
    let key = String::from("JB-1");
    let issue = IssueKey::try_from(key.clone());
    assert!(issue.is_ok());
    assert_eq!(key, issue?.to_string());
    Ok(())
}

#[test]
fn types_issuekey_tryfrom_lowercase_id() {
    let issue = IssueKey::try_from(String::from("jb-1"));
    assert!(issue.is_ok());
}

#[test]
fn types_issuekey_tostring() {
    let key = String::from("JB-1");
    let issue = IssueKey::try_from(key.clone()).unwrap();
    assert_eq!(key, issue.to_string());
}
