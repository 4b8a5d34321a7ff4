use jira_issue_api::cloud;
use jira_issue_api::models::Filter;
use jira_issue_api::models::FilterSharedUsers;
use jira_issue_api::models::GetAssignableUserParams;
use jira_issue_api::models::Issue;
use jira_issue_api::models::IssueFields;
use jira_issue_api::models::IssueKey;
use jira_issue_api::models::PostAssignBody;
use jira_issue_api::models::PostWorklogBody;
use jira_issue_api::models::Transition;
use jira_issue_api::models::User;
use jira_issue_api::Cloud;
use jira_issue_api::Credential;
use jira_issue_api::Hosted;
use jira_issue_api::JiraAPIClient;
use jira_issue_api::JiraClientConfig;
use jira_issue_api::JiraClientError;
use std::collections::BTreeMap;
use std::collections::HashMap;

fn config(credential: Credential, url: &str) -> JiraClientConfig {
    JiraClientConfig {
        credential,
        max_query_results: 50,
        url: url.to_string(),
        timeout: 10,
        tls_accept_invalid_certs: false,
    }
}

fn client(credential: Credential) -> JiraAPIClient {
    JiraAPIClient::new(&config(credential, "https://domain.atlassian.net")).unwrap()
}

fn key(raw: &str) -> IssueKey {
    IssueKey::parse(raw).unwrap()
}

fn pairs(c: &Credential) -> Vec<(String, String, bool)> {
    JiraAPIClient::build_headers(c)
        .into_iter()
        .map(|h| (h.name, h.value, h.sensitive))
        .collect()
}

#[test]
fn anonymous_headers_have_no_authorization() {
    let h = pairs(&Credential::Anonymous);
    assert_eq!(h.len(), 2);
    assert!(h.iter().all(|(n, _, _)| n != "authorization"));
    assert_eq!(h[0], ("accept".to_string(), "application/json".to_string(), false));
    assert_eq!(h[1], ("content-type".to_string(), "application/json".to_string(), false));
}

#[test]
fn api_token_headers_use_basic_base64_without_padding() {
    let h = pairs(&Credential::ApiToken { login: "a".to_string(), token: "b".to_string() });
    assert_eq!(h.len(), 3);
    assert_eq!(h[2], ("authorization".to_string(), "Basic YTpi".to_string(), true));
    let h = pairs(&Credential::ApiToken { login: "ab".to_string(), token: "c".to_string() });
    assert_eq!(h[2].1, "Basic YWI6Yw");
}

#[test]
fn personal_token_headers_use_bearer() {
    let h = pairs(&Credential::PersonalAccessToken("x".to_string()));
    assert_eq!(h.len(), 3);
    assert_eq!(h[2], ("authorization".to_string(), "Bearer x".to_string(), true));
}

#[test]
fn new_client_normalizes_base_url() {
    let c = JiraAPIClient::new(&config(
        Credential::Anonymous,
        "https://domain.atlassian.net/some/path?x=1#frag",
    ))
    .unwrap();
    assert_eq!(c.url, "https://domain.atlassian.net/");
    assert!(c.anonymous());
    assert_eq!(c.page_size(), 50);
    assert_eq!(c.headers().len(), 2);
}

#[test]
fn new_client_rejects_bad_url() {
    let r = JiraAPIClient::new(&config(Credential::Anonymous, "not a url"));
    assert!(matches!(r, Err(JiraClientError::UrlParseError(_))));
}

#[test]
fn new_client_with_token_is_not_anonymous() {
    let c = client(Credential::PersonalAccessToken("t".to_string()));
    assert!(!c.anonymous());
    assert_eq!(c.headers().len(), 3);
}

#[test]
fn search_request_uses_page_size() {
    let c = client(Credential::Anonymous);
    let (url, body) = c.query_issues_request("project = X", None, Some(vec!["names".to_string()]));
    assert_eq!(url, "https://domain.atlassian.net/rest/api/latest/search");
    assert_eq!(body.jql, "project = X");
    assert_eq!(body.start_at, 0);
    assert_eq!(body.max_results, 50);
    assert_eq!(body.expand, Some(vec!["names".to_string()]));
    assert_eq!(body.fields, None);
}

#[test]
fn search_downgraded_to_anonymous_fails() {
    let c = client(Credential::PersonalAccessToken("t".to_string()));
    assert!(matches!(
        c.check_query_issues_response(Some("AUTHENTICATED_FAILED"), None),
        Err(JiraClientError::JiraQueryAuthenticationError())
    ));
    assert!(matches!(
        c.check_query_issues_response(None, Some("anonymous")),
        Err(JiraClientError::JiraQueryAuthenticationError())
    ));
    assert!(c.check_query_issues_response(Some("OK"), Some("someone")).is_ok());
    assert!(c.check_query_issues_response(None, None).is_ok());
}

#[test]
fn anonymous_client_ignores_downgrade_headers() {
    let c = client(Credential::Anonymous);
    assert!(c.check_query_issues_response(Some("AUTHENTICATED_FAILED"), Some("anonymous")).is_ok());
}

fn worklog(time_spent: Option<&str>, seconds: Option<&str>) -> PostWorklogBody {
    PostWorklogBody {
        comment: "c".to_string(),
        started: "2024-01-01T10:00:00.000+0000".to_string(),
        time_spent: time_spent.map(|s| s.to_string()),
        time_spent_seconds: seconds.map(|s| s.to_string()),
    }
}

#[test]
fn worklog_needs_exactly_one_duration() {
    let c = client(Credential::Anonymous);
    let k = key("JB-1");
    for body in [worklog(Some("1h"), Some("3600")), worklog(None, None)] {
        assert!(matches!(
            c.post_worklog_url(&k, &body),
            Err(JiraClientError::JiraRequestBodyError(_))
        ));
    }
    for body in [worklog(Some("1h"), None), worklog(None, Some("3600"))] {
        assert_eq!(
            c.post_worklog_url(&k, &body).unwrap(),
            "https://domain.atlassian.net/rest/api/latest/issue/JB-1/worklog"
        );
    }
}

#[test]
fn issue_urls() {
    let c = client(Credential::Anonymous);
    let k = key("JB-1");
    let base = "https://domain.atlassian.net/rest/api/latest/issue/JB-1";
    assert_eq!(c.get_issue_url(&k, None), base);
    assert_eq!(c.get_issue_url(&k, Some("names")), format!("{base}?expand=names"));
    assert_eq!(c.get_issue_url(&k, Some("expand=names")), format!("{base}?expand=names"));
    assert_eq!(c.post_comment_url(&k), format!("{base}/comment"));
    assert_eq!(c.post_transition_url(&k), format!("{base}/transitions"));
    assert_eq!(c.post_assign_user_url(&k), format!("{base}/assignee"));
}

#[test]
fn transitions_expand_fields_by_default() {
    let c = client(Credential::Anonymous);
    let k = key("JB-1");
    let base = "https://domain.atlassian.net/rest/api/latest/issue/JB-1/transitions";
    assert_eq!(c.get_transitions_url(&k, None), format!("{base}?expand=transitions.fields"));
    assert_eq!(c.get_transitions_url(&k, Some("x")), format!("{base}?expand=x"));
    assert_eq!(c.get_transitions_url(&k, Some("expand=y")), format!("{base}?expand=y"));
}

fn params(project: Option<&str>, issue: Option<&str>, user: Option<&str>) -> GetAssignableUserParams {
    GetAssignableUserParams {
        username: user.map(|s| s.to_string()),
        project: project.map(|s| s.to_string()),
        issue_key: issue.map(key),
        max_results: None,
    }
}

#[test]
fn assignable_users_need_project_or_issue() {
    let c = client(Credential::Anonymous);
    assert!(matches!(
        c.get_assignable_users_url::<Hosted>(&params(None, None, Some("bob"))),
        Err(JiraClientError::JiraRequestBodyError(_))
    ));
    let base = "https://domain.atlassian.net/rest/api/latest/user/assignable/search";
    assert_eq!(
        c.get_assignable_users_url::<Hosted>(&params(Some("PRJ"), None, None)).unwrap(),
        format!("{base}?maxResults=1000&project=PRJ")
    );
    assert_eq!(
        c.get_assignable_users_url::<Hosted>(&params(None, Some("JB-2"), Some("bob"))).unwrap(),
        format!("{base}?maxResults=1000&issueKey=JB-2&username=bob")
    );
    let mut p = params(Some("PRJ"), Some("JB-2"), Some("bob"));
    p.max_results = Some(7);
    assert_eq!(
        c.get_assignable_users_url::<Cloud>(&p).unwrap(),
        format!("{base}?maxResults=7&issueKey=JB-2&query=bob&project=PRJ")
    );
}

#[test]
fn user_lookup_by_variant() {
    let c = client(Credential::Anonymous);
    let base = "https://domain.atlassian.net/rest/api/latest/user";
    assert_eq!(c.get_user_url::<Hosted>("bob"), format!("{base}?username=bob"));
    assert_eq!(c.get_user_url::<Cloud>("5b10a2"), format!("{base}?accountId=5b10a2"));
    assert_eq!(c.get_user_url::<Hosted>("a b&c"), format!("{base}?username=a+b%26c"));
}

#[test]
fn field_and_filter_urls() {
    let c = client(Credential::Anonymous);
    let base = "https://domain.atlassian.net/rest/api/latest/";
    assert_eq!(c.get_fields_url(), format!("{base}field"));
    assert_eq!(c.get_filter_url("10001"), format!("{base}filter/10001"));
    assert_eq!(c.search_filters_url(None), format!("{base}filter/search?expand=jql&maxResults=50"));
    assert_eq!(
        c.search_filters_url(Some("mine")),
        format!("{base}filter/search?expand=jql&maxResults=50&filterName=mine")
    );
}

#[test]
fn assign_bodies_by_variant() {
    let hosted = User {
        active: true,
        display_name: "Bob".to_string(),
        deleted: None,
        name: "bob".to_string(),
    };
    assert_eq!(PostAssignBody::from(hosted).name, "bob");
    let cloud_user = cloud::User {
        active: true,
        display_name: "Bob".to_string(),
        account_id: "5b10a2".to_string(),
        email_address: "bob@example.com".to_string(),
    };
    assert_eq!(cloud::PostAssignBody::from(cloud_user).account_id, "5b10a2");
}

#[test]
fn issue_and_transition_display() {
    let mut issue = Issue {
        expand: None,
        fields: IssueFields::default(),
        id: None,
        key: key("JB-3"),
        self_ref: "x".to_string(),
        names: None,
        remainder: BTreeMap::new(),
    };
    assert_eq!(issue.to_string(), "JB-3 summary is None or missing from query response");
    issue.fields.summary = Some("Fix it".to_string());
    assert_eq!(issue.to_string(), "JB-3 Fix it");
    let t = Transition { fields: HashMap::new(), id: "1".to_string(), name: "Done".to_string() };
    assert_eq!(t.to_string(), "Done");
}

#[test]
fn filter_display() {
    let owner = User {
        active: true,
        display_name: "Bob".to_string(),
        deleted: Some(false),
        name: "bob".to_string(),
    };
    let f = Filter {
        self_ref: "x".to_string(),
        id: "10001".to_string(),
        name: "Mine".to_string(),
        description: None,
        owner,
        jql: "assignee = currentUser()".to_string(),
        view_url: "v".to_string(),
        search_url: "s".to_string(),
        favourite: true,
        shared_users: FilterSharedUsers {
            size: 0,
            max_results: 0,
            start_index: 0,
            end_index: 0,
            items: vec![],
        },
    };
    assert_eq!(f.to_string(), "Mine: assignee = currentUser()");
}

#[test]
fn hash_in_query_values_is_escaped() {
    let c = client(Credential::Anonymous);
    let k = key("JB-1");
    let base = "https://domain.atlassian.net/rest/api/latest/";
    assert_eq!(
        c.get_issue_url(&k, Some("a#b")),
        format!("{base}issue/JB-1?expand=a%23b")
    );
    assert_eq!(
        c.get_issue_url(&k, Some("expand=a#b")),
        format!("{base}issue/JB-1?expand=a%23b")
    );
    assert_eq!(
        c.get_transitions_url(&k, Some("x#y")),
        format!("{base}issue/JB-1/transitions?expand=x%23y")
    );
    assert_eq!(
        c.get_assignable_users_url::<Hosted>(&params(Some("P#1"), None, Some("b#ob"))).unwrap(),
        format!("{base}user/assignable/search?maxResults=1000&username=b%23ob&project=P%231")
    );
    assert_eq!(
        c.search_filters_url(Some("my#filter")),
        format!("{base}filter/search?expand=jql&maxResults=50&filterName=my%23filter")
    );
}

#[test]
fn issue_key_converts_to_string() {
    let k = key("see jb-9");
    assert_eq!(String::from(k), "JB-9");
}
