//! The client: its configuration and credentials, the headers it sends, the
//! endpoints it builds, and how it classifies what comes back.
use crate::grammar::decimal_text;
use crate::grammar::escape_query_value;
use crate::grammar::has_prefix;
use crate::grammar::query_escape;
use crate::grammar::seq_starts_with;
use crate::models::GetAssignableUserParams;
use crate::models::IssueKey;
use crate::models::PostIssueQueryBody;
use crate::models::PostWorklogBody;
use crate::outside::base64_no_pad;
use crate::outside::base64_no_pad_of;
use crate::grammar::decimal_string;
use crate::outside::form_encode;
use crate::outside::form_encoded_of;
use crate::outside::url_parses;
use vstd::prelude::*;
use vstd::string::*;

verus! {

/// What can go wrong in an operation.
#[derive(Debug)]
pub enum JiraClientError {
    /// The transport failed: connection, TLS or timeout.
    HttpError(String),
    /// The service accepted the credentials but served the request anonymously.
    JiraQueryAuthenticationError(),
    /// The request violates a precondition; nothing was sent.
    JiraRequestBodyError(String),
    /// The response did not have the expected shape.
    JiraResponseDeserializeError(String),
    /// The client could not be built.
    ConfigError(String),
    /// The base URL could not be parsed.
    UrlParseError(url::ParseError),
    /// An issue key or a duration did not follow its grammar.
    TryFromError(String),
    UnknownError(String),
}

/// How the client authenticates.
#[derive(Debug, Clone, PartialEq, Eq)]
pub enum Credential {
    /// No `Authorization` header.
    Anonymous,
    /// `Authorization: Basic <base64 of login:token>`.
    ApiToken { login: String, token: String },
    /// `Authorization: Bearer <token>`.
    PersonalAccessToken(String),
}

/// What a client is built from.
#[derive(Debug, Clone)]
pub struct JiraClientConfig {
    pub credential: Credential,
    pub max_query_results: u32,
    pub url: String,
    /// Seconds allowed for each request.
    pub timeout: u64,
    pub tls_accept_invalid_certs: bool,
}

/// One request header; a sensitive value must never be logged.
#[derive(Debug, Clone)]
pub struct Header {
    pub name: String,
    pub value: String,
    pub sensitive: bool,
}

pub open spec fn header_is(h: Header, name: Seq<char>, value: Seq<char>, sensitive: bool) -> bool {
    h.name@ == name && h.value@ == value && h.sensitive == sensitive
}

/// The `Authorization` value of a credential; none for anonymous access.
pub open spec fn authorization_of(c: Credential) -> Option<Seq<char>> {
    match c {
        Credential::Anonymous => None,
        Credential::ApiToken { login, token } => Some(
            "Basic "@ + base64_no_pad_of(login@ + ":"@ + token@),
        ),
        Credential::PersonalAccessToken(t) => Some("Bearer "@ + t@),
    }
}

/// The headers of every request: JSON both ways, and the credential's
/// `Authorization`, marked sensitive, where it has one.
pub open spec fn headers_of(c: Credential, h: Seq<Header>) -> bool {
    &&& h.len() == if authorization_of(c) is Some {
        3int
    } else {
        2int
    }
    &&& header_is(h[0], "accept"@, "application/json"@, false)
    &&& header_is(h[1], "content-type"@, "application/json"@, false)
    &&& authorization_of(c) is Some ==> header_is(
        h[2],
        "authorization"@,
        authorization_of(c)->Some_0,
        true,
    )
}

/// Anonymous access sends no `Authorization` header.
pub proof fn lemma_anonymous_sends_no_authorization(h: Seq<Header>)
    requires
        headers_of(Credential::Anonymous, h),
    ensures
        forall|i: int| 0 <= i < h.len() ==> h[i].name@ != "authorization"@,
{
    reveal_strlit("accept");
    reveal_strlit("content-type");
    reveal_strlit("authorization");
    assert forall|i: int| 0 <= i < h.len() implies h[i].name@ != "authorization"@ by {
        assert(h[i].name@.len() != "authorization"@.len());
    }
}

/// A normalized base URL: it ends in `/`, and has no query or fragment.
pub open spec fn is_base_url(s: Seq<char>) -> bool {
    &&& s.len() > 0
    &&& s.last() == '/'
    &&& forall|i: int| 0 <= i < s.len() ==> #[trigger] s[i] != '?' && s[i] != '#'
}

/// Whether a serialized URL is a normalized base.
fn check_base_url(s: &str) -> (r: bool)
    ensures
        r == is_base_url(s@),
{
    let n = s.unicode_len();
    if n == 0 || s.get_char(n - 1) != '/' {
        return false;
    }
    let mut i: usize = 0;
    while i < n
        invariant
            n == s@.len(),
            i <= n,
            forall|j: int| 0 <= j < i ==> #[trigger] s@[j] != '?' && s@[j] != '#',
        decreases n - i,
    {
        let c = s.get_char(i);
        if c == '?' || c == '#' {
            return false;
        }
        i = i + 1;
    }
    true
}

/// The path of every operation below the base URL.
pub open spec fn api_url_of(base: Seq<char>, path: Seq<char>) -> Seq<char> {
    base + "rest/api/latest/"@ + path
}

pub open spec fn issue_url_of(base: Seq<char>, key: Seq<char>) -> Seq<char> {
    api_url_of(base, "issue/"@ + key)
}

/// An expand option as a query: passed through where it already starts with
/// `expand=`, prefixed with it otherwise; escaped either way.
pub open spec fn expand_query(e: Seq<char>) -> Seq<char> {
    if seq_starts_with(e, "expand="@) {
        query_escape(e)
    } else {
        "expand="@ + query_escape(e)
    }
}

/// One more query parameter, `&name=value`.
pub open spec fn param_text(name: Seq<char>, value: Seq<char>) -> Seq<char> {
    "&"@ + name + "="@ + value
}

pub open spec fn opt_param(name: Seq<char>, value: Option<Seq<char>>) -> Seq<char> {
    match value {
        Some(v) => param_text(name, v),
        None => Seq::empty(),
    }
}

/// An optional query value, escaped.
pub open spec fn opt_escaped(o: Option<String>) -> Option<Seq<char>> {
    match o {
        Some(s) => Some(query_escape(s@)),
        None => None,
    }
}

pub open spec fn opt_key(o: Option<IssueKey>) -> Option<Seq<char>> {
    match o {
        Some(k) => Some(k@),
        None => None,
    }
}

/// The two deployment variants of the service name users differently; the
/// variant is chosen by type, once, where the client is used.
pub trait SchemaVariant {
    spec fn user_lookup_param_spec() -> Seq<char>;

    spec fn user_search_param_spec() -> Seq<char>;

    /// Query parameter that names the user in a user lookup.
    fn user_lookup_param() -> (r: &'static str)
        ensures
            r@ == Self::user_lookup_param_spec(),
    ;

    /// Query parameter that filters assignable users by user.
    fn user_search_param() -> (r: &'static str)
        ensures
            r@ == Self::user_search_param_spec(),
    ;
}

/// The self-hosted variant: users are known by name.
pub struct Hosted;

/// The cloud variant: users are known by account id.
pub struct Cloud;

impl SchemaVariant for Hosted {
    open spec fn user_lookup_param_spec() -> Seq<char> {
        "username"@
    }

    open spec fn user_search_param_spec() -> Seq<char> {
        "username"@
    }

    fn user_lookup_param() -> (r: &'static str) {
        "username"
    }

    fn user_search_param() -> (r: &'static str) {
        "username"
    }
}

impl SchemaVariant for Cloud {
    open spec fn user_lookup_param_spec() -> Seq<char> {
        "accountId"@
    }

    open spec fn user_search_param_spec() -> Seq<char> {
        "query"@
    }

    fn user_lookup_param() -> (r: &'static str) {
        "accountId"
    }

    fn user_search_param() -> (r: &'static str) {
        "query"
    }
}

/// The response headers signal that the service served the request
/// anonymously although credentials were sent.
pub open spec fn signals_anonymous(login_reason: Option<&str>, username: Option<&str>) -> bool {
    ||| (login_reason is Some && login_reason->Some_0@ == "AUTHENTICATED_FAILED"@)
    ||| (username is Some && username->Some_0@ == "anonymous"@)
}

fn str_equal(a: &str, b: &str) -> (r: bool)
    ensures
        r == (a@ == b@),
{
    let x = a.to_owned();
    let y = b.to_owned();
    x == y
}

/// Reads the two diagnostic headers of a response (`X-Seraph-LoginReason`,
/// `X-AUSERNAME`) for the sign of a session downgraded to anonymous.
pub fn is_anonymous_downgrade(login_reason: Option<&str>, username: Option<&str>) -> (r: bool)
    ensures
        r == signals_anonymous(login_reason, username),
{
    let failed = match login_reason {
        Some(v) => str_equal(v, "AUTHENTICATED_FAILED"),
        None => false,
    };
    let anonymous = match username {
        Some(v) => str_equal(v, "anonymous"),
        None => false,
    };
    failed || anonymous
}

/// The query of an assignable-users search: the page size, then the issue,
/// the user and the project, each where it is given.
pub open spec fn assignable_query(p: GetAssignableUserParams, user_param: Seq<char>) -> Seq<char> {
    "maxResults="@ + decimal_text(
        match p.max_results {
            Some(m) => m as nat,
            None => 1000nat,
        },
    ) + opt_param("issueKey"@, opt_key(p.issue_key)) + opt_param(user_param, opt_escaped(p.username))
        + opt_param("project"@, opt_escaped(p.project))
}

/// Appends `&name=value` to a query.
fn push_param(q: &mut String, name: &str, value: &str)
    ensures
        final(q)@ == old(q)@ + param_text(name@, value@),
{
    q.append("&");
    q.append(name);
    q.append("=");
    q.append(value);
    assert(final(q)@ =~= old(q)@ + param_text(name@, value@));
}

/// A client of the service: its normalized base URL, the headers of every
/// request, and the page size of searches. Nothing in it changes after
/// construction.
#[derive(Debug, Clone)]
pub struct JiraAPIClient {
    /// The base URL, with path `/` and no query or fragment.
    pub url: String,
    pub(crate) anonymous_access: bool,
    pub(crate) max_results: u32,
    pub(crate) headers: Vec<Header>,
}

impl JiraAPIClient {
    /// The headers that a credential calls for.
    pub fn build_headers(credentials: &Credential) -> (r: Vec<Header>)
        ensures
            headers_of(*credentials, r@),
    {
        let mut headers: Vec<Header> = Vec::new();
        headers.push(
            Header {
                name: "accept".to_owned(),
                value: "application/json".to_owned(),
                sensitive: false,
            },
        );
        headers.push(
            Header {
                name: "content-type".to_owned(),
                value: "application/json".to_owned(),
                sensitive: false,
            },
        );
        match credentials {
            Credential::Anonymous => {},
            Credential::ApiToken { login, token } => {
                let mut pair = login.clone();
                pair.append(":");
                pair.append(token.as_str());
                let mut value = "Basic ".to_owned();
                value.append(base64_no_pad(pair.as_str()).as_str());
                headers.push(Header { name: "authorization".to_owned(), value, sensitive: true });
            },
            Credential::PersonalAccessToken(token) => {
                let mut value = "Bearer ".to_owned();
                value.append(token.as_str());
                headers.push(Header { name: "authorization".to_owned(), value, sensitive: true });
            },
        }
        headers
    }

    /// Builds a client; fails where the base URL does not parse.
    pub fn new(cfg: &JiraClientConfig) -> (r: Result<JiraAPIClient, JiraClientError>)
        ensures
            r is Err && r->Err_0 is UrlParseError <==> !url_parses(cfg.url@),
            r is Err ==> r->Err_0 is UrlParseError || r->Err_0 is ConfigError,
            r is Ok ==> is_base_url(r->Ok_0.base()),
            r is Ok ==> r->Ok_0.max_results() == cfg.max_query_results,
            r is Ok ==> r->Ok_0.is_anonymous() == (cfg.credential is Anonymous),
            r is Ok ==> headers_of(cfg.credential, r->Ok_0.headers_spec()),
    {
        match url::Url::parse(cfg.url.as_str()) {
            Ok(u) => {
                let mut u = u;
                u.set_path("/");
                u.set_query(None);
                u.set_fragment(None);
                let base = u.as_str().to_owned();
                if !check_base_url(base.as_str()) {
                    return Err(
                        JiraClientError::ConfigError(
                            "base URL cannot hold the API path".to_owned(),
                        ),
                    );
                }
                let anonymous_access = match cfg.credential {
                    Credential::Anonymous => true,
                    _ => false,
                };
                Ok(
                    JiraAPIClient {
                        url: base,
                        anonymous_access,
                        max_results: cfg.max_query_results,
                        headers: JiraAPIClient::build_headers(&cfg.credential),
                    },
                )
            },
            Err(e) => Err(JiraClientError::UrlParseError(e)),
        }
    }

    pub closed spec fn max_results(&self) -> u32 {
        self.max_results
    }

    pub closed spec fn is_anonymous(&self) -> bool {
        self.anonymous_access
    }

    /// The base URL, with path `/` and no query or fragment.
    pub closed spec fn base(&self) -> Seq<char> {
        self.url@
    }

    pub closed spec fn headers_spec(&self) -> Seq<Header> {
        self.headers@
    }

    /// The headers sent with every request.
    pub fn headers(&self) -> (r: &Vec<Header>)
        ensures
            r@ == self.headers_spec(),
    {
        &self.headers
    }

    /// The page size of searches.
    pub fn page_size(&self) -> (r: u32)
        ensures
            r == self.max_results(),
    {
        self.max_results
    }

    /// Whether the client was built with anonymous access.
    pub fn anonymous(&self) -> (r: bool)
        ensures
            r == self.is_anonymous(),
    {
        self.anonymous_access
    }

    fn api_url(&self, path: &str) -> (r: String)
        ensures
            r@ == api_url_of(self.base(), path@),
    {
        let mut url = self.url.clone();
        url.append("rest/api/latest/");
        url.append(path);
        url
    }

    fn issue_url(&self, issue_key: &IssueKey) -> (r: String)
        ensures
            r@ == issue_url_of(self.base(), issue_key@),
    {
        let mut path = "issue/".to_owned();
        path.append(issue_key.to_string().as_str());
        self.api_url(path.as_str())
    }
    /// A search of issues: where it is posted, and the body, one page of
    /// `max_results` from the start.
    pub fn query_issues_request(
        &self,
        query: &str,
        fields: Option<Vec<String>>,
        expand_options: Option<Vec<String>>,
    ) -> (r: (String, PostIssueQueryBody))
        ensures
            r.0@ == api_url_of(self.base(), "search"@),
            r.1.jql@ == query@,
            r.1.start_at == 0,
            r.1.max_results == self.max_results(),
            r.1.fields == fields,
            r.1.expand == expand_options,
    {
        let url = self.api_url("search");
        let body = PostIssueQueryBody {
            jql: query.to_owned(),
            start_at: 0,
            max_results: self.max_results,
            expand: expand_options,
            fields,
        };
        (url, body)
    }

    /// Classifies the headers of a search response: a client with credentials
    /// that was served anonymously gets an authentication error, whatever the
    /// status.
    pub fn check_query_issues_response(
        &self,
        login_reason: Option<&str>,
        username: Option<&str>,
    ) -> (r: Result<(), JiraClientError>)
        ensures
            r is Err <==> !self.is_anonymous() && signals_anonymous(login_reason, username),
            r is Err ==> r->Err_0 is JiraQueryAuthenticationError,
    {
        if !self.anonymous_access && is_anonymous_downgrade(login_reason, username) {
            Err(JiraClientError::JiraQueryAuthenticationError())
        } else {
            Ok(())
        }
    }

    /// Where a worklog is posted; the body must set exactly one of its two
    /// durations, else nothing may be sent.
    pub fn post_worklog_url(&self, issue_key: &IssueKey, body: &PostWorklogBody) -> (r: Result<
        String,
        JiraClientError,
    >)
        ensures
            r is Err <==> (body.time_spent is Some) == (body.time_spent_seconds is Some),
            r is Err ==> r->Err_0 is JiraRequestBodyError,
            r is Ok ==> r->Ok_0@ == issue_url_of(self.base(), issue_key@) + "/worklog"@,
    {
        if body.time_spent.is_some() == body.time_spent_seconds.is_some() {
            return Err(
                JiraClientError::JiraRequestBodyError(
                    "time_spent and time_spent_seconds are both set or both unset".to_owned(),
                ),
            );
        }
        let mut url = self.issue_url(issue_key);
        url.append("/worklog");
        Ok(url)
    }

    /// Where a comment is posted.
    pub fn post_comment_url(&self, issue_key: &IssueKey) -> (r: String)
        ensures
            r@ == issue_url_of(self.base(), issue_key@) + "/comment"@,
    {
        let mut url = self.issue_url(issue_key);
        url.append("/comment");
        url
    }

    /// Where an issue is read, with its expand options where there are some.
    pub fn get_issue_url(&self, issue_key: &IssueKey, expand_options: Option<&str>) -> (r: String)
        ensures
            r@ == match expand_options {
                None => issue_url_of(self.base(), issue_key@),
                Some(e) => issue_url_of(self.base(), issue_key@) + "?"@ + expand_query(e@),
            },
    {
        let mut url = self.issue_url(issue_key);
        match expand_options {
            None => {},
            Some(e) => {
                url.append("?");
                let escaped = escape_query_value(e);
                if !has_prefix(e, "expand=") {
                    url.append("expand=");
                    url.append(escaped.as_str());
                    assert(url@ =~= issue_url_of(self.base(), issue_key@) + "?"@ + expand_query(e@));
                } else {
                    url.append(escaped.as_str());
                }
            },
        }
        url
    }

    /// Where the transitions of an issue are read; their field metadata is
    /// expanded unless the caller says otherwise.
    pub fn get_transitions_url(&self, issue_key: &IssueKey, expand_options: Option<&str>) -> (r:
        String)
        ensures
            r@ == match expand_options {
                None => issue_url_of(self.base(), issue_key@)
                    + "/transitions?expand=transitions.fields"@,
                Some(e) => issue_url_of(self.base(), issue_key@) + "/transitions?"@ + expand_query(
                    e@,
                ),
            },
    {
        let mut url = self.issue_url(issue_key);
        match expand_options {
            None => {
                url.append("/transitions?expand=transitions.fields");
            },
            Some(e) => {
                url.append("/transitions?");
                let escaped = escape_query_value(e);
                if !has_prefix(e, "expand=") {
                    url.append("expand=");
                    url.append(escaped.as_str());
                    assert(url@ =~= issue_url_of(self.base(), issue_key@) + "/transitions?"@
                        + expand_query(e@));
                } else {
                    url.append(escaped.as_str());
                }
            },
        }
        url
    }

    /// Where a transition is posted.
    pub fn post_transition_url(&self, issue_key: &IssueKey) -> (r: String)
        ensures
            r@ == issue_url_of(self.base(), issue_key@) + "/transitions"@,
    {
        let mut url = self.issue_url(issue_key);
        url.append("/transitions");
        url
    }

    /// Where an assignee is put.
    pub fn post_assign_user_url(&self, issue_key: &IssueKey) -> (r: String)
        ensures
            r@ == issue_url_of(self.base(), issue_key@) + "/assignee"@,
    {
        let mut url = self.issue_url(issue_key);
        url.append("/assignee");
        url
    }

    /// Where the users assignable to an issue or a project are searched. The
    /// query must name a project or an issue, else nothing may be sent; a page
    /// holds 1000 users unless the query says otherwise.
    pub fn get_assignable_users_url<V: SchemaVariant>(&self, params: &GetAssignableUserParams) -> (r:
        Result<String, JiraClientError>)
        ensures
            r is Err <==> params.project is None && params.issue_key is None,
            r is Err ==> r->Err_0 is JiraRequestBodyError,
            r is Ok ==> r->Ok_0@ == api_url_of(self.base(), "user/assignable/search"@) + "?"@
                + assignable_query(*params, V::user_search_param_spec()),
    {
        if params.project.is_none() && params.issue_key.is_none() {
            return Err(
                JiraClientError::JiraRequestBodyError(
                    "Both project and issue_key are None, define either to query for assignable users.".to_owned(),
                ),
            );
        }
        let max: u32 = match params.max_results {
            Some(m) => m,
            None => 1000,
        };
        let mut query = "maxResults=".to_owned();
        query.append(decimal_string(max as u128).as_str());
        let ghost q0 = query@;
        match &params.issue_key {
            Some(k) => push_param(&mut query, "issueKey", k.to_string().as_str()),
            None => {},
        }
        assert(query@ =~= q0 + opt_param("issueKey"@, opt_key(params.issue_key)));
        let ghost q1 = query@;
        match &params.username {
            Some(u) => push_param(&mut query, V::user_search_param(), escape_query_value(u.as_str()).as_str()),
            None => {},
        }
        assert(query@ =~= q1 + opt_param(V::user_search_param_spec(), opt_escaped(params.username)));
        let ghost q2 = query@;
        match &params.project {
            Some(p) => push_param(&mut query, "project", escape_query_value(p.as_str()).as_str()),
            None => {},
        }
        assert(query@ =~= q2 + opt_param("project"@, opt_escaped(params.project)));
        let mut url = self.api_url("user/assignable/search");
        url.append("?");
        url.append(query.as_str());
        Ok(url)
    }

    /// Where a user is looked up, by the key that the variant uses; the value
    /// is form-encoded.
    pub fn get_user_url<V: SchemaVariant>(&self, user: &str) -> (r: String)
        ensures
            r@ == api_url_of(self.base(), "user"@) + "?"@ + V::user_lookup_param_spec() + "="@
                + form_encoded_of(user@),
    {
        let mut url = self.api_url("user");
        url.append("?");
        url.append(V::user_lookup_param());
        url.append("=");
        url.append(form_encode(user).as_str());
        url
    }

    /// Where the fields of the service are listed.
    pub fn get_fields_url(&self) -> (r: String)
        ensures
            r@ == api_url_of(self.base(), "field"@),
    {
        self.api_url("field")
    }

    /// Where a filter is read.
    pub fn get_filter_url(&self, id: &str) -> (r: String)
        ensures
            r@ == api_url_of(self.base(), "filter/"@ + id@),
    {
        let mut path = "filter/".to_owned();
        path.append(id);
        self.api_url(path.as_str())
    }

    /// Where filters are searched (cloud variant), by name where one is given;
    /// a page holds the client's page size.
    pub fn search_filters_url(&self, filter: Option<&str>) -> (r: String)
        ensures
            r@ == api_url_of(self.base(), "filter/search"@) + "?expand=jql&maxResults="@
                + decimal_text(self.max_results() as nat) + match filter {
                Some(f) => "&filterName="@ + query_escape(f@),
                None => Seq::empty(),
            },
    {
        let mut url = self.api_url("filter/search");
        url.append("?expand=jql&maxResults=");
        url.append(decimal_string(self.max_results as u128).as_str());
        let ghost u0 = url@;
        match filter {
            Some(f) => {
                url.append("&filterName=");
                url.append(escape_query_value(f).as_str());
            },
            None => {},
        }
        assert(url@ =~= u0 + match filter {
            Some(f) => "&filterName="@ + query_escape(f@),
            None => Seq::empty(),
        });
        url
    }
}

} // verus!

