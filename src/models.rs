//! The entities of the hosted deployment variant, the request bodies, and the
//! two validated values: `IssueKey` and `WorklogDuration`.
use crate::client::JiraClientError;
use crate::grammar::decimal_text;
use crate::grammar::duration_in_range;
use crate::grammar::duration_seconds;
use crate::grammar::find_issue_key;
use crate::grammar::first_key;
use crate::grammar::is_issue_key;
use crate::grammar::lemma_first_key_at;
use crate::grammar::lemma_key_sub;
use crate::grammar::scan_duration;
use crate::grammar::decimal_string;
use crate::outside::to_upper;
use crate::outside::upper_of;
use std::collections::BTreeMap;
use std::collections::HashMap;
use vstd::prelude::*;
use vstd::string::*;

verus! {

/// A user as the hosted variant describes it.
#[derive(Debug, Clone)]
pub struct User {
    pub active: bool,
    pub display_name: String,
    pub deleted: Option<bool>,
    pub name: String,
}

/// Body of an assignment on the hosted variant: the user's name.
#[derive(Debug, Clone)]
pub struct PostAssignBody {
    pub name: String,
}

impl From<User> for PostAssignBody {
    fn from(value: User) -> (r: PostAssignBody) {
        PostAssignBody { name: value.name }
    }
}

impl vstd::std_specs::convert::FromSpecImpl<User> for PostAssignBody {
    open spec fn obeys_from_spec() -> bool {
        true
    }

    open spec fn from_spec(v: User) -> PostAssignBody {
        PostAssignBody { name: v.name }
    }
}

/// Query of assignable users; at least one of `project` and `issue_key` must
/// be set.
#[derive(Debug, Clone)]
pub struct GetAssignableUserParams {
    pub username: Option<String>,
    pub project: Option<String>,
    pub issue_key: Option<IssueKey>,
    pub max_results: Option<u32>,
}

#[derive(Debug, Clone)]
pub struct PostCommentBody {
    pub body: String,
}

/// A worklog entry to post: exactly one of `time_spent` (a formatted
/// duration) and `time_spent_seconds` must be set.
#[derive(Debug, Clone)]
pub struct PostWorklogBody {
    pub comment: String,
    pub started: String,
    pub time_spent: Option<String>,
    pub time_spent_seconds: Option<String>,
}

/// Body of an issue search.
#[derive(Debug, Clone)]
pub struct PostIssueQueryBody {
    pub fields: Option<Vec<String>>,
    pub jql: String,
    pub max_results: u32,
    pub start_at: u32,
    /// Expand options, in camelCase; the service is case-sensitive.
    pub expand: Option<Vec<String>>,
}

/// One page of an issue search.
#[derive(Debug, Clone)]
pub struct PostIssueQueryResponseBody {
    pub expand: Option<String>,
    pub issues: Option<Vec<Issue>>,
    pub max_results: Option<u32>,
    pub start_at: Option<u32>,
    pub total: Option<u32>,
    /// Present when field names were expanded.
    pub names: Option<HashMap<String, String>>,
}

#[derive(Debug, Clone)]
pub struct Issue {
    pub expand: Option<String>,
    pub fields: IssueFields,
    pub id: Option<serde_json::Value>,
    pub key: IssueKey,
    pub self_ref: String,
    /// Present when field names were expanded.
    pub names: Option<HashMap<String, String>>,
    /// Attributes that the model does not declare, by name.
    pub remainder: BTreeMap<String, serde_json::Value>,
}

/// The fields of an issue. All are optional, since a request may ask for any
/// subset of them.
#[derive(Debug, Clone, Default)]
pub struct IssueFields {
    pub assignee: Option<User>,
    pub components: Option<Vec<Component>>,
    pub created: Option<String>,
    pub creator: Option<User>,
    pub description: Option<String>,
    pub duedate: Option<String>,
    pub labels: Option<Vec<String>>,
    pub last_viewed: Option<String>,
    pub reporter: Option<User>,
    pub resolutiondate: Option<String>,
    pub summary: Option<String>,
    pub timeestimate: Option<u32>,
    pub timeoriginalestimate: Option<u32>,
    pub timespent: Option<u32>,
    pub updated: Option<String>,
    pub workratio: Option<i32>,
    pub status: Option<Status>,
    pub subtasks: Option<Vec<SubTask>>,
    pub worklog: Option<WorkLog>,
    /// Custom fields, by field id.
    pub customfields: BTreeMap<String, serde_json::Value>,
}

#[derive(Debug, Clone)]
pub struct Field {
    pub id: String,
    pub name: String,
    pub custom: bool,
    pub orderable: bool,
    pub navigable: bool,
    pub searchable: bool,
    pub clause_names: Vec<String>,
    pub schema: Option<FieldSchema>,
}

#[derive(Debug, Clone)]
pub struct FieldSchema {
    pub custom: Option<FieldSchemaType>,
    pub custom_id: Option<u32>,
    pub items: Option<FieldSchemaType>,
    pub system: Option<FieldSchemaType>,
    pub field_type: Option<String>,
}

#[derive(Debug, Clone)]
pub enum FieldSchemaType {
    Any,
    Array,
    Attachment,
    CommentsPage,
    Component,
    Date,
    Datetime,
    Issuelinks,
    Issuetype,
    Number,
    Option,
    Priority,
    Progress,
    Project,
    Resolution,
    Securitylevel,
    Status,
    String,
    Timetracking,
    User,
    Version,
    Votes,
    Watches,
    Worklog,
    Custom(String),
}

/// A saved search, in full.
#[derive(Debug, Clone)]
pub struct Filter {
    pub self_ref: String,
    pub id: String,
    pub name: String,
    pub description: Option<String>,
    pub owner: User,
    pub jql: String,
    pub view_url: String,
    pub search_url: String,
    pub favourite: bool,
    pub shared_users: FilterSharedUsers,
}

/// A page of the users a filter is shared with.
#[derive(Debug, Clone)]
pub struct FilterSharedUsers {
    pub size: u32,
    pub max_results: u32,
    pub start_index: u32,
    pub end_index: u32,
    pub items: Vec<User>,
}

#[derive(Debug, Clone)]
pub struct Component {
    pub id: String,
    pub name: String,
    pub self_ref: String,
}

#[derive(Debug, Clone)]
pub struct Status {
    pub self_ref: String,
    pub description: String,
    pub icon_url: String,
    pub name: String,
    pub id: String,
}

#[derive(Debug, Clone)]
pub struct WorkLog {
    pub start_at: usize,
    pub max_results: usize,
    pub total: usize,
    pub work_logs: Vec<WorkLogItem>,
}

#[derive(Debug, Clone)]
pub struct WorkLogItem {
    pub self_ref: String,
    pub author: Author,
    pub update_author: Author,
    pub comment: String,
    pub created: String,
    pub updated: String,
    pub started: String,
    pub time_spent: String,
    pub time_spent_seconds: usize,
    pub id: String,
    pub issue_id: String,
}

#[derive(Debug, Clone)]
pub struct Author {
    pub self_ref: String,
    pub name: String,
    pub key: String,
    pub email_address: String,
    pub avatar_urls: AvatarUrls,
    pub display_name: String,
    pub active: bool,
    pub time_zone: String,
}

#[derive(Debug, Clone)]
pub struct AvatarUrls {
    pub avatar_48x48: String,
    pub avatar_24x24: String,
    pub avatar_16x16: String,
    pub avatar_32x32: String,
}

#[derive(Debug, Clone)]
pub struct SubTask {
    pub id: String,
    pub key: String,
    pub self_ref: String,
    pub fields: SubTaskFields,
}

#[derive(Debug, Clone)]
pub struct SubTaskFields {
    pub summary: String,
    pub status: SubTaskFieldsStatus,
    pub issue_type: SubTaskFieldsIssueType,
}

#[derive(Debug, Clone)]
pub struct SubTaskFieldsStatus {
    pub self_ref: String,
    pub description: String,
    pub icon_url: String,
    pub name: String,
    pub id: String,
    pub status_category: SubTaskFieldsStatusCategory,
}

#[derive(Debug, Clone)]
pub struct SubTaskFieldsStatusCategory {
    pub self_ref: String,
    pub id: u32,
    pub key: String,
    pub color_name: String,
    pub name: String,
}

#[derive(Debug, Clone)]
pub struct SubTaskFieldsIssueType {
    pub self_ref: String,
    pub id: String,
    pub description: String,
    pub icon_url: String,
    pub name: String,
    pub subtask: bool,
    pub avatar_id: usize,
}

#[derive(Debug, Clone)]
pub struct GetTransitionsBody {
    pub expand: String,
    pub transitions: Vec<Transition>,
}

#[derive(Debug, Clone)]
pub struct Transition {
    pub fields: HashMap<String, TransitionExpandedFields>,
    pub id: String,
    pub name: String,
}

#[derive(Debug, Clone)]
pub struct TransitionExpandedFields {
    pub required: bool,
    pub name: String,
    pub operations: Vec<String>,
    pub schema: TransitionExpandedFieldsSchema,
    pub allowed_values: Option<Vec<TransitionFieldAllowedValue>>,
    pub has_default_value: Option<bool>,
    pub default_value: Option<String>,
}

#[derive(Debug, Clone)]
pub enum TransitionFieldAllowedValue {
    Str(String),
    Object { self_ref: String, value: String, id: String },
}

#[derive(Debug, Clone)]
pub struct TransitionExpandedFieldsSchema {
    pub schema_type: String,
    pub items: Option<String>,
    pub custom: Option<String>,
    pub custom_id: Option<u32>,
    pub system: Option<String>,
}

#[derive(Debug, Clone)]
pub struct PostTransitionIdBody {
    pub id: String,
}

#[derive(Debug, Clone)]
pub struct PostTransitionFieldBody {
    pub name: String,
}

/// A transition to perform, with optional field values and updates.
#[derive(Debug, Clone)]
pub struct PostTransitionBody {
    pub transition: PostTransitionIdBody,
    pub fields: Option<PostTransitionFieldBody>,
    pub update: Option<PostTransitionUpdateField>,
}

/// Field updates by operation, each a map from field name to values.
#[derive(Debug, Clone)]
pub struct PostTransitionUpdateField {
    pub add: Option<HashMap<String, Vec<String>>>,
    pub copy: Option<HashMap<String, Vec<String>>>,
    pub edit: Option<HashMap<String, Vec<String>>>,
    pub remove: Option<HashMap<String, Vec<String>>>,
    pub set: Option<HashMap<String, Vec<String>>>,
}

/// An issue key such as `PROJ-123`: two or more uppercase letters, a hyphen
/// and digits. Only the parsers make one, so its text is always such a key.
#[derive(Debug, PartialEq, Eq)]
pub struct IssueKey(String);

impl Clone for IssueKey {
    fn clone(&self) -> (r: IssueKey)
        ensures
            r@ == self@,
    {
        proof {
            use_type_invariant(self);
        }
        IssueKey(self.0.clone())
    }
}

impl View for IssueKey {
    type V = Seq<char>;

    closed spec fn view(&self) -> Seq<char> {
        self.0@
    }
}

impl IssueKey {
    #[verifier::type_invariant]
    closed spec fn is_valid(self) -> bool {
        is_issue_key(self.0@)
    }

    /// The leftmost issue key in `raw` once it is uppercased.
    pub fn parse(raw: &str) -> (r: Result<IssueKey, JiraClientError>)
        ensures
            r is Ok <==> first_key(upper_of(raw@)) is Some,
            r is Ok ==> r->Ok_0@ == first_key(upper_of(raw@))->Some_0,
            r is Err ==> r->Err_0 is TryFromError,
    {
        let upper = to_upper(raw);
        IssueKey::find_in(upper.as_str())
    }

    /// The leftmost issue key in `text`, taken as it stands.
    pub fn find_in(text: &str) -> (r: Result<IssueKey, JiraClientError>)
        ensures
            r is Ok <==> first_key(text@) is Some,
            r is Ok ==> r->Ok_0@ == first_key(text@)->Some_0,
            r is Err ==> r->Err_0 is TryFromError,
    {
        match find_issue_key(text) {
            Some((i, e)) => {
                proof {
                    lemma_key_sub(text@, i as int);
                    lemma_first_key_at(text@, i as int);
                }
                let key = text.substring_char(i, e).to_owned();
                Ok(IssueKey(key))
            },
            None => Err(JiraClientError::TryFromError("Malformed issue key supplied".to_owned())),
        }
    }

    /// The key's text, as it is displayed; it is always a whole issue key.
    pub fn to_string(&self) -> (r: String)
        ensures
            r@ == self@,
            is_issue_key(r@),
    {
        proof {
            use_type_invariant(self);
        }
        self.0.clone()
    }
}

impl TryFrom<String> for IssueKey {
    type Error = JiraClientError;

    fn try_from(value: String) -> (r: Result<IssueKey, JiraClientError>)
        ensures
            r is Ok <==> first_key(upper_of(value@)) is Some,
            r is Ok ==> r->Ok_0@ == first_key(upper_of(value@))->Some_0,
            r is Err ==> r->Err_0 is TryFromError,
    {
        IssueKey::parse(value.as_str())
    }
}

impl From<IssueKey> for String {
    fn from(val: IssueKey) -> (r: String)
        ensures
            r@ == val@,
    {
        val.0
    }
}

impl vstd::std_specs::convert::FromSpecImpl<IssueKey> for String {
    open spec fn obeys_from_spec() -> bool {
        false
    }

    open spec fn from_spec(v: IssueKey) -> String {
        arbitrary()
    }
}

impl vstd::std_specs::convert::TryFromSpecImpl<String> for IssueKey {
    open spec fn obeys_try_from_spec() -> bool {
        false
    }

    open spec fn try_from_spec(v: String) -> Result<IssueKey, JiraClientError> {
        arbitrary()
    }
}

/// A work duration in whole seconds, as decimal text. A number with no unit
/// stands for minutes.
#[derive(Debug)]
pub struct WorklogDuration(String);

impl Clone for WorklogDuration {
    fn clone(&self) -> (r: WorklogDuration)
        ensures
            r@ == self@,
    {
        proof {
            use_type_invariant(self);
        }
        WorklogDuration(self.0.clone())
    }
}

impl View for WorklogDuration {
    type V = Seq<char>;

    closed spec fn view(&self) -> Seq<char> {
        self.0@
    }
}

/// Decimal text of a number of seconds.
pub open spec fn is_seconds_text(s: Seq<char>) -> bool {
    exists|n: nat| s == decimal_text(n)
}

impl WorklogDuration {
    #[verifier::type_invariant]
    closed spec fn is_valid(self) -> bool {
        is_seconds_text(self.0@)
    }

    /// Reads a duration such as `90`, `1.5h` or `2W`: a number, then an
    /// optional unit letter (m, h, d, w, in either case).
    pub fn parse(raw: &str) -> (r: Result<WorklogDuration, JiraClientError>)
        ensures
            r is Ok <==> duration_seconds(raw@) is Some && duration_in_range(raw@),
            r is Ok ==> r->Ok_0@ == decimal_text(duration_seconds(raw@)->Some_0),
            r is Err ==> r->Err_0 is TryFromError,
    {
        match scan_duration(raw) {
            Some(seconds) => Ok(WorklogDuration(decimal_string(seconds))),
            None => {
                if duration_seconds_present(raw) {
                    Err(JiraClientError::TryFromError("Worklog duration out of range".to_owned()))
                } else {
                    Err(JiraClientError::TryFromError("Malformed worklog duration".to_owned()))
                }
            },
        }
    }

    /// The duration's text, as it is displayed: always a number of seconds.
    pub fn to_string(&self) -> (r: String)
        ensures
            r@ == self@,
            is_seconds_text(r@),
    {
        proof {
            use_type_invariant(self);
        }
        self.0.clone()
    }
}

/// Whether `raw` starts with a number at all.
fn duration_seconds_present(raw: &str) -> (r: bool)
    ensures
        r == duration_seconds(raw@) is Some,
{
    raw.unicode_len() > 0 && {
        let c = raw.get_char(0);
        '0' <= c && c <= '9'
    }
}

impl TryFrom<String> for WorklogDuration {
    type Error = JiraClientError;

    fn try_from(value: String) -> (r: Result<WorklogDuration, JiraClientError>)
        ensures
            r is Ok <==> duration_seconds(value@) is Some && duration_in_range(value@),
            r is Ok ==> r->Ok_0@ == decimal_text(duration_seconds(value@)->Some_0),
            r is Err ==> r->Err_0 is TryFromError,
    {
        WorklogDuration::parse(value.as_str())
    }
}

impl vstd::std_specs::convert::TryFromSpecImpl<String> for WorklogDuration {
    open spec fn obeys_try_from_spec() -> bool {
        false
    }

    open spec fn try_from_spec(v: String) -> Result<WorklogDuration, JiraClientError> {
        arbitrary()
    }
}

/// Shown where a displayed issue has no summary.
pub const MISSING_SUMMARY: &'static str = "summary is None or missing from query response";

impl Issue {
    /// The issue as displayed: its key, a space, and its summary.
    pub fn to_string(&self) -> (r: String)
        ensures
            r@ == self.key@ + " "@ + match self.fields.summary {
                Some(s) => s@,
                None => MISSING_SUMMARY@,
            },
    {
        let mut r = self.key.to_string();
        r.append(" ");
        match &self.fields.summary {
            Some(s) => r.append(s.as_str()),
            None => r.append(MISSING_SUMMARY),
        }
        r
    }
}

impl Filter {
    /// The filter as displayed: its name, a colon, and its query.
    pub fn to_string(&self) -> (r: String)
        ensures
            r@ == self.name@ + ": "@ + self.jql@,
    {
        let mut r = self.name.clone();
        r.append(": ");
        r.append(self.jql.as_str());
        r
    }
}

impl Transition {
    /// The transition as displayed: its name.
    pub fn to_string(&self) -> (r: String)
        ensures
            r@ == self.name@,
    {
        self.name.clone()
    }
}

} // verus!
