//! The entities in which the cloud variant differs from the hosted one.
use crate::models::Filter;
use vstd::prelude::*;

verus! {

/// A user as the cloud variant describes it.
#[derive(Debug, Clone)]
pub struct User {
    pub active: bool,
    pub display_name: String,
    pub account_id: String,
    pub email_address: String,
}

/// Body of an assignment on the cloud variant: the user's account id.
#[derive(Debug, Clone)]
pub struct PostAssignBody {
    pub account_id: String,
}

impl From<User> for PostAssignBody {
    fn from(value: User) -> (r: PostAssignBody) {
        PostAssignBody { account_id: value.account_id }
    }
}

impl vstd::std_specs::convert::FromSpecImpl<User> for PostAssignBody {
    open spec fn obeys_from_spec() -> bool {
        true
    }

    open spec fn from_spec(v: User) -> PostAssignBody {
        PostAssignBody { account_id: v.account_id }
    }
}

/// One page of a filter search.
#[derive(Debug, Clone)]
pub struct GetFilterSearchResponseBody {
    pub max_results: u32,
    pub start_at: u32,
    pub total: u32,
    pub is_last: bool,
    pub filters: Vec<Filter>,
}

} // verus!
