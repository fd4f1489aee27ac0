//! Listing the log groups: the backend hands them out page by page, led on
//! by tokens alone.

use vstd::prelude::*;

verus! {

/// What the backend answered to one query for groups: the names on this
/// page, if it sent any, and a token where it has more.
#[derive(Debug)]
pub struct GroupsPage {
    pub groups: Option<Vec<String>>,
    pub next_token: Option<String>,
}

/// What one page comes to: the names to print, and the token of the next
/// query. Without a token the listing is over.
#[derive(Debug)]
pub struct Listing {
    pub names: Vec<String>,
    pub next_token: Option<String>,
}

/// The names that a page gives: its groups, none where it has no list.
pub open spec fn names_on(groups: Option<Vec<String>>) -> Seq<String> {
    match groups {
        Some(names) => names@,
        None => Seq::empty(),
    }
}

/// Takes the listing one page on: the names of the page are to be printed in
/// their order, and the listing goes on exactly when the page carries a
/// token, with that token, whether names came with it or not.
pub fn list_log_groups(page: GroupsPage) -> (step: Listing)
    ensures
        step.names@ == names_on(page.groups),
        step.next_token == page.next_token,
{
    let GroupsPage { groups, next_token } = page;
    let names = match groups {
        Some(names) => names,
        None => Vec::new(),
    };
    Listing { names, next_token }
}

} // verus!
