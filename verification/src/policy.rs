//! Policies for specific projects or users.

use vstd::prelude::*;

verus! {

/// Generally all maintainers of the organisation's open source projects must
/// be part of the organisation. This list names the exceptions: people who
/// built a project while they were members and continue to maintain it.
pub fn allowed_non_embark_maintainers() -> (names: Vec<String>)
    ensures
        names.deep_view() == seq!["emilk"@, "keith"@],
{
    let mut names: Vec<String> = Vec::new();
    names.push(String::from_str("emilk"));
    names.push(String::from_str("keith"));
    assert(names.deep_view() =~= seq!["emilk"@, "keith"@]);
    names
}

/// Projects that are public but not yet ready to be listed on the website.
pub fn ignored_projects() -> (names: Vec<String>)
    ensures
        names.deep_view() == seq!["server-framework"@],
{
    let mut names: Vec<String> = Vec::new();
    names.push(String::from_str("server-framework"));
    assert(names.deep_view() =~= seq!["server-framework"@]);
    names
}

} // verus!
