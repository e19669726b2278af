//! What is asked of GitHub, and how its answers are read.

pub mod codeowners;

pub use codeowners::{Assignment, CodeOwners};

use crate::error::{optional_text_view, text_view, Report};
use crate::text::{chars_of, decimal, decimal_string, is_substring, str_eq};
use vstd::prelude::*;

verus! {

/// A GitHub API client that optionally authenticates its requests.
#[derive(Debug)]
pub struct Client {
    pub github_api_token: Option<String>,
}

/// One repository of the organisation.
#[derive(Debug, Clone)]
pub struct Repo {
    pub name: String,
    pub archived: bool,
    pub private: bool,
    pub fork: bool,
}

/// A file of a repository: the name it goes by in messages, and the address
/// from which its text is fetched.
#[derive(Debug)]
pub struct RepoFile {
    pub name: String,
    pub url: String,
}

/// The error of `regex` for a pattern that cannot be built. Nothing is
/// known of what it holds.
#[verifier::external_type_specification]
#[verifier::external_body]
pub struct ExRegexError(regex::Error);

/// What the regular expression `pattern` captures in the group called
/// `group` at its first match in `haystack`: `None` where `pattern` is no
/// regular expression that can be built; `Some(None)` where there is no
/// match or the group took no part in it.
pub uninterp spec fn regex_capture(pattern: Seq<char>, haystack: Seq<char>, group: Seq<char>) -> Option<Option<Seq<char>>>;

/// Builds `pattern` with `Regex::new`, searches `haystack` with
/// `Regex::captures` and takes the text of the group called `group` with
/// `Captures::name` and `Match::as_str`. The result depends on the three
/// texts alone, so it has a name; it fails exactly where the pattern cannot
/// be built, and what is captured is a part of the haystack.
#[verifier::external_body]
fn capture_named(pattern: &str, haystack: &str, group: &str) -> (found: Result<
    Option<String>,
    regex::Error,
>)
    ensures
        match found {
            Ok(Some(text)) => regex_capture(pattern@, haystack@, group@) == Some(Some(text@))
                && is_substring(text@, haystack@),
            Ok(None) => regex_capture(pattern@, haystack@, group@) == Some(
                None::<Seq<char>>,
            ),
            Err(_) => regex_capture(pattern@, haystack@, group@) is None,
        },
{
    let expression = regex::Regex::new(pattern)?;
    Ok(
        expression.captures(haystack).and_then(|captures| captures.name(group)).map(
            |found| found.as_str().to_string(),
        ),
    )
}

/// Whether `name` is one of the meta repositories that never count as projects.
pub open spec fn is_meta_repo_name(name: Seq<char>) -> bool {
    name == "opensource-template"@ || name == ".github"@
}

/// The address that lists the public members of `organisation`.
pub open spec fn members_url(organisation: Seq<char>) -> Seq<char> {
    "https://api.github.com/orgs/"@ + organisation + "/members?per_page=100"@
}

/// The address that lists the repositories of `organisation`.
pub open spec fn repos_url(organisation: Seq<char>) -> Seq<char> {
    "https://api.github.com/orgs/"@ + organisation + "/repos?type=archived&per_page=100"@
}

/// The pattern of the link to the next page in one part of a link header:
/// the address in angle brackets, a semicolon, spaces, and `rel="next"`.
pub open spec fn next_link_pattern() -> Seq<char> {
    "<(?P<url>.+)>; *rel=\"next\""@
}

/// The address of the next page that one part of a link header names.
pub open spec fn next_link_url(content: Seq<char>) -> Option<Seq<char>> {
    match regex_capture(next_link_pattern(), content, "url"@) {
        Some(found) => found,
        None => None,
    }
}

/// Where the part of `s` that holds position `i` ends: the first comma from
/// `i` on, or the end of `s`.
pub open spec fn part_end(s: Seq<char>, i: int) -> int
    decreases s.len() - i,
{
    if 0 <= i < s.len() && s[i] != ',' {
        part_end(s, i + 1)
    } else {
        i
    }
}

/// The parts of `s` from position `i` on, which commas keep apart. There is
/// always at least one part, and a part may be empty.
pub open spec fn parts_from(s: Seq<char>, i: int) -> Seq<Seq<char>>
    decreases s.len() - i,
    via parts_from_decreases
{
    if i < 0 || i > s.len() {
        Seq::empty()
    } else if part_end(s, i) < s.len() {
        seq![s.subrange(i, part_end(s, i))] + parts_from(s, part_end(s, i) + 1)
    } else {
        seq![s.subrange(i, part_end(s, i))]
    }
}

#[via_fn]
proof fn parts_from_decreases(s: Seq<char>, i: int) {
    if 0 <= i <= s.len() {
        lemma_part_end_bounds(s, i);
    }
}

/// A part's end lies between its start and the end of the text.
pub proof fn lemma_part_end_bounds(s: Seq<char>, i: int)
    requires
        0 <= i <= s.len(),
    ensures
        i <= part_end(s, i) <= s.len(),
        forall|k: int| i <= k < part_end(s, i) ==> #[trigger] s[k] != ',',
        part_end(s, i) < s.len() ==> s[part_end(s, i)] == ',',
    decreases s.len() - i,
{
    if i < s.len() && s[i] != ',' {
        lemma_part_end_bounds(s, i + 1);
    }
}

/// The first address of a next page that the parts from position `i` on
/// name.
pub open spec fn first_next_link(parts: Seq<Seq<char>>, i: int) -> Option<Seq<char>>
    decreases parts.len() - i,
{
    if i < 0 || i >= parts.len() {
        None
    } else if next_link_url(parts[i]) is Some {
        next_link_url(parts[i])
    } else {
        first_next_link(parts, i + 1)
    }
}

/// The address of the next page that a link header names.
pub open spec fn next_page_in_header(header: Seq<char>) -> Option<Seq<char>> {
    first_next_link(parts_from(header, 0), 0)
}

/// What a link header says of the next page, where the header may be no
/// text.
pub open spec fn next_page_from_header(header: Result<Seq<char>, Seq<Seq<char>>>) -> Result<
    Option<Seq<char>>,
    Seq<Seq<char>>,
> {
    match header {
        Ok(text) => Ok(next_page_in_header(text)),
        Err(e) => Err(seq!["Header was not valid unicode"@] + e),
    }
}

/// What an answer says of the next page: none where it has no link header.
pub open spec fn next_page(link: Option<Result<Seq<char>, Seq<Seq<char>>>>) -> Result<
    Option<Seq<char>>,
    Seq<Seq<char>>,
> {
    match link {
        None => Ok(None),
        Some(header) => match next_page_from_header(header) {
            Ok(page) => Ok(page),
            Err(e) => Err(seq!["Unable to find next pagination page url in link header"@] + e),
        },
    }
}

/// The view of a link header that may be missing.
pub open spec fn link_view(link: Option<Result<String, Report>>) -> Option<
    Result<Seq<char>, Seq<Seq<char>>>,
> {
    match link {
        None => None,
        Some(header) => Some(text_view(header)),
    }
}

/// The name and the address of the file `file` of the repository `repo` of
/// `org`, as it is on `branch`.
pub open spec fn repo_file_name(org: Seq<char>, repo: Seq<char>, file: Seq<char>) -> Seq<char> {
    org + "/"@ + repo + ":"@ + file
}

/// The address from which the text of a file of a repository is fetched.
pub open spec fn repo_file_url(
    org: Seq<char>,
    repo: Seq<char>,
    branch: Seq<char>,
    file: Seq<char>,
) -> Seq<char> {
    "https://raw.githubusercontent.com/"@ + org + "/"@ + repo + "/"@ + branch + "/"@ + file
}

/// What an answer's status says of the file called `name`: it is there
/// (`true`) on a status from 200 to 299, it is absent (`false`) on 404, and
/// any other status is an error that gives the status.
pub open spec fn download_status(name: Seq<char>, status: u16) -> Result<bool, Seq<Seq<char>>> {
    if status == 404 {
        Ok(false)
    } else if 200 <= status < 300 {
        Ok(true)
    } else {
        Err(
            seq![
                "Unable to download "@ + name,
                "Expected status code 200, got "@ + decimal(status as nat),
            ],
        )
    }
}

/// What fetching the file called `name` brought, for one who needs the
/// file: that it is absent is an error too.
pub open spec fn required_file(
    name: Seq<char>,
    fetched: Result<Option<Seq<char>>, Seq<Seq<char>>>,
) -> Result<Seq<char>, Seq<Seq<char>>> {
    match fetched {
        Ok(Some(text)) => Ok(text),
        Ok(None) => Err(seq!["Unable to download "@ + name, "File not found in repo"@]),
        Err(e) => Err(e),
    }
}

impl Client {
    pub fn new(github_api_token: Option<String>) -> (client: Client)
        ensures
            client.github_api_token == github_api_token,
    {
        Client { github_api_token }
    }

    /// The value of the `authorization` header of this client's requests,
    /// where it has a token.
    pub open spec fn spec_authorization(&self) -> Option<Seq<char>> {
        match self.github_api_token {
            Some(token) => Some("token "@ + token@),
            None => None,
        }
    }

    /// The value of the `authorization` header of this client's requests,
    /// where it has a token.
    pub fn authorization(&self) -> (value: Option<String>)
        ensures
            match value {
                Some(text) => self.spec_authorization() == Some(text@),
                None => self.spec_authorization() is None,
            },
    {
        match &self.github_api_token {
            Some(token) => {
                let mut value = String::from_str("token ");
                value.append(token.as_str());
                Some(value)
            },
            None => None,
        }
    }

    /// The address that lists the public members of `organisation`, a
    /// hundred to a page.
    pub fn public_organisation_members_url(organisation: &str) -> (url: String)
        ensures
            url@ == members_url(organisation@),
    {
        let mut url = String::from_str("https://api.github.com/orgs/");
        url.append(organisation);
        url.append("/members?per_page=100");
        url
    }

    /// The address that lists the repositories of `organisation`, a hundred
    /// to a page.
    pub fn organisation_repos_url(organisation: &str) -> (url: String)
        ensures
            url@ == repos_url(organisation@),
    {
        let mut url = String::from_str("https://api.github.com/orgs/");
        url.append(organisation);
        url.append("/repos?type=archived&per_page=100");
        url
    }
}

impl Repo {
    /// A repository counts as an active public source project when it is
    /// neither archived, private, a fork, nor a meta repository.
    pub open spec fn spec_is_public_active_source_project(&self) -> bool {
        !is_meta_repo_name(self.name@) && !self.archived && !self.private && !self.fork
    }

    pub fn is_public_active_source_project(&self) -> (active: bool)
        ensures
            active == self.spec_is_public_active_source_project(),
    {
        let name = self.name.as_str();
        if str_eq(name, "opensource-template") || str_eq(name, ".github") {
            false
        } else {
            !(self.archived || self.private || self.fork)
        }
    }
}

/// Says where the file `file` of the repository `repo` of `org` is fetched
/// from, as it is on `branch`, and what it is called in messages.
pub fn download_file(org: &str, repo: &str, branch: &str, file: &str) -> (target: RepoFile)
    ensures
        target.name@ == repo_file_name(org@, repo@, file@),
        target.url@ == repo_file_url(org@, repo@, branch@, file@),
{
    let mut name = String::from_str(org);
    name.append("/");
    name.append(repo);
    name.append(":");
    name.append(file);
    let mut url = String::from_str("https://raw.githubusercontent.com/");
    url.append(org);
    url.append("/");
    url.append(repo);
    url.append("/");
    url.append(branch);
    url.append("/");
    url.append(file);
    assert(name@ =~= repo_file_name(org@, repo@, file@));
    assert(url@ =~= repo_file_url(org@, repo@, branch@, file@));
    RepoFile { name, url }
}

/// Reads the status of the answer to the request for the file called
/// `name`.
pub fn check_download_status(name: &str, status: u16) -> (present: Result<bool, Report>)
    ensures
        match present {
            Ok(there) => download_status(name@, status) == Ok::<bool, Seq<Seq<char>>>(there),
            Err(e) => download_status(name@, status) == Err::<bool, Seq<Seq<char>>>(e@),
        },
{
    if status == 404 {
        Ok(false)
    } else if 200 <= status && status < 300 {
        Ok(true)
    } else {
        let mut cause = String::from_str("Expected status code 200, got ");
        cause.append(decimal_string(status as usize).as_str());
        let mut message = String::from_str("Unable to download ");
        message.append(name);
        let report = Report::new(cause.as_str()).wrap_err(message.as_str());
        assert(report@ =~= seq![message@, cause@]);
        Err(report)
    }
}

/// Gives the text of the file called `name` from what fetching it brought,
/// for one who needs the file.
pub fn download_repo_file(name: &str, fetched: Result<Option<String>, Report>) -> (text: Result<
    String,
    Report,
>)
    ensures
        text_view(text) == required_file(name@, optional_text_view(fetched)),
{
    match fetched {
        Ok(Some(text)) => Ok(text),
        Ok(None) => {
            let mut message = String::from_str("Unable to download ");
            message.append(name);
            let report = Report::new("File not found in repo").wrap_err(message.as_str());
            assert(report@ =~= seq![message@, "File not found in repo"@]);
            Err(report)
        },
        Err(e) => Err(e),
    }
}

/// Splits `s` at its commas.
pub fn split_at_commas(s: &str) -> (parts: Vec<String>)
    ensures
        parts.deep_view() == parts_from(s@, 0),
{
    let chars = chars_of(s);
    let n = chars.len();
    let mut parts: Vec<String> = Vec::new();
    let mut start: usize = 0;
    assert(parts.deep_view() + parts_from(s@, 0) =~= parts_from(s@, 0));
    loop
        invariant_except_break
            parts_from(s@, 0) == parts.deep_view() + parts_from(s@, start as int),
        invariant
            start <= n,
            n == chars.len(),
            chars@ == s@,
        ensures
            parts.deep_view() == parts_from(s@, 0),
        decreases n - start,
    {
        let mut end = start;
        while end < n && chars[end] != ','
            invariant
                start <= end <= n,
                n == chars.len(),
                chars@ == s@,
                part_end(s@, end as int) == part_end(s@, start as int),
            decreases n - end,
        {
            end += 1;
        }
        let part = String::from_str(s.substring_char(start, end));
        let ghost before = parts.deep_view();
        parts.push(part);
        assert(parts.deep_view() =~= before.push(part@));
        if end < n {
            assert(before.push(part@) + parts_from(s@, end + 1) =~= before + parts_from(
                s@,
                start as int,
            ));
            start = end + 1;
        } else {
            assert(before.push(part@) =~= before + parts_from(s@, start as int));
            break;
        }
    }
    parts
}

/// Finds the address of the next page in one part of a link header, such as
/// `<https://example.com/members?page=2>; rel="next"`.
pub fn parse_next_link_url(content: &str) -> (url: Option<String>)
    ensures
        match url {
            Some(text) => next_link_url(content@) == Some(text@) && is_substring(text@, content@),
            None => next_link_url(content@) is None,
        },
{
    match capture_named("<(?P<url>.+)>; *rel=\"next\"", content, "url") {
        Ok(found) => found,
        Err(_) => None,
    }
}

/// Finds the address of the next page in a link header, which names
/// several links with commas between them. `header` is the header's value
/// as text, or the error of reading it as text.
pub fn next_pagination_page_from_link_header(header: Result<String, Report>) -> (page: Result<
    Option<String>,
    Report,
>)
    ensures
        optional_text_view(page) == next_page_from_header(text_view(header)),
{
    let text = match header {
        Ok(text) => text,
        Err(e) => {
            return Err(e.wrap_err("Header was not valid unicode"));
        },
    };
    let parts = split_at_commas(text.as_str());
    let mut i: usize = 0;
    while i < parts.len()
        invariant
            i <= parts.len(),
            header == Ok::<String, Report>(text),
            parts.deep_view() == parts_from(text@, 0),
            first_next_link(parts.deep_view(), i as int) == next_page_in_header(text@),
        decreases parts.len() - i,
    {
        assert(parts.deep_view()[i as int] == parts[i as int]@);
        match parse_next_link_url(parts[i].as_str()) {
            Some(url) => {
                return Ok(Some(url));
            },
            None => {},
        }
        i += 1;
    }
    Ok(None)
}

/// Says where the next page of a listing is, from the link header of the
/// page before. `link` is `None` where the answer had no such header.
pub fn next_pagination_page(link: Option<Result<String, Report>>) -> (page: Result<
    Option<String>,
    Report,
>)
    ensures
        optional_text_view(page) == next_page(link_view(link)),
{
    match link {
        None => Ok(None),
        Some(header) => match next_pagination_page_from_link_header(header) {
            Ok(page) => Ok(page),
            Err(e) => Err(e.wrap_err("Unable to find next pagination page url in link header")),
        },
    }
}

} // verus!
