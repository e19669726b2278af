//! One project and the checks it has to pass.

use super::context::{website_entry, Context, OpenSourceWebsiteDataProject};
use crate::error::{cause_string, cause_text, option_view, text_view, Report};
use crate::github::codeowners::{parse_document, wildcard_owners, CodeOwners};
use crate::github::{download_file, repo_file_name, repo_file_url, Repo, RepoFile};
use crate::order::{sort_texts, text_order};
use crate::text::{contains_substring, contains_text, copy_texts, is_substring, join, joined};
use vstd::prelude::*;

verus! {

/// What is known of a project: its name and how each check went. A check
/// that failed holds the chain of messages of its error.
pub ghost struct ProjectView {
    pub name: Seq<char>,
    pub maintainers: Result<Seq<Seq<char>>, Seq<Seq<char>>>,
    pub archive_status: Result<(), Seq<Seq<char>>>,
    pub rust_ecosystem_registration: Result<(), Seq<Seq<char>>>,
    pub website_data_inclusion: Result<(), Seq<Seq<char>>>,
}

/// A project with the outcome of each check. Every outcome starts as the
/// error that says it has not been looked at yet.
#[derive(Debug)]
pub struct Project {
    pub name: String,
    /// Projects must have a maintainer in the organisation.
    pub maintainers: Result<Vec<String>, Report>,
    /// Projects must not have an archived repository.
    pub archive_status: Result<(), Report>,
    /// Rust projects must be registered in the rust-ecosystem README.
    pub rust_ecosystem_registration: Result<(), Report>,
    /// Projects must be included in the website's listing.
    pub website_data_inclusion: Result<(), Report>,
}

/// What to do next in the search for a project's ownership file.
#[derive(Debug)]
pub enum Lookup {
    /// Fetch this file and come back with what that brought.
    Fetch(RepoFile),
    /// The search is over: this is what it brought.
    Done(Result<String, Report>),
}

/// The organisation whose projects are validated.
pub open spec fn organisation() -> Seq<char> {
    "EmbarkStudios"@
}

/// The place of the ownership file in a repository.
pub open spec fn codeowners_path() -> Seq<char> {
    ".github/CODEOWNERS"@
}

/// What follows the attempt with the number `attempt`, counted from zero,
/// which brought `fetched`: a text ends the search; after the first failure
/// the branch `master` is tried; any later failure ends the search.
pub open spec fn lookup_after(
    attempt: usize,
    fetched: Result<String, Report>,
    next: Lookup,
) -> bool {
    match next {
        Lookup::Done(outcome) => outcome == fetched && (fetched is Ok || attempt >= 1),
        Lookup::Fetch(file) => fetched is Err && attempt == 0,
    }
}

/// The error of an outcome that no check has set yet.
pub open spec fn not_yet_checked() -> Seq<Seq<char>> {
    seq!["This property has not yet been validated"@]
}

/// The view of a check's outcome.
pub open spec fn status_view(status: Result<(), Report>) -> Result<(), Seq<Seq<char>>> {
    match status {
        Ok(_) => Ok(()),
        Err(report) => Err(report@),
    }
}

/// The view of an outcome that names people.
pub open spec fn names_view(names: Result<Vec<String>, Report>) -> Result<
    Seq<Seq<char>>,
    Seq<Seq<char>>,
> {
    match names {
        Ok(list) => Ok(list.deep_view()),
        Err(report) => Err(report@),
    }
}

/// Those of `maintainers` who are neither members of the organisation nor
/// allowed as maintainers from outside, in order.
pub open spec fn outsiders(
    maintainers: Seq<Seq<char>>,
    members: Seq<Seq<char>>,
    allowed: Seq<Seq<char>>,
) -> Seq<Seq<char>>
    decreases maintainers.len(),
{
    if maintainers.len() == 0 {
        Seq::empty()
    } else {
        let earlier = outsiders(maintainers.drop_last(), members, allowed);
        let name = maintainers.last();
        if members.contains(name) || allowed.contains(name) {
            earlier
        } else {
            earlier.push(name)
        }
    }
}

/// Whether the maintainers may maintain: all of them, where each is a
/// member or allowed; else an error that names the others in ascending
/// order, with a comma and a space between them.
pub open spec fn membership_outcome(
    maintainers: Seq<Seq<char>>,
    members: Seq<Seq<char>>,
    allowed: Seq<Seq<char>>,
) -> Result<Seq<Seq<char>>, Seq<Seq<char>>> {
    let others = outsiders(maintainers, members, allowed);
    if others.len() > 0 {
        Err(
            seq![
                "Maintainers not public EmbarkStudios members: "@ + joined(
                    others.sort_by(text_order()),
                    ", "@,
                ),
            ],
        )
    } else {
        Ok(maintainers)
    }
}

/// The maintainers that an ownership file gives: the owners of `*`, where
/// the file can be read, names them, and all of them may maintain.
pub open spec fn maintainers_outcome(
    source: Seq<char>,
    members: Seq<Seq<char>>,
    allowed: Seq<Seq<char>>,
) -> Result<Seq<Seq<char>>, Seq<Seq<char>>> {
    match parse_document(source) {
        Err(e) => Err(seq!["Unable to determine maintainers"@] + e),
        Ok(document) => match wildcard_owners(document, 0) {
            None => Err(seq!["No maintainers were found for * the CODEOWNERS file"@]),
            Some(owners) => membership_outcome(owners, members, allowed),
        },
    }
}

/// The maintainers of a project, from what fetching its ownership file
/// brought.
pub open spec fn lookup_outcome(
    codeowners: Result<Seq<char>, Seq<Seq<char>>>,
    members: Seq<Seq<char>>,
    allowed: Seq<Seq<char>>,
) -> Result<Seq<Seq<char>>, Seq<Seq<char>>> {
    match codeowners {
        Err(e) => Err(seq!["Unable to determine maintainers"@] + e),
        Ok(source) => maintainers_outcome(source, members, allowed),
    }
}

/// Whether a project's repository is fit: it exists and is not archived.
pub open spec fn archive_outcome(repo: Option<Repo>) -> Result<(), Seq<Seq<char>>> {
    match repo {
        None => Err(seq!["Unable to find project in the EmbarkStudios GitHub organisation"@]),
        Some(repo) => if repo.archived {
            Err(seq!["Project has been archived on GitHub"@])
        } else {
            Ok(())
        },
    }
}

/// Whether a project is registered as it must be: one that the website
/// tags `rust` has to be named in the registration document.
pub open spec fn ecosystem_outcome(
    name: Seq<char>,
    entry: Option<OpenSourceWebsiteDataProject>,
    readme: Seq<char>,
) -> Result<(), Seq<Seq<char>>> {
    match entry {
        None => Ok(()),
        Some(project) => if project.tags.deep_view().contains("rust"@) && !is_substring(
            name,
            readme,
        ) {
            Err(seq!["Rust project not in the rust-ecosystem README"@])
        } else {
            Ok(())
        },
    }
}

/// Whether a project is in the website's listing.
pub open spec fn website_outcome(entry: Option<OpenSourceWebsiteDataProject>) -> Result<
    (),
    Seq<Seq<char>>,
> {
    match entry {
        Some(_) => Ok(()),
        None => Err(seq!["Project not included in opensource-website data.json"@]),
    }
}

/// The project called `name` after validation: every outcome is that of
/// its check, each taken by itself.
pub open spec fn validated(
    name: Seq<char>,
    codeowners: Result<Seq<char>, Seq<Seq<char>>>,
    context: Context,
    allowed: Seq<Seq<char>>,
) -> ProjectView {
    ProjectView {
        name,
        maintainers: lookup_outcome(
            codeowners,
            context.embark_github_organisation_members.deep_view(),
            allowed,
        ),
        archive_status: archive_outcome(context.repo(name)),
        rust_ecosystem_registration: ecosystem_outcome(
            name,
            website_entry(context.opensource_website_projects@, name, 0),
            context.rust_ecosystem_readme@,
        ),
        website_data_inclusion: website_outcome(
            website_entry(context.opensource_website_projects@, name, 0),
        ),
    }
}

/// The error of an outcome, if it is one.
pub open spec fn failure<T>(outcome: Result<T, Seq<Seq<char>>>) -> Seq<Seq<Seq<char>>> {
    match outcome {
        Ok(_) => Seq::empty(),
        Err(e) => seq![e],
    }
}

/// The errors of a project, in the fixed order maintainers, archive status,
/// website listing, registration.
pub open spec fn error_chains(project: ProjectView) -> Seq<Seq<Seq<char>>> {
    failure(project.maintainers) + failure(project.archive_status) + failure(
        project.website_data_inclusion,
    ) + failure(project.rust_ecosystem_registration)
}

/// The rendered errors of a project, one text for each.
pub open spec fn error_texts(chains: Seq<Seq<Seq<char>>>, indent: bool) -> Seq<Seq<char>> {
    chains.map_values(|chain: Seq<Seq<char>>| cause_text(chain, indent))
}

/// The errors of a project as one text, each rendered with its causes, with
/// a line feed between two of them; no text where there is no error.
pub open spec fn errors_text(project: ProjectView, indent: bool) -> Option<Seq<char>> {
    if error_chains(project).len() == 0 {
        None
    } else {
        Some(joined(error_texts(error_chains(project), indent), "\n"@))
    }
}

/// The outsiders are exactly the maintainers that are neither members nor
/// allowed.
pub proof fn lemma_outsiders(
    maintainers: Seq<Seq<char>>,
    members: Seq<Seq<char>>,
    allowed: Seq<Seq<char>>,
)
    ensures
        forall|name: Seq<char>|
            #![trigger outsiders(maintainers, members, allowed).contains(name)]
            #![trigger maintainers.contains(name)]
            outsiders(maintainers, members, allowed).contains(name) <==> maintainers.contains(name)
                && !members.contains(name) && !allowed.contains(name),
    decreases maintainers.len(),
{
    if maintainers.len() > 0 {
        let front = maintainers.drop_last();
        let last = maintainers.last();
        let earlier = outsiders(front, members, allowed);
        let all = outsiders(maintainers, members, allowed);
        lemma_outsiders(front, members, allowed);
        assert forall|name: Seq<char>|
            #![trigger all.contains(name)]
            #![trigger maintainers.contains(name)]
            all.contains(name) <==> maintainers.contains(name) && !members.contains(name)
                && !allowed.contains(name) by {
            if all.contains(name) {
                let at = choose|j: int| 0 <= j < all.len() && all[j] == name;
                if at < earlier.len() {
                    assert(earlier[at] == name);
                    assert(earlier.contains(name));
                    assert(front.contains(name));
                    let k = choose|k: int| 0 <= k < front.len() && front[k] == name;
                    assert(maintainers[k] == name);
                } else {
                    assert(maintainers[maintainers.len() - 1] == name);
                }
            }
            if maintainers.contains(name) && !members.contains(name) && !allowed.contains(name) {
                let k = choose|k: int| 0 <= k < maintainers.len() && maintainers[k] == name;
                if k < front.len() {
                    assert(front[k] == name);
                    assert(front.contains(name));
                    assert(earlier.contains(name));
                    let at = choose|j: int| 0 <= j < earlier.len() && earlier[j] == name;
                    assert(all[at] == name);
                } else {
                    assert(all[earlier.len() as int] == name);
                }
            }
        }
    }
}

/// The maintainers pass exactly where each of them is a member of the
/// organisation or is allowed, and then all of them are given back.
pub proof fn lemma_membership(
    maintainers: Seq<Seq<char>>,
    members: Seq<Seq<char>>,
    allowed: Seq<Seq<char>>,
)
    ensures
        membership_outcome(maintainers, members, allowed) is Ok <==> forall|k: int|
            0 <= k < maintainers.len() ==> members.contains(#[trigger] maintainers[k])
                || allowed.contains(maintainers[k]),
        membership_outcome(maintainers, members, allowed) is Ok ==> membership_outcome(
            maintainers,
            members,
            allowed,
        ) == Ok::<Seq<Seq<char>>, Seq<Seq<char>>>(maintainers),
{
    let others = outsiders(maintainers, members, allowed);
    lemma_outsiders(maintainers, members, allowed);
    if others.len() > 0 {
        assert(others.contains(others[0]));
        assert(maintainers.contains(others[0]));
        let k = choose|k: int| 0 <= k < maintainers.len() && maintainers[k] == others[0];
        assert(!(members.contains(maintainers[k]) || allowed.contains(maintainers[k])));
    } else {
        assert forall|k: int| 0 <= k < maintainers.len() implies members.contains(
            #[trigger] maintainers[k],
        ) || allowed.contains(maintainers[k]) by {
            if !(members.contains(maintainers[k]) || allowed.contains(maintainers[k])) {
                assert(maintainers.contains(maintainers[k]));
                assert(others.contains(maintainers[k]));
            }
        }
    }
}

/// Validation is idempotent. Its outcome depends on the project's name
/// alone, not on earlier outcomes, and leaves the name as it is: so two
/// validations against the same context agree in every field, and so does
/// one validation with a second one of what the first gave.
pub proof fn lemma_validate_idempotent(
    first: Project,
    second: Project,
    again: Project,
    name: Seq<char>,
    codeowners: Result<Seq<char>, Seq<Seq<char>>>,
    context: Context,
    allowed: Seq<Seq<char>>,
)
    requires
        first@ == validated(name, codeowners, context, allowed),
        second@ == validated(name, codeowners, context, allowed),
        again@ == validated(first@.name, codeowners, context, allowed),
    ensures
        first@ == second@,
        again@ == first@,
        first@.name == name,
{
}

fn unchecked<T>() -> (outcome: Result<T, Report>)
    ensures
        outcome is Err,
        outcome->Err_0@ == not_yet_checked(),
{
    Err(Report::new("This property has not yet been validated"))
}

/// Tells whether the maintainers may maintain: each has to be a member of
/// the organisation or be named in `allowed`.
pub fn check_membership(
    maintainers: Vec<String>,
    members: &Vec<String>,
    allowed: &Vec<String>,
) -> (outcome: Result<Vec<String>, Report>)
    ensures
        names_view(outcome) == membership_outcome(
            maintainers.deep_view(),
            members.deep_view(),
            allowed.deep_view(),
        ),
{
    let ghost all = maintainers.deep_view();
    let mut others: Vec<String> = Vec::new();
    let mut i: usize = 0;
    assert(others.deep_view() =~= outsiders(
        all.subrange(0, 0),
        members.deep_view(),
        allowed.deep_view(),
    ));
    while i < maintainers.len()
        invariant
            i <= maintainers.len(),
            all == maintainers.deep_view(),
            others.deep_view() == outsiders(
                all.subrange(0, i as int),
                members.deep_view(),
                allowed.deep_view(),
            ),
        decreases maintainers.len() - i,
    {
        let name = maintainers[i].as_str();
        proof {
            let seen = all.subrange(0, i + 1);
            assert(seen.drop_last() =~= all.subrange(0, i as int));
            assert(seen.last() == name@);
        }
        if !contains_text(members, name) && !contains_text(allowed, name) {
            let ghost before = others.deep_view();
            others.push(maintainers[i].clone());
            assert(others.deep_view() =~= before.push(name@));
        }
        i += 1;
    }
    assert(all.subrange(0, i as int) =~= all);
    if others.len() > 0 {
        let sorted = sort_texts(&others);
        let names = join(&sorted, ", ");
        let mut message = String::from_str("Maintainers not public EmbarkStudios members: ");
        message.append(names.as_str());
        Err(Report::new(message.as_str()))
    } else {
        Ok(maintainers)
    }
}

/// Reads the maintainers of a project from its ownership file and tells
/// whether they may maintain.
pub fn maintainers_from_codeowners(
    source: &str,
    members: &Vec<String>,
    allowed: &Vec<String>,
) -> (outcome: Result<Vec<String>, Report>)
    ensures
        names_view(outcome) == maintainers_outcome(
            source@,
            members.deep_view(),
            allowed.deep_view(),
        ),
{
    let document = match CodeOwners::new(source) {
        Ok(document) => document,
        Err(e) => {
            return Err(e.wrap_err("Unable to determine maintainers"));
        },
    };
    let owners = match document.primary_maintainers() {
        Some(owners) => owners,
        None => {
            return Err(Report::new("No maintainers were found for * the CODEOWNERS file"));
        },
    };
    let maintainers = copy_texts(owners);
    check_membership(maintainers, members, allowed)
}

impl View for Project {
    type V = ProjectView;

    open spec fn view(&self) -> ProjectView {
        ProjectView {
            name: self.name@,
            maintainers: names_view(self.maintainers),
            archive_status: status_view(self.archive_status),
            rust_ecosystem_registration: status_view(self.rust_ecosystem_registration),
            website_data_inclusion: status_view(self.website_data_inclusion),
        }
    }
}

impl Project {
    /// A project of which nothing has been checked yet.
    pub fn new(name: String) -> (project: Project)
        ensures
            project@ == (ProjectView {
                name: name@,
                maintainers: Err(not_yet_checked()),
                archive_status: Err(not_yet_checked()),
                rust_ecosystem_registration: Err(not_yet_checked()),
                website_data_inclusion: Err(not_yet_checked()),
            }),
    {
        Project {
            name,
            maintainers: unchecked(),
            archive_status: unchecked(),
            website_data_inclusion: unchecked(),
            rust_ecosystem_registration: unchecked(),
        }
    }

    /// Runs every check. `codeowners` is what fetching the project's
    /// ownership file brought. No check stands in the way of another: each
    /// outcome is set by itself, whatever the others are.
    pub fn validate(
        self,
        codeowners: Result<String, Report>,
        context: &Context,
        allowed: &Vec<String>,
    ) -> (project: Project)
        ensures
            project@ == validated(self@.name, text_view(codeowners), *context, allowed.deep_view()),
    {
        let maintainers = self.lookup_project_maintainers(codeowners, context, allowed);
        let rust_ecosystem_registration = self.check_rust_ecosystem_registration(context);
        let archive_status = self.check_archive_status(context);
        let website_data_inclusion = self.check_website_data_inclusion(context);
        Project {
            name: self.name,
            maintainers,
            archive_status,
            website_data_inclusion,
            rust_ecosystem_registration,
        }
    }

    /// The ownership file of this project as it is on `branch`.
    pub fn codeowners_file(&self, branch: &str) -> (file: RepoFile)
        ensures
            file.name@ == repo_file_name(organisation(), self.name@, codeowners_path()),
            file.url@ == repo_file_url(organisation(), self.name@, branch@, codeowners_path()),
    {
        download_file("EmbarkStudios", self.name.as_str(), branch, ".github/CODEOWNERS")
    }

    /// Where the search for the ownership file starts: on the branch `main`.
    pub fn first_lookup(&self) -> (file: RepoFile)
        ensures
            file.name@ == repo_file_name(organisation(), self.name@, codeowners_path()),
            file.url@ == repo_file_url(organisation(), self.name@, "main"@, codeowners_path()),
    {
        self.codeowners_file("main")
    }

    /// Says how the search for the ownership file goes on after the attempt
    /// with the number `attempt`, counted from zero, which brought
    /// `fetched`. There is one fallback: where the branch `main` fails, for
    /// any reason, the branch `master` is tried, and what that brings stands.
    pub fn next_lookup(&self, attempt: usize, fetched: Result<String, Report>) -> (next: Lookup)
        ensures
            lookup_after(attempt, fetched, next),
            next matches Lookup::Fetch(file) ==> {
                &&& file.name@ == repo_file_name(organisation(), self.name@, codeowners_path())
                &&& file.url@ == repo_file_url(
                    organisation(),
                    self.name@,
                    "master"@,
                    codeowners_path(),
                )
            },
    {
        if fetched.is_ok() || attempt >= 1 {
            Lookup::Done(fetched)
        } else {
            Lookup::Fetch(self.codeowners_file("master"))
        }
    }

    /// Whether any check failed.
    pub fn has_errors(&self) -> (any: bool)
        ensures
            any == (error_chains(self@).len() > 0),
            any == (self@.maintainers is Err || self@.archive_status is Err
                || self@.website_data_inclusion is Err || self@.rust_ecosystem_registration is Err),
    {
        self.errors().len() > 0
    }

    /// The errors of the checks that failed, in a fixed order: maintainers,
    /// archive status, website listing, registration.
    pub fn errors(&self) -> (reports: Vec<&Report>)
        ensures
            reports.len() == error_chains(self@).len(),
            forall|i: int| 0 <= i < reports.len() ==> (#[trigger] reports[i])@ == error_chains(self@)[i],
    {
        let mut reports: Vec<&Report> = Vec::new();
        if let Err(e) = &self.maintainers {
            reports.push(e);
        }
        if let Err(e) = &self.archive_status {
            reports.push(e);
        }
        if let Err(e) = &self.website_data_inclusion {
            reports.push(e);
        }
        if let Err(e) = &self.rust_ecosystem_registration {
            reports.push(e);
        }
        reports
    }

    /// The errors as one text, each rendered with its causes, with a line
    /// feed between two of them. There is no text where no check failed.
    pub fn errors_to_string(&self, indent: bool) -> (text: Option<String>)
        ensures
            option_view(text) == errors_text(self@, indent),
    {
        let errors = self.errors();
        if errors.len() == 0 {
            return None;
        }
        let mut texts: Vec<String> = Vec::new();
        let mut i: usize = 0;
        while i < errors.len()
            invariant
                i <= errors.len(),
                texts.len() == i,
                forall|k: int| 0 <= k < i ==> (#[trigger] texts[k])@ == cause_text(errors[k]@, indent),
            decreases errors.len() - i,
        {
            texts.push(cause_string(errors[i], indent));
            i += 1;
        }
        assert(texts.deep_view() =~= error_texts(error_chains(self@), indent));
        Some(join(&texts, "\n"))
    }

    /// The maintainers of the project: the owners that its ownership file
    /// names for `*`, where all of them may maintain. `codeowners` is what
    /// fetching that file brought.
    pub fn lookup_project_maintainers(
        &self,
        codeowners: Result<String, Report>,
        context: &Context,
        allowed: &Vec<String>,
    ) -> (outcome: Result<Vec<String>, Report>)
        ensures
            names_view(outcome) == lookup_outcome(
                text_view(codeowners),
                context.embark_github_organisation_members.deep_view(),
                allowed.deep_view(),
            ),
    {
        match codeowners {
            Err(e) => Err(e.wrap_err("Unable to determine maintainers")),
            Ok(source) => maintainers_from_codeowners(
                source.as_str(),
                &context.embark_github_organisation_members,
                allowed,
            ),
        }
    }

    /// A project that the website tags `rust` must be named in the
    /// rust-ecosystem README. Any other project passes.
    pub fn check_rust_ecosystem_registration(&self, context: &Context) -> (status: Result<
        (),
        Report,
    >)
        ensures
            status_view(status) == ecosystem_outcome(
                self@.name,
                website_entry(context.opensource_website_projects@, self@.name, 0),
                context.rust_ecosystem_readme@,
            ),
    {
        let project = match context.find_website_project(self.name.as_str()) {
            Some(project) => project,
            None => {
                return Ok(());
            },
        };
        if contains_text(&project.tags, "rust") && !contains_substring(
            context.rust_ecosystem_readme.as_str(),
            self.name.as_str(),
        ) {
            Err(Report::new("Rust project not in the rust-ecosystem README"))
        } else {
            Ok(())
        }
    }

    /// The project's repository must exist in the organisation and must not
    /// be archived.
    pub fn check_archive_status(&self, context: &Context) -> (status: Result<(), Report>)
        ensures
            status_view(status) == archive_outcome(context.repo(self@.name)),
    {
        let repo = match context.find_repo(self.name.as_str()) {
            Some(repo) => repo,
            None => {
                return Err(
                    Report::new("Unable to find project in the EmbarkStudios GitHub organisation"),
                );
            },
        };
        if repo.archived {
            Err(Report::new("Project has been archived on GitHub"))
        } else {
            Ok(())
        }
    }

    /// The project must be in the website's listing.
    pub fn check_website_data_inclusion(&self, context: &Context) -> (status: Result<(), Report>)
        ensures
            status_view(status) == website_outcome(
                website_entry(context.opensource_website_projects@, self@.name, 0),
            ),
    {
        match context.find_website_project(self.name.as_str()) {
            Some(_) => Ok(()),
            None => Err(Report::new("Project not included in opensource-website data.json")),
        }
    }
}

} // verus!
