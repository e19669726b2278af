//! What is known of the organisation as a whole, gathered once and shared by
//! the checks of every project.

use crate::error::Report;
use crate::github::Repo;
use crate::text::{chars_of, distinct, lemma_distinct, push_distinct, str_eq};
use vstd::prelude::*;

verus! {

/// The listing of projects that the organisation's website shows.
#[derive(Debug, Clone)]
pub struct OpenSourceWebsiteData {
    pub projects: Vec<OpenSourceWebsiteDataProject>,
}

/// One project of the website's listing.
#[derive(Debug, Clone)]
pub struct OpenSourceWebsiteDataProject {
    pub name: String,
    /// The address of the project's repository, where the listing gives one.
    pub repo: Option<String>,
    pub tags: Vec<String>,
}

/// Data about the state of the organisation in general, used by several
/// checks across all projects. It is gathered in advance, so that no check
/// has to fetch the same data again.
#[derive(Debug)]
pub struct Context {
    /// The public members of the organisation.
    pub embark_github_organisation_members: Vec<String>,
    /// The repositories of the organisation. Where two entries have one name,
    /// the later one counts.
    pub embark_github_repos: Vec<Repo>,
    /// The text of the document in which Rust projects are registered.
    pub rust_ecosystem_readme: String,
    pub opensource_website_projects: Vec<OpenSourceWebsiteDataProject>,
}

/// The repository called `name` among the first `n` of `repos`: the last of
/// them with that name.
pub open spec fn repo_named(repos: Seq<Repo>, name: Seq<char>, n: int) -> Option<Repo>
    decreases n,
{
    if n <= 0 || n > repos.len() {
        None
    } else if repos[n - 1].name@ == name {
        Some(repos[n - 1])
    } else {
        repo_named(repos, name, n - 1)
    }
}

/// The first entry of `projects` from position `i` on that is called `name`.
pub open spec fn website_entry(
    projects: Seq<OpenSourceWebsiteDataProject>,
    name: Seq<char>,
    i: int,
) -> Option<OpenSourceWebsiteDataProject>
    decreases projects.len() - i,
{
    if i < 0 || i >= projects.len() {
        None
    } else if projects[i].name@ == name {
        Some(projects[i])
    } else {
        website_entry(projects, name, i + 1)
    }
}

/// The position of the last `/` among the first `n` characters of `url`, or
/// -1 where there is none.
pub open spec fn last_slash(url: Seq<char>, n: int) -> int
    decreases n,
{
    if n <= 0 || n > url.len() {
        -1
    } else if url[n - 1] == '/' {
        n - 1
    } else {
        last_slash(url, n - 1)
    }
}

/// The name under which a project of the website is known on GitHub: what
/// follows the last `/` of its repository address, or its own name where the
/// listing gives no address or the address holds no `/`.
pub open spec fn repo_slug(project: OpenSourceWebsiteDataProject) -> Seq<char> {
    match project.repo {
        Some(url) => if last_slash(url@, url@.len() as int) < 0 {
            project.name@
        } else {
            url@.subrange(last_slash(url@, url@.len() as int) + 1, url@.len() as int)
        },
        None => project.name@,
    }
}

/// The slugs of the first `n` of `projects`, in order.
pub open spec fn website_slugs(projects: Seq<OpenSourceWebsiteDataProject>, n: int) -> Seq<
    Seq<char>,
>
    decreases n,
{
    if n <= 0 || n > projects.len() {
        Seq::empty()
    } else {
        website_slugs(projects, n - 1).push(repo_slug(projects[n - 1]))
    }
}

/// Whether the entry at `i` is the one that counts for its name: no later
/// entry has the same name.
pub open spec fn is_current(repos: Seq<Repo>, i: int) -> bool {
    forall|j: int| i < j < repos.len() ==> (#[trigger] repos[j]).name@ != repos[i].name@
}

/// The names of those among the first `n` of `repos` that count and are
/// active public source projects, in order.
pub open spec fn active_repo_names(repos: Seq<Repo>, n: int) -> Seq<Seq<char>>
    decreases n,
{
    if n <= 0 || n > repos.len() {
        Seq::empty()
    } else if is_current(repos, n - 1) && repos[n - 1].spec_is_public_active_source_project() {
        active_repo_names(repos, n - 1).push(repos[n - 1].name@)
    } else {
        active_repo_names(repos, n - 1)
    }
}

/// What comes of the four fetches: a context where all succeeded, else the
/// error of the first that failed, asked in the order members, website
/// listing, registration document, repositories.
pub open spec fn gathered(
    opensource_website_projects: Result<Vec<OpenSourceWebsiteDataProject>, Report>,
    embark_github_organisation_members: Result<Vec<String>, Report>,
    embark_github_repos: Result<Vec<Repo>, Report>,
    rust_ecosystem_readme: Result<String, Report>,
) -> Result<Context, Report> {
    match embark_github_organisation_members {
        Err(e) => Err(e),
        Ok(members) => match opensource_website_projects {
            Err(e) => Err(e),
            Ok(projects) => match rust_ecosystem_readme {
                Err(e) => Err(e),
                Ok(readme) => match embark_github_repos {
                    Err(e) => Err(e),
                    Ok(repos) => Ok(
                        Context {
                            embark_github_organisation_members: members,
                            embark_github_repos: repos,
                            rust_ecosystem_readme: readme,
                            opensource_website_projects: projects,
                        },
                    ),
                },
            },
        },
    }
}

/// The slugs of the website's projects are those of its entries.
pub proof fn lemma_website_slugs(
    projects: Seq<OpenSourceWebsiteDataProject>,
    n: int,
    name: Seq<char>,
)
    requires
        0 <= n <= projects.len(),
    ensures
        website_slugs(projects, n).contains(name) <==> exists|k: int|
            0 <= k < n && repo_slug(#[trigger] projects[k]) == name,
    decreases n,
{
    if n > 0 {
        let earlier = website_slugs(projects, n - 1);
        let all = website_slugs(projects, n);
        lemma_website_slugs(projects, n - 1, name);
        if all.contains(name) {
            let at = choose|j: int| 0 <= j < all.len() && all[j] == name;
            if at < earlier.len() {
                assert(earlier[at] == name);
                assert(earlier.contains(name));
            } else {
                assert(repo_slug(projects[n - 1]) == name);
            }
        }
        if exists|k: int| 0 <= k < n && repo_slug(#[trigger] projects[k]) == name {
            let k = choose|k: int| 0 <= k < n && repo_slug(#[trigger] projects[k]) == name;
            if k < n - 1 {
                assert(earlier.contains(name));
                let at = choose|j: int| 0 <= j < earlier.len() && earlier[j] == name;
                assert(all[at] == name);
            } else {
                assert(all[earlier.len() as int] == name);
            }
        }
    }
}

/// The names of the active repositories are those of the entries that
/// count and are active.
pub proof fn lemma_active_repo_names(repos: Seq<Repo>, n: int, name: Seq<char>)
    requires
        0 <= n <= repos.len(),
    ensures
        active_repo_names(repos, n).contains(name) <==> exists|k: int|
            0 <= k < n && (#[trigger] repos[k]).name@ == name && is_current(repos, k)
                && repos[k].spec_is_public_active_source_project(),
    decreases n,
{
    if n > 0 {
        let earlier = active_repo_names(repos, n - 1);
        let all = active_repo_names(repos, n);
        let counts = is_current(repos, n - 1) && repos[n - 1].spec_is_public_active_source_project();
        lemma_active_repo_names(repos, n - 1, name);
        if all.contains(name) {
            let at = choose|j: int| 0 <= j < all.len() && all[j] == name;
            if at < earlier.len() {
                assert(earlier[at] == name);
                assert(earlier.contains(name));
            } else {
                assert(repos[n - 1].name@ == name && counts);
            }
        }
        if exists|k: int|
            0 <= k < n && (#[trigger] repos[k]).name@ == name && is_current(repos, k)
                && repos[k].spec_is_public_active_source_project() {
            let k = choose|k: int|
                0 <= k < n && (#[trigger] repos[k]).name@ == name && is_current(repos, k)
                    && repos[k].spec_is_public_active_source_project();
            if k < n - 1 {
                assert(earlier.contains(name));
                let at = choose|j: int| 0 <= j < earlier.len() && earlier[j] == name;
                assert(all[at] == name);
            } else {
                assert(all[earlier.len() as int] == name);
            }
        }
    }
}

/// The repository that is found under a name is the entry that counts for
/// that name, and none is found exactly where no entry has the name.
pub proof fn lemma_repo_named(repos: Seq<Repo>, name: Seq<char>, n: int)
    requires
        0 <= n <= repos.len(),
    ensures
        match repo_named(repos, name, n) {
            Some(repo) => exists|k: int|
                0 <= k < n && #[trigger] repos[k] == repo && repo.name@ == name && forall|j: int|
                    k < j < n ==> (#[trigger] repos[j]).name@ != name,
            None => forall|k: int| 0 <= k < n ==> (#[trigger] repos[k]).name@ != name,
        },
    decreases n,
{
    if n > 0 {
        if repos[n - 1].name@ == name {
            assert(0 <= n - 1 < n && repos[n - 1] == repos[n - 1] && forall|j: int|
                n - 1 < j < n ==> (#[trigger] repos[j]).name@ != name);
        } else {
            lemma_repo_named(repos, name, n - 1);
            if repo_named(repos, name, n) is Some {
                let repo = repo_named(repos, name, n)->Some_0;
                let k = choose|k: int|
                    0 <= k < n - 1 && #[trigger] repos[k] == repo && repo.name@ == name
                        && forall|j: int| k < j < n - 1 ==> (#[trigger] repos[j]).name@ != name;
                assert(0 <= k < n && repos[k] == repo && forall|j: int|
                    k < j < n ==> (#[trigger] repos[j]).name@ != name);
            }
        }
    }
}

fn slug_of(project: &OpenSourceWebsiteDataProject) -> (slug: String)
    ensures
        slug@ == repo_slug(*project),
{
    match &project.repo {
        None => project.name.clone(),
        Some(url) => {
            let chars = chars_of(url.as_str());
            let mut n: usize = chars.len();
            while n > 0 && chars[n - 1] != '/'
                invariant
                    n <= chars.len(),
                    chars@ == url@,
                    last_slash(url@, n as int) == last_slash(url@, url@.len() as int),
                decreases n,
            {
                n -= 1;
            }
            if n == 0 {
                project.name.clone()
            } else {
                String::from_str(url.as_str().substring_char(n, chars.len()))
            }
        },
    }
}

impl Context {
    /// The repository of the organisation that is called `name`.
    pub open spec fn repo(&self, name: Seq<char>) -> Option<Repo> {
        repo_named(self.embark_github_repos@, name, self.embark_github_repos@.len() as int)
    }

    /// The names of all projects: those of the website's listing, by the
    /// name of their repository, then the active public source projects found
    /// on GitHub, each name once.
    pub open spec fn spec_all_projects(&self) -> Seq<Seq<char>> {
        distinct(
            website_slugs(
                self.opensource_website_projects@,
                self.opensource_website_projects@.len() as int,
            ) + active_repo_names(self.embark_github_repos@, self.embark_github_repos@.len() as int),
        )
    }

    /// A name is among all projects exactly where the website lists a
    /// project whose repository has that name, or the organisation's
    /// repository of that name is an active public source project. No name
    /// comes twice.
    pub proof fn lemma_all_projects(&self, name: Seq<char>)
        ensures
            self.spec_all_projects().no_duplicates(),
            self.spec_all_projects().contains(name) <==> {
                ||| exists|k: int|
                    0 <= k < self.opensource_website_projects@.len() && repo_slug(
                        #[trigger] self.opensource_website_projects@[k],
                    ) == name
                ||| self.repo(name) is Some
                    && self.repo(name)->Some_0.spec_is_public_active_source_project()
            },
    {
        let projects = self.opensource_website_projects@;
        let repos = self.embark_github_repos@;
        let slugs = website_slugs(projects, projects.len() as int);
        let active = active_repo_names(repos, repos.len() as int);
        lemma_distinct(slugs + active);
        lemma_website_slugs(projects, projects.len() as int, name);
        lemma_active_repo_names(repos, repos.len() as int, name);
        lemma_repo_named(repos, name, repos.len() as int);
        let listed = exists|k: int|
            0 <= k < projects.len() && repo_slug(#[trigger] projects[k]) == name;
        let hosted = self.repo(name) is Some
            && self.repo(name)->Some_0.spec_is_public_active_source_project();
        if (slugs + active).contains(name) {
            let at = choose|j: int| 0 <= j < (slugs + active).len() && (slugs + active)[j] == name;
            if at < slugs.len() {
                assert(slugs[at] == name);
                assert(slugs.contains(name));
            } else {
                assert(active[at - slugs.len()] == name);
                assert(active.contains(name));
                let k = choose|k: int|
                    0 <= k < repos.len() && (#[trigger] repos[k]).name@ == name && is_current(
                        repos,
                        k,
                    ) && repos[k].spec_is_public_active_source_project();
                if self.repo(name) is Some {
                    let found = self.repo(name)->Some_0;
                    let at = choose|m: int|
                        0 <= m < repos.len() && #[trigger] repos[m] == found && found.name@ == name
                            && forall|j: int|
                            m < j < repos.len() ==> (#[trigger] repos[j]).name@ != name;
                    if at < k {
                        assert(repos[k].name@ != name);
                    }
                    if k < at {
                        assert(repos[at].name@ != repos[k].name@);
                    }
                    assert(at == k);
                } else {
                    assert(repos[k].name@ != name);
                }
                assert(hosted);
            }
        }
        if listed {
            assert(slugs.contains(name));
            let at = choose|j: int| 0 <= j < slugs.len() && slugs[j] == name;
            assert((slugs + active)[at] == name);
        }
        if hosted {
            let found = self.repo(name)->Some_0;
            let k = choose|k: int|
                0 <= k < repos.len() && #[trigger] repos[k] == found && found.name@ == name
                    && forall|j: int| k < j < repos.len() ==> (#[trigger] repos[j]).name@ != name;
            assert(is_current(repos, k));
            assert(active.contains(name));
            let at = choose|j: int| 0 <= j < active.len() && active[j] == name;
            assert((slugs + active)[slugs.len() + at] == name);
        }
    }

    /// Puts together what the four fetches brought. There is a context only
    /// where every one of them succeeded.
    pub fn get(
        opensource_website_projects: Result<Vec<OpenSourceWebsiteDataProject>, Report>,
        embark_github_organisation_members: Result<Vec<String>, Report>,
        embark_github_repos: Result<Vec<Repo>, Report>,
        rust_ecosystem_readme: Result<String, Report>,
    ) -> (context: Result<Context, Report>)
        ensures
            context == gathered(
                opensource_website_projects,
                embark_github_organisation_members,
                embark_github_repos,
                rust_ecosystem_readme,
            ),
    {
        let embark_github_organisation_members = match embark_github_organisation_members {
            Ok(members) => members,
            Err(e) => {
                return Err(e);
            },
        };
        let opensource_website_projects = match opensource_website_projects {
            Ok(projects) => projects,
            Err(e) => {
                return Err(e);
            },
        };
        let rust_ecosystem_readme = match rust_ecosystem_readme {
            Ok(readme) => readme,
            Err(e) => {
                return Err(e);
            },
        };
        let embark_github_repos = match embark_github_repos {
            Ok(repos) => repos,
            Err(e) => {
                return Err(e);
            },
        };
        Ok(
            Context {
                embark_github_organisation_members,
                embark_github_repos,
                rust_ecosystem_readme,
                opensource_website_projects,
            },
        )
    }

    /// Looks up the repository called `name`.
    pub fn find_repo(&self, name: &str) -> (found: Option<&Repo>)
        ensures
            match found {
                Some(repo) => self.repo(name@) == Some(*repo),
                None => self.repo(name@) is None,
            },
    {
        let mut n: usize = self.embark_github_repos.len();
        while n > 0
            invariant
                n <= self.embark_github_repos.len(),
                repo_named(self.embark_github_repos@, name@, n as int) == self.repo(name@),
            decreases n,
        {
            if str_eq(self.embark_github_repos[n - 1].name.as_str(), name) {
                return Some(&self.embark_github_repos[n - 1]);
            }
            n -= 1;
        }
        None
    }

    /// Looks up the entry of the website's listing that is called `name`:
    /// the first, where there are several.
    pub fn find_website_project(&self, name: &str) -> (found: Option<&OpenSourceWebsiteDataProject>)
        ensures
            match found {
                Some(project) => website_entry(self.opensource_website_projects@, name@, 0) == Some(
                    *project,
                ),
                None => website_entry(self.opensource_website_projects@, name@, 0) is None,
            },
    {
        let mut i: usize = 0;
        while i < self.opensource_website_projects.len()
            invariant
                i <= self.opensource_website_projects.len(),
                website_entry(self.opensource_website_projects@, name@, i as int) == website_entry(
                    self.opensource_website_projects@,
                    name@,
                    0,
                ),
            decreases self.opensource_website_projects.len() - i,
        {
            if str_eq(self.opensource_website_projects[i].name.as_str(), name) {
                return Some(&self.opensource_website_projects[i]);
            }
            i += 1;
        }
        None
    }

    /// Get the names of all projects found on GitHub and in the website's
    /// listing. Both are looked at, as a project may by accident be in one
    /// but not in the other.
    pub fn all_projects(&self) -> (names: Vec<String>)
        ensures
            names.deep_view() == self.spec_all_projects(),
    {
        let ghost projects = self.opensource_website_projects@;
        let ghost repos = self.embark_github_repos@;
        let mut names: Vec<String> = Vec::new();
        let mut i: usize = 0;
        assert(names.deep_view() =~= distinct(website_slugs(projects, 0)));
        while i < self.opensource_website_projects.len()
            invariant
                i <= self.opensource_website_projects.len(),
                projects == self.opensource_website_projects@,
                names.deep_view() == distinct(website_slugs(projects, i as int)),
            decreases self.opensource_website_projects.len() - i,
        {
            let slug = slug_of(&self.opensource_website_projects[i]);
            assert(website_slugs(projects, i + 1).drop_last() =~= website_slugs(projects, i as int));
            push_distinct(&mut names, slug);
            i += 1;
        }
        let ghost slugs = website_slugs(projects, projects.len() as int);
        let mut k: usize = 0;
        assert(slugs + active_repo_names(repos, 0) =~= slugs);
        while k < self.embark_github_repos.len()
            invariant
                k <= self.embark_github_repos.len(),
                repos == self.embark_github_repos@,
                names.deep_view() == distinct(slugs + active_repo_names(repos, k as int)),
            decreases self.embark_github_repos.len() - k,
        {
            let repo = &self.embark_github_repos[k];
            let mut current = true;
            let mut j: usize = k + 1;
            while j < self.embark_github_repos.len()
                invariant
                    k < j <= self.embark_github_repos.len(),
                    repos == self.embark_github_repos@,
                    *repo == repos[k as int],
                    current == (forall|m: int| k < m < j ==> (#[trigger] repos[m]).name@ != repo.name@),
                decreases self.embark_github_repos.len() - j,
            {
                if str_eq(self.embark_github_repos[j].name.as_str(), repo.name.as_str()) {
                    current = false;
                }
                j += 1;
            }
            assert(current == is_current(repos, k as int));
            if current && repo.is_public_active_source_project() {
                let ghost before = slugs + active_repo_names(repos, k as int);
                assert((slugs + active_repo_names(repos, k + 1)) =~= before.push(repo.name@));
                assert(before.push(repo.name@).drop_last() =~= before);
                push_distinct(&mut names, repo.name.clone());
            }
            k += 1;
        }
        names
    }
}

} // verus!
