use embark_oss::error::Report;
use embark_oss::github::Repo;
use embark_oss::slack::Block;
use embark_oss::validate::project::{check_membership, maintainers_from_codeowners, Lookup};
use embark_oss::validate::{
    all, one, print_status, slack_notification_blocks, slack_project_block, Context,
    OpenSourceWebsiteDataProject, Project,
};

fn strings(items: &[&str]) -> Vec<String> {
    items.iter().map(|item| item.to_string()).collect()
}

fn make_context() -> Context {
    Context {
        embark_github_organisation_members: Vec::new(),
        embark_github_repos: Vec::new(),
        rust_ecosystem_readme: "Readme!".to_string(),
        opensource_website_projects: Vec::new(),
    }
}

fn make_website_project(name: &str) -> OpenSourceWebsiteDataProject {
    OpenSourceWebsiteDataProject {
        name: name.to_string(),
        repo: None,
        tags: Vec::new(),
    }
}

fn make_repo(name: &str, archived: bool) -> Repo {
    Repo {
        name: name.to_string(),
        archived,
        private: false,
        fork: false,
    }
}

fn messages(project: &Project) -> Vec<String> {
    project
        .errors()
        .iter()
        .map(|error| error.message.clone())
        .collect()
}

#[test]
fn check_website_data_inclusion_ok() {
    let name = "some-project";
    let project = Project::new(name.to_string());
    let mut context = make_context();

    // OK if the project is in the website data.json
    context
        .opensource_website_projects
        .push(make_website_project(name));
    assert!(project.check_website_data_inclusion(&context).is_ok())
}

#[test]
fn check_website_data_inclusion_ko() {
    let name = "some-project";
    let project = Project::new(name.to_string());
    let context = make_context();

    // Error if the project is not in the website data.json
    assert!(project.check_website_data_inclusion(&context).is_err());
}

#[test]
fn new_project_has_nothing_checked() {
    let project = Project::new("foo".to_string());
    assert!(project.has_errors());
    assert_eq!(
        messages(&project),
        vec!["This property has not yet been validated".to_string(); 4]
    );
}

#[test]
fn membership_names_those_who_are_no_members() {
    let error = check_membership(strings(&["a", "b"]), &strings(&["a"]), &Vec::new()).unwrap_err();
    assert_eq!(
        error.message,
        "Maintainers not public EmbarkStudios members: b"
    );
    assert!(error.causes.is_empty());
}

#[test]
fn membership_passes_those_who_are_allowed() {
    let maintainers =
        check_membership(strings(&["a", "b"]), &strings(&["a"]), &strings(&["b"])).unwrap();
    assert_eq!(maintainers, strings(&["a", "b"]));
}

#[test]
fn membership_names_outsiders_in_order() {
    let error = check_membership(
        strings(&["zoe", "a", "mallory", "bob", "keith"]),
        &strings(&["a"]),
        &strings(&["keith"]),
    )
    .unwrap_err();
    assert_eq!(
        error.message,
        "Maintainers not public EmbarkStudios members: bob, mallory, zoe"
    );
}

#[test]
fn maintainers_are_the_owners_of_the_wildcard() {
    let members = strings(&["a", "b", "c"]);
    let maintainers =
        maintainers_from_codeowners("docs @c\n* @a @b\n* @c\n", &members, &Vec::new()).unwrap();
    assert_eq!(maintainers, strings(&["a", "b"]));
}

#[test]
fn maintainers_need_a_wildcard() {
    let members = strings(&["a"]);
    let error = maintainers_from_codeowners("docs @a\n", &members, &Vec::new()).unwrap_err();
    assert_eq!(
        error.message,
        "No maintainers were found for * the CODEOWNERS file"
    );
    assert!(error.causes.is_empty());
}

#[test]
fn maintainers_need_a_file_that_parses() {
    let members = strings(&["a"]);
    let error = maintainers_from_codeowners("* @a b\n", &members, &Vec::new()).unwrap_err();
    assert_eq!(error.message, "Unable to determine maintainers");
    assert_eq!(
        error.causes,
        strings(&[
            "Unable to parse code owners for *",
            "Code owner `b` does not start with an @"
        ])
    );

    let error = maintainers_from_codeowners("*\n", &members, &Vec::new()).unwrap_err();
    assert_eq!(
        error.causes,
        strings(&["File pattern `*` has no owners"])
    );
}

#[test]
fn lookup_wraps_the_error_of_the_fetch() {
    let project = Project::new("foo".to_string());
    let context = make_context();
    let fetched = Err(Report::new("File not found in repo")
        .wrap_err("Unable to download EmbarkStudios/foo:.github/CODEOWNERS"));
    let error = project
        .lookup_project_maintainers(fetched, &context, &Vec::new())
        .unwrap_err();
    assert_eq!(error.message, "Unable to determine maintainers");
    assert_eq!(
        error.causes,
        strings(&[
            "Unable to download EmbarkStudios/foo:.github/CODEOWNERS",
            "File not found in repo"
        ])
    );
}

#[test]
fn archive_check() {
    let project = Project::new("foo".to_string());
    let mut context = make_context();

    let error = project.check_archive_status(&context).unwrap_err();
    assert_eq!(
        error.message,
        "Unable to find project in the EmbarkStudios GitHub organisation"
    );

    context.embark_github_repos.push(make_repo("foo", false));
    assert!(project.check_archive_status(&context).is_ok());

    context.embark_github_repos.clear();
    context.embark_github_repos.push(make_repo("foo", true));
    let error = project.check_archive_status(&context).unwrap_err();
    assert_eq!(error.message, "Project has been archived on GitHub");
}

#[test]
fn archive_check_takes_the_later_of_two_entries() {
    let project = Project::new("foo".to_string());
    let mut context = make_context();
    context.embark_github_repos.push(make_repo("foo", true));
    context.embark_github_repos.push(make_repo("bar", true));
    context.embark_github_repos.push(make_repo("foo", false));
    assert!(project.check_archive_status(&context).is_ok());
    assert!(!context.find_repo("foo").unwrap().archived);
    assert!(context.find_repo("baz").is_none());
}

#[test]
fn ecosystem_check() {
    let project = Project::new("bar".to_string());
    let mut context = make_context();

    // A project that the website does not list passes
    assert!(project.check_rust_ecosystem_registration(&context).is_ok());

    // So does one without the tag, whatever the document holds
    let mut listed = make_website_project("bar");
    listed.tags = strings(&["go", "rustic"]);
    context.opensource_website_projects.push(listed);
    assert!(project.check_rust_ecosystem_registration(&context).is_ok());

    // A Rust project must be named in the document
    context.opensource_website_projects[0].tags = strings(&["go", "rust"]);
    let error = project
        .check_rust_ecosystem_registration(&context)
        .unwrap_err();
    assert_eq!(
        error.message,
        "Rust project not in the rust-ecosystem README"
    );

    context.rust_ecosystem_readme = "* [bar](https://example.com/bar)".to_string();
    assert!(project.check_rust_ecosystem_registration(&context).is_ok());
}

#[test]
fn ecosystem_check_reads_the_first_entry_of_a_name() {
    let project = Project::new("bar".to_string());
    let mut context = make_context();
    context
        .opensource_website_projects
        .push(make_website_project("bar"));
    let mut second = make_website_project("bar");
    second.tags = strings(&["rust"]);
    context.opensource_website_projects.push(second);
    assert!(project.check_rust_ecosystem_registration(&context).is_ok());
}

fn foo_context() -> Context {
    let mut context = make_context();
    context.embark_github_organisation_members = strings(&["alice"]);
    context.embark_github_repos.push(make_repo("foo", false));
    context
        .opensource_website_projects
        .push(make_website_project("foo"));
    context
}

fn bar_context() -> Context {
    let mut context = make_context();
    context.embark_github_organisation_members = strings(&["alice"]);
    context.embark_github_repos.push(make_repo("bar", true));
    let mut listed = make_website_project("bar");
    listed.tags = strings(&["rust"]);
    context.opensource_website_projects.push(listed);
    context
}

#[test]
fn project_that_conforms() {
    let context = foo_context();
    let project = Project::new("foo".to_string()).validate(
        Ok("* @alice".to_string()),
        &context,
        &Vec::new(),
    );
    assert!(!project.has_errors());
    assert!(project.errors().is_empty());
    assert_eq!(project.errors_to_string(true), None);
    assert_eq!(project.name, "foo");
    assert_eq!(project.maintainers.as_ref().unwrap(), &strings(&["alice"]));
    assert_eq!(print_status(&project), "✔️ foo (alice)\n");
    assert!(slack_project_block(&project).is_none());
}

#[test]
fn project_with_three_failures() {
    let context = bar_context();
    let project = Project::new("bar".to_string()).validate(
        Ok("* @mallory".to_string()),
        &context,
        &Vec::new(),
    );
    assert!(project.has_errors());
    assert_eq!(
        messages(&project),
        strings(&[
            "Maintainers not public EmbarkStudios members: mallory",
            "Project has been archived on GitHub",
            "Rust project not in the rust-ecosystem README",
        ])
    );
    assert_eq!(
        project.errors_to_string(false).unwrap(),
        "Maintainers not public EmbarkStudios members: mallory\n\nProject has been archived on GitHub\n\nRust project not in the rust-ecosystem README\n"
    );
    assert_eq!(
        print_status(&project),
        "❌ bar\n    Maintainers not public EmbarkStudios members: mallory\n\n    Project has been archived on GitHub\n\n    Rust project not in the rust-ecosystem README\n\n"
    );
}

#[test]
fn errors_come_in_a_fixed_order() {
    let context = make_context();
    let project = Project::new("nowhere".to_string()).validate(
        Err(Report::new("no answer")),
        &context,
        &Vec::new(),
    );
    assert_eq!(
        messages(&project),
        strings(&[
            "Unable to determine maintainers",
            "Unable to find project in the EmbarkStudios GitHub organisation",
            "Project not included in opensource-website data.json",
        ])
    );
    assert_eq!(
        project.errors_to_string(true).unwrap(),
        "    Unable to determine maintainers\n    Caused by:\n        0: no answer\n\n    Unable to find project in the EmbarkStudios GitHub organisation\n\n    Project not included in opensource-website data.json\n"
    );
}

#[test]
fn validating_twice_gives_the_same() {
    let context = bar_context();
    let allowed = strings(&["keith"]);
    let source = "* @mallory @keith @alice";
    let once = Project::new("bar".to_string()).validate(Ok(source.to_string()), &context, &allowed);
    let other =
        Project::new("bar".to_string()).validate(Ok(source.to_string()), &context, &allowed);
    let twice = Project::new("bar".to_string())
        .validate(Ok(source.to_string()), &context, &allowed)
        .validate(Ok(source.to_string()), &context, &allowed);
    for project in [&other, &twice] {
        assert_eq!(project.name, once.name);
        assert_eq!(
            project.maintainers.as_ref().ok(),
            once.maintainers.as_ref().ok()
        );
        assert_eq!(
            project.errors_to_string(true),
            once.errors_to_string(true)
        );
        assert_eq!(
            project.errors_to_string(false),
            once.errors_to_string(false)
        );
    }
}

#[test]
fn lookup_falls_back_once() {
    let project = Project::new("foo".to_string());
    let file = project.first_lookup();
    assert_eq!(file.name, "EmbarkStudios/foo:.github/CODEOWNERS");
    assert_eq!(
        file.url,
        "https://raw.githubusercontent.com/EmbarkStudios/foo/main/.github/CODEOWNERS"
    );

    match project.next_lookup(0, Ok("* @a".to_string())) {
        Lookup::Done(Ok(text)) => assert_eq!(text, "* @a"),
        other => panic!("{:?}", other),
    }
    match project.next_lookup(0, Err(Report::new("no answer"))) {
        Lookup::Fetch(file) => assert_eq!(
            file.url,
            "https://raw.githubusercontent.com/EmbarkStudios/foo/master/.github/CODEOWNERS"
        ),
        other => panic!("{:?}", other),
    }
    match project.next_lookup(1, Err(Report::new("no answer"))) {
        Lookup::Done(Err(error)) => assert_eq!(error.message, "no answer"),
        other => panic!("{:?}", other),
    }
    match project.next_lookup(1, Ok("* @b".to_string())) {
        Lookup::Done(Ok(text)) => assert_eq!(text, "* @b"),
        other => panic!("{:?}", other),
    }
}

#[test]
fn context_needs_every_fetch() {
    let context = Context::get(
        Ok(vec![make_website_project("foo")]),
        Ok(strings(&["alice"])),
        Ok(vec![make_repo("foo", false)]),
        Ok("Readme!".to_string()),
    )
    .unwrap();
    assert_eq!(context.embark_github_organisation_members, strings(&["alice"]));
    assert_eq!(context.embark_github_repos.len(), 1);
    assert_eq!(context.rust_ecosystem_readme, "Readme!");
    assert_eq!(context.opensource_website_projects.len(), 1);

    let error = Context::get(
        Err(Report::new("website")),
        Ok(Vec::new()),
        Err(Report::new("repos")),
        Err(Report::new("readme")),
    )
    .unwrap_err();
    assert_eq!(error.message, "website");

    let error = Context::get(
        Err(Report::new("website")),
        Err(Report::new("members")),
        Err(Report::new("repos")),
        Err(Report::new("readme")),
    )
    .unwrap_err();
    assert_eq!(error.message, "members");

    let error = Context::get(
        Ok(Vec::new()),
        Ok(Vec::new()),
        Err(Report::new("repos")),
        Err(Report::new("readme")),
    )
    .unwrap_err();
    assert_eq!(error.message, "readme");

    let error = Context::get(
        Ok(Vec::new()),
        Ok(Vec::new()),
        Err(Report::new("repos")),
        Ok(String::new()),
    )
    .unwrap_err();
    assert_eq!(error.message, "repos");
}

#[test]
fn all_projects_of_website_and_github() {
    let mut context = make_context();
    let mut with_repo = make_website_project("Texture Synthesis");
    with_repo.repo = Some("https://github.com/EmbarkStudios/texture-synthesis".to_string());
    context.opensource_website_projects.push(with_repo);
    context
        .opensource_website_projects
        .push(make_website_project("puffin"));
    let mut odd = make_website_project("odd");
    odd.repo = Some("no-slash".to_string());
    context.opensource_website_projects.push(odd);
    let mut trailing = make_website_project("trailing");
    trailing.repo = Some("https://example.com/".to_string());
    context.opensource_website_projects.push(trailing);

    context.embark_github_repos.push(make_repo("puffin", false));
    context.embark_github_repos.push(make_repo("old", true));
    context.embark_github_repos.push(make_repo("rust-gpu", false));
    context.embark_github_repos.push(make_repo(".github", false));
    context.embark_github_repos.push(make_repo("twice", false));
    context.embark_github_repos.push(make_repo("twice", true));
    let mut fork = make_repo("fork", false);
    fork.fork = true;
    context.embark_github_repos.push(fork);

    assert_eq!(
        context.all_projects(),
        strings(&["texture-synthesis", "puffin", "odd", "", "rust-gpu"])
    );
}

#[test]
fn slack_blocks() {
    let bad = Project::new("bar".to_string()).validate(
        Ok("* @mallory".to_string()),
        &bar_context(),
        &Vec::new(),
    );
    let good = Project::new("foo".to_string()).validate(
        Ok("* @alice".to_string()),
        &foo_context(),
        &Vec::new(),
    );
    match slack_project_block(&bad) {
        Some(Block::Text(text)) => assert_eq!(
            text,
            ":red_circle: *<https://github.com/EmbarkStudios/bar|bar>*\n```Maintainers not public EmbarkStudios members: mallory\n\nProject has been archived on GitHub\n\nRust project not in the rust-ecosystem README\n```"
        ),
        other => panic!("{:?}", other),
    }

    let blocks = slack_notification_blocks(&vec![good, bad]);
    assert_eq!(blocks.len(), 5);
    match &blocks[0] {
        Block::Text(text) => assert_eq!(
            text,
            "The following Embark open source projects have been found to have maintainership issues."
        ),
        other => panic!("{:?}", other),
    }
    assert!(matches!(blocks[1], Block::Divider));
    match &blocks[2] {
        Block::Text(text) => assert!(text.starts_with(":red_circle: *<https://github.com/EmbarkStudios/bar|bar>*")),
        other => panic!("{:?}", other),
    }
    assert!(matches!(blocks[3], Block::Divider));
    match &blocks[4] {
        Block::Text(text) => assert_eq!(
            text,
            "This message was generated by the <https://github.com/EmbarkStudios/opensource/tree/main/tools/embark-oss|embark-oss tool> on GitHub Actions."
        ),
        other => panic!("{:?}", other),
    }
}

#[test]
fn one_project() {
    let (line, result) = one(
        "foo".to_string(),
        Ok("* @alice".to_string()),
        &foo_context(),
        &Vec::new(),
    );
    assert_eq!(line, "✔️ foo (alice)\n");
    assert!(result.is_ok());

    let (line, result) = one(
        "foo".to_string(),
        Ok("* @bob".to_string()),
        &foo_context(),
        &Vec::new(),
    );
    assert_eq!(
        line,
        "❌ foo\n    Maintainers not public EmbarkStudios members: bob\n\n"
    );
    assert_eq!(
        result.unwrap_err().message,
        "The project does not conform to our guidelines"
    );
}

#[test]
fn all_projects_summed_up() {
    let good = || {
        Project::new("foo".to_string()).validate(
            Ok("* @alice".to_string()),
            &foo_context(),
            &Vec::new(),
        )
    };
    let bad = || {
        Project::new("bar".to_string()).validate(
            Ok("* @mallory".to_string()),
            &bar_context(),
            &Vec::new(),
        )
    };

    let summary = all(&Vec::new(), true);
    assert!(summary.result.is_ok());
    assert!(summary.notification.is_none());

    let summary = all(&vec![good(), good()], true);
    assert!(summary.result.is_ok());
    assert!(summary.notification.is_none());

    let summary = all(&vec![good(), bad()], false);
    assert_eq!(
        summary.result.unwrap_err().message,
        "Not all projects conform to our guidelines"
    );
    assert!(summary.notification.is_none());

    let summary = all(&vec![bad(), good(), bad()], true);
    assert!(summary.result.is_err());
    assert_eq!(summary.notification.unwrap().len(), 6);
}
