use embark_oss::error::Report;
use embark_oss::github::{
    check_download_status, download_file, download_repo_file, next_pagination_page,
    next_pagination_page_from_link_header, parse_next_link_url, split_at_commas, Client, Repo,
};

#[test]
fn test_parse_next_link_url() {
    assert_eq!(parse_next_link_url(""), None);

    // A "rel" value other than "next" is not accepted
    assert_eq!(
        parse_next_link_url(r#"<https://example.com/members?page=2>; rel="last""#),
        None
    );

    assert_eq!(
        parse_next_link_url(r#"<https://example.com/members?page=2>; rel="next""#),
        Some("https://example.com/members?page=2".to_string())
    );

    assert_eq!(
        parse_next_link_url(r#"   <https://example.com/members?page=2>;    rel="next"    "#),
        Some("https://example.com/members?page=2".to_string())
    );
}

fn make_repo() -> Repo {
    Repo {
        name: "name".to_string(),
        archived: false,
        private: false,
        fork: false,
    }
}

#[test]
fn repo_is_public_active_source_project() {
    let repo = make_repo();
    assert!(repo.is_public_active_source_project());

    // Archived are inactive
    let mut repo = make_repo();
    repo.archived = true;
    assert!(!repo.is_public_active_source_project());

    // Forks are inactive
    let mut repo = make_repo();
    repo.fork = true;
    assert!(!repo.is_public_active_source_project());

    // Private are inactive
    let mut repo = make_repo();
    repo.private = true;
    assert!(!repo.is_public_active_source_project());

    // .github is skipped as it's meta information
    let mut repo = make_repo();
    repo.name = ".github".to_string();
    assert!(!repo.is_public_active_source_project());

    // opensource-template is skipped as it cannot conform without making
    // the templates errors prone. i.e. forgetting to configure the project
    // means it is incorrectly detected as complying.
    let mut repo = make_repo();
    repo.name = "opensource-template".to_string();
    assert!(!repo.is_public_active_source_project());
}

#[test]
fn next_link_is_case_sensitive() {
    assert_eq!(
        parse_next_link_url(r#"<https://example.com/members?page=2>; rel="NEXT""#),
        None
    );
    assert_eq!(
        parse_next_link_url(r#"<https://example.com/members?page=2>; REL="next""#),
        None
    );
}

#[test]
fn split_at_commas_keeps_empty_parts() {
    assert_eq!(split_at_commas(""), vec!["".to_string()]);
    assert_eq!(split_at_commas("a"), vec!["a".to_string()]);
    assert_eq!(
        split_at_commas("a,b,,c,"),
        vec!["a", "b", "", "c", ""]
            .into_iter()
            .map(String::from)
            .collect::<Vec<_>>()
    );
}

#[test]
fn link_header_with_several_links() {
    let header = r#"<https://api.github.com/orgs/x/members?per_page=100&page=1>; rel="prev", <https://api.github.com/orgs/x/members?per_page=100&page=3>; rel="next", <https://api.github.com/orgs/x/members?per_page=100&page=9>; rel="last""#;
    let page = next_pagination_page_from_link_header(Ok(header.to_string())).unwrap();
    assert_eq!(
        page,
        Some("https://api.github.com/orgs/x/members?per_page=100&page=3".to_string())
    );
}

#[test]
fn link_header_without_next() {
    let header = r#"<https://example.com/a?page=1>; rel="first", <https://example.com/a?page=4>; rel="prev""#;
    let page = next_pagination_page_from_link_header(Ok(header.to_string())).unwrap();
    assert_eq!(page, None);
}

#[test]
fn link_header_that_is_no_text() {
    let cause = Report::new("failed to convert header to a str");
    let error = next_pagination_page_from_link_header(Err(cause)).unwrap_err();
    assert_eq!(error.message, "Header was not valid unicode");
    assert_eq!(
        error.causes,
        vec!["failed to convert header to a str".to_string()]
    );
}

#[test]
fn next_page_of_an_answer() {
    assert_eq!(next_pagination_page(None).unwrap(), None);

    let header = r#"<https://example.com/members?page=2>; rel="next""#;
    assert_eq!(
        next_pagination_page(Some(Ok(header.to_string()))).unwrap(),
        Some("https://example.com/members?page=2".to_string())
    );

    let cause = Report::new("failed to convert header to a str");
    let error = next_pagination_page(Some(Err(cause))).unwrap_err();
    assert_eq!(
        error.message,
        "Unable to find next pagination page url in link header"
    );
    assert_eq!(
        error.causes,
        vec![
            "Header was not valid unicode".to_string(),
            "failed to convert header to a str".to_string()
        ]
    );
}

#[test]
fn download_file_names_and_addresses() {
    let file = download_file("EmbarkStudios", "rust-ecosystem", "main", "README.md");
    assert_eq!(file.name, "EmbarkStudios/rust-ecosystem:README.md");
    assert_eq!(
        file.url,
        "https://raw.githubusercontent.com/EmbarkStudios/rust-ecosystem/main/README.md"
    );
}

#[test]
fn download_status_of_an_answer() {
    assert!(check_download_status("o/r:f", 200).unwrap());
    assert!(check_download_status("o/r:f", 204).unwrap());
    assert!(check_download_status("o/r:f", 299).unwrap());
    assert!(!check_download_status("o/r:f", 404).unwrap());

    let error = check_download_status("o/r:f", 500).unwrap_err();
    assert_eq!(error.message, "Unable to download o/r:f");
    assert_eq!(
        error.causes,
        vec!["Expected status code 200, got 500".to_string()]
    );

    let error = check_download_status("o/r:f", 199).unwrap_err();
    assert_eq!(
        error.causes,
        vec!["Expected status code 200, got 199".to_string()]
    );
    assert!(check_download_status("o/r:f", 300).is_err());
    assert!(check_download_status("o/r:f", 0).is_err());
    let error = check_download_status("o/r:f", 65535).unwrap_err();
    assert_eq!(
        error.causes,
        vec!["Expected status code 200, got 65535".to_string()]
    );
}

#[test]
fn download_repo_file_needs_the_file() {
    assert_eq!(
        download_repo_file("o/r:f", Ok(Some("text".to_string()))).unwrap(),
        "text"
    );

    let error = download_repo_file("o/r:f", Ok(None)).unwrap_err();
    assert_eq!(error.message, "Unable to download o/r:f");
    assert_eq!(error.causes, vec!["File not found in repo".to_string()]);

    let error = download_repo_file("o/r:f", Err(Report::new("Failed to download o/r:f")))
        .unwrap_err();
    assert_eq!(error.message, "Failed to download o/r:f");
    assert!(error.causes.is_empty());
}

#[test]
fn client_requests() {
    assert_eq!(Client::new(None).authorization(), None);
    assert_eq!(
        Client::new(Some("abc".to_string())).authorization(),
        Some("token abc".to_string())
    );
    assert_eq!(
        Client::public_organisation_members_url("EmbarkStudios"),
        "https://api.github.com/orgs/EmbarkStudios/members?per_page=100"
    );
    assert_eq!(
        Client::organisation_repos_url("EmbarkStudios"),
        "https://api.github.com/orgs/EmbarkStudios/repos?type=archived&per_page=100"
    );
}
