use std::path::PathBuf;

use sink::github::GitHubDependency;
use sink::github::GitHubPathspec;
use sink::github::GitHubVersion;

#[test]
fn test_new_full() {
    let dependency = GitHubDependency::new(
        String::from("owner/repo:file-pattern"),
        Some(String::from("destination")),
        Some(GitHubVersion::Tag(String::from("v1.0.0"))),
        false,
        &None,
    )
    .unwrap();

    assert_eq!(dependency.pathspec.to_string(), "owner/repo:file-pattern");
    assert_eq!(PathBuf::from(&dependency.destination), PathBuf::from("destination"));
    assert_eq!(dependency.version.to_string(), String::from("v1.0.0"));
    assert!(!dependency.gitignore);
}

#[test]
fn test_new_invalid() {
    let dependency = GitHubDependency::new(
        String::from("pattern"),
        Some(String::from("destination")),
        Some(GitHubVersion::Tag(String::from("v1.0.0"))),
        false,
        &None,
    );

    assert!(dependency.is_err());

    let dependency = GitHubDependency::new(
        String::from("repo/pattern"),
        Some(String::from("destination")),
        Some(GitHubVersion::Tag(String::from("v1.0.0"))),
        false,
        &None,
    );

    assert!(dependency.is_err());

    let dependency = GitHubDependency::new(
        String::from("owner/repo/pattern"),
        Some(String::from("destination")),
        Some(GitHubVersion::Tag(String::from("v1.0.0"))),
        false,
        &None,
    );

    assert!(dependency.is_err());
}

#[test]
fn test_new_default() {
    let dependency = GitHubDependency::new(
        String::from("repo:pattern"),
        None,
        None,
        true,
        &Some(String::from("owner")),
    )
    .unwrap();

    assert_eq!(dependency.pathspec.to_string(), "owner/repo:pattern");
    assert_eq!(PathBuf::from(&dependency.destination), PathBuf::from("."));
    assert_eq!(dependency.version.to_string(), String::from("latest"));
    assert!(dependency.gitignore);
}

#[test]
fn test_from_string() {
    let path_spec = GitHubPathspec::try_from(String::from("owner/repo:pattern")).unwrap();

    assert_eq!(path_spec.owner, "owner");
    assert_eq!(path_spec.repository, "repo");
    assert_eq!(path_spec.pattern, "pattern");

    let path_spec = GitHubPathspec::try_from(String::from(
        "complex-owner/weird%%repo:patt[A-Z]ern*.txt",
    ))
    .unwrap();

    assert_eq!(path_spec.owner, "complex-owner");
    assert_eq!(path_spec.repository, "weird%%repo");
    assert_eq!(path_spec.pattern, "patt[A-Z]ern*.txt");
}

#[test]
fn test_from_string_invalid() {
    assert!(GitHubPathspec::try_from(String::from("owner/repo")).is_err());
    assert!(GitHubPathspec::try_from(String::from("repo:pattern")).is_err());
    assert!(GitHubPathspec::try_from(String::from("/:")).is_err());
    assert!(GitHubPathspec::try_from(String::from("owner/:pattern")).is_err());
}

#[test]
fn test_into_string() {
    let path_spec = GitHubPathspec {
        owner: String::from("owner"),
        repository: String::from("repo"),
        pattern: String::from("pattern"),
    };

    assert_eq!(path_spec.to_string(), "owner/repo:pattern");
}

#[test]
fn pathspec_round_trip() {
    for (owner, repository, pattern) in [
        ("a", "b", "c"),
        ("complex-owner", "weird%%repo", "patt[A-Z]ern*.txt"),
        ("o w n e r", "Repo", "dir/file"),
        ("ö", "日本", "päττern\n"),
    ] {
        let text = format!("{owner}/{repository}:{pattern}");
        let parsed = GitHubPathspec::try_from(text.clone()).unwrap();
        assert_eq!(parsed.owner, owner);
        assert_eq!(parsed.repository, repository);
        assert_eq!(parsed.pattern, pattern);
        assert_eq!(parsed.to_string(), text);
    }
}

#[test]
fn pathspec_rejects_wrong_separator_counts() {
    for text in [
        "",
        "owner/repo",
        "owner/repo:",
        ":pattern",
        "/repo:pattern",
        "owner/:pattern",
        "owner/repo:pat:tern",
        "owner/repo::pattern",
        "a/b/c:pattern",
        "repo:pattern",
        "repo:pat/tern",
        "a:b/c:d",
        "owner//repo:pattern",
    ] {
        let result = GitHubPathspec::try_from(String::from(text));
        match result {
            Err(sink::errors::ParseError::MalformedPathspec(named)) => assert_eq!(named, text),
            Ok(parsed) => panic!("{text} was read as {parsed:?}"),
        }
    }
}

#[test]
fn pathspec_keeps_case_and_whitespace() {
    let parsed = GitHubPathspec::try_from(String::from(" Owner /Re Po: Pat ")).unwrap();
    assert_eq!(parsed.owner, " Owner ");
    assert_eq!(parsed.repository, "Re Po");
    assert_eq!(parsed.pattern, " Pat ");
}

#[test]
fn pathspec_parse_prefers_full_form() {
    let owner = Some(String::from("fallback"));
    let parsed = GitHubPathspec::parse("owner/repo:pattern", &owner).unwrap();
    assert_eq!(parsed.owner, "owner");
    let parsed = GitHubPathspec::parse("repo:pattern", &owner).unwrap();
    assert_eq!(parsed.owner, "fallback");
    assert_eq!(parsed.repository, "repo");
    assert_eq!(parsed.pattern, "pattern");
}

#[test]
fn pathspec_parse_names_the_text_tried_last() {
    match GitHubPathspec::parse("pattern", &None) {
        Err(sink::errors::ParseError::MalformedPathspec(named)) => assert_eq!(named, "pattern"),
        Ok(parsed) => panic!("read as {parsed:?}"),
    }
    match GitHubPathspec::parse("pattern", &Some(String::from("owner"))) {
        Err(sink::errors::ParseError::MalformedPathspec(named)) => {
            assert_eq!(named, "owner/pattern")
        }
        Ok(parsed) => panic!("read as {parsed:?}"),
    }
    assert!(GitHubPathspec::parse("repo:pattern", &Some(String::new())).is_err());
    assert!(GitHubPathspec::parse("repo:pattern", &Some(String::from("a/b"))).is_err());
}

#[test]
fn pathspec_validity_is_about_empty_parts() {
    let complete = GitHubPathspec {
        owner: String::from("o"),
        repository: String::from("r"),
        pattern: String::from("p"),
    };
    assert!(complete.is_valid());
    assert!(!GitHubPathspec::default().is_valid());
    let no_pattern = GitHubPathspec {
        owner: String::from("o"),
        repository: String::from("r"),
        pattern: String::new(),
    };
    assert!(!no_pattern.is_valid());
}

#[test]
fn version_round_trip() {
    assert_eq!(GitHubVersion::parse("latest").to_string(), "latest");
    assert_eq!(GitHubVersion::parse("prerelease").to_string(), "prerelease");
    assert_eq!(GitHubVersion::parse("v1.2.3").to_string(), "v1.2.3");
    assert!(matches!(GitHubVersion::parse("latest"), GitHubVersion::Latest));
    assert!(matches!(GitHubVersion::parse("prerelease"), GitHubVersion::Prerelease));
    assert!(matches!(GitHubVersion::parse("Latest"), GitHubVersion::Tag(tag) if tag == "Latest"));
    assert!(matches!(GitHubVersion::parse(""), GitHubVersion::Tag(tag) if tag.is_empty()));
}

#[test]
fn version_parse_cli_never_fails() {
    assert!(matches!(GitHubVersion::parse_cli("latest"), Ok(GitHubVersion::Latest)));
    assert!(matches!(GitHubVersion::parse_cli("v9"), Ok(GitHubVersion::Tag(tag)) if tag == "v9"));
}
