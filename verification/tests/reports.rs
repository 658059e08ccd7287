use sink::cli::SinkCLI;
use sink::cli::SinkSubcommands;
use sink::cli::SubcommandAdd;
use sink::cli::SubcommandInstall;
use sink::errors::AddError;
use sink::errors::LoadError;
use sink::errors::ParseError;
use sink::errors::SaveError;
use sink::errors::ValidationError;
use sink::github::GitHubVersion;
use sink::SinkError;

fn fault() -> ValidationError {
    ValidationError::MalformedEntries {
        provider: String::from("GitHub"),
        key: String::from("owner/repo:x"),
    }
}

#[test]
fn each_error_reports_itself() {
    assert_eq!(
        ParseError::MalformedPathspec(String::from("a:b")).to_string(),
        "Invalid dependency path specification: 'a:b'! Please ensure it's in the form of 'owner/repo:pattern'!"
    );
    assert_eq!(
        fault().to_string(),
        "Invalid dependency entry for 'owner/repo:x' of 'GitHub'!"
    );
    assert_eq!(LoadError::Io(String::from("gone")).to_string(), "gone");
    assert_eq!(LoadError::Syntax(String::from("bad")).to_string(), "bad");
    assert_eq!(
        LoadError::Structure(String::from("includes")).to_string(),
        "Unexpected value for 'includes'!"
    );
    assert_eq!(
        LoadError::Validation(fault()).to_string(),
        "Failed to parse TOML data!"
    );
    assert_eq!(
        AddError::GroupedIntoSingular.to_string(),
        "The dependencies are not grouped, but a group was given!"
    );
    assert_eq!(
        AddError::DuplicateKey(String::from("k")).to_string(),
        "Dependency 'k' already exists!"
    );
    assert_eq!(
        AddError::MissingGroupForGroupedContainer.to_string(),
        "The dependencies are grouped, but no group was given!"
    );
    assert_eq!(
        AddError::CorruptContainer.to_string(),
        "The dependencies are malformed!"
    );
    assert_eq!(SaveError::Io(String::from("full")).to_string(), "full");
    assert_eq!(
        SaveError::Unwritable.to_string(),
        "The document has no table at its root!"
    );
}

#[test]
fn the_chain_runs_from_the_operation_to_the_first_cause() {
    let error = SinkError::Load(LoadError::Validation(fault()));
    assert_eq!(
        error.chain(),
        vec![
            "Failed to load Sink TOML!",
            "Failed to parse TOML data!",
            "Invalid dependency entry for 'owner/repo:x' of 'GitHub'!",
        ]
    );
    assert_eq!(
        error.to_string(),
        "Failed to load Sink TOML! Caused by: Failed to parse TOML data! Caused by: Invalid dependency entry for 'owner/repo:x' of 'GitHub'!"
    );
    assert_eq!(
        SinkError::Load(LoadError::Io(String::from("gone"))).to_string(),
        "Failed to load Sink TOML! Caused by: gone"
    );
    assert_eq!(
        SinkError::Validation(fault()).to_string(),
        "Failed to parse TOML data! Caused by: Invalid dependency entry for 'owner/repo:x' of 'GitHub'!"
    );
    assert_eq!(
        SinkError::Add(AddError::CorruptContainer).to_string(),
        "Failed to add dependency! Caused by: The dependencies are malformed!"
    );
    assert_eq!(
        SinkError::Save(SaveError::Io(String::from("full"))).to_string(),
        "Failed to save Sink TOML! Caused by: full"
    );
    assert_eq!(
        SinkError::Save(SaveError::Unwritable).to_string(),
        "Failed to save Sink TOML! Caused by: The document has no table at its root!"
    );
    assert_eq!(
        SinkError::InvalidDependency(String::from("/:")).to_string(),
        "Failed to add dependency! Caused by: Invalid dependency: '/:'!"
    );
    assert_eq!(
        SinkError::Download(String::from("gone")).to_string(),
        "Failed to add dependency! Caused by: gone"
    );
    assert_eq!(
        SinkError::SaveAdded(SaveError::Io(String::from("full"))).to_string(),
        "Failed to add dependency! Caused by: Failed to save Sink TOML! Caused by: full"
    );
    let alone = SinkError::Parse(ParseError::MalformedPathspec(String::from("x")));
    assert_eq!(alone.chain().len(), 1);
    assert_eq!(
        alone.to_string(),
        "Invalid dependency path specification: 'x'! Please ensure it's in the form of 'owner/repo:pattern'!"
    );
}

fn cli(file: Option<&str>, verbose: bool) -> SinkCLI {
    SinkCLI {
        command: SinkSubcommands::Install(SubcommandInstall { sink: false }),
        verbose,
        file: file.map(String::from),
    }
}

#[test]
fn the_manifest_path_falls_back_to_the_default() {
    assert_eq!(cli(Some("my.toml"), false).manifest_path(true), "my.toml");
    assert_eq!(cli(Some("my.toml"), false).manifest_path(false), "sink.toml");
    assert_eq!(cli(None, false).manifest_path(true), "sink.toml");
    assert_eq!(cli(None, false).manifest_path(false), "sink.toml");
}

#[test]
fn verbose_reports_from_debug_on() {
    assert_eq!(cli(None, true).log_filter(), "debug");
    assert_eq!(cli(None, false).log_filter(), "info");
}

#[test]
fn the_dependency_to_add_is_ignored_unless_told_otherwise() {
    let asked = SubcommandAdd {
        dependency: String::from("repo:pattern"),
        destination: None,
        version: None,
        no_gitignore: false,
        short: false,
    };
    let dependency = asked.dependency(&Some(String::from("owner"))).unwrap();
    assert_eq!(dependency.pathspec.to_string(), "owner/repo:pattern");
    assert_eq!(dependency.destination, ".");
    assert!(matches!(dependency.version, GitHubVersion::Latest));
    assert!(dependency.gitignore);

    let asked = SubcommandAdd {
        dependency: String::from("owner/repo:pattern"),
        destination: Some(String::from("bin")),
        version: Some(GitHubVersion::Prerelease),
        no_gitignore: true,
        short: false,
    };
    let dependency = asked.dependency(&None).unwrap();
    assert_eq!(dependency.destination, "bin");
    assert!(matches!(dependency.version, GitHubVersion::Prerelease));
    assert!(!dependency.gitignore);

    let asked = SubcommandAdd {
        dependency: String::from("pattern"),
        destination: None,
        version: None,
        no_gitignore: false,
        short: true,
    };
    assert!(matches!(
        asked.dependency(&None),
        Err(ParseError::MalformedPathspec(text)) if text == "pattern"
    ));
}
