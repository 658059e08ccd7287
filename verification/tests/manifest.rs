use sink::errors::AddError;
use sink::errors::LoadError;
use sink::errors::ValidationError;
use sink::github::GitHubDependency;
use sink::github::GitHubVersion;
use sink::toml::entry::Malformation;
use sink::toml::grouping::Grouping;
use sink::toml::DependencyType;
use sink::SinkTOML;

fn load(text: &str) -> SinkTOML {
    SinkTOML::from_toml(text, String::from("sink.toml")).unwrap()
}

fn short(version: &str) -> (DependencyType, toml_edit::Item) {
    (
        DependencyType::Version(GitHubVersion::parse(version)),
        toml_edit::value(version),
    )
}

const FLAT: &str = r#"# the manifest
default-owner = "me"   # who owns what names no owner
includes = ["other.toml", "more/sink.toml"]

[GitHub]
provider = "GitHub"

[GitHub.dependencies]
"owner/repo:first" = "v1.0.0"   # pinned
"owner/repo:second" = { version = "latest", destination = "bin" }
"#;

const GROUPED: &str = r#"default-group = "dev"

[GitHub.dependencies.dev]
"owner/repo:lint" = "latest"

[GitHub.dependencies.prod]
"owner/repo:run" = { version = "v2", destination = ".", gitignore = false }
"#;

#[test]
fn load_reads_settings_and_sections() {
    let manifest = load(FLAT);
    assert_eq!(manifest.default_owner.as_deref(), Some("me"));
    assert_eq!(manifest.default_group, None);
    assert_eq!(manifest.includes, vec!["other.toml", "more/sink.toml"]);
    assert_eq!(manifest.path, "sink.toml");
    assert_eq!(manifest.providers.len(), 1);
    let (name, section) = &manifest.providers[0];
    assert_eq!(name, "GitHub");
    assert_eq!(section.provider.as_deref(), Some("GitHub"));
    assert_eq!(section.default_group, None);
    match &section.dependencies {
        Some(Grouping::Singular(entries)) => {
            assert_eq!(entries.len(), 2);
            assert_eq!(entries[0].0, "owner/repo:first");
            assert!(matches!(
                &entries[0].1,
                DependencyType::Version(GitHubVersion::Tag(tag)) if tag == "v1.0.0"
            ));
            assert_eq!(entries[1].0, "owner/repo:second");
            match &entries[1].1 {
                DependencyType::Full(dependency) => {
                    assert_eq!(dependency.pathspec.to_string(), "owner/repo:second");
                    assert_eq!(dependency.destination, "bin");
                    assert!(matches!(dependency.version, GitHubVersion::Latest));
                    assert!(dependency.gitignore);
                }
                other => panic!("read as {other:?}"),
            }
        }
        other => panic!("read as {other:?}"),
    }
}

#[test]
fn load_reads_groups_in_order() {
    let manifest = load(GROUPED);
    assert_eq!(manifest.default_group.as_deref(), Some("dev"));
    match &manifest.providers[0].1.dependencies {
        Some(Grouping::Grouped(groups)) => {
            assert_eq!(groups.len(), 2);
            assert_eq!(groups[0].0, "dev");
            assert_eq!(groups[0].1.len(), 1);
            assert!(matches!(
                &groups[0].1[0].1,
                DependencyType::Version(GitHubVersion::Latest)
            ));
            assert_eq!(groups[1].0, "prod");
            match &groups[1].1[0].1 {
                DependencyType::Full(dependency) => assert!(!dependency.gitignore),
                other => panic!("read as {other:?}"),
            }
        }
        other => panic!("read as {other:?}"),
    }
}

#[test]
fn load_takes_a_bare_string_as_a_version() {
    let manifest = load("[GitHub.dependencies]\n\"owner/repo:pattern\" = \"v1.0.0\"\n");
    match &manifest.providers[0].1.dependencies {
        Some(Grouping::Singular(entries)) => {
            assert_eq!(entries.len(), 1);
            assert!(matches!(
                &entries[0].1,
                DependencyType::Version(GitHubVersion::Tag(tag)) if tag == "v1.0.0"
            ));
        }
        other => panic!("read as {other:?}"),
    }
}

#[test]
fn load_never_takes_a_string_as_a_record() {
    let manifest = load("[GitHub.dependencies]\nversion = \"latest\"\ndestination = \".\"\n");
    match &manifest.providers[0].1.dependencies {
        Some(Grouping::Singular(entries)) => {
            assert_eq!(entries.len(), 2);
            assert!(matches!(&entries[0].1, DependencyType::Version(GitHubVersion::Latest)));
            assert!(matches!(
                &entries[1].1,
                DependencyType::Version(GitHubVersion::Tag(tag)) if tag == "."
            ));
        }
        other => panic!("read as {other:?}"),
    }
}

#[test]
fn load_refuses_a_table_that_misses_a_field() {
    let text = "[GitHub.dependencies]\n\"owner/repo:good\" = \"v1\"\n\"owner/repo:bad\" = { version = \"v1\" }\n";
    match SinkTOML::from_toml(text, String::from("sink.toml")) {
        Err(LoadError::Validation(ValidationError::MalformedEntries { provider, key })) => {
            assert_eq!(provider, "GitHub");
            assert_eq!(key, "owner/repo:bad");
        }
        other => panic!("loaded as {other:?}"),
    }
}

#[test]
fn read_gives_the_reason_for_each_malformation() {
    let cases = [
        ("5", Malformation::Shape),
        ("[1, 2]", Malformation::Shape),
        ("{ destination = \".\" , version = 1 }", Malformation::Version),
        ("{ version = \"v1\" }", Malformation::Destination),
        ("{ version = \"v1\", destination = 3 }", Malformation::Destination),
        (
            "{ version = \"v1\", destination = \".\", gitignore = \"yes\" }",
            Malformation::Gitignore,
        ),
    ];
    for (text, reason) in cases {
        let item = text.parse::<toml_edit::Item>().unwrap();
        match DependencyType::read("owner/repo:pattern", &item, &None) {
            DependencyType::Invalid(why) => assert_eq!(why, reason, "{text}"),
            other => panic!("{text} read as {other:?}"),
        }
    }
    let item = "{ version = \"v1\", destination = \".\" }"
        .parse::<toml_edit::Item>()
        .unwrap();
    assert!(matches!(
        DependencyType::read("no pathspec", &item, &None),
        DependencyType::Invalid(Malformation::Pathspec)
    ));
    assert!(matches!(
        DependencyType::read("repo:pattern", &item, &Some(String::from("owner"))),
        DependencyType::Full(dependency) if dependency.pathspec.owner == "owner"
    ));
    assert!(matches!(
        DependencyType::read("anything", &toml_edit::Item::None, &None),
        DependencyType::Invalid(Malformation::Shape)
    ));
}

#[test]
fn read_names_the_assets_by_repository_then_origin_then_key() {
    let item = "{ version = \"v1\", destination = \".\", repository = \"a/b:c\", origin = \"d/e:f\" }"
        .parse::<toml_edit::Item>()
        .unwrap();
    match DependencyType::read("foo", &item, &None) {
        DependencyType::Full(dependency) => assert_eq!(dependency.pathspec.to_string(), "a/b:c"),
        other => panic!("read as {other:?}"),
    }
    let item = "{ version = \"v1\", destination = \".\", origin = \"d/e:f\" }"
        .parse::<toml_edit::Item>()
        .unwrap();
    match DependencyType::read("foo", &item, &None) {
        DependencyType::Full(dependency) => assert_eq!(dependency.pathspec.to_string(), "d/e:f"),
        other => panic!("read as {other:?}"),
    }
}

#[test]
fn load_refuses_a_mix_of_groups_and_entries() {
    let text = "[GitHub.dependencies]\n\"owner/repo:a\" = \"v1\"\n[GitHub.dependencies.dev]\n\"owner/repo:b\" = \"v1\"\n";
    match SinkTOML::from_toml(text, String::from("sink.toml")) {
        Err(LoadError::Validation(ValidationError::MalformedEntries { provider, key })) => {
            assert_eq!(provider, "GitHub");
            assert_eq!(key, "dependencies");
        }
        other => panic!("loaded as {other:?}"),
    }
    let text = "[GitHub]\ndependencies = \"none\"\n";
    assert!(matches!(
        SinkTOML::from_toml(text, String::from("sink.toml")),
        Err(LoadError::Validation(ValidationError::MalformedEntries { .. }))
    ));
}

#[test]
fn load_names_the_first_offender_in_the_order_of_the_manifest() {
    let text = r#"[First.dependencies]
"owner/repo:fine" = "v1"

[Second.dependencies.dev]
"owner/repo:fine" = "v1"

[Second.dependencies.prod]
"owner/repo:fine" = "v1"
"owner/repo:broken" = 1
"owner/repo:worse" = 2

[Third]
dependencies = 3
"#;
    match SinkTOML::from_toml(text, String::from("sink.toml")) {
        Err(LoadError::Validation(ValidationError::MalformedEntries { provider, key })) => {
            assert_eq!(provider, "Second");
            assert_eq!(key, "owner/repo:broken");
        }
        other => panic!("loaded as {other:?}"),
    }
}

#[test]
fn load_refuses_values_of_the_wrong_kind() {
    for (text, key) in [
        ("default-owner = 1\n", "default-owner"),
        ("default-group = [\"dev\"]\n", "default-group"),
        ("includes = \"other.toml\"\n", "includes"),
        ("includes = [\"a\", 2]\n", "includes"),
        ("GitHub = \"here\"\n", "GitHub"),
        ("[GitHub]\nprovider = 1\n", "GitHub.provider"),
        ("[GitHub]\ndefault-group = 1\n", "GitHub.default-group"),
        ("[GitHub]\ndefault-owner = 1\n", "GitHub.default-owner"),
        ("[GitHub]\ndefault-repository = 1\n", "GitHub.default-repository"),
    ] {
        match SinkTOML::from_toml(text, String::from("sink.toml")) {
            Err(LoadError::Structure(named)) => assert_eq!(named, key),
            other => panic!("{text} loaded as {other:?}"),
        }
    }
}

#[test]
fn load_refuses_what_is_not_toml() {
    match SinkTOML::from_toml("fine = 1\nthis is = = not toml", String::from("sink.toml")) {
        Err(LoadError::Syntax(message)) => {
            assert!(message.starts_with("TOML parse error at line 2, column 6"), "{message}");
            assert!(message.contains("this is = = not toml"), "{message}");
        }
        other => panic!("loaded as {other:?}"),
    }
    for text in ["", "\n", "a", "a = \"\u{e9}", "[a]\n[a]", "x = 1\n\n\n= 2", "\u{feff}[", "a = '"] {
        match SinkTOML::from_toml(text, String::from("sink.toml")) {
            Err(LoadError::Syntax(message)) => assert!(!message.is_empty()),
            Err(other) => panic!("{text:?} failed with {other:?}"),
            Ok(_) => {}
        }
    }
}

#[test]
fn load_resolves_the_owner_by_section_then_manifest() {
    let text = r#"default-owner = "global"

[A.dependencies]
"repo:x" = { version = "v1", destination = "." }

[B]
default-owner = "local"

[B.dependencies]
"repo:y" = { version = "v1", destination = "." }
"#;
    let manifest = load(text);
    for (index, owner) in [(0, "global"), (1, "local")] {
        match &manifest.providers[index].1.dependencies {
            Some(Grouping::Singular(entries)) => match &entries[0].1 {
                DependencyType::Full(dependency) => assert_eq!(dependency.pathspec.owner, owner),
                other => panic!("read as {other:?}"),
            },
            other => panic!("read as {other:?}"),
        }
    }
}

#[test]
fn an_empty_manifest_loads_and_validates() {
    let manifest = load("");
    assert!(manifest.providers.is_empty());
    assert!(manifest.includes.is_empty());
    assert!(manifest.validate().is_ok());
    assert_eq!(manifest.to_toml(), "");
}

#[test]
fn validate_names_an_entry_that_was_put_in_by_hand() {
    let mut manifest = load("[GitHub.dependencies]\n\"owner/repo:a\" = \"v1\"\n");
    assert!(manifest.validate().is_ok());
    if let Some(Grouping::Singular(entries)) = &mut manifest.providers[0].1.dependencies {
        entries.push((
            String::from("owner/repo:b"),
            DependencyType::Invalid(Malformation::Shape),
        ));
    }
    match manifest.validate() {
        Err(ValidationError::MalformedEntries { provider, key }) => {
            assert_eq!(provider, "GitHub");
            assert_eq!(key, "owner/repo:b");
        }
        Ok(()) => panic!("validated"),
    }
    manifest.providers[0].1.dependencies = Some(Grouping::Invalid);
    match manifest.validate() {
        Err(ValidationError::MalformedEntries { provider, key }) => {
            assert_eq!(provider, "GitHub");
            assert_eq!(key, "dependencies");
        }
        Ok(()) => panic!("validated"),
    }
}

#[test]
fn add_into_an_empty_list_succeeds_once() {
    let mut manifest = load("[GitHub.dependencies]\n");
    assert!(matches!(
        &manifest.providers[0].1.dependencies,
        Some(Grouping::Singular(entries)) if entries.is_empty()
    ));
    let (entry, value) = short("v1");
    assert!(manifest
        .add_dependency("GitHub", None, String::from("foo"), entry, value)
        .is_ok());
    match &manifest.providers[0].1.dependencies {
        Some(Grouping::Singular(entries)) => {
            assert_eq!(entries.len(), 1);
            assert_eq!(entries[0].0, "foo");
        }
        other => panic!("now {other:?}"),
    }
    assert_eq!(manifest.to_toml(), "[GitHub.dependencies]\nfoo = \"v1\"\n");
    let before = manifest.to_toml();
    let (entry, value) = short("v2");
    match manifest.add_dependency("GitHub", None, String::from("foo"), entry, value) {
        Err(AddError::DuplicateKey(key)) => assert_eq!(key, "foo"),
        other => panic!("second add gave {other:?}"),
    }
    assert_eq!(manifest.to_toml(), before);
    match &manifest.providers[0].1.dependencies {
        Some(Grouping::Singular(entries)) => assert_eq!(entries.len(), 1),
        other => panic!("now {other:?}"),
    }
}

#[test]
fn add_with_a_group_into_a_list_changes_nothing() {
    let mut manifest = load(FLAT);
    let before = manifest.to_toml();
    assert_eq!(before, FLAT);
    let (entry, value) = short("v1");
    assert!(matches!(
        manifest.add_dependency(
            "GitHub",
            Some(String::from("dev")),
            String::from("owner/repo:third"),
            entry,
            value
        ),
        Err(AddError::GroupedIntoSingular)
    ));
    assert_eq!(manifest.to_toml(), before);
    match &manifest.providers[0].1.dependencies {
        Some(Grouping::Singular(entries)) => assert_eq!(entries.len(), 2),
        other => panic!("now {other:?}"),
    }
}

#[test]
fn add_without_a_group_into_groups_is_refused() {
    let mut manifest = load("[GitHub.dependencies.dev]\n\"owner/repo:a\" = \"v1\"\n");
    let before = manifest.to_toml();
    let (entry, value) = short("v1");
    assert!(matches!(
        manifest.add_dependency("GitHub", None, String::from("owner/repo:b"), entry, value),
        Err(AddError::MissingGroupForGroupedContainer)
    ));
    assert_eq!(manifest.to_toml(), before);
}

#[test]
fn add_resolves_the_group_by_request_then_section_then_manifest() {
    let text = r#"default-group = "global"

[A]
default-group = "local"

[A.dependencies.local]
"owner/repo:a" = "v1"

[B.dependencies.other]
"owner/repo:b" = "v1"
"#;
    let mut manifest = load(text);
    assert_eq!(manifest.group_for("A", &None).as_deref(), Some("local"));
    assert_eq!(manifest.group_for("B", &None).as_deref(), Some("global"));
    assert_eq!(manifest.group_for("C", &None).as_deref(), Some("global"));
    assert_eq!(
        manifest.group_for("A", &Some(String::from("asked"))).as_deref(),
        Some("asked")
    );
    let (entry, value) = short("v2");
    manifest
        .add_dependency("A", None, String::from("owner/repo:c"), entry, value)
        .unwrap();
    let (entry, value) = short("v3");
    manifest
        .add_dependency("B", None, String::from("owner/repo:d"), entry, value)
        .unwrap();
    let (entry, value) = short("v4");
    manifest
        .add_dependency(
            "B",
            Some(String::from("other")),
            String::from("owner/repo:e"),
            entry,
            value,
        )
        .unwrap();
    match &manifest.providers[0].1.dependencies {
        Some(Grouping::Grouped(groups)) => {
            assert_eq!(groups.len(), 1);
            assert_eq!(groups[0].1.len(), 2);
            assert_eq!(groups[0].1[1].0, "owner/repo:c");
        }
        other => panic!("now {other:?}"),
    }
    match &manifest.providers[1].1.dependencies {
        Some(Grouping::Grouped(groups)) => {
            assert_eq!(groups.len(), 2);
            assert_eq!(groups[0].0, "other");
            assert_eq!(groups[0].1.len(), 2);
            assert_eq!(groups[0].1[1].0, "owner/repo:e");
            assert_eq!(groups[1].0, "global");
            assert_eq!(groups[1].1.len(), 1);
            assert_eq!(groups[1].1[0].0, "owner/repo:d");
        }
        other => panic!("now {other:?}"),
    }
    let reloaded = load(&manifest.to_toml());
    match &reloaded.providers[1].1.dependencies {
        Some(Grouping::Grouped(groups)) => {
            assert_eq!(groups.len(), 2);
            assert_eq!(groups[1].0, "global");
            assert_eq!(groups[1].1[0].0, "owner/repo:d");
        }
        other => panic!("reloaded as {other:?}"),
    }
}

#[test]
fn add_refuses_a_key_that_its_group_holds() {
    let mut manifest = load(GROUPED);
    let before = manifest.to_toml();
    let (entry, value) = short("v1");
    match manifest.add_dependency(
        "GitHub",
        Some(String::from("prod")),
        String::from("owner/repo:run"),
        entry,
        value,
    ) {
        Err(AddError::DuplicateKey(key)) => assert_eq!(key, "owner/repo:run"),
        other => panic!("gave {other:?}"),
    }
    assert_eq!(manifest.to_toml(), before);
    let (entry, value) = short("v1");
    assert!(manifest
        .add_dependency(
            "GitHub",
            Some(String::from("dev")),
            String::from("owner/repo:run"),
            entry,
            value
        )
        .is_ok());
}

#[test]
fn add_refuses_dependencies_of_no_known_shape() {
    let mut manifest = load("");
    manifest.providers.push((
        String::from("GitHub"),
        sink::toml::manifest::Provider {
            provider: None,
            default_group: None,
            default_owner: None,
            default_repository: None,
            dependencies: Some(Grouping::Invalid),
        },
    ));
    for group in [None, Some(String::from("dev"))] {
        let (entry, value) = short("v1");
        assert!(matches!(
            manifest.add_dependency("GitHub", group, String::from("k"), entry, value),
            Err(AddError::CorruptContainer)
        ));
    }
    assert_eq!(manifest.to_toml(), "");
}

#[test]
fn add_refuses_a_document_that_has_no_room() {
    let mut manifest = load("");
    manifest.formatted = "GitHub = \"taken\"\n".parse::<toml_edit::DocumentMut>().unwrap();
    let (entry, value) = short("v1");
    assert!(matches!(
        manifest.refusal("GitHub", &None, "k"),
        Some(AddError::CorruptContainer)
    ));
    assert!(matches!(
        manifest.add_dependency("GitHub", None, String::from("k"), entry, value),
        Err(AddError::CorruptContainer)
    ));
    assert!(manifest.providers.is_empty());
    assert_eq!(manifest.to_toml(), "GitHub = \"taken\"\n");
}

#[test]
fn the_first_dependency_decides_the_shape() {
    let mut manifest = load("");
    let (entry, value) = short("v1");
    manifest
        .add_dependency("GitHub", None, String::from("owner/repo:a"), entry, value)
        .unwrap();
    assert!(matches!(
        &manifest.providers[0].1.dependencies,
        Some(Grouping::Singular(entries)) if entries.len() == 1
    ));
    assert_eq!(
        manifest.to_toml(),
        "[GitHub]\n\n[GitHub.dependencies]\n\"owner/repo:a\" = \"v1\"\n"
    );

    let mut manifest = load("[GitHub]\nprovider = \"GitHub\"\n");
    let (entry, value) = short("v1");
    manifest
        .add_dependency(
            "GitHub",
            Some(String::from("dev")),
            String::from("owner/repo:a"),
            entry,
            value,
        )
        .unwrap();
    match &manifest.providers[0].1.dependencies {
        Some(Grouping::Grouped(groups)) => {
            assert_eq!(groups.len(), 1);
            assert_eq!(groups[0].0, "dev");
            assert_eq!(groups[0].1[0].0, "owner/repo:a");
        }
        other => panic!("now {other:?}"),
    }
    assert_eq!(manifest.providers[0].1.provider.as_deref(), Some("GitHub"));
    let reloaded = load(&manifest.to_toml());
    assert!(matches!(
        &reloaded.providers[0].1.dependencies,
        Some(Grouping::Grouped(groups)) if groups.len() == 1 && groups[0].0 == "dev"
    ));
}

#[test]
fn save_after_add_keeps_what_was_not_touched() {
    let mut manifest = load(FLAT);
    let before = manifest.to_toml();
    assert_eq!(before, FLAT);
    let (entry, value) = short("prerelease");
    manifest
        .add_dependency("GitHub", None, String::from("owner/repo:third"), entry, value)
        .unwrap();
    let after = manifest.to_toml();
    assert_eq!(
        after,
        format!("{before}\"owner/repo:third\" = \"prerelease\"\n")
    );
    assert!(after.starts_with(FLAT));
    let reloaded = load(&after);
    match &reloaded.providers[0].1.dependencies {
        Some(Grouping::Singular(entries)) => {
            assert_eq!(entries.len(), 3);
            assert_eq!(entries[2].0, "owner/repo:third");
            assert!(matches!(
                &entries[2].1,
                DependencyType::Version(GitHubVersion::Prerelease)
            ));
        }
        other => panic!("reloaded as {other:?}"),
    }
}

#[test]
fn github_add_writes_both_forms() {
    let dependency = GitHubDependency::new(
        String::from("owner/repo:tool"),
        Some(String::from("bin")),
        Some(GitHubVersion::Tag(String::from("v3"))),
        false,
        &None,
    )
    .unwrap();
    let manifest = sink::github::add(load(FLAT), dependency.clone(), true).unwrap();
    assert_eq!(
        manifest.to_toml(),
        format!("{FLAT}\"owner/repo:tool\" = \"v3\"\n")
    );
    let manifest = sink::github::add(load(FLAT), dependency, false).unwrap();
    let text = manifest.to_toml();
    assert_eq!(
        text,
        format!(
            "{FLAT}\n[GitHub.dependencies.\"owner/repo:tool\"]\nversion = \"v3\"\ndestination = \"bin\"\ngitignore = false\n"
        )
    );
    let reloaded = load(&text);
    match &reloaded.providers[0].1.dependencies {
        Some(Grouping::Singular(entries)) => {
            assert_eq!(entries.len(), 3);
            assert_eq!(entries[2].0, "owner/repo:tool");
            match &entries[2].1 {
                DependencyType::Full(read) => {
                    assert_eq!(read.pathspec.to_string(), "owner/repo:tool");
                    assert_eq!(read.destination, "bin");
                    assert!(matches!(&read.version, GitHubVersion::Tag(tag) if tag == "v3"));
                    assert!(!read.gitignore);
                }
                other => panic!("read as {other:?}"),
            }
        }
        other => panic!("reloaded as {other:?}"),
    }
}

#[test]
fn github_add_refuses_what_is_there_or_incomplete() {
    let dependency = GitHubDependency::new(
        String::from("owner/repo:first"),
        None,
        None,
        true,
        &None,
    )
    .unwrap();
    let manifest = load(FLAT);
    assert!(matches!(
        sink::github::add::refusal(&manifest, &dependency),
        Some(sink::SinkError::Add(AddError::DuplicateKey(key))) if key == "owner/repo:first"
    ));
    match sink::github::add(manifest, dependency, true) {
        Err(error) => assert_eq!(
            error.to_string(),
            "Failed to add dependency! Caused by: Dependency 'owner/repo:first' already exists!"
        ),
        Ok(_) => panic!("added twice"),
    }
    let mut incomplete = GitHubDependency::new(
        String::from("owner/repo:new"),
        None,
        None,
        true,
        &None,
    )
    .unwrap();
    incomplete.pathspec.owner = String::new();
    assert!(matches!(
        sink::github::add::refusal(&load(FLAT), &incomplete),
        Some(sink::SinkError::InvalidDependency(text)) if text == "/repo:new"
    ));
    match sink::github::add(load(FLAT), incomplete, true) {
        Err(error) => {
            assert!(matches!(&error, sink::SinkError::InvalidDependency(text) if text == "/repo:new"));
            assert_eq!(
                error.chain(),
                vec!["Failed to add dependency!", "Invalid dependency: '/repo:new'!"]
            );
            assert_eq!(
                error.to_string(),
                "Failed to add dependency! Caused by: Invalid dependency: '/repo:new'!"
            );
        }
        Ok(_) => panic!("added"),
    }
}

#[test]
fn every_failure_to_add_says_so_first() {
    let fine = || {
        GitHubDependency::new(String::from("owner/repo:new"), None, None, true, &None).unwrap()
    };
    let taken = || {
        GitHubDependency::new(String::from("owner/repo:first"), None, None, true, &None).unwrap()
    };
    let mut incomplete = fine();
    incomplete.pathspec.pattern = String::new();
    let failures = [
        sink::github::add(load(FLAT), taken(), true),
        sink::github::add(load(FLAT), incomplete.clone(), false),
        sink::github::add(load(GROUPED.replace("default-group = \"dev\"\n", "").as_str()), fine(), true),
        sink::github::add_after(load(FLAT), fine(), true, Err(String::from("no network"))),
        sink::github::add_after(load(FLAT), taken(), true, Err(String::from("no network"))),
        sink::github::add_after(load(FLAT), incomplete, true, Ok(())),
    ];
    let reports: Vec<String> = failures
        .into_iter()
        .map(|failure| match failure {
            Err(error) => {
                assert_eq!(error.chain()[0], "Failed to add dependency!");
                assert_eq!(error.chain().len(), 2);
                error.to_string()
            }
            Ok(_) => panic!("added"),
        })
        .collect();
    assert_eq!(
        reports,
        vec![
            "Failed to add dependency! Caused by: Dependency 'owner/repo:first' already exists!",
            "Failed to add dependency! Caused by: Invalid dependency: 'owner/repo:'!",
            "Failed to add dependency! Caused by: The dependencies are grouped, but no group was given!",
            "Failed to add dependency! Caused by: no network",
            "Failed to add dependency! Caused by: Dependency 'owner/repo:first' already exists!",
            "Failed to add dependency! Caused by: Invalid dependency: 'owner/repo:'!",
        ]
    );
}

#[test]
fn add_after_adds_only_what_was_installed() {
    let dependency =
        GitHubDependency::new(String::from("owner/repo:new"), None, None, true, &None).unwrap();
    let manifest = sink::github::add_after(load(FLAT), dependency.clone(), true, Ok(())).unwrap();
    assert_eq!(
        manifest.to_toml(),
        format!("{FLAT}\"owner/repo:new\" = \"latest\"\n")
    );
    assert!(matches!(
        sink::github::add_after(load(FLAT), dependency, true, Err(String::from("gone"))),
        Err(sink::SinkError::Download(cause)) if cause == "gone"
    ));
}

#[test]
fn add_into_tables_written_in_one_line_is_written_out() {
    let text = "[GitHub]\ndependencies = { \"owner/repo:a\" = \"v1\" }\n";
    let dependency = GitHubDependency::new(
        String::from("owner/repo:b"),
        None,
        None,
        true,
        &None,
    )
    .unwrap();
    let manifest = sink::github::add(load(text), dependency, false).unwrap();
    let reloaded = load(&manifest.to_toml());
    match &reloaded.providers[0].1.dependencies {
        Some(Grouping::Singular(entries)) => {
            assert_eq!(entries.len(), 2);
            assert_eq!(entries[1].0, "owner/repo:b");
            assert!(matches!(&entries[1].1, DependencyType::Full(read) if read.gitignore));
        }
        other => panic!("reloaded as {other:?}"),
    }

    let text = "Other = { provider = \"x\" }\n";
    let mut manifest = load(text);
    let (entry, value) = short("v1");
    manifest
        .add_dependency(
            "Other",
            Some(String::from("dev")),
            String::from("owner/repo:c"),
            entry,
            value,
        )
        .unwrap();
    let reloaded = load(&manifest.to_toml());
    match &reloaded.providers[0].1.dependencies {
        Some(Grouping::Grouped(groups)) => {
            assert_eq!(groups.len(), 1);
            assert_eq!(groups[0].0, "dev");
            assert_eq!(groups[0].1[0].0, "owner/repo:c");
        }
        other => panic!("reloaded as {other:?}"),
    }
}

#[test]
fn install_plan_lists_every_entry_in_order() {
    let text = r#"default-owner = "me"

[First.dependencies]
"owner/repo:a" = "v1"
"repo:b" = "latest"
"no pathspec" = "v2"
"owner/repo:c" = { version = "v3", destination = "bin", gitignore = false }

[Second]
default-owner = "you"

[Second.dependencies.dev]
"repo:d" = "prerelease"

[Second.dependencies.prod]
"owner/repo:e" = "v4"

[Third]
provider = "none yet"
"#;
    let mut manifest = load(text);
    if let Some(Grouping::Grouped(groups)) = &mut manifest.providers[1].1.dependencies {
        groups[1].1.push((
            String::from("broken"),
            DependencyType::Invalid(Malformation::Shape),
        ));
    }
    let plan = manifest.install_plan();
    let summary: Vec<String> = plan
        .iter()
        .map(|outcome| match outcome {
            Ok(dependency) => format!(
                "{}@{} into {} ({})",
                dependency.pathspec.to_string(),
                dependency.version.to_string(),
                dependency.destination,
                dependency.gitignore
            ),
            Err(e) => e.to_string(),
        })
        .collect();
    assert_eq!(
        summary,
        vec![
            "owner/repo:a@v1 into . (true)",
            "me/repo:b@latest into . (true)",
            "Invalid dependency path specification: 'me/no pathspec'! Please ensure it's in the form of 'owner/repo:pattern'!",
            "owner/repo:c@v3 into bin (false)",
            "you/repo:d@prerelease into . (true)",
            "owner/repo:e@v4 into . (true)",
            "Failed to parse TOML data! Caused by: Invalid dependency entry for 'broken' of 'Second'!",
        ]
    );
}

#[test]
fn a_malformed_table_is_read_as_invalid_and_fails_validation() {
    let text = "[GitHub.dependencies]\n\"owner/repo:good\" = \"v1\"\n\"owner/repo:bad\" = { destination = \".\", gitignore = true }\n";
    let doc = text.parse::<toml_edit::DocumentMut>().unwrap();
    let manifest = SinkTOML::read_document(doc, String::from("sink.toml")).unwrap();
    match &manifest.providers[0].1.dependencies {
        Some(Grouping::Singular(entries)) => {
            assert_eq!(entries.len(), 2);
            assert!(matches!(&entries[0].1, DependencyType::Version(_)));
            assert!(matches!(
                &entries[1].1,
                DependencyType::Invalid(Malformation::Version)
            ));
        }
        other => panic!("read as {other:?}"),
    }
    match manifest.validate() {
        Err(ValidationError::MalformedEntries { provider, key }) => {
            assert_eq!(provider, "GitHub");
            assert_eq!(key, "owner/repo:bad");
        }
        Ok(()) => panic!("validated"),
    }
    assert_eq!(manifest.to_toml(), text);
}

#[test]
fn unusual_documents_are_read_without_surprise() {
    let dotted = "GitHub.dependencies.\"owner/repo:a\" = \"v1\"\n";
    let mut manifest = load(dotted);
    assert!(matches!(
        &manifest.providers[0].1.dependencies,
        Some(Grouping::Singular(entries)) if entries.len() == 1 && entries[0].0 == "owner/repo:a"
    ));
    let (entry, value) = short("v2");
    manifest
        .add_dependency("GitHub", None, String::from("owner/repo:b"), entry, value)
        .unwrap();
    let reloaded = load(&manifest.to_toml());
    assert!(matches!(
        &reloaded.providers[0].1.dependencies,
        Some(Grouping::Singular(entries)) if entries.len() == 2
    ));

    assert!(matches!(
        SinkTOML::from_toml("[[GitHub]]\nprovider = \"x\"\n", String::from("sink.toml")),
        Err(LoadError::Structure(key)) if key == "GitHub"
    ));
    assert!(matches!(
        SinkTOML::from_toml("[[includes]]\npath = \"x\"\n", String::from("sink.toml")),
        Err(LoadError::Structure(key)) if key == "includes"
    ));

    let unknown = "[GitHub]\ncolour = \"green\"\n[GitHub.dependencies]\n";
    let manifest = load(unknown);
    assert!(matches!(
        &manifest.providers[0].1.dependencies,
        Some(Grouping::Singular(entries)) if entries.is_empty()
    ));

    let empty_group = "[GitHub.dependencies.dev]\n";
    let manifest = load(empty_group);
    assert!(matches!(
        &manifest.providers[0].1.dependencies,
        Some(Grouping::Grouped(groups)) if groups.len() == 1 && groups[0].1.is_empty()
    ));
}

#[test]
fn a_document_without_a_root_table_is_written_as_nothing() {
    let mut manifest = load(FLAT);
    assert_eq!(manifest.to_toml(), FLAT);
    assert_eq!(manifest.try_to_toml().as_deref(), Some(FLAT));
    *manifest.formatted.as_item_mut() = toml_edit::value("no table");
    assert_eq!(manifest.to_toml(), "");
    assert_eq!(manifest.try_to_toml(), None);
    let (entry, value) = short("v1");
    assert!(matches!(
        manifest.add_dependency("GitHub", None, String::from("owner/repo:z"), entry, value),
        Err(AddError::CorruptContainer)
    ));
}

#[test]
fn a_table_with_any_field_of_an_entry_is_an_entry() {
    for text in [
        "{ gitignore = true }",
        "{ repository = \"a/b:c\" }",
        "{ origin = \"a/b:c\" }",
        "{ destination = \".\" }",
        "{ version = \"v1\" }",
    ] {
        let item = text.parse::<toml_edit::Item>().unwrap();
        assert!(!Grouping::is_group(&item), "{text}");
    }
    for text in ["{ }", "{ \"owner/repo:a\" = \"v1\" }", "{ other = 1 }"] {
        let item = text.parse::<toml_edit::Item>().unwrap();
        assert!(Grouping::is_group(&item), "{text}");
    }
    assert!(!Grouping::is_group(&toml_edit::value("v1")));
    let text = "[GitHub.dependencies]\n\"owner/repo:a\" = \"v1\"\n\"owner/repo:b\" = { gitignore = true }\n";
    match SinkTOML::from_toml(text, String::from("sink.toml")) {
        Err(LoadError::Validation(ValidationError::MalformedEntries { provider, key })) => {
            assert_eq!(provider, "GitHub");
            assert_eq!(key, "owner/repo:b");
        }
        other => panic!("loaded as {other:?}"),
    }
}

#[test]
fn the_full_form_is_written_as_the_table_around_it() {
    let dependency = GitHubDependency::new(
        String::from("owner/repo:b"),
        Some(String::from("bin")),
        None,
        true,
        &None,
    )
    .unwrap();
    let headed = load("[GitHub.dependencies]\n\"owner/repo:a\" = \"v1\"\n");
    assert!(headed.holds_headed("GitHub", &None));
    assert!(sink::github::add::formatted_value(&dependency, false, true).is_table());
    assert!(sink::github::add::formatted_value(&dependency, false, false).is_inline_table());
    assert!(sink::github::add::formatted_value(&dependency, true, true).is_str());
    let manifest = sink::github::add(headed, dependency.clone(), false).unwrap();
    assert_eq!(
        manifest.to_toml(),
        "[GitHub.dependencies]\n\"owner/repo:a\" = \"v1\"\n\n[GitHub.dependencies.\"owner/repo:b\"]\nversion = \"latest\"\ndestination = \"bin\"\ngitignore = true\n"
    );

    let in_line = load("[GitHub]\ndependencies = { \"owner/repo:a\" = \"v1\" }\n");
    assert!(!in_line.holds_headed("GitHub", &None));
    let manifest = sink::github::add(in_line, dependency.clone(), false).unwrap();
    assert_eq!(
        manifest.to_toml(),
        "[GitHub]\ndependencies = { \"owner/repo:a\" = \"v1\" , \"owner/repo:b\" = { version = \"latest\", destination = \"bin\", gitignore = true } }\n"
    );

    let none_yet = load("# nothing here\n");
    assert!(none_yet.holds_headed("GitHub", &None));
    assert!(none_yet.holds_headed("GitHub", &Some(String::from("dev"))));
    let section_in_line = load("GitHub = { provider = \"GitHub\" }\n");
    assert!(!section_in_line.holds_headed("GitHub", &None));
    assert!(!section_in_line.holds_headed("GitHub", &Some(String::from("dev"))));
    assert!(section_in_line.holds_headed("Other", &None));
}

#[test]
fn a_value_fits_a_table_or_does_not() {
    let headed = load("[GitHub.dependencies]\n");
    let in_line = load("[GitHub]\ndependencies = { }\n");
    let table = toml_edit::table();
    let tables = toml_edit::array();
    let text = toml_edit::value("v1");
    let one_line = "{ version = \"v1\" }".parse::<toml_edit::Item>().unwrap();
    let nothing = toml_edit::Item::None;
    for (value, in_headed, in_one_line) in [
        (&table, true, false),
        (&tables, true, false),
        (&text, true, true),
        (&one_line, true, true),
        (&nothing, false, false),
    ] {
        assert_eq!(headed.fits("GitHub", &None, value), in_headed);
        assert_eq!(in_line.fits("GitHub", &None, value), in_one_line);
    }
}
