use vstd::prelude::*;
use vstd::string::StringExecFns;

verus! {

/// Selects which release of a dependency to fetch.
#[derive(Debug)]
pub enum GitHubVersion {
    /// The newest stable release.
    Latest,
    /// The newest release, pre-releases included.
    Prerelease,
    /// The release with exactly this tag.
    Tag(String),
}

/// Mathematical model of a [`GitHubVersion`].
pub enum VersionView {
    Latest,
    Prerelease,
    Tag(Seq<char>),
}

impl View for GitHubVersion {
    type V = VersionView;

    open spec fn view(&self) -> VersionView {
        match self {
            GitHubVersion::Latest => VersionView::Latest,
            GitHubVersion::Prerelease => VersionView::Prerelease,
            GitHubVersion::Tag(tag) => VersionView::Tag(tag@),
        }
    }
}

impl DeepView for GitHubVersion {
    type V = VersionView;

    open spec fn deep_view(&self) -> VersionView {
        self@
    }
}

/// The selector that a piece of text stands for: each of the two reserved
/// words selects itself, anything else is taken as a tag, unchanged.
pub open spec fn version_of_text(text: Seq<char>) -> VersionView {
    if text == "latest"@ {
        VersionView::Latest
    } else if text == "prerelease"@ {
        VersionView::Prerelease
    } else {
        VersionView::Tag(text)
    }
}

/// The text that a selector is written as.
pub open spec fn text_of_version(version: VersionView) -> Seq<char> {
    match version {
        VersionView::Latest => "latest"@,
        VersionView::Prerelease => "prerelease"@,
        VersionView::Tag(tag) => tag,
    }
}

/// Writing down the selector that was read from a text gives that text
/// back, whatever the text.
pub proof fn lemma_version_text_round_trip(text: Seq<char>)
    ensures
        text_of_version(version_of_text(text)) == text,
{
}

/// Reading a written selector gives the selector back, unless it is a tag
/// that spells one of the two reserved words.
pub proof fn lemma_version_round_trip(version: VersionView)
    requires
        version != VersionView::Tag("latest"@),
        version != VersionView::Tag("prerelease"@),
    ensures
        version_of_text(text_of_version(version)) == version,
{
    reveal_strlit("latest");
    reveal_strlit("prerelease");
    assert("latest"@.len() != "prerelease"@.len());
}

impl Clone for GitHubVersion {
    fn clone(&self) -> (copy: Self)
        ensures
            copy@ == self@,
    {
        match self {
            GitHubVersion::Latest => GitHubVersion::Latest,
            GitHubVersion::Prerelease => GitHubVersion::Prerelease,
            GitHubVersion::Tag(tag) => GitHubVersion::Tag(tag.clone()),
        }
    }
}

impl<'a> From<&'a str> for GitHubVersion {
    /// Reads a selector from text, as [`GitHubVersion::parse`] does.
    fn from(s: &'a str) -> (version: GitHubVersion)
        ensures
            version@ == version_of_text(s@),
    {
        GitHubVersion::parse(s)
    }
}

/// What the conversion gives is stated with `from` itself, over the models:
/// a tag owns its text, so the result is no value that could be named here.
impl<'a> vstd::std_specs::convert::FromSpecImpl<&'a str> for GitHubVersion {
    open spec fn obeys_from_spec() -> bool {
        false
    }

    open spec fn from_spec(s: &'a str) -> GitHubVersion {
        arbitrary()
    }
}

impl GitHubVersion {
    /// Reads a selector from text. Every text is accepted.
    pub fn parse(s: &str) -> (version: GitHubVersion)
        ensures
            version@ == version_of_text(s@),
    {
        let owned = String::from_str(s);
        if owned == String::from_str("latest") {
            GitHubVersion::Latest
        } else if owned == String::from_str("prerelease") {
            GitHubVersion::Prerelease
        } else {
            GitHubVersion::Tag(owned)
        }
    }

    /// Reads a selector given on the command line. Every text is accepted,
    /// so the result is always `Ok`.
    pub fn parse_cli(s: &str) -> (result: Result<GitHubVersion, String>)
        ensures
            result matches Ok(version) && version@ == version_of_text(s@),
    {
        Ok(GitHubVersion::parse(s))
    }

    /// Writes the selector as text: the reserved word, or the tag as it is.
    pub fn to_string(&self) -> (text: String)
        ensures
            text@ == text_of_version(self@),
    {
        match self {
            GitHubVersion::Latest => String::from_str("latest"),
            GitHubVersion::Prerelease => String::from_str("prerelease"),
            GitHubVersion::Tag(tag) => tag.clone(),
        }
    }
}

} // verus!
