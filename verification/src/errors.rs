use vstd::prelude::*;
use vstd::string::StringExecFns;

verus! {

/// A dependency identifier could not be read.
#[derive(Debug)]
pub enum ParseError {
    /// The text is not of the form `owner/repository:pattern`. Holds the
    /// text that was rejected.
    MalformedPathspec(String),
}

/// A manifest holds something that is no dependency.
#[derive(Debug)]
pub enum ValidationError {
    /// The first offender, in the order of the manifest: the provider and
    /// the key of the entry, or `dependencies` where the provider's whole
    /// table is at fault.
    MalformedEntries { provider: String, key: String },
}

/// A manifest could not be loaded.
#[derive(Debug)]
pub enum LoadError {
    /// The file could not be read. Holds the cause.
    Io(String),
    /// The text is not TOML. Holds what the parser found wrong.
    Syntax(String),
    /// A key of the manifest holds a value of the wrong kind. Holds the key.
    Structure(String),
    /// The manifest was read and holds malformed entries.
    Validation(ValidationError),
}

/// A dependency could not be added; the manifest is as it was.
#[derive(Debug)]
pub enum AddError {
    /// A group was named, but the provider's dependencies are not grouped.
    GroupedIntoSingular,
    /// The key is taken already. Holds the key.
    DuplicateKey(String),
    /// No group was named, but the provider's dependencies are grouped.
    MissingGroupForGroupedContainer,
    /// The provider's dependencies are of no known shape, or the formatted
    /// document has no room for them.
    CorruptContainer,
}

/// A manifest could not be saved.
#[derive(Debug)]
pub enum SaveError {
    /// The file could not be written. Holds the cause.
    Io(String),
    /// The document has no table under a header at its root, so that there
    /// is no text to write.
    Unwritable,
}

/// Whatever can go wrong, with the operation that it went wrong in.
#[derive(Debug)]
pub enum SinkError {
    Parse(ParseError),
    Validation(ValidationError),
    Load(LoadError),
    /// The manifest refused the entry.
    Add(AddError),
    /// A dependency was to be added of which a part of the pathspec is
    /// empty. Holds the pathspec as it is written.
    InvalidDependency(String),
    /// A dependency was to be added and could not be installed first.
    /// Holds the cause.
    Download(String),
    /// A dependency was added and the manifest could not be saved with it.
    SaveAdded(SaveError),
    Save(SaveError),
}

/// Mathematical model of a [`ParseError`].
pub enum ParseErrorView {
    MalformedPathspec(Seq<char>),
}

/// Mathematical model of a [`ValidationError`].
pub enum ValidationErrorView {
    MalformedEntries { provider: Seq<char>, key: Seq<char> },
}

/// Mathematical model of a [`LoadError`].
pub enum LoadErrorView {
    Io(Seq<char>),
    Syntax(Seq<char>),
    Structure(Seq<char>),
    Validation(ValidationErrorView),
}

/// Mathematical model of an [`AddError`].
pub enum AddErrorView {
    GroupedIntoSingular,
    DuplicateKey(Seq<char>),
    MissingGroupForGroupedContainer,
    CorruptContainer,
}

/// Mathematical model of a [`SaveError`].
pub enum SaveErrorView {
    Io(Seq<char>),
    Unwritable,
}

/// Mathematical model of a [`SinkError`].
pub enum SinkErrorView {
    Parse(ParseErrorView),
    Validation(ValidationErrorView),
    Load(LoadErrorView),
    Add(AddErrorView),
    InvalidDependency(Seq<char>),
    Download(Seq<char>),
    SaveAdded(SaveErrorView),
    Save(SaveErrorView),
}

impl View for ParseError {
    type V = ParseErrorView;

    open spec fn view(&self) -> ParseErrorView {
        match self {
            ParseError::MalformedPathspec(text) => ParseErrorView::MalformedPathspec(text@),
        }
    }
}

impl View for ValidationError {
    type V = ValidationErrorView;

    open spec fn view(&self) -> ValidationErrorView {
        match self {
            ValidationError::MalformedEntries { provider, key } => ValidationErrorView::MalformedEntries {
                provider: provider@,
                key: key@,
            },
        }
    }
}

impl View for LoadError {
    type V = LoadErrorView;

    open spec fn view(&self) -> LoadErrorView {
        match self {
            LoadError::Io(cause) => LoadErrorView::Io(cause@),
            LoadError::Syntax(cause) => LoadErrorView::Syntax(cause@),
            LoadError::Structure(key) => LoadErrorView::Structure(key@),
            LoadError::Validation(e) => LoadErrorView::Validation(e@),
        }
    }
}

impl View for AddError {
    type V = AddErrorView;

    open spec fn view(&self) -> AddErrorView {
        match self {
            AddError::GroupedIntoSingular => AddErrorView::GroupedIntoSingular,
            AddError::DuplicateKey(key) => AddErrorView::DuplicateKey(key@),
            AddError::MissingGroupForGroupedContainer => AddErrorView::MissingGroupForGroupedContainer,
            AddError::CorruptContainer => AddErrorView::CorruptContainer,
        }
    }
}

impl View for SaveError {
    type V = SaveErrorView;

    open spec fn view(&self) -> SaveErrorView {
        match self {
            SaveError::Io(cause) => SaveErrorView::Io(cause@),
            SaveError::Unwritable => SaveErrorView::Unwritable,
        }
    }
}

impl View for SinkError {
    type V = SinkErrorView;

    open spec fn view(&self) -> SinkErrorView {
        match self {
            SinkError::Parse(e) => SinkErrorView::Parse(e@),
            SinkError::Validation(e) => SinkErrorView::Validation(e@),
            SinkError::Load(e) => SinkErrorView::Load(e@),
            SinkError::Add(e) => SinkErrorView::Add(e@),
            SinkError::InvalidDependency(pathspec) => SinkErrorView::InvalidDependency(pathspec@),
            SinkError::Download(cause) => SinkErrorView::Download(cause@),
            SinkError::SaveAdded(e) => SinkErrorView::SaveAdded(e@),
            SinkError::Save(e) => SinkErrorView::Save(e@),
        }
    }
}

/// What a malformed pathspec is reported as.
pub open spec fn parse_error_text(e: ParseErrorView) -> Seq<char> {
    match e {
        ParseErrorView::MalformedPathspec(text) => "Invalid dependency path specification: '"@ + text
            + "'! Please ensure it's in the form of 'owner/repo:pattern'!"@,
    }
}

/// What a malformed entry is reported as.
pub open spec fn validation_error_text(e: ValidationErrorView) -> Seq<char> {
    match e {
        ValidationErrorView::MalformedEntries { provider, key } => "Invalid dependency entry for '"@
            + key + "' of '"@ + provider + "'!"@,
    }
}

/// What a failure to load is reported as, without what caused it.
pub open spec fn load_error_text(e: LoadErrorView) -> Seq<char> {
    match e {
        LoadErrorView::Io(cause) => cause,
        LoadErrorView::Syntax(cause) => cause,
        LoadErrorView::Structure(key) => "Unexpected value for '"@ + key + "'!"@,
        LoadErrorView::Validation(_) => "Failed to parse TOML data!"@,
    }
}

/// What a failure to add is reported as.
pub open spec fn add_error_text(e: AddErrorView) -> Seq<char> {
    match e {
        AddErrorView::GroupedIntoSingular => "The dependencies are not grouped, but a group was given!"@,
        AddErrorView::DuplicateKey(key) => "Dependency '"@ + key + "' already exists!"@,
        AddErrorView::MissingGroupForGroupedContainer => "The dependencies are grouped, but no group was given!"@,
        AddErrorView::CorruptContainer => "The dependencies are malformed!"@,
    }
}

/// What a failure to save is reported as.
pub open spec fn save_error_text(e: SaveErrorView) -> Seq<char> {
    match e {
        SaveErrorView::Io(cause) => cause,
        SaveErrorView::Unwritable => "The document has no table at its root!"@,
    }
}

/// What a dependency with an empty part in its pathspec is reported as.
pub open spec fn invalid_dependency_text(pathspec: Seq<char>) -> Seq<char> {
    "Invalid dependency: '"@ + pathspec + "'!"@
}

/// The first message of every failure to add a dependency.
pub open spec fn add_context() -> Seq<char> {
    "Failed to add dependency!"@
}

/// Whether an error is a failure to add a dependency.
pub open spec fn is_add_failure(e: SinkErrorView) -> bool {
    e is Add || e is InvalidDependency || e is Download || e is SaveAdded
}

/// A failure to add a dependency says so first and gives its cause behind
/// that.
pub proof fn lemma_add_failure_says_so(e: SinkErrorView)
    requires
        is_add_failure(e),
    ensures
        cause_chain(e).len() >= 2,
        cause_chain(e)[0] == add_context(),
{
}

/// The messages of an error, from the operation that failed down to the
/// first cause.
pub open spec fn cause_chain(e: SinkErrorView) -> Seq<Seq<char>> {
    match e {
        SinkErrorView::Parse(e) => seq![parse_error_text(e)],
        SinkErrorView::Validation(e) => seq!["Failed to parse TOML data!"@, validation_error_text(e)],
        SinkErrorView::Load(e) => match e {
            LoadErrorView::Validation(v) => seq![
                "Failed to load Sink TOML!"@,
                load_error_text(e),
                validation_error_text(v),
            ],
            _ => seq!["Failed to load Sink TOML!"@, load_error_text(e)],
        },
        SinkErrorView::Add(e) => seq![add_context(), add_error_text(e)],
        SinkErrorView::InvalidDependency(pathspec) => seq![
            add_context(),
            invalid_dependency_text(pathspec),
        ],
        SinkErrorView::Download(cause) => seq![add_context(), cause],
        SinkErrorView::SaveAdded(e) => seq![
            add_context(),
            "Failed to save Sink TOML!"@,
            save_error_text(e),
        ],
        SinkErrorView::Save(e) => seq!["Failed to save Sink TOML!"@, save_error_text(e)],
    }
}

/// The messages of a chain in one line: the first as it is, each further
/// one behind the words ` Caused by: `.
pub open spec fn chain_text(chain: Seq<Seq<char>>) -> Seq<char>
    decreases chain.len(),
{
    if chain.len() == 0 {
        Seq::empty()
    } else if chain.len() == 1 {
        chain[0]
    } else {
        chain_text(chain.drop_last()) + " Caused by: "@ + chain.last()
    }
}

impl ParseError {
    /// The report of this error.
    pub fn to_string(&self) -> (text: String)
        ensures
            text@ == parse_error_text(self@),
    {
        match self {
            ParseError::MalformedPathspec(value) => {
                let mut text = String::from_str("Invalid dependency path specification: '");
                text.append(value.as_str());
                text.append("'! Please ensure it's in the form of 'owner/repo:pattern'!");
                text
            },
        }
    }
}

impl ValidationError {
    /// The report of this error.
    pub fn to_string(&self) -> (text: String)
        ensures
            text@ == validation_error_text(self@),
    {
        match self {
            ValidationError::MalformedEntries { provider, key } => {
                let mut text = String::from_str("Invalid dependency entry for '");
                text.append(key.as_str());
                text.append("' of '");
                text.append(provider.as_str());
                text.append("'!");
                text
            },
        }
    }
}

impl LoadError {
    /// The report of this error, without what caused it.
    pub fn to_string(&self) -> (text: String)
        ensures
            text@ == load_error_text(self@),
    {
        match self {
            LoadError::Io(cause) => cause.clone(),
            LoadError::Syntax(cause) => cause.clone(),
            LoadError::Structure(key) => {
                let mut text = String::from_str("Unexpected value for '");
                text.append(key.as_str());
                text.append("'!");
                text
            },
            LoadError::Validation(_) => String::from_str("Failed to parse TOML data!"),
        }
    }
}

impl AddError {
    /// The report of this error.
    pub fn to_string(&self) -> (text: String)
        ensures
            text@ == add_error_text(self@),
    {
        match self {
            AddError::GroupedIntoSingular => String::from_str(
                "The dependencies are not grouped, but a group was given!",
            ),
            AddError::DuplicateKey(key) => {
                let mut text = String::from_str("Dependency '");
                text.append(key.as_str());
                text.append("' already exists!");
                text
            },
            AddError::MissingGroupForGroupedContainer => String::from_str(
                "The dependencies are grouped, but no group was given!",
            ),
            AddError::CorruptContainer => String::from_str("The dependencies are malformed!"),
        }
    }
}

impl SaveError {
    /// The report of this error.
    pub fn to_string(&self) -> (text: String)
        ensures
            text@ == save_error_text(self@),
    {
        match self {
            SaveError::Io(cause) => cause.clone(),
            SaveError::Unwritable => String::from_str("The document has no table at its root!"),
        }
    }
}

impl SinkError {
    /// The messages of this error, from the operation that failed down to
    /// the first cause.
    pub fn chain(&self) -> (messages: Vec<String>)
        ensures
            messages.deep_view() == cause_chain(self@),
    {
        let mut messages: Vec<String> = Vec::new();
        match self {
            SinkError::Parse(e) => {
                messages.push(e.to_string());
            },
            SinkError::Validation(e) => {
                messages.push(String::from_str("Failed to parse TOML data!"));
                messages.push(e.to_string());
            },
            SinkError::Load(e) => {
                messages.push(String::from_str("Failed to load Sink TOML!"));
                messages.push(e.to_string());
                match e {
                    LoadError::Validation(v) => {
                        messages.push(v.to_string());
                    },
                    _ => {},
                }
            },
            SinkError::Add(e) => {
                messages.push(String::from_str("Failed to add dependency!"));
                messages.push(e.to_string());
            },
            SinkError::InvalidDependency(pathspec) => {
                let mut text = String::from_str("Invalid dependency: '");
                text.append(pathspec.as_str());
                text.append("'!");
                messages.push(String::from_str("Failed to add dependency!"));
                messages.push(text);
            },
            SinkError::Download(cause) => {
                messages.push(String::from_str("Failed to add dependency!"));
                messages.push(cause.clone());
            },
            SinkError::SaveAdded(e) => {
                messages.push(String::from_str("Failed to add dependency!"));
                messages.push(String::from_str("Failed to save Sink TOML!"));
                messages.push(e.to_string());
            },
            SinkError::Save(e) => {
                messages.push(String::from_str("Failed to save Sink TOML!"));
                messages.push(e.to_string());
            },
        }
        assert(messages.deep_view() =~= cause_chain(self@));
        messages
    }

    /// The report of this error in one line: what failed, then each cause
    /// behind the words ` Caused by: `.
    pub fn to_string(&self) -> (text: String)
        ensures
            text@ == chain_text(cause_chain(self@)),
    {
        let messages = self.chain();
        let mut text = String::new();
        let mut i: usize = 0;
        while i < messages.len()
            invariant
                i <= messages.len(),
                text@ == chain_text(messages.deep_view().take(i as int)),
            decreases messages.len() - i,
        {
            let ghost before = messages.deep_view().take(i as int);
            let ghost after = messages.deep_view().take(i + 1);
            assert(after.drop_last() =~= before);
            assert(after.last() == messages[i as int]@);
            if i > 0 {
                text.append(" Caused by: ");
            }
            text.append(messages[i].as_str());
            assert(text@ =~= chain_text(after));
            i = i + 1;
        }
        assert(messages.deep_view().take(messages.len() as int) =~= messages.deep_view());
        text
    }
}

impl DeepView for ParseError {
    type V = ParseErrorView;

    open spec fn deep_view(&self) -> ParseErrorView {
        self@
    }
}

impl DeepView for ValidationError {
    type V = ValidationErrorView;

    open spec fn deep_view(&self) -> ValidationErrorView {
        self@
    }
}

impl DeepView for LoadError {
    type V = LoadErrorView;

    open spec fn deep_view(&self) -> LoadErrorView {
        self@
    }
}

impl DeepView for AddError {
    type V = AddErrorView;

    open spec fn deep_view(&self) -> AddErrorView {
        self@
    }
}

impl DeepView for SaveError {
    type V = SaveErrorView;

    open spec fn deep_view(&self) -> SaveErrorView {
        self@
    }
}

impl DeepView for SinkError {
    type V = SinkErrorView;

    open spec fn deep_view(&self) -> SinkErrorView {
        self@
    }
}

} // verus!
