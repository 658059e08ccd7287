use vstd::prelude::*;
use vstd::string::StringExecFns;
use vstd::string::StrSliceExecFns;
use crate::errors::ParseError;
use crate::errors::ParseErrorView;

verus! {

/// Names the release assets of one repository: the files of `repository`,
/// owned by `owner`, whose names match `pattern`.
#[derive(Debug, PartialEq, Eq, Hash, Default)]
pub struct GitHubPathspec {
    pub owner: String,
    pub repository: String,
    pub pattern: String,
}

/// Mathematical model of a [`GitHubPathspec`].
pub struct PathspecView {
    pub owner: Seq<char>,
    pub repository: Seq<char>,
    pub pattern: Seq<char>,
}

impl View for GitHubPathspec {
    type V = PathspecView;

    open spec fn view(&self) -> PathspecView {
        PathspecView { owner: self.owner@, repository: self.repository@, pattern: self.pattern@ }
    }
}

impl DeepView for GitHubPathspec {
    type V = PathspecView;

    open spec fn deep_view(&self) -> PathspecView {
        self@
    }
}

/// The text `owner/repository:pattern`.
pub open spec fn pathspec_text(p: PathspecView) -> Seq<char> {
    p.owner + seq!['/'] + p.repository + seq![':'] + p.pattern
}

/// No part is empty.
pub open spec fn is_complete(p: PathspecView) -> bool {
    p.owner.len() > 0 && p.repository.len() > 0 && p.pattern.len() > 0
}

/// No part is empty, neither separator occurs in the owner or in the
/// repository, and the pattern holds no `:`. These are the parts that can
/// be found again in the text they are written as.
pub open spec fn is_well_formed(p: PathspecView) -> bool {
    &&& is_complete(p)
    &&& !p.owner.contains('/')
    &&& !p.owner.contains(':')
    &&& !p.repository.contains('/')
    &&& !p.repository.contains(':')
    &&& !p.pattern.contains(':')
}

/// `text` is what `p` is written as, and `p` is well formed.
pub open spec fn spells(text: Seq<char>, p: PathspecView) -> bool {
    is_well_formed(p) && pathspec_text(p) == text
}

/// The parts that a text names, if it is of the form
/// `owner/repository:pattern`.
pub open spec fn pathspec_of_text(text: Seq<char>) -> Option<PathspecView> {
    if exists|p: PathspecView| spells(text, p) {
        Some(choose|p: PathspecView| spells(text, p))
    } else {
        None
    }
}

/// The text that stands for `input` when the owner is left to a default.
pub open spec fn with_owner(owner: Seq<char>, input: Seq<char>) -> Seq<char> {
    owner + seq!['/'] + input
}

/// The parts that `input` names: as it stands if it is of the full form;
/// else, where a default owner is set, as `owner/input`. The error names
/// the text that was tried last.
pub open spec fn resolve_pathspec(input: Seq<char>, default_owner: Option<Seq<char>>) -> Result<
    PathspecView,
    ParseErrorView,
> {
    match pathspec_of_text(input) {
        Some(p) => Ok(p),
        None => match default_owner {
            Some(owner) => match pathspec_of_text(with_owner(owner, input)) {
                Some(p) => Ok(p),
                None => Err(ParseErrorView::MalformedPathspec(with_owner(owner, input))),
            },
            None => Err(ParseErrorView::MalformedPathspec(input)),
        },
    }
}

/// How often `c` occurs in `s`.
pub open spec fn occurrences(s: Seq<char>, c: char) -> nat
    decreases s.len(),
{
    if s.len() == 0 {
        0
    } else {
        occurrences(s.drop_last(), c) + if s.last() == c { 1nat } else { 0nat }
    }
}

/// The part of `s` before its first `c`; all of `s` if it holds none.
pub open spec fn before_first(s: Seq<char>, c: char) -> Seq<char>
    decreases s.len(),
{
    if s.len() == 0 || s[0] == c {
        Seq::empty()
    } else {
        seq![s[0]] + before_first(s.drop_first(), c)
    }
}

/// Where the separators stand in the text of well-formed parts, and that the
/// parts can be cut out of it again.
pub proof fn lemma_text_shape(p: PathspecView)
    requires
        is_well_formed(p),
    ensures
        ({
            let text = pathspec_text(p);
            let slash = p.owner.len() as int;
            let colon = slash + 1 + p.repository.len();
            &&& text.len() == colon + 1 + p.pattern.len()
            &&& text[slash] == '/'
            &&& text[colon] == ':'
            &&& forall|k: int| 0 <= k < colon && k != slash ==> text[k] != '/' && text[k] != ':'
            &&& forall|k: int| colon < k < text.len() ==> text[k] != ':'
            &&& text.subrange(0, slash) == p.owner
            &&& text.subrange(slash + 1, colon) == p.repository
            &&& text.subrange(colon + 1, text.len() as int) == p.pattern
        }),
{
    let text = pathspec_text(p);
    let slash = p.owner.len() as int;
    let colon = slash + 1 + p.repository.len();
    assert forall|k: int| 0 <= k < colon && k != slash implies text[k] != '/' && text[k] != ':' by {
        if k < slash {
            assert(text[k] == p.owner[k]);
        } else {
            assert(text[k] == p.repository[k - slash - 1]);
        }
    }
    assert forall|k: int| colon < k < text.len() implies text[k] != ':' by {
        assert(text[k] == p.pattern[k - colon - 1]);
    }
    assert(text.subrange(0, slash) =~= p.owner);
    assert(text.subrange(slash + 1, colon) =~= p.repository);
    assert(text.subrange(colon + 1, text.len() as int) =~= p.pattern);
}

/// A text is written by at most one well-formed triple of parts.
pub proof fn lemma_spelling_unique(text: Seq<char>, p: PathspecView, q: PathspecView)
    requires
        spells(text, p),
        spells(text, q),
    ensures
        p == q,
{
    lemma_text_shape(p);
    lemma_text_shape(q);
    let p_slash = p.owner.len() as int;
    let p_colon = p_slash + 1 + p.repository.len();
    let q_slash = q.owner.len() as int;
    let q_colon = q_slash + 1 + q.repository.len();
    assert(p_colon == q_colon) by {
        if p_colon < q_colon {
            assert(text[p_colon] == ':');
        } else if q_colon < p_colon {
            assert(text[q_colon] == ':');
        }
    }
    assert(p_slash == q_slash) by {
        if p_slash < q_slash {
            assert(text[p_slash] == '/');
        } else if q_slash < p_slash {
            assert(text[q_slash] == '/');
        }
    }
}

/// Writing well-formed parts down and reading the text again gives the same
/// parts.
pub proof fn lemma_pathspec_round_trip(p: PathspecView)
    requires
        is_well_formed(p),
    ensures
        pathspec_of_text(pathspec_text(p)) == Some(p),
{
    let text = pathspec_text(p);
    assert(spells(text, p));
    let q = choose|q: PathspecView| spells(text, q);
    lemma_spelling_unique(text, p, q);
}

/// Whatever is read from a text is well formed and is written as that text.
pub proof fn lemma_pathspec_of_text_spells(text: Seq<char>)
    requires
        pathspec_of_text(text) is Some,
    ensures
        spells(text, pathspec_of_text(text)->0),
{
}

proof fn lemma_occurrences_concat(a: Seq<char>, b: Seq<char>, c: char)
    ensures
        occurrences(a + b, c) == occurrences(a, c) + occurrences(b, c),
    decreases b.len(),
{
    if b.len() == 0 {
        assert(a + b =~= a);
    } else {
        assert((a + b).drop_last() =~= a + b.drop_last());
        lemma_occurrences_concat(a, b.drop_last(), c);
    }
}

proof fn lemma_occurrences_absent(s: Seq<char>, c: char)
    requires
        !s.contains(c),
    ensures
        occurrences(s, c) == 0,
    decreases s.len(),
{
    if s.len() > 0 {
        assert(s.last() == s[s.len() - 1]);
        assert forall|i: int| 0 <= i < s.drop_last().len() implies s.drop_last()[i] != c by {
            assert(s.drop_last()[i] == s[i]);
        }
        lemma_occurrences_absent(s.drop_last(), c);
    }
}

proof fn lemma_occurrences_single(x: char, c: char)
    ensures
        occurrences(seq![x], c) == if x == c { 1nat } else { 0nat },
{
    assert(seq![x].drop_last() =~= Seq::<char>::empty());
    assert(occurrences(seq![x].drop_last(), c) == 0);
}

proof fn lemma_before_first_concat(a: Seq<char>, b: Seq<char>, c: char)
    requires
        !a.contains(c),
    ensures
        before_first(a + seq![c] + b, c) == a,
    decreases a.len(),
{
    let s = a + seq![c] + b;
    if a.len() == 0 {
        assert(s[0] == c);
        assert(before_first(s, c) =~= a);
    } else {
        assert(s[0] == a[0]);
        assert(a[0] != c);
        assert(s.drop_first() =~= a.drop_first() + seq![c] + b);
        assert forall|i: int| 0 <= i < a.drop_first().len() implies a.drop_first()[i] != c by {
            assert(a.drop_first()[i] == a[i + 1]);
        }
        lemma_before_first_concat(a.drop_first(), b, c);
        assert(seq![s[0]] + a.drop_first() =~= a);
    }
}

/// A text with no `:` or with more than one names nothing.
pub proof fn lemma_rejects_colon_count(text: Seq<char>)
    requires
        occurrences(text, ':') != 1,
    ensures
        pathspec_of_text(text) is None,
{
    if exists|p: PathspecView| spells(text, p) {
        let p = choose|p: PathspecView| spells(text, p);
        lemma_occurrences_concat(p.owner + seq!['/'] + p.repository + seq![':'], p.pattern, ':');
        lemma_occurrences_concat(p.owner + seq!['/'] + p.repository, seq![':'], ':');
        lemma_occurrences_concat(p.owner + seq!['/'], p.repository, ':');
        lemma_occurrences_concat(p.owner, seq!['/'], ':');
        lemma_occurrences_absent(p.owner, ':');
        lemma_occurrences_absent(p.repository, ':');
        lemma_occurrences_absent(p.pattern, ':');
        lemma_occurrences_single('/', ':');
        lemma_occurrences_single(':', ':');
    }
}

/// A text with no `/` before its first `:`, or with more than one, names
/// nothing.
pub proof fn lemma_rejects_slash_count(text: Seq<char>)
    requires
        occurrences(before_first(text, ':'), '/') != 1,
    ensures
        pathspec_of_text(text) is None,
{
    if exists|p: PathspecView| spells(text, p) {
        let p = choose|p: PathspecView| spells(text, p);
        let head = p.owner + seq!['/'] + p.repository;
        assert(!head.contains(':')) by {
            assert forall|i: int| 0 <= i < head.len() implies head[i] != ':' by {
                if i < p.owner.len() {
                    assert(head[i] == p.owner[i]);
                } else if i > p.owner.len() {
                    assert(head[i] == p.repository[i - p.owner.len() - 1]);
                }
            }
        }
        lemma_before_first_concat(head, p.pattern, ':');
        lemma_occurrences_concat(p.owner + seq!['/'], p.repository, '/');
        lemma_occurrences_concat(p.owner, seq!['/'], '/');
        lemma_occurrences_absent(p.owner, '/');
        lemma_occurrences_absent(p.repository, '/');
        lemma_occurrences_single('/', '/');
    }
}

/// The short form `repository:pattern` is read with the default owner in
/// front, provided the three parts together are well formed.
pub proof fn lemma_short_form(p: PathspecView)
    requires
        is_well_formed(p),
    ensures
        resolve_pathspec(p.repository + seq![':'] + p.pattern, Some(p.owner)) == Ok::<
            PathspecView,
            ParseErrorView,
        >(p),
{
    let short = p.repository + seq![':'] + p.pattern;
    lemma_before_first_concat(p.repository, p.pattern, ':');
    lemma_occurrences_absent(p.repository, '/');
    lemma_rejects_slash_count(short);
    assert(with_owner(p.owner, short) =~= pathspec_text(p));
    lemma_pathspec_round_trip(p);
}

/// What a scan of the first `n` characters of `s` has found: the first `:`,
/// the first `/` before it, and whether any further separator turned up
/// where none may stand.
spec fn scanned(s: Seq<char>, n: int, slash: Option<usize>, colon: Option<usize>, clean: bool) -> bool {
    let limit = match colon {
        Some(j) => j as int,
        None => n,
    };
    &&& 0 <= n <= s.len()
    &&& match colon {
        Some(j) => j < n && s[j as int] == ':' && (forall|k: int| 0 <= k < j ==> s[k] != ':'),
        None => forall|k: int| 0 <= k < n ==> s[k] != ':',
    }
    &&& match slash {
        Some(i) => i < limit && s[i as int] == '/' && (forall|k: int| 0 <= k < i ==> s[k] != '/'),
        None => forall|k: int| 0 <= k < limit ==> s[k] != '/',
    }
    &&& clean <==> {
        &&& forall|k: int| limit < k < n ==> s[k] != ':'
        &&& slash matches Some(i) ==> forall|k: int| i < k < limit ==> s[k] != '/'
    }
}

/// The scan's verdict on the whole text: the separators stand where a
/// pathspec has them, with something on each side.
spec fn accepted(s: Seq<char>, slash: Option<usize>, colon: Option<usize>, clean: bool) -> bool {
    &&& clean
    &&& slash matches Some(i)
    &&& colon matches Some(j)
    &&& 0 < i
    &&& i + 1 < j
    &&& j + 1 < s.len()
}

proof fn lemma_scan_complete(s: Seq<char>, slash: Option<usize>, colon: Option<usize>, clean: bool, p: PathspecView)
    requires
        scanned(s, s.len() as int, slash, colon, clean),
        spells(s, p),
    ensures
        accepted(s, slash, colon, clean),
        slash == Some(p.owner.len() as usize),
        colon == Some((p.owner.len() + 1 + p.repository.len()) as usize),
{
    lemma_text_shape(p);
    let a = p.owner.len() as int;
    let b = a + 1 + p.repository.len();
    assert(s[b] == ':');
    assert(s[a] == '/');
    match colon {
        Some(j) => {
            if j < b {
                assert(s[j as int] == ':');
            }
        },
        None => {},
    }
    match slash {
        Some(i) => {
            if i < a {
                assert(s[i as int] == '/');
            }
        },
        None => {},
    }
}

impl Clone for GitHubPathspec {
    fn clone(&self) -> (copy: Self)
        ensures
            copy@ == self@,
    {
        GitHubPathspec {
            owner: self.owner.clone(),
            repository: self.repository.clone(),
            pattern: self.pattern.clone(),
        }
    }
}

impl From<GitHubPathspec> for String {
    /// Writes the parts as `owner/repository:pattern`.
    fn from(value: GitHubPathspec) -> (text: String)
        ensures
            text@ == pathspec_text(value@),
    {
        value.to_string()
    }
}

/// What the conversion gives is stated with `from` itself, over the models.
impl vstd::std_specs::convert::FromSpecImpl<GitHubPathspec> for String {
    open spec fn obeys_from_spec() -> bool {
        false
    }

    open spec fn from_spec(value: GitHubPathspec) -> String {
        arbitrary()
    }
}

impl TryFrom<String> for GitHubPathspec {
    type Error = ParseError;

    /// Reads `owner/repository:pattern`, as [`GitHubPathspec::try_from`] does.
    fn try_from(value: String) -> (result: Result<GitHubPathspec, ParseError>)
        ensures
            match result {
                Ok(p) => pathspec_of_text(value@) == Some(p@),
                Err(e) => pathspec_of_text(value@) is None && e@
                    == ParseErrorView::MalformedPathspec(value@),
            },
    {
        GitHubPathspec::try_from(value)
    }
}

/// What the conversion gives is stated with `try_from` itself, over the
/// models.
impl vstd::std_specs::convert::TryFromSpecImpl<String> for GitHubPathspec {
    open spec fn obeys_try_from_spec() -> bool {
        false
    }

    open spec fn try_from_spec(value: String) -> Result<GitHubPathspec, ParseError> {
        arbitrary()
    }
}

impl GitHubPathspec {
    /// Whether no part is empty.
    pub fn is_valid(&self) -> (valid: bool)
        ensures
            valid == is_complete(self@),
    {
        !self.owner.as_str().is_empty() && !self.repository.as_str().is_empty()
            && !self.pattern.as_str().is_empty()
    }

    /// Writes the parts as `owner/repository:pattern`.
    pub fn to_string(&self) -> (text: String)
        ensures
            text@ == pathspec_text(self@),
    {
        proof {
            reveal_strlit("/");
            reveal_strlit(":");
        }
        assert("/"@ =~= seq!['/']);
        assert(":"@ =~= seq![':']);
        let mut text = self.owner.clone();
        text.append("/");
        text.append(self.repository.as_str());
        text.append(":");
        text.append(self.pattern.as_str());
        text
    }

    /// Reads `owner/repository:pattern`. The text is accepted if and only if
    /// it holds exactly one `:`, exactly one `/` before it, and something
    /// before, between and after the two; nothing is trimmed or folded.
    pub fn read(text: &str) -> (parts: Option<GitHubPathspec>)
        ensures
            match parts {
                Some(p) => pathspec_of_text(text@) == Some(p@),
                None => pathspec_of_text(text@) is None,
            },
    {
        let len = text.unicode_len();
        let mut slash: Option<usize> = None;
        let mut colon: Option<usize> = None;
        let mut clean = true;
        let mut pos: usize = 0;
        for x in it: text.chars()
            invariant
                it.seq() == text@,
                len == text@.len(),
                pos == it.index(),
                scanned(text@, pos as int, slash, colon, clean),
        {
            if colon.is_none() {
                if x == ':' {
                    colon = Some(pos);
                } else if x == '/' {
                    if slash.is_none() {
                        slash = Some(pos);
                    } else {
                        clean = false;
                    }
                }
            } else if x == ':' {
                clean = false;
            }
            pos = pos + 1;
        }
        let mut parts: Option<GitHubPathspec> = None;
        if clean {
            if let Some(i) = slash {
                if let Some(j) = colon {
                    if 0 < i && i + 1 < j && j + 1 < len {
                        let p = GitHubPathspec {
                            owner: String::from_str(text.substring_char(0, i)),
                            repository: String::from_str(text.substring_char(i + 1, j)),
                            pattern: String::from_str(text.substring_char(j + 1, len)),
                        };
                        proof {
                            assert(pathspec_text(p@) =~= text@);
                            assert(spells(text@, p@));
                            let q = choose|q: PathspecView| spells(text@, q);
                            lemma_spelling_unique(text@, p@, q);
                        }
                        parts = Some(p);
                    }
                }
            }
        }
        proof {
            if parts is None {
                assert forall|p: PathspecView| !spells(text@, p) by {
                    if spells(text@, p) {
                        lemma_scan_complete(text@, slash, colon, clean, p);
                    }
                }
            }
        }
        parts
    }

    /// Reads `owner/repository:pattern` from owned text. Fails, naming the
    /// text, exactly when the text is not of that form.
    pub fn try_from(value: String) -> (result: Result<GitHubPathspec, ParseError>)
        ensures
            match result {
                Ok(p) => pathspec_of_text(value@) == Some(p@),
                Err(e) => pathspec_of_text(value@) is None && e@
                    == ParseErrorView::MalformedPathspec(value@),
            },
    {
        match GitHubPathspec::read(value.as_str()) {
            Some(p) => Ok(p),
            None => Err(ParseError::MalformedPathspec(value)),
        }
    }

    /// Reads a dependency identifier: the full form `owner/repository:pattern`,
    /// or, where a default owner is given, the short form `repository:pattern`,
    /// which is read as if the default owner and a `/` stood in front of it.
    pub fn parse(input: &str, default_owner: &Option<String>) -> (result: Result<
        GitHubPathspec,
        ParseError,
    >)
        ensures
            match result {
                Ok(p) => resolve_pathspec(input@, default_owner.deep_view()) == Ok::<
                    PathspecView,
                    ParseErrorView,
                >(p@),
                Err(e) => resolve_pathspec(input@, default_owner.deep_view()) == Err::<
                    PathspecView,
                    ParseErrorView,
                >(e@),
            },
    {
        match GitHubPathspec::read(input) {
            Some(p) => Ok(p),
            None => match default_owner {
                Some(owner) => {
                    proof {
                        reveal_strlit("/");
                    }
                    assert("/"@ =~= seq!['/']);
                    let mut full = owner.clone();
                    full.append("/");
                    full.append(input);
                    GitHubPathspec::try_from(full)
                },
                None => Err(ParseError::MalformedPathspec(String::from_str(input))),
            },
        }
    }
}

} // verus!
