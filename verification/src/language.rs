//! Languages, their configuration, and the scopes in which a language can
//! override part of its configuration (comments, enabled brackets).
use std::collections::HashMap;
use vstd::prelude::*;
use vstd::std_specs::cmp::PartialEqSpecImpl;

use crate::text::{is_ws, is_whitespace, to_chars};

verus! {

broadcast use vstd::std_specs::hash::group_hash_axioms;

/// A pair of brackets such as `(` and `)`.
pub struct BracketPair {
    /// The opening text.
    pub start: String,
    /// The closing text.
    pub end: String,
    /// Whether the closing text is inserted when the opening text is typed.
    pub close: bool,
    /// Whether typing the opening text around a selection surrounds it.
    pub surround: bool,
    /// Whether a newline typed between the pair gets an extra line.
    pub newline: bool,
}

/// The bracket pairs of a language.
pub struct BracketPairConfig {
    /// The pairs, in order.
    pub pairs: Vec<BracketPair>,
    /// For each pair, the syntax scopes in which it is disabled.
    pub disabled_scopes_by_bracket_ix: Vec<Vec<String>>,
}

/// Delimiters of a block comment.
pub struct BlockCommentConfig {
    /// The opening delimiter.
    pub start: String,
    /// The closing delimiter.
    pub end: String,
    /// The prefix of each continuation line.
    pub prefix: String,
    /// The indentation of continuation lines.
    pub tab_size: u32,
}

/// An ordered-list marker: a pattern whose first group is the number, and
/// the format of the next marker, where `{1}` stands for the number.
pub struct OrderedListConfig {
    /// The pattern that recognises a marker.
    pub pattern: String,
    /// The format of the continuation marker.
    pub format: String,
}

/// Task-list markers, continued by `continuation`.
pub struct TaskListConfig {
    /// The markers that start a task-list item.
    pub prefixes: Vec<String>,
    /// The marker inserted on the next line.
    pub continuation: String,
}

/// A setting a scope may override: `Remove { remove: true }` removes it,
/// `Replace` replaces it, and `Remove { remove: false }` keeps the language's own.
pub enum Override<T> {
    /// Remove the setting when `remove` holds.
    Remove { remove: bool },
    /// Replace the setting.
    Replace(T),
}

/// The value of a setting given an optional override and the language's own value.
pub open spec fn override_as_option<T>(this: Option<Override<T>>, original: Option<T>) -> Option<T> {
    match this {
        Some(Override::Replace(v)) => Some(v),
        Some(Override::Remove { remove }) => if remove {
            None
        } else {
            original
        },
        None => original,
    }
}

/// The value an optional reference refers to.
pub open spec fn deref_opt<T>(o: Option<&T>) -> Option<T> {
    match o {
        Some(v) => Some(*v),
        None => None,
    }
}

impl<T> Override<T> {
    /// The value of a setting given an optional override and the language's own value.
    pub fn as_option<'a>(this: Option<&'a Self>, original: Option<&'a T>) -> (r: Option<&'a T>)
        ensures
            deref_opt(r) == override_as_option(deref_opt(this), deref_opt(original)),
    {
        match this {
            Some(Override::Replace(value)) => Some(value),
            Some(Override::Remove { remove }) => if *remove {
                None
            } else {
                original
            },
            None => original,
        }
    }
}

/// What a syntax scope overrides of its language's configuration.
pub struct LanguageConfigOverride {
    /// Line-comment prefixes.
    pub line_comments: Override<Vec<String>>,
    /// Block-comment delimiters.
    pub block_comment: Override<BlockCommentConfig>,
    /// Indices of the bracket pairs disabled in this scope, ascending.
    pub disabled_bracket_ixs: Vec<u16>,
}

/// A named override of a syntax scope.
pub struct OverrideEntry {
    /// The scope's name, such as `comment` or `string`.
    pub name: String,
    /// Whether the scope's range includes its end.
    pub range_is_inclusive: bool,
    /// What the scope overrides.
    pub value: LanguageConfigOverride,
}

/// The overrides of a grammar, keyed by capture id.
pub struct OverrideConfig {
    /// The entries, by id.
    pub values: HashMap<u32, OverrideEntry>,
}

/// The part of a grammar that the language logic reads: its scope overrides.
pub struct Grammar {
    /// The scope overrides, if the grammar has an override query.
    pub override_config: Option<OverrideConfig>,
}

/// How a language's files match it.
pub struct LanguageMatcher {
    /// File-name suffixes, such as `rs`.
    pub path_suffixes: Vec<String>,
    /// A pattern the first line may match.
    pub first_line_pattern: Option<String>,
}

/// How lines wrap.
#[derive(Clone, Copy, PartialEq, Eq, Debug)]
pub enum SoftWrap {
    /// No wrapping.
    NoWrap,
    /// Wrap at the preferred line length.
    PreferLine,
    /// Wrap at the editor's width.
    EditorWidth,
    /// Wrap at the smaller of the two.
    Bounded,
}

/// How lines wrap, as the editor settings name it.
#[derive(Clone, Copy, PartialEq, Eq, Debug)]
pub enum SettingsSoftWrap {
    /// No wrapping.
    NoWrap,
    /// Wrap at the preferred line length.
    PreferLine,
    /// Wrap at the editor's width.
    EditorWidth,
    /// Wrap at the smaller of the two.
    Bounded,
}

/// The settings' name for a language's soft-wrap mode.
pub fn to_settings_soft_wrap(value: SoftWrap) -> (r: SettingsSoftWrap)
    ensures
        value == SoftWrap::NoWrap ==> r == SettingsSoftWrap::NoWrap,
        value == SoftWrap::PreferLine ==> r == SettingsSoftWrap::PreferLine,
        value == SoftWrap::EditorWidth ==> r == SettingsSoftWrap::EditorWidth,
        value == SoftWrap::Bounded ==> r == SettingsSoftWrap::Bounded,
{
    match value {
        SoftWrap::NoWrap => SettingsSoftWrap::NoWrap,
        SoftWrap::PreferLine => SettingsSoftWrap::PreferLine,
        SoftWrap::EditorWidth => SettingsSoftWrap::EditorWidth,
        SoftWrap::Bounded => SettingsSoftWrap::Bounded,
    }
}

/// The configuration of a language.
pub struct LanguageConfig {
    /// The language's name.
    pub name: String,
    /// The name used for fenced code blocks, if not the lowercased name.
    pub code_fence_block_name: Option<String>,
    /// The grammar's name.
    pub grammar: Option<String>,
    /// How files match the language.
    pub matcher: LanguageMatcher,
    /// Bracket pairs.
    pub brackets: BracketPairConfig,
    /// Characters before which a closing bracket is inserted automatically.
    pub autoclose_before: String,
    /// Line-comment prefixes.
    pub line_comments: Vec<String>,
    /// Block-comment delimiters.
    pub block_comment: Option<BlockCommentConfig>,
    /// Documentation-comment delimiters.
    pub documentation_comment: Option<BlockCommentConfig>,
    /// Unordered-list markers, continued unchanged.
    pub unordered_list: Vec<String>,
    /// Ordered-list markers.
    pub ordered_list: Vec<OrderedListConfig>,
    /// Task-list markers.
    pub task_list: Option<TaskListConfig>,
    /// The text shown for a folded range.
    pub collapsed_placeholder: String,
    /// Soft wrapping.
    pub soft_wrap: Option<SoftWrap>,
    /// Whether the language is hidden from language pickers.
    pub hidden: bool,
}

/// An empty configuration with the given name.
pub fn empty_config(name: String) -> (c: LanguageConfig)
    ensures
        c.name == name,
        c.code_fence_block_name is None,
        c.grammar is None,
        c.matcher.path_suffixes@.len() == 0,
        c.matcher.first_line_pattern is None,
        c.brackets.pairs@.len() == 0,
        c.brackets.disabled_scopes_by_bracket_ix@.len() == 0,
        c.autoclose_before@.len() == 0,
        c.line_comments@.len() == 0,
        c.block_comment is None,
        c.documentation_comment is None,
        c.unordered_list@.len() == 0,
        c.ordered_list@.len() == 0,
        c.task_list is None,
        c.collapsed_placeholder@.len() == 0,
        c.soft_wrap is None,
        !c.hidden,
{
    LanguageConfig {
        name,
        code_fence_block_name: None,
        grammar: None,
        matcher: LanguageMatcher { path_suffixes: Vec::new(), first_line_pattern: None },
        brackets: BracketPairConfig { pairs: Vec::new(), disabled_scopes_by_bracket_ix: Vec::new() },
        autoclose_before: String::new(),
        line_comments: Vec::new(),
        block_comment: None,
        documentation_comment: None,
        unordered_list: Vec::new(),
        ordered_list: Vec::new(),
        task_list: None,
        collapsed_placeholder: String::new(),
        soft_wrap: None,
        hidden: false,
    }
}

/// The identity of a language, unique per process.
#[derive(Clone, Copy, PartialEq, Eq, Structural, Debug, Hash)]
pub struct LanguageId(pub usize);

/// A language: its identity, configuration and grammar.
pub struct Language {
    /// The language's identity.
    pub id: LanguageId,
    /// The language's configuration.
    pub config: LanguageConfig,
    /// The language's grammar, if it has one.
    pub grammar: Option<Grammar>,
}

/// Two languages are equal when they are the same language: their
/// identities agree, whatever their configurations hold.
impl PartialEq for Language {
    fn eq(&self, other: &Self) -> (r: bool) {
        self.id.0 == other.id.0
    }
}

impl PartialEqSpecImpl for Language {
    open spec fn obeys_eq_spec() -> bool {
        true
    }

    open spec fn eq_spec(&self, other: &Self) -> bool {
        self.id.0 == other.id.0
    }
}

impl Eq for Language {
}

/// std's hashing of a `usize` into a hasher. It states nothing: what the
/// hasher's state becomes is the hasher's own business, and nothing in the
/// library reads it.
pub assume_specification<H: std::hash::Hasher>[<usize as std::hash::Hash>::hash::<H>](data: &usize, state: &mut H);

/// A language hashes as its identity, in keeping with its equality.
impl std::hash::Hash for Language {
    fn hash<H: std::hash::Hasher>(&self, state: &mut H) {
        self.id.0.hash(state);
    }
}

/// The lowercase form of `s`, by the Unicode `Lowercase` mapping (`str::to_lowercase`).
pub uninterp spec fn lowercase_of(s: Seq<char>) -> Seq<char>;

/// Calls `str::to_lowercase`; its result is named `lowercase_of` of the argument.
#[verifier::external_body]
pub(crate) fn to_lowercase(s: &str) -> (r: String)
    ensures
        r@ == lowercase_of(s@),
{
    s.to_lowercase()
}

/// Whether `c` occurs in `s`.
pub fn contains_char(s: &str, c: char) -> (r: bool)
    ensures
        r == s@.contains(c),
{
    let v = to_chars(s);
    let mut i: usize = 0;
    while i < v.len()
        invariant
            v@ == s@,
            i <= v.len(),
            forall|j: int| 0 <= j < i ==> v@[j] != c,
        decreases v.len() - i,
    {
        if v[i] == c {
            assert(s@[i as int] == c);
            return true;
        }
        i = i + 1;
    }
    false
}

impl Language {
    /// A language with the given identity, configuration and grammar.
    pub fn new_with_id(id: LanguageId, config: LanguageConfig, grammar: Option<Grammar>) -> (l:
        Language)
        ensures
            l.id == id,
            l.config == config,
            l.grammar == grammar,
    {
        Language { id, config, grammar }
    }

    /// The language's identity.
    pub fn id(&self) -> (r: LanguageId)
        ensures
            r == self.id,
    {
        self.id
    }

    /// The language's name.
    pub fn name(&self) -> (r: String)
        ensures
            r == self.config.name,
    {
        self.config.name.clone()
    }

    /// The name of fenced code blocks in this language: the configured one,
    /// else the lowercased language name.
    pub fn code_fence_block_name(&self) -> (r: String)
        ensures
            r@ == match self.config.code_fence_block_name {
                Some(n) => n@,
                None => lowercase_of(self.config.name@),
            },
    {
        match &self.config.code_fence_block_name {
            Some(n) => n.clone(),
            None => to_lowercase(self.config.name.as_str()),
        }
    }

    /// File-name suffixes of the language.
    pub fn path_suffixes(&self) -> (r: &[String])
        ensures
            r@ == self.config.matcher.path_suffixes@,
    {
        self.config.matcher.path_suffixes.as_slice()
    }

    /// Whether a closing bracket may be inserted before `c`.
    pub fn should_autoclose_before(&self, c: char) -> (r: bool)
        ensures
            r == (is_ws(c) || self.config.autoclose_before@.contains(c)),
    {
        is_whitespace(c) || contains_char(self.config.autoclose_before.as_str(), c)
    }

    /// The language's grammar.
    pub fn grammar(&self) -> (r: Option<&Grammar>)
        ensures
            r == match self.grammar {
                Some(g) => Some(&g),
                None => None::<&Grammar>,
            },
    {
        self.grammar.as_ref()
    }

    /// The scope of the whole language, with no override.
    pub fn default_scope(&self) -> (s: LanguageScope<'_>)
        ensures
            s.language == self,
            s.override_id is None,
    {
        LanguageScope { language: self, override_id: None }
    }

    /// The language's configuration.
    pub fn config(&self) -> (r: &LanguageConfig)
        ensures
            r == self.config,
    {
        &self.config
    }
}

/// The language of a range of text, with the override of the syntax scope it lies in.
pub struct LanguageScope<'a> {
    /// The language.
    pub language: &'a Language,
    /// The id of the scope's override, if any.
    pub override_id: Option<u32>,
}

/// The override entry that `id` names in `language`'s grammar, if any.
pub open spec fn override_entry_of(language: Language, id: Option<u32>) -> Option<OverrideEntry> {
    match id {
        None => None,
        Some(i) => match language.grammar {
            None => None,
            Some(g) => match g.override_config {
                None => None,
                Some(c) => if c.values@.contains_key(i) {
                    Some(c.values@[i])
                } else {
                    None
                },
            },
        },
    }
}

/// Whether each of `n` bracket pairs, from index `ix` on, is enabled, given the
/// disabled indices still to be met: a pair is disabled when its index is the
/// next disabled index, which is then consumed.
pub open spec fn bracket_flags(ix: nat, n: nat, disabled: Seq<u16>) -> Seq<bool>
    decreases n - ix,
{
    if ix >= n {
        Seq::empty()
    } else if disabled.len() > 0 && disabled[0] as nat == ix {
        seq![false] + bracket_flags(ix + 1, n, disabled.drop_first())
    } else {
        seq![true] + bracket_flags(ix + 1, n, disabled)
    }
}

proof fn lemma_bracket_flags_len(ix: nat, n: nat, disabled: Seq<u16>)
    ensures
        bracket_flags(ix, n, disabled).len() == if ix >= n {
            0
        } else {
            n - ix
        },
    decreases n - ix,
{
    if ix < n {
        if disabled.len() > 0 && disabled[0] as nat == ix {
            lemma_bracket_flags_len(ix + 1, n, disabled.drop_first());
        } else {
            lemma_bracket_flags_len(ix + 1, n, disabled);
        }
    }
}

impl<'a> LanguageScope<'a> {
    /// The scope of `language` inside the syntax scope whose override is `override_id`.
    pub fn new(language: &'a Language, override_id: Option<u32>) -> (s: LanguageScope<'a>)
        ensures
            s.language == language,
            s.override_id == override_id,
    {
        LanguageScope { language, override_id }
    }

    /// The override entry of this scope.
    pub open spec fn entry(self) -> Option<OverrideEntry> {
        override_entry_of(*self.language, self.override_id)
    }

    /// The configuration this scope overrides, if any.
    pub open spec fn spec_config_override(self) -> Option<LanguageConfigOverride> {
        match self.entry() {
            Some(e) => Some(e.value),
            None => None,
        }
    }

    fn entry_ref(&self) -> (r: Option<&'a OverrideEntry>)
        ensures
            r == match self.entry() {
                Some(e) => Some(&e),
                None => None::<&OverrideEntry>,
            },
    {
        let id = match self.override_id {
            Some(id) => id,
            None => return None,
        };
        let grammar = match &self.language.grammar {
            Some(g) => g,
            None => return None,
        };
        let override_config = match &grammar.override_config {
            Some(c) => c,
            None => return None,
        };
        override_config.values.get(&id)
    }

    /// File-name suffixes of the language.
    pub fn path_suffixes(&self) -> (r: &'a [String])
        ensures
            r@ == self.language.config.matcher.path_suffixes@,
    {
        self.language.config.matcher.path_suffixes.as_slice()
    }

    /// The language's name.
    pub fn language_name(&self) -> (r: String)
        ensures
            r == self.language.config.name,
    {
        self.language.config.name.clone()
    }

    /// The text shown for a folded range.
    pub fn collapsed_placeholder(&self) -> (r: &'a str)
        ensures
            r@ == self.language.config.collapsed_placeholder@,
    {
        self.language.config.collapsed_placeholder.as_str()
    }

    /// The configuration this scope overrides, if any.
    pub fn config_override(&self) -> (r: Option<&'a LanguageConfigOverride>)
        ensures
            r == match self.spec_config_override() {
                Some(o) => Some(&o),
                None => None::<&LanguageConfigOverride>,
            },
    {
        match self.entry_ref() {
            Some(e) => Some(&e.value),
            None => None,
        }
    }

    /// The name of this scope's override, if any.
    pub fn override_name(&self) -> (r: Option<&'a str>)
        ensures
            match self.entry() {
                Some(e) => r matches Some(n) && n@ == e.name@,
                None => r is None,
            },
    {
        match self.entry_ref() {
            Some(e) => Some(e.name.as_str()),
            None => None,
        }
    }

    /// The line-comment prefixes in effect in this scope.
    pub open spec fn spec_line_comment_prefixes(self) -> Seq<String> {
        match override_as_option(
            match self.spec_config_override() {
                Some(o) => Some(o.line_comments),
                None => None,
            },
            Some(self.language.config.line_comments),
        ) {
            Some(v) => v@,
            None => Seq::empty(),
        }
    }

    /// The line-comment prefixes in effect in this scope, such as `// `.
    pub fn line_comment_prefixes(&self) -> (r: &'a [String])
        ensures
            r@ == self.spec_line_comment_prefixes(),
    {
        let o = match self.config_override() {
            Some(o) => Some(&o.line_comments),
            None => None,
        };
        match Override::as_option(o, Some(&self.language.config.line_comments)) {
            Some(v) => v.as_slice(),
            None => &[],
        }
    }

    /// The block-comment delimiters in effect in this scope.
    pub open spec fn spec_block_comment(self) -> Option<BlockCommentConfig> {
        override_as_option(
            match self.spec_config_override() {
                Some(o) => Some(o.block_comment),
                None => None,
            },
            self.language.config.block_comment,
        )
    }

    /// The block-comment delimiters in effect in this scope.
    pub fn block_comment(&self) -> (r: Option<&'a BlockCommentConfig>)
        ensures
            r == match self.spec_block_comment() {
                Some(b) => Some(&b),
                None => None::<&BlockCommentConfig>,
            },
    {
        let o = match self.config_override() {
            Some(o) => Some(&o.block_comment),
            None => None,
        };
        Override::as_option(o, self.language.config.block_comment.as_ref())
    }

    /// The documentation-comment delimiters of the language.
    pub fn documentation_comment(&self) -> (r: Option<&'a BlockCommentConfig>)
        ensures
            r == match self.language.config.documentation_comment {
                Some(b) => Some(&b),
                None => None::<&BlockCommentConfig>,
            },
    {
        self.language.config.documentation_comment.as_ref()
    }

    /// Unordered-list markers of the language.
    pub fn unordered_list(&self) -> (r: &'a [String])
        ensures
            r@ == self.language.config.unordered_list@,
    {
        self.language.config.unordered_list.as_slice()
    }

    /// Ordered-list markers of the language.
    pub fn ordered_list(&self) -> (r: &'a [OrderedListConfig])
        ensures
            r@ == self.language.config.ordered_list@,
    {
        self.language.config.ordered_list.as_slice()
    }

    /// Task-list markers of the language.
    pub fn task_list(&self) -> (r: Option<&'a TaskListConfig>)
        ensures
            r == match self.language.config.task_list {
                Some(t) => Some(&t),
                None => None::<&TaskListConfig>,
            },
    {
        self.language.config.task_list.as_ref()
    }

    /// The disabled bracket indices of this scope.
    pub open spec fn spec_disabled_ixs(self) -> Seq<u16> {
        match self.spec_config_override() {
            Some(o) => o.disabled_bracket_ixs@,
            None => Seq::empty(),
        }
    }

    /// Whether each bracket pair of the language is enabled in this scope.
    pub open spec fn spec_bracket_flags(self) -> Seq<bool> {
        bracket_flags(0, self.language.config.brackets.pairs@.len(), self.spec_disabled_ixs())
    }

    /// The bracket pairs of the language, each with whether it is enabled in this scope.
    pub fn brackets(&self) -> (r: Vec<(&'a BracketPair, bool)>)
        ensures
            r@.len() == self.language.config.brackets.pairs@.len(),
            forall|i: int|
                0 <= i < r@.len() ==> *(#[trigger] r@[i]).0 == self.language.config.brackets.pairs@[i]
                    && r@[i].1 == self.spec_bracket_flags()[i],
    {
        let empty: Vec<u16> = Vec::new();
        let disabled: &Vec<u16> = match self.config_override() {
            Some(o) => &o.disabled_bracket_ixs,
            None => &empty,
        };
        let pairs = &self.language.config.brackets.pairs;
        let n = pairs.len();
        let ghost all = bracket_flags(0, n as nat, disabled@);
        let mut cursor: usize = 0;
        let mut r: Vec<(&'a BracketPair, bool)> = Vec::new();
        let mut ix: usize = 0;
        proof {
            lemma_bracket_flags_len(0, n as nat, disabled@);
            assert(all.skip(0) =~= all);
            assert(disabled@.skip(0) =~= disabled@);
        }
        while ix < n
            invariant
                n == pairs@.len(),
                disabled@ == self.spec_disabled_ixs(),
                all == self.spec_bracket_flags(),
                all.len() == n,
                ix <= n,
                cursor <= disabled@.len(),
                r@.len() == ix,
                forall|i: int|
                    0 <= i < ix ==> *(#[trigger] r@[i]).0 == pairs@[i] && r@[i].1 == all[i],
                all.skip(ix as int) == bracket_flags(ix as nat, n as nat, disabled@.skip(cursor as int)),
            decreases n - ix,
        {
            let ghost rest = disabled@.skip(cursor as int);
            let mut enabled = true;
            if cursor < disabled.len() && disabled[cursor] as usize == ix {
                enabled = false;
                cursor = cursor + 1;
                assert(rest.drop_first() =~= disabled@.skip(cursor as int));
            }
            proof {
                lemma_bracket_flags_len(ix as nat + 1, n as nat, disabled@.skip(cursor as int));
                assert(all.skip(ix as int)[0] == all[ix as int]);
                assert(all.skip(ix + 1) =~= all.skip(ix as int).drop_first());
            }
            r.push((&pairs[ix], enabled));
            ix = ix + 1;
        }
        r
    }

    /// Whether a closing bracket may be inserted before `c`.
    pub fn should_autoclose_before(&self, c: char) -> (r: bool)
        ensures
            r == (is_ws(c) || self.language.config.autoclose_before@.contains(c)),
    {
        is_whitespace(c) || contains_char(self.language.config.autoclose_before.as_str(), c)
    }
}


impl Language {
    /// Rebuilds the grammar with `build`, when the language has one; a
    /// language without a grammar is returned unchanged, and an error of
    /// `build` is returned as it is.
    pub fn with_grammar_query<E, F: FnOnce(Grammar) -> Result<Grammar, E>>(self, build: F) -> (r: Result<Language, E>)
        requires
            self.grammar is Some ==> build.requires((self.grammar->0,)),
        ensures
            self.grammar is None ==> r is Ok && r->Ok_0.id == self.id && r->Ok_0.config == self.config
                && r->Ok_0.grammar is None,
            self.grammar is Some ==> exists|res: Result<Grammar, E>|
                #![trigger build.ensures((self.grammar->0,), res)]
                build.ensures((self.grammar->0,), res) && match res {
                    Ok(g) => r is Ok && r->Ok_0.id == self.id && r->Ok_0.config == self.config
                        && r->Ok_0.grammar == Some(g),
                    Err(e) => r == Err::<Language, E>(e),
                },
    {
        let Language { id, config, grammar } = self;
        match grammar {
            Some(g) => {
                let res = build(g);
                match res {
                    Ok(g2) => Ok(Language { id, config, grammar: Some(g2) }),
                    Err(e) => Err(e),
                }
            },
            None => Ok(Language { id, config, grammar: None }),
        }
    }

    /// Rebuilds the grammar with `build`, which also receives the language's
    /// name, when the language has a grammar; a language without a grammar
    /// is returned unchanged, and an error of `build` is returned as it is.
    pub fn with_grammar_query_and_name<E, F: FnOnce(Grammar, &String) -> Result<Grammar, E>>(self, build: F) -> (r:
        Result<Language, E>)
        requires
            self.grammar is Some ==> build.requires((self.grammar->0, &self.config.name)),
        ensures
            self.grammar is None ==> r is Ok && r->Ok_0.id == self.id && r->Ok_0.config == self.config
                && r->Ok_0.grammar is None,
            self.grammar is Some ==> exists|res: Result<Grammar, E>|
                #![trigger build.ensures((self.grammar->0, &self.config.name), res)]
                build.ensures((self.grammar->0, &self.config.name), res) && match res {
                    Ok(g) => r is Ok && r->Ok_0.id == self.id && r->Ok_0.config == self.config
                        && r->Ok_0.grammar == Some(g),
                    Err(e) => r == Err::<Language, E>(e),
                },
    {
        let Language { id, config, grammar } = self;
        match grammar {
            Some(g) => {
                let res = build(g, &config.name);
                match res {
                    Ok(g2) => Ok(Language { id, config, grammar: Some(g2) }),
                    Err(e) => Err(e),
                }
            },
            None => Ok(Language { id, config, grammar: None }),
        }
    }
}

/// A bracket pair.
fn bracket(start: &str, end: &str, close: bool, surround: bool, newline: bool) -> (r: BracketPair)
    ensures
        r.start@ == start@,
        r.end@ == end@,
        r.close == close,
        r.surround == surround,
        r.newline == newline,
{
    BracketPair { start: start.to_string(), end: end.to_string(), close, surround, newline }
}

/// Whether `p` is the pair `start`, `end` with the given flags.
pub open spec fn is_pair(p: BracketPair, start: Seq<char>, end: Seq<char>, close: bool, surround: bool, newline: bool) -> bool {
    p.start@ == start && p.end@ == end && p.close == close && p.surround == surround && p.newline == newline
}

/// The Rust language as tests use it: line comments `// `, `/// ` and
/// `//! `, files ending in `rs`, and the pairs `{}`, `[]`, `()` (closed
/// automatically, with an extra line on newline), `<>` (not closed) and
/// `""` (closed, no extra line).
pub fn rust_lang(id: LanguageId) -> (l: Language)
    ensures
        l.id == id,
        l.grammar is None,
        l.config.name@ == "Rust"@,
        l.config.matcher.path_suffixes@.len() == 1,
        l.config.matcher.path_suffixes@[0]@ == "rs"@,
        l.config.matcher.first_line_pattern is None,
        l.config.line_comments@.len() == 3,
        l.config.line_comments@[0]@ == "// "@,
        l.config.line_comments@[1]@ == "/// "@,
        l.config.line_comments@[2]@ == "//! "@,
        l.config.brackets.pairs@.len() == 5,
        is_pair(l.config.brackets.pairs@[0], "{"@, "}"@, true, false, true),
        is_pair(l.config.brackets.pairs@[1], "["@, "]"@, true, false, true),
        is_pair(l.config.brackets.pairs@[2], "("@, ")"@, true, false, true),
        is_pair(l.config.brackets.pairs@[3], "<"@, ">"@, false, false, true),
        is_pair(l.config.brackets.pairs@[4], "\""@, "\""@, true, false, false),
        l.config.brackets.disabled_scopes_by_bracket_ix@.len() == 0,
        l.config.block_comment is None,
        l.config.documentation_comment is None,
        l.config.unordered_list@.len() == 0,
        l.config.ordered_list@.len() == 0,
        l.config.task_list is None,
        l.config.soft_wrap is None,
        l.config.code_fence_block_name is None,
        l.config.grammar is None,
        l.config.autoclose_before@.len() == 0,
        l.config.collapsed_placeholder@.len() == 0,
        !l.config.hidden,
{
    let mut config = empty_config("Rust".to_string());
    config.matcher.path_suffixes.push("rs".to_string());
    config.line_comments.push("// ".to_string());
    config.line_comments.push("/// ".to_string());
    config.line_comments.push("//! ".to_string());
    config.brackets.pairs.push(bracket("{", "}", true, false, true));
    config.brackets.pairs.push(bracket("[", "]", true, false, true));
    config.brackets.pairs.push(bracket("(", ")", true, false, true));
    config.brackets.pairs.push(bracket("<", ">", false, false, true));
    config.brackets.pairs.push(bracket("\"", "\"", true, false, false));
    Language::new_with_id(id, config, None)
}

/// The plain-text language: files ending in `txt`, wrapped at the editor's
/// width, with the pairs `()`, `[]`, `{}`, `""` and `''`, all closed
/// automatically and able to surround a selection.
pub fn plain_text(id: LanguageId) -> (l: Language)
    ensures
        l.id == id,
        l.grammar is None,
        l.config.name@ == "Plain Text"@,
        l.config.soft_wrap == Some(SoftWrap::EditorWidth),
        l.config.matcher.path_suffixes@.len() == 1,
        l.config.matcher.path_suffixes@[0]@ == "txt"@,
        l.config.matcher.first_line_pattern is None,
        l.config.line_comments@.len() == 0,
        l.config.brackets.pairs@.len() == 5,
        is_pair(l.config.brackets.pairs@[0], "("@, ")"@, true, true, false),
        is_pair(l.config.brackets.pairs@[1], "["@, "]"@, true, true, false),
        is_pair(l.config.brackets.pairs@[2], "{"@, "}"@, true, true, false),
        is_pair(l.config.brackets.pairs@[3], "\""@, "\""@, true, true, false),
        is_pair(l.config.brackets.pairs@[4], "'"@, "'"@, true, true, false),
        l.config.brackets.disabled_scopes_by_bracket_ix@.len() == 0,
        l.config.block_comment is None,
        l.config.documentation_comment is None,
        l.config.unordered_list@.len() == 0,
        l.config.ordered_list@.len() == 0,
        l.config.task_list is None,
        l.config.code_fence_block_name is None,
        l.config.grammar is None,
        l.config.autoclose_before@.len() == 0,
        l.config.collapsed_placeholder@.len() == 0,
        !l.config.hidden,
{
    let mut config = empty_config("Plain Text".to_string());
    config.soft_wrap = Some(SoftWrap::EditorWidth);
    config.matcher.path_suffixes.push("txt".to_string());
    config.brackets.pairs.push(bracket("(", ")", true, true, false));
    config.brackets.pairs.push(bracket("[", "]", true, true, false));
    config.brackets.pairs.push(bracket("{", "}", true, true, false));
    config.brackets.pairs.push(bracket("\"", "\"", true, true, false));
    config.brackets.pairs.push(bracket("'", "'", true, true, false));
    Language::new_with_id(id, config, None)
}

} // verus!
