//! What a newline typed at the end of a comment, documentation comment or
//! list item continues the next line with.
use vstd::prelude::*;

use crate::language::{BlockCommentConfig, LanguageScope};
use crate::tab::Point;
use crate::pattern::{captures, captures_view, compile_pattern, first_captures, pattern_compiles, RegexCaptures};
use crate::text::{
    append_chars,
    str_byte_len,
    chars_to_string, parse_u32, push_decimal, replace,
    decimal, parse_u32_spec, replace_all,
    find, first_occurrence,
    all_ws, byte_len, has_prefix, is_all_ws, leading_ws, skip_chars, skip_upto, starts_with, sub_chars,
    take_chars, take_upto, to_chars, trim_end, trim_end_of, utf8_len, ws_prefix_len,
};

verus! {

/// The longest UTF-8 length among `ds`.
pub open spec fn max_byte_len(ds: Seq<String>) -> nat
    decreases ds.len(),
{
    if ds.len() == 0 {
        0
    } else {
        let m = max_byte_len(ds.drop_last());
        let l = utf8_len(ds.last()@);
        if l > m {
            l
        } else {
            m
        }
    }
}

/// The index of the delimiter whose trailing-whitespace-trimmed form starts
/// `candidate` and is longest in UTF-8, the last one among equals.
pub open spec fn best_prefix_match(ds: Seq<String>, candidate: Seq<char>) -> Option<int>
    decreases ds.len(),
{
    if ds.len() == 0 {
        None
    } else {
        let prev = best_prefix_match(ds.drop_last(), candidate);
        let p = trim_end_of(ds.last()@);
        if has_prefix(candidate, p) {
            match prev {
                Some(j) => if utf8_len(p) >= utf8_len(trim_end_of(ds[j]@)) {
                    Some(ds.len() - 1)
                } else {
                    prev
                },
                None => Some(ds.len() - 1),
            }
        } else {
            prev
        }
    }
}

/// The marker of an interactive cell after a line-comment prefix.
pub open spec fn repl_marker() -> Seq<char> {
    seq![' ', '%', '%']
}

/// Whether the line, after its indentation, starts with the language's
/// block-comment opener, when that opener begins with the line-comment prefix.
pub open spec fn opens_block_comment(
    block: Option<BlockCommentConfig>,
    prefix: Seq<char>,
    rest: Seq<char>,
) -> bool {
    match block {
        Some(bc) => {
            let bst = trim_end_of(bc.start@);
            has_prefix(bst, prefix) && has_prefix(take_upto(rest, utf8_len(bst) as int), bst)
        },
        None => false,
    }
}

/// The line-comment prefix a newline typed at byte column `column` of `line`
/// continues with, in `scope`.
pub open spec fn spec_comment_delimiter(line: Seq<char>, column: int, scope: LanguageScope) -> Option<
    Seq<char>,
> {
    let ds = scope.spec_line_comment_prefixes();
    let ws = ws_prefix_len(line);
    let rest = line.skip(ws as int);
    let candidate = take_upto(rest, (max_byte_len(ds) + 2) as int);
    if ds.len() == 0 {
        None
    } else {
        match best_prefix_match(ds, candidate) {
            None => None,
            Some(j) => {
                let d = ds[j]@;
                let prefix = trim_end_of(d);
                let is_repl = has_prefix(candidate.skip(prefix.len() as int), repl_marker());
                if opens_block_comment(scope.spec_block_comment(), prefix, rest) {
                    None
                } else if ws + utf8_len(prefix) <= column {
                    if !is_repl {
                        Some(d)
                    } else if all_ws(skip_upto(line, column)) {
                        None
                    } else {
                        Some(d)
                    }
                } else {
                    None
                }
            },
        }
    }
}

fn max_delimiter_len(ds: &[String]) -> (r: u128)
    ensures
        r == max_byte_len(ds@),
        r <= 4 * usize::MAX,
{
    let mut m: u128 = 0;
    let mut i: usize = 0;
    while i < ds.len()
        invariant
            i <= ds@.len(),
            m == max_byte_len(ds@.take(i as int)),
            m <= 4 * usize::MAX,
        decreases ds.len() - i,
    {
        let cs = to_chars(ds[i].as_str());
        let l = byte_len(&cs);
        let cn = cs.len();
        assert(cs@.len() <= usize::MAX) by {
            assert(cn == cs@.len());
        }
        assert(ds@.take(i + 1).drop_last() =~= ds@.take(i as int));
        if l > m {
            m = l;
        }
        i = i + 1;
    }
    assert(ds@.take(ds@.len() as int) =~= ds@);
    m
}

fn best_match(ds: &[String], candidate: &Vec<char>) -> (r: Option<usize>)
    ensures
        match best_prefix_match(ds@, candidate@) {
            Some(j) => r == Some(j as usize) && 0 <= j < ds@.len() && has_prefix(
                candidate@,
                trim_end_of(ds@[j]@),
            ),
            None => r is None,
        },
{
    let mut best: Option<usize> = None;
    let mut best_len: u128 = 0;
    let mut i: usize = 0;
    while i < ds.len()
        invariant
            i <= ds@.len(),
            match best_prefix_match(ds@.take(i as int), candidate@) {
                Some(j) => best == Some(j as usize) && 0 <= j < i && best_len == utf8_len(
                    trim_end_of(ds@[j]@),
                ) && has_prefix(candidate@, trim_end_of(ds@[j]@)),
                None => best is None,
            },
        decreases ds.len() - i,
    {
        let p = trim_end(&to_chars(ds[i].as_str()));
        let ghost t = ds@.take(i + 1);
        assert(t.drop_last() =~= ds@.take(i as int));
        assert(t.last() == ds@[i as int]);
        if starts_with(candidate, &p) {
            let l = byte_len(&p);
            match best {
                Some(_) => {
                    if l >= best_len {
                        best = Some(i);
                        best_len = l;
                    }
                },
                None => {
                    best = Some(i);
                    best_len = l;
                },
            }
        }
        proof {
            match best_prefix_match(t, candidate@) {
                Some(j) => {
                    assert(t[j] == ds@[j]);
                },
                None => {},
            }
        }
        i = i + 1;
    }
    assert(ds@.take(ds@.len() as int) =~= ds@);
    best
}

fn opens_block_comment_exec(block: Option<&BlockCommentConfig>, prefix: &Vec<char>, rest: &Vec<
    char,
>) -> (r: bool)
    ensures
        r == opens_block_comment(deref_block(block), prefix@, rest@),
{
    match block {
        Some(bc) => {
            let bst = trim_end(&to_chars(bc.start.as_str()));
            if starts_with(&bst, prefix) {
                let head = take_chars(rest, byte_len(&bst));
                starts_with(&head, &bst)
            } else {
                false
            }
        },
        None => false,
    }
}

/// The block-comment configuration an optional reference refers to.
pub open spec fn deref_block(b: Option<&BlockCommentConfig>) -> Option<BlockCommentConfig> {
    match b {
        Some(v) => Some(*v),
        None => None,
    }
}

/// The line-comment prefix a newline typed at byte column `column` of
/// `line` continues with, in `scope`: the longest prefix that starts the
/// line after its indentation, if the cursor stands after it, the line does
/// not open a block comment, and, after a `%%` cell marker, text follows the cursor.
pub fn comment_delimiter_for_newline(line: &str, column: u32, scope: &LanguageScope) -> (r: Option<
    String,
>)
    ensures
        match spec_comment_delimiter(line@, column as int, *scope) {
            Some(d) => r matches Some(s) && s@ == d,
            None => r is None,
        },
{
    let ds = scope.line_comment_prefixes();
    if ds.len() == 0 {
        return None;
    }
    let line = to_chars(line);
    let ws = leading_ws(&line);
    let rest = sub_chars(&line, ws, line.len());
    assert(rest@ == line@.skip(ws as int));
    let max_len = max_delimiter_len(ds);
    let candidate = take_chars(&rest, max_len + 2);
    let j = match best_match(ds, &candidate) {
        Some(j) => j,
        None => return None,
    };
    let d = &ds[j];
    let prefix = trim_end(&to_chars(d.as_str()));
    let after_prefix = skip_chars(&candidate, prefix.len() as u128);
    proof {
        assert(prefix@.len() <= candidate@.len());
    }
    let marker = vec![' ', '%', '%'];
    assert(marker@ == repl_marker());
    let is_repl = starts_with(&after_prefix, &marker);
    if opens_block_comment_exec(scope.block_comment(), &prefix, &rest) {
        return None;
    }
    if ws as u128 + byte_len(&prefix) <= column as u128 {
        if !is_repl {
            return Some(d.clone());
        }
        let after_cursor = skip_chars(&line, column as u128);
        if is_all_ws(&after_cursor) {
            None
        } else {
            Some(d.clone())
        }
    } else {
        None
    }
}

/// The kind of characters an indentation is made of.
#[derive(Clone, Copy, PartialEq, Eq, Structural, Debug)]
pub enum IndentKind {
    /// Spaces.
    Space,
    /// Tabs.
    Tab,
}

/// An indentation: `len` characters of one kind.
#[derive(Clone, Copy, PartialEq, Eq, Structural, Debug)]
pub struct IndentSize {
    /// The number of characters.
    pub len: u32,
    /// Their kind.
    pub kind: IndentKind,
}

impl IndentSize {
    /// An indentation of `len` spaces.
    pub fn spaces(len: u32) -> (r: IndentSize)
        ensures
            r == (IndentSize { len, kind: IndentKind::Space }),
    {
        IndentSize { len, kind: IndentKind::Space }
    }

    /// The character the indentation is made of.
    pub open spec fn spec_char(self) -> char {
        match self.kind {
            IndentKind::Space => ' ',
            IndentKind::Tab => '\t',
        }
    }

    /// The text of the indentation.
    pub open spec fn spec_chars(self) -> Seq<char> {
        Seq::new(self.len as nat, |i: int| self.spec_char())
    }

    /// The text of the indentation.
    pub fn chars(&self) -> (r: Vec<char>)
        ensures
            r@ == self.spec_chars(),
    {
        let c = match self.kind {
            IndentKind::Space => ' ',
            IndentKind::Tab => '\t',
        };
        let mut r: Vec<char> = Vec::new();
        let mut i: u32 = 0;
        while i < self.len
            invariant
                i <= self.len,
                c == self.spec_char(),
                r@ == Seq::new(i as nat, |k: int| self.spec_char()),
            decreases self.len - i,
        {
            r.push(c);
            i = i + 1;
            assert(r@ =~= Seq::new(i as nat, |k: int| self.spec_char()));
        }
        r
    }
}

/// How a newline is inserted.
pub enum NewlineConfig {
    /// Insert a newline with extra indentation and, optionally, an extra
    /// line with its own extra indentation.
    Newline {
        /// Indentation added to the new line.
        additional_indent: IndentSize,
        /// Indentation of an extra line, if one is inserted.
        extra_line_additional_indent: Option<IndentSize>,
        /// Whether auto-indentation is suppressed.
        prevent_auto_indent: bool,
    },
    /// Clear the current line.
    ClearCurrentLine,
    /// Unindent the current line and put `continuation` on it.
    UnindentCurrentLine {
        /// The list marker put on the line.
        continuation: String,
    },
}

impl NewlineConfig {
    /// Whether an extra line is inserted.
    pub fn has_extra_line(&self) -> (r: bool)
        ensures
            r == (*self matches NewlineConfig::Newline { extra_line_additional_indent, .. }
                && extra_line_additional_indent is Some),
    {
        match self {
            NewlineConfig::Newline { extra_line_additional_indent, .. } => extra_line_additional_indent.is_some(),
            _ => false,
        }
    }
}

/// The name of the syntax scope of comments.
pub open spec fn comment_scope_name() -> Seq<char> {
    seq!['c', 'o', 'm', 'm', 'e', 'n', 't']
}

/// Whether `scope` is the override scope named `comment`.
pub open spec fn is_comment_scope(scope: Option<LanguageScope>) -> bool {
    match scope {
        Some(s) => match s.entry() {
            Some(e) => e.name@ == comment_scope_name(),
            None => false,
        },
        None => false,
    }
}

/// The documentation-comment prefix a newline typed at byte column `column`
/// of `line` continues with, and how the newline is then inserted. `at_cursor`
/// is the scope at the cursor.
pub open spec fn spec_doc_delimiter(
    line: Seq<char>,
    column: int,
    scope: LanguageScope,
    at_cursor: Option<LanguageScope>,
) -> Option<(Seq<char>, NewlineConfig)> {
    match scope.language.config.documentation_comment {
        None => None,
        Some(dc) => if !is_comment_scope(at_cursor) {
            None
        } else {
            let ws = ws_prefix_len(line);
            let rest = line.skip(ws as int);
            let stl = utf8_len(dc.start@);
            let after_start = has_prefix(take_upto(rest, stl as int), dc.start@) && ws + stl <= column;
            let dtrim = trim_end_of(dc.prefix@);
            let after_delimiter = has_prefix(take_upto(rest, utf8_len(dtrim) as int), dtrim) && ws
                + utf8_len(dtrim) <= column;
            let end = first_occurrence(line, dc.end@);
            let before_end = match end {
                Some(off) => column <= off,
                None => true,
            };
            let needs_extra_line = end is Some && after_start && before_end;
            let extra_len: u32 = match end {
                Some(off) => if after_start && column == off {
                    dc.tab_size
                } else {
                    0
                },
                None => 0,
            };
            if (after_start || after_delimiter) && before_end {
                Some(
                    (
                        dc.prefix@,
                        NewlineConfig::Newline {
                            additional_indent: IndentSize {
                                len: if after_start {
                                    dc.tab_size
                                } else {
                                    0
                                },
                                kind: IndentKind::Space,
                            },
                            extra_line_additional_indent: if needs_extra_line {
                                Some(IndentSize { len: extra_len, kind: IndentKind::Space })
                            } else {
                                None
                            },
                            prevent_auto_indent: true,
                        },
                    ),
                )
            } else {
                None
            }
        },
    }
}

fn is_comment_scope_exec(at_cursor: Option<&LanguageScope>) -> (r: bool)
    ensures
        r == is_comment_scope(
            match at_cursor {
                Some(s) => Some(*s),
                None => None,
            },
        ),
{
    match at_cursor {
        Some(s) => match s.override_name() {
            Some(n) => {
                let name = to_chars(n);
                let comment = vec!['c', 'o', 'm', 'm', 'e', 'n', 't'];
                let r = starts_with(&name, &comment) && name.len() == comment.len();
                assert(r == (name@ == comment_scope_name())) by {
                    if name@.len() == comment@.len() {
                        assert(name@.take(comment@.len() as int) =~= name@);
                    }
                }
                r
            },
            None => false,
        },
        None => false,
    }
}

/// The documentation-comment prefix a newline typed at byte column `column`
/// of `line` continues with: when the cursor lies in a `comment` scope, after
/// the opening tag or a continuation prefix, and not past the closing tag.
/// It then sets how the newline is inserted: indented by the comment's tab
/// size after the opening tag, with an extra line when the cursor stands
/// before the closing tag.
pub fn documentation_delimiter_for_newline(
    line: &str,
    column: u32,
    scope: &LanguageScope,
    at_cursor: Option<&LanguageScope>,
    newline_config: &mut NewlineConfig,
) -> (r: Option<String>)
    ensures
        match spec_doc_delimiter(
            line@,
            column as int,
            *scope,
            match at_cursor {
                Some(s) => Some(*s),
                None => None,
            },
        ) {
            Some((d, cfg)) => r matches Some(s) && s@ == d && *final(newline_config) == cfg,
            None => r is None && *final(newline_config) == *old(newline_config),
        },
{
    let dc = match scope.documentation_comment() {
        Some(dc) => dc,
        None => return None,
    };
    if !is_comment_scope_exec(at_cursor) {
        return None;
    }
    let line = to_chars(line);
    let ws = leading_ws(&line);
    let rest = sub_chars(&line, ws, line.len());
    assert(rest@ == line@.skip(ws as int));
    let start_tag = to_chars(dc.start.as_str());
    let stl = byte_len(&start_tag);
    let after_start = starts_with(&take_chars(&rest, stl), &start_tag) && ws as u128 + stl
        <= column as u128;
    let dtrim = trim_end(&to_chars(dc.prefix.as_str()));
    let dl = byte_len(&dtrim);
    let after_delimiter = starts_with(&take_chars(&rest, dl), &dtrim) && ws as u128 + dl
        <= column as u128;
    let end = find(&line, &to_chars(dc.end.as_str()));
    let mut needs_extra_line = false;
    let mut extra_len: u32 = 0;
    let before_end = match end {
        Some(off) => {
            let before = (column as u128) <= off as u128;
            if after_start {
                if before {
                    needs_extra_line = true;
                }
                if column as u128 == off as u128 {
                    extra_len = dc.tab_size;
                }
            }
            before
        },
        None => true,
    };
    if (after_start || after_delimiter) && before_end {
        let additional = if after_start {
            IndentSize::spaces(dc.tab_size)
        } else {
            IndentSize::spaces(0)
        };
        *newline_config =
        NewlineConfig::Newline {
            additional_indent: additional,
            extra_line_additional_indent: if needs_extra_line {
                Some(IndentSize::spaces(extra_len))
            } else {
                None
            },
            prevent_auto_indent: true,
        };
        Some(dc.prefix.clone())
    } else {
        None
    }
}

/// How a list-marker check changes the way the newline is inserted.
pub enum ConfigChange {
    /// Unchanged.
    Keep,
    /// Clear the current line.
    Clear,
    /// Unindent the current line and put the given marker on it.
    Unindent(Seq<char>),
}

/// The newline configuration after `change` is applied to `old`.
pub open spec fn config_after(old: NewlineConfig, new: NewlineConfig, change: ConfigChange) -> bool {
    match change {
        ConfigChange::Keep => new == old,
        ConfigChange::Clear => new == NewlineConfig::ClearCurrentLine,
        ConfigChange::Unindent(c) => new matches NewlineConfig::UnindentCurrentLine { continuation }
            && continuation@ == c,
    }
}

/// The task-list markers of a scope, each with the continuation.
pub open spec fn task_entries(scope: LanguageScope) -> Seq<(Seq<char>, Seq<char>)> {
    match scope.language.config.task_list {
        Some(t) => t.prefixes@.map_values(|p: String| (p@, t.continuation@)),
        None => Seq::empty(),
    }
}

/// The list entries of a scope: each task-list marker with its continuation,
/// then each unordered-list marker with itself.
pub open spec fn list_entries(scope: LanguageScope) -> Seq<(Seq<char>, Seq<char>)> {
    task_entries(scope) + scope.language.config.unordered_list@.map_values(|m: String| (m@, m@))
}

/// The longest UTF-8 length among the markers of `es`.
pub open spec fn max_entry_len(es: Seq<(Seq<char>, Seq<char>)>) -> nat
    decreases es.len(),
{
    if es.len() == 0 {
        0
    } else {
        let m = max_entry_len(es.drop_last());
        let l = utf8_len(es.last().0);
        if l > m {
            l
        } else {
            m
        }
    }
}

/// The index of the marker that starts `candidate` and is longest in UTF-8,
/// the last one among equals.
pub open spec fn best_entry(es: Seq<(Seq<char>, Seq<char>)>, candidate: Seq<char>) -> Option<int>
    decreases es.len(),
{
    if es.len() == 0 {
        None
    } else {
        let prev = best_entry(es.drop_last(), candidate);
        let p = es.last().0;
        if has_prefix(candidate, p) {
            match prev {
                Some(j) => if utf8_len(p) >= utf8_len(es[j].0) {
                    Some(es.len() - 1)
                } else {
                    prev
                },
                None => Some(es.len() - 1),
            }
        } else {
            prev
        }
    }
}

/// The longest an ordered-list marker can be, in characters.
pub const ORDERED_LIST_MAX_MARKER_LEN: usize = 16;

/// The placeholder for the number in an ordered-list format.
pub open spec fn number_placeholder() -> Seq<char> {
    seq!['{', '1', '}']
}

/// What a marker ending at byte `end` of `line`, with continuation
/// `continuation`, gives for a cursor at byte column `column`.
pub open spec fn marker_outcome(
    line: Seq<char>,
    column: int,
    ws: nat,
    end: int,
    continuation: Seq<char>,
    reset: Seq<char>,
) -> (Option<Seq<char>>, ConfigChange) {
    if !all_ws(skip_upto(line, end)) && end <= column {
        (Some(continuation), ConfigChange::Keep)
    } else if column == end {
        if ws == 0 {
            (None, ConfigChange::Clear)
        } else {
            (None, ConfigChange::Unindent(reset))
        }
    } else {
        (None, ConfigChange::Keep)
    }
}

/// What an ordered-list marker gives once its pattern has matched, with
/// `caps` the whole match's length and the first group's text: with text
/// after a marker that ends before the cursor, `format` with the next
/// number; right after a marker with nothing after it, the line cleared or
/// unindented and given `format` with number one; otherwise nothing.
pub open spec fn ordered_from_captures(
    format: Seq<char>,
    line: Seq<char>,
    column: int,
    ws: nat,
    caps: (Option<nat>, Option<Seq<char>>),
) -> (Option<Seq<char>>, ConfigChange) {
    match caps.0 {
        None => (None, ConfigChange::Keep),
        Some(len) => {
            let end = (ws + len) as int;
            if !all_ws(skip_upto(line, end)) && end <= column {
                match caps.1 {
                    None => (None, ConfigChange::Keep),
                    Some(g) => match parse_u32_spec(g) {
                        None => (None, ConfigChange::Keep),
                        Some(n) => (
                            Some(
                                replace_all(
                                    format,
                                    number_placeholder(),
                                    decimal(((n as int + 1) % 0x1_0000_0000) as nat),
                                ),
                            ),
                            ConfigChange::Keep,
                        ),
                    },
                }
            } else {
                marker_outcome(
                    line,
                    column,
                    ws,
                    end,
                    Seq::empty(),
                    replace_all(format, number_placeholder(), seq!['1']),
                )
            }
        },
    }
}

/// What one ordered-list configuration gives: `None` when its pattern does
/// not compile or does not match the candidate, so that the next one is tried.
pub open spec fn ordered_one(
    config: crate::language::OrderedListConfig,
    line: Seq<char>,
    column: int,
    ws: nat,
    candidate: Seq<char>,
) -> Option<(Option<Seq<char>>, ConfigChange)> {
    if !pattern_compiles(config.pattern@) {
        None
    } else {
        match first_captures(config.pattern@, candidate) {
            None => None,
            Some(caps) => Some(ordered_from_captures(config.format@, line, column, ws, caps)),
        }
    }
}

/// What the ordered-list configurations from index `k` on give.
pub open spec fn ordered_outcome(
    ords: Seq<crate::language::OrderedListConfig>,
    k: int,
    line: Seq<char>,
    column: int,
    ws: nat,
    candidate: Seq<char>,
) -> (Option<Seq<char>>, ConfigChange)
    decreases ords.len() - k,
{
    if k < 0 || k >= ords.len() {
        (None, ConfigChange::Keep)
    } else {
        match ordered_one(ords[k], line, column, ws, candidate) {
            None => ordered_outcome(ords, k + 1, line, column, ws, candidate),
            Some(o) => o,
        }
    }
}

/// The list marker a newline typed at byte column `column` of `line`
/// continues with, in `scope`, and how the newline's insertion changes.
pub open spec fn spec_list_delimiter(line: Seq<char>, column: int, scope: LanguageScope) -> (Option<
    Seq<char>,
>, ConfigChange) {
    let ws = ws_prefix_len(line);
    let rest = line.skip(ws as int);
    let es = list_entries(scope);
    let candidate = take_upto(rest, max_entry_len(es) as int);
    match if es.len() > 0 {
        best_entry(es, candidate)
    } else {
        None
    } {
        Some(j) => marker_outcome(line, column, ws, (ws + utf8_len(es[j].0)) as int, es[j].1, es[j].1),
        None => ordered_outcome(
            scope.language.config.ordered_list@,
            0,
            line,
            column,
            ws,
            take_upto(rest, ORDERED_LIST_MAX_MARKER_LEN as int),
        ),
    }
}

/// The plain value of list entries.
pub open spec fn entries_view(v: Seq<(&String, &String)>) -> Seq<(Seq<char>, Seq<char>)> {
    v.map_values(|e: (&String, &String)| (e.0@, e.1@))
}

fn list_entries_exec<'a>(scope: &LanguageScope<'a>) -> (r: Vec<(&'a String, &'a String)>)
    ensures
        entries_view(r@) == list_entries(*scope),
{
    let mut out: Vec<(&'a String, &'a String)> = Vec::new();
    let ghost task = task_entries(*scope);
    match scope.task_list() {
        Some(t) => {
            let mut i: usize = 0;
            while i < t.prefixes.len()
                invariant
                    i <= t.prefixes@.len(),
                    task == t.prefixes@.map_values(|p: String| (p@, t.continuation@)),
                    entries_view(out@) == task.take(i as int),
                    out@.len() == i,
                decreases t.prefixes.len() - i,
            {
                let ghost before = out@;
                out.push((&t.prefixes[i], &t.continuation));
                assert forall|m: int| 0 <= m < i + 1 implies entries_view(out@)[m] == task.take(
                    i + 1,
                )[m] by {
                    if m < i {
                        assert(out@[m] == before[m]);
                        assert(entries_view(before)[m] == task.take(i as int)[m]);
                    }
                }
                assert(entries_view(out@) =~= task.take(i + 1));
                i = i + 1;
            }
            assert(task.take(t.prefixes@.len() as int) =~= task);
        },
        None => {
            assert(entries_view(out@) =~= task);
        },
    }
    let un = scope.unordered_list();
    let ghost uv = scope.language.config.unordered_list@.map_values(|m: String| (m@, m@));
    let mut k: usize = 0;
    while k < un.len()
        invariant
            k <= un@.len(),
            un@ == scope.language.config.unordered_list@,
            uv == scope.language.config.unordered_list@.map_values(|m: String| (m@, m@)),
            entries_view(out@) == task + uv.take(k as int),
            out@.len() == task.len() + k,
        decreases un.len() - k,
    {
        let ghost before = out@;
        out.push((&un[k], &un[k]));
        assert forall|m: int| 0 <= m < out@.len() implies entries_view(out@)[m] == (task + uv.take(
            k + 1,
        ))[m] by {
            if m < before.len() {
                assert(out@[m] == before[m]);
                assert(entries_view(before)[m] == (task + uv.take(k as int))[m]);
            }
        }
        assert(entries_view(out@) =~= task + uv.take(k + 1));
        k = k + 1;
    }
    assert(uv.take(un@.len() as int) =~= uv);
    out
}

fn max_entry_len_exec(es: &Vec<(&String, &String)>) -> (r: u128)
    ensures
        r == max_entry_len(entries_view(es@)),
        r <= 4 * usize::MAX,
{
    let mut m: u128 = 0;
    let mut i: usize = 0;
    while i < es.len()
        invariant
            i <= es@.len(),
            m == max_entry_len(entries_view(es@).take(i as int)),
            m <= 4 * usize::MAX,
        decreases es.len() - i,
    {
        let cs = to_chars(es[i].0.as_str());
        let l = byte_len(&cs);
        let cn = cs.len();
        assert(cs@.len() <= usize::MAX) by {
            assert(cn == cs@.len());
        }
        assert(entries_view(es@).take(i + 1).drop_last() =~= entries_view(es@).take(i as int));
        if l > m {
            m = l;
        }
        i = i + 1;
    }
    assert(entries_view(es@).take(es@.len() as int) =~= entries_view(es@));
    m
}

fn best_entry_exec(es: &Vec<(&String, &String)>, candidate: &Vec<char>) -> (r: Option<usize>)
    ensures
        match best_entry(entries_view(es@), candidate@) {
            Some(j) => r == Some(j as usize) && 0 <= j < es@.len(),
            None => r is None,
        },
{
    let ghost ev = entries_view(es@);
    let mut best: Option<usize> = None;
    let mut best_len: u128 = 0;
    let mut i: usize = 0;
    while i < es.len()
        invariant
            i <= es@.len(),
            ev == entries_view(es@),
            match best_entry(ev.take(i as int), candidate@) {
                Some(j) => best == Some(j as usize) && 0 <= j < i && best_len == utf8_len(ev[j].0),
                None => best is None,
            },
        decreases es.len() - i,
    {
        let p = to_chars(es[i].0.as_str());
        let ghost t = ev.take(i + 1);
        assert(t.drop_last() =~= ev.take(i as int));
        assert(t.last() == ev[i as int]);
        if starts_with(candidate, &p) {
            let l = byte_len(&p);
            match best {
                Some(_) => {
                    if l >= best_len {
                        best = Some(i);
                        best_len = l;
                    }
                },
                None => {
                    best = Some(i);
                    best_len = l;
                },
            }
        }
        proof {
            match best_entry(t, candidate@) {
                Some(j) => {
                    assert(t[j] == ev[j]);
                },
                None => {},
            }
        }
        i = i + 1;
    }
    assert(ev.take(es@.len() as int) =~= ev);
    best
}

fn apply_change(newline_config: &mut NewlineConfig, clear: bool, continuation: String)
    ensures
        clear ==> *final(newline_config) == NewlineConfig::ClearCurrentLine,
        !clear ==> (*final(newline_config) matches NewlineConfig::UnindentCurrentLine {
            continuation: c,
        } && c@ == continuation@),
{
    if clear {
        *newline_config = NewlineConfig::ClearCurrentLine;
    } else {
        *newline_config = NewlineConfig::UnindentCurrentLine { continuation };
    }
}

/// Whether `new` is what `change` sets the configuration to (`None`: unchanged).
pub open spec fn change_as(new: Option<NewlineConfig>, change: ConfigChange) -> bool {
    match change {
        ConfigChange::Keep => new is None,
        ConfigChange::Clear => new == Some(NewlineConfig::ClearCurrentLine),
        ConfigChange::Unindent(c) => new matches Some(
            NewlineConfig::UnindentCurrentLine { continuation },
        ) && continuation@ == c,
    }
}

fn changed_config(clear: bool, continuation: String) -> (r: NewlineConfig)
    ensures
        clear ==> r == NewlineConfig::ClearCurrentLine,
        !clear ==> (r matches NewlineConfig::UnindentCurrentLine { continuation: c }
            && c@ == continuation@),
{
    if clear {
        NewlineConfig::ClearCurrentLine
    } else {
        NewlineConfig::UnindentCurrentLine { continuation }
    }
}

fn ordered_list_step(
    config: &crate::language::OrderedListConfig,
    line: &Vec<char>,
    column: u32,
    ws: usize,
    candidate_text: &String,
) -> (r: Option<(Option<String>, Option<NewlineConfig>)>)
    ensures
        match ordered_one(*config, line@, column as int, ws as nat, candidate_text@) {
            None => r is None,
            Some((d, change)) => r matches Some((x, new)) && (match d {
                Some(d) => x matches Some(s) && s@ == d,
                None => x is None,
            }) && change_as(new, change),
        },
{
    let compiled = match compile_pattern(config.pattern.as_str()) {
        Some(c) => c,
        None => return None,
    };
    let caps = match captures(&compiled, candidate_text.as_str()) {
        Some(c) => c,
        None => return None,
    };
    Some(ordered_list_marker(config.format.as_str(), line, column, ws, &caps))
}

/// What an ordered-list marker gives once its pattern matched, with `caps`
/// what the match captured (see `ordered_from_captures`): the continued
/// marker, and the newline's new insertion when the line is cleared or
/// unindented.
pub fn ordered_list_marker(
    format: &str,
    line: &Vec<char>,
    column: u32,
    ws: usize,
    caps: &RegexCaptures,
) -> (r: (Option<String>, Option<NewlineConfig>))
    ensures
        match ordered_from_captures(format@, line@, column as int, ws as nat, captures_view(*caps)) {
            (d, change) => (match d {
                Some(d) => r.0 matches Some(s) && s@ == d,
                None => r.0 is None,
            }) && change_as(r.1, change),
        },
{
    let marker_len = match caps.whole_len {
        Some(l) => l,
        None => return (None, None),
    };
    let end = ws as u128 + marker_len as u128;
    let has_content = !is_all_ws(&skip_chars(line, end));
    let format = to_chars(format);
    let placeholder = vec!['{', '1', '}'];
    assert(placeholder@ == number_placeholder());
    if has_content && end <= column as u128 {
        let group = match &caps.group1 {
            Some(g) => g,
            None => return (None, None),
        };
        let number = match parse_u32(group.as_str()) {
            Some(n) => n,
            None => return (None, None),
        };
        let mut next: Vec<char> = Vec::new();
        push_decimal(number.wrapping_add(1) as u64, &mut next);
        assert(number.wrapping_add(1) == (number as int + 1) % 0x1_0000_0000);
        let continuation = replace(&format, &placeholder, &next);
        return (Some(chars_to_string(&continuation)), None);
    }
    if column as u128 == end {
        let one = vec!['1'];
        assert(one@ == seq!['1']);
        let reset = replace(&format, &placeholder, &one);
        return (None, Some(changed_config(ws == 0, chars_to_string(&reset))));
    }
    (None, None)
}

/// The list marker a newline typed at byte column `column` of `line`
/// continues with, in `scope`. A task-list or unordered-list marker (the
/// longest that starts the line after its indentation) is continued when
/// text follows it and the cursor stands after it; an ordered-list marker is
/// continued with the next number. When the cursor stands right after a
/// marker with nothing following, the line is cleared, or unindented and
/// given the first marker.
pub fn list_delimiter_for_newline(
    line: &str,
    column: u32,
    scope: &LanguageScope,
    newline_config: &mut NewlineConfig,
) -> (r: Option<String>)
    ensures
        match spec_list_delimiter(line@, column as int, *scope) {
            (d, change) => (match d {
                Some(d) => r matches Some(s) && s@ == d,
                None => r is None,
            }) && config_after(*old(newline_config), *final(newline_config), change),
        },
{
    let ghost lv = line@;
    let line = to_chars(line);
    let ws = leading_ws(&line);
    let rest = sub_chars(&line, ws, line.len());
    assert(rest@ == line@.skip(ws as int));
    let es = list_entries_exec(scope);
    if es.len() > 0 {
        let candidate = take_chars(&rest, max_entry_len_exec(&es));
        match best_entry_exec(&es, &candidate) {
            Some(j) => {
                let end = ws as u128 + str_byte_len(es[j].0.as_str());
                let has_content = !is_all_ws(&skip_chars(&line, end));
                if has_content && end <= column as u128 {
                    return Some(es[j].1.clone());
                }
                if column as u128 == end {
                    apply_change(newline_config, ws == 0, es[j].1.clone());
                }
                return None;
            },
            None => {},
        }
    }
    let candidate = take_chars(&rest, ORDERED_LIST_MAX_MARKER_LEN as u128);
    let candidate_text = chars_to_string(&candidate);
    let ords = scope.ordered_list();
    let mut k: usize = 0;
    let mut found: Option<(Option<String>, Option<NewlineConfig>)> = None;
    while k < ords.len()
        invariant_except_break
            found is None,
        invariant
            k <= ords@.len(),
            ords@ == scope.language.config.ordered_list@,
            line@ == lv,
            ws == ws_prefix_len(lv),
            candidate_text@ == take_upto(lv.skip(ws as int), ORDERED_LIST_MAX_MARKER_LEN as int),
            spec_list_delimiter(lv, column as int, *scope) == ordered_outcome(
                ords@,
                k as int,
                lv,
                column as int,
                ws as nat,
                candidate_text@,
            ),
        ensures
            match found {
                Some((x, new)) => match spec_list_delimiter(lv, column as int, *scope) {
                    (d, change) => (match d {
                        Some(d) => x matches Some(s) && s@ == d,
                        None => x is None,
                    }) && change_as(new, change),
                },
                None => spec_list_delimiter(lv, column as int, *scope) == (
                    None::<Seq<char>>,
                    ConfigChange::Keep,
                ),
            },
        decreases ords.len() - k,
    {
        let ghost one = ordered_one(ords@[k as int], lv, column as int, ws as nat, candidate_text@);
        let step = ordered_list_step(&ords[k], &line, column, ws, &candidate_text);
        if step.is_some() {
            found = step;
            break;
        }
        k = k + 1;
    }
    match found {
        Some((x, new)) => {
            match new {
                Some(c) => {
                    *newline_config = c;
                },
                None => {},
            }
            x
        },
        None => None,
    }
}

/// Whether an ordered-list pattern from index `k` on matches `candidate`:
/// the first whose pattern compiles and matches decides.
pub open spec fn ordered_prefix_matches(
    ords: Seq<crate::language::OrderedListConfig>,
    k: int,
    candidate: Seq<char>,
) -> bool
    decreases ords.len() - k,
{
    if k < 0 || k >= ords.len() {
        false
    } else if pattern_compiles(ords[k].pattern@) && first_captures(ords[k].pattern@, candidate) is Some {
        (first_captures(ords[k].pattern@, candidate)->0).0 is Some
    } else {
        ordered_prefix_matches(ords, k + 1, candidate)
    }
}

/// Whether `line` (absent when the row does not exist) starts, after its
/// indentation, with a list marker of `scope`.
pub open spec fn spec_is_list_prefix_row(line: Option<Seq<char>>, scope: LanguageScope) -> bool {
    match line {
        None => false,
        Some(l) => {
            let rest = l.skip(ws_prefix_len(l) as int);
            let es = list_entries(scope);
            let candidate = take_upto(rest, max_entry_len(es) as int);
            if es.len() > 0 && exists|i: int| 0 <= i < es.len() && has_prefix(candidate, #[trigger] es[i].0) {
                true
            } else {
                ordered_prefix_matches(
                    scope.language.config.ordered_list@,
                    0,
                    take_upto(rest, ORDERED_LIST_MAX_MARKER_LEN as int),
                )
            }
        },
    }
}

/// Whether `line` (absent when the row does not exist) starts, after its
/// indentation, with a task-list, unordered-list or ordered-list marker of `scope`.
pub fn is_list_prefix_row(line: Option<&str>, scope: &LanguageScope) -> (r: bool)
    ensures
        r == spec_is_list_prefix_row(
            match line {
                Some(l) => Some(l@),
                None => None,
            },
            *scope,
        ),
{
    let ghost lv = match line {
        Some(l) => l@,
        None => Seq::empty(),
    };
    let lc = match line {
        Some(l) => to_chars(l),
        None => return false,
    };
    let ws = leading_ws(&lc);
    let rest = sub_chars(&lc, ws, lc.len());
    assert(rest@ == lc@.skip(ws as int));
    let es = list_entries_exec(scope);
    let ghost ev = entries_view(es@);
    let ghost first_candidate = take_upto(rest@, max_entry_len(ev) as int);
    if es.len() > 0 {
        let candidate = take_chars(&rest, max_entry_len_exec(&es));
        let mut i: usize = 0;
        while i < es.len()
            invariant
                i <= es@.len(),
                ev == entries_view(es@),
                ev == list_entries(*scope),
                es@.len() > 0,
                line matches Some(l) && l@ == lv,
                rest@ == lv.skip(ws_prefix_len(lv) as int),
                candidate@ == take_upto(rest@, max_entry_len(ev) as int),
                forall|j: int| 0 <= j < i ==> !has_prefix(candidate@, #[trigger] ev[j].0),
            decreases es.len() - i,
        {
            if starts_with(&candidate, &to_chars(es[i].0.as_str())) {
                assert(has_prefix(candidate@, ev[i as int].0));
                return true;
            }
            i = i + 1;
        }
        assert(candidate@ == first_candidate);
    }
    assert(!(ev.len() > 0 && exists|i: int| 0 <= i < ev.len() && has_prefix(first_candidate, #[trigger] ev[i].0)));
    let candidate = take_chars(&rest, ORDERED_LIST_MAX_MARKER_LEN as u128);
    let candidate_text = chars_to_string(&candidate);
    let ords = scope.ordered_list();
    let mut k: usize = 0;
    while k < ords.len()
        invariant
            k <= ords@.len(),
            ords@ == scope.language.config.ordered_list@,
            line matches Some(l) && l@ == lv,
            rest@ == lv.skip(ws_prefix_len(lv) as int),
            ev == list_entries(*scope),
            first_candidate == take_upto(rest@, max_entry_len(ev) as int),
            !(ev.len() > 0 && exists|i: int| 0 <= i < ev.len() && has_prefix(first_candidate, #[trigger] ev[i].0)),
            candidate_text@ == take_upto(rest@, ORDERED_LIST_MAX_MARKER_LEN as int),
            ordered_prefix_matches(ords@, 0, candidate_text@) == ordered_prefix_matches(
                ords@,
                k as int,
                candidate_text@,
            ),
        decreases ords.len() - k,
    {
        match compile_pattern(ords[k].pattern.as_str()) {
            Some(compiled) => match captures(&compiled, candidate_text.as_str()) {
                Some(c) => return c.whole_len.is_some(),
                None => {},
            },
            None => {},
        }
        k = k + 1;
    }
    false
}

/// How a new line is indented.
#[derive(Clone, Copy, PartialEq, Eq, Structural, Debug)]
pub enum AutoIndentMode {
    /// Not indented.
    NoIndent,
    /// Indented like the current line.
    PreserveIndent,
    /// Indented like the current line, then by the syntax.
    SyntaxAware,
}

/// The edit a newline makes at one cursor.
pub struct NewlineEdit {
    /// Whether the edit starts at the beginning of the cursor's line rather than at the cursor.
    pub from_line_start: bool,
    /// The text inserted.
    pub text: String,
    /// Whether the inserted text is left unindented by the syntax.
    pub prevent_auto_indent: bool,
}

/// The text a newline inserts: the line break, the kept indentation, the
/// additional indentation, the continued delimiter, and the extra line.
pub open spec fn spec_newline_text(
    existing_indent: IndentSize,
    preserve_indent: bool,
    additional_indent: IndentSize,
    delimiter: Option<Seq<char>>,
    extra: Option<IndentSize>,
) -> Seq<char> {
    let kept = if preserve_indent {
        existing_indent.spec_chars()
    } else {
        Seq::empty()
    };
    seq!['\n'] + kept + additional_indent.spec_chars() + match delimiter {
        Some(d) => d,
        None => Seq::empty(),
    } + match extra {
        Some(e) => seq!['\n'] + kept + e.spec_chars(),
        None => Seq::empty(),
    }
}

/// The edit a newline makes at a cursor at byte column `column` of a line
/// whose indentation is `full_indent_len` long: `existing_indent` is that
/// indentation cut at the cursor, `unindented` that indentation reduced by
/// one tab stop, and `delimiter` what the line continues with.
pub fn newline_edit(
    config: &NewlineConfig,
    existing_indent: IndentSize,
    unindented: IndentSize,
    full_indent_len: u32,
    column: u32,
    selection_is_empty: bool,
    mode: AutoIndentMode,
    delimiter: Option<&str>,
) -> (r: NewlineEdit)
    ensures
        match *config {
            NewlineConfig::ClearCurrentLine => r.from_line_start && r.text@.len() == 0
                && !r.prevent_auto_indent,
            NewlineConfig::UnindentCurrentLine { continuation } => r.from_line_start && r.text@
                == unindented.spec_chars() + continuation@ && r.prevent_auto_indent,
            NewlineConfig::Newline {
                additional_indent,
                extra_line_additional_indent,
                prevent_auto_indent,
            } => {
                let preserve = mode != AutoIndentMode::NoIndent;
                &&& r.from_line_start == (selection_is_empty && preserve && full_indent_len > 0
                    && column == full_indent_len)
                &&& r.text@ == spec_newline_text(
                    existing_indent,
                    preserve,
                    additional_indent,
                    match delimiter {
                        Some(d) => Some(d@),
                        None => None,
                    },
                    extra_line_additional_indent,
                )
                &&& r.prevent_auto_indent == (prevent_auto_indent || mode
                    != AutoIndentMode::SyntaxAware)
            },
        },
{
    match config {
        NewlineConfig::ClearCurrentLine => NewlineEdit {
            from_line_start: true,
            text: String::new(),
            prevent_auto_indent: false,
        },
        NewlineConfig::UnindentCurrentLine { continuation } => {
            let mut text = unindented.chars();
            append_chars(&mut text, &to_chars(continuation.as_str()));
            NewlineEdit {
                from_line_start: true,
                text: chars_to_string(&text),
                prevent_auto_indent: true,
            }
        },
        NewlineConfig::Newline {
            additional_indent,
            extra_line_additional_indent,
            prevent_auto_indent,
        } => {
            let preserve = mode != AutoIndentMode::NoIndent;
            let kept = if preserve {
                existing_indent.chars()
            } else {
                Vec::new()
            };
            let mut text = vec!['\n'];
            append_chars(&mut text, &kept);
            append_chars(&mut text, &additional_indent.chars());
            match delimiter {
                Some(d) => append_chars(&mut text, &to_chars(d)),
                None => {},
            }
            match extra_line_additional_indent {
                Some(e) => {
                    text.push('\n');
                    append_chars(&mut text, &kept);
                    append_chars(&mut text, &e.chars());
                },
                None => {},
            }
            let ghost kept_s = kept@;
            assert(text@ =~= spec_newline_text(
                existing_indent,
                preserve,
                *additional_indent,
                match delimiter {
                    Some(d) => Some(d@),
                    None => None,
                },
                *extra_line_additional_indent,
            ));
            NewlineEdit {
                from_line_start: selection_is_empty && preserve && full_indent_len > 0 && column
                    == full_indent_len,
                text: chars_to_string(&text),
                prevent_auto_indent: *prevent_auto_indent || mode != AutoIndentMode::SyntaxAware,
            }
        },
    }
}


/// The insertion a newline starts from: the line break alone, with an
/// extra line when the cursor stands between a pair of brackets that asks
/// for one.
pub open spec fn initial_newline_config(extra_newline: bool) -> NewlineConfig {
    NewlineConfig::Newline {
        additional_indent: IndentSize { len: 0, kind: IndentKind::Space },
        extra_line_additional_indent: if extra_newline {
            Some(IndentSize { len: 0, kind: IndentKind::Space })
        } else {
            None
        },
        prevent_auto_indent: false,
    }
}

/// The first of `a`, `b` and `c` that is there.
pub open spec fn first_of(a: Option<Seq<char>>, b: Option<Seq<char>>, c: Option<Seq<char>>) -> Option<
    Seq<char>,
> {
    if a is Some {
        a
    } else if b is Some {
        b
    } else {
        c
    }
}

/// What a newline at byte column `column` of `line` continues the line
/// with, and how it inserts the break. Without a language scope it inserts
/// a plain break. With one, it starts from `initial_newline_config`, and for
/// a cursor (`selection_is_empty`) it looks for a line comment and a
/// documentation comment to continue (when `extend_comment` is set) and a
/// list marker (when `extend_list` is set), in that order; the
/// documentation comment and the list may each change the insertion, and
/// the first delimiter found is the one continued.
pub fn newline_delimiter(
    line: &str,
    column: u32,
    scope: Option<&LanguageScope>,
    at_cursor: Option<&LanguageScope>,
    selection_is_empty: bool,
    extend_comment: bool,
    extend_list: bool,
    extra_newline: bool,
) -> (r: (Option<String>, NewlineConfig))
    ensures
        scope is None ==> r.0 is None && r.1 == initial_newline_config(false),
        scope matches Some(sc) ==> {
            let gate_comment = selection_is_empty && extend_comment;
            let gate_list = selection_is_empty && extend_list;
            let c0 = initial_newline_config(extra_newline);
            let comment = if gate_comment {
                spec_comment_delimiter(line@, column as int, *sc)
            } else {
                None
            };
            let doc = if gate_comment {
                spec_doc_delimiter(
                    line@,
                    column as int,
                    *sc,
                    match at_cursor {
                        Some(s) => Some(*s),
                        None => None,
                    },
                )
            } else {
                None
            };
            let c1 = match doc {
                Some((_, cfg)) => cfg,
                None => c0,
            };
            let list = if gate_list {
                spec_list_delimiter(line@, column as int, *sc)
            } else {
                (None, ConfigChange::Keep)
            };
            &&& config_after(c1, r.1, list.1)
            &&& (match r.0 {
                Some(d) => Some(d@),
                None => None,
            }) == first_of(
                comment,
                match doc {
                    Some((d, _)) => Some(d),
                    None => None,
                },
                list.0,
            )
        },
{
    let sc = match scope {
        Some(sc) => sc,
        None => {
            return (
                None,
                NewlineConfig::Newline {
                    additional_indent: IndentSize::spaces(0),
                    extra_line_additional_indent: None,
                    prevent_auto_indent: false,
                },
            );
        },
    };
    let mut config = NewlineConfig::Newline {
        additional_indent: IndentSize::spaces(0),
        extra_line_additional_indent: if extra_newline {
            Some(IndentSize::spaces(0))
        } else {
            None
        },
        prevent_auto_indent: false,
    };
    let comment = if selection_is_empty && extend_comment {
        comment_delimiter_for_newline(line, column, sc)
    } else {
        None
    };
    let doc = if selection_is_empty && extend_comment {
        documentation_delimiter_for_newline(line, column, sc, at_cursor, &mut config)
    } else {
        None
    };
    let list = if selection_is_empty && extend_list {
        list_delimiter_for_newline(line, column, sc, &mut config)
    } else {
        None
    };
    let delimiter = match comment {
        Some(c) => Some(c),
        None => match doc {
            Some(d) => Some(d),
            None => list,
        },
    };
    (delimiter, config)
}

/// Where a cursor lands after its newline: at the end of the inserted text
/// (`end`), or, when an extra line was inserted after it, at the end of the
/// row before, whose length is `prev_line_len`.
pub fn newline_cursor(end: Point, extra_line: bool, prev_line_len: u32) -> (r: Point)
    requires
        extra_line ==> end.row > 0,
    ensures
        r == if extra_line {
            Point { row: (end.row - 1) as u32, column: prev_line_len }
        } else {
            end
        },
{
    if extra_line {
        Point { row: end.row - 1, column: prev_line_len }
    } else {
        end
    }
}


proof fn lemma_marker_outcome_changes(
    line: Seq<char>,
    column: int,
    ws: nat,
    end: int,
    continuation: Seq<char>,
    reset: Seq<char>,
)
    ensures
        marker_outcome(line, column, ws, end, continuation, reset).1 != ConfigChange::Keep ==> column == end
            && all_ws(skip_upto(line, column)),
{
}

proof fn lemma_ordered_outcome_changes(
    ords: Seq<crate::language::OrderedListConfig>,
    k: int,
    line: Seq<char>,
    column: int,
    ws: nat,
    candidate: Seq<char>,
)
    ensures
        ordered_outcome(ords, k, line, column, ws, candidate).1 != ConfigChange::Keep ==> all_ws(
            skip_upto(line, column),
        ),
    decreases ords.len() - k,
{
    if 0 <= k < ords.len() {
        lemma_ordered_outcome_changes(ords, k + 1, line, column, ws, candidate);
        if pattern_compiles(ords[k].pattern@) {
            match first_captures(ords[k].pattern@, candidate) {
                Some(caps) => {
                    match caps.0 {
                        Some(len) => {
                            lemma_marker_outcome_changes(
                                line,
                                column,
                                ws,
                                (ws + len) as int,
                                Seq::empty(),
                                replace_all(ords[k].format@, number_placeholder(), seq!['1']),
                            );
                        },
                        None => {},
                    }
                },
                None => {},
            }
        }
    }
}

/// A newline never clears or unindents a list item while text stands after
/// the cursor: when the newline's insertion changes, nothing but whitespace
/// follows the cursor on its line.
pub proof fn lemma_list_clears_only_when_nothing_follows(line: Seq<char>, column: int, scope: LanguageScope)
    ensures
        spec_list_delimiter(line, column, scope).1 != ConfigChange::Keep ==> all_ws(skip_upto(line, column)),
{
    let ws = ws_prefix_len(line);
    let rest = line.skip(ws as int);
    let es = list_entries(scope);
    let candidate = take_upto(rest, max_entry_len(es) as int);
    if es.len() > 0 && best_entry(es, candidate) is Some {
        let j = best_entry(es, candidate)->0;
        lemma_marker_outcome_changes(line, column, ws, (ws + utf8_len(es[j].0)) as int, es[j].1, es[j].1);
    } else {
        lemma_ordered_outcome_changes(
            scope.language.config.ordered_list@,
            0,
            line,
            column,
            ws,
            take_upto(rest, ORDERED_LIST_MAX_MARKER_LEN as int),
        );
    }
}

proof fn lemma_chars_within_bytes(s: Seq<char>)
    ensures
        s.len() <= utf8_len(s),
    decreases s.len(),
{
    if s.len() > 0 {
        lemma_chars_within_bytes(s.drop_first());
    }
}

proof fn lemma_max_entry_len(es: Seq<(Seq<char>, Seq<char>)>)
    ensures
        forall|k: int| 0 <= k < es.len() ==> utf8_len(#[trigger] es[k].0) <= max_entry_len(es),
    decreases es.len(),
{
    if es.len() > 0 {
        lemma_max_entry_len(es.drop_last());
        assert forall|k: int| 0 <= k < es.len() implies utf8_len(#[trigger] es[k].0) <= max_entry_len(es) by {
            if k < es.len() - 1 {
                assert(es[k] == es.drop_last()[k]);
            }
        }
    }
}

/// The entry `best_entry` picks starts `candidate` and is at least as long
/// as any other entry that does; it picks none only when no entry does.
proof fn lemma_best_entry(es: Seq<(Seq<char>, Seq<char>)>, candidate: Seq<char>)
    ensures
        best_entry(es, candidate) matches Some(b) ==> 0 <= b < es.len() && has_prefix(candidate, es[b].0)
            && forall|k: int|
            0 <= k < es.len() && has_prefix(candidate, #[trigger] es[k].0) ==> utf8_len(es[k].0) <= utf8_len(
                es[b].0,
            ),
        best_entry(es, candidate) is None ==> forall|k: int|
            0 <= k < es.len() ==> !has_prefix(candidate, #[trigger] es[k].0),
    decreases es.len(),
{
    if es.len() > 0 {
        let init = es.drop_last();
        let last = es.len() - 1;
        lemma_best_entry(init, candidate);
        let prev = best_entry(init, candidate);
        assert forall|k: int| 0 <= k < init.len() implies #[trigger] init[k] == es[k] by {}
        if has_prefix(candidate, es[last].0) {
            match prev {
                Some(pj) => {
                    if utf8_len(es[last].0) >= utf8_len(es[pj].0) {
                        assert(best_entry(es, candidate) == Some(last));
                        assert forall|k: int|
                            0 <= k < es.len() && has_prefix(candidate, #[trigger] es[k].0) implies utf8_len(es[k].0)
                            <= utf8_len(es[last].0) by {
                            if k < last {
                                assert(init[k] == es[k]);
                            }
                        }
                    } else {
                        assert(best_entry(es, candidate) == Some(pj));
                        assert forall|k: int|
                            0 <= k < es.len() && has_prefix(candidate, #[trigger] es[k].0) implies utf8_len(es[k].0)
                            <= utf8_len(es[pj].0) by {
                            if k < last {
                                assert(init[k] == es[k]);
                            }
                        }
                    }
                },
                None => {
                    assert(best_entry(es, candidate) == Some(last));
                    assert forall|k: int|
                        0 <= k < es.len() && has_prefix(candidate, #[trigger] es[k].0) implies utf8_len(es[k].0)
                        <= utf8_len(es[last].0) by {
                        if k < last {
                            assert(init[k] == es[k]);
                        }
                    }
                },
            }
        } else {
            assert(best_entry(es, candidate) == prev);
            assert forall|k: int|
                0 <= k < es.len() && has_prefix(candidate, #[trigger] es[k].0) implies k < last && init[k] == es[k] by {}
        }
    }
}

/// A newline after a list item continues it: when the line starts, after
/// its indentation, with the marker of list entry `j` (its longest list
/// marker there, every other entry it starts with being shorter), text
/// follows that marker, and the cursor stands at or after the marker's end,
/// the newline continues the line with that entry's continuation and keeps
/// its insertion unchanged.
pub proof fn lemma_list_marker_continues(line: Seq<char>, column: int, scope: LanguageScope, j: int)
    requires
        0 <= j < list_entries(scope).len(),
        has_prefix(line.skip(ws_prefix_len(line) as int), list_entries(scope)[j].0),
        forall|k: int|
            0 <= k < list_entries(scope).len() && k != j && has_prefix(
                line.skip(ws_prefix_len(line) as int),
                #[trigger] list_entries(scope)[k].0,
            ) ==> utf8_len(list_entries(scope)[k].0) < utf8_len(list_entries(scope)[j].0),
        !all_ws(skip_upto(line, (ws_prefix_len(line) + utf8_len(list_entries(scope)[j].0)) as int)),
        ws_prefix_len(line) + utf8_len(list_entries(scope)[j].0) <= column,
    ensures
        spec_list_delimiter(line, column, scope) == (Some(list_entries(scope)[j].1), ConfigChange::Keep),
{
    let ws = ws_prefix_len(line);
    let rest = line.skip(ws as int);
    let es = list_entries(scope);
    let m = max_entry_len(es);
    let candidate = take_upto(rest, m as int);
    lemma_max_entry_len(es);
    lemma_best_entry(es, candidate);
    // An entry starts the candidate exactly when it starts the rest of the line.
    assert forall|k: int| 0 <= k < es.len() implies has_prefix(candidate, #[trigger] es[k].0) == has_prefix(
        rest,
        es[k].0,
    ) by {
        lemma_chars_within_bytes(es[k].0);
        if has_prefix(rest, es[k].0) {
            assert(candidate.take(es[k].0.len() as int) =~= rest.take(es[k].0.len() as int));
        }
        if has_prefix(candidate, es[k].0) {
            assert(candidate.take(es[k].0.len() as int) =~= rest.take(es[k].0.len() as int));
        }
    }
    assert(has_prefix(candidate, es[j].0));
    let b = best_entry(es, candidate)->0;
    if b != j {
        assert(has_prefix(candidate, es[b].0));
        assert(utf8_len(es[b].0) < utf8_len(es[j].0));
        assert(false);
    }
}

} // verus!
