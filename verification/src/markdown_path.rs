//! Which files are Markdown: by their extension, or by the conventional
//! names of a project's documentation files.
use vstd::prelude::*;

use crate::text::str_eq;

verus! {

/// Whether `name` can be the final component of `path`: it is not empty and
/// appears in `path` as a piece of it.
pub open spec fn component_of(name: Seq<char>, path: Seq<char>) -> bool {
    &&& name.len() > 0
    &&& exists|i: int| 0 <= i && i + name.len() <= path.len() && #[trigger] path.subrange(i, i + name.len()) == name
}

/// Whether `path` is a single plain name on every platform: not empty, not
/// `.` or `..`, and free of the separators `/` and `\\` and of the `:` that
/// starts a drive prefix.
pub open spec fn plain_name(path: Seq<char>) -> bool {
    &&& path.len() > 0
    &&& path != "."@
    &&& path != ".."@
    &&& forall|i: int| 0 <= i < path.len() ==> #[trigger] path[i] != '/' && path[i] != '\\' && path[i] != ':'
}

/// Whether `dir` can stand before a final `/` and a plain name, with the
/// same meaning on every platform: it is not empty, holds no `\\` and no
/// `:`, and does not start with `/`.
pub open spec fn plain_dir(dir: Seq<char>) -> bool {
    &&& dir.len() > 0
    &&& dir[0] != '/'
    &&& forall|i: int| 0 <= i < dir.len() ==> #[trigger] dir[i] != '\\' && dir[i] != ':'
}

/// Whether `dir` can come before a final `/` and a plain name, with
/// the same meaning on every platform: nothing (the path then starts at the
/// root), a plain directory, or the root `/` and a plain directory.
pub open spec fn dir_before_name(dir: Seq<char>) -> bool {
    dir.len() == 0 || plain_dir(dir) || (dir.len() > 1 && dir[0] == '/' && plain_dir(dir.skip(1)))
}

/// Whether `path` is a directory part, a `/` at index `k`, and a plain
/// name: `/n`, `d/n` or `/d/n` with `d` a plain directory.
pub open spec fn dir_and_name(path: Seq<char>, k: int) -> bool {
    &&& 0 <= k < path.len()
    &&& path[k] == '/'
    &&& dir_before_name(path.take(k))
    &&& plain_name(path.skip(k + 1))
}

/// Whether `path` ends in the component `..`, on every platform.
pub open spec fn ends_in_parent(path: Seq<char>) -> bool {
    path == ".."@ || (path.len() >= 3 && path.subrange(path.len() - 3, path.len() as int) == "/.."@)
}

/// std's `Path::file_name` on `path`, as a string. As `Path::file_name`
/// and `Path::components` document it: what it returns is a non-empty piece
/// of `path`; a path that is one plain name is its own file name; `/n`,
/// `d/n` and `/d/n`, with `d` a plain directory and `n` a plain name, have
/// the name `n` (`/` separates components on every platform); a path that
/// ends in `..` has none. Which piece it is for other paths is left
/// unsaid, since the separators and prefixes of paths differ from one
/// platform to another. A name that is not valid Unicode cannot come out of
/// a path that is.
#[verifier::external_body]
fn file_name_of(path: &str) -> (r: Option<String>)
    ensures
        r matches Some(n) ==> component_of(n@, path@),
        plain_name(path@) ==> r is Some && r->0@ == path@,
        forall|k: int| #[trigger] dir_and_name(path@, k) ==> r is Some && r->0@ == path@.skip(k + 1),
        ends_in_parent(path@) ==> r is None,
{
    std::path::Path::new(path).file_name().and_then(|name| name.to_str()).map(|name| name.to_string())
}

/// The final component of `path`, as the platform's paths have it: a
/// non-empty piece of `path` when there is one; the whole path when it is one
/// plain name; the name after the last `/` when the root, a plain
/// directory, or the root and a plain directory come before it; none when it
/// ends in `..`.
pub fn path_file_name(path: &str) -> (r: Option<String>)
    ensures
        r matches Some(n) ==> component_of(n@, path@),
        plain_name(path@) ==> r is Some && r->0@ == path@,
        forall|k: int| #[trigger] dir_and_name(path@, k) ==> r is Some && r->0@ == path@.skip(k + 1),
        ends_in_parent(path@) ==> r is None,
{
    file_name_of(path)
}

/// The index of the last `.` in `s`.
pub open spec fn last_dot(s: Seq<char>) -> Option<int>
    decreases s.len(),
{
    if s.len() == 0 {
        None
    } else if s.last() == '.' {
        Some(s.len() - 1)
    } else {
        last_dot(s.drop_last())
    }
}

/// The extension of a file name, as std's `Path::extension` documents it:
/// none without a `.`, none when the only `.` starts the name, else what
/// follows the last `.`.
pub open spec fn extension_of(name: Seq<char>) -> Option<Seq<char>> {
    match last_dot(name) {
        None => None,
        Some(i) => if i == 0 {
            None
        } else {
            Some(name.skip(i + 1))
        },
    }
}

/// `c` in ASCII lower case.
pub open spec fn ascii_lower(c: char) -> char {
    if 'A' <= c && c <= 'Z' {
        ((c as u32) + 32) as char
    } else {
        c
    }
}

/// `s` in ASCII lower case.
pub open spec fn ascii_lowercase(s: Seq<char>) -> Seq<char> {
    s.map_values(|c: char| ascii_lower(c))
}

/// The extensions of Markdown files.
pub open spec fn markdown_extension(e: Seq<char>) -> bool {
    e == "md"@ || e == "mdx"@ || e == "mdwn"@ || e == "mdc"@ || e == "markdown"@
}

/// The names of documentation files that are Markdown without an extension.
pub open spec fn markdown_file_name(n: Seq<char>) -> bool {
    n == "README"@ || n == "CHANGELOG"@ || n == "CONTRIBUTING"@ || n == "LICENSE"@ || n == "NEWS"@
        || n == "NOTICE"@
}

/// Whether a file named `name` is Markdown.
pub open spec fn markdown_name(name: Seq<char>) -> bool {
    (match extension_of(name) {
        Some(e) => markdown_extension(ascii_lowercase(e)),
        None => false,
    }) || markdown_file_name(name)
}

/// The extension of `name`.
pub(crate) fn extension(name: &str) -> (r: Option<String>)
    ensures
        match r {
            Some(e) => extension_of(name@) == Some(e@),
            None => extension_of(name@) is None,
        },
{
    let chars = crate::text::to_chars(name);
    let n = chars.len();
    let mut i: usize = n;
    assert(chars@.take(n as int) =~= chars@);
    while i > 0
        invariant
            i <= n,
            n == chars@.len(),
            chars@ == name@,
            last_dot(chars@) == last_dot(chars@.take(i as int)),
        decreases i,
    {
        assert(chars@.take(i as int).drop_last() =~= chars@.take(i - 1));
        if chars[i - 1] == '.' {
            if i - 1 == 0 {
                return None;
            }
            let mut e: Vec<char> = Vec::new();
            let mut k: usize = i;
            while k < n
                invariant
                    i <= k <= n,
                    n == chars@.len(),
                    e@ == chars@.subrange(i as int, k as int),
                decreases n - k,
            {
                e.push(chars[k]);
                k = k + 1;
            }
            assert(e@ =~= chars@.skip(i as int));
            return Some(crate::text::chars_to_string(&e));
        }
        i = i - 1;
    }
    assert(chars@.take(0) =~= Seq::<char>::empty());
    None
}

/// `s` in ASCII lower case.
fn to_ascii_lowercase(s: &str) -> (r: String)
    ensures
        r@ == ascii_lowercase(s@),
{
    let chars = crate::text::to_chars(s);
    let mut out: Vec<char> = Vec::new();
    let mut i: usize = 0;
    while i < chars.len()
        invariant
            i <= chars@.len(),
            chars@ == s@,
            out@ == ascii_lowercase(s@.take(i as int)),
        decreases chars@.len() - i,
    {
        let c = chars[i];
        let l = if 'A' <= c && c <= 'Z' {
            ((c as u32) + 32) as u8 as char
        } else {
            c
        };
        proof {
            if 'A' <= c && c <= 'Z' {
                assert(((c as u32) + 32) < 256);
            }
        }
        out.push(l);
        i = i + 1;
        assert(out@ =~= ascii_lowercase(s@.take(i as int)));
    }
    assert(s@.take(i as int) =~= s@);
    crate::text::chars_to_string(&out)
}

/// Whether a file named `name` is Markdown: its extension, in any case, is
/// one of Markdown's, or its name is that of a conventional documentation
/// file such as `README`.
pub fn is_markdown_file_name(name: &str) -> (r: bool)
    ensures
        r == markdown_name(name@),
{
    proof {
        reveal_strlit("md");
        reveal_strlit("mdx");
        reveal_strlit("mdwn");
        reveal_strlit("mdc");
        reveal_strlit("markdown");
        reveal_strlit("README");
        reveal_strlit("CHANGELOG");
        reveal_strlit("CONTRIBUTING");
        reveal_strlit("LICENSE");
        reveal_strlit("NEWS");
        reveal_strlit("NOTICE");
    }
    if let Some(e) = extension(name) {
        let lower = to_ascii_lowercase(e.as_str());
        let l = lower.as_str();
        if str_eq(l, "md") || str_eq(l, "mdx") || str_eq(l, "mdwn") || str_eq(l, "mdc") || str_eq(l, "markdown") {
            return true;
        }
    }
    str_eq(name, "README") || str_eq(name, "CHANGELOG") || str_eq(name, "CONTRIBUTING") || str_eq(name, "LICENSE")
        || str_eq(name, "NEWS") || str_eq(name, "NOTICE")
}

/// What is known of whether `path` is a Markdown path, `r`: it is only
/// when some final component of it is a Markdown name; a plain name, or a
/// root or (absolute or relative) plain directory followed by `/` and a
/// plain name, is exactly when that name is; a path ending in `..` never is.
pub open spec fn markdown_path_judged(path: Seq<char>, r: bool) -> bool {
    &&& r ==> exists|n: Seq<char>| component_of(n, path) && markdown_name(n)
    &&& plain_name(path) ==> r == markdown_name(path)
    &&& forall|k: int| #[trigger] dir_and_name(path, k) ==> r == markdown_name(path.skip(k + 1))
    &&& ends_in_parent(path) ==> !r
}

/// Each conventional name of a project's documentation file is a Markdown
/// file name, which `is_markdown_file_name` accepts.
pub proof fn lemma_documentation_file_names(name: Seq<char>)
    requires
        name == "README"@ || name == "CHANGELOG"@ || name == "CONTRIBUTING"@ || name == "LICENSE"@ || name
            == "NEWS"@ || name == "NOTICE"@,
    ensures
        markdown_name(name),
{
}

/// The conventional names of a project's documentation files are Markdown
/// whatever directory they stand in: a path whose final component (after
/// the root, a plain directory, or both) is README, CHANGELOG, CONTRIBUTING,
/// LICENSE, NEWS or NOTICE is judged Markdown, and so is such a bare name.
pub proof fn lemma_documentation_names_are_markdown(path: Seq<char>, k: int, r: bool)
    requires
        markdown_path_judged(path, r),
        dir_and_name(path, k) || (k == -1 && plain_name(path)),
        ({
            let n = path.skip(k + 1);
            n == "README"@ || n == "CHANGELOG"@ || n == "CONTRIBUTING"@ || n == "LICENSE"@ || n == "NEWS"@
                || n == "NOTICE"@
        }),
    ensures
        r,
{
    if k == -1 {
        assert(path.skip(0) =~= path);
    }
}

/// Whether the file at `path` is Markdown, judged by its final component
/// (see `is_markdown_file_name`): a path that is one plain name is judged by
/// itself, one of the form `/n`, `d/n` or `/d/n` (`d` a plain directory) by
/// the name `n`; a path without a final component, such as one ending in `..`, is
/// not Markdown.
pub fn is_markdown_path(path: &str) -> (r: bool)
    ensures
        markdown_path_judged(path@, r),
{
    match file_name_of(path) {
        Some(name) => is_markdown_file_name(name.as_str()),
        None => false,
    }
}


/// What the editor's own context menu offers.
#[derive(Clone, Copy, PartialEq, Eq, Structural, Debug)]
pub struct MenuPlan {
    /// Whether the cursor first moves to the clicked point, which lies in
    /// no selection.
    pub move_cursor: bool,
    /// Whether the items that mark the selection's authorship are enabled.
    pub mark_selection_enabled: bool,
    /// Whether revealing the file in the file manager is enabled.
    pub reveal_enabled: bool,
    /// Whether the menu offers a Markdown preview.
    pub markdown_preview: bool,
}

/// Whether a language named `name` is Markdown.
pub open spec fn is_markdown_language(name: Option<Seq<char>>) -> bool {
    name == Some("Markdown"@)
}

/// The editor's own context menu, if it shows one: only a full editor with
/// a project does. The cursor moves to the click unless the click lies in a
/// selection (`click_in_selection`); marking authorship needs a non-empty
/// selection, revealing needs a file to reveal; a Markdown preview is
/// offered for an editor of a single buffer (`singleton`, with its language's
/// name and its file's path) whose language is Markdown or whose path is a
/// Markdown path.
pub fn context_menu_plan(
    is_full: bool,
    has_project: bool,
    click_in_selection: bool,
    has_selection: bool,
    has_reveal_target: bool,
    singleton: Option<(Option<&str>, Option<&str>)>,
) -> (r: Option<MenuPlan>)
    ensures
        r is None <==> !(is_full && has_project),
        r matches Some(m) ==> {
            &&& m.move_cursor == !click_in_selection
            &&& m.mark_selection_enabled == has_selection
            &&& m.reveal_enabled == has_reveal_target
            &&& singleton is None ==> !m.markdown_preview
            &&& singleton matches Some((l, p)) ==> {
                let lang = match l {
                    Some(n) => Some(n@),
                    None => None::<Seq<char>>,
                };
                if is_markdown_language(lang) {
                    m.markdown_preview
                } else {
                    match p {
                        Some(path) => markdown_path_judged(path@, m.markdown_preview),
                        None => !m.markdown_preview,
                    }
                }
            }
        },
{
    if !is_full || !has_project {
        return None;
    }
    let markdown_preview = match singleton {
        Some((l, p)) => {
            let by_language = match l {
                Some(n) => str_eq(n, "Markdown"),
                None => false,
            };
            if by_language {
                true
            } else {
                match p {
                    Some(path) => is_markdown_path(path),
                    None => false,
                }
            }
        },
        None => false,
    };
    Some(
        MenuPlan {
            move_cursor: !click_in_selection,
            mark_selection_enabled: has_selection,
            reveal_enabled: has_reveal_target,
            markdown_preview,
        },
    )
}

} // verus!
