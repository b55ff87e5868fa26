//! The path shown for an editor's file in tabs and breadcrumbs: the file
//! name and as many parent directories as asked, or the full path when
//! there are fewer.
use vstd::prelude::*;

use crate::text::{append_chars, chars_to_string, to_chars};

verus! {

/// Where a buffer's file lies: its path within its worktree, as components,
/// and the worktree's name.
pub struct FileLocation {
    /// Whether the file belongs to a project's worktree.
    pub is_project_file: bool,
    /// The components of its path within the worktree.
    pub components: Vec<String>,
    /// The name of the worktree's root.
    pub root_name: String,
}

/// The components joined by `sep`.
pub open spec fn joined(components: Seq<Seq<char>>, sep: char) -> Seq<char>
    decreases components.len(),
{
    if components.len() == 0 {
        Seq::empty()
    } else if components.len() == 1 {
        components[0]
    } else {
        joined(components.drop_last(), sep) + seq![sep] + components.last()
    }
}

/// The components of a location's path, as values.
pub open spec fn components_of(file: FileLocation) -> Seq<Seq<char>> {
    file.components@.map_values(|c: String| c@)
}

/// The path shown for `file` with `height` parent directories: with fewer
/// directories than that, the full path from the worktree's root (joined by
/// `/`); else the last `height + 1` components joined by `sep`. Without
/// `include_filename`, the last component is left out, and there is no path
/// when nothing would remain. A file outside a project has no path.
pub open spec fn shown_path(file: FileLocation, height: usize, include_filename: bool, sep: char) -> Option<
    Seq<char>,
> {
    if !file.is_project_file {
        None
    } else {
        let comps = components_of(file);
        let n = comps.len() as int;
        let h = height + 1;
        let steps = if h <= n { h } else { n };
        if h - steps > 0 {
            let full = (if file.root_name@.len() > 0 { seq![file.root_name@] } else { Seq::empty() }) + comps;
            if include_filename {
                Some(joined(full, '/'))
            } else if full.len() == 0 {
                None
            } else {
                Some(joined(full.drop_last(), '/'))
            }
        } else {
            let rest = comps.skip(n - steps);
            if include_filename {
                Some(joined(rest, sep))
            } else if rest.len() == 0 {
                None
            } else {
                Some(joined(rest.drop_last(), sep))
            }
        }
    }
}

fn join_components(components: &Vec<Vec<char>>, sep: char, count: usize, Ghost(spec): Ghost<Seq<Seq<char>>>) -> (r: Vec<char>)
    requires
        count <= components@.len(),
        components@.len() == spec.len(),
        forall|i: int| 0 <= i < spec.len() ==> (#[trigger] components@[i])@ == spec[i],
    ensures
        r@ == joined(spec.take(count as int), sep),
{
    let mut out: Vec<char> = Vec::new();
    let mut i: usize = 0;
    assert(spec.take(0) =~= Seq::<Seq<char>>::empty());
    while i < count
        invariant
            i <= count <= components@.len(),
            components@.len() == spec.len(),
            forall|k: int| 0 <= k < spec.len() ==> (#[trigger] components@[k])@ == spec[k],
            out@ == joined(spec.take(i as int), sep),
        decreases count - i,
    {
        assert(spec.take(i as int + 1).drop_last() =~= spec.take(i as int));
        assert(spec.take(i as int + 1).last() == spec[i as int]);
        if i > 0 {
            out.push(sep);
        } else {
            assert(spec.take(1) =~= seq![spec[0]]);
        }
        append_chars(&mut out, &components[i]);
        i = i + 1;
    }
    out
}

/// The path shown for `file` with `height` parent directories; see
/// `shown_path`.
pub fn path_for_file(file: &FileLocation, height: usize, include_filename: bool, sep: char) -> (r: Option<String>)
    requires
        height < usize::MAX,
    ensures
        match shown_path(*file, height, include_filename, sep) {
            Some(p) => r matches Some(s) && s@ == p,
            None => r is None,
        },
{
    if !file.is_project_file {
        return None;
    }
    let ghost comps = components_of(*file);
    let n = file.components.len();
    let mut h: usize = height + 1;
    let mut prefix: usize = n;
    while h > 0
        invariant
            prefix <= n,
            h + (n - prefix) == height + 1,
        ensures
            h == 0 || prefix == 0,
            prefix <= n,
            h + (n - prefix) == height + 1,
        decreases h,
    {
        if prefix > 0 {
            prefix = prefix - 1;
            h = h - 1;
        } else {
            break;
        }
    }
    if h > 0 {
        let mut full: Vec<Vec<char>> = Vec::new();
        let root = to_chars(file.root_name.as_str());
        let ghost full_spec = (if file.root_name@.len() > 0 { seq![file.root_name@] } else { Seq::empty() }) + comps;
        if root.len() > 0 {
            full.push(root);
        }
        let base = full.len();
        let mut j: usize = 0;
        while j < n
            invariant
                j <= n,
                base == if file.root_name@.len() > 0 { 1nat } else { 0nat },
                full@.len() == base + j,
                forall|i: int| 0 <= i < base + j ==> (#[trigger] full@[i])@ == full_spec[i],
                full_spec == (if file.root_name@.len() > 0 { seq![file.root_name@] } else { Seq::empty() }) + comps,
                comps.len() == n,
                n == file.components@.len(),
                comps == components_of(*file),
            decreases n - j,
        {
            let c = to_chars(file.components[j].as_str());
            assert(c@ == comps[j as int]);
            full.push(c);
            j = j + 1;
        }
        assert(full_spec.len() == full@.len());
        if include_filename {
            let s = join_components(&full, '/', full.len(), Ghost(full_spec));
            assert(full_spec.take(full_spec.len() as int) =~= full_spec);
            return Some(chars_to_string(&s));
        }
        if full.len() == 0 {
            return None;
        }
        let s = join_components(&full, '/', full.len() - 1, Ghost(full_spec));
        assert(full_spec.take(full_spec.len() - 1) =~= full_spec.drop_last());
        Some(chars_to_string(&s))
    } else {
        let mut rest: Vec<Vec<char>> = Vec::new();
        let ghost rest_spec = comps.skip(prefix as int);
        let mut j: usize = prefix;
        while j < n
            invariant
                prefix <= j <= n,
                comps.len() == n,
                rest@.len() == j - prefix,
                rest_spec == comps.skip(prefix as int),
                n == file.components@.len(),
                comps == components_of(*file),
                forall|i: int| 0 <= i < j - prefix ==> (#[trigger] rest@[i])@ == rest_spec[i],
            decreases n - j,
        {
            let c = to_chars(file.components[j].as_str());
            assert(c@ == comps[j as int]);
            rest.push(c);
            j = j + 1;
        }
        if include_filename {
            let s = join_components(&rest, sep, rest.len(), Ghost(rest_spec));
            assert(rest_spec.take(rest_spec.len() as int) =~= rest_spec);
            return Some(chars_to_string(&s));
        }
        if rest.len() == 0 {
            return None;
        }
        let s = join_components(&rest, sep, rest.len() - 1, Ghost(rest_spec));
        assert(rest_spec.take(rest_spec.len() - 1) =~= rest_spec.drop_last());
        Some(chars_to_string(&s))
    }
}

} // verus!
