//! Opening the excerpts of a multibuffer in their own editors: the
//! selections grouped by the buffer they fall in, and how each buffer is
//! opened.
use std::collections::HashMap;
use vstd::prelude::*;

verus! {

broadcast use vstd::std_specs::hash::group_hash_axioms;

/// The ranges of `pieces` grouped by their buffer, each group in the order
/// of `pieces`.
pub open spec fn grouped_by_buffer(pieces: Seq<(u64, (usize, usize))>) -> Map<u64, Seq<(usize, usize)>>
    decreases pieces.len(),
{
    if pieces.len() == 0 {
        Map::empty()
    } else {
        let m = grouped_by_buffer(pieces.drop_last());
        let (id, r) = pieces.last();
        m.insert(id, (if m.contains_key(id) { m[id] } else { Seq::empty() }).push(r))
    }
}

/// The ranges of the selections, each given with the buffer it falls in,
/// grouped by buffer.
pub fn selections_by_buffer(pieces: &Vec<(u64, (usize, usize))>) -> (r: HashMap<u64, Vec<(usize, usize)>>)
    ensures
        r@.dom() == grouped_by_buffer(pieces@).dom(),
        forall|id: u64| #[trigger] r@.contains_key(id) ==> r@[id]@ == grouped_by_buffer(pieces@)[id],
{
    let mut m: HashMap<u64, Vec<(usize, usize)>> = HashMap::new();
    let mut i: usize = 0;
    while i < pieces.len()
        invariant
            i <= pieces@.len(),
            m@.dom() == grouped_by_buffer(pieces@.take(i as int)).dom(),
            forall|id: u64| #[trigger] m@.contains_key(id) ==> m@[id]@ == grouped_by_buffer(pieces@.take(i as int))[id],
        decreases pieces@.len() - i,
    {
        let (id, r) = pieces[i];
        assert(pieces@.take(i as int + 1).drop_last() =~= pieces@.take(i as int));
        let ghost g = grouped_by_buffer(pieces@.take(i as int));
        let mut v = match m.remove(&id) {
            Some(v) => v,
            None => Vec::new(),
        };
        v.push(r);
        m.insert(id, v);
        proof {
            let g2 = grouped_by_buffer(pieces@.take(i as int + 1));
            assert(g2 == g.insert(id, (if g.contains_key(id) { g[id] } else { Seq::empty() }).push(r)));
            assert(m@.dom() =~= g2.dom());
        }
        i = i + 1;
    }
    assert(pieces@.take(i as int) =~= pieces@);
    m
}

/// How a buffer is opened in the workspace.
#[derive(Clone, Copy, PartialEq, Eq, Structural, Debug)]
pub struct OpenPlan {
    /// Whether an editor already showing the buffer in the pane is reused
    /// before a new one is opened.
    pub reuse_open_editor: bool,
    /// Whether the editor is made read-only.
    pub read_only: bool,
}

/// How a buffer is opened: one without a file, or with a file outside the
/// project, is looked for among the pane's editors first, since the project
/// cannot find it; one with a file outside the project opens read-only.
pub fn open_plan(has_file: bool, is_project_file: bool) -> (r: OpenPlan)
    ensures
        r.reuse_open_editor == (!has_file || !is_project_file),
        r.read_only == (has_file && !is_project_file),
{
    OpenPlan { reuse_open_editor: !has_file || !is_project_file, read_only: has_file && !is_project_file }
}


/// Where a request to open the excerpts' buffers goes.
#[derive(Clone, Copy, PartialEq, Eq, Structural, Debug)]
pub enum ExcerptsRoute {
    /// To what contains the editor: it shows one buffer, or has no
    /// workspace to open buffers in.
    Propagate,
    /// Out as an event, for the editor's owner to open.
    Emit,
    /// Nowhere: there is nothing to open.
    Nothing,
    /// Into the workspace, which opens the buffers.
    Open,
}

/// Where opening the excerpts goes: an editor of a single buffer hands the
/// request on; one that delegates emits the selections by buffer when there
/// are any (`has_selections`) and does nothing else; one without a
/// workspace hands it on; otherwise the buffers that can be opened
/// (`has_openable`) are opened, if there are any.
pub fn open_excerpts_route(
    is_singleton: bool,
    delegate_open_excerpts: bool,
    has_selections: bool,
    has_workspace: bool,
    has_openable: bool,
) -> (r: ExcerptsRoute)
    ensures
        r == if is_singleton {
            ExcerptsRoute::Propagate
        } else if delegate_open_excerpts {
            if has_selections {
                ExcerptsRoute::Emit
            } else {
                ExcerptsRoute::Nothing
            }
        } else if !has_workspace {
            ExcerptsRoute::Propagate
        } else if has_openable {
            ExcerptsRoute::Open
        } else {
            ExcerptsRoute::Nothing
        },
{
    if is_singleton {
        return ExcerptsRoute::Propagate;
    }
    if delegate_open_excerpts {
        return if has_selections {
            ExcerptsRoute::Emit
        } else {
            ExcerptsRoute::Nothing
        };
    }
    if !has_workspace {
        return ExcerptsRoute::Propagate;
    }
    if has_openable {
        ExcerptsRoute::Open
    } else {
        ExcerptsRoute::Nothing
    }
}

/// Whether every edited range lies within `excerpt`.
pub open spec fn all_within(edits: Seq<(usize, usize)>, excerpt: (usize, usize)) -> bool {
    forall|i: int| 0 <= i < edits.len() ==> excerpt.0 <= (#[trigger] edits[i]).0 && edits[i].1 <= excerpt.1
}

/// Whether a project transaction is shown in an editor of its own: not
/// when it changed nothing, nor when it changed a single buffer, the
/// excerpt around the cursor shows that buffer (`cursor_excerpt`), and
/// every edit lies within that excerpt.
pub fn show_transaction(entries: usize, cursor_excerpt: Option<(usize, usize)>, edits: &Vec<(usize, usize)>) -> (r: bool)
    ensures
        r == (entries > 0 && !(entries == 1 && match cursor_excerpt {
            Some(e) => all_within(edits@, e),
            None => false,
        })),
{
    if entries == 0 {
        return false;
    }
    if entries == 1 {
        if let Some(e) = cursor_excerpt {
            let mut i: usize = 0;
            while i < edits.len()
                invariant
                    i <= edits@.len(),
                    entries == 1,
                    cursor_excerpt == Some(e),
                    forall|k: int| 0 <= k < i ==> e.0 <= (#[trigger] edits@[k]).0 && edits@[k].1 <= e.1,
                decreases edits@.len() - i,
            {
                if !(e.0 <= edits[i].0 && edits[i].1 <= e.1) {
                    assert(!all_within(edits@, e));
                    return true;
                }
                i = i + 1;
            }
            return false;
        }
    }
    true
}

} // verus!
