//! What a file's human-written ranges are saved as, under which file name,
//! and when saved data is accepted back.
use std::ops::Range;
use vstd::prelude::*;

use crate::text::{chars_to_string, hex_digits, push_hex, str_eq, to_chars};

verus! {

/// The version of the saved format.
pub const AUTHORSHIP_VERSION: u32 = 1;

/// A range of bytes written by a human.
#[derive(Clone, Copy, PartialEq, Eq, Structural, Debug)]
pub struct PersistedRange {
    /// The first byte.
    pub start: usize,
    /// The byte past the last.
    pub end: usize,
}

/// The saved authorship of a file: the text it had and the ranges of it
/// that a human wrote.
pub struct PersistedAuthorship {
    version: u32,
    path: String,
    text: String,
    human_ranges: Vec<PersistedRange>,
}

/// The ranges among `rs` that are not empty, in order.
pub open spec fn nonempty_ranges(rs: Seq<(usize, usize)>) -> Seq<(usize, usize)>
    decreases rs.len(),
{
    if rs.len() == 0 {
        Seq::empty()
    } else {
        let rest = nonempty_ranges(rs.drop_last());
        if rs.last().0 < rs.last().1 {
            rest.push(rs.last())
        } else {
            rest
        }
    }
}

/// The plain value of saved ranges.
pub open spec fn persisted_view(rs: Seq<PersistedRange>) -> Seq<(usize, usize)> {
    rs.map_values(|r: PersistedRange| (r.start, r.end))
}

/// The plain value of ranges.
pub open spec fn ranges_view(rs: Seq<Range<usize>>) -> Seq<(usize, usize)> {
    rs.map_values(|r: Range<usize>| (r.start, r.end))
}

impl PersistedAuthorship {
    /// The format version of the saved data.
    pub closed spec fn spec_version(self) -> u32 {
        self.version
    }

    /// The path of the file the data belongs to.
    pub closed spec fn spec_path(self) -> Seq<char> {
        self.path@
    }

    /// The text the file had.
    pub closed spec fn spec_text(self) -> Seq<char> {
        self.text@
    }

    /// The saved ranges, as they were saved.
    pub closed spec fn spec_ranges(self) -> Seq<(usize, usize)> {
        persisted_view(self.human_ranges@)
    }

    /// Saved data made of its parts.
    pub fn from_parts(version: u32, path: String, text: String, human_ranges: Vec<PersistedRange>) -> (r:
        Self)
        ensures
            r.spec_version() == version,
            r.spec_path() == path@,
            r.spec_text() == text@,
            r.spec_ranges() == persisted_view(human_ranges@),
    {
        PersistedAuthorship { version, path, text, human_ranges }
    }

    /// The format version of the saved data.
    pub fn version(&self) -> (r: u32)
        ensures
            r == self.spec_version(),
    {
        self.version
    }

    /// The path of the file the data belongs to.
    pub fn path(&self) -> (r: &str)
        ensures
            r@ == self.spec_path(),
    {
        self.path.as_str()
    }

    /// The text the file had when the data was saved.
    pub fn previous_text(&self) -> (r: &str)
        ensures
            r@ == self.spec_text(),
    {
        self.text.as_str()
    }

    /// The saved ranges, as they were saved.
    pub fn persisted_ranges(&self) -> (r: &[PersistedRange])
        ensures
            persisted_view(r@) == self.spec_ranges(),
    {
        self.human_ranges.as_slice()
    }

    /// The human-written ranges, leaving out empty ones.
    pub fn human_ranges(&self) -> (r: Vec<Range<usize>>)
        ensures
            ranges_view(r@) == nonempty_ranges(self.spec_ranges()),
    {
        let ghost all = persisted_view(self.human_ranges@);
        let mut r: Vec<Range<usize>> = Vec::new();
        let mut i: usize = 0;
        while i < self.human_ranges.len()
            invariant
                i <= self.human_ranges@.len(),
                all == persisted_view(self.human_ranges@),
                ranges_view(r@) == nonempty_ranges(all.take(i as int)),
            decreases self.human_ranges.len() - i,
        {
            let range = self.human_ranges[i];
            let ghost before = r@;
            assert(all.take(i + 1).drop_last() =~= all.take(i as int));
            assert(all.take(i + 1).last() == (range.start, range.end));
            if range.start < range.end {
                r.push(range.start..range.end);
                assert(ranges_view(r@) =~= ranges_view(before).push((range.start, range.end)));
            }
            i = i + 1;
        }
        assert(all.take(self.human_ranges@.len() as int) =~= all);
        r
    }
}

/// The FNV-1a hash of `bytes`, 64 bits.
pub open spec fn fnv1a(bytes: Seq<u8>) -> u64
    decreases bytes.len(),
{
    if bytes.len() == 0 {
        0xcbf29ce484222325u64
    } else {
        ((((fnv1a(bytes.drop_last()) ^ (bytes.last() as u64)) as int) * 0x100000001b3int)
            % 0x1_0000_0000_0000_0000int) as u64
    }
}

/// The FNV-1a hash of `bytes`: a hash that stays the same across processes.
pub fn stable_hash(bytes: &[u8]) -> (r: u64)
    ensures
        r == fnv1a(bytes@),
{
    let mut hash: u64 = 0xcbf29ce484222325u64;
    let mut i: usize = 0;
    while i < bytes.len()
        invariant
            i <= bytes@.len(),
            hash == fnv1a(bytes@.take(i as int)),
        decreases bytes.len() - i,
    {
        assert(bytes@.take(i + 1).drop_last() =~= bytes@.take(i as int));
        hash = hash ^ (bytes[i] as u64);
        hash = hash.wrapping_mul(0x100000001b3);
        i = i + 1;
    }
    assert(bytes@.take(bytes@.len() as int) =~= bytes@);
    hash
}

/// The suffix of authorship file names.
pub open spec fn json_suffix() -> Seq<char> {
    seq!['.', 'j', 's', 'o', 'n']
}

/// The name of the file that holds the authorship of the file at `abs_path`:
/// the 16 hexadecimal digits of the hash of the path's UTF-8 bytes, then `.json`.
pub open spec fn spec_file_name(abs_path: Seq<char>) -> Seq<char> {
    hex_digits(fnv1a(vstd::utf8::encode_utf8(abs_path)) as nat, 16) + json_suffix()
}

/// The name of the file that holds the authorship of the file at `abs_path`.
pub fn authorship_file_name(abs_path: &str) -> (r: String)
    ensures
        r@ == spec_file_name(abs_path@),
{
    let hash = stable_hash(abs_path.as_bytes());
    let mut name: Vec<char> = Vec::new();
    push_hex(hash, 16, &mut name);
    name.push('.');
    name.push('j');
    name.push('s');
    name.push('o');
    name.push('n');
    assert(name@ =~= spec_file_name(abs_path@));
    chars_to_string(&name)
}

/// What saving a file's authorship does.
pub enum SaveAction {
    /// No range is left: the saved data is deleted.
    Delete,
    /// The data is written.
    Write(PersistedAuthorship),
}

/// What saving the authorship of the file at `abs_path`, whose text is `text`
/// and whose human-written ranges are `human_ranges`, does: empty ranges are
/// left out; with none left the saved data is deleted, else it is written
/// with the current version.
pub fn prepare_save(abs_path: &str, text: String, human_ranges: Vec<Range<usize>>) -> (r: SaveAction)
    ensures
        nonempty_ranges(ranges_view(human_ranges@)).len() == 0 ==> r is Delete,
        nonempty_ranges(ranges_view(human_ranges@)).len() > 0 ==> (r matches SaveAction::Write(p)
            && p.spec_version() == AUTHORSHIP_VERSION && p.spec_path() == abs_path@
            && p.spec_text() == text@ && p.spec_ranges() == nonempty_ranges(
            ranges_view(human_ranges@),
        )),
{
    let ghost all = ranges_view(human_ranges@);
    let mut kept: Vec<PersistedRange> = Vec::new();
    let mut i: usize = 0;
    while i < human_ranges.len()
        invariant
            i <= human_ranges@.len(),
            all == ranges_view(human_ranges@),
            persisted_view(kept@) == nonempty_ranges(all.take(i as int)),
        decreases human_ranges.len() - i,
    {
        let start = human_ranges[i].start;
        let end = human_ranges[i].end;
        let ghost before = kept@;
        assert(all.take(i + 1).drop_last() =~= all.take(i as int));
        assert(all.take(i + 1).last() == (start, end));
        if start < end {
            kept.push(PersistedRange { start, end });
            assert(persisted_view(kept@) =~= persisted_view(before).push((start, end)));
        }
        i = i + 1;
    }
    assert(all.take(human_ranges@.len() as int) =~= all);
    if kept.len() == 0 {
        return SaveAction::Delete;
    }
    let path = chars_to_string(&to_chars(abs_path));
    SaveAction::Write(PersistedAuthorship::from_parts(AUTHORSHIP_VERSION, path, text, kept))
}

/// Whether saved data is accepted for the file at `abs_path`: its version is
/// the current one and it names that path.
pub open spec fn spec_accepts(p: PersistedAuthorship, abs_path: Seq<char>) -> bool {
    p.spec_version() == AUTHORSHIP_VERSION && p.spec_path() == abs_path
}

/// The saved data read for the file at `abs_path`, if it is accepted.
pub fn accept_loaded(persisted: PersistedAuthorship, abs_path: &str) -> (r: Option<
    PersistedAuthorship,
>)
    ensures
        spec_accepts(persisted, abs_path@) ==> r == Some(persisted),
        !spec_accepts(persisted, abs_path@) ==> r is None,
{
    if persisted.version != AUTHORSHIP_VERSION || !str_eq(persisted.path.as_str(), abs_path) {
        return None;
    }
    Some(persisted)
}

/// Saved data is read back as it was saved: what saving writes for a file is
/// accepted when that file's data is loaded, and gives back the text and the
/// non-empty ranges it was saved with.
pub proof fn lemma_save_then_load(abs_path: Seq<char>, text: Seq<char>, p: PersistedAuthorship, ranges: Seq<(usize, usize)>)
    requires
        p.spec_version() == AUTHORSHIP_VERSION,
        p.spec_path() == abs_path,
        p.spec_text() == text,
        p.spec_ranges() == nonempty_ranges(ranges),
    ensures
        spec_accepts(p, abs_path),
        nonempty_ranges(p.spec_ranges()) == nonempty_ranges(ranges),
        p.spec_text() == text,
{
    lemma_nonempty_idempotent(ranges);
}

/// Leaving out empty ranges twice is leaving them out once.
pub proof fn lemma_nonempty_idempotent(rs: Seq<(usize, usize)>)
    ensures
        nonempty_ranges(nonempty_ranges(rs)) == nonempty_ranges(rs),
    decreases rs.len(),
{
    if rs.len() > 0 {
        lemma_nonempty_idempotent(rs.drop_last());
        let rest = nonempty_ranges(rs.drop_last());
        if rs.last().0 < rs.last().1 {
            assert(rest.push(rs.last()).drop_last() =~= rest);
        }
    }
}

} // verus!
