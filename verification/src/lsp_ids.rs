//! The identities of language servers: a numeric id and a name, and how
//! they travel over the wire.
use vstd::prelude::*;

use crate::text::str_eq;

verus! {

/// A language server's numeric id.
#[derive(Clone, Copy, PartialEq, Eq, Structural, Debug, Hash, PartialOrd, Ord)]
pub struct LanguageServerId(pub usize);

impl LanguageServerId {
    /// The id a wire message carries, taken as a machine word.
    pub fn from_proto(id: u64) -> (r: LanguageServerId)
        ensures
            r.0 == id as usize,
    {
        LanguageServerId(id as usize)
    }

    /// The id as a wire message carries it.
    pub fn to_proto(self) -> (r: u64)
        ensures
            r == self.0 as u64,
    {
        self.0 as u64
    }
}

/// A language server's name.
#[derive(Clone, PartialEq, Eq, Debug, Hash)]
pub struct LanguageServerName(pub String);

impl LanguageServerName {
    /// The name a wire message carries.
    pub fn from_proto(s: String) -> (r: LanguageServerName)
        ensures
            r.0 == s,
    {
        LanguageServerName(s)
    }

    /// Whether the name is `other`.
    pub fn eq_str(&self, other: &str) -> (r: bool)
        ensures
            r == (self.0@ == other@),
    {
        str_eq(self.0.as_str(), other)
    }
}

/// How a language server is picked: by id or by name.
#[derive(Clone, PartialEq, Eq, Debug, Hash)]
pub enum LanguageServerSelector {
    /// By id.
    Id(LanguageServerId),
    /// By name.
    Name(LanguageServerName),
}

/// An id read back from the wire is the id sent.
pub proof fn lemma_id_round_trip(id: LanguageServerId)
    ensures
        (id.0 as u64) as usize == id.0,
{
}

} // verus!
