//! Relations between issues.

use std::str::FromStr;

use vstd::prelude::*;

use crate::errors::ParseError;
use crate::text::{
    is_ascii_char, lemma_ascii_lower_fixed, ascii_lower, dashes_for_underscores, is_ascii_text, lowercase_of, owned, str_eq, to_lowercase,
    underscores_to_dashes,
};

verus! {

/// The kind of a directed relation from one issue to another.
#[derive(Debug, Clone, Copy, PartialEq, Eq, Structural)]
pub enum RelationKind {
    Blocks,
    BlockedBy,
    DependsOn,
    DependencyOf,
    RelatesTo,
    Duplicates,
    DuplicateOf,
}

impl RelationKind {
    /// The text by which the kind is stored and shown.
    pub open spec fn spec_label(self) -> Seq<char> {
        match self {
            RelationKind::Blocks => "blocks"@,
            RelationKind::BlockedBy => "blocked-by"@,
            RelationKind::DependsOn => "depends-on"@,
            RelationKind::DependencyOf => "dependency-of"@,
            RelationKind::RelatesTo => "relates-to"@,
            RelationKind::Duplicates => "duplicates"@,
            RelationKind::DuplicateOf => "duplicate-of"@,
        }
    }

    pub fn label(self) -> (r: &'static str)
        ensures
            r@ == self.spec_label(),
    {
        match self {
            RelationKind::Blocks => "blocks",
            RelationKind::BlockedBy => "blocked-by",
            RelationKind::DependsOn => "depends-on",
            RelationKind::DependencyOf => "dependency-of",
            RelationKind::RelatesTo => "relates-to",
            RelationKind::Duplicates => "duplicates",
            RelationKind::DuplicateOf => "duplicate-of",
        }
    }

    /// The kind seen from the other end of the relation.
    pub open spec fn spec_inverse(self) -> RelationKind {
        match self {
            RelationKind::Blocks => RelationKind::BlockedBy,
            RelationKind::BlockedBy => RelationKind::Blocks,
            RelationKind::DependsOn => RelationKind::DependencyOf,
            RelationKind::DependencyOf => RelationKind::DependsOn,
            RelationKind::RelatesTo => RelationKind::RelatesTo,
            RelationKind::Duplicates => RelationKind::DuplicateOf,
            RelationKind::DuplicateOf => RelationKind::Duplicates,
        }
    }

    /// Returns the inverse relation kind.
    pub fn inverse(self) -> (r: RelationKind)
        ensures
            r == self.spec_inverse(),
    {
        match self {
            RelationKind::Blocks => RelationKind::BlockedBy,
            RelationKind::BlockedBy => RelationKind::Blocks,
            RelationKind::DependsOn => RelationKind::DependencyOf,
            RelationKind::DependencyOf => RelationKind::DependsOn,
            RelationKind::RelatesTo => RelationKind::RelatesTo,
            RelationKind::Duplicates => RelationKind::DuplicateOf,
            RelationKind::DuplicateOf => RelationKind::Duplicates,
        }
    }

    /// True if this relation kind contributes a blocking edge in the dependency graph.
    pub open spec fn spec_is_dag_edge(self) -> bool {
        self == RelationKind::Blocks || self == RelationKind::DependsOn
    }

    pub fn is_dag_edge(self) -> (r: bool)
        ensures
            r == self.spec_is_dag_edge(),
    {
        match self {
            RelationKind::Blocks | RelationKind::DependsOn => true,
            _ => false,
        }
    }
    /// The kind that a lower-cased text, with `_` read as `-`, names.
    pub open spec fn from_normalized(l: Seq<char>) -> Option<RelationKind> {
        if l == "blocks"@ {
            Some(RelationKind::Blocks)
        } else if l == "blocked-by"@ {
            Some(RelationKind::BlockedBy)
        } else if l == "depends-on"@ {
            Some(RelationKind::DependsOn)
        } else if l == "dependency-of"@ {
            Some(RelationKind::DependencyOf)
        } else if l == "relates-to"@ {
            Some(RelationKind::RelatesTo)
        } else if l == "duplicates"@ {
            Some(RelationKind::Duplicates)
        } else if l == "duplicate-of"@ {
            Some(RelationKind::DuplicateOf)
        } else {
            None
        }
    }

    /// Reads a relation kind, ignoring case and taking `_` for `-`.
    pub fn parse(s: &str) -> (r: Result<RelationKind, ParseError>)
        ensures
            match Self::from_normalized(dashes_for_underscores(lowercase_of(s@))) {
                Some(k) => r == Ok::<RelationKind, ParseError>(k),
                None => r matches Err(ParseError::UnknownRelationKind(t)) && t@ == s@,
            },
            is_ascii_text(s@) ==> dashes_for_underscores(lowercase_of(s@)) == dashes_for_underscores(ascii_lower(s@)),
    {
        let l = to_lowercase(s);
        let n = underscores_to_dashes(l.as_str());
        let n = n.as_str();
        if str_eq(n, "blocks") {
            Ok(RelationKind::Blocks)
        } else if str_eq(n, "blocked-by") {
            Ok(RelationKind::BlockedBy)
        } else if str_eq(n, "depends-on") {
            Ok(RelationKind::DependsOn)
        } else if str_eq(n, "dependency-of") {
            Ok(RelationKind::DependencyOf)
        } else if str_eq(n, "relates-to") {
            Ok(RelationKind::RelatesTo)
        } else if str_eq(n, "duplicates") {
            Ok(RelationKind::Duplicates)
        } else if str_eq(n, "duplicate-of") {
            Ok(RelationKind::DuplicateOf)
        } else {
            Err(ParseError::UnknownRelationKind(owned(s)))
        }
    }
}

impl FromStr for RelationKind {
    type Err = ParseError;

    /// Reads a relation kind as `RelationKind::parse` does.
    fn from_str(s: &str) -> (r: Result<RelationKind, ParseError>)
        ensures
            match RelationKind::from_normalized(dashes_for_underscores(lowercase_of(s@))) {
                Some(k) => r == Ok::<RelationKind, ParseError>(k),
                None => r matches Err(ParseError::UnknownRelationKind(t)) && t@ == s@,
            },
            is_ascii_text(s@) ==> dashes_for_underscores(lowercase_of(s@)) == dashes_for_underscores(ascii_lower(s@)),
    {
        RelationKind::parse(s)
    }
}

/// Taking the inverse twice gives back the kind; of a kind and its inverse,
/// at most one adds an edge to the dependency graph.
pub proof fn lemma_inverse_involution(k: RelationKind)
    ensures
        k.spec_inverse().spec_inverse() == k,
        k.spec_is_dag_edge() ==> !k.spec_inverse().spec_is_dag_edge(),
{
}

/// Every relation kind label is ASCII text that, read back, names the same kind.
pub proof fn lemma_relation_label_round_trip(k: RelationKind)
    ensures
        is_ascii_text(k.spec_label()),
        RelationKind::from_normalized(dashes_for_underscores(ascii_lower(k.spec_label()))) == Some(k),
{
    reveal_strlit("blocks");
    reveal_strlit("blocked-by");
    reveal_strlit("depends-on");
    reveal_strlit("dependency-of");
    reveal_strlit("relates-to");
    reveal_strlit("duplicates");
    reveal_strlit("duplicate-of");
    let l = k.spec_label();
    assert forall|i: int| 0 <= i < l.len() implies #[trigger] l[i] < 'A' || 'Z' < l[i] by {}
    assert forall|i: int| 0 <= i < l.len() implies is_ascii_char(#[trigger] l[i]) by {}
    lemma_ascii_lower_fixed(l);
    assert(dashes_for_underscores(l) =~= l);
    assert("blocks"@.len() == 6 && "blocked-by"@.len() == 10 && "depends-on"@.len() == 10);
    assert("dependency-of"@.len() == 13 && "relates-to"@.len() == 10 && "duplicates"@.len() == 10);
    assert("duplicate-of"@.len() == 12);
    assert("blocked-by"@[0] != "depends-on"@[0] && "blocked-by"@[0] != "relates-to"@[0]);
    assert("blocked-by"@[0] != "duplicates"@[0] && "depends-on"@[0] != "relates-to"@[0]);
    assert("depends-on"@[1] != "duplicates"@[1] && "relates-to"@[0] != "duplicates"@[0]);
}

/// A directed relation between two issues.
#[derive(Debug, Clone, Copy)]
pub struct Relation {
    pub id: i64,
    pub from_id: i64,
    pub to_id: i64,
    pub kind: RelationKind,
}

} // verus!
