//! `bmo issue link`.

use vstd::prelude::*;

use crate::cli::{id_body, parse_id};
use crate::errors::ParseError;
use crate::model::issue::spec_display_id;
use crate::model::relation::RelationKind;
use crate::text::{concat, concat3, dashes_for_underscores, decimal, decimal_i64, lowercase_of};

verus! {

/// The link subcommands.
#[derive(Debug)]
pub enum LinkCommands {
    /// Add a relation between issues.
    Add(AddArgs),
    /// Remove a relation by its id.
    Remove(RemoveArgs),
    /// List the relations of an issue.
    List(ListArgs),
}

/// The arguments of `bmo issue link add`: `FROM RELATION TO`.
#[derive(Debug)]
pub struct AddArgs {
    pub from_id: String,
    pub relation: String,
    pub to_id: String,
}

/// The arguments of `bmo issue link remove`.
#[derive(Debug)]
pub struct RemoveArgs {
    pub id: i64,
}

/// The arguments of `bmo issue link list`.
#[derive(Debug)]
pub struct ListArgs {
    pub id: String,
}

impl AddArgs {
    /// Reads the two issue ids and the relation kind, in that order; the
    /// first that does not read is the error.
    pub fn parse(&self) -> (r: Result<(i64, RelationKind, i64), ParseError>)
        ensures
            decimal_i64(id_body(self.from_id@)) is None ==> (r matches Err(ParseError::InvalidIssueId(t)) && t@
                == self.from_id@),
            decimal_i64(id_body(self.from_id@)) is Some && decimal_i64(id_body(self.to_id@)) is None ==> (r matches Err(
                ParseError::InvalidIssueId(t)) && t@ == self.to_id@),
            decimal_i64(id_body(self.from_id@)) is Some && decimal_i64(id_body(self.to_id@)) is Some
                && RelationKind::from_normalized(dashes_for_underscores(lowercase_of(self.relation@))) is None ==> (r matches Err(
                ParseError::UnknownRelationKind(t)) && t@ == self.relation@),
            r matches Ok((f, k, t)) ==> Some(f) == decimal_i64(id_body(self.from_id@)) && Some(t) == decimal_i64(
                id_body(self.to_id@),
            ) && Some(k) == RelationKind::from_normalized(dashes_for_underscores(lowercase_of(self.relation@))),
            r is Ok <==> decimal_i64(id_body(self.from_id@)) is Some && decimal_i64(id_body(self.to_id@)) is Some
                && RelationKind::from_normalized(dashes_for_underscores(lowercase_of(self.relation@))) is Some,
    {
        let from = match parse_id(self.from_id.as_str()) {
            Ok(n) => n,
            Err(e) => return Err(e),
        };
        let to = match parse_id(self.to_id.as_str()) {
            Ok(n) => n,
            Err(e) => return Err(e),
        };
        let kind = match RelationKind::parse(self.relation.as_str()) {
            Ok(k) => k,
            Err(e) => return Err(e),
        };
        Ok((from, kind, to))
    }
}

/// What a new link reports: `Linked BMO-1 blocks BMO-2`.
pub fn linked_message(from: i64, kind: RelationKind, to: i64) -> (r: String)
    ensures
        r@ == "Linked "@ + spec_display_id(from) + " "@ + kind.spec_label() + " "@ + spec_display_id(to),
{
    let f = decimal(from);
    let t = decimal(to);
    let from_shown = concat("BMO-", f.as_str());
    let to_shown = concat("BMO-", t.as_str());
    let a = concat3("Linked ", from_shown.as_str(), " ");
    let b = concat3(a.as_str(), kind.label(), " ");
    concat(b.as_str(), to_shown.as_str())
}

} // verus!
