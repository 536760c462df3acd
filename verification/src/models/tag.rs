//! Tags.

use crate::models::common::{format_timestamp_str, shown_timestamp};
use crate::timefmt::rfc3339_minutes;
use vstd::prelude::*;
use vstd::string::*;

verus! {

/// A tag.
#[derive(Debug)]
pub struct Tag {
    pub id: String,
    pub name: String,
    pub created_at: Option<String>,
    pub updated_at: Option<String>,
}

/// Request to create a tag.
#[derive(Debug)]
pub struct TagCreate {
    pub name: String,
}

/// Request to rename a tag.
#[derive(Debug)]
pub struct TagUpdate {
    pub name: String,
}

/// Request to set the tags of a workflow.
#[derive(Debug)]
pub struct TagAssignment {
    pub tags: Vec<TagId>,
}

/// A tag named by its identifier.
#[derive(Debug)]
pub struct TagId {
    pub id: String,
}

/// What a table shows for a timestamp that may be missing.
pub open spec fn shown_optional_timestamp(t: Option<String>) -> Seq<char> {
    match t {
        Some(s) => shown_timestamp(rfc3339_minutes(s@), s@),
        None => "-"@,
    }
}

/// A timestamp that may be missing, for display: a dash where it is.
pub fn format_optional_timestamp(t: &Option<String>) -> (r: String)
    ensures
        r@ == shown_optional_timestamp(*t),
{
    match t {
        Some(s) => format_timestamp_str(s.as_str()),
        None => "-".to_owned(),
    }
}

impl Tag {
    /// The column headers of a table of tags.
    pub fn headers() -> (r: Vec<&'static str>)
        ensures
            r@.len() == 3,
            r@[0]@ == "ID"@,
            r@[1]@ == "NAME"@,
            r@[2]@ == "UPDATED"@,
    {
        let mut h: Vec<&'static str> = Vec::new();
        h.push("ID");
        h.push("NAME");
        h.push("UPDATED");
        h
    }

    /// The row of this tag, column by column.
    pub fn row(&self) -> (r: Vec<String>)
        ensures
            r.deep_view() == seq![self.id@, self.name@, shown_optional_timestamp(self.updated_at)],
    {
        let mut row: Vec<String> = Vec::new();
        row.push(self.id.clone());
        row.push(self.name.clone());
        row.push(format_optional_timestamp(&self.updated_at));
        assert(row.deep_view() =~= seq![
            self.id@,
            self.name@,
            shown_optional_timestamp(self.updated_at),
        ]);
        row
    }
}

} // verus!
