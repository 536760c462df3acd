//! Credentials, as the platform lists them.

use crate::models::common::{
    can_truncate, format_timestamp_str, shown_timestamp, truncate, truncated,
};
use crate::timefmt::rfc3339_minutes;
use vstd::prelude::*;
use vstd::string::*;

verus! {

/// Summary of a credential.
#[derive(Debug)]
pub struct Credential {
    pub id: String,
    pub name: String,
    pub credential_type: String,
    pub created_at: String,
    pub updated_at: String,
}

/// Widest name shown in a table of credentials, in bytes.
pub const CREDENTIAL_NAME_WIDTH: usize = 30;

impl Credential {
    /// The column headers of a table of credentials.
    pub fn headers() -> (r: Vec<&'static str>)
        ensures
            r@.len() == 4,
            r@[0]@ == "ID"@,
            r@[1]@ == "NAME"@,
            r@[2]@ == "TYPE"@,
            r@[3]@ == "UPDATED"@,
    {
        let mut h: Vec<&'static str> = Vec::new();
        h.push("ID");
        h.push("NAME");
        h.push("TYPE");
        h.push("UPDATED");
        h
    }

    /// The row of this credential, column by column.
    pub fn row(&self) -> (r: Vec<String>)
        requires
            can_truncate(self.name@, CREDENTIAL_NAME_WIDTH as int),
        ensures
            r.deep_view() == seq![
                self.id@,
                truncated(self.name@, CREDENTIAL_NAME_WIDTH as int),
                self.credential_type@,
                shown_timestamp(rfc3339_minutes(self.updated_at@), self.updated_at@),
            ],
    {
        let mut row: Vec<String> = Vec::new();
        row.push(self.id.clone());
        row.push(truncate(self.name.as_str(), CREDENTIAL_NAME_WIDTH));
        row.push(self.credential_type.clone());
        row.push(format_timestamp_str(self.updated_at.as_str()));
        assert(row.deep_view() =~= seq![
            self.id@,
            truncated(self.name@, CREDENTIAL_NAME_WIDTH as int),
            self.credential_type@,
            shown_timestamp(rfc3339_minutes(self.updated_at@), self.updated_at@),
        ]);
        row
    }
}

} // verus!
