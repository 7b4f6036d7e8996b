//! The `imports` table's source column.

use vstd::prelude::*;

verus! {

/// Where an import's rows came from.
#[derive(Debug, Clone, Copy, PartialEq, Eq, Structural)]
pub enum ImportSource {
    Csv,
    Manual,
    Sample,
    SimpleFin,
}

/// The stored spelling of each source.
pub open spec fn import_source_db(s: ImportSource) -> Seq<char> {
    match s {
        ImportSource::Csv => "csv"@,
        ImportSource::Manual => "manual"@,
        ImportSource::Sample => "sample"@,
        ImportSource::SimpleFin => "simplefin"@,
    }
}

impl ImportSource {
    /// The stored text of the source.
    pub fn as_db(&self) -> (r: &'static str)
        ensures
            r@ == import_source_db(*self),
    {
        match self {
            ImportSource::Csv => "csv",
            ImportSource::Manual => "manual",
            ImportSource::Sample => "sample",
            ImportSource::SimpleFin => "simplefin",
        }
    }

    /// Reads a stored value; anything unrecognised is a CSV import.
    pub fn from_db(s: &str) -> (r: ImportSource)
        ensures
            r == (if s@ == "manual"@ {
                ImportSource::Manual
            } else if s@ == "sample"@ {
                ImportSource::Sample
            } else if s@ == "simplefin"@ {
                ImportSource::SimpleFin
            } else {
                ImportSource::Csv
            }),
    {
        let v = crate::text::chars_of(s);
        if crate::text::chars_eq_str(&v, "manual") {
            ImportSource::Manual
        } else if crate::text::chars_eq_str(&v, "sample") {
            ImportSource::Sample
        } else if crate::text::chars_eq_str(&v, "simplefin") {
            ImportSource::SimpleFin
        } else {
            ImportSource::Csv
        }
    }
}

/// Reading back what was stored gives the same source.
pub proof fn law_import_source_round_trip(s: ImportSource)
    ensures
        ({
            let d = import_source_db(s);
            (if d == "manual"@ {
                ImportSource::Manual
            } else if d == "sample"@ {
                ImportSource::Sample
            } else if d == "simplefin"@ {
                ImportSource::SimpleFin
            } else {
                ImportSource::Csv
            }) == s
        }),
{
    reveal_strlit("csv");
    reveal_strlit("manual");
    reveal_strlit("sample");
    reveal_strlit("simplefin");
    assert("csv"@.len() == 3 && "manual"@.len() == 6 && "sample"@.len() == 6
        && "simplefin"@.len() == 9);
    assert("sample"@[0] != "manual"@[0]);
}

} // verus!
