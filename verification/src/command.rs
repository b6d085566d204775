//! The vote command as the command parser hands it over.
use vstd::prelude::*;
use vstd::string::*;

verus! {

/// The outcomes a vote can ask for.
#[derive(Clone, Copy, Debug, PartialEq, Eq, Structural)]
pub enum Resolution {
    Merge,
    Hold,
}

/// A parsed vote: the outcome asked for and, on the vote that opens a
/// ballot, the team that is to decide.
#[derive(Debug)]
pub struct DecisionCommand {
    pub resolution: Resolution,
    pub team: Option<String>,
}

/// The display name of a resolution.
pub open spec fn resolution_name(resolution: Resolution) -> Seq<char> {
    match resolution {
        Resolution::Merge => "merge"@,
        Resolution::Hold => "hold"@,
    }
}

/// The resolution that a display name stands for.
pub open spec fn resolution_named(name: Seq<char>) -> Option<Resolution> {
    if name == "merge"@ {
        Some(Resolution::Merge)
    } else if name == "hold"@ {
        Some(Resolution::Hold)
    } else {
        None
    }
}

/// Reading a display name gives back the resolution it was written for.
pub proof fn lemma_resolution_name_round_trip(resolution: Resolution)
    ensures
        resolution_named(resolution_name(resolution)) == Some(resolution),
{
    reveal_strlit("merge");
    reveal_strlit("hold");
    assert("hold"@.len() != "merge"@.len());
}

impl Resolution {
    /// The display name, as used in the status table and for labels.
    pub fn name(&self) -> (s: &'static str)
        ensures
            s@ == resolution_name(*self),
    {
        match self {
            Resolution::Merge => "merge",
            Resolution::Hold => "hold",
        }
    }

    /// Reads a display name.
    pub fn from_name(name: &str) -> (r: Option<Resolution>)
        ensures
            r == resolution_named(name@),
    {
        if same_text(name, "merge") {
            Some(Resolution::Merge)
        } else if same_text(name, "hold") {
            Some(Resolution::Hold)
        } else {
            None
        }
    }
}

/// Whether two texts are the same.
pub fn same_text(a: &str, b: &str) -> (r: bool)
    ensures
        r == (a@ == b@),
{
    match crate::text::compare_names(a, b) {
        crate::text::NameOrder::Same => true,
        _ => false,
    }
}

} // verus!
