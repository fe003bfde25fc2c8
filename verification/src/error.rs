//! What makes a report impossible.

use vstd::prelude::*;
use vstd::string::*;

verus! {

/// Why no report can be made of a race. Either of these stops the whole
/// report: nothing is produced for a race that has one.
#[derive(Debug, Clone, Copy, PartialEq, Eq, Structural)]
pub enum ReportError {
    /// An entry names a constructor that the season's table gives no tier.
    UnknownConstructor,
    /// An entry names a driver who has no place in the display order.
    UnknownCompetitor,
}

impl ReportError {
    /// The text that describes the error.
    pub open spec fn text(self) -> Seq<char> {
        match self {
            ReportError::UnknownConstructor => "unknown constructor: no tier in the season table"@,
            ReportError::UnknownCompetitor => "unknown competitor: no place in the display order"@,
        }
    }

    /// A sentence for the person who reads the failure.
    pub fn message(&self) -> (r: String)
        ensures
            r@ == self.text(),
    {
        match self {
            ReportError::UnknownConstructor => String::from_str(
                "unknown constructor: no tier in the season table",
            ),
            ReportError::UnknownCompetitor => String::from_str(
                "unknown competitor: no place in the display order",
            ),
        }
    }
}

} // verus!
