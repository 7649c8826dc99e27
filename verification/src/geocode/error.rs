//! Error types for geocoding.

use vstd::prelude::*;

use crate::text;

verus! {

/// Errors that can arise during geocoding operations.
#[derive(Debug, Clone, PartialEq, Eq)]
pub enum GeocodeError {
    /// The gazetteer data file could not be read.
    DataRead(String),
    /// A row of the gazetteer was malformed.
    MalformedRow {
        /// Line number, from 1.
        line: usize,
        /// Description of the fault.
        reason: String,
    },
}

/// The model of a [`GeocodeError`].
pub enum GeocodeErrorView {
    /// The gazetteer data file could not be read.
    DataRead(Seq<char>),
    /// A row of the gazetteer was malformed.
    MalformedRow {
        /// Line number, from 1.
        line: nat,
        /// Description of the fault.
        reason: Seq<char>,
    },
}

impl DeepView for GeocodeError {
    type V = GeocodeErrorView;

    open spec fn deep_view(&self) -> GeocodeErrorView {
        match self {
            GeocodeError::DataRead(e) => GeocodeErrorView::DataRead(e@),
            GeocodeError::MalformedRow { line, reason } => GeocodeErrorView::MalformedRow {
                line: *line as nat,
                reason: reason@,
            },
        }
    }
}

impl GeocodeError {
    /// The error as a sentence.
    pub fn message(&self) -> (res: String)
        ensures
            res@ == (match self {
                GeocodeError::DataRead(e) => "failed to read gazetteer data: "@ + e@,
                GeocodeError::MalformedRow { line, reason } => "malformed gazetteer row at line "@
                    + text::decimal(*line as nat) + ": "@ + reason@,
            }),
    {
        match self {
            GeocodeError::DataRead(e) => "failed to read gazetteer data: ".to_owned().concat(e),
            GeocodeError::MalformedRow { line, reason } => "malformed gazetteer row at line ".to_owned().concat(
                &text::write_decimal(*line as u64),
            ).concat(": ").concat(reason),
        }
    }
}

} // verus!
