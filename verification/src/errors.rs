//! The two error taxonomies: structural table errors, and the pipeline
//! errors that wrap them.

use vstd::prelude::*;

verus! {

/// A structural violation reported by the table layer.
#[derive(Clone, Copy, Debug, PartialEq, Eq, Structural)]
pub enum DataTableError {
    /// A column name that the table or builder does not know.
    InvalidColumnName,
    /// A row whose length differs from the table's column count.
    InvalidColumnCount,
    /// A column index at or past the column count.
    InvalidColumnIndex,
    /// A base column index at or past the column count.
    InvalidBaseIndex,
    /// A base column name that is not among the column names.
    InvalidBaseName,
    /// Builder buffers of unequal length, or a builder with no columns.
    InconsistentBuilderData,
    /// Two containers that were expected to run in parallel differ in length.
    InconsistentContainerSize,
    /// A repeated name among the builder's column names.
    DuplicateName,
}

/// A pipeline failure: a table error, or a failure of the underlying reader.
#[derive(Clone, Copy, Debug, PartialEq, Eq, Structural)]
pub enum ExtractionError {
    /// A structural table error surfaced by the extraction pipeline.
    TableFailure(DataTableError),
    /// The underlying byte stream failed; the caller holds the detail.
    ReadFailure,
}

impl DataTableError {
    /// The text of the error, one fixed word per variant.
    pub open spec fn message_spec(&self) -> Seq<char> {
        match self {
            DataTableError::InvalidColumnName => "InvalidColumnName"@,
            DataTableError::InvalidColumnCount => "InvalidColumnCount"@,
            DataTableError::InvalidColumnIndex => "InvalidColumnIndex"@,
            DataTableError::InvalidBaseIndex => "InvalidBaseIndex"@,
            DataTableError::InvalidBaseName => "InvalidBaseName"@,
            DataTableError::InconsistentBuilderData => "InconsistentBuilderData"@,
            DataTableError::InconsistentContainerSize => "InconsistentContainerSize"@,
            DataTableError::DuplicateName => "DuplicateName"@,
        }
    }

    /// The error as display text.
    pub fn message(&self) -> (s: &'static str)
        ensures
            s@ == self.message_spec(),
    {
        match self {
            DataTableError::InvalidColumnName => "InvalidColumnName",
            DataTableError::InvalidColumnCount => "InvalidColumnCount",
            DataTableError::InvalidColumnIndex => "InvalidColumnIndex",
            DataTableError::InvalidBaseIndex => "InvalidBaseIndex",
            DataTableError::InvalidBaseName => "InvalidBaseName",
            DataTableError::InconsistentBuilderData => "InconsistentBuilderData",
            DataTableError::InconsistentContainerSize => "InconsistentContainerSize",
            DataTableError::DuplicateName => "DuplicateName",
        }
    }
}

impl ExtractionError {
    /// The text of the error: the wrapped table error, or the read failure.
    pub open spec fn message_spec(&self) -> Seq<char> {
        match self {
            ExtractionError::TableFailure(e) => "TableFailure: "@ + e.message_spec(),
            ExtractionError::ReadFailure => "ReadFailure"@,
        }
    }

    /// The error as display text.
    pub fn message(&self) -> (s: String)
        ensures
            s@ == self.message_spec(),
    {
        match self {
            ExtractionError::TableFailure(e) => {
                let mut s = String::from_str("TableFailure: ");
                s.append(e.message());
                s
            },
            ExtractionError::ReadFailure => String::from_str("ReadFailure"),
        }
    }
}

impl From<DataTableError> for ExtractionError {
    fn from(value: DataTableError) -> (r: Self) {
        ExtractionError::TableFailure(value)
    }
}

impl vstd::std_specs::convert::FromSpecImpl<DataTableError> for ExtractionError {
    open spec fn obeys_from_spec() -> bool {
        true
    }

    open spec fn from_spec(value: DataTableError) -> Self {
        ExtractionError::TableFailure(value)
    }
}

} // verus!
