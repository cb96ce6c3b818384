use vstd::prelude::*;
use vstd::string::StringExecFns;

verus! {

/// The ways in which a query can fail.
#[derive(Clone, Copy, PartialEq, Eq, Structural, Debug)]
pub enum QueryError {
    /// An expression variant or a function name outside the accepted set.
    UnsupportedExpression,
    /// A relation other than read, filter, aggregate or project.
    UnsupportedRelation,
    /// A column whose scalar type the kernels cannot process.
    UnsupportedColumnType,
    /// The plan was folded without finding a projection.
    NoProjection,
    /// A required part of the plan is missing.
    MalformedPlan,
    /// The device reported a failure while polling or mapping a buffer.
    GpuDispatchFailure,
    /// A projection result met an aggregate result.
    AccumulationKindMismatch,
    /// The stream held no batch.
    NoDataProcessed,
}

impl QueryError {
    /// The error in words.
    pub open spec fn text(self) -> Seq<char> {
        match self {
            QueryError::UnsupportedExpression => "Unsupported expression"@,
            QueryError::UnsupportedRelation => "Unsupported relation type"@,
            QueryError::UnsupportedColumnType => "Unsupported datatype"@,
            QueryError::NoProjection => "No projection found"@,
            QueryError::MalformedPlan => "Malformed plan"@,
            QueryError::GpuDispatchFailure => "GPU dispatch failed"@,
            QueryError::AccumulationKindMismatch => "Type mismatch during accumulation"@,
            QueryError::NoDataProcessed => "No data processed"@,
        }
    }

    /// Writes the error in words.
    pub fn message(&self) -> (r: String)
        ensures
            r@ == self.text(),
    {
        match self {
            QueryError::UnsupportedExpression => String::from_str("Unsupported expression"),
            QueryError::UnsupportedRelation => String::from_str("Unsupported relation type"),
            QueryError::UnsupportedColumnType => String::from_str("Unsupported datatype"),
            QueryError::NoProjection => String::from_str("No projection found"),
            QueryError::MalformedPlan => String::from_str("Malformed plan"),
            QueryError::GpuDispatchFailure => String::from_str("GPU dispatch failed"),
            QueryError::AccumulationKindMismatch => String::from_str(
                "Type mismatch during accumulation",
            ),
            QueryError::NoDataProcessed => String::from_str("No data processed"),
        }
    }
}

} // verus!
