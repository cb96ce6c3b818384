use vstd::prelude::*;

verus! {

/// `wgpu::Device`, the open connection to a device. The library carries it
/// and never looks inside.
#[verifier::external_type_specification]
#[verifier::external_body]
pub struct ExDevice(wgpu::Device);

/// `wgpu::Queue`, the queue that takes the submissions for a device. The
/// library carries it and never looks inside.
#[verifier::external_type_specification]
#[verifier::external_body]
pub struct ExQueue(wgpu::Queue);

/// The device on which kernels run and the queue that takes their
/// submissions. Both are opened once and outlive every query.
pub struct Gpu {
    pub device: wgpu::Device,
    pub queue: wgpu::Queue,
}

/// What a kernel is told about a batch.
#[derive(Clone, Copy, PartialEq, Eq, Structural, Debug)]
pub struct QueryParams {
    /// The number of rows of the batch.
    pub row_count: u32,
}

impl QueryParams {
    pub fn new(row_count: u32) -> (r: Self)
        ensures
            r.row_count == row_count,
    {
        QueryParams { row_count }
    }
}

} // verus!
