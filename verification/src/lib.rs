//! A driver for virtio block devices.
use vstd::prelude::*;

pub mod block;
pub mod block_laws;
pub mod block_promises;
pub mod cell;
pub mod config;
pub mod descriptor;
pub mod feature;
pub mod init;
pub mod laws;
pub mod layout;
pub mod model;
pub mod queue;
pub mod queue_promises;
pub mod request;
pub mod setup;
pub mod setup_promises;
pub mod util;

verus! {

/// What can go wrong with a virtual device.
#[derive(Clone, Copy, Debug, PartialEq, Eq, Structural)]
pub enum VirtIOError {
    /// There is no memory that can be shared with the device.
    DMAAllocError,
    /// The queue of this index is in use already.
    QueueInUsed(usize),
    /// An argument is out of its range.
    InvalidParameter,
    /// There are fewer free descriptors than buffers.
    Overflow,
    /// The used ring holds no entry that was not taken yet.
    UsedRingNotReady,
    /// The device's registers do not show a device that the driver knows.
    HeaderVerifyError,
    /// The device answered a request with a status other than success, or an
    /// interrupt came in without an answer.
    IOError,
}

} // verus!
