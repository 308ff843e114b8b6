//! The features that a block device offers and that the driver accepts.
use vstd::prelude::*;

verus! {

/// Device supports request barriers. (legacy)
pub const BARRIER: u64 = 1 << 0;

/// Maximum size of any single segment is in `size_max`.
pub const SIZE_MAX: u64 = 1 << 1;

/// Maximum number of segments in a request is in `seg_max`.
pub const SEG_MAX: u64 = 1 << 2;

/// Disk-style geometry specified in geometry.
pub const GEOMETRY: u64 = 1 << 4;

/// Device is read-only.
pub const RO: u64 = 1 << 5;

/// Block size of disk is in `blk_size`.
pub const BLK_SIZE: u64 = 1 << 6;

/// Device supports scsi packet commands. (legacy)
pub const SCSI: u64 = 1 << 7;

/// Cache flush command support.
pub const FLUSH: u64 = 1 << 9;

/// Device exports information on optimal I/O alignment.
pub const TOPOLOGY: u64 = 1 << 10;

/// Device can toggle its cache between writeback and writethrough modes.
pub const CONFIG_WCE: u64 = 1 << 11;

/// Device can support discard command, maximum discard sectors size in
/// `max_discard_sectors` and maximum discard segment number in
/// `max_discard_seg`.
pub const DISCARD: u64 = 1 << 13;

/// Device can support write zeroes command, maximum write zeroes sectors size in
/// `max_write_zeroes_sectors` and maximum write zeroes segment number in
/// `max_write_zeroes_seg`.
pub const WRITE_ZEROES: u64 = 1 << 14;

/// Device independent. (legacy)
pub const NOTIFY_ON_EMPTY: u64 = 1 << 24;

/// Device independent. (legacy)
pub const ANY_LAYOUT: u64 = 1 << 27;

pub const RING_INDIRECT_DESC: u64 = 1 << 28;

pub const RING_EVENT_IDX: u64 = 1 << 29;

/// Device independent. (legacy)
pub const UNUSED: u64 = 1 << 30;

/// Tells a device from a legacy one.
pub const VERSION_1: u64 = 1 << 32;

/// Since virtio v1.1.
pub const ACCESS_PLATFORM: u64 = 1 << 33;

/// Since virtio v1.1.
pub const RING_PACKED: u64 = 1 << 34;

/// Since virtio v1.1.
pub const IN_ORDER: u64 = 1 << 35;

/// Since virtio v1.1.
pub const ORDER_PLATFORM: u64 = 1 << 36;

/// Since virtio v1.1.
pub const SR_IOV: u64 = 1 << 37;

/// Since virtio v1.1.
pub const NOTIFICATION_DATA: u64 = 1 << 38;

/// Every feature that has a name.
pub const ALL_FEATURES: u64 = BARRIER | SIZE_MAX | SEG_MAX | GEOMETRY | RO | BLK_SIZE | SCSI | FLUSH
    | TOPOLOGY | CONFIG_WCE | DISCARD | WRITE_ZEROES | NOTIFY_ON_EMPTY | ANY_LAYOUT
    | RING_INDIRECT_DESC | RING_EVENT_IDX | UNUSED | VERSION_1 | ACCESS_PLATFORM | RING_PACKED
    | IN_ORDER | ORDER_PLATFORM | SR_IOV | NOTIFICATION_DATA;

/// The features that the driver makes use of: none.
pub const SUPPORTED_FEATURES: u64 = 0;

/// A set of block device features.
#[derive(Clone, Copy, Debug, PartialEq, Eq, Structural)]
pub struct BlockFeature {
    pub bits: u64,
}

impl BlockFeature {
    /// The features with a name among `bits`.
    pub fn from_bits_truncate(bits: u64) -> (res: Self)
        ensures
            res.bits == bits & ALL_FEATURES,
    {
        BlockFeature { bits: bits & ALL_FEATURES }
    }

    /// The features that are in both sets.
    pub fn intersection(self, other: Self) -> (res: Self)
        ensures
            res.bits == self.bits & other.bits,
    {
        BlockFeature { bits: self.bits & other.bits }
    }
}

/// The features to accept of those that the device offers: the ones with a name
/// that the driver supports. It supports none, so nothing is accepted.
pub fn negotiate_features(offered: u64) -> (res: u64)
    ensures
        res == (offered & ALL_FEATURES) & SUPPORTED_FEATURES,
        res == 0,
{
    let features = BlockFeature::from_bits_truncate(offered);
    let accepted = features.intersection(BlockFeature { bits: SUPPORTED_FEATURES }).bits;
    assert(accepted == 0) by {
        let f = features.bits;
        assert(f & 0u64 == 0) by (bit_vector);
    }
    accepted
}

} // verus!
