//! RAID-related model semantics.

use vstd::prelude::*;

use super::sizes::Bytes;

verus! {

#[derive(Debug, Clone, Copy, PartialEq, Eq, Structural)]
pub enum LvmRaid0Variant {
    Raid0,
    Raid0Meta,
}

#[derive(Debug, Clone, Copy, PartialEq, Eq, Structural)]
pub enum ParityRotation {
    LeftSymmetric,
    LeftAsymmetric,
    RightSymmetric,
    RightAsymmetric,
}

#[derive(Debug, Clone, Copy, PartialEq, Eq, Structural)]
pub enum LvmRaid5Layout {
    Rotating(ParityRotation),
    ParityN,
}

#[derive(Debug, Clone, Copy, PartialEq, Eq, Structural)]
pub enum LvmRaid6Layout {
    ZeroRestart,
    NRestart,
    NContinue,
    /// raid6_n_6
    DedicatedParity,
    /// raid6_{ls,la,rs,ra}_6
    Raid5Compatible(ParityRotation),
}

/// Number of complete data copies in a mirrored RAID layout.
///
/// `2` means one original-sized data image plus one mirror. Values below `2`
/// are not RAID replication and must be represented by a non-RAID layout.
#[derive(Debug, Clone, Copy, PartialEq, Eq, PartialOrd, Ord, Hash, Structural)]
pub struct CopyCount(u16);

impl CopyCount {
    #[verifier::type_invariant]
    closed spec fn inv(self) -> bool {
        self.0 >= 2
    }

    /// The number of copies, for contracts.
    pub closed spec fn value(self) -> u16 {
        self.0
    }

    /// Creates a copy count for mirrored RAID layouts; `None` below two.
    pub fn new(value: u16) -> (r: Option<CopyCount>)
        ensures
            match r {
                Some(c) => value >= 2 && c.value() == value,
                None => value < 2,
            },
    {
        if value >= 2 {
            Some(CopyCount(value))
        } else {
            None
        }
    }

    /// Returns the number of complete data copies.
    pub fn get(self) -> (r: u16)
        ensures
            r == self.value(),
            r >= 2,
    {
        proof {
            use_type_invariant(&self);
        }
        self.0
    }
}

/// Number of data-bearing stripes, excluding parity and mirror copies.
///
/// For RAID5 this is `devices - 1`, for RAID6 it is `devices - 2`, and for
/// RAID10 it is the number of striped mirror groups.
#[derive(Debug, Clone, Copy, PartialEq, Eq, PartialOrd, Ord, Hash, Structural)]
pub struct DataStripeCount(u16);

impl DataStripeCount {
    #[verifier::type_invariant]
    closed spec fn inv(self) -> bool {
        self.0 != 0
    }

    /// The number of stripes, for contracts.
    pub closed spec fn value(self) -> u16 {
        self.0
    }

    /// Creates a data stripe count; `None` for zero.
    pub fn new(value: u16) -> (r: Option<DataStripeCount>)
        ensures
            match r {
                Some(c) => value != 0 && c.value() == value,
                None => value == 0,
            },
    {
        if value == 0 {
            None
        } else {
            Some(DataStripeCount(value))
        }
    }

    /// Returns the number of data-bearing stripes.
    pub fn get(self) -> (r: u16)
        ensures
            r == self.value(),
            r != 0,
    {
        proof {
            use_type_invariant(&self);
        }
        self.0
    }
}

#[derive(Debug, Clone, Copy, PartialEq, Eq, Structural)]
pub enum LvmRaid {
    Raid0 { variant: LvmRaid0Variant, data_width: DataStripeCount, stripe_size: Bytes },
    Raid1 { copies: CopyCount },
    Raid4 { data_width: DataStripeCount, stripe_size: Bytes },
    Raid5 { layout: LvmRaid5Layout, data_width: DataStripeCount, stripe_size: Bytes },
    Raid6 { layout: LvmRaid6Layout, data_width: DataStripeCount, stripe_size: Bytes },
    Raid10 { copies: CopyCount, data_width: DataStripeCount, stripe_size: Bytes },
}

#[derive(Debug, Clone, Copy, PartialEq, Eq, Structural)]
pub enum MdRaid0Layout {
    Original,
    Alternate,
    Unspecified,
}

#[derive(Debug, Clone, Copy, PartialEq, Eq, Structural)]
pub enum MdParityLayout {
    Rotating(ParityRotation),
    ParityFirst,
    ParityLast,
    DdfZeroRestart,
    DdfNRestart,
    DdfNContinue,
}

#[derive(Debug, Clone, Copy, PartialEq, Eq, Structural)]
pub enum MdRaid6DedicatedQ {
    LeftSymmetric6,
    RightSymmetric6,
    LeftAsymmetric6,
    RightAsymmetric6,
    ParityFirst6,
}

#[derive(Debug, Clone, Copy, PartialEq, Eq, Structural)]
pub enum MdRaid6Layout {
    Standard(MdParityLayout),
    DedicatedQ(MdRaid6DedicatedQ),
}

#[derive(Debug, Clone, Copy, PartialEq, Eq, Structural)]
pub struct MdRaid10Layout {
    pub mode: MdRaid10Mode,
    pub copies: CopyCount,
}

#[derive(Debug, Clone, Copy, PartialEq, Eq, Structural)]
pub enum MdRaid10Mode {
    Near,
    Offset,
    Far,
}

#[derive(Debug, Clone, Copy, PartialEq, Eq, Structural)]
pub enum MdRaid {
    Raid0 { layout: MdRaid0Layout, chunk_size: Bytes },
    Raid1,
    Raid4 { chunk_size: Bytes },
    Raid5 { layout: MdParityLayout, chunk_size: Bytes },
    Raid6 { layout: MdRaid6Layout, chunk_size: Bytes },
    Raid10 { layout: MdRaid10Layout, chunk_size: Bytes },
}

#[derive(Debug, Clone, Copy, PartialEq, Eq, Structural)]
pub enum MdPersonality {
    Raid(MdRaid),
    Linear { rounding: Option<Bytes> },
    Multipath,
    Faulty,
    Container,
}

/// MD superblock format; `Absent` when there is none.
#[derive(Debug, Clone, Copy, PartialEq, Eq, Structural)]
pub enum MdMetadata {
    Absent,
    Native(MdNativeMetadata),
    External(MdExternalMetadata),
}

#[derive(Debug, Clone, Copy, PartialEq, Eq, Structural)]
pub enum MdNativeMetadata {
    V0_90,
    V1_0,
    V1_1,
    V1_2,
}

#[derive(Debug, Clone, Copy, PartialEq, Eq, Structural)]
pub enum MdExternalMetadata {
    Ddf,
    Imsm,
}

#[derive(Debug, Clone, Copy, PartialEq, Eq, Structural)]
pub struct MdArray {
    pub personality: MdPersonality,
    pub metadata: MdMetadata,
}

#[derive(Debug, Clone, Copy, PartialEq, Eq, Hash, Structural)]
pub enum BtrfsProfile {
    Single,
    Dup,
    Raid0,
    Raid1,
    Raid1C3,
    Raid1C4,
    Raid10,
    Raid5,
    Raid6,
}

} // verus!
