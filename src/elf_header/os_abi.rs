use crate::bytes::AsBytes;
use vstd::prelude::*;

verus! {

/// Operating system ABI of the target.
pub enum OsAbi {
    SystemV,
    HpUx,
    NetBsd,
    Linux,
    GnuHurd,
    Solaris,
    Aix,
    Irix,
    FreeBsd,
    Tru64,
    NovellModesto,
    OpenBsd,
    OpenVms,
    NonStopKernel,
    Aros,
    FenixOs,
    NuxiCloudAbi,
    StratusTechnologiesOpenVos,
}

impl OsAbi {
    pub open spec fn code(self) -> u8 {
        match self {
            OsAbi::SystemV => 0,
            OsAbi::HpUx => 1,
            OsAbi::NetBsd => 2,
            OsAbi::Linux => 3,
            OsAbi::GnuHurd => 4,
            OsAbi::Solaris => 6,
            OsAbi::Aix => 7,
            OsAbi::Irix => 8,
            OsAbi::FreeBsd => 9,
            OsAbi::Tru64 => 0x0A,
            OsAbi::NovellModesto => 0x0B,
            OsAbi::OpenBsd => 0x0C,
            OsAbi::OpenVms => 0x0D,
            OsAbi::NonStopKernel => 0x0E,
            OsAbi::Aros => 0x0F,
            OsAbi::FenixOs => 0x10,
            OsAbi::NuxiCloudAbi => 0x11,
            OsAbi::StratusTechnologiesOpenVos => 0x12,
        }
    }
}

impl AsBytes for OsAbi {
    open spec fn encodable(&self) -> bool {
        true
    }

    open spec fn encoding(&self) -> Seq<u8> {
        seq![self.code()]
    }

    fn as_bytes(&self) -> (r: Vec<u8>) {
        let code: u8 = match self {
            OsAbi::SystemV => 0,
            OsAbi::HpUx => 1,
            OsAbi::NetBsd => 2,
            OsAbi::Linux => 3,
            OsAbi::GnuHurd => 4,
            OsAbi::Solaris => 6,
            OsAbi::Aix => 7,
            OsAbi::Irix => 8,
            OsAbi::FreeBsd => 9,
            OsAbi::Tru64 => 0x0A,
            OsAbi::NovellModesto => 0x0B,
            OsAbi::OpenBsd => 0x0C,
            OsAbi::OpenVms => 0x0D,
            OsAbi::NonStopKernel => 0x0E,
            OsAbi::Aros => 0x0F,
            OsAbi::FenixOs => 0x10,
            OsAbi::NuxiCloudAbi => 0x11,
            OsAbi::StratusTechnologiesOpenVos => 0x12,
        };
        vec![code]
    }
}

} // verus!
