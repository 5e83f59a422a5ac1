//! The values exchanged with the Supervisor Binary Interface firmware.

use vstd::prelude::*;

verus! {

/// The base extension.
pub const BASE_EID: u32 = 0x10;

/// The legacy console-putchar extension.
pub const CONSOLE_PUT_EID: u32 = 0x1;

/// The system reset extension.
pub const SRST_EID: u32 = 0x5352_5354;

/// A standard error returned from an SBI call.
#[derive(Copy, Clone, Eq, PartialEq, Structural, Hash, Debug)]
pub enum StandardError {
    Unknown,
    Failed,
    NotSupported,
    InvalidParam,
    Denied,
    InvalidAddr,
    AlreadyAvailable,
    AlreadyStarted,
    AlreadyStopped,
}

/// The error an SBI error code stands for.
pub open spec fn spec_error(code: isize) -> StandardError {
    if code == -1 {
        StandardError::Failed
    } else if code == -2 {
        StandardError::NotSupported
    } else if code == -3 {
        StandardError::InvalidParam
    } else if code == -4 {
        StandardError::Denied
    } else if code == -5 {
        StandardError::InvalidAddr
    } else if code == -6 {
        StandardError::AlreadyAvailable
    } else if code == -7 {
        StandardError::AlreadyStarted
    } else if code == -8 {
        StandardError::AlreadyStopped
    } else {
        StandardError::Unknown
    }
}

/// The outcome of an SBI call that left `error` in `a0` (read as signed)
/// and `value` in `a1`.
pub fn call_result(error: isize, value: usize) -> (r: Result<usize, StandardError>)
    ensures
        error == 0 ==> r == Ok::<usize, StandardError>(value),
        error != 0 ==> r == Err::<usize, StandardError>(spec_error(error)),
{
    match error {
        0 => Ok(value),
        -1 => Err(StandardError::Failed),
        -2 => Err(StandardError::NotSupported),
        -3 => Err(StandardError::InvalidParam),
        -4 => Err(StandardError::Denied),
        -5 => Err(StandardError::InvalidAddr),
        -6 => Err(StandardError::AlreadyAvailable),
        -7 => Err(StandardError::AlreadyStarted),
        -8 => Err(StandardError::AlreadyStopped),
        _ => Err(StandardError::Unknown),
    }
}

/// The version of the SBI specification the firmware implements.
pub struct SpecVersion(usize);

impl SpecVersion {
    pub closed spec fn raw(&self) -> usize {
        self.0
    }

    pub fn new(value: usize) -> (r: Self)
        ensures
            r.raw() == value,
    {
        SpecVersion(value)
    }

    /// The major number, bits 24 to 30.
    pub fn major(&self) -> (r: usize)
        ensures
            r == (self.raw() >> 24usize) & 0x7f,
    {
        (self.0 >> 24usize) & 0x7f
    }

    /// The minor number, bits 0 to 23.
    pub fn minor(&self) -> (r: usize)
        ensures
            r == self.raw() & 0xff_ffff,
    {
        self.0 & 0xff_ffff
    }
}

/// The implementation of the SBI firmware.
#[derive(Copy, Clone, Eq, PartialEq, Structural, Debug)]
pub enum ImplId {
    Bbl,
    OpenSbi,
    Xvisor,
    Kvm,
    RustSbi,
    Diosix,
    Unknown(usize),
}

impl ImplId {
    pub open spec fn spec_from_id(id: usize) -> ImplId {
        if id == 0 {
            ImplId::Bbl
        } else if id == 1 {
            ImplId::OpenSbi
        } else if id == 2 {
            ImplId::Xvisor
        } else if id == 3 {
            ImplId::Kvm
        } else if id == 4 {
            ImplId::RustSbi
        } else if id == 5 {
            ImplId::Diosix
        } else {
            ImplId::Unknown(id)
        }
    }

    /// The implementation with the numeric id `id`.
    pub fn from_id(id: usize) -> (r: ImplId)
        ensures
            r == Self::spec_from_id(id),
    {
        match id {
            0 => ImplId::Bbl,
            1 => ImplId::OpenSbi,
            2 => ImplId::Xvisor,
            3 => ImplId::Kvm,
            4 => ImplId::RustSbi,
            5 => ImplId::Diosix,
            _ => ImplId::Unknown(id),
        }
    }
}

/// Whether an extension is available; when it is, the non-zero value the
/// firmware gave for it.
#[derive(Copy, Clone, Eq, PartialEq, Structural, Debug)]
pub enum ExtAvail {
    Unavailable,
    Available(usize),
}

impl ExtAvail {
    /// Reads the value of a probe: zero means unavailable.
    pub fn from_value(value: usize) -> (r: ExtAvail)
        ensures
            value == 0 ==> r == ExtAvail::Unavailable,
            value != 0 ==> r == ExtAvail::Available(value),
    {
        if value == 0 {
            ExtAvail::Unavailable
        } else {
            ExtAvail::Available(value)
        }
    }
}

/// The vendor id of the machine, a JEDEC bank and offset.
pub struct VendorId(usize);

impl VendorId {
    pub closed spec fn raw(&self) -> usize {
        self.0
    }

    pub fn new(value: usize) -> (r: Self)
        ensures
            r.raw() == value,
    {
        VendorId(value)
    }

    /// The bank, bits 7 to 31.
    pub fn bank(&self) -> (r: usize)
        ensures
            r == (self.raw() >> 7usize) & 0x1ff_ffff,
    {
        (self.0 >> 7usize) & 0x1ff_ffff
    }

    /// The offset within the bank, bits 0 to 6.
    pub fn offset(&self) -> (r: usize)
        ensures
            r == self.raw() & 0x7f,
    {
        self.0 & 0x7f
    }
}

/// The kind of system reset to ask for.
#[derive(Copy, Clone, Eq, PartialEq, Structural, Debug)]
pub enum Type {
    Shutdown,
    ColdReboot,
    WarmReboot,
}

impl Type {
    /// The value passed to the firmware.
    pub fn value(&self) -> (r: usize)
        ensures
            r == match self {
                Type::Shutdown => 0usize,
                Type::ColdReboot => 1usize,
                Type::WarmReboot => 2usize,
            },
    {
        match self {
            Type::Shutdown => 0,
            Type::ColdReboot => 1,
            Type::WarmReboot => 2,
        }
    }
}

/// Why the system is reset.
#[derive(Copy, Clone, Eq, PartialEq, Structural, Debug)]
pub enum Reason {
    NoReason,
    SystemFailure,
}

impl Reason {
    /// The value passed to the firmware.
    pub fn value(&self) -> (r: usize)
        ensures
            r == match self {
                Reason::NoReason => 0usize,
                Reason::SystemFailure => 1usize,
            },
    {
        match self {
            Reason::NoReason => 0,
            Reason::SystemFailure => 1,
        }
    }
}

} // verus!
