//! The states of a TCP socket, the extensions that a request can ask for, and
//! the bit sets over them. Each bit stands where the kernel puts it.
use vstd::prelude::*;
use crate::constants::{RCV_SHUTDOWN, SEND_SHUTDOWN, SHUTDOWN_MASK, TCPF_ALL};
use crate::errors::DecodeError;

verus! {

/// The state of a TCP socket.
#[derive(Debug, Clone, Copy, PartialEq, Eq)]
pub enum TcpState {
    Established,
    SynSent,
    SynRecv,
    FinWait1,
    FinWait2,
    TimeWait,
    Close,
    CloseWait,
    LastAck,
    Listen,
    Closing,
}

impl TcpState {
    /// The number that the kernel gives the state.
    pub open spec fn code_spec(self) -> u8 {
        match self {
            TcpState::Established => 1,
            TcpState::SynSent => 2,
            TcpState::SynRecv => 3,
            TcpState::FinWait1 => 4,
            TcpState::FinWait2 => 5,
            TcpState::TimeWait => 6,
            TcpState::Close => 7,
            TcpState::CloseWait => 8,
            TcpState::LastAck => 9,
            TcpState::Listen => 10,
            TcpState::Closing => 11,
        }
    }

    /// The state with the given number, if there is one.
    pub open spec fn from_code_spec(code: u8) -> Result<TcpState, DecodeError> {
        if code == 1 {
            Ok(TcpState::Established)
        } else if code == 2 {
            Ok(TcpState::SynSent)
        } else if code == 3 {
            Ok(TcpState::SynRecv)
        } else if code == 4 {
            Ok(TcpState::FinWait1)
        } else if code == 5 {
            Ok(TcpState::FinWait2)
        } else if code == 6 {
            Ok(TcpState::TimeWait)
        } else if code == 7 {
            Ok(TcpState::Close)
        } else if code == 8 {
            Ok(TcpState::CloseWait)
        } else if code == 9 {
            Ok(TcpState::LastAck)
        } else if code == 10 {
            Ok(TcpState::Listen)
        } else if code == 11 {
            Ok(TcpState::Closing)
        } else {
            Err(DecodeError::InvalidValue { value: code as u32 })
        }
    }

    /// The bit of the state in a set of states: bit number `code`.
    pub open spec fn mask_spec(self) -> u32 {
        match self {
            TcpState::Established => 0x2,
            TcpState::SynSent => 0x4,
            TcpState::SynRecv => 0x8,
            TcpState::FinWait1 => 0x10,
            TcpState::FinWait2 => 0x20,
            TcpState::TimeWait => 0x40,
            TcpState::Close => 0x80,
            TcpState::CloseWait => 0x100,
            TcpState::LastAck => 0x200,
            TcpState::Listen => 0x400,
            TcpState::Closing => 0x800,
        }
    }

    pub fn code(self) -> (r: u8)
        ensures
            r == self.code_spec(),
            TcpState::from_code_spec(r) == Ok::<TcpState, DecodeError>(self),
    {
        match self {
            TcpState::Established => 1,
            TcpState::SynSent => 2,
            TcpState::SynRecv => 3,
            TcpState::FinWait1 => 4,
            TcpState::FinWait2 => 5,
            TcpState::TimeWait => 6,
            TcpState::Close => 7,
            TcpState::CloseWait => 8,
            TcpState::LastAck => 9,
            TcpState::Listen => 10,
            TcpState::Closing => 11,
        }
    }

    /// The state with the given number. A number that names no state is an
    /// invalid value.
    pub fn from_code(code: u8) -> (r: Result<TcpState, DecodeError>)
        ensures
            r == TcpState::from_code_spec(code),
            r matches Ok(state) ==> state.code_spec() == code,
            r is Ok <==> 1 <= code <= 11,
    {
        if code == 1 {
            Ok(TcpState::Established)
        } else if code == 2 {
            Ok(TcpState::SynSent)
        } else if code == 3 {
            Ok(TcpState::SynRecv)
        } else if code == 4 {
            Ok(TcpState::FinWait1)
        } else if code == 5 {
            Ok(TcpState::FinWait2)
        } else if code == 6 {
            Ok(TcpState::TimeWait)
        } else if code == 7 {
            Ok(TcpState::Close)
        } else if code == 8 {
            Ok(TcpState::CloseWait)
        } else if code == 9 {
            Ok(TcpState::LastAck)
        } else if code == 10 {
            Ok(TcpState::Listen)
        } else if code == 11 {
            Ok(TcpState::Closing)
        } else {
            Err(DecodeError::InvalidValue { value: code as u32 })
        }
    }

    pub fn mask(self) -> (r: u32)
        ensures
            r == self.mask_spec(),
    {
        match self {
            TcpState::Established => 0x2,
            TcpState::SynSent => 0x4,
            TcpState::SynRecv => 0x8,
            TcpState::FinWait1 => 0x10,
            TcpState::FinWait2 => 0x20,
            TcpState::TimeWait => 0x40,
            TcpState::Close => 0x80,
            TcpState::CloseWait => 0x100,
            TcpState::LastAck => 0x200,
            TcpState::Listen => 0x400,
            TcpState::Closing => 0x800,
        }
    }

    /// The bit of a state is the bit whose number is the state's code, and
    /// it lies within the set of all states.
    pub proof fn lemma_mask_is_shift(self)
        ensures
            self.mask_spec() == 1u32 << self.code_spec(),
            self.mask_spec() & TCPF_ALL == self.mask_spec(),
    {
        assert(0x2u32 == 1u32 << 1u8 && 0x4u32 == 1u32 << 2u8 && 0x8u32 == 1u32 << 3u8 && 0x10u32
            == 1u32 << 4u8 && 0x20u32 == 1u32 << 5u8 && 0x40u32 == 1u32 << 6u8 && 0x80u32 == 1u32
            << 7u8 && 0x100u32 == 1u32 << 8u8 && 0x200u32 == 1u32 << 9u8 && 0x400u32 == 1u32
            << 10u8 && 0x800u32 == 1u32 << 11u8) by (bit_vector);
        assert(0x2u32 & 0xFFF == 0x2 && 0x4u32 & 0xFFF == 0x4 && 0x8u32 & 0xFFF == 0x8 && 0x10u32
            & 0xFFF == 0x10 && 0x20u32 & 0xFFF == 0x20 && 0x40u32 & 0xFFF == 0x40 && 0x80u32
            & 0xFFF == 0x80 && 0x100u32 & 0xFFF == 0x100 && 0x200u32 & 0xFFF == 0x200 && 0x400u32
            & 0xFFF == 0x400 && 0x800u32 & 0xFFF == 0x800) by (bit_vector);
    }
}

/// A kind of extended information that a request can ask for.
#[derive(Debug, Clone, Copy, PartialEq, Eq)]
pub enum Extension {
    MemInfo,
    Info,
    VegasInfo,
    Conf,
    ToS,
    TClass,
    SkMemInfo,
    Shutdown,
}

impl Extension {
    /// The number that the kernel gives the extension, which is also the kind
    /// of the attribute that reports it.
    pub open spec fn code_spec(self) -> u16 {
        match self {
            Extension::MemInfo => 1,
            Extension::Info => 2,
            Extension::VegasInfo => 3,
            Extension::Conf => 4,
            Extension::ToS => 5,
            Extension::TClass => 6,
            Extension::SkMemInfo => 7,
            Extension::Shutdown => 8,
        }
    }

    /// The bit of the extension in a request: bit number `code - 1`.
    pub open spec fn mask_spec(self) -> u8 {
        match self {
            Extension::MemInfo => 0x1,
            Extension::Info => 0x2,
            Extension::VegasInfo => 0x4,
            Extension::Conf => 0x8,
            Extension::ToS => 0x10,
            Extension::TClass => 0x20,
            Extension::SkMemInfo => 0x40,
            Extension::Shutdown => 0x80,
        }
    }

    pub fn code(self) -> (r: u16)
        ensures
            r == self.code_spec(),
    {
        match self {
            Extension::MemInfo => 1,
            Extension::Info => 2,
            Extension::VegasInfo => 3,
            Extension::Conf => 4,
            Extension::ToS => 5,
            Extension::TClass => 6,
            Extension::SkMemInfo => 7,
            Extension::Shutdown => 8,
        }
    }

    pub fn mask(self) -> (r: u8)
        ensures
            r == self.mask_spec(),
    {
        match self {
            Extension::MemInfo => 0x1,
            Extension::Info => 0x2,
            Extension::VegasInfo => 0x4,
            Extension::Conf => 0x8,
            Extension::ToS => 0x10,
            Extension::TClass => 0x20,
            Extension::SkMemInfo => 0x40,
            Extension::Shutdown => 0x80,
        }
    }

    /// The bit of an extension is the bit whose number is one less than the
    /// extension's code.
    pub proof fn lemma_mask_is_shift(self)
        ensures
            self.mask_spec() == 1u8 << ((self.code_spec() - 1) as u8),
    {
        assert(0x1u8 == 1u8 << 0u8 && 0x2u8 == 1u8 << 1u8 && 0x4u8 == 1u8 << 2u8 && 0x8u8 == 1u8
            << 3u8 && 0x10u8 == 1u8 << 4u8 && 0x20u8 == 1u8 << 5u8 && 0x40u8 == 1u8 << 6u8
            && 0x80u8 == 1u8 << 7u8) by (bit_vector);
    }
}

/// A set of TCP states: bit `n` stands for the state with code `n`.
#[derive(Debug, Clone, Copy, PartialEq, Eq)]
pub struct TcpStates {
    pub bits: u32,
}

impl TcpStates {
    /// Whether every bit of `other` is set.
    pub open spec fn contains_spec(self, other: TcpStates) -> bool {
        self.bits & other.bits == other.bits
    }

    /// The set with no bit.
    pub fn empty() -> (r: Self)
        ensures
            r.bits == 0,
    {
        TcpStates { bits: 0 }
    }

    /// The set with every bit that has a meaning.
    pub fn all() -> (r: Self)
        ensures
            r.bits == TCPF_ALL,
    {
        TcpStates { bits: TCPF_ALL }
    }

    pub fn bits(&self) -> (r: u32)
        ensures
            r == self.bits,
    {
        self.bits
    }

    /// The set of the bits of `bits` that have a meaning; the others are
    /// dropped.
    pub fn from_bits_truncate(bits: u32) -> (r: Self)
        ensures
            r.bits == bits & TCPF_ALL,
    {
        TcpStates { bits: bits & TCPF_ALL }
    }

    pub fn is_empty(&self) -> (r: bool)
        ensures
            r == (self.bits == 0),
    {
        self.bits == 0
    }

    pub fn contains(&self, other: TcpStates) -> (r: bool)
        ensures
            r == self.contains_spec(other),
    {
        self.bits & other.bits == other.bits
    }

    /// Sets every bit of `other`.
    pub fn insert(&mut self, other: TcpStates)
        ensures
            final(self).bits == old(self).bits | other.bits,
    {
        self.bits = self.bits | other.bits;
    }

    /// Clears every bit of `other`.
    pub fn remove(&mut self, other: TcpStates)
        ensures
            final(self).bits == old(self).bits & !other.bits,
    {
        self.bits = self.bits & !other.bits;
    }

    /// The set that holds `state` alone.
    pub fn of(state: TcpState) -> (r: Self)
        ensures
            r.bits == state.mask_spec(),
    {
        TcpStates { bits: state.mask() }
    }

    /// A bit that was inserted is in the set, and one that was removed is
    /// not.
    pub proof fn lemma_insert_remove(self, other: TcpStates)
        ensures
            (TcpStates { bits: self.bits | other.bits }).contains_spec(other),
            (TcpStates { bits: self.bits & !other.bits }).bits & other.bits == 0,
            (TcpStates { bits: self.bits | other.bits }).contains_spec(self),
    {
        let a = self.bits;
        let b = other.bits;
        assert((a | b) & b == b && (a & !b) & b == 0 && (a | b) & a == a) by (bit_vector);
    }
}

impl Default for TcpStates {
    /// Every state.
    fn default() -> (r: Self)
        ensures
            r.bits == TCPF_ALL,
    {
        TcpStates { bits: TCPF_ALL }
    }
}

/// A set of extensions: bit `n - 1` stands for the extension with code `n`.
#[derive(Debug, Clone, Copy, PartialEq, Eq)]
pub struct Extensions {
    pub bits: u8,
}

impl Extensions {
    /// Whether every bit of `other` is set.
    pub open spec fn contains_spec(self, other: Extensions) -> bool {
        self.bits & other.bits == other.bits
    }

    /// The set with no bit.
    pub fn empty() -> (r: Self)
        ensures
            r.bits == 0,
    {
        Extensions { bits: 0 }
    }

    /// The set with every bit that has a meaning.
    pub fn all() -> (r: Self)
        ensures
            r.bits == 0xFF,
    {
        Extensions { bits: 0xFF }
    }

    pub fn bits(&self) -> (r: u8)
        ensures
            r == self.bits,
    {
        self.bits
    }

    /// The set of the bits of `bits` that have a meaning; the others are
    /// dropped.
    pub fn from_bits_truncate(bits: u8) -> (r: Self)
        ensures
            r.bits == bits & 0xFF,
    {
        Extensions { bits: bits & 0xFF }
    }

    pub fn is_empty(&self) -> (r: bool)
        ensures
            r == (self.bits == 0),
    {
        self.bits == 0
    }

    pub fn contains(&self, other: Extensions) -> (r: bool)
        ensures
            r == self.contains_spec(other),
    {
        self.bits & other.bits == other.bits
    }

    /// Sets every bit of `other`.
    pub fn insert(&mut self, other: Extensions)
        ensures
            final(self).bits == old(self).bits | other.bits,
    {
        self.bits = self.bits | other.bits;
    }

    /// Clears every bit of `other`.
    pub fn remove(&mut self, other: Extensions)
        ensures
            final(self).bits == old(self).bits & !other.bits,
    {
        self.bits = self.bits & !other.bits;
    }

    /// The set that holds `extension` alone.
    pub fn of(extension: Extension) -> (r: Self)
        ensures
            r.bits == extension.mask_spec(),
    {
        Extensions { bits: extension.mask() }
    }

    /// A bit that was inserted is in the set.
    pub proof fn lemma_insert(self, other: Extensions)
        ensures
            (Extensions { bits: self.bits | other.bits }).contains_spec(other),
            (Extensions { bits: self.bits | other.bits }).contains_spec(self),
    {
        let a = self.bits;
        let b = other.bits;
        assert((a | b) & b == b && (a | b) & a == a) by (bit_vector);
    }
}

impl Default for Extensions {
    /// No extension.
    fn default() -> (r: Self)
        ensures
            r.bits == 0,
    {
        Extensions { bits: 0 }
    }
}

/// The directions in which a socket was shut down.
#[derive(Debug, Clone, Copy, PartialEq, Eq)]
pub struct Shutdown {
    pub bits: u8,
}

impl Shutdown {
    /// Whether every bit of `other` is set.
    pub open spec fn contains_spec(self, other: Shutdown) -> bool {
        self.bits & other.bits == other.bits
    }

    /// The set with no bit.
    pub fn empty() -> (r: Self)
        ensures
            r.bits == 0,
    {
        Shutdown { bits: 0 }
    }

    /// The set with every bit that has a meaning.
    pub fn all() -> (r: Self)
        ensures
            r.bits == SHUTDOWN_MASK,
    {
        Shutdown { bits: SHUTDOWN_MASK }
    }

    pub fn bits(&self) -> (r: u8)
        ensures
            r == self.bits,
    {
        self.bits
    }

    /// The set of the bits of `bits` that have a meaning; the others are
    /// dropped.
    pub fn from_bits_truncate(bits: u8) -> (r: Self)
        ensures
            r.bits == bits & SHUTDOWN_MASK,
    {
        Shutdown { bits: bits & SHUTDOWN_MASK }
    }

    pub fn is_empty(&self) -> (r: bool)
        ensures
            r == (self.bits == 0),
    {
        self.bits == 0
    }

    pub fn contains(&self, other: Shutdown) -> (r: bool)
        ensures
            r == self.contains_spec(other),
    {
        self.bits & other.bits == other.bits
    }

    /// Sets every bit of `other`.
    pub fn insert(&mut self, other: Shutdown)
        ensures
            final(self).bits == old(self).bits | other.bits,
    {
        self.bits = self.bits | other.bits;
    }

    /// Clears every bit of `other`.
    pub fn remove(&mut self, other: Shutdown)
        ensures
            final(self).bits == old(self).bits & !other.bits,
    {
        self.bits = self.bits & !other.bits;
    }

    /// Nothing was shut down.
    pub fn none() -> (r: Self)
        ensures
            r.bits == 0,
    {
        Shutdown { bits: 0 }
    }

    /// Receiving was shut down.
    pub fn recv() -> (r: Self)
        ensures
            r.bits == RCV_SHUTDOWN,
    {
        Shutdown { bits: RCV_SHUTDOWN }
    }

    /// Sending was shut down.
    pub fn send() -> (r: Self)
        ensures
            r.bits == SEND_SHUTDOWN,
    {
        Shutdown { bits: SEND_SHUTDOWN }
    }
}

} // verus!
