//! The running CRC-32 of the bytes that went through a codec.

use vstd::prelude::*;

verus! {

/// The checksum state of the `checksum` crate, opaque to the verifier.
#[verifier::external_type_specification]
#[verifier::external_body]
pub struct ExCrc32(checksum::crc32::Crc32);

/// The bytes that a checksum state has taken in since it was made, in order.
pub uninterp spec fn crc32_taken(state: checksum::crc32::Crc32) -> Seq<u8>;

/// The register of a checksum state that has taken in `bytes`.
pub uninterp spec fn crc32_register(bytes: Seq<u8>) -> u32;

/// The most bytes that one checksum state can take in.
pub const CRC32_CAPACITY: u32 = 0xffff_ffff;

/// The CRC-32 of `bytes`: the register with every bit flipped.
pub open spec fn crc32_of(bytes: Seq<u8>) -> u32 {
    crc32_register(bytes) ^ 0xffff_ffff
}

/// Trusted: `checksum::crc32::Crc32::new`, which starts a state that has
/// taken in nothing.
#[verifier::external_body]
fn state_new() -> (state: checksum::crc32::Crc32)
    ensures
        crc32_taken(state) == Seq::<u8>::empty(),
{
    checksum::crc32::Crc32::new()
}

/// Trusted: `checksum::crc32::Crc32::update`, which takes in the bytes of
/// `buf` one after the other. It counts them in a `u32` and overflows past
/// `CRC32_CAPACITY`, so such a call is left out.
#[verifier::external_body]
fn state_update(state: &mut checksum::crc32::Crc32, buf: &[u8])
    requires
        crc32_taken(*old(state)).len() + buf@.len() <= CRC32_CAPACITY,
    ensures
        crc32_taken(*final(state)) == crc32_taken(*old(state)) + buf@,
{
    state.update(buf)
}

/// Trusted: `checksum::crc32::Crc32::getsum`, which returns the register as
/// it stands, a function of the bytes taken in.
#[verifier::external_body]
fn state_getsum(state: &checksum::crc32::Crc32) -> (register: u32)
    ensures
        register == crc32_register(crc32_taken(*state)),
{
    state.getsum()
}

/// Trusted: `checksum::crc32::Crc32::bytecount`, which returns how many
/// bytes were taken in.
#[verifier::external_body]
fn state_bytecount(state: &checksum::crc32::Crc32) -> (count: u32)
    ensures
        count == crc32_taken(*state).len(),
{
    state.bytecount()
}

/// The CRC-32 that a register stands for: the register with every bit
/// flipped.
pub fn crc32_from_register(register: u32) -> (crc: u32)
    ensures
        crc == register ^ 0xffff_ffff,
{
    register ^ 0xffff_ffff
}

/// A running CRC-32.
pub struct RunningCrc32 {
    state: checksum::crc32::Crc32,
}

impl RunningCrc32 {
    /// The bytes taken in so far.
    pub closed spec fn taken(&self) -> Seq<u8> {
        crc32_taken(self.state)
    }

    /// A checksum that has taken in nothing.
    pub fn new() -> (crc: Self)
        ensures
            crc.taken() == Seq::<u8>::empty(),
    {
        RunningCrc32 { state: state_new() }
    }

    /// How many more bytes the checksum can take in.
    pub fn room(&self) -> (room: u32)
        ensures
            self.taken().len() + room == CRC32_CAPACITY,
    {
        CRC32_CAPACITY - state_bytecount(&self.state)
    }

    /// Takes in `buf`.
    pub fn update(&mut self, buf: &[u8])
        requires
            old(self).taken().len() + buf@.len() <= CRC32_CAPACITY,
        ensures
            final(self).taken() == old(self).taken() + buf@,
    {
        state_update(&mut self.state, buf)
    }

    /// The CRC-32 of the bytes taken in so far.
    pub fn value(&self) -> (value: u32)
        ensures
            value == crc32_of(self.taken()),
    {
        crc32_from_register(state_getsum(&self.state))
    }
}

} // verus!
