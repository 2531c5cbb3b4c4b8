//! The two-wire bus as the driver sees it: the transport that carries the
//! transfers, the device's addresses, and the record of what was transferred.

use vstd::prelude::*;

verus! {

/// Alert-response address: one byte read from it clears a latched acknowledge.
pub const ARA: u8 = 0x0C;

/// Address to which the command byte is written.
pub const COMMAND: u8 = 0x38;

/// Address from which the most significant byte of a reading is read.
pub const DATA_MSB: u8 = 0x39;

/// Address from which the least significant byte of a reading is read. It
/// has the value of `COMMAND`; the direction of the transfer tells them apart.
pub const DATA_LSB: u8 = 0x38;

/// A blocking two-wire bus master, with the record of what it carried. An
/// implementation owes the driver one thing: that each call puts exactly the
/// transfer asked for on that record, with what came of it. Whether a
/// transfer succeeds is the bus's to say.
pub trait Transport {
    /// What the bus reports when a transfer fails.
    type Error;

    /// Every transfer that this bus has carried, the oldest first. A
    /// verified bus defines this over its own state. The body given here only
    /// lets a bus written in ordinary Rust leave the function out: nothing is
    /// known of such a bus, and that its `write` and `read` keep their
    /// promises is taken on trust.
    open spec fn carried(&self) -> Seq<Transfer<Self::Error>> {
        Seq::empty()
    }

    /// Writes `bytes` to the device at `address`.
    fn write(&mut self, address: u8, bytes: &[u8]) -> (status: Result<(), Self::Error>)
        ensures
            final(self).carried() == old(self).carried().push(
                (Transfer::Write { address, bytes: bytes@, status }),
            ),
    ;

    /// Reads from the device at `address` until `buffer` is full.
    fn read(&mut self, address: u8, buffer: &mut [u8]) -> (status: Result<(), Self::Error>)
        ensures
            final(buffer)@.len() == old(buffer)@.len(),
            final(self).carried() == old(self).carried().push(
                (Transfer::Read {
                    address,
                    length: old(buffer)@.len(),
                    reply: filled(status, final(buffer)@),
                }),
            ),
    ;
}

/// All possible errors in this crate
#[derive(Debug)]
pub enum Error<E> {
    /// I²C bus error
    I2C(E),
}

/// One transfer on the bus, with what came of it.
pub enum Transfer<E> {
    /// `bytes` were written to `address`.
    Write { address: u8, bytes: Seq<u8>, status: Result<(), E> },
    /// `length` bytes were asked of `address`; `reply` holds them if they came.
    Read { address: u8, length: nat, reply: Result<Seq<u8>, E> },
}

impl<E> Transfer<E> {
    /// The write of the single byte `byte` to `address`.
    pub open spec fn byte_written(address: u8, byte: u8, status: Result<(), E>) -> Transfer<E> {
        Transfer::Write { address, bytes: seq![byte], status }
    }

    /// The read of a single byte from `address`.
    pub open spec fn byte_read(address: u8, reply: Result<u8, E>) -> Transfer<E> {
        Transfer::Read {
            address,
            length: 1,
            reply: match reply {
                Ok(byte) => Ok(seq![byte]),
                Err(e) => Err(e),
            },
        }
    }
}

/// What a read brought: the content of the buffer if the bus reported
/// success, else the failure.
pub open spec fn filled<E>(status: Result<(), E>, data: Seq<u8>) -> Result<Seq<u8>, E> {
    match status {
        Ok(_) => Ok(data),
        Err(e) => Err(e),
    }
}

/// The outcome of a read whose payload is of no interest.
pub open spec fn discard<E>(reply: Result<u8, E>) -> Result<(), E> {
    match reply {
        Ok(_) => Ok(()),
        Err(e) => Err(e),
    }
}

/// What the driver returns for an outcome of the bus: the value as it is, a
/// failure wrapped and otherwise unchanged.
pub open spec fn reported<T, E>(outcome: Result<T, E>) -> Result<T, Error<E>> {
    match outcome {
        Ok(value) => Ok(value),
        Err(e) => Err(Error::I2C(e)),
    }
}

/// What the bus reported, read off what the driver returned.
pub open spec fn bus_outcome<T, E>(r: Result<T, Error<E>>) -> Result<T, E> {
    match r {
        Ok(value) => Ok(value),
        Err(Error::I2C(e)) => Err(e),
    }
}

/// Wraps a failure of the bus in the driver's error and passes a value on.
pub fn report<T, E>(outcome: Result<T, E>) -> (r: Result<T, Error<E>>)
    ensures
        r == reported(outcome),
{
    match outcome {
        Ok(value) => Ok(value),
        Err(e) => Err(Error::I2C(e)),
    }
}

/// The reply of a read: the byte that the buffer holds if the bus reported
/// success, else the failure.
pub fn received<E>(status: Result<(), E>, byte: u8) -> (reply: Result<u8, E>)
    ensures
        reply == match status {
            Ok(_) => Ok::<u8, E>(byte),
            Err(e) => Err(e),
        },
{
    match status {
        Ok(()) => Ok(byte),
        Err(e) => Err(e),
    }
}

} // verus!
