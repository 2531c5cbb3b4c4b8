//! The sensor driver: a transport, the shadow of the command register, and
//! the operations that turn into transfers on the bus.
//!
//! The driver keeps a record of the transfers it has made since it was
//! created. Every operation states what it adds to that record, and that the
//! transport carried exactly what was added: no transfer is recorded that the
//! bus did not see, and none reaches the bus unrecorded.

use vstd::prelude::*;
use crate::bus::{
    bus_outcome, discard, received, report, reported, Error, Transfer, Transport, ARA, COMMAND,
    DATA_LSB, DATA_MSB,
};
use crate::register::{
    ack_disabled, ack_enabled, ack_enabled_with_threshold, assemble_reading, disabled, enabled,
    handle_ack_threshold_bit, with_integration_time, AckThreshold, IntegrationTime, Operation,
    DEFAULT_COMMAND,
};
use crate::state::{
    init_result, last_written, lemma_one_more, lemma_read_keeps_consistent,
    lemma_records_chain, lemma_write_keeps_consistent, uv_result, State,
};

verus! {

/// The command byte together with the record of transfers that accounts
/// for it. The two change in one step, so that they never disagree.
struct Shadow<E> {
    /// Command register status.
    cmd: u8,
    /// Every transfer asked of the transport since the driver was made.
    traffic: Ghost<Seq<Transfer<E>>>,
}

impl<E> Shadow<E> {
    /// The command byte is that of the last write that the bus accepted, or
    /// the default if there was none.
    #[verifier::type_invariant]
    closed spec fn well_formed(&self) -> bool {
        self.cmd == last_written(self.traffic@)
    }
}

/// VEML6070 device driver.
pub struct Veml6070<I2C: Transport> {
    /// The concrete I²C device implementation.
    i2c: I2C,
    /// What the device was last told, and how.
    shadow: Shadow<I2C::Error>,
}

impl<I2C: Transport> View for Veml6070<I2C> {
    type V = State<I2C::Error>;

    closed spec fn view(&self) -> State<I2C::Error> {
        State { shadow: self.shadow.cmd, traffic: self.shadow.traffic@ }
    }
}

impl<I2C: Transport> Veml6070<I2C> {
    /// The transport that the driver owns.
    pub closed spec fn transport(&self) -> I2C {
        self.i2c
    }

    /// Between `before` and `self` the transport carried exactly the
    /// transfers that the driver put on its record, and nothing else.
    pub open spec fn accounts_since(&self, before: &Self) -> bool {
        &&& before@.transfers() <= self@.transfers()
        &&& self@.traffic.take(before@.transfers()) == before@.traffic
        &&& self.transport().carried() == before.transport().carried() + self@.traffic.skip(
            before@.transfers(),
        )
    }

    /// What holds from one driver value to the next, and from that to a
    /// third, holds from the first to the third.
    pub proof fn lemma_accounts_since_chain(first: &Self, then: &Self, last: &Self)
        requires
            then.accounts_since(first),
            last.accounts_since(then),
        ensures
            last.accounts_since(first),
    {
        lemma_records_chain(
            first.transport().carried(),
            then.transport().carried(),
            last.transport().carried(),
            first@.traffic,
            then@.traffic,
            last@.traffic,
        );
    }

    /// Create new instance of the VEML6070 device.
    pub fn new(i2c: I2C) -> (dev: Self)
        ensures
            dev@ == State::<I2C::Error>::initial(),
            dev@.consistent(),
            dev.transport() == i2c,
    {
        Veml6070 { i2c, shadow: Shadow { cmd: DEFAULT_COMMAND, traffic: Ghost(Seq::empty()) } }
    }

    /// Destroy driver instance, return I²C bus instance.
    pub fn destroy(self) -> (i2c: I2C)
        ensures
            i2c == self.transport(),
    {
        self.i2c
    }

    /// The shadow of the command register.
    pub fn command(&self) -> (cmd: u8)
        ensures
            cmd == self@.shadow,
            self@.consistent(),
    {
        proof {
            use_type_invariant(&self.shadow);
        }
        self.shadow.cmd
    }

    /// Enable the sensor.
    pub fn enable(&mut self) -> (r: Result<(), Error<I2C::Error>>)
        ensures
            final(self)@ == old(self)@.configure(Operation::Enable, bus_outcome(r)),
            final(self)@.consistent(),
            final(self).accounts_since(old(self)),
    {
        let cmd = enabled(self.shadow.cmd);
        self.write_command(cmd)
    }

    /// Disable the sensor (shutdown).
    pub fn disable(&mut self) -> (r: Result<(), Error<I2C::Error>>)
        ensures
            final(self)@ == old(self)@.configure(Operation::Disable, bus_outcome(r)),
            final(self)@.consistent(),
            final(self).accounts_since(old(self)),
    {
        let cmd = disabled(self.shadow.cmd);
        self.write_command(cmd)
    }

    /// Set integration time.
    pub fn set_integration_time(&mut self, it: IntegrationTime) -> (r: Result<
        (),
        Error<I2C::Error>,
    >)
        ensures
            final(self)@ == old(self)@.configure(Operation::SetIntegrationTime(it), bus_outcome(r)),
            final(self)@.consistent(),
            final(self).accounts_since(old(self)),
    {
        let cmd = with_integration_time(self.shadow.cmd, it);
        self.write_command(cmd)
    }

    /// Enable the ACK signal.
    ///
    /// *Note:* The ACK must be cleared every time after it has fired with `clear_ack()`.
    pub fn enable_ack(&mut self) -> (r: Result<(), Error<I2C::Error>>)
        ensures
            final(self)@ == old(self)@.configure(Operation::EnableAck, bus_outcome(r)),
            final(self)@.consistent(),
            final(self).accounts_since(old(self)),
    {
        let cmd = ack_enabled(self.shadow.cmd);
        self.write_command(cmd)
    }

    /// Disable the ACK signal.
    pub fn disable_ack(&mut self) -> (r: Result<(), Error<I2C::Error>>)
        ensures
            final(self)@ == old(self)@.configure(Operation::DisableAck, bus_outcome(r)),
            final(self)@.consistent(),
            final(self).accounts_since(old(self)),
    {
        let cmd = ack_disabled(self.shadow.cmd);
        self.write_command(cmd)
    }

    /// Set ACK threshold.
    pub fn set_ack_threshold(&mut self, threshold: AckThreshold) -> (r: Result<
        (),
        Error<I2C::Error>,
    >)
        ensures
            final(self)@ == old(self)@.configure(
                Operation::SetAckThreshold(threshold),
                bus_outcome(r),
            ),
            final(self)@.consistent(),
            final(self).accounts_since(old(self)),
    {
        let cmd = handle_ack_threshold_bit(self.shadow.cmd, threshold);
        self.write_command(cmd)
    }

    /// Enable the ACK signal and set the ACK threshold at once.
    ///
    /// *Note:* The ACK must be cleared every time after it has fired with `clear_ack()`.
    pub fn enable_ack_with_threshold(&mut self, threshold: AckThreshold) -> (r: Result<
        (),
        Error<I2C::Error>,
    >)
        ensures
            final(self)@ == old(self)@.configure(
                Operation::EnableAckWithThreshold(threshold),
                bus_outcome(r),
            ),
            final(self)@.consistent(),
            final(self).accounts_since(old(self)),
    {
        let cmd = ack_enabled_with_threshold(self.shadow.cmd, threshold);
        self.write_command(cmd)
    }

    /// Sends `cmd` to the command address, and takes it for the shadow if the
    /// bus accepted it.
    fn write_command(&mut self, cmd: u8) -> (r: Result<(), Error<I2C::Error>>)
        ensures
            final(self)@ == old(self)@.after_write(cmd, bus_outcome(r)),
            final(self)@.consistent(),
            final(self).accounts_since(old(self)),
    {
        let bytes = [cmd];
        let status = self.i2c.write(COMMAND, &bytes);
        let ghost sent = Transfer::byte_written(COMMAND, cmd, status);
        let ghost traffic = self.shadow.traffic@.push(sent);
        proof {
            use_type_invariant(&self.shadow);
            lemma_write_keeps_consistent(self@, cmd, status);
            assert(bytes@ =~= seq![cmd]);
            lemma_one_more(old(self).i2c.carried(), old(self)@.traffic, sent);
        }
        match status {
            Ok(done) => {
                self.shadow = Shadow { cmd, traffic: Ghost(traffic) };
                Ok(done)
            },
            Err(e) => {
                self.shadow = Shadow { cmd: self.shadow.cmd, traffic: Ghost(traffic) };
                Err(Error::I2C(e))
            },
        }
    }

    /// Reads one byte from `address`.
    fn read_byte(&mut self, address: u8) -> (r: Result<u8, Error<I2C::Error>>)
        ensures
            final(self)@ == old(self)@.after_read(address, bus_outcome(r)),
            final(self)@.consistent(),
            final(self).accounts_since(old(self)),
    {
        let mut buffer = [0u8];
        let status = self.i2c.read(address, &mut buffer);
        let reply = received(status, buffer[0]);
        proof {
            use_type_invariant(&self.shadow);
            lemma_read_keeps_consistent(self@, address, reply);
            assert(buffer@ =~= seq![buffer[0]]);
            lemma_one_more(
                old(self).i2c.carried(),
                old(self)@.traffic,
                Transfer::byte_read(address, reply),
            );
        }
        self.shadow = Shadow {
            cmd: self.shadow.cmd,
            traffic: Ghost(self.shadow.traffic@.push(Transfer::byte_read(address, reply))),
        };
        report(reply)
    }

    /// Clear ACK status.
    ///
    /// *Note:* The ACK status must be cleared every time after it has fired.
    /// Other registers will be blocked otherwise.
    pub fn clear_ack(&mut self) -> (r: Result<(), Error<I2C::Error>>)
        ensures
            exists|reply: Result<u8, I2C::Error>|
                final(self)@ == #[trigger] old(self)@.after_read(ARA, reply) && r == reported(
                    discard(reply),
                ),
            final(self)@.consistent(),
            final(self).accounts_since(old(self)),
    {
        match self.read_byte(ARA) {
            Ok(_) => Ok(()),
            Err(e) => Err(e),
        }
    }

    /// Read the UV sensor.
    pub fn read_uv(&mut self) -> (r: Result<u16, Error<I2C::Error>>)
        ensures
            exists|first: Result<u8, I2C::Error>, second: Result<u8, I2C::Error>|
                final(self)@ == #[trigger] old(self)@.after_read_uv(first, second) && r
                    == uv_result(first, second),
            final(self)@.consistent(),
            final(self).accounts_since(old(self)),
    {
        let first = self.read_byte(DATA_MSB);
        let ghost first_reply = bus_outcome(first);
        let ghost between = *self;
        let msb = match first {
            Ok(byte) => byte,
            Err(e) => {
                assert(self@ == old(self)@.after_read_uv(first_reply, first_reply));
                return Err(e);
            },
        };
        let second = self.read_byte(DATA_LSB);
        let ghost second_reply = bus_outcome(second);
        proof {
            assert(self@ == old(self)@.after_read_uv(first_reply, second_reply));
            lemma_records_chain(
                old(self).i2c.carried(),
                between.i2c.carried(),
                self.i2c.carried(),
                old(self)@.traffic,
                between@.traffic,
                self@.traffic,
            );
        }
        match second {
            Ok(lsb) => Ok(assemble_reading(msb, lsb)),
            Err(e) => Err(e),
        }
    }

    /// Initialize and clear ACK.
    pub fn init(&mut self) -> (r: Result<(), Error<I2C::Error>>)
        ensures
            exists|cleared: Result<u8, I2C::Error>, status: Result<(), I2C::Error>|
                final(self)@ == #[trigger] old(self)@.after_init(cleared, status) && r
                    == init_result(cleared, status),
            final(self)@.consistent(),
            final(self).accounts_since(old(self)),
    {
        let cleared = self.clear_ack();
        let ghost cleared_reply = choose|reply: Result<u8, I2C::Error>|
            self@ == #[trigger] old(self)@.after_read(ARA, reply) && cleared == reported(
                discard(reply),
            );
        let ghost between = *self;
        match cleared {
            Ok(()) => {},
            Err(e) => {
                assert(self@ == old(self)@.after_init(cleared_reply, Ok(())));
                return Err(e);
            },
        }
        let r = self.write_command(DEFAULT_COMMAND);
        proof {
            assert(self@ == old(self)@.after_init(cleared_reply, bus_outcome(r)));
            lemma_records_chain(
                old(self).i2c.carried(),
                between.i2c.carried(),
                self.i2c.carried(),
                old(self)@.traffic,
                between@.traffic,
                self@.traffic,
            );
        }
        r
    }
}

} // verus!
