//! The driver as a mathematical value: the shadow of the command register
//! and the transfers made so far, with the laws that every sequence of
//! operations obeys.

use vstd::prelude::*;
use crate::bus::{discard, reported, Error, Transfer, ARA, COMMAND, DATA_LSB, DATA_MSB};
use crate::register::{
    lemma_apply_changes_target_only, lemma_apply_keeps_reserved, uv_count, Operation,
    DEFAULT_COMMAND, RESERVED,
};

verus! {

/// What a driver is, seen from outside: the shadow of the command register
/// and every transfer made so far, the oldest first.
pub struct State<E> {
    pub shadow: u8,
    pub traffic: Seq<Transfer<E>>,
}

/// The command byte that the device holds after `traffic`: the byte of the
/// last write to the command address that succeeded, or the power-on default.
pub open spec fn last_written<E>(traffic: Seq<Transfer<E>>) -> u8
    decreases traffic.len(),
{
    if traffic.len() == 0 {
        DEFAULT_COMMAND
    } else {
        match traffic.last() {
            Transfer::Write { address, bytes, status: Ok(_) } if address == COMMAND && bytes.len()
                == 1 => bytes[0],
            _ => last_written(traffic.drop_last()),
        }
    }
}

impl<E> State<E> {
    /// A driver that has made no transfer yet.
    pub open spec fn initial() -> State<E> {
        State { shadow: DEFAULT_COMMAND, traffic: Seq::empty() }
    }

    /// The shadow is what the device was last told.
    pub open spec fn consistent(self) -> bool {
        self.shadow == last_written(self.traffic)
    }

    /// The state after `byte` was sent to the command address: the write is
    /// on record, and the shadow follows it only if it succeeded.
    pub open spec fn after_write(self, byte: u8, status: Result<(), E>) -> State<E> {
        State {
            shadow: if status is Ok { byte } else { self.shadow },
            traffic: self.traffic.push(Transfer::byte_written(COMMAND, byte, status)),
        }
    }

    /// The state after one byte was read from `address`.
    pub open spec fn after_read(self, address: u8, reply: Result<u8, E>) -> State<E> {
        State { shadow: self.shadow, traffic: self.traffic.push(Transfer::byte_read(address, reply)) }
    }

    /// The state after `op` was attempted: the shadow with the operation
    /// applied was sent, whatever became of the write.
    pub open spec fn configure(self, op: Operation, status: Result<(), E>) -> State<E> {
        self.after_write(op.apply(self.shadow), status)
    }

    /// The state after each operation of `steps` was attempted in turn, each
    /// with its outcome on the bus.
    pub open spec fn configure_all(self, steps: Seq<(Operation, Result<(), E>)>) -> State<E>
        decreases steps.len(),
    {
        if steps.len() == 0 {
            self
        } else {
            self.configure_all(steps.drop_last()).configure(steps.last().0, steps.last().1)
        }
    }

    /// The state after an acknowledge was cleared and, if that succeeded, the
    /// default command was written.
    pub open spec fn after_init(self, cleared: Result<u8, E>, status: Result<(), E>) -> State<E> {
        if cleared is Ok {
            self.after_read(ARA, cleared).after_write(DEFAULT_COMMAND, status)
        } else {
            self.after_read(ARA, cleared)
        }
    }

    /// The state after a reading was taken: the most significant byte was
    /// read and, if that succeeded, the least significant one.
    pub open spec fn after_read_uv(self, first: Result<u8, E>, second: Result<u8, E>) -> State<E> {
        if first is Ok {
            self.after_read(DATA_MSB, first).after_read(DATA_LSB, second)
        } else {
            self.after_read(DATA_MSB, first)
        }
    }

    /// How many transfers were made.
    pub open spec fn transfers(self) -> int {
        self.traffic.len() as int
    }
}

/// What initialising returns: the first failure, if there was one.
pub open spec fn init_result<E>(cleared: Result<u8, E>, status: Result<(), E>) -> Result<
    (),
    Error<E>,
> {
    match cleared {
        Ok(_) => reported(status),
        Err(e) => Err(Error::I2C(e)),
    }
}

/// What taking a reading returns: the count made of the two bytes, or the
/// first failure.
pub open spec fn uv_result<E>(first: Result<u8, E>, second: Result<u8, E>) -> Result<
    u16,
    Error<E>,
> {
    match first {
        Ok(msb) => match second {
            Ok(lsb) => Ok(uv_count(msb, lsb)),
            Err(e) => Err(Error::I2C(e)),
        },
        Err(e) => Err(Error::I2C(e)),
    }
}

/// `transfer` is a write to the command address of a byte whose reserved bits
/// are those of `shadow`.
pub open spec fn sends_keeping_reserved<E>(transfer: Transfer<E>, shadow: u8) -> bool {
    match transfer {
        Transfer::Write { address, bytes, .. } => address == COMMAND && bytes.len() == 1
            && bytes[0] & RESERVED == shadow & RESERVED,
        Transfer::Read { .. } => false,
    }
}

/// A record that grows by one transfer while the bus carries that transfer
/// grows by what the bus carried.
pub proof fn lemma_one_more<E>(carried: Seq<Transfer<E>>, record: Seq<Transfer<E>>, added: Transfer<E>)
    ensures
        record.push(added).take(record.len() as int) == record,
        carried.push(added) == carried + record.push(added).skip(record.len() as int),
{
    assert(record.push(added).take(record.len() as int) =~= record);
    assert(record.push(added).skip(record.len() as int) =~= seq![added]);
    assert(carried.push(added) =~= carried + seq![added]);
}

/// A record that grew twice, each time by what the bus carried meanwhile,
/// grew over both by what the bus carried over both.
pub proof fn lemma_records_chain<E>(
    carried_first: Seq<Transfer<E>>,
    carried_then: Seq<Transfer<E>>,
    carried_last: Seq<Transfer<E>>,
    record_first: Seq<Transfer<E>>,
    record_then: Seq<Transfer<E>>,
    record_last: Seq<Transfer<E>>,
)
    requires
        record_first.len() <= record_then.len() <= record_last.len(),
        record_then.take(record_first.len() as int) == record_first,
        record_last.take(record_then.len() as int) == record_then,
        carried_then == carried_first + record_then.skip(record_first.len() as int),
        carried_last == carried_then + record_last.skip(record_then.len() as int),
    ensures
        record_last.take(record_first.len() as int) == record_first,
        carried_last == carried_first + record_last.skip(record_first.len() as int),
{
    let a = record_first.len() as int;
    let b = record_then.len() as int;
    assert(record_last.take(a) =~= record_last.take(b).take(a));
    assert(record_last.skip(a) =~= record_last.take(b).skip(a) + record_last.skip(b));
    assert(carried_last =~= carried_first + record_last.skip(a));
}

/// A read keeps the shadow consistent with the traffic.
pub proof fn lemma_read_keeps_consistent<E>(state: State<E>, address: u8, reply: Result<u8, E>)
    requires
        state.consistent(),
    ensures
        state.after_read(address, reply).consistent(),
{
    let after = state.after_read(address, reply);
    assert(after.traffic.drop_last() == state.traffic);
}

/// A write keeps the shadow consistent with the traffic.
pub proof fn lemma_write_keeps_consistent<E>(state: State<E>, byte: u8, status: Result<(), E>)
    requires
        state.consistent(),
    ensures
        state.after_write(byte, status).consistent(),
{
    let after = state.after_write(byte, status);
    assert(after.traffic.drop_last() == state.traffic);
}


/// What an attempted operation sends: one write to the command address, of
/// the shadow with exactly the targeted bits changed. Every other bit of the
/// byte, the reserved ones among them, is as the shadow had it; what was
/// transferred before stays on record.
pub proof fn lemma_configure_sends_masked_update<E>(
    state: State<E>,
    op: Operation,
    status: Result<(), E>,
)
    ensures
        state.configure(op, status).traffic.len() == state.traffic.len() + 1,
        state.configure(op, status).traffic.drop_last() == state.traffic,
        state.configure(op, status).traffic.last() == Transfer::byte_written(
            COMMAND,
            op.apply(state.shadow),
            status,
        ),
        op.apply(state.shadow) & op.mask() == op.bits(),
        op.apply(state.shadow) & !op.mask() == state.shadow & !op.mask(),
        op.apply(state.shadow) & RESERVED == state.shadow & RESERVED,
{
    lemma_apply_changes_target_only(op, state.shadow);
    lemma_apply_keeps_reserved(op, state.shadow);
}

/// An operation whose write failed leaves the shadow as it was, so the next
/// operation sends a byte made from the old shadow, not from the byte that
/// was refused.
pub proof fn lemma_failed_write_keeps_shadow<E>(
    state: State<E>,
    op: Operation,
    failure: E,
    next: Operation,
    status: Result<(), E>,
)
    ensures
        state.configure(op, Err(failure)).shadow == state.shadow,
        state.configure(op, Err(failure)).configure(next, status).traffic.last()
            == Transfer::byte_written(COMMAND, next.apply(state.shadow), status),
{
}

/// An operation whose write succeeded makes the byte sent the new shadow.
pub proof fn lemma_accepted_write_becomes_shadow<E>(state: State<E>, op: Operation)
    ensures
        state.configure(op, Ok(())).shadow == op.apply(state.shadow),
{
}

/// Reads change nothing but the record of transfers: the shadow stays.
pub proof fn lemma_reads_keep_shadow<E>(
    state: State<E>,
    address: u8,
    first: Result<u8, E>,
    second: Result<u8, E>,
)
    ensures
        state.after_read(address, first).shadow == state.shadow,
        state.after_read_uv(first, second).shadow == state.shadow,
{
}

/// Initialising that succeeds leaves the default command in the shadow,
/// after one read of the alert-response address and one write of the default.
pub proof fn lemma_init_restores_default<E>(state: State<E>, payload: u8)
    ensures
        state.after_init(Ok(payload), Ok(())).shadow == DEFAULT_COMMAND,
        state.after_init(Ok(payload), Ok(())).traffic == state.traffic.push(
            Transfer::byte_read(ARA, Ok(payload)),
        ).push(Transfer::byte_written(COMMAND, DEFAULT_COMMAND, Ok(()))),
        init_result(Ok::<u8, E>(payload), Ok::<(), E>(())) is Ok,
{
}

/// A reading reads the most significant byte before the least significant
/// one, and is made of exactly these two bytes, whatever they are.
pub proof fn lemma_reading_order<E>(state: State<E>, msb: u8, lsb: u8)
    ensures
        state.after_read_uv(Ok(msb), Ok(lsb)).traffic == state.traffic.push(
            Transfer::byte_read(DATA_MSB, Ok(msb)),
        ).push(Transfer::byte_read(DATA_LSB, Ok(lsb))),
        uv_result(Ok::<u8, E>(msb), Ok::<u8, E>(lsb)) == Ok::<u16, Error<E>>(uv_count(msb, lsb)),
{
}

/// A reading whose first read fails makes no second read.
pub proof fn lemma_reading_stops_at_failure<E>(state: State<E>, failure: E, second: Result<u8, E>)
    ensures
        state.after_read_uv(Err(failure), second).traffic == state.traffic.push(
            Transfer::byte_read(DATA_MSB, Err(failure)),
        ),
        uv_result(Err(failure), second) == Err::<u16, Error<E>>(Error::I2C(failure)),
{
}

/// Initialising whose read fails writes nothing.
pub proof fn lemma_init_stops_at_failure<E>(state: State<E>, failure: E, status: Result<(), E>)
    ensures
        state.after_init(Err(failure), status).traffic == state.traffic.push(
            Transfer::byte_read(ARA, Err(failure)),
        ),
        state.after_init(Err(failure), status).shadow == state.shadow,
        init_result(Err(failure), status) == Err::<(), Error<E>>(Error::I2C(failure)),
{
}

/// Over any sequence of attempted operations, whatever each write's outcome:
/// one transfer is made per operation, after those already on record; each is
/// a write to the command address whose byte has the reserved bits that the
/// shadow had at the start; and the shadow at the end has them too.
pub proof fn lemma_configure_all_keeps_reserved<E>(
    state: State<E>,
    steps: Seq<(Operation, Result<(), E>)>,
)
    ensures
        state.configure_all(steps).shadow & RESERVED == state.shadow & RESERVED,
        state.configure_all(steps).traffic.len() == state.traffic.len() + steps.len(),
        state.configure_all(steps).traffic.take(state.traffic.len() as int) == state.traffic,
        forall|i: int|
            state.traffic.len() <= i < state.traffic.len() + steps.len() ==> sends_keeping_reserved(
                #[trigger] state.configure_all(steps).traffic[i],
                state.shadow,
            ),
    decreases steps.len(),
{
    let after = state.configure_all(steps);
    if steps.len() == 0 {
        assert(state.traffic.take(state.traffic.len() as int) == state.traffic);
    } else {
        let before = state.configure_all(steps.drop_last());
        let op = steps.last().0;
        lemma_configure_all_keeps_reserved(state, steps.drop_last());
        lemma_configure_sends_masked_update(before, op, steps.last().1);
        assert(after.traffic.take(state.traffic.len() as int) == before.traffic.take(
            state.traffic.len() as int,
        ));
        assert forall|i: int|
            state.traffic.len() <= i < state.traffic.len() + steps.len() implies sends_keeping_reserved(
            #[trigger] after.traffic[i],
            state.shadow,
        ) by {
            if i < before.traffic.len() {
                assert(after.traffic[i] == before.traffic[i]);
            }
        }
    }
}

/// In a sequence of attempted operations, the transfer made by each step is
/// a write to the command address of that step's operation applied to the
/// shadow that the steps before it left behind.
pub proof fn lemma_configure_all_sends_each_update<E>(
    state: State<E>,
    steps: Seq<(Operation, Result<(), E>)>,
    i: int,
)
    requires
        0 <= i < steps.len(),
    ensures
        state.configure_all(steps).traffic[state.traffic.len() + i] == Transfer::byte_written(
            COMMAND,
            steps[i].0.apply(state.configure_all(steps.take(i)).shadow),
            steps[i].1,
        ),
    decreases steps.len(),
{
    let before = state.configure_all(steps.drop_last());
    lemma_configure_all_keeps_reserved(state, steps.drop_last());
    if i == steps.len() - 1 {
        assert(steps.take(i) == steps.drop_last());
    } else {
        lemma_configure_all_sends_each_update(state, steps.drop_last(), i);
        assert(steps.drop_last().take(i) == steps.take(i));
    }
}

/// Clearing an acknowledge succeeds whenever its read does, whatever byte
/// was received, after exactly one read of the alert-response address.
pub proof fn lemma_clear_ack_ignores_payload<E>(state: State<E>, payload: u8)
    ensures
        reported(discard(Ok::<u8, E>(payload))) == Ok::<(), Error<E>>(()),
        state.after_read(ARA, Ok(payload)).traffic == state.traffic.push(
            Transfer::byte_read(ARA, Ok(payload)),
        ),
        state.after_read(ARA, Ok(payload)).shadow == state.shadow,
{
}

/// Over any sequence of attempted operations the shadow stays what the device
/// was last told.
pub proof fn lemma_configure_all_keeps_consistent<E>(
    state: State<E>,
    steps: Seq<(Operation, Result<(), E>)>,
)
    requires
        state.consistent(),
    ensures
        state.configure_all(steps).consistent(),
    decreases steps.len(),
{
    if steps.len() > 0 {
        let before = state.configure_all(steps.drop_last());
        lemma_configure_all_keeps_consistent(state, steps.drop_last());
        lemma_write_keeps_consistent(before, steps.last().0.apply(before.shadow), steps.last().1);
    }
}

/// A driver that has made no transfer is consistent: its shadow is the
/// power-on default, which was never sent.
pub proof fn lemma_initial_consistent<E>()
    ensures
        State::<E>::initial().consistent(),
        State::<E>::initial().shadow == DEFAULT_COMMAND,
        State::<E>::initial().traffic.len() == 0,
{
}

} // verus!
