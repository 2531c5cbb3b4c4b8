//! The command register: one configuration byte, its fields, and the masked
//! updates that change one field without disturbing the others.
//!
//! | bit  | field                                             |
//! |------|---------------------------------------------------|
//! | 0    | shutdown (1 = sensor disabled)                    |
//! | 1    | reserved                                          |
//! | 2..3 | integration time                                  |
//! | 4    | acknowledge threshold (0 = 102 steps, 1 = 145)    |
//! | 5    | acknowledge enable                                |
//! | 6..7 | reserved                                          |

use vstd::prelude::*;

verus! {

/// Shutdown bit: set while the sensor is disabled.
pub const SHUTDOWN: u8 = 0b0000_0001;

/// Low bit of the integration-time field.
pub const IT0: u8 = 0b0000_0100;

/// High bit of the integration-time field.
pub const IT1: u8 = 0b0000_1000;

/// Both bits of the integration-time field.
pub const IT_MASK: u8 = 0b0000_1100;

/// Acknowledge-threshold bit: clear for 102 steps, set for 145 steps.
pub const ACK_THD: u8 = 0b0001_0000;

/// Acknowledge-enable bit.
pub const ACK: u8 = 0b0010_0000;

/// The bits that no operation of the driver may change.
pub const RESERVED: u8 = 0b1100_0010;

/// The command byte that the driver takes the device to hold at power-on:
/// reserved bit 1 set, every field clear.
pub const DEFAULT_COMMAND: u8 = 0x02;

/// Integration time
#[derive(Debug, Clone, Copy)]
pub enum IntegrationTime {
    /// Half T
    HalfT,
    /// 1 T
    T1,
    /// 2 T
    T2,
    /// 4 T
    T4,
}

/// ACK threshold
#[derive(Debug, Clone, Copy)]
pub enum AckThreshold {
    /// 102 steps
    Steps102,
    /// 145 steps
    Steps145,
}

impl IntegrationTime {
    /// The two-bit code of this integration time, 0 to 3.
    pub open spec fn code(self) -> u8 {
        match self {
            IntegrationTime::HalfT => 0,
            IntegrationTime::T1 => 1,
            IntegrationTime::T2 => 2,
            IntegrationTime::T4 => 3,
        }
    }

    /// The code placed in the register's bits 2 and 3.
    pub open spec fn field(self) -> u8 {
        match self {
            IntegrationTime::HalfT => 0,
            IntegrationTime::T1 => IT0,
            IntegrationTime::T2 => IT1,
            IntegrationTime::T4 => IT_MASK,
        }
    }

    /// The integration-time field of the register for this time.
    pub fn field_bits(&self) -> (bits: u8)
        ensures
            bits == self.field(),
            bits == self.code() << 2,
            bits & !IT_MASK == 0,
    {
        let bits: u8 = match self {
            IntegrationTime::HalfT => 0,
            IntegrationTime::T1 => IT0,
            IntegrationTime::T2 => IT1,
            IntegrationTime::T4 => IT0 | IT1,
        };
        proof {
            lemma_integration_time_field(*self);
            assert(IT0 | IT1 == IT_MASK) by (bit_vector);
        }
        bits
    }
}

impl AckThreshold {
    /// The threshold placed in the register's bit 4.
    pub open spec fn field(self) -> u8 {
        match self {
            AckThreshold::Steps102 => 0,
            AckThreshold::Steps145 => ACK_THD,
        }
    }
}

/// A change of configuration: which field it targets and what it puts there.
pub enum Operation {
    /// Clear the shutdown bit.
    Enable,
    /// Set the shutdown bit.
    Disable,
    /// Replace the integration-time field.
    SetIntegrationTime(IntegrationTime),
    /// Set the acknowledge-enable bit.
    EnableAck,
    /// Clear the acknowledge-enable bit.
    DisableAck,
    /// Replace the acknowledge-threshold bit.
    SetAckThreshold(AckThreshold),
    /// Set the acknowledge-enable bit and replace the threshold bit at once.
    EnableAckWithThreshold(AckThreshold),
}

impl Operation {
    /// The bits that this operation targets.
    pub open spec fn mask(self) -> u8 {
        match self {
            Operation::Enable | Operation::Disable => SHUTDOWN,
            Operation::SetIntegrationTime(_) => IT_MASK,
            Operation::EnableAck | Operation::DisableAck => ACK,
            Operation::SetAckThreshold(_) => ACK_THD,
            Operation::EnableAckWithThreshold(_) => ACK | ACK_THD,
        }
    }

    /// What the targeted bits hold afterwards.
    pub open spec fn bits(self) -> u8 {
        match self {
            Operation::Enable => 0,
            Operation::Disable => SHUTDOWN,
            Operation::SetIntegrationTime(it) => it.field(),
            Operation::EnableAck => ACK,
            Operation::DisableAck => 0,
            Operation::SetAckThreshold(threshold) => threshold.field(),
            Operation::EnableAckWithThreshold(threshold) => ACK | threshold.field(),
        }
    }

    /// The command byte that results from `cmd`: the targeted bits replaced,
    /// every other bit as it was.
    pub open spec fn apply(self, cmd: u8) -> u8 {
        (cmd & !self.mask()) | self.bits()
    }
}

/// The field of an integration time is its code shifted to bit 2, and lies
/// within the field's mask.
pub proof fn lemma_integration_time_field(it: IntegrationTime)
    ensures
        it.field() == it.code() << 2,
        it.field() & !IT_MASK == 0,
        it.field() >> 2 == it.code(),
{
    assert(0u8 == 0u8 << 2 && 0u8 & !IT_MASK == 0 && 0u8 >> 2 == 0) by (bit_vector);
    assert(IT0 == 1u8 << 2 && IT0 & !IT_MASK == 0 && IT0 >> 2 == 1) by (bit_vector);
    assert(IT1 == 2u8 << 2 && IT1 & !IT_MASK == 0 && IT1 >> 2 == 2) by (bit_vector);
    assert(IT_MASK == 3u8 << 2 && IT_MASK & !IT_MASK == 0 && IT_MASK >> 2 == 3) by (bit_vector);
}

/// A masked update puts `bits` into the masked positions and keeps the rest.
pub proof fn lemma_masked_update(cmd: u8, mask: u8, bits: u8)
    by (bit_vector)
    requires
        bits & !mask == 0,
    ensures
        ((cmd & !mask) | bits) & mask == bits,
        ((cmd & !mask) | bits) & !mask == cmd & !mask,
{
}

/// What an operation puts into its field lies within that field, and no
/// operation targets a reserved bit.
pub proof fn lemma_operation_fields(op: Operation)
    ensures
        op.bits() & !op.mask() == 0,
        op.mask() & RESERVED == 0,
{
    assert(0u8 & !SHUTDOWN == 0 && SHUTDOWN & !SHUTDOWN == 0 && SHUTDOWN & RESERVED == 0)
        by (bit_vector);
    assert(0u8 & !IT_MASK == 0 && IT0 & !IT_MASK == 0 && IT1 & !IT_MASK == 0 && IT_MASK & !IT_MASK
        == 0 && IT_MASK & RESERVED == 0) by (bit_vector);
    assert(0u8 & !ACK == 0 && ACK & !ACK == 0 && ACK & RESERVED == 0) by (bit_vector);
    assert(0u8 & !ACK_THD == 0 && ACK_THD & !ACK_THD == 0 && ACK_THD & RESERVED == 0)
        by (bit_vector);
    assert((ACK | 0u8) & !(ACK | ACK_THD) == 0 && (ACK | ACK_THD) & !(ACK | ACK_THD) == 0 && (ACK
        | ACK_THD) & RESERVED == 0) by (bit_vector);
}

/// Every operation changes exactly the bits that it targets: afterwards they
/// hold the operation's value, and every other bit is as it was.
pub proof fn lemma_apply_changes_target_only(op: Operation, cmd: u8)
    ensures
        op.apply(cmd) & op.mask() == op.bits(),
        op.apply(cmd) & !op.mask() == cmd & !op.mask(),
{
    lemma_operation_fields(op);
    lemma_masked_update(cmd, op.mask(), op.bits());
}

/// No operation changes a reserved bit (bits 1, 6 and 7).
pub proof fn lemma_apply_keeps_reserved(op: Operation, cmd: u8)
    ensures
        op.apply(cmd) & RESERVED == cmd & RESERVED,
{
    lemma_operation_fields(op);
    let mask = op.mask();
    let bits = op.bits();
    assert(((cmd & !mask) | bits) & RESERVED == cmd & RESERVED) by (bit_vector)
        requires
            bits & !mask == 0,
            mask & RESERVED == 0,
    ;
}

/// Applying the same operation twice gives what applying it once gives.
pub proof fn lemma_apply_idempotent(op: Operation, cmd: u8)
    ensures
        op.apply(op.apply(cmd)) == op.apply(cmd),
{
    let mask = op.mask();
    let bits = op.bits();
    assert(((((cmd & !mask) | bits) & !mask) | bits) == ((cmd & !mask) | bits)) by (bit_vector);
}

/// Arming the acknowledge with a threshold in one step gives the byte that
/// enabling the acknowledge and then setting the threshold would give.
pub proof fn lemma_combined_ack_is_both(threshold: AckThreshold, cmd: u8)
    ensures
        Operation::EnableAckWithThreshold(threshold).apply(cmd) == Operation::SetAckThreshold(
            threshold,
        ).apply(Operation::EnableAck.apply(cmd)),
{
    assert(((cmd & !(ACK | ACK_THD)) | (ACK | 0u8)) == ((((cmd & !ACK) | ACK) & !ACK_THD) | 0u8))
        by (bit_vector);
    assert(((cmd & !(ACK | ACK_THD)) | (ACK | ACK_THD)) == ((((cmd & !ACK) | ACK) & !ACK_THD)
        | ACK_THD)) by (bit_vector);
}

/// The command byte with the shutdown bit cleared.
pub fn enabled(cmd: u8) -> (byte: u8)
    ensures
        byte == Operation::Enable.apply(cmd),
        byte == cmd & !SHUTDOWN,
{
    let byte: u8 = cmd & !SHUTDOWN;
    assert(cmd & !SHUTDOWN == (cmd & !SHUTDOWN) | 0u8) by (bit_vector);
    byte
}

/// The command byte with the shutdown bit set.
pub fn disabled(cmd: u8) -> (byte: u8)
    ensures
        byte == Operation::Disable.apply(cmd),
        byte == cmd | SHUTDOWN,
{
    let byte: u8 = cmd | SHUTDOWN;
    assert(cmd | SHUTDOWN == (cmd & !SHUTDOWN) | SHUTDOWN) by (bit_vector);
    byte
}

/// The command byte with the integration-time field replaced by that of `it`.
pub fn with_integration_time(cmd: u8, it: IntegrationTime) -> (byte: u8)
    ensures
        byte == Operation::SetIntegrationTime(it).apply(cmd),
        byte & IT_MASK == it.code() << 2,
        byte & !IT_MASK == cmd & !IT_MASK,
{
    let byte: u8 = (cmd & !IT_MASK) | it.field_bits();
    proof {
        lemma_apply_changes_target_only(Operation::SetIntegrationTime(it), cmd);
    }
    byte
}

/// The command byte with the acknowledge-enable bit set.
pub fn ack_enabled(cmd: u8) -> (byte: u8)
    ensures
        byte == Operation::EnableAck.apply(cmd),
        byte == cmd | ACK,
{
    let byte: u8 = cmd | ACK;
    assert(cmd | ACK == (cmd & !ACK) | ACK) by (bit_vector);
    byte
}

/// The command byte with the acknowledge-enable bit cleared.
pub fn ack_disabled(cmd: u8) -> (byte: u8)
    ensures
        byte == Operation::DisableAck.apply(cmd),
        byte == cmd & !ACK,
{
    let byte: u8 = cmd & !ACK;
    assert(cmd & !ACK == (cmd & !ACK) | 0u8) by (bit_vector);
    byte
}

/// The command byte with the acknowledge-threshold bit set for 145 steps and
/// cleared for 102 steps.
pub fn handle_ack_threshold_bit(cmd: u8, threshold: AckThreshold) -> (byte: u8)
    ensures
        byte == Operation::SetAckThreshold(threshold).apply(cmd),
        byte & !ACK_THD == cmd & !ACK_THD,
        byte & ACK_THD == threshold.field(),
{
    let byte: u8 = match threshold {
        AckThreshold::Steps102 => cmd & !ACK_THD,
        AckThreshold::Steps145 => cmd | ACK_THD,
    };
    proof {
        assert(cmd & !ACK_THD == (cmd & !ACK_THD) | 0u8) by (bit_vector);
        assert(cmd | ACK_THD == (cmd & !ACK_THD) | ACK_THD) by (bit_vector);
        lemma_apply_changes_target_only(Operation::SetAckThreshold(threshold), cmd);
    }
    byte
}

/// The command byte with the acknowledge-enable bit set and the threshold bit
/// as `threshold` asks.
pub fn ack_enabled_with_threshold(cmd: u8, threshold: AckThreshold) -> (byte: u8)
    ensures
        byte == Operation::EnableAckWithThreshold(threshold).apply(cmd),
        byte & ACK == ACK,
        byte & ACK_THD == threshold.field(),
        byte & !(ACK | ACK_THD) == cmd & !(ACK | ACK_THD),
{
    let byte: u8 = handle_ack_threshold_bit(cmd | ACK, threshold);
    proof {
        assert(cmd | ACK == (cmd & !ACK) | ACK) by (bit_vector);
        lemma_combined_ack_is_both(threshold, cmd);
        lemma_apply_changes_target_only(Operation::EnableAckWithThreshold(threshold), cmd);
        let field = threshold.field();
        assert(byte & ACK == ACK && byte & ACK_THD == field) by (bit_vector)
            requires
                byte & (ACK | ACK_THD) == ACK | field,
                field == 0 || field == ACK_THD,
        ;
    }
    byte
}

/// The 16-bit reading made of its two bytes, the most significant first.
pub open spec fn uv_count(msb: u8, lsb: u8) -> u16 {
    (msb as u16) << 8 | (lsb as u16)
}

/// Assembles a UV reading from the two data bytes of the sensor.
pub fn assemble_reading(msb: u8, lsb: u8) -> (count: u16)
    ensures
        count == uv_count(msb, lsb),
        count == msb * 256 + lsb,
{
    let count: u16 = (msb as u16) << 8 | (lsb as u16);
    assert(((msb as u16) << 8 | (lsb as u16)) == (msb as u16) * 256 + (lsb as u16)) by (bit_vector);
    count
}

} // verus!
