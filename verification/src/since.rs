//! The `since` lock field of a layer-1 input, as far as submissions use it:
//! an absolute lock by timestamp, in whole seconds of unix time.

use vstd::prelude::*;

verus! {

/// Set when the lock is relative to the input's own block.
pub const LOCK_TYPE_FLAG: u64 = 0x8000_0000_0000_0000;

/// The two bits that select what the value counts.
pub const METRIC_TYPE_FLAG_MASK: u64 = 0x6000_0000_0000_0000;

/// The low 56 bits, which hold the value.
pub const VALUE_MASK: u64 = 0x00ff_ffff_ffff_ffff;

/// Metric bits of a lock by block number.
pub const LOCK_BY_BLOCK_NUMBER_MASK: u64 = 0x0000_0000_0000_0000;

/// Metric bits of a lock by epoch.
pub const LOCK_BY_EPOCH_MASK: u64 = 0x2000_0000_0000_0000;

/// Metric bits of a lock by timestamp.
pub const LOCK_BY_TIMESTAMP_MASK: u64 = 0x4000_0000_0000_0000;

/// Largest block timestamp, in milliseconds, whose `since` still fits 64 bits
/// when it is read back in milliseconds.
pub const MAX_TIMESTAMP_MILLIS: u64 = 18_446_744_073_709_550_999;

/// What a `since` value locks on, decoded.
#[derive(Clone, Copy, Debug, PartialEq, Eq)]
pub enum LockValue {
    BlockNumber(u64),
    EpochNumberWithFraction(u64),
    /// Milliseconds of unix time.
    Timestamp(u64),
}

impl LockValue {
    /// The timestamp in milliseconds, if this is a lock by timestamp.
    pub fn timestamp(&self) -> (r: Option<u64>)
        ensures
            r == match *self {
                LockValue::Timestamp(ms) => Some(ms),
                _ => None::<u64>,
            },
    {
        match self {
            LockValue::Timestamp(ms) => Some(*ms),
            _ => None,
        }
    }

    /// The block number, if this is a lock by block number.
    pub fn block_number(&self) -> (r: Option<u64>)
        ensures
            r == match *self {
                LockValue::BlockNumber(n) => Some(n),
                _ => None::<u64>,
            },
    {
        match self {
            LockValue::BlockNumber(n) => Some(*n),
            _ => None,
        }
    }
}

/// A raw 64-bit `since` field.
#[derive(Clone, Copy, Debug, PartialEq, Eq)]
pub struct Since(pub u64);

/// The metric bits of a raw field.
pub open spec fn metric_of(raw: u64) -> u64 {
    raw & METRIC_TYPE_FLAG_MASK
}

/// The value bits of a raw field.
pub open spec fn value_of(raw: u64) -> u64 {
    raw & VALUE_MASK
}

/// The raw field of an absolute lock by timestamp at `seconds`.
pub open spec fn timestamp_field(seconds: u64) -> u64 {
    LOCK_BY_TIMESTAMP_MASK | seconds
}

/// The `since` seconds chosen for a block stamped `timestamp_millis`.
pub open spec fn since_seconds(timestamp_millis: u64) -> int {
    timestamp_millis as int / 1000 + 1
}

impl Since {
    /// True if the field is an absolute lock by timestamp.
    pub open spec fn is_absolute_timestamp(self) -> bool {
        &&& self.0 & LOCK_TYPE_FLAG == 0
        &&& metric_of(self.0) == LOCK_BY_TIMESTAMP_MASK
    }

    /// The timestamp in milliseconds that the field stands for.
    pub open spec fn timestamp_ms(self) -> int {
        value_of(self.0) as int * 1000
    }

    /// What `extract_lock_value` decodes, with the timestamp unbounded.
    pub open spec fn lock_value(self) -> Option<LockValue> {
        let value = value_of(self.0);
        let metric = metric_of(self.0);
        if metric == LOCK_BY_BLOCK_NUMBER_MASK {
            Some(LockValue::BlockNumber(value))
        } else if metric == LOCK_BY_EPOCH_MASK {
            Some(LockValue::EpochNumberWithFraction(value))
        } else if metric == LOCK_BY_TIMESTAMP_MASK {
            Some(LockValue::Timestamp((value * 1000) as u64))
        } else {
            None
        }
    }

    pub fn new(raw: u64) -> (r: Since)
        ensures
            r.0 == raw,
    {
        Since(raw)
    }

    /// An absolute lock until `seconds` of unix time.
    pub fn new_timestamp_seconds(seconds: u64) -> (r: Since)
        requires
            seconds <= VALUE_MASK,
        ensures
            r.0 == timestamp_field(seconds),
            r.is_absolute_timestamp(),
            value_of(r.0) == seconds,
            r.timestamp_ms() == seconds * 1000,
    {
        let raw: u64 = LOCK_BY_TIMESTAMP_MASK | seconds;
        proof {
            lemma_timestamp_field(seconds);
        }
        Since(raw)
    }

    pub fn as_u64(self) -> (r: u64)
        ensures
            r == self.0,
    {
        self.0
    }

    pub fn is_relative(self) -> (r: bool)
        ensures
            r == (self.0 & LOCK_TYPE_FLAG != 0),
    {
        self.0 & LOCK_TYPE_FLAG != 0
    }

    pub fn is_absolute(self) -> (r: bool)
        ensures
            r == (self.0 & LOCK_TYPE_FLAG == 0),
    {
        self.0 & LOCK_TYPE_FLAG == 0
    }

    /// Decodes the metric and the value. A timestamp comes out in
    /// milliseconds, so its seconds times 1000 must fit 64 bits.
    pub fn extract_lock_value(self) -> (r: Option<LockValue>)
        requires
            metric_of(self.0) == LOCK_BY_TIMESTAMP_MASK ==> self.timestamp_ms() <= u64::MAX,
        ensures
            r == self.lock_value(),
            metric_of(self.0) == LOCK_BY_TIMESTAMP_MASK ==> r == Some(
                LockValue::Timestamp(self.timestamp_ms() as u64),
            ),
    {
        let value: u64 = self.0 & VALUE_MASK;
        let metric: u64 = self.0 & METRIC_TYPE_FLAG_MASK;
        if metric == LOCK_BY_BLOCK_NUMBER_MASK {
            Some(LockValue::BlockNumber(value))
        } else if metric == LOCK_BY_EPOCH_MASK {
            Some(LockValue::EpochNumberWithFraction(value))
        } else if metric == LOCK_BY_TIMESTAMP_MASK {
            Some(LockValue::Timestamp(value * 1000))
        } else {
            None
        }
    }
}

/// Setting the timestamp metric on a value of at most 56 bits changes neither
/// the value nor any other flag.
pub proof fn lemma_timestamp_field(seconds: u64)
    requires
        seconds <= VALUE_MASK,
    ensures
        value_of(timestamp_field(seconds)) == seconds,
        metric_of(timestamp_field(seconds)) == LOCK_BY_TIMESTAMP_MASK,
        timestamp_field(seconds) & LOCK_TYPE_FLAG == 0,
{
    assert(seconds <= 0x00ff_ffff_ffff_ffffu64 ==> (0x4000_0000_0000_0000u64 | seconds)
        & 0x00ff_ffff_ffff_ffffu64 == seconds) by (bit_vector);
    assert(seconds <= 0x00ff_ffff_ffff_ffffu64 ==> (0x4000_0000_0000_0000u64 | seconds)
        & 0x6000_0000_0000_0000u64 == 0x4000_0000_0000_0000u64) by (bit_vector);
    assert(seconds <= 0x00ff_ffff_ffff_ffffu64 ==> (0x4000_0000_0000_0000u64 | seconds)
        & 0x8000_0000_0000_0000u64 == 0) by (bit_vector);
}

/// The `since` of a block stamped `timestamp_millis`: an absolute lock until
/// the next whole second after it.
pub open spec fn greater_since_spec(timestamp_millis: u64) -> Since {
    Since(timestamp_field((timestamp_millis / 1000 + 1) as u64))
}

/// A `since` whose timestamp is later than `timestamp_millis`: the next whole
/// second after it.
pub fn greater_since(timestamp_millis: u64) -> (r: Since)
    ensures
        r == greater_since_spec(timestamp_millis),
        r.is_absolute_timestamp(),
        value_of(r.0) == since_seconds(timestamp_millis),
        r.timestamp_ms() == since_seconds(timestamp_millis) * 1000,
        timestamp_millis < r.timestamp_ms() <= timestamp_millis + 1000,
        timestamp_millis <= MAX_TIMESTAMP_MILLIS ==> r.timestamp_ms() <= u64::MAX,
{
    Since::new_timestamp_seconds(timestamp_millis / 1000 + 1)
}

/// The `since` of a block lies after the block's own timestamp by at least one
/// millisecond and at most a second.
pub proof fn lemma_greater_since_window(timestamp_millis: u64)
    ensures
        1 <= since_seconds(timestamp_millis) * 1000 - timestamp_millis <= 1000,
        since_seconds(timestamp_millis) <= VALUE_MASK,
        timestamp_millis <= MAX_TIMESTAMP_MILLIS <==> since_seconds(timestamp_millis) * 1000
            <= u64::MAX,
{
}

} // verus!
