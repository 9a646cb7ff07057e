use vstd::prelude::*;

use crate::serial_config::{BaudRate, DataBits, Parity, SerialSettings};
use crate::transport::{BackoffStrategy, JitterStrategy, SerialMode};

verus! {

/// Backoff strategy selector for retry logic.
#[derive(Debug, Clone, Copy, PartialEq, Eq, Structural)]
pub enum MbusBackoffStrategy {
    /// Retry immediately with no delay.
    MbusBackoffImmediate,
    /// Retry after a fixed delay (`backoff_base_delay_ms`).
    MbusBackoffFixed,
    /// Retry with exponentially increasing delay, capped at `backoff_max_delay_ms`.
    MbusBackoffExponential,
    /// Retry with linearly increasing delay, capped at `backoff_max_delay_ms`.
    MbusBackoffLinear,
}

/// Serial framing mode selector.
#[derive(Debug, Clone, Copy, PartialEq, Eq, Structural)]
pub enum MbusSerialMode {
    /// Modbus RTU binary framing with CRC-16.
    MbusSerialRtu,
    /// Modbus ASCII framing with LRC.
    MbusSerialAscii,
}

/// The retry schedule that a selector and its two delays describe.
pub open spec fn spec_map_backoff(strategy: MbusBackoffStrategy, base: u32, max: u32) -> BackoffStrategy {
    match strategy {
        MbusBackoffStrategy::MbusBackoffImmediate => BackoffStrategy::Immediate,
        MbusBackoffStrategy::MbusBackoffFixed => BackoffStrategy::Fixed { delay_ms: base },
        MbusBackoffStrategy::MbusBackoffExponential => BackoffStrategy::Exponential {
            base_delay_ms: base,
            max_delay_ms: max,
        },
        MbusBackoffStrategy::MbusBackoffLinear => BackoffStrategy::Linear {
            initial_delay_ms: base,
            increment_ms: base,
            max_delay_ms: max,
        },
    }
}

/// Builds the retry schedule from a selector, a base delay and a cap; the
/// linear schedule grows by the base delay.
pub fn map_backoff(strategy: MbusBackoffStrategy, base: u32, max: u32) -> (r: BackoffStrategy)
    ensures
        r == spec_map_backoff(strategy, base, max),
{
    match strategy {
        MbusBackoffStrategy::MbusBackoffImmediate => BackoffStrategy::Immediate,
        MbusBackoffStrategy::MbusBackoffFixed => BackoffStrategy::Fixed { delay_ms: base },
        MbusBackoffStrategy::MbusBackoffExponential => BackoffStrategy::Exponential {
            base_delay_ms: base,
            max_delay_ms: max,
        },
        MbusBackoffStrategy::MbusBackoffLinear => BackoffStrategy::Linear {
            initial_delay_ms: base,
            increment_ms: base,
            max_delay_ms: max,
        },
    }
}

/// Builds the jitter setting: none for 0 percent, a percentage otherwise.
pub fn map_jitter(percent: u8) -> (r: JitterStrategy)
    ensures
        r == (if percent == 0 {
            JitterStrategy::Disabled
        } else {
            JitterStrategy::Percentage { percent }
        }),
{
    if percent == 0 {
        JitterStrategy::Disabled
    } else {
        JitterStrategy::Percentage { percent }
    }
}

/// The serial framing mode that a selector names.
pub fn serial_mode_from_c(mode: MbusSerialMode) -> (r: SerialMode)
    ensures
        r == (match mode {
            MbusSerialMode::MbusSerialRtu => SerialMode::Rtu,
            MbusSerialMode::MbusSerialAscii => SerialMode::Ascii,
        }),
{
    match mode {
        MbusSerialMode::MbusSerialRtu => SerialMode::Rtu,
        MbusSerialMode::MbusSerialAscii => SerialMode::Ascii,
    }
}

/// The line settings of a serial client created through the C interface:
/// the selected mode and the given rate taken as it is, eight data bits,
/// no parity, one stop bit.
pub fn serial_settings_from_c(mode: MbusSerialMode, baud_rate: u32) -> (r: SerialSettings)
    ensures
        r.mode == (match mode {
            MbusSerialMode::MbusSerialRtu => SerialMode::Rtu,
            MbusSerialMode::MbusSerialAscii => SerialMode::Ascii,
        }),
        r.baud_rate == BaudRate::Custom(baud_rate),
        r.data_bits == DataBits::Eight,
        r.parity == Parity::NoParity,
        r.stop_bits == 1,
{
    SerialSettings {
        mode: serial_mode_from_c(mode),
        parity: Parity::NoParity,
        data_bits: DataBits::Eight,
        stop_bits: 1,
        baud_rate: BaudRate::Custom(baud_rate),
    }
}

} // verus!
