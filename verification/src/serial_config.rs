//! Serial line settings and the decoding of their textual and numeric forms.

use vstd::prelude::*;
use vstd::string::StringSliceAdditionalSpecFns;

use crate::transport::{SerialMode, TransportError};

verus! {

/// Parity of a serial line.
#[derive(Debug, Clone, Copy, PartialEq, Eq, Structural)]
pub enum Parity {
    /// No parity bit.
    NoParity,
    /// Even parity.
    Even,
    /// Odd parity.
    Odd,
}

/// Number of data bits per character.
#[derive(Debug, Clone, Copy, PartialEq, Eq, Structural)]
pub enum DataBits {
    /// Five data bits.
    Five,
    /// Six data bits.
    Six,
    /// Seven data bits.
    Seven,
    /// Eight data bits.
    Eight,
}

/// Baud rate of a serial line.
#[derive(Debug, Clone, Copy, PartialEq, Eq, Structural)]
pub enum BaudRate {
    /// 9600 baud.
    Baud9600,
    /// 19200 baud.
    Baud19200,
    /// Any other rate.
    Custom(u32),
}

/// The ASCII lower-case form of a byte; other bytes are unchanged.
pub open spec fn ascii_lower(b: u8) -> u8 {
    if 0x41 <= b <= 0x5A {
        (b + 0x20) as u8
    } else {
        b
    }
}

/// Whether `s`, lower-cased in ASCII, is exactly `word`.
pub open spec fn lower_is(s: Seq<u8>, word: Seq<u8>) -> bool {
    s.len() == word.len() && forall|i: int| 0 <= i < s.len() ==> #[trigger] ascii_lower(s[i]) == word[i]
}

/// Whether `s`, lower-cased in ASCII, is exactly `word`.
fn bytes_lower_is(s: &[u8], word: &[u8]) -> (r: bool)
    ensures
        r == lower_is(s@, word@),
{
    if s.len() != word.len() {
        return false;
    }
    let mut i: usize = 0;
    while i < s.len()
        invariant
            i <= s@.len(),
            s@.len() == word@.len(),
            forall|j: int| 0 <= j < i ==> #[trigger] ascii_lower(s@[j]) == word@[j],
        decreases s@.len() - i,
    {
        let b = s[i];
        let lower = if b >= 0x41 && b <= 0x5A {
            b + 0x20
        } else {
            b
        };
        assert(lower == ascii_lower(s@[i as int]));
        if lower != word[i] {
            assert(!lower_is(s@, word@));
            return false;
        }
        i = i + 1;
    }
    true
}

/// The bytes of the word `rtu`.
pub open spec fn word_rtu() -> Seq<u8> {
    seq![0x72u8, 0x74u8, 0x75u8]
}

/// The bytes of the word `ascii`.
pub open spec fn word_ascii() -> Seq<u8> {
    seq![0x61u8, 0x73u8, 0x63u8, 0x69u8, 0x69u8]
}

/// The bytes of the word `none`.
pub open spec fn word_none() -> Seq<u8> {
    seq![0x6Eu8, 0x6Fu8, 0x6Eu8, 0x65u8]
}

/// The bytes of the word `even`.
pub open spec fn word_even() -> Seq<u8> {
    seq![0x65u8, 0x76u8, 0x65u8, 0x6Eu8]
}

/// The bytes of the word `odd`.
pub open spec fn word_odd() -> Seq<u8> {
    seq![0x6Fu8, 0x64u8, 0x64u8]
}

/// The serial mode named by `mode`, ignoring ASCII case: `rtu` or `ascii`.
pub fn serial_mode_from_name(mode: &str) -> (r: Option<SerialMode>)
    ensures
        r == serial_mode_named(mode.spec_bytes()),
{
    let bytes = mode.as_bytes();
    let rtu: [u8; 3] = [0x72, 0x74, 0x75];
    let ascii: [u8; 5] = [0x61, 0x73, 0x63, 0x69, 0x69];
    assert(rtu@ =~= word_rtu());
    assert(ascii@ =~= word_ascii());
    if bytes_lower_is(bytes, rtu.as_slice()) {
        Some(SerialMode::Rtu)
    } else if bytes_lower_is(bytes, ascii.as_slice()) {
        Some(SerialMode::Ascii)
    } else {
        None
    }
}

/// The parity named by `parity`, ignoring ASCII case: `none`, `even` or `odd`.
pub fn parity_from_name(parity: &str) -> (r: Option<Parity>)
    ensures
        r == parity_named(parity.spec_bytes()),
{
    let bytes = parity.as_bytes();
    let none: [u8; 4] = [0x6E, 0x6F, 0x6E, 0x65];
    let even: [u8; 4] = [0x65, 0x76, 0x65, 0x6E];
    let odd: [u8; 3] = [0x6F, 0x64, 0x64];
    assert(none@ =~= word_none());
    assert(even@ =~= word_even());
    assert(odd@ =~= word_odd());
    if bytes_lower_is(bytes, none.as_slice()) {
        Some(Parity::NoParity)
    } else if bytes_lower_is(bytes, even.as_slice()) {
        Some(Parity::Even)
    } else if bytes_lower_is(bytes, odd.as_slice()) {
        Some(Parity::Odd)
    } else {
        None
    }
}

/// The data-bit setting for 5 to 8 bits; `None` for any other count.
pub fn data_bits_from_u8(bits: u8) -> (r: Option<DataBits>)
    ensures
        r == data_bits_of(bits),
{
    if bits == 5 {
        Some(DataBits::Five)
    } else if bits == 6 {
        Some(DataBits::Six)
    } else if bits == 7 {
        Some(DataBits::Seven)
    } else if bits == 8 {
        Some(DataBits::Eight)
    } else {
        None
    }
}

/// The numeric rate of a baud-rate setting.
pub open spec fn spec_baud_value(b: BaudRate) -> u32 {
    match b {
        BaudRate::Baud9600 => 9600,
        BaudRate::Baud19200 => 19200,
        BaudRate::Custom(rate) => rate,
    }
}

/// The baud-rate setting for a numeric rate: the two standard rates get
/// their own variants.
pub fn baud_rate_from_u32(rate: u32) -> (r: BaudRate)
    ensures
        r == baud_rate_of(rate),
        spec_baud_value(r) == rate,
{
    if rate == 9600 {
        BaudRate::Baud9600
    } else if rate == 19200 {
        BaudRate::Baud19200
    } else {
        BaudRate::Custom(rate)
    }
}

/// The numeric rate of a baud-rate setting.
pub fn baud_rate_value(b: BaudRate) -> (r: u32)
    ensures
        r == spec_baud_value(b),
{
    match b {
        BaudRate::Baud9600 => 9600,
        BaudRate::Baud19200 => 19200,
        BaudRate::Custom(rate) => rate,
    }
}

/// The settings a browser serial client is created with.
#[derive(Debug, Clone, Copy, PartialEq, Eq, Structural)]
pub struct SerialSettings {
    /// Framing mode.
    pub mode: SerialMode,
    /// Parity.
    pub parity: Parity,
    /// Data bits per character.
    pub data_bits: DataBits,
    /// Stop bits per character.
    pub stop_bits: u8,
    /// Baud rate.
    pub baud_rate: BaudRate,
}

/// Why textual or numeric serial settings were refused.
#[derive(Debug, Clone, Copy, PartialEq, Eq, Structural)]
pub enum SerialSettingsError {
    /// The mode is neither `rtu` nor `ascii`.
    BadMode,
    /// The parity is not `none`, `even` or `odd`.
    BadParity,
    /// The data bits are not 5, 6, 7 or 8.
    BadDataBits,
}

impl SerialSettingsError {
    /// The message shown to the caller.
    pub fn message(&self) -> (r: &'static str)
        ensures
            r@ == (match *self {
                SerialSettingsError::BadMode => "mode must be 'rtu' or 'ascii'"@,
                SerialSettingsError::BadParity => "parity must be 'none', 'even', or 'odd'"@,
                SerialSettingsError::BadDataBits => "data_bits must be one of 5, 6, 7, or 8"@,
            }),
    {
        match self {
            SerialSettingsError::BadMode => "mode must be 'rtu' or 'ascii'",
            SerialSettingsError::BadParity => "parity must be 'none', 'even', or 'odd'",
            SerialSettingsError::BadDataBits => "data_bits must be one of 5, 6, 7, or 8",
        }
    }
}

/// The serial mode a name stands for, ignoring ASCII case.
pub open spec fn serial_mode_named(name: Seq<u8>) -> Option<SerialMode> {
    if lower_is(name, word_rtu()) {
        Some(SerialMode::Rtu)
    } else if lower_is(name, word_ascii()) {
        Some(SerialMode::Ascii)
    } else {
        None
    }
}

/// The parity a name stands for, ignoring ASCII case.
pub open spec fn parity_named(name: Seq<u8>) -> Option<Parity> {
    if lower_is(name, word_none()) {
        Some(Parity::NoParity)
    } else if lower_is(name, word_even()) {
        Some(Parity::Even)
    } else if lower_is(name, word_odd()) {
        Some(Parity::Odd)
    } else {
        None
    }
}

/// The data-bit setting for a count of bits, if it is one of 5 to 8.
pub open spec fn data_bits_of(bits: u8) -> Option<DataBits> {
    if bits == 5 {
        Some(DataBits::Five)
    } else if bits == 6 {
        Some(DataBits::Six)
    } else if bits == 7 {
        Some(DataBits::Seven)
    } else if bits == 8 {
        Some(DataBits::Eight)
    } else {
        None
    }
}

/// The baud-rate setting for a numeric rate.
pub open spec fn baud_rate_of(rate: u32) -> BaudRate {
    if rate == 9600 {
        BaudRate::Baud9600
    } else if rate == 19200 {
        BaudRate::Baud19200
    } else {
        BaudRate::Custom(rate)
    }
}

/// The outcome of decoding serial settings: the mode is checked first, then
/// the parity, then the data bits; the baud rate and stop bits are taken as
/// they are.
pub open spec fn settings_of(
    mode: Seq<u8>,
    parity: Seq<u8>,
    data_bits: u8,
    stop_bits: u8,
    baud_rate: u32,
) -> Result<SerialSettings, SerialSettingsError> {
    match serial_mode_named(mode) {
        None => Err(SerialSettingsError::BadMode),
        Some(m) => match parity_named(parity) {
            None => Err(SerialSettingsError::BadParity),
            Some(p) => match data_bits_of(data_bits) {
                None => Err(SerialSettingsError::BadDataBits),
                Some(d) => Ok(
                    SerialSettings {
                        mode: m,
                        parity: p,
                        data_bits: d,
                        stop_bits,
                        baud_rate: baud_rate_of(baud_rate),
                    },
                ),
            },
        },
    }
}

/// Decodes the settings of a browser serial client, checking mode, then
/// parity, then data bits.
pub fn serial_settings(mode: &str, parity: &str, data_bits: u8, stop_bits: u8, baud_rate: u32) -> (r: Result<SerialSettings, SerialSettingsError>)
    ensures
        r == settings_of(mode.spec_bytes(), parity.spec_bytes(), data_bits, stop_bits, baud_rate),
{
    let mode = match serial_mode_from_name(mode) {
        Some(m) => m,
        None => {
            return Err(SerialSettingsError::BadMode);
        },
    };
    let parity = match parity_from_name(parity) {
        Some(p) => p,
        None => {
            return Err(SerialSettingsError::BadParity);
        },
    };
    let data_bits = match data_bits_from_u8(data_bits) {
        Some(d) => d,
        None => {
            return Err(SerialSettingsError::BadDataBits);
        },
    };
    Ok(SerialSettings { mode, parity, data_bits, stop_bits, baud_rate: baud_rate_from_u32(baud_rate) })
}

/// The line parameters a serial port is opened with.
#[derive(Debug, Clone, Copy, PartialEq, Eq, Structural)]
pub struct SerialPortParams {
    /// Bits per second.
    pub baud_rate: u32,
    /// Parity.
    pub parity: Parity,
    /// Data bits per character, 5 to 8.
    pub data_bits: u8,
    /// Stop bits per character, 1 or 2.
    pub stop_bits: u8,
}

/// The number of data bits a setting stands for.
pub open spec fn data_bits_count(d: DataBits) -> u8 {
    match d {
        DataBits::Five => 5,
        DataBits::Six => 6,
        DataBits::Seven => 7,
        DataBits::Eight => 8,
    }
}

/// The port parameters for `settings` on a transport built for `transport_mode`.
pub open spec fn spec_serial_port_params(transport_mode: SerialMode, settings: SerialSettings) -> Result<SerialPortParams, TransportError> {
    if settings.mode != transport_mode {
        Err(TransportError::InvalidConfiguration)
    } else if settings.stop_bits != 1 && settings.stop_bits != 2 {
        Err(TransportError::InvalidConfiguration)
    } else {
        Ok(
            SerialPortParams {
                baud_rate: spec_baud_value(settings.baud_rate),
                parity: settings.parity,
                data_bits: data_bits_count(settings.data_bits),
                stop_bits: settings.stop_bits,
            },
        )
    }
}

/// Decides the parameters a serial transport opens its port with: the
/// settings must use the framing mode the transport was built for and one
/// or two stop bits, else `InvalidConfiguration`; the baud rate is taken as
/// its number.
pub fn serial_port_params(transport_mode: SerialMode, settings: SerialSettings) -> (r: Result<SerialPortParams, TransportError>)
    ensures
        r == spec_serial_port_params(transport_mode, settings),
{
    if settings.mode != transport_mode {
        return Err(TransportError::InvalidConfiguration);
    }
    let baud_rate = baud_rate_value(settings.baud_rate);
    let data_bits: u8 = match settings.data_bits {
        DataBits::Five => 5,
        DataBits::Six => 6,
        DataBits::Seven => 7,
        DataBits::Eight => 8,
    };
    if settings.stop_bits != 1 && settings.stop_bits != 2 {
        return Err(TransportError::InvalidConfiguration);
    }
    Ok(SerialPortParams { baud_rate, parity: settings.parity, data_bits, stop_bits: settings.stop_bits })
}


/// A data-bit count is accepted exactly when it is 5, 6, 7 or 8, and the
/// setting it is decoded to stands for that same count; every setting is
/// decoded back from its count. A numeric baud rate keeps its value.
pub proof fn lemma_data_bits_and_baud_roundtrip(bits: u8, rate: u32)
    ensures
        data_bits_of(bits) is Some <==> 5 <= bits <= 8,
        data_bits_of(bits) matches Some(d) ==> data_bits_count(d) == bits,
        forall|d: DataBits| #[trigger] data_bits_of(data_bits_count(d)) == Some(d),
        spec_baud_value(baud_rate_of(rate)) == rate,
{
    assert forall|d: DataBits| #[trigger] data_bits_of(data_bits_count(d)) == Some(d) by {
        match d {
            DataBits::Five => {},
            DataBits::Six => {},
            DataBits::Seven => {},
            DataBits::Eight => {},
        }
    }
}

/// A serial port is opened with exactly the line that its settings were
/// decoded from: the baud rate, data-bit count and stop bits given, and the
/// parity named; it opens exactly when the settings' mode is the
/// transport's and one or two stop bits are asked for.
pub proof fn lemma_port_params_follow_settings(
    transport_mode: SerialMode,
    mode: Seq<u8>,
    parity: Seq<u8>,
    data_bits: u8,
    stop_bits: u8,
    baud_rate: u32,
)
    ensures
        settings_of(mode, parity, data_bits, stop_bits, baud_rate) matches Ok(s) ==> ({
            &&& (spec_serial_port_params(transport_mode, s) is Ok <==> (s.mode == transport_mode && (stop_bits == 1
                || stop_bits == 2)))
            &&& (spec_serial_port_params(transport_mode, s) matches Ok(p) ==> {
                &&& p.baud_rate == baud_rate
                &&& p.data_bits == data_bits
                &&& p.stop_bits == stop_bits
                &&& lower_is(parity, word_none()) ==> p.parity == Parity::NoParity
                &&& lower_is(parity, word_even()) ==> p.parity == Parity::Even
                &&& lower_is(parity, word_odd()) ==> p.parity == Parity::Odd
            })
        }),
{
    lemma_data_bits_and_baud_roundtrip(data_bits, baud_rate);
    if lower_is(parity, word_even()) {
        assert(!lower_is(parity, word_none())) by {
            if lower_is(parity, word_none()) {
                assert(ascii_lower(parity[1]) == word_none()[1]);
                assert(ascii_lower(parity[1]) == word_even()[1]);
            }
        }
    }
    if lower_is(parity, word_odd()) {
        assert(!lower_is(parity, word_none()));
        assert(!lower_is(parity, word_even()));
    }
}


/// The setting names are spelled as the settings documentation writes them:
/// `rtu` and `ascii` for the modes, `none`, `even` and `odd` for the
/// parities, and any ASCII case of them is accepted.
pub proof fn lemma_setting_names_spelled()
    ensures
        word_rtu() == seq!['r' as u8, 't' as u8, 'u' as u8],
        word_ascii() == seq!['a' as u8, 's' as u8, 'c' as u8, 'i' as u8, 'i' as u8],
        word_none() == seq!['n' as u8, 'o' as u8, 'n' as u8, 'e' as u8],
        word_even() == seq!['e' as u8, 'v' as u8, 'e' as u8, 'n' as u8],
        word_odd() == seq!['o' as u8, 'd' as u8, 'd' as u8],
        forall|b: u8| 'A' as u8 <= b <= 'Z' as u8 ==> #[trigger] ascii_lower(b) == b - 'A' as u8 + 'a' as u8,
        forall|b: u8| !('A' as u8 <= b <= 'Z' as u8) ==> #[trigger] ascii_lower(b) == b,
{
    assert(word_rtu() =~= seq!['r' as u8, 't' as u8, 'u' as u8]);
    assert(word_ascii() =~= seq!['a' as u8, 's' as u8, 'c' as u8, 'i' as u8, 'i' as u8]);
    assert(word_none() =~= seq!['n' as u8, 'o' as u8, 'n' as u8, 'e' as u8]);
    assert(word_even() =~= seq!['e' as u8, 'v' as u8, 'e' as u8, 'n' as u8]);
    assert(word_odd() =~= seq!['o' as u8, 'd' as u8, 'd' as u8]);
}

} // verus!
