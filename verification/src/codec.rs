//! The bit-packed value encodings of the P50X protocol: pure functions
//! between wire bytes and structured values, with no transport involved.
//!
//! Multi-byte integers travel little-endian; `spec_lo8` / `spec_hi8` are
//! the two halves of a `u16`.

use vstd::prelude::*;

verus! {

/// The track protocol a locomotive or turnout decoder speaks.
#[derive(Debug, PartialEq, Eq, Copy, Clone, Structural)]
pub enum XProtocol {
    Motorola,
    Selectrix,
    DCC,
    FMZ,
}

/// The protocol table: `0` Motorola, `1` Selectrix, `2` DCC, `3` FMZ;
/// every other byte falls back to Motorola.
pub open spec fn spec_protocol_of_byte(value: u8) -> XProtocol {
    if value == 1 {
        XProtocol::Selectrix
    } else if value == 2 {
        XProtocol::DCC
    } else if value == 3 {
        XProtocol::FMZ
    } else {
        XProtocol::Motorola
    }
}

impl XProtocol {
    /// Decode a protocol byte; unknown bytes default to Motorola.
    pub fn from_byte(value: u8) -> (r: XProtocol)
        ensures
            r == spec_protocol_of_byte(value),
    {
        match value {
            1 => XProtocol::Selectrix,
            2 => XProtocol::DCC,
            3 => XProtocol::FMZ,
            _ => XProtocol::Motorola,
        }
    }
}

/// The seven state booleans of the central unit, unpacked from one byte
/// (bits 0..6; bit 7 is reserved).
#[derive(Debug, PartialEq, Eq, Copy, Clone, Structural)]
pub struct DeviceStatus {
    pub stop_pressed: bool,
    pub go_pressed: bool,
    pub hot: bool,
    pub power: bool,
    pub halt: bool,
    pub external_central_unit: bool,
    pub voltage_regulation: bool,
}

/// Which status booleans a status byte carries.
pub open spec fn spec_device_status_of_byte(value: u8) -> DeviceStatus {
    DeviceStatus {
        stop_pressed: value & 0x01 != 0,
        go_pressed: value & 0x02 != 0,
        hot: value & 0x04 != 0,
        power: value & 0x08 != 0,
        halt: value & 0x10 != 0,
        external_central_unit: value & 0x20 != 0,
        voltage_regulation: value & 0x40 != 0,
    }
}

/// The status byte a `DeviceStatus` packs back to (bit 7 always clear).
pub open spec fn spec_device_status_to_byte(status: DeviceStatus) -> u8 {
    (if status.stop_pressed {
        0x01u8
    } else {
        0
    }) | (if status.go_pressed {
        0x02u8
    } else {
        0
    }) | (if status.hot {
        0x04u8
    } else {
        0
    }) | (if status.power {
        0x08u8
    } else {
        0
    }) | (if status.halt {
        0x10u8
    } else {
        0
    }) | (if status.external_central_unit {
        0x20u8
    } else {
        0
    }) | (if status.voltage_regulation {
        0x40u8
    } else {
        0
    })
}

/// Unpack one device-status byte.
pub fn device_status_from_byte(value: u8) -> (r: DeviceStatus)
    ensures
        r == spec_device_status_of_byte(value),
{
    DeviceStatus {
        stop_pressed: value & 0x01 != 0,
        go_pressed: value & 0x02 != 0,
        hot: value & 0x04 != 0,
        power: value & 0x08 != 0,
        halt: value & 0x10 != 0,
        external_central_unit: value & 0x20 != 0,
        voltage_regulation: value & 0x40 != 0,
    }
}

/// Pack the seven status booleans back into a byte.
pub fn device_status_to_byte(status: &DeviceStatus) -> (r: u8)
    ensures
        r == spec_device_status_to_byte(*status),
{
    (if status.stop_pressed {
        0x01u8
    } else {
        0
    }) | (if status.go_pressed {
        0x02u8
    } else {
        0
    }) | (if status.hot {
        0x04u8
    } else {
        0
    }) | (if status.power {
        0x08u8
    } else {
        0
    }) | (if status.halt {
        0x10u8
    } else {
        0
    }) | (if status.external_central_unit {
        0x20u8
    } else {
        0
    }) | (if status.voltage_regulation {
        0x40u8
    } else {
        0
    })
}

/// Packing the seven booleans unpacked from any byte with a clear bit 7
/// gives the byte back.
pub proof fn lemma_device_status_round_trip(value: u8)
    requires
        value <= 0x7f,
    ensures
        spec_device_status_to_byte(spec_device_status_of_byte(value)) == value,
{
    assert((if value & 0x01 != 0 {
        0x01u8
    } else {
        0
    }) | (if value & 0x02 != 0 {
        0x02u8
    } else {
        0
    }) | (if value & 0x04 != 0 {
        0x04u8
    } else {
        0
    }) | (if value & 0x08 != 0 {
        0x08u8
    } else {
        0
    }) | (if value & 0x10 != 0 {
        0x10u8
    } else {
        0
    }) | (if value & 0x20 != 0 {
        0x20u8
    } else {
        0
    }) | (if value & 0x40 != 0 {
        0x40u8
    } else {
        0
    }) == value) by (bit_vector)
        requires
            value <= 0x7f,
    ;
}

/// Caller-side options of the `xlok` command.
#[derive(Debug, PartialEq, Copy, Clone)]
pub struct XLokOptions {
    pub emergency_stop: bool,
    pub force: bool,
    pub light: bool,
    pub functions: Option<[bool; 4]>,
}

impl Default for XLokOptions {
    /// Everything off and no function bits supplied.
    fn default() -> (r: Self)
        ensures
            !r.emergency_stop && !r.force && !r.light && r.functions is None,
    {
        XLokOptions { emergency_stop: false, force: false, light: false, functions: None }
    }
}

/// What a locomotive reported back: signed speeds plus an options view.
#[derive(Debug, PartialEq, Copy, Clone)]
pub struct XLokStatus {
    pub speed: i8,
    pub real_speed: i8,
    pub options: XLokOptions,
}

/// A locomotive's decoder configuration.
#[derive(Debug, PartialEq, Copy, Clone)]
pub struct XLokConfig {
    pub protocol: XProtocol,
    pub speed_steps: u8,
    pub virtual_address: Option<u16>,
}

/// The signed value a wire byte stands for (two's complement).
pub open spec fn spec_i8_of_byte(value: u8) -> int {
    if value < 0x80 {
        value as int
    } else {
        value - 0x100
    }
}

/// Negation on the `i8` range, wrapping at the minimum.
pub open spec fn spec_neg_wrap(v: int) -> int {
    if v == -0x80 {
        -0x80
    } else {
        -v
    }
}

/// The signed speed an `xlok_status` reply carries: the raw byte, negated
/// when the config byte has the reverse bit (bit 5) set.
pub open spec fn spec_lok_speed(speed_byte: u8, config: u8) -> int {
    if config & 0x20 != 0 {
        spec_neg_wrap(spec_i8_of_byte(speed_byte))
    } else {
        spec_i8_of_byte(speed_byte)
    }
}

/// The speed byte `xlok` transmits: 1 under emergency stop, else the
/// magnitude of the signed speed.
pub open spec fn spec_lok_speed_byte(speed: i8, options: XLokOptions) -> u8 {
    if options.emergency_stop {
        1u8
    } else if speed >= 0 {
        speed as u8
    } else {
        (-(speed as int)) as u8
    }
}

/// The config byte `xlok` transmits: bit 7 functions-present, bit 6
/// force, bit 5 reverse (skipped under emergency stop), bit 4 light,
/// bits 0..3 the function booleans F4,F3,F2,F1.
pub open spec fn spec_lok_config_byte(speed: i8, options: XLokOptions) -> u8 {
    let base = (if options.light {
        0x10u8
    } else {
        0
    }) | (if options.force {
        0x40u8
    } else {
        0
    }) | (match options.functions {
        Some(f) => 0x80u8 | (if f[3] {
            0x01u8
        } else {
            0
        }) | (if f[2] {
            0x02u8
        } else {
            0
        }) | (if f[1] {
            0x04u8
        } else {
            0
        }) | (if f[0] {
            0x08u8
        } else {
            0
        }),
        None => 0u8,
    });
    if !options.emergency_stop && speed < 0 {
        base | 0x20
    } else {
        base
    }
}

/// Encode the operand bytes of `xlok`: the transmitted speed byte and the
/// packed config byte.
pub fn lok_command_bytes(speed: i8, options: &XLokOptions) -> (r: (u8, u8))
    requires
        speed != -0x80,
    ensures
        r.0 == spec_lok_speed_byte(speed, *options),
        r.1 == spec_lok_config_byte(speed, *options),
{
    let function_bits: u8 = match options.functions {
        Some(f) => 0x80u8 | (if f[3] {
            0x01u8
        } else {
            0
        }) | (if f[2] {
            0x02u8
        } else {
            0
        }) | (if f[1] {
            0x04u8
        } else {
            0
        }) | (if f[0] {
            0x08u8
        } else {
            0
        }),
        None => 0u8,
    };
    let base: u8 = (if options.light {
        0x10u8
    } else {
        0
    }) | (if options.force {
        0x40u8
    } else {
        0
    }) | function_bits;
    let config: u8 = if !options.emergency_stop && speed < 0 {
        base | 0x20
    } else {
        base
    };
    let speed_value: u8 = if options.emergency_stop {
        1
    } else if speed >= 0 {
        speed as u8
    } else {
        (-speed) as u8
    };
    (speed_value, config)
}

/// Whether `status` is the decoding of the three `xlok_status` payload
/// bytes: speeds negated under the reverse bit, emergency stop derived
/// from speed 1, force always false, light and F1..F4 from the config.
pub open spec fn spec_lok_status_matches(
    speed_byte: u8,
    config: u8,
    real_speed_byte: u8,
    status: XLokStatus,
) -> bool {
    &&& status.speed as int == spec_lok_speed(speed_byte, config)
    &&& status.real_speed as int == spec_lok_speed(real_speed_byte, config)
    &&& status.options.emergency_stop == (spec_lok_speed(speed_byte, config) == 1)
    &&& status.options.force == false
    &&& status.options.light == (config & 0x10 != 0)
    &&& status.options.functions matches Some(f) && f[0] == (config & 0x01 != 0) && f[1] == (
    config & 0x02 != 0) && f[2] == (config & 0x04 != 0) && f[3] == (config & 0x08 != 0)
}

/// Turn a wire byte into the signed value it stands for.
fn i8_from_byte(value: u8) -> (r: i8)
    ensures
        r as int == spec_i8_of_byte(value),
{
    if value < 0x80 {
        value as i8
    } else {
        (value as i16 - 0x100) as i8
    }
}

/// Negate a signed speed, wrapping at the minimum value.
fn neg_wrap_i8(v: i8) -> (r: i8)
    ensures
        r as int == spec_neg_wrap(v as int),
{
    if v == -0x80 {
        -0x80
    } else {
        -v
    }
}

/// Decode the three payload bytes of an `xlok_status` reply.
pub fn lok_status_decode(speed_byte: u8, config: u8, real_speed_byte: u8) -> (r: XLokStatus)
    ensures
        spec_lok_status_matches(speed_byte, config, real_speed_byte, r),
{
    let reverse = config & 0x20 != 0;
    let raw_speed = i8_from_byte(speed_byte);
    let raw_real_speed = i8_from_byte(real_speed_byte);
    let speed = if reverse {
        neg_wrap_i8(raw_speed)
    } else {
        raw_speed
    };
    let real_speed = if reverse {
        neg_wrap_i8(raw_real_speed)
    } else {
        raw_real_speed
    };
    XLokStatus {
        speed,
        real_speed,
        options: XLokOptions {
            emergency_stop: speed == 1,
            force: false,
            light: config & 0x10 != 0,
            functions: Some(
                [config & 0x01 != 0, config & 0x02 != 0, config & 0x04 != 0, config & 0x08 != 0],
            ),
        },
    }
}

/// Decode the payload of an `xlok_config` reply; the virtual address is
/// absent when the wire value is the sentinel `0xFFFF`.
pub fn lok_config_decode(protocol_byte: u8, speed_steps: u8, virtual_address_value: u16) -> (r:
    XLokConfig)
    ensures
        r.protocol == spec_protocol_of_byte(protocol_byte),
        r.speed_steps == speed_steps,
        r.virtual_address == (if virtual_address_value == 0xffff {
            Option::<u16>::None
        } else {
            Some(virtual_address_value)
        }),
{
    let virtual_address = if virtual_address_value == 0xffff {
        None
    } else {
        Some(virtual_address_value)
    };
    XLokConfig { protocol: XProtocol::from_byte(protocol_byte), speed_steps, virtual_address }
}

/// Caller-side options of the `xturnout` command.
#[derive(Debug, PartialEq, Eq, Copy, Clone, Structural)]
pub struct XTurnoutOptions {
    pub status: bool,
    pub reserve: bool,
    pub no_command: bool,
}

impl Default for XTurnoutOptions {
    /// Coil energized, no reservation, command sent to the track.
    fn default() -> (r: Self)
        ensures
            r.status && !r.reserve && !r.no_command,
    {
        XTurnoutOptions { status: true, reserve: false, no_command: false }
    }
}

/// What a turnout reported back.
#[derive(Debug, PartialEq, Eq, Copy, Clone, Structural)]
pub struct XTurnoutStatus {
    pub protocol: XProtocol,
    pub reserved: bool,
    pub state: bool,
}

/// The low byte of a little-endian `u16`.
pub open spec fn spec_lo8(value: u16) -> u8 {
    (value % 0x100) as u8
}

/// The high byte of a little-endian `u16`.
pub open spec fn spec_hi8(value: u16) -> u8 {
    (value / 0x100) as u8
}

/// The packed second operand byte of `xturnout`: the high 3 address bits
/// in bits 0..2, and the flags state/status/reserve/no_command in bits
/// 7/6/5/4.
pub open spec fn spec_turnout_packed(address: u16, state: bool, options: XTurnoutOptions) -> u8 {
    (spec_hi8(address) & 0x07) | (if state {
        0x80u8
    } else {
        0
    }) | (if options.status {
        0x40u8
    } else {
        0
    }) | (if options.reserve {
        0x20u8
    } else {
        0
    }) | (if options.no_command {
        0x10u8
    } else {
        0
    })
}

/// Encode the two operand bytes of `xturnout`: the low address byte and
/// the packed flag byte.
pub fn turnout_command_bytes(address: u16, state: bool, options: &XTurnoutOptions) -> (r: (u8, u8))
    ensures
        r.0 == spec_lo8(address),
        r.1 == spec_turnout_packed(address, state, *options),
{
    let lo = (address % 0x100) as u8;
    let hi = (address / 0x100) as u8;
    let packed = (hi & 0x07) | (if state {
        0x80u8
    } else {
        0
    }) | (if options.status {
        0x40u8
    } else {
        0
    }) | (if options.reserve {
        0x20u8
    } else {
        0
    }) | (if options.no_command {
        0x10u8
    } else {
        0
    });
    (lo, packed)
}

/// Bit-level shape of the packed turnout byte, over the high address
/// byte and the four flags.
proof fn lemma_turnout_packed_shape(hi: u8, state: bool, status: bool, reserve: bool, no_command: bool)
    by (bit_vector)
    ensures
        ({
            let packed = (hi & 0x07) | (if state {
                0x80u8
            } else {
                0u8
            }) | (if status {
                0x40u8
            } else {
                0u8
            }) | (if reserve {
                0x20u8
            } else {
                0u8
            }) | (if no_command {
                0x10u8
            } else {
                0u8
            });
            &&& packed & 0x07 == hi & 0x07
            &&& (packed & 0x80 != 0) == state
            &&& (packed & 0x40 != 0) == status
            &&& (packed & 0x20 != 0) == reserve
            &&& (packed & 0x10 != 0) == no_command
            &&& packed & 0x08 == 0
        }),
{
}

/// Bit-level laws of the `xturnout` operand encoding: the first byte is
/// the low 8 address bits; in the packed byte the low 3 bits are the
/// high 3 address bits and the flags state/status/reserve/no_command
/// occupy bits 7, 6, 5 and 4, with bit 3 always clear.
pub proof fn lemma_turnout_command_bits(address: u16, state: bool, options: XTurnoutOptions)
    ensures
        spec_lo8(address) == (address & 0xff) as u8,
        spec_turnout_packed(address, state, options) & 0x07 == ((address >> 8) & 0x07) as u8,
        (spec_turnout_packed(address, state, options) & 0x80 != 0) == state,
        (spec_turnout_packed(address, state, options) & 0x40 != 0) == options.status,
        (spec_turnout_packed(address, state, options) & 0x20 != 0) == options.reserve,
        (spec_turnout_packed(address, state, options) & 0x10 != 0) == options.no_command,
        spec_turnout_packed(address, state, options) & 0x08 == 0,
{
    lemma_turnout_packed_shape(
        spec_hi8(address),
        state,
        options.status,
        options.reserve,
        options.no_command,
    );
    assert((address % 0x100) as u8 == (address & 0xff) as u8) by (bit_vector);
    assert(((address / 0x100) as u8) & 0x07 == ((address >> 8) & 0x07) as u8) by (bit_vector);
}

/// The protocol byte encoded across bits 0 and 3 of a turnout status
/// byte.
pub open spec fn spec_turnout_protocol_byte(value: u8) -> u8 {
    ((value & 0x01) << 1) | ((value & 0x08) >> 3)
}

/// Decode a turnout status byte: `reserved` is bit 1, `state` is bit 2,
/// and the protocol is spread over bits 0 and 3.
pub fn turnout_status_decode(value: u8) -> (r: XTurnoutStatus)
    ensures
        r.protocol == spec_protocol_of_byte(spec_turnout_protocol_byte(value)),
        r.reserved == (value & 0x02 != 0),
        r.state == (value & 0x04 != 0),
{
    let protocol_byte = ((value & 0x01) << 1) | ((value & 0x08) >> 3);
    XTurnoutStatus {
        protocol: XProtocol::from_byte(protocol_byte),
        reserved: value & 0x02 != 0,
        state: value & 0x04 != 0,
    }
}

/// Decode a sensor module's 16-bit occupancy bitmap: index `i` of the
/// result is bit `i` of the little-endian word.
pub fn sensor_decode(bitmap: u16) -> (r: [bool; 16])
    ensures
        forall|i: int| 0 <= i < 16 ==> r[i] == ((bitmap >> (i as u16)) & 1 != 0),
{
    let mut result = [false;16];
    for i in 0..16usize
        invariant
            forall|j: int| 0 <= j < i ==> result[j] == ((bitmap >> (j as u16)) & 1 != 0),
    {
        result[i] = (bitmap >> (i as u16)) & 1 != 0;
    }
    result
}

/// Pack eight function booleans into a bitmask, F(i+1) at bit i.
pub fn functions_encode(functions: &[bool; 8]) -> (r: u8)
    ensures
        forall|i: int| 0 <= i < 8 ==> functions[i] == ((r >> (i as u8)) & 1 != 0),
{
    let mut value: u8 = 0;
    proof {
        assert(forall|j: u8| ((0u8 >> j) & 1) == 0) by (bit_vector);
    }
    for i in 0..8usize
        invariant
            forall|j: int| 0 <= j < i ==> functions[j] == ((value >> (j as u8)) & 1 != 0),
            forall|j: int| i <= j < 8 ==> ((value >> (#[trigger] (j as u8))) & 1) == 0,
    {
        let bit: u8 = 1u8 << (i as u8);
        let old_value = value;
        if functions[i] {
            value = value | bit;
        }
        proof {
            assert forall|j: int| 0 <= j < i + 1 implies functions[j] == ((value >> (j as u8)) & 1
                != 0) by {
                let ju = j as u8;
                let iu = i as u8;
                if j < i {
                    assert(((old_value | (1u8 << iu)) >> ju) & 1 == (old_value >> ju) & 1 || ju
                        == iu) by (bit_vector);
                } else {
                    assert(iu < 8 && (old_value >> iu) & 1 == 0 ==> (((old_value | (1u8 << iu))
                        >> iu) & 1 != 0)) by (bit_vector);
                }
            }
            assert forall|j: int| i + 1 <= j < 8 implies ((value >> (#[trigger] (j as u8))) & 1)
                == 0 by {
                let ju = j as u8;
                let iu = i as u8;
                assert((old_value >> ju) & 1 == 0 && iu < ju ==> (((old_value | (1u8 << iu)) >> ju)
                    & 1) == 0) by (bit_vector);
            }
        }
    }
    value
}

/// Unpack a function bitmask into eight booleans, bit i to F(i+1).
pub fn functions_decode(value: u8) -> (r: [bool; 8])
    ensures
        forall|i: int| 0 <= i < 8 ==> r[i] == ((value >> (i as u8)) & 1 != 0),
{
    let mut result = [false;8];
    for i in 0..8usize
        invariant
            forall|j: int| 0 <= j < i ==> result[j] == ((value >> (j as u8)) & 1 != 0),
    {
        result[i] = (value >> (i as u8)) & 1 != 0;
    }
    result
}

/// Decode an `xturnout_group` reply: element `i` pairs bit `i` of the
/// state mask with bit `i` of the reserved mask.
pub fn turnout_group_decode(state_mask: u8, reserved_mask: u8) -> (r: [(bool, bool); 8])
    ensures
        forall|i: int|
            0 <= i < 8 ==> r[i].0 == ((state_mask >> (i as u8)) & 1 != 0) && r[i].1 == ((
            reserved_mask >> (i as u8)) & 1 != 0),
{
    let mut result = [(false, false);8];
    for i in 0..8usize
        invariant
            forall|j: int|
                0 <= j < i ==> result[j].0 == ((state_mask >> (j as u8)) & 1 != 0) && result[j].1
                    == ((reserved_mask >> (j as u8)) & 1 != 0),
    {
        result[i] = ((state_mask >> (i as u8)) & 1 != 0, (reserved_mask >> (i as u8)) & 1 != 0);
    }
    result
}

/// The packed operand byte of `xs88_timer` / `xs88_count`: the timer
/// nibble, with bit 7 as the reset flag.
pub open spec fn spec_s88_param(timer: u8, reset: bool) -> u8 {
    if reset {
        (timer & 0x0f) | 0x80
    } else {
        timer & 0x0f
    }
}

/// Pack the operand byte of `xs88_timer` / `xs88_count`.
pub fn s88_param_encode(timer: u8, reset: bool) -> (r: u8)
    ensures
        r == spec_s88_param(timer, reset),
{
    if reset {
        (timer & 0x0f) | 0x80
    } else {
        timer & 0x0f
    }
}

/// Bit-level shape of the packed lok config byte, over its nine input
/// booleans.
proof fn lemma_lok_config_byte_shape(
    light: bool,
    force: bool,
    emergency: bool,
    negative: bool,
    present: bool,
    f3: bool,
    f2: bool,
    f1: bool,
    f0: bool,
)
    by (bit_vector)
    ensures
        ({
            let function_bits: u8 = if present {
                0x80u8 | (if f3 {
                    0x01u8
                } else {
                    0u8
                }) | (if f2 {
                    0x02u8
                } else {
                    0u8
                }) | (if f1 {
                    0x04u8
                } else {
                    0u8
                }) | (if f0 {
                    0x08u8
                } else {
                    0u8
                })
            } else {
                0u8
            };
            let base: u8 = (if light {
                0x10u8
            } else {
                0u8
            }) | (if force {
                0x40u8
            } else {
                0u8
            }) | function_bits;
            let config: u8 = if !emergency && negative {
                base | 0x20
            } else {
                base
            };
            &&& (config & 0x20 != 0) == (!emergency && negative)
            &&& (config & 0x80 != 0) == present
            &&& (config & 0x10 != 0) == light
            &&& (config & 0x40 != 0) == force
            &&& (present ==> (config & 0x01 != 0) == f3 && (config & 0x02 != 0) == f2 && (config
                & 0x04 != 0) == f1 && (config & 0x08 != 0) == f0)
        }),
{
}

/// Bit-level laws of the `xlok` operand encoding: the speed byte is 1
/// under emergency stop and the speed's magnitude otherwise; bit 5 of
/// the config is the reverse bit, set exactly when the speed is negative
/// and no emergency stop is requested; bit 7 marks the function booleans
/// as present, and they sit in bits 0..3 in the order F4,F3,F2,F1; bits
/// 4 and 6 are the light and force flags.
pub proof fn lemma_lok_command_bits(speed: i8, options: XLokOptions)
    ensures
        spec_lok_speed_byte(speed, options) as int == (if options.emergency_stop {
            1int
        } else if speed >= 0 {
            speed as int
        } else {
            -(speed as int)
        }),
        (spec_lok_config_byte(speed, options) & 0x20 != 0) == (speed < 0
            && !options.emergency_stop),
        (spec_lok_config_byte(speed, options) & 0x80 != 0) == (options.functions is Some),
        (spec_lok_config_byte(speed, options) & 0x10 != 0) == options.light,
        (spec_lok_config_byte(speed, options) & 0x40 != 0) == options.force,
        options.functions matches Some(f) ==> (spec_lok_config_byte(speed, options) & 0x01 != 0)
            == f[3] && (spec_lok_config_byte(speed, options) & 0x02 != 0) == f[2] && (
        spec_lok_config_byte(speed, options) & 0x04 != 0) == f[1] && (spec_lok_config_byte(
            speed,
            options,
        ) & 0x08 != 0) == f[0],
{
    match options.functions {
        Some(f) => {
            lemma_lok_config_byte_shape(
                options.light,
                options.force,
                options.emergency_stop,
                speed < 0,
                true,
                f[3],
                f[2],
                f[1],
                f[0],
            );
        },
        None => {
            lemma_lok_config_byte_shape(
                options.light,
                options.force,
                options.emergency_stop,
                speed < 0,
                false,
                false,
                false,
                false,
                false,
            );
        },
    }
}

/// Bit-level core of the decode/re-encode round trip: packing the bits
/// read out of a config byte, with the force bit dropped, gives the
/// config byte back when bit 7 was set, the function nibble is
/// palindromic, and `reverse` repeats bit 5.
proof fn lemma_reencode_bits(config: u8, light: bool, force: bool, reverse: bool)
    by (bit_vector)
    requires
        !force,
        config & 0x80 != 0,
        (config & 0x01 != 0) == (config & 0x08 != 0),
        (config & 0x02 != 0) == (config & 0x04 != 0),
        light == (config & 0x10 != 0),
        reverse == (config & 0x20 != 0),
    ensures
        ({
            let function_bits: u8 = 0x80u8 | (if config & 0x08 != 0 {
                0x01u8
            } else {
                0u8
            }) | (if config & 0x04 != 0 {
                0x02u8
            } else {
                0u8
            }) | (if config & 0x02 != 0 {
                0x04u8
            } else {
                0u8
            }) | (if config & 0x01 != 0 {
                0x08u8
            } else {
                0u8
            });
            let base: u8 = (if light {
                0x10u8
            } else {
                0u8
            }) | (if force {
                0x40u8
            } else {
                0u8
            }) | function_bits;
            let packed: u8 = if reverse {
                base | 0x20
            } else {
                base
            };
            packed == config & 0xbf
        }),
{
}

/// Decode/re-encode round trip for a lok status: re-encoding a decoded
/// status with its own options gives back the received config byte with
/// the force bit (bit 6) cleared.  This holds exactly when bit 7 of the
/// config was set, its function nibble is palindromic (bit 0 equals bit
/// 3 and bit 1 equals bit 2, since decode reads F1..F4 in natural order
/// while encode transmits them reversed), and the speed byte agrees in
/// sign with the reverse bit: below `0x80` when bit 5 is clear, and in
/// `1..=0x80` when bit 5 is set.
pub proof fn lemma_lok_status_reencode(
    speed_byte: u8,
    config: u8,
    real_speed_byte: u8,
    status: XLokStatus,
)
    requires
        spec_lok_status_matches(speed_byte, config, real_speed_byte, status),
        config & 0x80 != 0,
        (config & 0x01 != 0) == (config & 0x08 != 0),
        (config & 0x02 != 0) == (config & 0x04 != 0),
        config & 0x20 == 0 ==> speed_byte < 0x80,
        config & 0x20 != 0 ==> 1 <= speed_byte && speed_byte <= 0x80,
    ensures
        spec_lok_config_byte(status.speed, status.options) == config & 0xbf,
{
    let emergency = status.options.emergency_stop;
    let negative = status.speed < 0;
    if config & 0x20 != 0 {
        assert(status.speed as int == spec_neg_wrap(spec_i8_of_byte(speed_byte)));
        assert(!emergency && negative);
    } else {
        assert(status.speed as int == spec_i8_of_byte(speed_byte));
        assert(!(!emergency && negative));
    }
    assert((!emergency && negative) == (config & 0x20 != 0));
    match status.options.functions {
        Some(f) => {
            assert(f[3] == (config & 0x08 != 0));
            assert(f[2] == (config & 0x04 != 0));
            assert(f[1] == (config & 0x02 != 0));
            assert(f[0] == (config & 0x01 != 0));
            lemma_reencode_bits(config, status.options.light, status.options.force, config & 0x20 != 0);
        },
        None => {
            assert(false);
        },
    }
}

} // verus!
