//! Classification of the single reply byte that a P50X central unit sends
//! after a command.  The mapping from byte to kind is a fixed total table;
//! every byte outside the table decodes to `Unknown`.

use vstd::prelude::*;

verus! {

/// One named kind per known reply byte.  `Ok` (wire byte `0x00`) is the
/// success sentinel; `Unknown` stands for every byte outside the table.
#[derive(Debug, PartialEq, Eq, Copy, Clone, Structural)]
pub enum P50XReply {
    Okay,
    BadCommand,
    BadParameter,
    PowerOff,
    NoLokCommandSpace,
    FullTurnoutCommandStack,
    NoData,
    NoSlot,
    BadLokParameter,
    LokBusy,
    BadTurnoutParameter,
    BadSpecialOptionValue,
    NoI2CCommandSpace,
    LowTurnoutCommandStackSpace,
    LokHalt,
    LokPowerOff,
    Busy,
    Unknown,
}

/// The fixed reply table: which kind each wire byte decodes to.
pub open spec fn spec_reply_of_byte(value: u8) -> P50XReply {
    if value == 0x00 {
        P50XReply::Okay
    } else if value == 0x01 {
        P50XReply::BadCommand
    } else if value == 0x02 {
        P50XReply::BadParameter
    } else if value == 0x06 {
        P50XReply::PowerOff
    } else if value == 0x08 {
        P50XReply::NoLokCommandSpace
    } else if value == 0x09 {
        P50XReply::FullTurnoutCommandStack
    } else if value == 0x0A {
        P50XReply::NoData
    } else if value == 0x0B {
        P50XReply::NoSlot
    } else if value == 0x0C {
        P50XReply::BadLokParameter
    } else if value == 0x0D {
        P50XReply::LokBusy
    } else if value == 0x0E {
        P50XReply::BadTurnoutParameter
    } else if value == 0x0F {
        P50XReply::BadSpecialOptionValue
    } else if value == 0x10 {
        P50XReply::NoI2CCommandSpace
    } else if value == 0x40 {
        P50XReply::LowTurnoutCommandStackSpace
    } else if value == 0x41 {
        P50XReply::LokHalt
    } else if value == 0x42 {
        P50XReply::LokPowerOff
    } else if value == 0x80 {
        P50XReply::Busy
    } else {
        P50XReply::Unknown
    }
}

impl P50XReply {
    /// Decode one reply byte by the fixed table.
    pub fn from_byte(value: u8) -> (r: P50XReply)
        ensures
            r == spec_reply_of_byte(value),
    {
        match value {
            0x00 => P50XReply::Okay,
            0x01 => P50XReply::BadCommand,
            0x02 => P50XReply::BadParameter,
            0x06 => P50XReply::PowerOff,
            0x08 => P50XReply::NoLokCommandSpace,
            0x09 => P50XReply::FullTurnoutCommandStack,
            0x0A => P50XReply::NoData,
            0x0B => P50XReply::NoSlot,
            0x0C => P50XReply::BadLokParameter,
            0x0D => P50XReply::LokBusy,
            0x0E => P50XReply::BadTurnoutParameter,
            0x0F => P50XReply::BadSpecialOptionValue,
            0x10 => P50XReply::NoI2CCommandSpace,
            0x40 => P50XReply::LowTurnoutCommandStackSpace,
            0x41 => P50XReply::LokHalt,
            0x42 => P50XReply::LokPowerOff,
            0x80 => P50XReply::Busy,
            _ => P50XReply::Unknown,
        }
    }

    /// A human-readable description of the reply kind.
    pub fn describe(&self) -> (r: String)
        ensures
            self is Okay ==> r@ == "Ok"@,
            self is BadCommand ==> r@ == "Command not implemented"@,
            self is BadParameter ==> r@ == "Bad parameter value"@,
            self is PowerOff ==> r@ == "Power is off"@,
            self is NoLokCommandSpace ==> r@ == "Locomotive command stack is full"@,
            self is FullTurnoutCommandStack ==> r@ == "Turnout command stack is full"@,
            self is NoData ==> r@ == "No locomotive data available"@,
            self is NoSlot ==> r@ == "No slot available"@,
            self is BadLokParameter ==> r@ == "Bad locomotive address"@,
            self is LokBusy ==> r@ == "Locomotive already controlled by another device"@,
            self is BadTurnoutParameter ==> r@ == "Bad turnout address"@,
            self is BadSpecialOptionValue ==> r@ == "Bad special option value"@,
            self is NoI2CCommandSpace ==> r@ == "I2C command stack is full"@,
            self is LowTurnoutCommandStackSpace ==> r@ == "Turnout command stack is nearly full"@,
            self is LokHalt ==> r@ == "Command accepted but in halt mode"@,
            self is LokPowerOff ==> r@ == "Command accepted but power is off"@,
            self is Busy ==> r@ == "Device is busy"@,
            self is Unknown ==> r@ == "Unknown error"@,
    {
        match *self {
            P50XReply::Okay => "Ok".to_string(),
            P50XReply::BadCommand => "Command not implemented".to_string(),
            P50XReply::BadParameter => "Bad parameter value".to_string(),
            P50XReply::PowerOff => "Power is off".to_string(),
            P50XReply::NoLokCommandSpace => "Locomotive command stack is full".to_string(),
            P50XReply::FullTurnoutCommandStack => "Turnout command stack is full".to_string(),
            P50XReply::NoData => "No locomotive data available".to_string(),
            P50XReply::NoSlot => "No slot available".to_string(),
            P50XReply::BadLokParameter => "Bad locomotive address".to_string(),
            P50XReply::LokBusy => "Locomotive already controlled by another device".to_string(),
            P50XReply::BadTurnoutParameter => "Bad turnout address".to_string(),
            P50XReply::BadSpecialOptionValue => "Bad special option value".to_string(),
            P50XReply::NoI2CCommandSpace => "I2C command stack is full".to_string(),
            P50XReply::LowTurnoutCommandStackSpace => {
                "Turnout command stack is nearly full".to_string()
            },
            P50XReply::LokHalt => "Command accepted but in halt mode".to_string(),
            P50XReply::LokPowerOff => "Command accepted but power is off".to_string(),
            P50XReply::Busy => "Device is busy".to_string(),
            P50XReply::Unknown => "Unknown error".to_string(),
        }
    }
}

/// Only the wire byte `0x00` decodes to the success sentinel `Ok`.
pub proof fn lemma_only_zero_is_ok(value: u8)
    ensures
        spec_reply_of_byte(value) == P50XReply::Okay <==> value == 0x00,
{
}

} // verus!
