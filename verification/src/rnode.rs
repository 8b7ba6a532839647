use vstd::prelude::*;

verus! {

pub const CMD_DATA: u8 = 0x00;
pub const CMD_FREQUENCY: u8 = 0x01;
pub const CMD_BANDWIDTH: u8 = 0x02;
pub const CMD_TXPOWER: u8 = 0x03;
pub const CMD_SF: u8 = 0x04;
pub const CMD_CR: u8 = 0x05;
pub const CMD_RADIO_STATE: u8 = 0x06;
pub const CMD_RADIO_LOCK: u8 = 0x07;
pub const CMD_DETECT: u8 = 0x08;
pub const CMD_PROMISC: u8 = 0x0E;
pub const CMD_READY: u8 = 0x0F;
pub const CMD_STAT_RX: u8 = 0x21;
pub const CMD_STAT_TX: u8 = 0x22;
pub const CMD_STAT_RSSI: u8 = 0x23;
pub const CMD_STAT_SNR: u8 = 0x24;
pub const CMD_STAT_CHTM: u8 = 0x25;
pub const CMD_STAT_PHYPRM: u8 = 0x26;
pub const CMD_STAT_BAT: u8 = 0x27;
pub const CMD_STAT_TEMP: u8 = 0x29;
pub const CMD_BLINK: u8 = 0x30;
pub const CMD_RANDOM: u8 = 0x40;
pub const CMD_FW_VERSION: u8 = 0x50;
pub const CMD_ROM_READ: u8 = 0x51;
pub const CMD_ERROR: u8 = 0x90;

/// Commands of the RNode serial protocol.
#[derive(Clone, Copy, Debug, PartialEq, Eq)]
#[allow(non_camel_case_types, clippy::upper_case_acronyms)]
pub enum RNODE {
    CMD_DATA,
    CMD_FREQUENCY,
    CMD_BANDWIDTH,
    CMD_TXPOWER,
    CMD_SF,
    CMD_CR,
    CMD_RADIO_STATE,
    CMD_RADIO_LOCK,
    CMD_DETECT,
    CMD_PROMISC,
    CMD_READY,
    CMD_STAT_RX,
    CMD_STAT_TX,
    CMD_STAT_RSSI,
    CMD_STAT_SNR,
    CMD_STAT_CHTM,
    CMD_STAT_PHYPRM,
    CMD_STAT_BAT,
    CMD_STAT_TEMP,
    CMD_BLINK,
    CMD_RANDOM,
    CMD_FW_VERSION,
    CMD_ROM_READ,
    CMD_ERROR,
}

impl RNODE {
    pub open spec fn spec_code(self) -> u8 {
        match self {
            RNODE::CMD_DATA => CMD_DATA,
            RNODE::CMD_FREQUENCY => CMD_FREQUENCY,
            RNODE::CMD_BANDWIDTH => CMD_BANDWIDTH,
            RNODE::CMD_TXPOWER => CMD_TXPOWER,
            RNODE::CMD_SF => CMD_SF,
            RNODE::CMD_CR => CMD_CR,
            RNODE::CMD_RADIO_STATE => CMD_RADIO_STATE,
            RNODE::CMD_RADIO_LOCK => CMD_RADIO_LOCK,
            RNODE::CMD_DETECT => CMD_DETECT,
            RNODE::CMD_PROMISC => CMD_PROMISC,
            RNODE::CMD_READY => CMD_READY,
            RNODE::CMD_STAT_RX => CMD_STAT_RX,
            RNODE::CMD_STAT_TX => CMD_STAT_TX,
            RNODE::CMD_STAT_RSSI => CMD_STAT_RSSI,
            RNODE::CMD_STAT_SNR => CMD_STAT_SNR,
            RNODE::CMD_STAT_CHTM => CMD_STAT_CHTM,
            RNODE::CMD_STAT_PHYPRM => CMD_STAT_PHYPRM,
            RNODE::CMD_STAT_BAT => CMD_STAT_BAT,
            RNODE::CMD_STAT_TEMP => CMD_STAT_TEMP,
            RNODE::CMD_BLINK => CMD_BLINK,
            RNODE::CMD_RANDOM => CMD_RANDOM,
            RNODE::CMD_FW_VERSION => CMD_FW_VERSION,
            RNODE::CMD_ROM_READ => CMD_ROM_READ,
            RNODE::CMD_ERROR => CMD_ERROR,
        }
    }

    /// The command byte that stands for this command on the wire.
    pub fn code(&self) -> (c: u8)
        ensures
            c == self.spec_code(),
    {
        match self {
            RNODE::CMD_DATA => CMD_DATA,
            RNODE::CMD_FREQUENCY => CMD_FREQUENCY,
            RNODE::CMD_BANDWIDTH => CMD_BANDWIDTH,
            RNODE::CMD_TXPOWER => CMD_TXPOWER,
            RNODE::CMD_SF => CMD_SF,
            RNODE::CMD_CR => CMD_CR,
            RNODE::CMD_RADIO_STATE => CMD_RADIO_STATE,
            RNODE::CMD_RADIO_LOCK => CMD_RADIO_LOCK,
            RNODE::CMD_DETECT => CMD_DETECT,
            RNODE::CMD_PROMISC => CMD_PROMISC,
            RNODE::CMD_READY => CMD_READY,
            RNODE::CMD_STAT_RX => CMD_STAT_RX,
            RNODE::CMD_STAT_TX => CMD_STAT_TX,
            RNODE::CMD_STAT_RSSI => CMD_STAT_RSSI,
            RNODE::CMD_STAT_SNR => CMD_STAT_SNR,
            RNODE::CMD_STAT_CHTM => CMD_STAT_CHTM,
            RNODE::CMD_STAT_PHYPRM => CMD_STAT_PHYPRM,
            RNODE::CMD_STAT_BAT => CMD_STAT_BAT,
            RNODE::CMD_STAT_TEMP => CMD_STAT_TEMP,
            RNODE::CMD_BLINK => CMD_BLINK,
            RNODE::CMD_RANDOM => CMD_RANDOM,
            RNODE::CMD_FW_VERSION => CMD_FW_VERSION,
            RNODE::CMD_ROM_READ => CMD_ROM_READ,
            RNODE::CMD_ERROR => CMD_ERROR,
        }
    }
}

/// Error codes that the RNode reports with `CMD_ERROR`.
#[derive(Clone, Copy, Debug, PartialEq, Eq)]
#[allow(non_camel_case_types, clippy::upper_case_acronyms)]
pub enum RNODE_ERROR {
    INITRADIO,
    TXFAILED,
    EEPROM_LOCKED,
}

impl RNODE_ERROR {
    /// The error byte that stands for this error on the wire.
    pub fn code(&self) -> (c: u8)
        ensures
            c == match self {
                RNODE_ERROR::INITRADIO => 0x01u8,
                RNODE_ERROR::TXFAILED => 0x02u8,
                RNODE_ERROR::EEPROM_LOCKED => 0x03u8,
            },
    {
        match self {
            RNODE_ERROR::INITRADIO => 0x01,
            RNODE_ERROR::TXFAILED => 0x02,
            RNODE_ERROR::EEPROM_LOCKED => 0x03,
        }
    }
}

/// State of the radio: off, on, or a request for the current state.
#[derive(Clone, Copy, Debug, PartialEq, Eq)]
#[allow(clippy::upper_case_acronyms)]
pub enum RadioState {
    OFF,
    ON,
    ASK,
}

impl Default for RadioState {
    fn default() -> (s: Self)
        ensures
            s == RadioState::OFF,
    {
        RadioState::OFF
    }
}

impl RadioState {
    /// The byte that stands for this state on the wire.
    pub fn code(&self) -> (c: u8)
        ensures
            c == match self {
                RadioState::OFF => 0x00u8,
                RadioState::ON => 0x01u8,
                RadioState::ASK => 0xFFu8,
            },
    {
        match self {
            RadioState::OFF => 0x00,
            RadioState::ON => 0x01,
            RadioState::ASK => 0xFF,
        }
    }

    /// The state that a reply byte reports: `0x00` is off, `0x01` is on.
    /// Other bytes are not states that a reply carries.
    pub fn try_from(value: u8) -> (r: Result<Self, crate::error::Error>)
        requires
            value == 0x00 || value == 0x01,
        ensures
            r == (if value == 0x00 {
                Ok::<Self, crate::error::Error>(RadioState::OFF)
            } else {
                Ok(RadioState::ON)
            }),
    {
        if value == 0x00 {
            Ok(RadioState::OFF)
        } else {
            Ok(RadioState::ON)
        }
    }
}

/// Whether the radio's parameters are locked.
#[derive(Clone, Copy, Debug, PartialEq, Eq)]
#[allow(clippy::upper_case_acronyms)]
pub enum RadioLock {
    OFF,
    ON,
}

impl Default for RadioLock {
    fn default() -> (l: Self)
        ensures
            l == RadioLock::OFF,
    {
        RadioLock::OFF
    }
}

impl RadioLock {
    /// The byte that stands for this lock state on the wire.
    pub fn code(&self) -> (c: u8)
        ensures
            c == match self {
                RadioLock::OFF => 0x00u8,
                RadioLock::ON => 0x01u8,
            },
    {
        match self {
            RadioLock::OFF => 0x00,
            RadioLock::ON => 0x01,
        }
    }

    /// The lock state that a reply byte reports: `0x00` is off, `0x01` is on.
    pub fn try_from(value: u8) -> (r: Result<Self, crate::error::Error>)
        requires
            value == 0x00 || value == 0x01,
        ensures
            r == (if value == 0x00 {
                Ok::<Self, crate::error::Error>(RadioLock::OFF)
            } else {
                Ok(RadioLock::ON)
            }),
    {
        if value == 0x00 {
            Ok(RadioLock::OFF)
        } else {
            Ok(RadioLock::ON)
        }
    }
}

/// The wire byte of every RNode command.
pub proof fn lemma_command_codes()
    ensures
        RNODE::CMD_DATA.spec_code() == 0x00u8,
        RNODE::CMD_FREQUENCY.spec_code() == 0x01u8,
        RNODE::CMD_BANDWIDTH.spec_code() == 0x02u8,
        RNODE::CMD_TXPOWER.spec_code() == 0x03u8,
        RNODE::CMD_SF.spec_code() == 0x04u8,
        RNODE::CMD_CR.spec_code() == 0x05u8,
        RNODE::CMD_RADIO_STATE.spec_code() == 0x06u8,
        RNODE::CMD_RADIO_LOCK.spec_code() == 0x07u8,
        RNODE::CMD_DETECT.spec_code() == 0x08u8,
        RNODE::CMD_PROMISC.spec_code() == 0x0Eu8,
        RNODE::CMD_READY.spec_code() == 0x0Fu8,
        RNODE::CMD_STAT_RX.spec_code() == 0x21u8,
        RNODE::CMD_STAT_TX.spec_code() == 0x22u8,
        RNODE::CMD_STAT_RSSI.spec_code() == 0x23u8,
        RNODE::CMD_STAT_SNR.spec_code() == 0x24u8,
        RNODE::CMD_STAT_CHTM.spec_code() == 0x25u8,
        RNODE::CMD_STAT_PHYPRM.spec_code() == 0x26u8,
        RNODE::CMD_STAT_BAT.spec_code() == 0x27u8,
        RNODE::CMD_STAT_TEMP.spec_code() == 0x29u8,
        RNODE::CMD_BLINK.spec_code() == 0x30u8,
        RNODE::CMD_RANDOM.spec_code() == 0x40u8,
        RNODE::CMD_FW_VERSION.spec_code() == 0x50u8,
        RNODE::CMD_ROM_READ.spec_code() == 0x51u8,
        RNODE::CMD_ERROR.spec_code() == 0x90u8,
{
}

/// Different commands have different wire bytes.
pub proof fn lemma_command_codes_distinct(a: RNODE, b: RNODE)
    requires
        a != b,
    ensures
        a.spec_code() != b.spec_code(),
{
}

} // verus!
