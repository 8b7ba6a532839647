use heyrnode::error::ErrorKind;
use heyrnode::rnode::{RadioLock, RadioState, RNODE, RNODE_ERROR};

#[test]
fn command_codes() {
    assert_eq!(RNODE::CMD_DATA.code(), 0x00);
    assert_eq!(RNODE::CMD_FREQUENCY.code(), 0x01);
    assert_eq!(RNODE::CMD_PROMISC.code(), 0x0E);
    assert_eq!(RNODE::CMD_STAT_RX.code(), 0x21);
    assert_eq!(RNODE::CMD_STAT_CHTM.code(), 0x25);
    assert_eq!(RNODE::CMD_STAT_PHYPRM.code(), 0x26);
    assert_eq!(RNODE::CMD_ERROR.code(), 0x90);
    assert_eq!(RNODE_ERROR::EEPROM_LOCKED.code(), 0x03);
}

#[test]
fn radio_state_from_byte() {
    assert_eq!(RadioState::try_from(0).unwrap(), RadioState::OFF);
    assert_eq!(RadioState::try_from(1).unwrap(), RadioState::ON);
    assert_eq!(RadioLock::try_from(1).unwrap(), RadioLock::ON);
    assert_eq!(RadioState::default(), RadioState::OFF);
    assert_eq!(RadioState::ASK.code(), 0xFF);
    assert_eq!(RadioLock::default().code(), 0x00);
    let _ = ErrorKind::Io;
}
