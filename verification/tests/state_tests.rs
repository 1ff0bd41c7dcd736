use dolphin_sparta::config::Config;
use dolphin_sparta::gameplay::PlayerData;
use dolphin_sparta::state::{
    State, Transaction, TransactionKind, ERROR_INVALID_COMMAND, ERROR_PLAYER_ALREADY_EXIST,
    ERROR_PLAYER_NOT_EXIST,
};

#[test]
fn config_values() {
    assert!(Config::autotick());
    assert_eq!(Config::current().version, "1.0");
}

#[test]
fn state_constants() {
    let _ = State::new();
    assert_eq!(State::rand_seed(), 0);
    assert!(!State::preempt());
}

#[test]
fn error_names() {
    assert_eq!(Transaction::decode_error(ERROR_PLAYER_NOT_EXIST), "PlayerNotExist");
    assert_eq!(Transaction::decode_error(ERROR_PLAYER_ALREADY_EXIST), "PlayerAlreadyExist");
    assert_eq!(Transaction::decode_error(ERROR_INVALID_COMMAND), "InvalidCommand");
    assert_eq!(Transaction::decode_error(0), "Unknown");
    assert_eq!(Transaction::decode_error(4), "Unknown");
}

#[test]
fn decode_params() {
    let t = Transaction::decode([(7 << 16) | 0x1_00 | 0x13, 4, 5, 6]);
    assert_eq!(t.command, 0x13);
    assert_eq!(t.nonce, 7);
    assert_eq!(t.data, vec![4, 5, 6]);
    let t = Transaction::decode([u64::MAX, 0, 0, 0]);
    assert_eq!(t.command, 0xff);
    assert_eq!(t.nonce, u64::MAX >> 16);
}

#[test]
fn transaction_kinds() {
    let kind = |command| Transaction { command, nonce: 0, data: vec![0, 0, 0] }.kind();
    assert_eq!(kind(0), TransactionKind::Tick);
    assert_eq!(kind(1), TransactionKind::InstallPlayer);
    assert_eq!(kind(2), TransactionKind::Ignored);
    assert_eq!(kind(15), TransactionKind::Ignored);
    assert_eq!(kind(16), TransactionKind::PlayerCommand);
    assert_eq!(kind(31), TransactionKind::PlayerCommand);
    assert_eq!(kind(32), TransactionKind::Ignored);
}

#[test]
fn install_player_codes() {
    let t = Transaction::decode([1, 0, 0, 0]);
    assert_eq!(t.install_player(true), ERROR_PLAYER_ALREADY_EXIST);
    assert_eq!(t.install_player(false), 0);
}

#[test]
fn player_command_runs_low_four_bits() {
    let t = Transaction::decode([0x11, 0, 0, 0]);
    let mut data = PlayerData::default();
    assert_eq!(t.run_player_command(&mut data, &[0, 0, 0, 0]), 0);
    assert_eq!(data.food_number, 15);
    let t = Transaction::decode([0x1c, 0, 0, 0]);
    let before = data.clone();
    assert_eq!(t.run_player_command(&mut data, &[0, 0, 0, 0]), ERROR_INVALID_COMMAND);
    assert_eq!(data, before);
    let t = Transaction::decode([0x10, 0, 0, 0]);
    assert_eq!(t.run_player_command(&mut data, &[6, 0, 0, 0]), 0);
    assert_eq!(data.dolphins[0].level, 3);
}
