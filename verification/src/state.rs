use crate::gameplay::{update_allowed_spec, update_state, update_state_spec, PlayerData, PlayerModel};
use vstd::prelude::*;

verus! {

/// A player as the storage holds one: the player's id, the nonce of the
/// next transaction, and the account.
#[derive(Clone, Debug, PartialEq, Eq)]
pub struct DolphinPlayer {
    pub player_id: [u64; 2],
    pub nonce: u64,
    pub data: PlayerData,
}

/// A player as values.
#[verifier::ext_equal]
pub struct DolphinPlayerModel {
    pub player_id: [u64; 2],
    pub nonce: u64,
    pub data: PlayerModel,
}

impl View for DolphinPlayer {
    type V = DolphinPlayerModel;

    open spec fn view(&self) -> DolphinPlayerModel {
        DolphinPlayerModel { player_id: self.player_id, nonce: self.nonce, data: self.data@ }
    }
}

/// The state of the service outside the players and the event queue: none.
#[derive(Clone, Copy, Debug)]
pub struct State {}

impl State {
    pub fn new() -> (s: Self) {
        State {}
    }

    /// The seed of the service's random numbers.
    pub fn rand_seed() -> (r: u64)
        ensures
            r == 0,
    {
        0
    }

    /// The service never preempts.
    pub fn preempt() -> (r: bool)
        ensures
            !r,
    {
        false
    }
}

/// Command number of a tick.
pub const CMD_TICK: u64 = 0;
/// Command number of installing a player.
pub const INSTALL_PLAYER: u64 = 1;

pub const ERROR_PLAYER_ALREADY_EXIST: u32 = 1;
pub const ERROR_PLAYER_NOT_EXIST: u32 = 2;
pub const ERROR_INVALID_COMMAND: u32 = 3;

/// A transaction: command, nonce, and three words of arguments.
#[derive(Clone, Debug, PartialEq, Eq)]
pub struct Transaction {
    pub command: u64,
    pub nonce: u64,
    pub data: Vec<u64>,
}

/// Where a transaction goes.
#[derive(Clone, Copy, Debug, PartialEq, Eq, Structural)]
pub enum TransactionKind {
    /// A player command: its number is the low four bits of the command.
    PlayerCommand,
    Tick,
    InstallPlayer,
    /// Any other command does nothing.
    Ignored,
}

impl Transaction {
    /// The name of an error code.
    pub fn decode_error(e: u32) -> (r: &'static str)
        ensures
            e == ERROR_PLAYER_NOT_EXIST ==> r@ == "PlayerNotExist"@,
            e == ERROR_PLAYER_ALREADY_EXIST ==> r@ == "PlayerAlreadyExist"@,
            e == ERROR_INVALID_COMMAND ==> r@ == "InvalidCommand"@,
            e != ERROR_PLAYER_NOT_EXIST && e != ERROR_PLAYER_ALREADY_EXIST && e
                != ERROR_INVALID_COMMAND ==> r@ == "Unknown"@,
    {
        match e {
            ERROR_PLAYER_NOT_EXIST => "PlayerNotExist",
            ERROR_PLAYER_ALREADY_EXIST => "PlayerAlreadyExist",
            ERROR_INVALID_COMMAND => "InvalidCommand",
            _ => "Unknown",
        }
    }

    /// Reads a transaction from its four parameter words: the command is the
    /// low byte of the first word, the nonce its bits from 16 on, and the
    /// other three words are the arguments.
    pub fn decode(params: [u64; 4]) -> (t: Self)
        ensures
            t.command == params[0] & 0xff,
            t.nonce == params[0] >> 16,
            t.data@ == seq![params[1], params[2], params[3]],
    {
        let command: u64 = params[0] & 0xff;
        let nonce: u64 = params[0] >> 16;
        let data: Vec<u64> = vec![params[1], params[2], params[3]];
        Transaction { command, nonce, data }
    }

    pub open spec fn spec_kind(self) -> TransactionKind {
        if self.command >> 4 == 1 {
            TransactionKind::PlayerCommand
        } else if self.command == CMD_TICK {
            TransactionKind::Tick
        } else if self.command == INSTALL_PLAYER {
            TransactionKind::InstallPlayer
        } else {
            TransactionKind::Ignored
        }
    }

    /// Where the transaction goes: commands 16 to 31 are player commands,
    /// then 0 is a tick and 1 installs the player.
    pub fn kind(&self) -> (k: TransactionKind)
        ensures
            k == self.spec_kind(),
    {
        let cmd_category: u64 = self.command >> 4;
        if cmd_category == 1 {
            TransactionKind::PlayerCommand
        } else if self.command == CMD_TICK {
            TransactionKind::Tick
        } else if self.command == INSTALL_PLAYER {
            TransactionKind::InstallPlayer
        } else {
            TransactionKind::Ignored
        }
    }

    /// Installing a player: refused with `ERROR_PLAYER_ALREADY_EXIST` where
    /// the player exists already, otherwise 0 and the player is created.
    pub fn install_player(&self, already_exists: bool) -> (r: u32)
        ensures
            already_exists ==> r == ERROR_PLAYER_ALREADY_EXIST,
            !already_exists ==> r == 0,
    {
        if already_exists {
            ERROR_PLAYER_ALREADY_EXIST
        } else {
            0
        }
    }

    /// Carries out a player command on the player's account: the command is
    /// the low four bits of `command`, the dolphin the first argument word,
    /// the random number the first word of `rand`. Returns
    /// `ERROR_INVALID_COMMAND` where the command was refused, otherwise 0.
    pub fn run_player_command(&self, data: &mut PlayerData, rand: &[u64; 4]) -> (r: u32)
        requires
            self.data@.len() >= 1,
            update_allowed_spec(self.command & 0xf, old(data)@, self.data@[0]),
        ensures
            final(data)@ == update_state_spec(self.command & 0xf, old(data)@, self.data@[0], rand[0]).1,
            update_state_spec(self.command & 0xf, old(data)@, self.data@[0], rand[0]).0 is Ok ==> r
                == 0,
            update_state_spec(self.command & 0xf, old(data)@, self.data@[0], rand[0]).0 is Err ==> r
                == ERROR_INVALID_COMMAND,
    {
        match update_state(self.command & 0xf, data, self.data[0], rand[0]) {
            Ok(_) => 0,
            Err(_) => ERROR_INVALID_COMMAND,
        }
    }
}

/// Commands 16 to 31 are player commands; otherwise 0 ticks the queue, 1
/// installs the player, and every other command is ignored.
pub proof fn law_transaction_kind(t: Transaction)
    ensures
        16 <= t.command <= 31 ==> t.spec_kind() == TransactionKind::PlayerCommand,
        t.command == 0 ==> t.spec_kind() == TransactionKind::Tick,
        t.command == 1 ==> t.spec_kind() == TransactionKind::InstallPlayer,
        (t.command < 16 || t.command > 31) && t.command != 0 && t.command != 1 ==> t.spec_kind()
            == TransactionKind::Ignored,
{
    let c: u64 = t.command;
    assert(16 <= c <= 31 <==> c >> 4 == 1) by (bit_vector);
}

} // verus!
