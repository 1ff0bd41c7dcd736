use vstd::prelude::*;

verus! {

/// The commands a player can issue, numbered 0 to 9 in this order.
#[derive(Clone, Copy, Debug, PartialEq, Eq, Structural)]
pub enum Command {
    BuyDolphin,
    BuyFood,
    BuyMedicine,
    FeedDolphin,
    HealDolphin,
    AttackEvilWhale,
    BuyPopulationNumber,
    CollectCoins,
    AddCoinsForTestOnly,
    SellDolphin,
}

impl Command {
    pub open spec fn spec_from_code(code: u32) -> Option<Command> {
        if code == 0 {
            Some(Command::BuyDolphin)
        } else if code == 1 {
            Some(Command::BuyFood)
        } else if code == 2 {
            Some(Command::BuyMedicine)
        } else if code == 3 {
            Some(Command::FeedDolphin)
        } else if code == 4 {
            Some(Command::HealDolphin)
        } else if code == 5 {
            Some(Command::AttackEvilWhale)
        } else if code == 6 {
            Some(Command::BuyPopulationNumber)
        } else if code == 7 {
            Some(Command::CollectCoins)
        } else if code == 8 {
            Some(Command::AddCoinsForTestOnly)
        } else if code == 9 {
            Some(Command::SellDolphin)
        } else {
            None
        }
    }

    /// The command with number `code`, if there is one.
    pub fn from_code(code: u32) -> (r: Option<Command>)
        ensures
            r == Self::spec_from_code(code),
    {
        match code {
            0 => Some(Command::BuyDolphin),
            1 => Some(Command::BuyFood),
            2 => Some(Command::BuyMedicine),
            3 => Some(Command::FeedDolphin),
            4 => Some(Command::HealDolphin),
            5 => Some(Command::AttackEvilWhale),
            6 => Some(Command::BuyPopulationNumber),
            7 => Some(Command::CollectCoins),
            8 => Some(Command::AddCoinsForTestOnly),
            9 => Some(Command::SellDolphin),
            _ => None,
        }
    }
}

/// The two kinds of dolphin, numbered 0 and 1.
#[derive(Clone, Copy, Debug, PartialEq, Eq, Structural)]
pub enum DolphinName {
    DolphinPikeman,
    DolphinWarrior,
}

impl DolphinName {
    pub open spec fn spec_code(self) -> u64 {
        match self {
            DolphinName::DolphinPikeman => 0,
            DolphinName::DolphinWarrior => 1,
        }
    }

    pub open spec fn spec_from_code(code: u32) -> Option<DolphinName> {
        if code == 0 {
            Some(DolphinName::DolphinPikeman)
        } else if code == 1 {
            Some(DolphinName::DolphinWarrior)
        } else {
            None
        }
    }

    /// The number of the kind.
    pub fn code(&self) -> (r: u64)
        ensures
            r == self.spec_code(),
    {
        match self {
            DolphinName::DolphinPikeman => 0,
            DolphinName::DolphinWarrior => 1,
        }
    }

    /// The kind with number `code`, if there is one.
    pub fn from_code(code: u32) -> (r: Option<DolphinName>)
        ensures
            r == Self::spec_from_code(code),
    {
        match code {
            0 => Some(DolphinName::DolphinPikeman),
            1 => Some(DolphinName::DolphinWarrior),
            _ => None,
        }
    }

    /// What buying a dolphin of this kind costs.
    pub open spec fn spec_price(self) -> u64 {
        match self {
            DolphinName::DolphinPikeman => 150,
            DolphinName::DolphinWarrior => 100,
        }
    }

    /// What selling a dolphin of this kind pays: half its price.
    pub open spec fn spec_sell_price(self) -> u64 {
        match self {
            DolphinName::DolphinPikeman => 75,
            DolphinName::DolphinWarrior => 50,
        }
    }
}

/// Growth value of a dolphin that has just been born.
pub const LIFE_STAGE_BABY: u64 = 0;

/// A dolphin owned by a player.
#[derive(Clone, Copy, Debug, PartialEq, Eq, Structural)]
pub struct Dolphin {
    pub id: u64,
    pub name: DolphinName,
    pub level: u64,
    /// Growth from 0 (baby) to 100 (grown).
    pub life_stage: u64,
    pub join_time: u64,
    pub health: u64,
    pub satiety: u64,
    pub generated_coins: u64,
    pub collected_coins: u64,
}

impl Dolphin {
    pub open spec fn spec_default() -> Dolphin {
        Dolphin {
            id: 0,
            name: DolphinName::DolphinWarrior,
            level: 1,
            life_stage: LIFE_STAGE_BABY,
            join_time: 0,
            health: 100,
            satiety: 70,
            generated_coins: 0,
            collected_coins: 0,
        }
    }
}

impl Default for Dolphin {
    fn default() -> (r: Self)
        ensures
            r == Dolphin::spec_default(),
    {
        Dolphin {
            id: 0,
            name: DolphinName::DolphinWarrior,
            level: 1,
            life_stage: LIFE_STAGE_BABY,
            join_time: 0,
            health: 100,
            satiety: 70,
            generated_coins: 0,
            collected_coins: 0,
        }
    }
}

/// The data of a player's account as values: what `PlayerData` holds.
#[verifier::ext_equal]
pub struct PlayerModel {
    pub pid: [u64; 2],
    pub coins_balance: u64,
    pub dolphin_token_balance: u64,
    pub dolphin_index: u64,
    pub food_number: u64,
    pub medicine_number: u64,
    pub population_number: u64,
    pub dolphins: Seq<Dolphin>,
}

/// A player's account: balances, stock, and dolphins.
#[derive(Clone, Debug, PartialEq, Eq)]
pub struct PlayerData {
    pub pid: [u64; 2],
    pub coins_balance: u64,
    pub dolphin_token_balance: u64,
    /// The id the next dolphin bought gets.
    pub dolphin_index: u64,
    pub food_number: u64,
    pub medicine_number: u64,
    /// How many dolphins the player may keep.
    pub population_number: u64,
    pub dolphins: Vec<Dolphin>,
}

impl View for PlayerData {
    type V = PlayerModel;

    open spec fn view(&self) -> PlayerModel {
        PlayerModel {
            pid: self.pid,
            coins_balance: self.coins_balance,
            dolphin_token_balance: self.dolphin_token_balance,
            dolphin_index: self.dolphin_index,
            food_number: self.food_number,
            medicine_number: self.medicine_number,
            population_number: self.population_number,
            dolphins: self.dolphins@,
        }
    }
}

/// A new account: 2000 coins, 10 food, 2 medicine, room for 3 dolphins.
pub open spec fn default_player() -> PlayerModel {
    PlayerModel {
        pid: [0, 0],
        coins_balance: 2000,
        dolphin_token_balance: 0,
        dolphin_index: 0,
        food_number: 10,
        medicine_number: 2,
        population_number: 3,
        dolphins: Seq::empty(),
    }
}

impl Default for PlayerData {
    fn default() -> (r: Self)
        ensures
            r@ == default_player(),
    {
        PlayerData {
            pid: [0, 0],
            dolphin_token_balance: 0,
            dolphin_index: 0,
            coins_balance: 2000,
            food_number: 10,
            medicine_number: 2,
            population_number: 3,
            dolphins: Vec::new(),
        }
    }
}

// ---------------------------------------------------------------------
// Finding a dolphin by its id
// ---------------------------------------------------------------------

/// `i` is the first index in `s` of a dolphin with id `id`.
pub open spec fn is_first_with_id(s: Seq<Dolphin>, id: u64, i: int) -> bool {
    &&& 0 <= i < s.len()
    &&& s[i].id == id
    &&& forall|j: int| 0 <= j < i ==> s[j].id != id
}

/// The index of the first dolphin with id `id`, if any has it.
pub open spec fn dolphin_position(s: Seq<Dolphin>, id: u64) -> Option<int> {
    if exists|i: int| is_first_with_id(s, id, i) {
        Some(choose|i: int| is_first_with_id(s, id, i))
    } else {
        None
    }
}

/// Searches the dolphins front to back for the one with id `id`.
pub fn find_dolphin(dolphins: &Vec<Dolphin>, id: u64) -> (r: Option<usize>)
    ensures
        r matches Some(i) ==> dolphin_position(dolphins@, id) == Some(i as int),
        r is None ==> dolphin_position(dolphins@, id) is None,
        r is None <==> (forall|j: int| 0 <= j < dolphins@.len() ==> dolphins@[j].id != id),
{
    let n: usize = dolphins.len();
    let mut i: usize = 0;
    while i < n
        invariant
            0 <= i <= n,
            n == dolphins@.len(),
            forall|j: int| 0 <= j < i ==> dolphins@[j].id != id,
        decreases n - i,
    {
        if dolphins[i].id == id {
            proof {
                let s = dolphins@;
                assert(is_first_with_id(s, id, i as int));
                let c: int = choose|c: int| is_first_with_id(s, id, c);
                if c < i {
                    assert(s[c].id != id);
                } else if c > i {
                    assert(s[i as int].id != id);
                }
            }
            return Some(i);
        }
        i = i + 1;
    }
    None
}

// ---------------------------------------------------------------------
// The rules of the commands
// ---------------------------------------------------------------------

/// The sum of the coins that the dolphins have generated and nobody has
/// collected yet.
pub open spec fn total_generated(s: Seq<Dolphin>) -> int
    decreases s.len(),
{
    if s.len() == 0 {
        0
    } else {
        total_generated(s.drop_last()) + s.last().generated_coins
    }
}

/// A prefix of the dolphins has generated no more than all of them.
pub proof fn lemma_total_generated_prefix(s: Seq<Dolphin>, i: int)
    requires
        0 <= i <= s.len(),
    ensures
        0 <= total_generated(s.take(i)) <= total_generated(s),
    decreases s.len() - i,
{
    if i < s.len() {
        lemma_total_generated_prefix(s, i + 1);
        assert(s.take(i + 1).drop_last() =~= s.take(i));
    } else {
        assert(s.take(i) =~= s);
    }
    lemma_total_generated_nonneg(s.take(i));
}

proof fn lemma_total_generated_nonneg(s: Seq<Dolphin>)
    ensures
        total_generated(s) >= 0,
    decreases s.len(),
{
    if s.len() > 0 {
        lemma_total_generated_nonneg(s.drop_last());
    }
}

/// The dolphin bought with the `dolphin_id` argument and random number `rand`.
pub open spec fn bought_dolphin(p: PlayerModel, name: DolphinName, rand: u64) -> Dolphin {
    Dolphin {
        id: p.dolphin_index,
        name,
        level: (rand % 4 + 1) as u64,
        life_stage: LIFE_STAGE_BABY,
        join_time: 0,
        satiety: 70,
        health: 100,
        generated_coins: 0,
        collected_coins: 0,
    }
}

/// The kind of dolphin a buy command asks for: id 0 is a pikeman, any
/// other a warrior.
pub open spec fn requested_name(dolphin_id: u64) -> DolphinName {
    if dolphin_id == 0 {
        DolphinName::DolphinPikeman
    } else {
        DolphinName::DolphinWarrior
    }
}

pub open spec fn fed(d: Dolphin) -> Dolphin {
    Dolphin { satiety: if d.satiety <= 90 { (d.satiety + 10) as u64 } else { 100 }, ..d }
}

pub open spec fn healed(d: Dolphin) -> Dolphin {
    Dolphin { health: 100, ..d }
}

pub open spec fn wounded(d: Dolphin) -> Dolphin {
    Dolphin { health: 0, satiety: 0, ..d }
}

pub open spec fn emptied(d: Dolphin) -> Dolphin {
    Dolphin { generated_coins: 0, ..d }
}

/// The inputs on which a command runs to its end: the checks of the game
/// pass and no counter leaves the range of `u64`. On all others the command
/// aborts the transaction.
pub open spec fn update_allowed_spec(command: u64, p: PlayerModel, dolphin_id: u64) -> bool {
    match Command::spec_from_code(command as u32) {
        None => true,
        Some(Command::BuyDolphin) => {
            &&& p.coins_balance >= requested_name(dolphin_id).spec_price()
            &&& p.dolphins.len() < p.population_number
            &&& p.dolphin_index < u64::MAX
        },
        Some(Command::BuyFood) => p.coins_balance >= 50 && p.food_number + 5 <= u64::MAX,
        Some(Command::BuyMedicine) => p.coins_balance >= 150 && p.medicine_number + 5 <= u64::MAX,
        Some(Command::FeedDolphin) => {
            &&& p.food_number > 0
            &&& p.dolphins.len() > 0
            &&& dolphin_id < p.dolphin_index
        },
        Some(Command::HealDolphin) => {
            &&& p.medicine_number > 0
            &&& p.dolphins.len() > 0
            &&& dolphin_id < p.dolphin_index
        },
        Some(Command::AttackEvilWhale) => {
            &&& p.dolphins.len() > 0
            &&& p.coins_balance >= 1000
            &&& p.dolphin_token_balance + 50 <= u64::MAX
        },
        Some(Command::BuyPopulationNumber) => p.coins_balance >= 200 && p.population_number + 1
            <= u64::MAX,
        Some(Command::CollectCoins) => {
            &&& p.dolphins.len() > 0
            &&& p.coins_balance + total_generated(p.dolphins) <= u64::MAX
        },
        Some(Command::AddCoinsForTestOnly) => p.coins_balance + 100 <= u64::MAX,
        Some(Command::SellDolphin) => {
            &&& p.dolphins.len() > 0
            &&& dolphin_id < p.dolphin_index
            &&& (dolphin_position(p.dolphins, dolphin_id) matches Some(i) ==> p.coins_balance
                + p.dolphins[i].name.spec_sell_price() <= u64::MAX)
        },
    }
}

/// What a command does to an account, and what it returns.
pub open spec fn update_state_spec(command: u64, p: PlayerModel, dolphin_id: u64, rand: u64) -> (
    Result<(), u32>,
    PlayerModel,
) {
    match Command::spec_from_code(command as u32) {
        None => (Err(1), p),
        Some(Command::BuyDolphin) => {
            let name = requested_name(dolphin_id);
            (
                Ok(()),
                PlayerModel {
                    coins_balance: (p.coins_balance - name.spec_price()) as u64,
                    dolphins: p.dolphins.push(bought_dolphin(p, name, rand)),
                    dolphin_index: (p.dolphin_index + 1) as u64,
                    ..p
                },
            )
        },
        Some(Command::BuyFood) => (
            Ok(()),
            PlayerModel {
                coins_balance: (p.coins_balance - 50) as u64,
                food_number: (p.food_number + 5) as u64,
                ..p
            },
        ),
        Some(Command::BuyMedicine) => (
            Ok(()),
            PlayerModel {
                coins_balance: (p.coins_balance - 150) as u64,
                medicine_number: (p.medicine_number + 5) as u64,
                ..p
            },
        ),
        Some(Command::FeedDolphin) => match dolphin_position(p.dolphins, dolphin_id) {
            None => (Err(1), p),
            Some(i) => (
                Ok(()),
                PlayerModel {
                    food_number: (p.food_number - 1) as u64,
                    dolphins: p.dolphins.update(i, fed(p.dolphins[i])),
                    ..p
                },
            ),
        },
        Some(Command::HealDolphin) => match dolphin_position(p.dolphins, dolphin_id) {
            None => (Err(1), p),
            Some(i) => (
                Ok(()),
                PlayerModel {
                    medicine_number: (p.medicine_number - 1) as u64,
                    dolphins: p.dolphins.update(i, healed(p.dolphins[i])),
                    ..p
                },
            ),
        },
        Some(Command::AttackEvilWhale) => (
            Ok(()),
            PlayerModel {
                coins_balance: (p.coins_balance - 1000) as u64,
                dolphins: p.dolphins.map_values(|d: Dolphin| wounded(d)),
                dolphin_token_balance: (p.dolphin_token_balance + 50) as u64,
                ..p
            },
        ),
        Some(Command::BuyPopulationNumber) => (
            Ok(()),
            PlayerModel {
                coins_balance: (p.coins_balance - 200) as u64,
                population_number: (p.population_number + 1) as u64,
                ..p
            },
        ),
        Some(Command::CollectCoins) => (
            Ok(()),
            PlayerModel {
                coins_balance: (p.coins_balance + total_generated(p.dolphins)) as u64,
                dolphins: p.dolphins.map_values(|d: Dolphin| emptied(d)),
                ..p
            },
        ),
        Some(Command::AddCoinsForTestOnly) => (
            Ok(()),
            PlayerModel { coins_balance: (p.coins_balance + 100) as u64, ..p },
        ),
        Some(Command::SellDolphin) => match dolphin_position(p.dolphins, dolphin_id) {
            None => (Err(1), p),
            Some(i) => (
                Ok(()),
                PlayerModel {
                    coins_balance: (p.coins_balance + p.dolphins[i].name.spec_sell_price()) as u64,
                    dolphins: p.dolphins.remove(i),
                    ..p
                },
            ),
        },
    }
}

// ---------------------------------------------------------------------
// Carrying the commands out
// ---------------------------------------------------------------------

/// Whether the generated coins of all dolphins can be added to the balance
/// without leaving the range of `u64`.
fn collect_fits(player: &PlayerData) -> (r: bool)
    ensures
        r == (player.coins_balance + total_generated(player.dolphins@) <= u64::MAX),
{
    let n: usize = player.dolphins.len();
    let ghost s = player.dolphins@;
    let mut acc: u64 = player.coins_balance;
    let mut i: usize = 0;
    while i < n
        invariant
            0 <= i <= n,
            n == s.len(),
            s == player.dolphins@,
            acc == player.coins_balance + total_generated(s.take(i as int)),
        decreases n - i,
    {
        let g: u64 = player.dolphins[i].generated_coins;
        proof {
            assert(s.take(i + 1).drop_last() =~= s.take(i as int));
            lemma_total_generated_prefix(s, i + 1);
        }
        if g > u64::MAX - acc {
            return false;
        }
        acc = acc + g;
        i = i + 1;
    }
    proof {
        assert(s.take(n as int) =~= s);
    }
    true
}

impl PlayerData {
    /// Whether `update_state` carries `command` out on this account rather
    /// than aborting.
    pub fn update_allowed(&self, command: u64, dolphin_id: u64) -> (r: bool)
        ensures
            r == update_allowed_spec(command, self@, dolphin_id),
    {
        let len: u64 = self.dolphins.len() as u64;
        match Command::from_code(command as u32) {
            None => true,
            Some(Command::BuyDolphin) => {
                let price: u64 = if dolphin_id == 0 { 150 } else { 100 };
                self.coins_balance >= price && len < self.population_number && self.dolphin_index
                    < u64::MAX
            },
            Some(Command::BuyFood) => self.coins_balance >= 50 && self.food_number <= u64::MAX - 5,
            Some(Command::BuyMedicine) => self.coins_balance >= 150 && self.medicine_number
                <= u64::MAX - 5,
            Some(Command::FeedDolphin) => self.food_number > 0 && len > 0 && dolphin_id
                < self.dolphin_index,
            Some(Command::HealDolphin) => self.medicine_number > 0 && len > 0 && dolphin_id
                < self.dolphin_index,
            Some(Command::AttackEvilWhale) => len > 0 && self.coins_balance >= 1000
                && self.dolphin_token_balance <= u64::MAX - 50,
            Some(Command::BuyPopulationNumber) => self.coins_balance >= 200
                && self.population_number < u64::MAX,
            Some(Command::CollectCoins) => len > 0 && collect_fits(self),
            Some(Command::AddCoinsForTestOnly) => self.coins_balance <= u64::MAX - 100,
            Some(Command::SellDolphin) => {
                if !(len > 0 && dolphin_id < self.dolphin_index) {
                    false
                } else {
                    match find_dolphin(&self.dolphins, dolphin_id) {
                        None => true,
                        Some(i) => {
                            let price: u64 = match self.dolphins[i].name {
                                DolphinName::DolphinPikeman => 75,
                                DolphinName::DolphinWarrior => 50,
                            };
                            self.coins_balance <= u64::MAX - price
                        },
                    }
                }
            },
        }
    }
}

fn buy_dolphin(player: &mut PlayerData, dolphin_id: u64, rand: u64)
    requires
        update_allowed_spec(0, old(player)@, dolphin_id),
    ensures
        final(player)@ == update_state_spec(0, old(player)@, dolphin_id, rand).1,
{
    let name = if dolphin_id == 0 {
        DolphinName::DolphinPikeman
    } else {
        DolphinName::DolphinWarrior
    };
    if name == DolphinName::DolphinPikeman {
        player.coins_balance = player.coins_balance - 150;
    } else {
        player.coins_balance = player.coins_balance - 100;
    }
    let level: u64 = rand % 4 + 1;
    player.dolphins.push(
        Dolphin {
            id: player.dolphin_index,
            name,
            level,
            life_stage: LIFE_STAGE_BABY,
            join_time: 0,
            satiety: 70,
            health: 100,
            generated_coins: 0,
            collected_coins: 0,
        },
    );
    player.dolphin_index = player.dolphin_index + 1;
}

fn feed_dolphin(player: &mut PlayerData, dolphin_id: u64) -> (r: Result<(), u32>)
    requires
        update_allowed_spec(3, old(player)@, dolphin_id),
    ensures
        r == update_state_spec(3, old(player)@, dolphin_id, 0).0,
        final(player)@ == update_state_spec(3, old(player)@, dolphin_id, 0).1,
{
    let pos: usize = match find_dolphin(&player.dolphins, dolphin_id) {
        Some(pos) => pos,
        None => {
            return Err(1);
        },
    };
    player.food_number = player.food_number - 1;
    let mut d = player.dolphins[pos];
    if d.satiety <= 90 {
        d.satiety = d.satiety + 10;
    } else {
        d.satiety = 100;
    }
    player.dolphins.set(pos, d);
    Ok(())
}

fn heal_dolphin(player: &mut PlayerData, dolphin_id: u64) -> (r: Result<(), u32>)
    requires
        update_allowed_spec(4, old(player)@, dolphin_id),
    ensures
        r == update_state_spec(4, old(player)@, dolphin_id, 0).0,
        final(player)@ == update_state_spec(4, old(player)@, dolphin_id, 0).1,
{
    let pos: usize = match find_dolphin(&player.dolphins, dolphin_id) {
        Some(pos) => pos,
        None => {
            return Err(1);
        },
    };
    player.medicine_number = player.medicine_number - 1;
    let mut d = player.dolphins[pos];
    d.health = 100;
    player.dolphins.set(pos, d);
    Ok(())
}

fn attack_evil_whale(player: &mut PlayerData)
    requires
        update_allowed_spec(5, old(player)@, 0),
    ensures
        final(player)@ == update_state_spec(5, old(player)@, 0, 0).1,
{
    let ghost old_p = player@;
    player.coins_balance = player.coins_balance - 1000;
    let n: usize = player.dolphins.len();
    let mut i: usize = 0;
    while i < n
        invariant
            0 <= i <= n,
            n == player.dolphins@.len(),
            n == old_p.dolphins.len(),
            forall|k: int| 0 <= k < i ==> player.dolphins@[k] == wounded(old_p.dolphins[k]),
            forall|k: int| i <= k < n ==> player.dolphins@[k] == old_p.dolphins[k],
            player.coins_balance == old_p.coins_balance - 1000,
            player.dolphin_token_balance == old_p.dolphin_token_balance,
            player.dolphin_token_balance + 50 <= u64::MAX,
            player.pid == old_p.pid,
            player.dolphin_index == old_p.dolphin_index,
            player.food_number == old_p.food_number,
            player.medicine_number == old_p.medicine_number,
            player.population_number == old_p.population_number,
        decreases n - i,
    {
        let mut d = player.dolphins[i];
        d.health = 0;
        d.satiety = 0;
        player.dolphins.set(i, d);
        i = i + 1;
    }
    player.dolphin_token_balance = player.dolphin_token_balance + 50;
    assert(player.dolphins@ =~= old_p.dolphins.map_values(|d: Dolphin| wounded(d)));
}

fn collect_coins(player: &mut PlayerData)
    requires
        update_allowed_spec(7, old(player)@, 0),
    ensures
        final(player)@ == update_state_spec(7, old(player)@, 0, 0).1,
{
    let ghost old_p = player@;
    let n: usize = player.dolphins.len();
    let mut i: usize = 0;
    while i < n
        invariant
            0 <= i <= n,
            n == player.dolphins@.len(),
            n == old_p.dolphins.len(),
            forall|k: int| 0 <= k < i ==> player.dolphins@[k] == emptied(old_p.dolphins[k]),
            forall|k: int| i <= k < n ==> player.dolphins@[k] == old_p.dolphins[k],
            player.coins_balance == old_p.coins_balance + total_generated(
                old_p.dolphins.take(i as int),
            ),
            old_p.coins_balance + total_generated(old_p.dolphins) <= u64::MAX,
            player.dolphin_token_balance == old_p.dolphin_token_balance,
            player.pid == old_p.pid,
            player.dolphin_index == old_p.dolphin_index,
            player.food_number == old_p.food_number,
            player.medicine_number == old_p.medicine_number,
            player.population_number == old_p.population_number,
        decreases n - i,
    {
        let mut d = player.dolphins[i];
        proof {
            assert(old_p.dolphins.take(i + 1).drop_last() =~= old_p.dolphins.take(i as int));
            lemma_total_generated_prefix(old_p.dolphins, i + 1);
        }
        player.coins_balance = player.coins_balance + d.generated_coins;
        d.generated_coins = 0;
        d.collected_coins = d.collected_coins + d.generated_coins;
        player.dolphins.set(i, d);
        i = i + 1;
    }
    assert(old_p.dolphins.take(n as int) =~= old_p.dolphins);
    assert(player.dolphins@ =~= old_p.dolphins.map_values(|d: Dolphin| emptied(d)));
}

fn sell_dolphin(player: &mut PlayerData, dolphin_id: u64) -> (r: Result<(), u32>)
    requires
        update_allowed_spec(9, old(player)@, dolphin_id),
    ensures
        r == update_state_spec(9, old(player)@, dolphin_id, 0).0,
        final(player)@ == update_state_spec(9, old(player)@, dolphin_id, 0).1,
{
    let pos: usize = match find_dolphin(&player.dolphins, dolphin_id) {
        Some(pos) => pos,
        None => {
            return Err(1);
        },
    };
    let sell_price: u64 = match player.dolphins[pos].name {
        DolphinName::DolphinPikeman => 75,
        DolphinName::DolphinWarrior => 50,
    };
    player.coins_balance = player.coins_balance + sell_price;
    player.dolphins.remove(pos);
    Ok(())
}

/// Carries out a player's command on their account.
///
/// `command` is read as a `u32` and names a `Command`; anything else is
/// refused with `Err(1)`. Feeding, healing and selling name a dolphin by
/// its id in `dolphin_id` and are refused with `Err(1)` where the player has
/// no such dolphin. Buying reads `dolphin_id` as the kind (0 a pikeman,
/// otherwise a warrior) and `rand` for the level.
pub fn update_state(command: u64, player: &mut PlayerData, dolphin_id: u64, rand: u64) -> (r: Result<(), u32>)
    requires
        update_allowed_spec(command, old(player)@, dolphin_id),
    ensures
        r == update_state_spec(command, old(player)@, dolphin_id, rand).0,
        final(player)@ == update_state_spec(command, old(player)@, dolphin_id, rand).1,
{
    let code: u32 = command as u32;
    match Command::from_code(code) {
        None => Err(1),
        Some(Command::BuyDolphin) => {
            buy_dolphin(player, dolphin_id, rand);
            Ok(())
        },
        Some(Command::BuyFood) => {
            player.coins_balance = player.coins_balance - 50;
            player.food_number = player.food_number + 5;
            Ok(())
        },
        Some(Command::BuyMedicine) => {
            player.coins_balance = player.coins_balance - 150;
            player.medicine_number = player.medicine_number + 5;
            Ok(())
        },
        Some(Command::FeedDolphin) => feed_dolphin(player, dolphin_id),
        Some(Command::HealDolphin) => heal_dolphin(player, dolphin_id),
        Some(Command::AttackEvilWhale) => {
            attack_evil_whale(player);
            Ok(())
        },
        Some(Command::BuyPopulationNumber) => {
            player.coins_balance = player.coins_balance - 200;
            player.population_number = player.population_number + 1;
            Ok(())
        },
        Some(Command::CollectCoins) => {
            collect_coins(player);
            Ok(())
        },
        Some(Command::AddCoinsForTestOnly) => {
            player.coins_balance = player.coins_balance + 100;
            Ok(())
        },
        Some(Command::SellDolphin) => sell_dolphin(player, dolphin_id),
    }
}

// ---------------------------------------------------------------------
// The word encoding of accounts
// ---------------------------------------------------------------------

/// A decoding result with its end position as a mathematical integer.
pub open spec fn at_int<T>(r: Option<(T, usize)>) -> Option<(T, int)> {
    match r {
        Some((v, e)) => Some((v, e as int)),
        None => None,
    }
}

/// The nine words a dolphin is stored as.
pub open spec fn dolphin_words(d: Dolphin) -> Seq<u64> {
    seq![
        d.id,
        d.name.spec_code(),
        d.level,
        d.life_stage,
        d.join_time,
        d.health,
        d.satiety,
        d.generated_coins,
        d.collected_coins,
    ]
}

/// The dolphin stored at `pos` and the position after it; none where fewer
/// than nine words are left or the kind word, read as a `u32`, names no
/// kind.
pub open spec fn decode_dolphin(data: Seq<u64>, pos: int) -> Option<(Dolphin, int)> {
    if 0 <= pos && pos + 9 <= data.len() {
        match DolphinName::spec_from_code(data[pos + 1] as u32) {
            Some(name) => Some(
                (
                    Dolphin {
                        id: data[pos],
                        name,
                        level: data[pos + 2],
                        life_stage: data[pos + 3],
                        join_time: data[pos + 4],
                        health: data[pos + 5],
                        satiety: data[pos + 6],
                        generated_coins: data[pos + 7],
                        collected_coins: data[pos + 8],
                    },
                    pos + 9,
                ),
            ),
            None => None,
        }
    } else {
        None
    }
}

/// The words of a sequence of dolphins, one after the other.
pub open spec fn dolphins_words(s: Seq<Dolphin>) -> Seq<u64>
    decreases s.len(),
{
    if s.len() == 0 {
        Seq::empty()
    } else {
        dolphins_words(s.drop_last()) + dolphin_words(s.last())
    }
}

/// `n` dolphins stored one after the other from `pos`.
pub open spec fn decode_dolphins(data: Seq<u64>, pos: int, n: nat) -> Option<(Seq<Dolphin>, int)>
    decreases n,
{
    if n == 0 {
        Some((Seq::empty(), pos))
    } else {
        match decode_dolphins(data, pos, (n - 1) as nat) {
            None => None,
            Some((ds, c)) => match decode_dolphin(data, c) {
                None => None,
                Some((d, e)) => Some((ds.push(d), e)),
            },
        }
    }
}

/// The words an account is stored as: eight words of balances, the number
/// of dolphins, then the dolphins.
pub open spec fn player_words(p: PlayerModel) -> Seq<u64> {
    seq![
        p.pid[0],
        p.pid[1],
        p.coins_balance,
        p.dolphin_token_balance,
        p.dolphin_index,
        p.food_number,
        p.medicine_number,
        p.population_number,
        p.dolphins.len() as u64,
    ] + dolphins_words(p.dolphins)
}

/// The account stored at `pos` and the position after it.
pub open spec fn decode_player(data: Seq<u64>, pos: int) -> Option<(PlayerModel, int)> {
    if 0 <= pos && pos + 9 <= data.len() {
        match decode_dolphins(data, pos + 9, (data[pos + 8] as usize) as nat) {
            None => None,
            Some((ds, e)) => Some(
                (
                    PlayerModel {
                        pid: [data[pos], data[pos + 1]],
                        coins_balance: data[pos + 2],
                        dolphin_token_balance: data[pos + 3],
                        dolphin_index: data[pos + 4],
                        food_number: data[pos + 5],
                        medicine_number: data[pos + 6],
                        population_number: data[pos + 7],
                        dolphins: ds,
                    },
                    e,
                ),
            ),
        }
    } else {
        None
    }
}

impl Dolphin {
    /// Appends the dolphin's words.
    pub fn to_data(&self, data: &mut Vec<u64>)
        ensures
            final(data)@ == old(data)@ + dolphin_words(*self),
    {
        data.push(self.id);
        data.push(self.name.code());
        data.push(self.level);
        data.push(self.life_stage);
        data.push(self.join_time);
        data.push(self.health);
        data.push(self.satiety);
        data.push(self.generated_coins);
        data.push(self.collected_coins);
    }

    /// Reads the dolphin stored at `pos`.
    pub fn from_data(data: &[u64], pos: usize) -> (r: Option<(Dolphin, usize)>)
        ensures
            at_int(r) == decode_dolphin(data@, pos as int),
    {
        let n: usize = data.len();
        if pos > n || n - pos < 9 {
            return None;
        }
        let name = match DolphinName::from_code(data[pos + 1] as u32) {
            Some(name) => name,
            None => {
                return None;
            },
        };
        let d = Dolphin {
            id: data[pos],
            name,
            level: data[pos + 2],
            life_stage: data[pos + 3],
            join_time: data[pos + 4],
            health: data[pos + 5],
            satiety: data[pos + 6],
            generated_coins: data[pos + 7],
            collected_coins: data[pos + 8],
        };
        Some((d, pos + 9))
    }
}

impl PlayerData {
    /// Appends the account's words.
    pub fn to_data(&self, data: &mut Vec<u64>)
        ensures
            final(data)@ == old(data)@ + player_words(self@),
    {
        let ghost start = data@;
        data.push(self.pid[0]);
        data.push(self.pid[1]);
        data.push(self.coins_balance);
        data.push(self.dolphin_token_balance);
        data.push(self.dolphin_index);
        data.push(self.food_number);
        data.push(self.medicine_number);
        data.push(self.population_number);
        data.push(self.dolphins.len() as u64);
        let ghost header = data@;
        let n: usize = self.dolphins.len();
        let mut i: usize = 0;
        while i < n
            invariant
                0 <= i <= n,
                n == self.dolphins@.len(),
                data@ == header + dolphins_words(self.dolphins@.take(i as int)),
            decreases n - i,
        {
            self.dolphins[i].to_data(data);
            proof {
                assert(self.dolphins@.take(i + 1).drop_last() =~= self.dolphins@.take(i as int));
            }
            i = i + 1;
        }
        proof {
            assert(self.dolphins@.take(n as int) =~= self.dolphins@);
            assert(header =~= start + seq![
                self.pid[0],
                self.pid[1],
                self.coins_balance,
                self.dolphin_token_balance,
                self.dolphin_index,
                self.food_number,
                self.medicine_number,
                self.population_number,
                self.dolphins@.len() as u64,
            ]);
        }
    }

    /// Reads the account stored at `pos`.
    pub fn from_data(data: &[u64], pos: usize) -> (r: Option<(PlayerData, usize)>)
        ensures
            match r {
                Some((p, e)) => decode_player(data@, pos as int) == Some((p@, e as int)),
                None => decode_player(data@, pos as int) is None,
            },
    {
        let len: usize = data.len();
        if pos > len || len - pos < 9 {
            return None;
        }
        let dsize: usize = data[pos + 8] as usize;
        let mut dolphins: Vec<Dolphin> = Vec::new();
        let mut cur: usize = pos + 9;
        let mut i: usize = 0;
        while i < dsize
            invariant
                0 <= i <= dsize,
                len == data@.len(),
                pos + 9 <= len,
                dsize == data@[pos + 8] as usize,
                decode_dolphins(data@, pos + 9, i as nat) == Some((dolphins@, cur as int)),
            decreases dsize - i,
        {
            match Dolphin::from_data(data, cur) {
                None => {
                    proof {
                        assert(decode_dolphins(data@, pos + 9, (i + 1) as nat) is None);
                        lemma_decode_dolphins_none_grows(data@, pos + 9, (i + 1) as nat, dsize as nat);
                    }
                    return None;
                },
                Some((d, next)) => {
                    dolphins.push(d);
                    cur = next;
                },
            }
            i = i + 1;
        }
        let p = PlayerData {
            pid: [data[pos], data[pos + 1]],
            coins_balance: data[pos + 2],
            dolphin_token_balance: data[pos + 3],
            dolphin_index: data[pos + 4],
            food_number: data[pos + 5],
            medicine_number: data[pos + 6],
            population_number: data[pos + 7],
            dolphins,
        };
        Some((p, cur))
    }
}

/// Once reading `n` dolphins fails, reading more fails too.
proof fn lemma_decode_dolphins_none_grows(data: Seq<u64>, pos: int, n: nat, m: nat)
    requires
        n <= m,
        decode_dolphins(data, pos, n) is None,
    ensures
        decode_dolphins(data, pos, m) is None,
    decreases m - n,
{
    if n < m {
        lemma_decode_dolphins_none_grows(data, pos, n + 1, m);
    }
}

pub proof fn lemma_dolphins_words_len(s: Seq<Dolphin>)
    ensures
        dolphins_words(s).len() == 9 * s.len(),
    decreases s.len(),
{
    if s.len() > 0 {
        lemma_dolphins_words_len(s.drop_last());
    }
}

/// A stored dolphin reads back as itself.
pub proof fn lemma_dolphin_roundtrip(prefix: Seq<u64>, d: Dolphin, rest: Seq<u64>)
    ensures
        decode_dolphin(prefix + dolphin_words(d) + rest, prefix.len() as int) == Some(
            (d, prefix.len() + 9int),
        ),
{
    let data = prefix + dolphin_words(d) + rest;
    let p: int = prefix.len() as int;
    assert(data[p] == d.id);
    assert(data[p + 1] == d.name.spec_code());
    assert(data[p + 2] == d.level);
    assert(data[p + 3] == d.life_stage);
    assert(data[p + 4] == d.join_time);
    assert(data[p + 5] == d.health);
    assert(data[p + 6] == d.satiety);
    assert(data[p + 7] == d.generated_coins);
    assert(data[p + 8] == d.collected_coins);
}

/// Stored dolphins read back as themselves.
pub proof fn lemma_dolphins_roundtrip(prefix: Seq<u64>, ds: Seq<Dolphin>, rest: Seq<u64>)
    ensures
        decode_dolphins(prefix + dolphins_words(ds) + rest, prefix.len() as int, ds.len())
            == Some((ds, prefix.len() + 9 * ds.len() as int)),
    decreases ds.len(),
{
    if ds.len() > 0 {
        let init = ds.drop_last();
        let last = ds.last();
        let rest2 = dolphin_words(last) + rest;
        assert(prefix + dolphins_words(ds) + rest =~= prefix + dolphins_words(init) + rest2);
        lemma_dolphins_roundtrip(prefix, init, rest2);
        lemma_dolphins_words_len(init);
        let pre2 = prefix + dolphins_words(init);
        assert(prefix + dolphins_words(init) + rest2 =~= pre2 + dolphin_words(last) + rest);
        lemma_dolphin_roundtrip(pre2, last, rest);
        assert(init.push(last) =~= ds);
    } else {
        assert(prefix + dolphins_words(ds) + rest =~= prefix + rest);
    }
}

/// A stored account reads back as itself.
pub proof fn lemma_player_roundtrip(prefix: Seq<u64>, p: PlayerModel, rest: Seq<u64>)
    requires
        p.dolphins.len() <= usize::MAX,
    ensures
        decode_player(prefix + player_words(p) + rest, prefix.len() as int) == Some(
            (p, prefix.len() + player_words(p).len() as int),
        ),
{
    let header = seq![
        p.pid[0],
        p.pid[1],
        p.coins_balance,
        p.dolphin_token_balance,
        p.dolphin_index,
        p.food_number,
        p.medicine_number,
        p.population_number,
        p.dolphins.len() as u64,
    ];
    let data = prefix + player_words(p) + rest;
    let pos: int = prefix.len() as int;
    assert(data =~= (prefix + header) + dolphins_words(p.dolphins) + rest);
    lemma_dolphins_roundtrip(prefix + header, p.dolphins, rest);
    lemma_dolphins_words_len(p.dolphins);
    assert(data[pos + 8] == p.dolphins.len() as u64);
    assert(data[pos] == p.pid[0]);
    assert(data[pos + 1] == p.pid[1]);
    assert(data[pos + 2] == p.coins_balance);
    assert(data[pos + 7] == p.population_number);
    let dec = decode_player(data, pos).unwrap().0;
    assert(dec.pid =~= p.pid);
    assert(dec =~= p);
}

// ---------------------------------------------------------------------
// What every command keeps
// ---------------------------------------------------------------------

/// A dolphin as the game makes them: level 1 to 4, health, satiety and
/// growth at most 100, and at most 1000 uncollected coins per level.
pub open spec fn dolphin_ok(d: Dolphin) -> bool {
    &&& 1 <= d.level <= 4
    &&& d.health <= 100
    &&& d.satiety <= 100
    &&& d.life_stage <= 100
    &&& d.generated_coins <= 1000 * d.level
}

/// An account as the game keeps them: no more dolphins than room for them,
/// every dolphin as the game makes them, and ids that grow along the list
/// and stay below the next id to give.
pub open spec fn account_invariant(p: PlayerModel) -> bool {
    &&& p.dolphins.len() <= p.population_number
    &&& forall|i: int| 0 <= i < p.dolphins.len() ==> #[trigger] dolphin_ok(p.dolphins[i])
    &&& forall|i: int| 0 <= i < p.dolphins.len() ==> #[trigger] p.dolphins[i].id < p.dolphin_index
    &&& forall|i: int, j: int|
        0 <= i < j < p.dolphins.len() ==> #[trigger] p.dolphins[i].id < #[trigger] p.dolphins[j].id
}

/// A new account keeps the invariant.
pub proof fn lemma_default_player_invariant()
    ensures
        account_invariant(default_player()),
{
}

/// Every command that runs to its end keeps the invariant of the account.
pub proof fn lemma_update_keeps_invariant(command: u64, p: PlayerModel, dolphin_id: u64, rand: u64)
    requires
        account_invariant(p),
        update_allowed_spec(command, p, dolphin_id),
    ensures
        account_invariant(update_state_spec(command, p, dolphin_id, rand).1),
{
    let q = update_state_spec(command, p, dolphin_id, rand).1;
    match Command::spec_from_code(command as u32) {
        Some(Command::BuyDolphin) => {
            let d = bought_dolphin(p, requested_name(dolphin_id), rand);
            assert(q.dolphins == p.dolphins.push(d));
            assert forall|i: int| 0 <= i < q.dolphins.len() implies #[trigger] dolphin_ok(q.dolphins[i]) by {
                if i < p.dolphins.len() {
                    assert(q.dolphins[i] == p.dolphins[i]);
                }
            }
            assert forall|i: int| 0 <= i < q.dolphins.len() implies #[trigger] q.dolphins[i].id
                < q.dolphin_index by {
                if i < p.dolphins.len() {
                    assert(q.dolphins[i] == p.dolphins[i]);
                }
            }
            assert forall|i: int, j: int| 0 <= i < j < q.dolphins.len() implies #[trigger] q.dolphins[i].id
                < #[trigger] q.dolphins[j].id by {
                assert(q.dolphins[i] == p.dolphins[i]);
                if j < p.dolphins.len() {
                    assert(q.dolphins[j] == p.dolphins[j]);
                }
            }
        },
        Some(Command::FeedDolphin) | Some(Command::HealDolphin) => {
            match dolphin_position(p.dolphins, dolphin_id) {
                Some(k) => {
                    assert(is_first_with_id(p.dolphins, dolphin_id, k));
                    assert forall|i: int| 0 <= i < q.dolphins.len() implies #[trigger] dolphin_ok(
                        q.dolphins[i],
                    ) by {
                        assert(dolphin_ok(p.dolphins[i]));
                    }
                    assert forall|i: int| 0 <= i < q.dolphins.len() implies #[trigger] q.dolphins[i].id
                        < q.dolphin_index by {
                        assert(p.dolphins[i].id < p.dolphin_index);
                    }
                    assert forall|i: int, j: int| 0 <= i < j < q.dolphins.len() implies #[trigger] q.dolphins[i].id
                        < #[trigger] q.dolphins[j].id by {
                        assert(p.dolphins[i].id < p.dolphins[j].id);
                    }
                },
                None => {},
            }
        },
        Some(Command::AttackEvilWhale) | Some(Command::CollectCoins) => {
            assert forall|i: int| 0 <= i < q.dolphins.len() implies #[trigger] dolphin_ok(q.dolphins[i]) by {
                assert(dolphin_ok(p.dolphins[i]));
            }
            assert forall|i: int| 0 <= i < q.dolphins.len() implies #[trigger] q.dolphins[i].id
                < q.dolphin_index by {
                assert(p.dolphins[i].id < p.dolphin_index);
            }
            assert forall|i: int, j: int| 0 <= i < j < q.dolphins.len() implies #[trigger] q.dolphins[i].id
                < #[trigger] q.dolphins[j].id by {
                assert(p.dolphins[i].id < p.dolphins[j].id);
            }
        },
        Some(Command::SellDolphin) => {
            match dolphin_position(p.dolphins, dolphin_id) {
                Some(k) => {
                    assert(is_first_with_id(p.dolphins, dolphin_id, k));
                    let r = p.dolphins.remove(k);
                    assert(q.dolphins == r);
                    assert forall|i: int| 0 <= i < r.len() implies #[trigger] dolphin_ok(r[i]) by {
                        if i < k {
                            assert(r[i] == p.dolphins[i]);
                        } else {
                            assert(r[i] == p.dolphins[i + 1]);
                        }
                    }
                    assert forall|i: int| 0 <= i < r.len() implies #[trigger] r[i].id < q.dolphin_index by {
                        if i < k {
                            assert(r[i] == p.dolphins[i]);
                        } else {
                            assert(r[i] == p.dolphins[i + 1]);
                        }
                    }
                    assert forall|i: int, j: int| 0 <= i < j < r.len() implies #[trigger] r[i].id
                        < #[trigger] r[j].id by {
                        let i2: int = if i < k { i } else { i + 1 };
                        let j2: int = if j < k { j } else { j + 1 };
                        assert(r[i] == p.dolphins[i2]);
                        assert(r[j] == p.dolphins[j2]);
                        assert(p.dolphins[i2].id < p.dolphins[j2].id);
                    }
                },
                None => {},
            }
        },
        _ => {},
    }
}

/// A command that is refused leaves the account as it was.
pub proof fn lemma_refused_command_changes_nothing(command: u64, p: PlayerModel, dolphin_id: u64, rand: u64)
    requires
        update_state_spec(command, p, dolphin_id, rand).0 is Err,
    ensures
        update_state_spec(command, p, dolphin_id, rand).1 == p,
        update_state_spec(command, p, dolphin_id, rand).0 == Err::<(), u32>(1),
{
}

// ---------------------------------------------------------------------
// What each command does, field by field
// ---------------------------------------------------------------------

/// The sum of the generated coins of all dolphins, healthy or not.
pub proof fn lemma_total_generated_is_sum(s: Seq<Dolphin>)
    ensures
        total_generated(s) == s.fold_left(0int, |acc: int, d: Dolphin| acc + d.generated_coins),
    decreases s.len(),
{
    if s.len() > 0 {
        lemma_total_generated_is_sum(s.drop_last());
    }
}

/// A number that names no command is refused with 1 and changes nothing.
pub proof fn law_unknown_command(command: u64, p: PlayerModel, dolphin_id: u64, rand: u64)
    requires
        command as u32 > 9,
    ensures
        update_allowed_spec(command, p, dolphin_id),
        update_state_spec(command, p, dolphin_id, rand).0 == Err::<(), u32>(1),
        update_state_spec(command, p, dolphin_id, rand).1 == p,
{
}

/// Buying food costs 50 coins and gives 5 food. It runs exactly when the
/// player has 50 coins and the food count stays in range.
pub proof fn law_buy_food(command: u64, p: PlayerModel, dolphin_id: u64, rand: u64)
    requires
        command as u32 == 1,
    ensures
        update_allowed_spec(command, p, dolphin_id) <==> (p.coins_balance >= 50 && p.food_number + 5
            <= u64::MAX),
        update_allowed_spec(command, p, dolphin_id) ==> {
            let (r, q) = update_state_spec(command, p, dolphin_id, rand);
            &&& r == Ok::<(), u32>(())
            &&& q.coins_balance + 50 == p.coins_balance
            &&& q.food_number == p.food_number + 5
            &&& q == PlayerModel { coins_balance: q.coins_balance, food_number: q.food_number, ..p }
        },
{
}

/// Buying medicine costs 150 coins and gives 5 medicine. It runs exactly
/// when the player has 150 coins and the count stays in range.
pub proof fn law_buy_medicine(command: u64, p: PlayerModel, dolphin_id: u64, rand: u64)
    requires
        command as u32 == 2,
    ensures
        update_allowed_spec(command, p, dolphin_id) <==> (p.coins_balance >= 150 && p.medicine_number
            + 5 <= u64::MAX),
        update_allowed_spec(command, p, dolphin_id) ==> {
            let (r, q) = update_state_spec(command, p, dolphin_id, rand);
            &&& r == Ok::<(), u32>(())
            &&& q.coins_balance + 150 == p.coins_balance
            &&& q.medicine_number == p.medicine_number + 5
            &&& q == PlayerModel {
                coins_balance: q.coins_balance,
                medicine_number: q.medicine_number,
                ..p
            }
        },
{
}

/// Buying room for one more dolphin costs 200 coins. It runs exactly when
/// the player has 200 coins and the room count stays in range.
pub proof fn law_buy_population(command: u64, p: PlayerModel, dolphin_id: u64, rand: u64)
    requires
        command as u32 == 6,
    ensures
        update_allowed_spec(command, p, dolphin_id) <==> (p.coins_balance >= 200
            && p.population_number + 1 <= u64::MAX),
        update_allowed_spec(command, p, dolphin_id) ==> {
            let (r, q) = update_state_spec(command, p, dolphin_id, rand);
            &&& r == Ok::<(), u32>(())
            &&& q.coins_balance + 200 == p.coins_balance
            &&& q.population_number == p.population_number + 1
            &&& q == PlayerModel {
                coins_balance: q.coins_balance,
                population_number: q.population_number,
                ..p
            }
        },
{
}

/// The test command gives 100 coins, whenever the balance stays in range.
pub proof fn law_add_coins(command: u64, p: PlayerModel, dolphin_id: u64, rand: u64)
    requires
        command as u32 == 8,
    ensures
        update_allowed_spec(command, p, dolphin_id) <==> p.coins_balance + 100 <= u64::MAX,
        update_allowed_spec(command, p, dolphin_id) ==> {
            let (r, q) = update_state_spec(command, p, dolphin_id, rand);
            &&& r == Ok::<(), u32>(())
            &&& q.coins_balance == p.coins_balance + 100
            &&& q == PlayerModel { coins_balance: q.coins_balance, ..p }
        },
{
}

/// Buying a dolphin costs 150 coins for a pikeman (kind 0) and 100 for a
/// warrior (any other kind). It runs exactly when the player can pay, has
/// room for one more dolphin, and the next id stays in range. The new
/// dolphin goes last, has the next id, level `rand % 4 + 1`, full health,
/// satiety 70, and nothing else.
pub proof fn law_buy_dolphin(command: u64, p: PlayerModel, dolphin_id: u64, rand: u64)
    requires
        command as u32 == 0,
    ensures
        update_allowed_spec(command, p, dolphin_id) <==> {
            &&& p.coins_balance >= (if dolphin_id == 0 { 150int } else { 100int })
            &&& p.dolphins.len() < p.population_number
            &&& p.dolphin_index < u64::MAX
        },
        update_allowed_spec(command, p, dolphin_id) ==> {
            let (r, q) = update_state_spec(command, p, dolphin_id, rand);
            &&& r == Ok::<(), u32>(())
            &&& q.coins_balance + (if dolphin_id == 0 { 150int } else { 100int }) == p.coins_balance
            &&& q.dolphin_index == p.dolphin_index + 1
            &&& q.dolphins.len() == p.dolphins.len() + 1
            &&& forall|j: int| 0 <= j < p.dolphins.len() ==> q.dolphins[j] == p.dolphins[j]
            &&& q.dolphins.last() == Dolphin {
                id: p.dolphin_index,
                name: if dolphin_id == 0 {
                    DolphinName::DolphinPikeman
                } else {
                    DolphinName::DolphinWarrior
                },
                level: (rand % 4 + 1) as u64,
                life_stage: 0,
                join_time: 0,
                health: 100,
                satiety: 70,
                generated_coins: 0,
                collected_coins: 0,
            }
            &&& 1 <= q.dolphins.last().level <= 4
            &&& q == PlayerModel {
                coins_balance: q.coins_balance,
                dolphin_index: q.dolphin_index,
                dolphins: q.dolphins,
                ..p
            }
        },
{
    if update_allowed_spec(command, p, dolphin_id) {
        let q = update_state_spec(command, p, dolphin_id, rand).1;
        assert forall|j: int| 0 <= j < p.dolphins.len() implies q.dolphins[j] == p.dolphins[j] by {}
    }
}

/// Feeding the first dolphin with the id spends one food and raises its
/// satiety by 10, to at most 100; nothing else changes.
pub proof fn law_feed_dolphin(command: u64, p: PlayerModel, dolphin_id: u64, rand: u64, i: int)
    requires
        command as u32 == 3,
        0 <= i < p.dolphins.len(),
        p.dolphins[i].id == dolphin_id,
        forall|j: int| 0 <= j < i ==> p.dolphins[j].id != dolphin_id,
    ensures
        update_allowed_spec(command, p, dolphin_id) <==> (p.food_number > 0 && dolphin_id
            < p.dolphin_index),
        update_allowed_spec(command, p, dolphin_id) ==> {
            let (r, q) = update_state_spec(command, p, dolphin_id, rand);
            let d = p.dolphins[i];
            &&& r == Ok::<(), u32>(())
            &&& q.food_number + 1 == p.food_number
            &&& q.dolphins.len() == p.dolphins.len()
            &&& q.dolphins[i] == Dolphin {
                satiety: if d.satiety <= 90 {
                    (d.satiety + 10) as u64
                } else {
                    100
                },
                ..d
            }
            &&& q.dolphins[i].satiety == if d.satiety + 10 <= 100 { d.satiety + 10 } else { 100 }
            &&& forall|j: int| 0 <= j < p.dolphins.len() && j != i ==> q.dolphins[j] == p.dolphins[j]
            &&& q == PlayerModel { food_number: q.food_number, dolphins: q.dolphins, ..p }
        },
{
    assert(is_first_with_id(p.dolphins, dolphin_id, i));
    lemma_position_is_first(p.dolphins, dolphin_id, i);
}

/// Healing the first dolphin with the id spends one medicine and makes its
/// health 100, whatever it was; nothing else changes.
pub proof fn law_heal_dolphin(command: u64, p: PlayerModel, dolphin_id: u64, rand: u64, i: int)
    requires
        command as u32 == 4,
        0 <= i < p.dolphins.len(),
        p.dolphins[i].id == dolphin_id,
        forall|j: int| 0 <= j < i ==> p.dolphins[j].id != dolphin_id,
    ensures
        update_allowed_spec(command, p, dolphin_id) <==> (p.medicine_number > 0 && dolphin_id
            < p.dolphin_index),
        update_allowed_spec(command, p, dolphin_id) ==> {
            let (r, q) = update_state_spec(command, p, dolphin_id, rand);
            &&& r == Ok::<(), u32>(())
            &&& q.medicine_number + 1 == p.medicine_number
            &&& q.dolphins.len() == p.dolphins.len()
            &&& q.dolphins[i].health == 100
            &&& q.dolphins[i] == Dolphin { health: 100, ..p.dolphins[i] }
            &&& forall|j: int| 0 <= j < p.dolphins.len() && j != i ==> q.dolphins[j] == p.dolphins[j]
            &&& q == PlayerModel { medicine_number: q.medicine_number, dolphins: q.dolphins, ..p }
        },
{
    assert(is_first_with_id(p.dolphins, dolphin_id, i));
    lemma_position_is_first(p.dolphins, dolphin_id, i);
}

/// Selling the first dolphin with the id removes it and pays 75 coins for a
/// pikeman, 50 for a warrior; the others keep their order.
pub proof fn law_sell_dolphin(command: u64, p: PlayerModel, dolphin_id: u64, rand: u64, i: int)
    requires
        command as u32 == 9,
        0 <= i < p.dolphins.len(),
        p.dolphins[i].id == dolphin_id,
        forall|j: int| 0 <= j < i ==> p.dolphins[j].id != dolphin_id,
    ensures
        update_allowed_spec(command, p, dolphin_id) <==> (dolphin_id < p.dolphin_index
            && p.coins_balance + (if p.dolphins[i].name == DolphinName::DolphinPikeman {
            75int
        } else {
            50int
        }) <= u64::MAX),
        update_allowed_spec(command, p, dolphin_id) ==> {
            let (r, q) = update_state_spec(command, p, dolphin_id, rand);
            &&& r == Ok::<(), u32>(())
            &&& q.coins_balance == p.coins_balance + (if p.dolphins[i].name
                == DolphinName::DolphinPikeman {
                75int
            } else {
                50int
            })
            &&& q.dolphins.len() + 1 == p.dolphins.len()
            &&& forall|j: int| 0 <= j < i ==> q.dolphins[j] == p.dolphins[j]
            &&& forall|j: int| i <= j < q.dolphins.len() ==> q.dolphins[j] == p.dolphins[j + 1]
            &&& q == PlayerModel { coins_balance: q.coins_balance, dolphins: q.dolphins, ..p }
        },
{
    assert(is_first_with_id(p.dolphins, dolphin_id, i));
    lemma_position_is_first(p.dolphins, dolphin_id, i);
}

/// Feeding, healing or selling a dolphin the player does not have is
/// refused with 1 and changes nothing.
pub proof fn law_missing_dolphin(command: u64, p: PlayerModel, dolphin_id: u64, rand: u64)
    requires
        command as u32 == 3 || command as u32 == 4 || command as u32 == 9,
        forall|j: int| 0 <= j < p.dolphins.len() ==> p.dolphins[j].id != dolphin_id,
    ensures
        update_state_spec(command, p, dolphin_id, rand).0 == Err::<(), u32>(1),
        update_state_spec(command, p, dolphin_id, rand).1 == p,
{
    assert(!exists|i: int| is_first_with_id(p.dolphins, dolphin_id, i));
}

/// Fighting the evil whale costs 1000 coins and gives 50 tokens, and leaves
/// every dolphin with no health and no satiety.
pub proof fn law_attack_evil_whale(command: u64, p: PlayerModel, dolphin_id: u64, rand: u64)
    requires
        command as u32 == 5,
    ensures
        update_allowed_spec(command, p, dolphin_id) <==> (p.dolphins.len() > 0 && p.coins_balance
            >= 1000 && p.dolphin_token_balance + 50 <= u64::MAX),
        update_allowed_spec(command, p, dolphin_id) ==> {
            let (r, q) = update_state_spec(command, p, dolphin_id, rand);
            &&& r == Ok::<(), u32>(())
            &&& q.coins_balance + 1000 == p.coins_balance
            &&& q.dolphin_token_balance == p.dolphin_token_balance + 50
            &&& q.dolphins.len() == p.dolphins.len()
            &&& forall|j: int|
                0 <= j < p.dolphins.len() ==> q.dolphins[j] == Dolphin {
                    health: 0,
                    satiety: 0,
                    ..p.dolphins[j]
                }
            &&& q == PlayerModel {
                coins_balance: q.coins_balance,
                dolphin_token_balance: q.dolphin_token_balance,
                dolphins: q.dolphins,
                ..p
            }
        },
{
}

/// Collecting adds the generated coins of every dolphin, healthy or not,
/// to the balance, and leaves every dolphin with none generated.
pub proof fn law_collect_coins(command: u64, p: PlayerModel, dolphin_id: u64, rand: u64)
    requires
        command as u32 == 7,
    ensures
        update_allowed_spec(command, p, dolphin_id) <==> (p.dolphins.len() > 0 && p.coins_balance
            + p.dolphins.fold_left(0int, |acc: int, d: Dolphin| acc + d.generated_coins)
            <= u64::MAX),
        update_allowed_spec(command, p, dolphin_id) ==> {
            let (r, q) = update_state_spec(command, p, dolphin_id, rand);
            &&& r == Ok::<(), u32>(())
            &&& q.coins_balance == p.coins_balance + p.dolphins.fold_left(
                0int,
                |acc: int, d: Dolphin| acc + d.generated_coins,
            )
            &&& q.dolphins.len() == p.dolphins.len()
            &&& forall|j: int|
                0 <= j < p.dolphins.len() ==> q.dolphins[j] == Dolphin {
                    generated_coins: 0,
                    ..p.dolphins[j]
                }
            &&& forall|j: int| 0 <= j < q.dolphins.len() ==> q.dolphins[j].generated_coins == 0
            &&& q == PlayerModel { coins_balance: q.coins_balance, dolphins: q.dolphins, ..p }
        },
{
    lemma_total_generated_is_sum(p.dolphins);
    lemma_total_generated_nonneg(p.dolphins);
}

/// Where `i` is the first index with the id, the search finds `i`.
proof fn lemma_position_is_first(s: Seq<Dolphin>, id: u64, i: int)
    requires
        is_first_with_id(s, id, i),
    ensures
        dolphin_position(s, id) == Some(i),
{
    let c: int = choose|c: int| is_first_with_id(s, id, c);
    assert(is_first_with_id(s, id, c));
    if c < i {
        assert(s[c].id != id);
    } else if c > i {
        assert(s[i].id != id);
    }
}

} // verus!
