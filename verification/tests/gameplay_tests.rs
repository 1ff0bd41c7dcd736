use dolphin_sparta::gameplay::{update_state, Command, Dolphin, DolphinName, PlayerData};

fn dolphin(id: u64, name: DolphinName, level: u64) -> Dolphin {
    Dolphin {
        id,
        name,
        level,
        life_stage: 0,
        join_time: 0,
        health: 100,
        satiety: 70,
        generated_coins: 0,
        collected_coins: 0,
    }
}

fn ids(p: &PlayerData) -> Vec<u64> {
    p.dolphins.iter().map(|d| d.id).collect()
}

#[test]
fn default_player_values() {
    let p = PlayerData::default();
    assert_eq!(p.pid, [0, 0]);
    assert_eq!(p.coins_balance, 2000);
    assert_eq!(p.dolphin_token_balance, 0);
    assert_eq!(p.dolphin_index, 0);
    assert_eq!(p.food_number, 10);
    assert_eq!(p.medicine_number, 2);
    assert_eq!(p.population_number, 3);
    assert!(p.dolphins.is_empty());
}

#[test]
fn default_dolphin_values() {
    let d = Dolphin::default();
    assert_eq!(d, dolphin(0, DolphinName::DolphinWarrior, 1));
}

#[test]
fn command_codes() {
    assert_eq!(Command::from_code(0), Some(Command::BuyDolphin));
    assert_eq!(Command::from_code(7), Some(Command::CollectCoins));
    assert_eq!(Command::from_code(9), Some(Command::SellDolphin));
    assert_eq!(Command::from_code(10), None);
    assert_eq!(DolphinName::from_code(0), Some(DolphinName::DolphinPikeman));
    assert_eq!(DolphinName::from_code(1), Some(DolphinName::DolphinWarrior));
    assert_eq!(DolphinName::from_code(2), None);
    assert_eq!(DolphinName::DolphinWarrior.code(), 1);
}

#[test]
fn buy_pikeman_and_warrior() {
    let mut p = PlayerData::default();
    assert!(p.update_allowed(0, 0));
    assert_eq!(update_state(0, &mut p, 0, 7), Ok(()));
    assert_eq!(p.coins_balance, 1850);
    assert_eq!(p.dolphin_index, 1);
    assert_eq!(p.dolphins, vec![dolphin(0, DolphinName::DolphinPikeman, 4)]);
    assert_eq!(update_state(0, &mut p, 5, 4), Ok(()));
    assert_eq!(p.coins_balance, 1750);
    assert_eq!(p.dolphins[1], dolphin(1, DolphinName::DolphinWarrior, 1));
    assert_eq!(p.dolphin_index, 2);
}

#[test]
fn buy_dolphin_refused_when_population_is_full() {
    let mut p = PlayerData::default();
    for i in 0..3 {
        assert!(p.update_allowed(0, 1));
        update_state(0, &mut p, 1, i).unwrap();
    }
    assert_eq!(p.dolphins.len(), 3);
    assert!(!p.update_allowed(0, 1));
    assert!(p.update_allowed(6, 0));
    update_state(6, &mut p, 0, 0).unwrap();
    assert_eq!(p.population_number, 4);
    assert_eq!(p.coins_balance, 2000 - 300 - 200);
    assert!(p.update_allowed(0, 1));
}

#[test]
fn buy_refused_without_coins() {
    let mut p = PlayerData::default();
    p.coins_balance = 149;
    assert!(!p.update_allowed(0, 0));
    assert!(p.update_allowed(0, 1));
    assert!(!p.update_allowed(2, 0));
    assert!(p.update_allowed(1, 0));
    p.coins_balance = 49;
    assert!(!p.update_allowed(1, 0));
    assert!(!p.update_allowed(6, 0));
    assert!(!p.update_allowed(5, 0));
}

#[test]
fn buy_food_and_medicine() {
    let mut p = PlayerData::default();
    assert_eq!(update_state(1, &mut p, 0, 0), Ok(()));
    assert_eq!((p.coins_balance, p.food_number), (1950, 15));
    assert_eq!(update_state(2, &mut p, 0, 0), Ok(()));
    assert_eq!((p.coins_balance, p.medicine_number), (1800, 7));
}

#[test]
fn invalid_command_is_refused_and_changes_nothing() {
    let mut p = PlayerData::default();
    let before = p.clone();
    assert!(p.update_allowed(10, 0));
    assert_eq!(update_state(10, &mut p, 0, 0), Err(1));
    assert_eq!(p, before);
    assert_eq!(update_state(15, &mut p, 0, 0), Err(1));
    assert_eq!(p, before);
}

#[test]
fn command_number_is_read_as_u32() {
    let mut p = PlayerData::default();
    assert_eq!(update_state((1u64 << 32) + 1, &mut p, 0, 0), Ok(()));
    assert_eq!(p.food_number, 15);
}

#[test]
fn feed_and_heal() {
    let mut p = PlayerData::default();
    update_state(0, &mut p, 1, 0).unwrap();
    update_state(0, &mut p, 1, 0).unwrap();
    p.dolphins[1].satiety = 95;
    p.dolphins[1].health = 3;
    assert_eq!(update_state(3, &mut p, 0, 0), Ok(()));
    assert_eq!(p.dolphins[0].satiety, 80);
    assert_eq!(p.food_number, 9);
    assert_eq!(update_state(3, &mut p, 1, 0), Ok(()));
    assert_eq!(p.dolphins[1].satiety, 100);
    assert_eq!(update_state(4, &mut p, 1, 0), Ok(()));
    assert_eq!(p.dolphins[1].health, 100);
    assert_eq!(p.medicine_number, 1);
}

#[test]
fn feed_refused_checks() {
    let mut p = PlayerData::default();
    assert!(!p.update_allowed(3, 0));
    update_state(0, &mut p, 1, 0).unwrap();
    assert!(p.update_allowed(3, 0));
    assert!(!p.update_allowed(3, 1));
    p.food_number = 0;
    assert!(!p.update_allowed(3, 0));
    p.medicine_number = 0;
    assert!(!p.update_allowed(4, 0));
}

#[test]
fn feed_sold_dolphin_is_not_found() {
    let mut p = PlayerData::default();
    update_state(0, &mut p, 1, 0).unwrap();
    update_state(0, &mut p, 1, 0).unwrap();
    assert_eq!(update_state(9, &mut p, 0, 0), Ok(()));
    assert_eq!(ids(&p), vec![1]);
    let before = p.clone();
    assert!(p.update_allowed(3, 0));
    assert_eq!(update_state(3, &mut p, 0, 0), Err(1));
    assert_eq!(p, before);
    assert_eq!(update_state(4, &mut p, 0, 0), Err(1));
    assert_eq!(update_state(9, &mut p, 0, 0), Err(1));
    assert_eq!(p, before);
}

#[test]
fn sell_prices() {
    let mut p = PlayerData::default();
    update_state(0, &mut p, 0, 0).unwrap();
    update_state(0, &mut p, 1, 0).unwrap();
    assert_eq!(p.coins_balance, 1750);
    assert_eq!(update_state(9, &mut p, 1, 0), Ok(()));
    assert_eq!(p.coins_balance, 1800);
    assert_eq!(update_state(9, &mut p, 0, 0), Ok(()));
    assert_eq!(p.coins_balance, 1875);
    assert!(p.dolphins.is_empty());
    assert_eq!(p.dolphin_index, 2);
}

#[test]
fn attack_evil_whale() {
    let mut p = PlayerData::default();
    update_state(0, &mut p, 1, 0).unwrap();
    update_state(0, &mut p, 1, 1).unwrap();
    assert_eq!(update_state(5, &mut p, 0, 0), Ok(()));
    assert_eq!(p.coins_balance, 2000 - 200 - 1000);
    assert_eq!(p.dolphin_token_balance, 50);
    for d in &p.dolphins {
        assert_eq!((d.health, d.satiety), (0, 0));
    }
}

#[test]
fn collect_coins_moves_generated_coins_to_balance() {
    let mut p = PlayerData::default();
    update_state(0, &mut p, 1, 0).unwrap();
    update_state(0, &mut p, 1, 0).unwrap();
    p.dolphins[0].generated_coins = 30;
    p.dolphins[1].generated_coins = 12;
    p.dolphins[1].collected_coins = 5;
    assert_eq!(update_state(7, &mut p, 0, 0), Ok(()));
    assert_eq!(p.coins_balance, 1800 + 42);
    assert_eq!(p.dolphins[0].generated_coins, 0);
    assert_eq!(p.dolphins[1].generated_coins, 0);
    assert_eq!(p.dolphins[0].collected_coins, 0);
    assert_eq!(p.dolphins[1].collected_coins, 5);
}

#[test]
fn collect_coins_refused_on_overflow_or_no_dolphins() {
    let mut p = PlayerData::default();
    assert!(!p.update_allowed(7, 0));
    update_state(0, &mut p, 1, 0).unwrap();
    p.dolphins[0].generated_coins = u64::MAX - 1899;
    assert!(!p.update_allowed(7, 0));
    p.dolphins[0].generated_coins = u64::MAX - 1900;
    assert!(p.update_allowed(7, 0));
    update_state(7, &mut p, 0, 0).unwrap();
    assert_eq!(p.coins_balance, u64::MAX);
    assert!(!p.update_allowed(8, 0));
}

#[test]
fn add_coins_for_test() {
    let mut p = PlayerData::default();
    assert_eq!(update_state(8, &mut p, 0, 0), Ok(()));
    assert_eq!(p.coins_balance, 2100);
}

#[test]
fn dolphin_ids_grow_along_the_list() {
    let mut p = PlayerData::default();
    p.population_number = 10;
    for i in 0..5 {
        update_state(0, &mut p, 1, i).unwrap();
    }
    update_state(9, &mut p, 2, 0).unwrap();
    update_state(0, &mut p, 1, 0).unwrap();
    assert_eq!(ids(&p), vec![0, 1, 3, 4, 5]);
    assert_eq!(p.dolphin_index, 6);
    assert!(p.dolphins.len() as u64 <= p.population_number);
    for d in &p.dolphins {
        assert!((1..=4).contains(&d.level));
    }
}

#[test]
fn dolphin_words_roundtrip() {
    let d = Dolphin {
        id: 7,
        name: DolphinName::DolphinPikeman,
        level: 3,
        life_stage: 70,
        join_time: 11,
        health: 90,
        satiety: 45,
        generated_coins: 60,
        collected_coins: 2,
    };
    let mut words = vec![99];
    d.to_data(&mut words);
    assert_eq!(words, vec![99, 7, 0, 3, 70, 11, 90, 45, 60, 2]);
    assert_eq!(Dolphin::from_data(&words, 1), Some((d, 10)));
    assert_eq!(Dolphin::from_data(&words, 2), None);
    words[2] = 5;
    assert_eq!(Dolphin::from_data(&words, 1), None);
    words[2] = (1u64 << 32) + 1;
    assert_eq!(Dolphin::from_data(&words, 1).unwrap().0.name, DolphinName::DolphinWarrior);
}

#[test]
fn player_words_roundtrip() {
    let mut p = PlayerData::default();
    p.pid = [5, 6];
    update_state(0, &mut p, 0, 2).unwrap();
    update_state(0, &mut p, 1, 3).unwrap();
    let mut words = Vec::new();
    p.to_data(&mut words);
    assert_eq!(words.len(), 9 + 18);
    assert_eq!(&words[..9], &[5, 6, 1750, 0, 2, 10, 2, 3, 2]);
    assert_eq!(PlayerData::from_data(&words, 0), Some((p.clone(), 27)));
    words.push(1);
    assert_eq!(PlayerData::from_data(&words, 0), Some((p, 27)));
    assert_eq!(PlayerData::from_data(&words[..26], 0), None);
    assert_eq!(PlayerData::from_data(&words[..8], 0), None);
}

#[test]
fn player_words_with_bad_dolphin_kind() {
    let mut p = PlayerData::default();
    update_state(0, &mut p, 0, 2).unwrap();
    let mut words = Vec::new();
    p.to_data(&mut words);
    words[10] = 2;
    assert_eq!(PlayerData::from_data(&words, 0), None);
}
