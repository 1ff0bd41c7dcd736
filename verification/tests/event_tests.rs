use dolphin_sparta::event::{apply_dolphin_event, Event, EventQueue, EventResult, EventType, TickOutcome};
use dolphin_sparta::gameplay::{update_state, Dolphin, DolphinName, PlayerData};
use dolphin_sparta::state::DolphinPlayer;

fn ev(obj: usize, ty: usize, delta: usize) -> Event {
    Event { pid: [1, 2], event_type: ty, object_index: obj, delta }
}

fn player_with(dolphins: Vec<Dolphin>) -> DolphinPlayer {
    let mut data = PlayerData::default();
    data.population_number = 100;
    data.dolphin_index = dolphins.iter().map(|d| d.id + 1).max().unwrap_or(0);
    data.dolphins = dolphins;
    DolphinPlayer { player_id: [1, 2], nonce: 0, data }
}

fn dolphin(id: u64) -> Dolphin {
    Dolphin { id, name: DolphinName::DolphinWarrior, level: 2, ..Dolphin::default() }
}

/// Due ticks of the queue, counting from now.
fn due_ticks(q: &EventQueue) -> Vec<(usize, usize)> {
    let mut t = 0;
    q.list
        .iter()
        .map(|e| {
            t += e.delta;
            (e.object_index, t)
        })
        .collect()
}

#[test]
fn event_type_codes() {
    assert_eq!(EventType::Grow.code(), 0);
    assert_eq!(EventType::Starve.code(), 1);
    assert_eq!(EventType::GenerateCoin.code(), 2);
}

#[test]
fn new_queue_is_empty() {
    let q = EventQueue::new();
    assert_eq!(q.counter, 0);
    assert!(q.list.is_empty());
    assert_eq!(q.front_pid(), None);
}

#[test]
fn insert_orders_by_due_tick() {
    let mut q = EventQueue::new();
    q.insert(5, 0, &[1, 2], 3);
    q.insert(6, 1, &[1, 2], 5);
    q.insert(7, 2, &[1, 2], 1);
    assert_eq!(q.list, vec![ev(7, 2, 1), ev(5, 0, 2), ev(6, 1, 2)]);
    assert_eq!(due_ticks(&q), vec![(7, 1), (5, 3), (6, 5)]);
}

#[test]
fn insert_after_events_due_at_the_same_tick() {
    let mut q = EventQueue::new();
    q.insert(1, 0, &[1, 2], 3);
    q.insert(2, 0, &[1, 2], 3);
    q.insert(3, 0, &[1, 2], 0);
    q.insert(4, 0, &[1, 2], 0);
    assert_eq!(due_ticks(&q), vec![(3, 0), (4, 0), (1, 3), (2, 3)]);
    assert_eq!(q.list[3].delta, 0);
}

#[test]
fn insert_keeps_other_events_due_when_they_were() {
    let mut q = EventQueue::new();
    for (i, d) in [4usize, 9, 2, 7, 7, 0].iter().enumerate() {
        q.insert(i, 1, &[1, 2], *d);
    }
    let before = due_ticks(&q);
    q.insert(100, 2, &[3, 4], 6);
    let after = due_ticks(&q);
    assert_eq!(after.len(), before.len() + 1);
    assert!(after.contains(&(100, 6)));
    for x in &before {
        assert!(after.contains(x));
    }
    let times: Vec<usize> = after.iter().map(|x| x.1).collect();
    let mut sorted = times.clone();
    sorted.sort();
    assert_eq!(times, sorted);
    assert_eq!(q.list.iter().position(|e| e.object_index == 100), Some(3));
    assert_eq!(q.list[3].pid, [3, 4]);
}

#[test]
fn grow_event() {
    let mut p = player_with(vec![dolphin(4)]);
    let r = apply_dolphin_event(&mut p, 0, 0).unwrap();
    assert_eq!(r, EventResult { object_id: 4, event_type: 0, owner: [1, 2], delta: 3 });
    assert_eq!(p.data.dolphins[0].life_stage, 35);
    apply_dolphin_event(&mut p, 0, 0).unwrap();
    assert_eq!(p.data.dolphins[0].life_stage, 70);
    let r = apply_dolphin_event(&mut p, 0, 0).unwrap();
    assert_eq!(p.data.dolphins[0].life_stage, 100);
    assert_eq!(r.event_type, 2);
}

#[test]
fn starve_event() {
    let mut p = player_with(vec![dolphin(1)]);
    p.data.dolphins[0].satiety = 5;
    p.data.dolphins[0].health = 7;
    let r = apply_dolphin_event(&mut p, 0, 1).unwrap();
    assert_eq!(r.event_type, 1);
    assert_eq!((p.data.dolphins[0].satiety, p.data.dolphins[0].health), (2, 7));
    apply_dolphin_event(&mut p, 0, 1).unwrap();
    assert_eq!((p.data.dolphins[0].satiety, p.data.dolphins[0].health), (0, 2));
    apply_dolphin_event(&mut p, 0, 1).unwrap();
    assert_eq!((p.data.dolphins[0].satiety, p.data.dolphins[0].health), (0, 0));
}

#[test]
fn coin_event_stops_at_1000_per_level() {
    let mut p = player_with(vec![dolphin(1)]);
    let r = apply_dolphin_event(&mut p, 0, 2).unwrap();
    assert_eq!(r.event_type, 2);
    assert_eq!(p.data.dolphins[0].generated_coins, 20);
    p.data.dolphins[0].generated_coins = 1985;
    apply_dolphin_event(&mut p, 0, 2).unwrap();
    assert_eq!(p.data.dolphins[0].generated_coins, 1985);
    p.data.dolphins[0].generated_coins = 1980;
    apply_dolphin_event(&mut p, 0, 2).unwrap();
    assert_eq!(p.data.dolphins[0].generated_coins, 2000);
    p.data.dolphins[0].generated_coins = 0;
    p.data.dolphins[0].health = 0;
    apply_dolphin_event(&mut p, 0, 2).unwrap();
    assert_eq!(p.data.dolphins[0].generated_coins, 0);
}

#[test]
fn event_errors() {
    let mut p = player_with(vec![dolphin(1)]);
    let before = p.clone();
    assert_eq!(apply_dolphin_event(&mut p, 1, 0), Err(1));
    assert_eq!(apply_dolphin_event(&mut p, 0, 3), Err(2));
    assert_eq!(p, before);
}

#[test]
fn tick_step_waiting_head() {
    let mut q = EventQueue::new();
    q.insert(1, 0, &[1, 2], 2);
    q.insert(1, 1, &[1, 2], 5);
    let mut p = player_with(vec![dolphin(1)]);
    let mut results = Vec::new();
    assert!(q.can_tick_step(&p));
    let o = q.tick_step(&mut p, &mut results);
    assert_eq!(o, TickOutcome { store_player: false, stop: true });
    assert_eq!(due_ticks(&q), vec![(1, 1), (1, 4)]);
    assert!(results.is_empty());
}

#[test]
fn tick_step_due_head_without_dolphin() {
    let mut q = EventQueue::new();
    q.insert(9, 0, &[1, 2], 0);
    q.insert(1, 0, &[1, 2], 4);
    let mut p = player_with(vec![dolphin(1)]);
    let before = p.clone();
    let mut results = Vec::new();
    let o = q.tick_step(&mut p, &mut results);
    assert_eq!(o, TickOutcome { store_player: false, stop: false });
    assert_eq!(q.list, vec![ev(1, 0, 4)]);
    assert_eq!(p, before);
}

#[test]
fn tick_step_due_head_with_dolphin() {
    let mut q = EventQueue::new();
    q.insert(1, 0, &[1, 2], 0);
    let mut p = player_with(vec![dolphin(0), dolphin(1)]);
    let mut results = Vec::new();
    let o = q.tick_step(&mut p, &mut results);
    assert_eq!(o, TickOutcome { store_player: true, stop: false });
    assert!(q.list.is_empty());
    assert_eq!(p.data.dolphins[1].life_stage, 35);
    assert_eq!(results, vec![EventResult { object_id: 1, event_type: 0, owner: [1, 2], delta: 3 }]);
}

#[test]
fn tick_step_unknown_event_type_stops() {
    let mut q = EventQueue::new();
    q.insert(1, 7, &[1, 2], 0);
    q.insert(1, 0, &[1, 2], 0);
    let mut p = player_with(vec![dolphin(1)]);
    let mut results = Vec::new();
    let o = q.tick_step(&mut p, &mut results);
    assert_eq!(o, TickOutcome { store_player: true, stop: true });
    assert_eq!(q.list, vec![ev(1, 0, 0)]);
    assert!(results.is_empty());
}

#[test]
fn can_tick_step_checks_coin_overflow() {
    let mut q = EventQueue::new();
    assert!(!q.can_tick_step(&player_with(vec![dolphin(1)])));
    q.insert(1, 2, &[1, 2], 0);
    let mut d = dolphin(1);
    d.level = u64::MAX / 1000 + 1;
    assert!(!q.can_tick_step(&player_with(vec![d])));
    d.health = 0;
    assert!(q.can_tick_step(&player_with(vec![d])));
    let mut d = dolphin(1);
    d.generated_coins = u64::MAX - 20;
    assert!(q.can_tick_step(&player_with(vec![d])));
    d.generated_coins = u64::MAX - 19;
    assert!(!q.can_tick_step(&player_with(vec![d])));
}

#[test]
fn tick_finish_reschedules_and_counts() {
    let mut q = EventQueue::new();
    q.insert(1, 0, &[1, 2], 5);
    let results = vec![
        EventResult { object_id: 2, event_type: 1, owner: [3, 3], delta: 3 },
        EventResult { object_id: 3, event_type: 2, owner: [3, 3], delta: 3 },
    ];
    assert_eq!(q.tick_finish(&results), 1);
    assert_eq!(q.counter, 1);
    assert_eq!(due_ticks(&q), vec![(2, 3), (3, 3), (1, 5)]);
    q.counter = u32::MAX as u64;
    assert_eq!(q.tick_finish(&Vec::new()), 0);
    assert_eq!(q.counter, u32::MAX as u64 + 1);
}

/// A whole tick run the way the service runs it, with one player.
fn run_tick(q: &mut EventQueue, p: &mut DolphinPlayer) -> (u32, usize) {
    let mut results = Vec::new();
    let mut stores = 0;
    while let Some(pid) = q.front_pid() {
        assert_eq!(pid, p.player_id);
        assert!(q.can_tick_step(p));
        let o = q.tick_step(p, &mut results);
        if o.store_player {
            stores += 1;
        }
        if o.stop {
            break;
        }
    }
    (q.tick_finish(&results), stores)
}

#[test]
fn ticks_grow_a_dolphin_into_coins() {
    let mut data = PlayerData::default();
    update_state(0, &mut data, 1, 1).unwrap();
    let mut p = DolphinPlayer { player_id: [1, 2], nonce: 0, data };
    let mut q = EventQueue::new();
    q.insert(0, 0, &[1, 2], 0);
    let mut stages = Vec::new();
    for _ in 0..13 {
        run_tick(&mut q, &mut p);
        stages.push((p.data.dolphins[0].life_stage, p.data.dolphins[0].generated_coins));
    }
    assert_eq!(q.counter, 13);
    assert_eq!(stages[12], (100, 20));
    assert_eq!(
        stages[..10].to_vec(),
        vec![(35, 0), (35, 0), (35, 0), (35, 0), (70, 0), (70, 0), (70, 0), (70, 0), (100, 0), (100, 0)]
    );
}

#[test]
fn event_word_encoding() {
    let e = Event { pid: [7, 8], event_type: 2, object_index: 0x1234, delta: 0xdead_beef };
    let mut words = vec![];
    e.to_data(&mut words);
    assert_eq!(words, vec![7, 8, 0x0002_1234_dead_beef]);
    assert_eq!(Event::from_data(&words, 0), Some((e, 3)));
    assert_eq!(Event::from_data(&words, 1), None);
}

#[test]
fn event_word_encoding_drops_wide_fields() {
    let e = Event { pid: [7, 8], event_type: 0, object_index: 0x1_0002, delta: 5 };
    let mut words = vec![];
    e.to_data(&mut words);
    let back = Event::from_data(&words, 0).unwrap().0;
    assert_eq!((back.event_type, back.object_index, back.delta), (1, 2, 5));
    assert_ne!(back, e);
}

#[test]
fn queue_words_roundtrip() {
    let mut q = EventQueue::new();
    q.insert(1, 0, &[1, 2], 3);
    q.insert(2, 2, &[5, 6], 1);
    q.counter = 42;
    let mut words = vec![0];
    q.to_data(&mut words);
    assert_eq!(words.len(), 1 + 2 + 6);
    assert_eq!(&words[1..3], &[42, 2]);
    let (back, end) = EventQueue::from_data(&words, 1).unwrap();
    assert_eq!(end, 9);
    assert_eq!(back.counter, 42);
    assert_eq!(back.list, q.list);
    assert!(EventQueue::from_data(&words[..8], 1).is_none());
    assert!(EventQueue::from_data(&words, 9).is_none());
}

#[test]
fn empty_queue_words() {
    let q = EventQueue::new();
    let mut words = vec![];
    q.to_data(&mut words);
    assert_eq!(words, vec![0, 0]);
    let (back, end) = EventQueue::from_data(&words, 0).unwrap();
    assert_eq!((back.counter, back.list.len(), end), (0, 0, 2));
}

#[test]
fn inserts_with_different_delays_commute() {
    let mut base = EventQueue::new();
    base.insert(1, 0, &[1, 2], 2);
    base.insert(2, 1, &[1, 2], 6);
    let mut q1 = EventQueue { counter: base.counter, list: base.list.clone() };
    let mut q2 = EventQueue { counter: base.counter, list: base.list.clone() };
    q1.insert(10, 2, &[3, 4], 4);
    q1.insert(11, 1, &[5, 6], 6);
    q2.insert(11, 1, &[5, 6], 6);
    q2.insert(10, 2, &[3, 4], 4);
    assert_eq!(q1.list, q2.list);
    let mut q3 = EventQueue { counter: 0, list: base.list.clone() };
    let mut q4 = EventQueue { counter: 0, list: base.list.clone() };
    q3.insert(10, 2, &[3, 4], 4);
    q3.insert(11, 1, &[5, 6], 4);
    q4.insert(11, 1, &[5, 6], 4);
    q4.insert(10, 2, &[3, 4], 4);
    assert_ne!(q3.list, q4.list);
    assert_eq!(q3.list[1].object_index, 10);
    assert_eq!(q4.list[1].object_index, 11);
}
