use crate::gameplay::{account_invariant, dolphin_ok, dolphin_position, is_first_with_id, find_dolphin, Dolphin, PlayerModel};
use crate::state::{DolphinPlayer, DolphinPlayerModel};
use vstd::prelude::*;

verus! {

/// What happens to a dolphin when its event comes due, numbered 0 to 2.
#[derive(Clone, Copy, Debug, PartialEq, Eq, Structural)]
pub enum EventType {
    Grow,
    Starve,
    GenerateCoin,
}

impl EventType {
    pub open spec fn spec_code(self) -> usize {
        match self {
            EventType::Grow => 0,
            EventType::Starve => 1,
            EventType::GenerateCoin => 2,
        }
    }

    /// The number an event of this type carries.
    pub fn code(&self) -> (r: usize)
        ensures
            r == self.spec_code(),
    {
        match self {
            EventType::Grow => 0,
            EventType::Starve => 1,
            EventType::GenerateCoin => 2,
        }
    }
}

/// Number of the growth event.
pub const GROW: usize = 0;
/// Number of the starvation event.
pub const STARVE: usize = 1;
/// Number of the coin event.
pub const GENERATE_COIN: usize = 2;

/// An event in the queue: whose dolphin, what happens to it, and how many
/// ticks after the event before it in the queue it comes due.
#[derive(Clone, Copy, Debug, PartialEq, Eq)]
pub struct Event {
    pub pid: [u64; 2],
    pub event_type: usize,
    /// The id of the dolphin.
    pub object_index: usize,
    pub delta: usize,
}

/// The queue of pending events, in the order they come due; each event's
/// `delta` counts the ticks after the event before it.
pub struct EventQueue {
    /// The number of ticks so far.
    pub counter: u64,
    pub list: Vec<Event>,
}

/// What an event did, and the event it schedules next.
#[derive(Clone, Copy, Debug, PartialEq, Eq)]
pub struct EventResult {
    pub object_id: usize,
    pub event_type: usize,
    pub owner: [u64; 2],
    pub delta: usize,
}

// ---------------------------------------------------------------------
// What an event does to a dolphin
// ---------------------------------------------------------------------

/// The coin event cannot leave the range of `u64` on this dolphin.
pub open spec fn coin_event_fits(d: Dolphin) -> bool {
    &&& 1000 * d.level <= u64::MAX
    &&& d.generated_coins + 10 * d.level <= u64::MAX
}

/// The event of type `event_type` runs on dolphin `d` without leaving the
/// range of `u64`.
pub open spec fn event_defined(d: Dolphin, event_type: usize) -> bool {
    event_type == GENERATE_COIN && d.health > 0 ==> coin_event_fits(d)
}

/// The dolphin after an event of type `event_type`, and the type of the
/// event it schedules next; none for a number that is no event type.
///
/// Growing adds 35 to the growth below 65 and schedules growing again;
/// from 65 on it makes the dolphin grown (100) and schedules coins.
/// Starving takes 3 satiety, and at 3 or less empties it and takes 5
/// health. A healthy dolphin generates 10 coins per level while that keeps
/// it at most 1000 per level.
pub open spec fn event_effect(d: Dolphin, event_type: usize) -> Option<(Dolphin, usize)> {
    if event_type == GROW {
        if d.life_stage < 65 {
            Some((Dolphin { life_stage: (d.life_stage + 35) as u64, ..d }, GROW))
        } else {
            Some((Dolphin { life_stage: 100, ..d }, GENERATE_COIN))
        }
    } else if event_type == STARVE {
        if d.satiety <= 3 {
            Some(
                (
                    Dolphin {
                        satiety: 0,
                        health: if d.health < 5 {
                            0
                        } else {
                            (d.health - 5) as u64
                        },
                        ..d
                    },
                    STARVE,
                ),
            )
        } else {
            Some((Dolphin { satiety: (d.satiety - 3) as u64, ..d }, STARVE))
        }
    } else if event_type == GENERATE_COIN {
        if d.health > 0 && d.generated_coins + d.level * 10 <= 1000 * d.level {
            Some((Dolphin { generated_coins: (d.generated_coins + d.level * 10) as u64, ..d }, GENERATE_COIN))
        } else {
            Some((d, GENERATE_COIN))
        }
    } else {
        None
    }
}

/// Ticks until an event schedules the next one.
pub const RESCHEDULE_DELTA: usize = 3;

/// What `apply_dolphin_event` returns and makes of the player.
pub open spec fn apply_event_spec(p: DolphinPlayerModel, pos: int, event_type: usize) -> (
    Result<EventResult, u32>,
    DolphinPlayerModel,
) {
    if pos < 0 || pos >= p.data.dolphins.len() {
        (Err(1), p)
    } else {
        let d = p.data.dolphins[pos];
        match event_effect(d, event_type) {
            None => (Err(2), p),
            Some((d2, next)) => (
                Ok(
                    EventResult {
                        object_id: d.id as usize,
                        event_type: next,
                        owner: p.player_id,
                        delta: RESCHEDULE_DELTA,
                    },
                ),
                DolphinPlayerModel {
                    data: PlayerModel { dolphins: p.data.dolphins.update(pos, d2), ..p.data },
                    ..p
                },
            ),
        }
    }
}

/// Applies an event to the dolphin at `dolphin_position` of the player's
/// dolphins. `Err(1)` where there is no dolphin there, `Err(2)` where
/// `event_type` is no event type.
pub fn apply_dolphin_event(player: &mut DolphinPlayer, dolphin_position: usize, event_type: usize) -> (r: Result<EventResult, u32>)
    requires
        dolphin_position < old(player).data.dolphins@.len() ==> event_defined(
            old(player).data.dolphins@[dolphin_position as int],
            event_type,
        ),
    ensures
        r == apply_event_spec(old(player)@, dolphin_position as int, event_type).0,
        final(player)@ == apply_event_spec(old(player)@, dolphin_position as int, event_type).1,
{
    if dolphin_position >= player.data.dolphins.len() {
        return Err(1);
    }
    let mut object: Dolphin = player.data.dolphins[dolphin_position];
    let next: usize;
    if event_type == GROW {
        if object.life_stage < 65 {
            object.life_stage = object.life_stage + 35;
            next = GROW;
        } else {
            object.life_stage = 100;
            next = GENERATE_COIN;
        }
    } else if event_type == STARVE {
        if object.satiety <= 3 {
            object.satiety = 0;
            if object.health < 5 {
                object.health = 0;
            } else {
                object.health = object.health - 5;
            }
        } else {
            object.satiety = object.satiety - 3;
        }
        next = STARVE;
    } else if event_type == GENERATE_COIN {
        if object.health > 0 {
            // at most 1000 coins per level are held back
            if object.generated_coins + object.level * 10 > 1000 * object.level {
            } else {
                object.generated_coins = object.generated_coins + object.level * 10;
            }
        }
        next = GENERATE_COIN;
    } else {
        return Err(2);
    }
    player.data.dolphins.set(dolphin_position, object);
    Ok(
        EventResult {
            object_id: object.id as usize,
            event_type: next,
            owner: player.player_id,
            delta: RESCHEDULE_DELTA,
        },
    )
}

// ---------------------------------------------------------------------
// The queue as a timeline
// ---------------------------------------------------------------------

/// What an event is about, without its timing.
pub open spec fn payload(e: Event) -> ([u64; 2], usize, usize) {
    (e.pid, e.event_type, e.object_index)
}

/// The events of a queue with the tick at which each comes due, counting
/// from `base`.
pub open spec fn timeline(s: Seq<Event>, base: int) -> Seq<(([u64; 2], usize, usize), int)>
    decreases s.len(),
{
    if s.len() == 0 {
        Seq::empty()
    } else {
        seq![(payload(s[0]), base + s[0].delta)] + timeline(s.drop_first(), base + s[0].delta)
    }
}

/// `item`, due at `t`, placed into a timeline after every entry due at or
/// before `t` and before every entry due later.
pub open spec fn insert_by_time(
    tl: Seq<(([u64; 2], usize, usize), int)>,
    item: ([u64; 2], usize, usize),
    t: int,
) -> Seq<(([u64; 2], usize, usize), int)>
    decreases tl.len(),
{
    if tl.len() == 0 || t < tl[0].1 {
        seq![(item, t)] + tl
    } else {
        seq![tl[0]] + insert_by_time(tl.drop_first(), item, t)
    }
}

/// The due ticks of a timeline do not decrease.
pub open spec fn is_sorted_by_time(tl: Seq<(([u64; 2], usize, usize), int)>) -> bool {
    forall|i: int, j: int| 0 <= i <= j < tl.len() ==> tl[i].1 <= tl[j].1
}

/// The queue after `insert` of event `x`, whose `delta` is the ticks from
/// now until it is due.
pub open spec fn spec_insert(s: Seq<Event>, x: Event) -> Seq<Event>
    decreases s.len(),
{
    if s.len() == 0 {
        seq![x]
    } else if s[0].delta <= x.delta {
        seq![s[0]] + spec_insert(s.drop_first(), Event { delta: (x.delta - s[0].delta) as usize, ..x })
    } else {
        seq![x, Event { delta: (s[0].delta - x.delta) as usize, ..s[0] }] + s.drop_first()
    }
}

/// Inserting an event puts it into the timeline at the tick its delta
/// names, after the events due at or before that tick, and leaves every
/// other event due when it was.
pub proof fn lemma_insert_timeline(s: Seq<Event>, x: Event, base: int)
    ensures
        timeline(spec_insert(s, x), base) == insert_by_time(timeline(s, base), payload(x), base + x.delta),
    decreases s.len(),
{
    let tl = timeline(s, base);
    if s.len() == 0 {
        assert(spec_insert(s, x) =~= seq![x]);
        assert(seq![x].drop_first() =~= Seq::<Event>::empty());
        assert(timeline(Seq::<Event>::empty(), base + x.delta) =~= Seq::empty());
        assert(timeline(seq![x], base) =~= seq![(payload(x), base + x.delta)]);
    } else if s[0].delta <= x.delta {
        let x2 = Event { delta: (x.delta - s[0].delta) as usize, ..x };
        let rest = s.drop_first();
        lemma_insert_timeline(rest, x2, base + s[0].delta);
        let ins = spec_insert(s, x);
        assert(ins[0] == s[0]);
        assert(ins.drop_first() =~= spec_insert(rest, x2));
        assert(tl[0] == (payload(s[0]), base + s[0].delta));
        assert(tl.drop_first() =~= timeline(rest, base + s[0].delta));
        assert(payload(x2) == payload(x));
    } else {
        let y = Event { delta: (s[0].delta - x.delta) as usize, ..s[0] };
        let rest = s.drop_first();
        let ins = spec_insert(s, x);
        assert(ins.drop_first() =~= seq![y] + rest);
        assert((seq![y] + rest).drop_first() =~= rest);
        assert(timeline(seq![y] + rest, base + x.delta) =~= seq![(payload(y), base + s[0].delta)]
            + timeline(rest, base + s[0].delta));
        assert(tl =~= seq![(payload(s[0]), base + s[0].delta)] + timeline(rest, base + s[0].delta));
        assert(timeline(ins, base) =~= seq![(payload(x), base + x.delta)] + timeline(seq![y] + rest, base + x.delta));
    }
}

/// The events of any queue come due in order.
pub proof fn lemma_timeline_sorted(s: Seq<Event>, base: int)
    ensures
        is_sorted_by_time(timeline(s, base)),
        forall|i: int| 0 <= i < timeline(s, base).len() ==> timeline(s, base)[i].1 >= base,
        timeline(s, base).len() == s.len(),
    decreases s.len(),
{
    if s.len() > 0 {
        lemma_timeline_sorted(s.drop_first(), base + s[0].delta);
        let tl = timeline(s, base);
        let tr = timeline(s.drop_first(), base + s[0].delta);
        assert(tl =~= seq![(payload(s[0]), base + s[0].delta)] + tr);
        assert forall|i: int, j: int| 0 <= i <= j < tl.len() implies tl[i].1 <= tl[j].1 by {
            if i > 0 {
                assert(tl[i] == tr[i - 1]);
                assert(tl[j] == tr[j - 1]);
            } else if j > 0 {
                assert(tl[j] == tr[j - 1]);
            }
        }
        assert forall|i: int| 0 <= i < tl.len() implies tl[i].1 >= base by {
            if i > 0 {
                assert(tl[i] == tr[i - 1]);
            }
        }
    }
}

/// Two entries due at different ticks land in a timeline in the same places
/// whichever is placed first.
pub proof fn lemma_insert_by_time_commutes(
    tl: Seq<(([u64; 2], usize, usize), int)>,
    a: ([u64; 2], usize, usize),
    ta: int,
    b: ([u64; 2], usize, usize),
    tb: int,
)
    requires
        ta != tb,
    ensures
        insert_by_time(insert_by_time(tl, a, ta), b, tb) == insert_by_time(insert_by_time(tl, b, tb), a, ta),
    decreases tl.len(),
{
    let ea = seq![(a, ta)];
    let eb = seq![(b, tb)];
    if tl.len() == 0 {
        assert((ea + tl).drop_first() =~= tl);
        assert((eb + tl).drop_first() =~= tl);
        assert(insert_by_time(tl, a, ta) =~= ea);
        assert(insert_by_time(tl, b, tb) =~= eb);
        assert(ea.drop_first() =~= tl);
        assert(eb.drop_first() =~= tl);
        assert(insert_by_time(tl, b, tb) =~= eb + tl);
        assert(insert_by_time(tl, a, ta) =~= ea + tl);
        if ta < tb {
            assert(insert_by_time(ea, b, tb) =~= ea + eb);
            assert(insert_by_time(eb, a, ta) =~= ea + eb);
        } else {
            assert(insert_by_time(ea, b, tb) =~= eb + ea);
            assert(insert_by_time(eb, a, ta) =~= eb + ea);
        }
    } else {
        let h = tl[0];
        let rest = tl.drop_first();
        assert((ea + tl).drop_first() =~= tl);
        assert((eb + tl).drop_first() =~= tl);
        if ta < h.1 && tb < h.1 {
            let la = insert_by_time(tl, a, ta);
            let lb = insert_by_time(tl, b, tb);
            assert(la =~= ea + tl);
            assert(lb =~= eb + tl);
            assert(insert_by_time(tl, b, tb) =~= eb + tl);
            assert(insert_by_time(tl, a, ta) =~= ea + tl);
            if ta < tb {
                assert(insert_by_time(la, b, tb) =~= ea + (eb + tl));
                assert(insert_by_time(lb, a, ta) =~= ea + (eb + tl));
            } else {
                assert(insert_by_time(la, b, tb) =~= eb + (ea + tl));
                assert(insert_by_time(lb, a, ta) =~= eb + (ea + tl));
            }
        } else if ta < h.1 {
            let la = ea + tl;
            let lb = seq![h] + insert_by_time(rest, b, tb);
            assert(insert_by_time(tl, a, ta) =~= la);
            assert(insert_by_time(tl, b, tb) =~= lb);
            assert(lb.drop_first() =~= insert_by_time(rest, b, tb));
            assert(insert_by_time(la, b, tb) =~= ea + insert_by_time(tl, b, tb));
            assert(insert_by_time(lb, a, ta) =~= ea + lb);
        } else if tb < h.1 {
            let lb = eb + tl;
            let la = seq![h] + insert_by_time(rest, a, ta);
            assert(insert_by_time(tl, b, tb) =~= lb);
            assert(insert_by_time(tl, a, ta) =~= la);
            assert(la.drop_first() =~= insert_by_time(rest, a, ta));
            assert(insert_by_time(lb, a, ta) =~= eb + insert_by_time(tl, a, ta));
            assert(insert_by_time(la, b, tb) =~= eb + la);
        } else {
            let la = seq![h] + insert_by_time(rest, a, ta);
            let lb = seq![h] + insert_by_time(rest, b, tb);
            assert(insert_by_time(tl, a, ta) =~= la);
            assert(insert_by_time(tl, b, tb) =~= lb);
            assert(la.drop_first() =~= insert_by_time(rest, a, ta));
            assert(lb.drop_first() =~= insert_by_time(rest, b, tb));
            lemma_insert_by_time_commutes(rest, a, ta, b, tb);
            assert(insert_by_time(la, b, tb) =~= seq![h] + insert_by_time(insert_by_time(rest, a, ta), b, tb));
            assert(insert_by_time(lb, a, ta) =~= seq![h] + insert_by_time(insert_by_time(rest, b, tb), a, ta));
        }
    }
}

/// A queue is fixed by its timeline: what each event is about and the tick
/// at which it comes due.
pub proof fn lemma_timeline_determines_queue(s1: Seq<Event>, s2: Seq<Event>, base: int)
    requires
        timeline(s1, base) == timeline(s2, base),
    ensures
        s1 == s2,
    decreases s1.len(),
{
    lemma_timeline_sorted(s1, base);
    lemma_timeline_sorted(s2, base);
    if s1.len() > 0 {
        let t1 = timeline(s1, base);
        let t2 = timeline(s2, base);
        assert(t1 =~= seq![(payload(s1[0]), base + s1[0].delta)] + timeline(s1.drop_first(), base + s1[0].delta));
        assert(t2 =~= seq![(payload(s2[0]), base + s2[0].delta)] + timeline(s2.drop_first(), base + s2[0].delta));
        assert(t1[0] == t2[0]);
        assert(s1[0].pid =~= s2[0].pid);
        assert(s1[0] == s2[0]);
        assert(t1.drop_first() =~= timeline(s1.drop_first(), base + s1[0].delta));
        assert(t2.drop_first() =~= timeline(s2.drop_first(), base + s2[0].delta));
        lemma_timeline_determines_queue(s1.drop_first(), s2.drop_first(), base + s1[0].delta);
        assert(s1 =~= seq![s1[0]] + s1.drop_first());
        assert(s2 =~= seq![s2[0]] + s2.drop_first());
    } else {
        assert(s1 =~= s2);
    }
}

/// Inserting two events with different delays gives the same queue in
/// either order.
pub proof fn lemma_inserts_commute(s: Seq<Event>, x: Event, y: Event)
    requires
        x.delta != y.delta,
    ensures
        spec_insert(spec_insert(s, x), y) == spec_insert(spec_insert(s, y), x),
{
    let tl = timeline(s, 0);
    lemma_insert_timeline(s, x, 0);
    lemma_insert_timeline(s, y, 0);
    lemma_insert_timeline(spec_insert(s, x), y, 0);
    lemma_insert_timeline(spec_insert(s, y), x, 0);
    lemma_insert_by_time_commutes(tl, payload(x), 0 + x.delta, payload(y), 0 + y.delta);
    lemma_timeline_determines_queue(spec_insert(spec_insert(s, x), y), spec_insert(spec_insert(s, y), x), 0);
}

impl EventQueue {
    /// An empty queue at tick 0.
    pub fn new() -> (q: Self)
        ensures
            q.counter == 0,
            q.list@ == Seq::<Event>::empty(),
    {
        EventQueue { counter: 0, list: Vec::new() }
    }

    /// Schedules an event for dolphin `object_index` of player `owner`,
    /// `delta` ticks from now.
    pub fn insert(&mut self, object_index: usize, event_type: usize, owner: &[u64; 2], delta: usize)
        ensures
            final(self).counter == old(self).counter,
            final(self).list@ == spec_insert(
                old(self).list@,
                Event { pid: *owner, event_type, object_index, delta },
            ),
    {
        let ghost old_list = self.list@;
        let ghost node = Event { pid: *owner, event_type, object_index, delta };
        let n: usize = self.list.len();
        let mut delta: usize = delta;
        let mut list: Vec<Event> = Vec::new();
        let mut i: usize = 0;
        assert(old_list.subrange(0, n as int) =~= old_list);
        assert(list@ + spec_insert(old_list, node) =~= spec_insert(old_list, node));
        while i < n && self.list[i].delta <= delta
            invariant
                0 <= i <= n,
                n == self.list@.len(),
                self.list@ == old_list,
                list@ + spec_insert(old_list.subrange(i as int, n as int), Event { delta, ..node })
                    == spec_insert(old_list, node),
            decreases n - i,
        {
            let t: Event = self.list[i];
            proof {
                let sub = old_list.subrange(i as int, n as int);
                assert(sub[0] == t);
                assert(sub.drop_first() =~= old_list.subrange(i + 1, n as int));
                assert(list@ + (seq![t] + spec_insert(
                    sub.drop_first(),
                    Event { delta: (delta - t.delta) as usize, ..node },
                )) =~= list@.push(t) + spec_insert(
                    sub.drop_first(),
                    Event { delta: (delta - t.delta) as usize, ..node },
                ));
            }
            delta = delta - t.delta;
            list.push(t);
            i = i + 1;
        }
        let ghost sub = old_list.subrange(i as int, n as int);
        list.push(Event { object_index, event_type, pid: *owner, delta });
        if i < n {
            let t: Event = self.list[i];
            proof {
                assert(sub[0] == t);
                assert(sub.drop_first() =~= old_list.subrange(i + 1, n as int));
            }
            list.push(Event { pid: t.pid, event_type: t.event_type, object_index: t.object_index, delta: t.delta - delta });
            i = i + 1;
        } else {
            assert(sub.len() == 0);
        }
        let ghost fixed = list@;
        assert(fixed + old_list.subrange(i as int, n as int) =~= spec_insert(old_list, node));
        while i < n
            invariant
                0 <= i <= n,
                n == self.list@.len(),
                self.list@ == old_list,
                list@ + old_list.subrange(i as int, n as int) == spec_insert(old_list, node),
            decreases n - i,
        {
            let t: Event = self.list[i];
            proof {
                assert(list@ + old_list.subrange(i as int, n as int) =~= list@.push(t)
                    + old_list.subrange(i + 1, n as int));
            }
            list.push(t);
            i = i + 1;
        }
        assert(list@ =~= list@ + old_list.subrange(i as int, n as int));
        self.list = list;
    }
}

// ---------------------------------------------------------------------
// Ticking
// ---------------------------------------------------------------------

/// What the caller of `tick_step` does next: store the player it passed in,
/// and stop ticking.
#[derive(Clone, Copy, Debug, PartialEq, Eq, Structural)]
pub struct TickOutcome {
    pub store_player: bool,
    pub stop: bool,
}

/// The step on the head of `q` with its owner `p` runs without leaving the
/// range of `u64`.
pub open spec fn tick_step_allowed(q: Seq<Event>, p: DolphinPlayerModel) -> bool {
    &&& q.len() > 0
    &&& q[0].delta == 0 ==> match dolphin_position(p.data.dolphins, q[0].object_index as u64) {
        Some(i) => event_defined(p.data.dolphins[i], q[0].event_type),
        None => true,
    }
}

/// One step of a tick on the head of the queue `q`, whose owner is `p`:
/// the queue after it, the player after it, the result to reschedule, and
/// what to do next.
///
/// A head that is not due yet has its delta lowered by one, and the tick
/// ends. A due head is removed; where the player has its dolphin, the event
/// is applied and the player is to be stored; the tick goes on unless the
/// event type was unknown.
pub open spec fn tick_step_spec(q: Seq<Event>, p: DolphinPlayerModel) -> (
    Seq<Event>,
    DolphinPlayerModel,
    Option<EventResult>,
    TickOutcome,
) {
    let head = q[0];
    if head.delta != 0 {
        (
            q.update(0, Event { delta: (head.delta - 1) as usize, ..head }),
            p,
            None,
            TickOutcome { store_player: false, stop: true },
        )
    } else {
        match dolphin_position(p.data.dolphins, head.object_index as u64) {
            None => (q.drop_first(), p, None, TickOutcome { store_player: false, stop: false }),
            Some(i) => {
                let (r, p2) = apply_event_spec(p, i, head.event_type);
                match r {
                    Ok(er) => (
                        q.drop_first(),
                        p2,
                        Some(er),
                        TickOutcome { store_player: true, stop: false },
                    ),
                    Err(_) => (
                        q.drop_first(),
                        p2,
                        None,
                        TickOutcome { store_player: true, stop: true },
                    ),
                }
            },
        }
    }
}

/// The queue event that a result schedules.
pub open spec fn result_event(r: EventResult) -> Event {
    Event { pid: r.owner, event_type: r.event_type, object_index: r.object_id, delta: r.delta }
}

/// The queue after scheduling the results one after the other.
pub open spec fn insert_all(s: Seq<Event>, rs: Seq<EventResult>) -> Seq<Event>
    decreases rs.len(),
{
    if rs.len() == 0 {
        s
    } else {
        spec_insert(insert_all(s, rs.drop_last()), result_event(rs.last()))
    }
}

pub open spec fn option_seq<T>(o: Option<T>) -> Seq<T> {
    match o {
        Some(v) => seq![v],
        None => Seq::empty(),
    }
}

impl EventQueue {
    /// The owner of the event at the head of the queue, if there is one.
    pub fn front_pid(&self) -> (r: Option<[u64; 2]>)
        ensures
            self.list@.len() == 0 ==> r is None,
            self.list@.len() > 0 ==> r == Some(self.list@[0].pid),
    {
        if self.list.len() == 0 {
            None
        } else {
            Some(self.list[0].pid)
        }
    }

    /// Whether `tick_step` with this player runs on this queue.
    pub fn can_tick_step(&self, player: &DolphinPlayer) -> (r: bool)
        ensures
            r == tick_step_allowed(self.list@, player@),
    {
        if self.list.len() == 0 {
            return false;
        }
        let head: Event = self.list[0];
        if head.delta != 0 {
            return true;
        }
        match find_dolphin(&player.data.dolphins, head.object_index as u64) {
            None => true,
            Some(i) => {
                let d: Dolphin = player.data.dolphins[i];
                if head.event_type == GENERATE_COIN && d.health > 0 {
                    d.level <= u64::MAX / 1000 && d.generated_coins <= u64::MAX - 10 * d.level
                } else {
                    true
                }
            },
        }
    }

    /// One step of a tick on the head of the queue, with `player` the owner
    /// of the head event. A result to reschedule is appended to `results`.
    pub fn tick_step(&mut self, player: &mut DolphinPlayer, results: &mut Vec<EventResult>) -> (r: TickOutcome)
        requires
            tick_step_allowed(old(self).list@, old(player)@),
        ensures
            final(self).counter == old(self).counter,
            final(self).list@ == tick_step_spec(old(self).list@, old(player)@).0,
            final(player)@ == tick_step_spec(old(self).list@, old(player)@).1,
            final(results)@ == old(results)@ + option_seq(
                tick_step_spec(old(self).list@, old(player)@).2,
            ),
            r == tick_step_spec(old(self).list@, old(player)@).3,
    {
        let mut head: Event = self.list[0];
        if head.delta != 0 {
            head.delta = head.delta - 1;
            self.list.set(0, head);
            return TickOutcome { store_player: false, stop: true };
        }
        let objindex: usize = head.object_index;
        match find_dolphin(&player.data.dolphins, objindex as u64) {
            None => {
                self.list.remove(0);
                assert(results@ =~= results@ + Seq::<EventResult>::empty());
                TickOutcome { store_player: false, stop: false }
            },
            Some(dolphin_position) => {
                let result = apply_dolphin_event(player, dolphin_position, head.event_type);
                self.list.remove(0);
                match result {
                    Ok(r) => {
                        results.push(r);
                        TickOutcome { store_player: true, stop: false }
                    },
                    Err(_) => {
                        assert(results@ =~= results@ + Seq::<EventResult>::empty());
                        TickOutcome { store_player: true, stop: true }
                    },
                }
            },
        }
    }

    /// Ends a tick: schedules the results in order and counts the tick.
    /// Returns the new tick count as a `u32`.
    pub fn tick_finish(&mut self, results: &Vec<EventResult>) -> (r: u32)
        requires
            old(self).counter < u64::MAX,
        ensures
            final(self).list@ == insert_all(old(self).list@, results@),
            final(self).counter == old(self).counter + 1,
            r == (old(self).counter + 1) as u32,
    {
        let n: usize = results.len();
        let mut i: usize = 0;
        while i < n
            invariant
                0 <= i <= n,
                n == results@.len(),
                self.counter == old(self).counter,
                self.counter < u64::MAX,
                self.list@ == insert_all(old(self).list@, results@.take(i as int)),
            decreases n - i,
        {
            let event: EventResult = results[i];
            self.insert(event.object_id, event.event_type, &event.owner, event.delta);
            proof {
                assert(results@.take(i + 1).drop_last() =~= results@.take(i as int));
                assert(results@.take(i + 1).last() == event);
            }
            i = i + 1;
        }
        assert(results@.take(n as int) =~= results@);
        self.counter = self.counter + 1;
        self.counter as u32
    }
}

/// A head that is not due yet makes one tick pass: every event in the queue
/// comes due one tick sooner.
pub proof fn lemma_waiting_tick_advances_clock(q: Seq<Event>, p: DolphinPlayerModel, base: int)
    requires
        q.len() > 0,
        q[0].delta > 0,
    ensures
        timeline(tick_step_spec(q, p).0, base) == timeline(q, base).map_values(
            |e: (([u64; 2], usize, usize), int)| (e.0, e.1 - 1),
        ),
{
    let q2 = tick_step_spec(q, p).0;
    let rest = q.drop_first();
    assert(q2.drop_first() =~= rest);
    lemma_timeline_shift(rest, base + q[0].delta);
    let tl = timeline(q, base);
    assert(tl =~= seq![(payload(q[0]), base + q[0].delta)] + timeline(rest, base + q[0].delta));
    assert(timeline(q2, base) =~= seq![(payload(q[0]), base + q[0].delta - 1)] + timeline(
        rest,
        base + q[0].delta - 1,
    ));
}

/// Counting from one tick earlier makes every event due one tick earlier.
pub proof fn lemma_timeline_shift(s: Seq<Event>, base: int)
    ensures
        timeline(s, base - 1) == timeline(s, base).map_values(
            |e: (([u64; 2], usize, usize), int)| (e.0, e.1 - 1),
        ),
    decreases s.len(),
{
    if s.len() > 0 {
        lemma_timeline_shift(s.drop_first(), base + s[0].delta);
        assert(timeline(s, base - 1) =~= seq![(payload(s[0]), base - 1 + s[0].delta)] + timeline(
            s.drop_first(),
            base + s[0].delta - 1,
        ));
        assert(timeline(s, base).map_values(|e: (([u64; 2], usize, usize), int)| (e.0, e.1 - 1))
            =~= seq![(payload(s[0]), base + s[0].delta - 1)] + timeline(
            s.drop_first(),
            base + s[0].delta,
        ).map_values(|e: (([u64; 2], usize, usize), int)| (e.0, e.1 - 1)));
    } else {
        assert(timeline(s, base - 1) =~= timeline(s, base).map_values(
            |e: (([u64; 2], usize, usize), int)| (e.0, e.1 - 1),
        ));
    }
}

/// A due head leaves the queue, and every other event stays due when it
/// was.
pub proof fn lemma_due_head_leaves(q: Seq<Event>, p: DolphinPlayerModel, base: int)
    requires
        q.len() > 0,
        q[0].delta == 0,
    ensures
        timeline(tick_step_spec(q, p).0, base) == timeline(q, base).drop_first(),
        timeline(q, base)[0] == (payload(q[0]), base),
{
    let tl = timeline(q, base);
    assert(tl =~= seq![(payload(q[0]), base)] + timeline(q.drop_first(), base));
    assert(tl.drop_first() =~= timeline(q.drop_first(), base));
}

// ---------------------------------------------------------------------
// The word encoding of the queue
// ---------------------------------------------------------------------

/// The word that holds an event's type (from bit 48), dolphin (from bit 32)
/// and delta (from bit 0).
pub open spec fn event_code(e: Event) -> u64 {
    ((e.event_type as u64) << 48u64) | ((e.object_index as u64) << 32u64) | (e.delta as u64)
}

/// The three words an event is stored as.
pub open spec fn event_words(e: Event) -> Seq<u64> {
    seq![e.pid[0], e.pid[1], event_code(e)]
}

/// The event stored at `pos` and the position after it; none where fewer
/// than three words are left.
pub open spec fn decode_event(data: Seq<u64>, pos: int) -> Option<(Event, int)> {
    if 0 <= pos && pos + 3 <= data.len() {
        let f: u64 = data[pos + 2];
        Some(
            (
                Event {
                    pid: [data[pos], data[pos + 1]],
                    event_type: (f >> 48u64) as usize,
                    object_index: ((f >> 32u64) & 0xffffu64) as usize,
                    delta: (f & 0xffff_ffffu64) as usize,
                },
                pos + 3,
            ),
        )
    } else {
        None
    }
}

/// The fields of the event fit the widths of its word: 16 bits of type,
/// 16 bits of dolphin, 32 bits of delta.
pub open spec fn event_fits(e: Event) -> bool {
    &&& e.event_type < 0x1_0000
    &&& e.object_index < 0x1_0000
    &&& e.delta < 0x1_0000_0000
}

pub open spec fn events_words(s: Seq<Event>) -> Seq<u64>
    decreases s.len(),
{
    if s.len() == 0 {
        Seq::empty()
    } else {
        events_words(s.drop_last()) + event_words(s.last())
    }
}

pub open spec fn decode_events(data: Seq<u64>, pos: int, n: nat) -> Option<(Seq<Event>, int)>
    decreases n,
{
    if n == 0 {
        Some((Seq::empty(), pos))
    } else {
        match decode_events(data, pos, (n - 1) as nat) {
            None => None,
            Some((es, c)) => match decode_event(data, c) {
                None => None,
                Some((e, end)) => Some((es.push(e), end)),
            },
        }
    }
}

/// The words a queue is stored as: the tick count, the number of events,
/// then the events in order.
pub open spec fn queue_words(counter: u64, s: Seq<Event>) -> Seq<u64> {
    seq![counter, s.len() as u64] + events_words(s)
}

/// The queue (tick count and events) stored at `pos`, and the position
/// after it.
pub open spec fn decode_queue(data: Seq<u64>, pos: int) -> Option<((u64, Seq<Event>), int)> {
    if 0 <= pos && pos + 2 <= data.len() {
        match decode_events(data, pos + 2, (data[pos + 1] as usize) as nat) {
            None => None,
            Some((es, end)) => Some(((data[pos], es), end)),
        }
    } else {
        None
    }
}

impl Event {
    /// Appends the event's words.
    pub fn to_data(&self, buf: &mut Vec<u64>)
        ensures
            final(buf)@ == old(buf)@ + event_words(*self),
    {
        buf.push(self.pid[0]);
        buf.push(self.pid[1]);
        let encoded: u64 = ((self.event_type as u64) << 48u64) | ((self.object_index as u64) << 32u64)
            | (self.delta as u64);
        buf.push(encoded);
    }

    /// Reads the event stored at `pos`.
    pub fn from_data(u64data: &[u64], pos: usize) -> (r: Option<(Event, usize)>)
        ensures
            match r {
                Some((e, end)) => decode_event(u64data@, pos as int) == Some((e, end as int)),
                None => decode_event(u64data@, pos as int) is None,
            },
    {
        let n: usize = u64data.len();
        if pos > n || n - pos < 3 {
            return None;
        }
        let f: u64 = u64data[pos + 2];
        let e = Event {
            pid: [u64data[pos], u64data[pos + 1]],
            event_type: (f >> 48u64) as usize,
            object_index: ((f >> 32u64) & 0xffffu64) as usize,
            delta: (f & 0xffff_ffffu64) as usize,
        };
        Some((e, pos + 3))
    }
}

impl EventQueue {
    /// Appends the queue's words.
    pub fn to_data(&self, buf: &mut Vec<u64>)
        ensures
            final(buf)@ == old(buf)@ + queue_words(self.counter, self.list@),
    {
        let ghost start = buf@;
        buf.push(self.counter);
        buf.push(self.list.len() as u64);
        let ghost header = buf@;
        let n: usize = self.list.len();
        let mut i: usize = 0;
        while i < n
            invariant
                0 <= i <= n,
                n == self.list@.len(),
                buf@ == header + events_words(self.list@.take(i as int)),
            decreases n - i,
        {
            self.list[i].to_data(buf);
            proof {
                assert(self.list@.take(i + 1).drop_last() =~= self.list@.take(i as int));
            }
            i = i + 1;
        }
        proof {
            assert(self.list@.take(n as int) =~= self.list@);
            assert(header =~= start + seq![self.counter, self.list@.len() as u64]);
        }
    }

    /// Reads the queue stored at `pos`.
    pub fn from_data(u64data: &[u64], pos: usize) -> (r: Option<(EventQueue, usize)>)
        ensures
            match r {
                Some((q, end)) => decode_queue(u64data@, pos as int) == Some(
                    ((q.counter, q.list@), end as int),
                ),
                None => decode_queue(u64data@, pos as int) is None,
            },
    {
        let n: usize = u64data.len();
        if pos > n || n - pos < 2 {
            return None;
        }
        let counter: u64 = u64data[pos];
        let len: usize = u64data[pos + 1] as usize;
        let mut list: Vec<Event> = Vec::new();
        let mut cur: usize = pos + 2;
        let mut i: usize = 0;
        while i < len
            invariant
                0 <= i <= len,
                n == u64data@.len(),
                pos + 2 <= n,
                len == u64data@[pos + 1] as usize,
                decode_events(u64data@, pos + 2, i as nat) == Some((list@, cur as int)),
            decreases len - i,
        {
            match Event::from_data(u64data, cur) {
                None => {
                    proof {
                        assert(decode_events(u64data@, pos + 2, (i + 1) as nat) is None);
                        lemma_decode_events_none_grows(u64data@, pos + 2, (i + 1) as nat, len as nat);
                    }
                    return None;
                },
                Some((e, next)) => {
                    list.push(e);
                    cur = next;
                },
            }
            i = i + 1;
        }
        Some((EventQueue { counter, list }, cur))
    }
}

proof fn lemma_decode_events_none_grows(data: Seq<u64>, pos: int, n: nat, m: nat)
    requires
        n <= m,
        decode_events(data, pos, n) is None,
    ensures
        decode_events(data, pos, m) is None,
    decreases m - n,
{
    if n < m {
        lemma_decode_events_none_grows(data, pos, n + 1, m);
    }
}

proof fn lemma_event_code_fields(a: u64, b: u64, c: u64)
    requires
        a < 0x1_0000,
        b < 0x1_0000,
        c < 0x1_0000_0000,
    ensures
        ((a << 48u64) | (b << 32u64) | c) >> 48u64 == a,
        (((a << 48u64) | (b << 32u64) | c) >> 32u64) & 0xffffu64 == b,
        ((a << 48u64) | (b << 32u64) | c) & 0xffff_ffffu64 == c,
{
    assert(((a << 48u64) | (b << 32u64) | c) >> 48u64 == a) by (bit_vector)
        requires
            a < 0x1_0000,
            b < 0x1_0000,
            c < 0x1_0000_0000,
    ;
    assert((((a << 48u64) | (b << 32u64) | c) >> 32u64) & 0xffffu64 == b) by (bit_vector)
        requires
            a < 0x1_0000,
            b < 0x1_0000,
            c < 0x1_0000_0000,
    ;
    assert(((a << 48u64) | (b << 32u64) | c) & 0xffff_ffffu64 == c) by (bit_vector)
        requires
            a < 0x1_0000,
            b < 0x1_0000,
            c < 0x1_0000_0000,
    ;
}

/// A stored event whose fields fit their widths reads back as itself.
pub proof fn lemma_event_roundtrip(prefix: Seq<u64>, e: Event, rest: Seq<u64>)
    requires
        event_fits(e),
    ensures
        decode_event(prefix + event_words(e) + rest, prefix.len() as int) == Some(
            (e, prefix.len() + 3int),
        ),
{
    let data = prefix + event_words(e) + rest;
    let p: int = prefix.len() as int;
    assert(data[p] == e.pid[0]);
    assert(data[p + 1] == e.pid[1]);
    assert(data[p + 2] == event_code(e));
    lemma_event_code_fields(e.event_type as u64, e.object_index as u64, e.delta as u64);
    let d = decode_event(data, p).unwrap().0;
    assert(d.pid =~= e.pid);
}

pub proof fn lemma_events_words_len(s: Seq<Event>)
    ensures
        events_words(s).len() == 3 * s.len(),
    decreases s.len(),
{
    if s.len() > 0 {
        lemma_events_words_len(s.drop_last());
    }
}

/// Stored events whose fields fit their widths read back as themselves.
pub proof fn lemma_events_roundtrip(prefix: Seq<u64>, es: Seq<Event>, rest: Seq<u64>)
    requires
        forall|i: int| 0 <= i < es.len() ==> event_fits(#[trigger] es[i]),
    ensures
        decode_events(prefix + events_words(es) + rest, prefix.len() as int, es.len()) == Some(
            (es, prefix.len() + 3 * es.len() as int),
        ),
    decreases es.len(),
{
    if es.len() > 0 {
        let init = es.drop_last();
        let last = es.last();
        let rest2 = event_words(last) + rest;
        assert(prefix + events_words(es) + rest =~= prefix + events_words(init) + rest2);
        assert forall|i: int| 0 <= i < init.len() implies event_fits(#[trigger] init[i]) by {
            assert(init[i] == es[i]);
        }
        lemma_events_roundtrip(prefix, init, rest2);
        lemma_events_words_len(init);
        let pre2 = prefix + events_words(init);
        assert(prefix + events_words(init) + rest2 =~= pre2 + event_words(last) + rest);
        assert(event_fits(es[es.len() - 1]));
        lemma_event_roundtrip(pre2, last, rest);
        assert(init.push(last) =~= es);
    } else {
        assert(prefix + events_words(es) + rest =~= prefix + rest);
    }
}

/// A stored queue whose events fit their widths reads back as itself: what
/// `fetch` gives back of what `store` wrote.
pub proof fn lemma_queue_roundtrip(prefix: Seq<u64>, counter: u64, es: Seq<Event>, rest: Seq<u64>)
    requires
        es.len() <= usize::MAX,
        forall|i: int| 0 <= i < es.len() ==> event_fits(#[trigger] es[i]),
    ensures
        decode_queue(prefix + queue_words(counter, es) + rest, prefix.len() as int) == Some(
            ((counter, es), prefix.len() + 2 + 3 * es.len() as int),
        ),
{
    let header = seq![counter, es.len() as u64];
    let data = prefix + queue_words(counter, es) + rest;
    let pos: int = prefix.len() as int;
    assert(data =~= (prefix + header) + events_words(es) + rest);
    lemma_events_roundtrip(prefix + header, es, rest);
    assert(data[pos] == counter);
    assert(data[pos + 1] == es.len() as u64);
}

// ---------------------------------------------------------------------
// What every event keeps
// ---------------------------------------------------------------------

/// On an account that keeps its invariant, an event never leaves the range
/// of `u64`, and the account keeps its invariant after it.
pub proof fn lemma_event_keeps_invariant(p: DolphinPlayerModel, pos: int, event_type: usize)
    requires
        account_invariant(p.data),
    ensures
        0 <= pos < p.data.dolphins.len() ==> event_defined(p.data.dolphins[pos], event_type),
        account_invariant(apply_event_spec(p, pos, event_type).1.data),
{
    if 0 <= pos < p.data.dolphins.len() {
        let s = p.data.dolphins;
        assert(dolphin_ok(s[pos]));
        match event_effect(s[pos], event_type) {
            Some((d2, next)) => {
                let t = s.update(pos, d2);
                assert(apply_event_spec(p, pos, event_type).1.data.dolphins == t);
                assert forall|i: int| 0 <= i < t.len() implies #[trigger] dolphin_ok(t[i]) by {
                    assert(dolphin_ok(s[i]));
                }
                assert forall|i: int| 0 <= i < t.len() implies #[trigger] t[i].id < p.data.dolphin_index by {
                    assert(s[i].id < p.data.dolphin_index);
                }
                assert forall|i: int, j: int| 0 <= i < j < t.len() implies #[trigger] t[i].id
                    < #[trigger] t[j].id by {
                    assert(s[i].id < s[j].id);
                }
            },
            None => {},
        }
    }
}

/// On an account that keeps its invariant, a step of a tick never leaves
/// the range of `u64`, and the account keeps its invariant after it.
pub proof fn lemma_tick_step_keeps_invariant(q: Seq<Event>, p: DolphinPlayerModel)
    requires
        q.len() > 0,
        account_invariant(p.data),
    ensures
        tick_step_allowed(q, p),
        account_invariant(tick_step_spec(q, p).1.data),
{
    if q[0].delta == 0 {
        match dolphin_position(p.data.dolphins, q[0].object_index as u64) {
            Some(i) => {
                assert(is_first_with_id(p.data.dolphins, q[0].object_index as u64, i));
                lemma_event_keeps_invariant(p, i, q[0].event_type);
            },
            None => {},
        }
    }
}

// ---------------------------------------------------------------------
// What each event does, field by field
// ---------------------------------------------------------------------

/// Growing adds 35 to a growth below 65 and schedules growing again in 3
/// ticks; from 65 on it makes the dolphin grown (100) and schedules coins.
/// Nothing else of the player changes.
pub proof fn law_grow_event(p: DolphinPlayerModel, pos: int)
    requires
        0 <= pos < p.data.dolphins.len(),
    ensures
        ({
            let d = p.data.dolphins[pos];
            let (r, q) = apply_event_spec(p, pos, 0);
            &&& r == Ok::<EventResult, u32>(
                EventResult {
                    object_id: d.id as usize,
                    event_type: if d.life_stage < 65 { 0 } else { 2 },
                    owner: p.player_id,
                    delta: 3,
                },
            )
            &&& q.data.dolphins[pos] == Dolphin {
                life_stage: if d.life_stage < 65 { (d.life_stage + 35) as u64 } else { 100 },
                ..d
            }
            &&& d.life_stage < 65 ==> q.data.dolphins[pos].life_stage == d.life_stage + 35
            &&& q.data.dolphins == p.data.dolphins.update(pos, q.data.dolphins[pos])
            &&& q == DolphinPlayerModel { data: PlayerModel { dolphins: q.data.dolphins, ..p.data }, ..p }
        }),
{
}

/// Starving takes 3 satiety from a dolphin with more than 3 and leaves its
/// health; at 3 or less it empties the satiety and takes 5 health, down to
/// 0. It schedules starving again in 3 ticks. Nothing else changes.
pub proof fn law_starve_event(p: DolphinPlayerModel, pos: int)
    requires
        0 <= pos < p.data.dolphins.len(),
    ensures
        ({
            let d = p.data.dolphins[pos];
            let (r, q) = apply_event_spec(p, pos, 1);
            let d2 = q.data.dolphins[pos];
            &&& r == Ok::<EventResult, u32>(
                EventResult { object_id: d.id as usize, event_type: 1, owner: p.player_id, delta: 3 },
            )
            &&& d.satiety > 3 ==> d2.satiety + 3 == d.satiety && d2.health == d.health
            &&& d.satiety <= 3 ==> d2.satiety == 0 && d2.health == if d.health >= 5 {
                d.health - 5
            } else {
                0
            }
            &&& d2 == Dolphin { satiety: d2.satiety, health: d2.health, ..d }
            &&& q.data.dolphins == p.data.dolphins.update(pos, d2)
            &&& q == DolphinPlayerModel { data: PlayerModel { dolphins: q.data.dolphins, ..p.data }, ..p }
        }),
{
}

/// A healthy dolphin generates 10 coins per level while that keeps it at
/// most 1000 per level; a dolphin without health generates none. It
/// schedules coins again in 3 ticks. Nothing else changes.
pub proof fn law_coin_event(p: DolphinPlayerModel, pos: int)
    requires
        0 <= pos < p.data.dolphins.len(),
        1000 * p.data.dolphins[pos].level <= u64::MAX,
    ensures
        ({
            let d = p.data.dolphins[pos];
            let (r, q) = apply_event_spec(p, pos, 2);
            let d2 = q.data.dolphins[pos];
            &&& r == Ok::<EventResult, u32>(
                EventResult { object_id: d.id as usize, event_type: 2, owner: p.player_id, delta: 3 },
            )
            &&& d2.generated_coins == if d.health > 0 && d.generated_coins + 10 * d.level <= 1000
                * d.level {
                d.generated_coins + 10 * d.level
            } else {
                d.generated_coins as int
            }
            &&& d2 == Dolphin { generated_coins: d2.generated_coins, ..d }
            &&& q.data.dolphins == p.data.dolphins.update(pos, d2)
            &&& q == DolphinPlayerModel { data: PlayerModel { dolphins: q.data.dolphins, ..p.data }, ..p }
        }),
{
}

/// An event for a position where the player has no dolphin is refused with
/// 1, and one of an unknown type with 2; neither changes the player.
pub proof fn law_refused_event(p: DolphinPlayerModel, pos: int, event_type: usize)
    requires
        !(0 <= pos < p.data.dolphins.len()) || event_type > 2,
    ensures
        apply_event_spec(p, pos, event_type).1 == p,
        !(0 <= pos < p.data.dolphins.len()) ==> apply_event_spec(p, pos, event_type).0 == Err::<
            EventResult,
            u32,
        >(1),
        0 <= pos < p.data.dolphins.len() ==> apply_event_spec(p, pos, event_type).0 == Err::<
            EventResult,
            u32,
        >(2),
{
}

/// A due event whose dolphin the player has, and whose type is known,
/// leaves the queue; the player's first dolphin with that id is changed by
/// the event, the tick goes on, the player is to be stored, and the event
/// the dolphin schedules next, 3 ticks on, is handed back to be
/// rescheduled. After the tick it stands in the queue, due 3 ticks later.
pub proof fn law_due_event_reschedules(q: Seq<Event>, p: DolphinPlayerModel, i: int)
    requires
        q.len() > 0,
        q[0].delta == 0,
        q[0].event_type <= 2,
        0 <= i < p.data.dolphins.len(),
        p.data.dolphins[i].id == q[0].object_index as u64,
        forall|j: int| 0 <= j < i ==> p.data.dolphins[j].id != q[0].object_index as u64,
    ensures
        ({
            let d = p.data.dolphins[i];
            let et = q[0].event_type;
            let next: usize = if et == 0 && d.life_stage >= 65 { 2 } else { et };
            let r = EventResult { object_id: d.id as usize, event_type: next, owner: p.player_id, delta: 3 };
            let (q2, p2, res, outcome) = tick_step_spec(q, p);
            &&& q2 == q.drop_first()
            &&& res == Some(r)
            &&& outcome == TickOutcome { store_player: true, stop: false }
            &&& p2 == apply_event_spec(p, i, et).1
            &&& insert_all(q2, seq![r]) == spec_insert(
                q.drop_first(),
                Event { pid: p.player_id, event_type: next, object_index: d.id as usize, delta: 3 },
            )
            &&& timeline(insert_all(q2, seq![r]), 0) == insert_by_time(
                timeline(q.drop_first(), 0),
                (p.player_id, next, d.id as usize),
                3,
            )
        }),
{
    let s = p.data.dolphins;
    let id = q[0].object_index as u64;
    assert(is_first_with_id(s, id, i));
    let c: int = choose|c: int| is_first_with_id(s, id, c);
    assert(is_first_with_id(s, id, c));
    if c < i {
        assert(s[c].id != id);
    } else if c > i {
        assert(s[i].id != id);
    }
    let d = s[i];
    let et = q[0].event_type;
    let next: usize = if et == 0 && d.life_stage >= 65 { 2 } else { et };
    let r = EventResult { object_id: d.id as usize, event_type: next, owner: p.player_id, delta: 3 };
    let q2 = tick_step_spec(q, p).0;
    assert(seq![r].drop_last() =~= Seq::<EventResult>::empty());
    assert(insert_all(q2, Seq::<EventResult>::empty()) == q2);
    assert(result_event(r) == Event { pid: p.player_id, event_type: next, object_index: d.id as usize, delta: 3 });
    lemma_insert_timeline(q.drop_first(), result_event(r), 0);
}

/// A due event whose dolphin the player does not have leaves the queue and
/// changes nothing else; nothing is rescheduled and the tick goes on.
pub proof fn law_due_event_without_dolphin(q: Seq<Event>, p: DolphinPlayerModel)
    requires
        q.len() > 0,
        q[0].delta == 0,
        forall|j: int| 0 <= j < p.data.dolphins.len() ==> p.data.dolphins[j].id != q[0].object_index as u64,
    ensures
        tick_step_spec(q, p) == (q.drop_first(), p, None::<EventResult>, TickOutcome { store_player: false, stop: false }),
{
    assert(!exists|i: int| #[trigger] is_first_with_id(p.data.dolphins, q[0].object_index as u64, i));
}

/// Ending a tick counts it and puts every result back into the queue at the
/// tick its delta names.
pub proof fn law_results_rescheduled(s: Seq<Event>, r: EventResult)
    ensures
        timeline(insert_all(s, seq![r]), 0) == insert_by_time(
            timeline(s, 0),
            (r.owner, r.event_type, r.object_id),
            r.delta as int,
        ),
{
    assert(seq![r].drop_last() =~= Seq::<EventResult>::empty());
    assert(seq![r].last() == r);
    assert(insert_all(s, Seq::<EventResult>::empty()) == s);
    assert(insert_all(s, seq![r]) == spec_insert(s, result_event(r)));
    assert(payload(result_event(r)) == (r.owner, r.event_type, r.object_id));
    lemma_insert_timeline(s, result_event(r), 0);
}

} // verus!
