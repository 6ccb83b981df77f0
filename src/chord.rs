//! The chord state machine: which keys should be live, how key presses,
//! timeouts and configuration reloads move the machine, and which
//! application a completed chord launches.
//!
//! The machine decides; it never talks to the hotkey facility. Every
//! transition hands back the registrations it asks for, so that the caller
//! can keep the facility in step with the logical state.
use vstd::prelude::*;

verus! {

/// A second key of a chord: the id of its registered hotkey and the
/// application it launches.
#[derive(Debug)]
pub struct Binding {
    pub id: u32,
    pub path: String,
}

impl View for Binding {
    type V = (u32, Seq<char>);

    open spec fn view(&self) -> (u32, Seq<char>) {
        (self.id, self.path@)
    }
}

impl Binding {
    pub fn new(id: u32, path: String) -> (r: Binding)
        ensures
            r@ == (id, path@),
    {
        Binding { id, path }
    }
}

/// The current mode of the machine.
#[derive(Debug)]
pub enum State {
    /// Only the leader key is live.
    Waiting,
    /// The leader was pressed at `pressed_at` (milliseconds on the caller's
    /// monotonic clock); `registered_keys` are the ids registered for the
    /// live set, the secondary one when `is_secondary`.
    AwaitingSecondKey { pressed_at: u64, registered_keys: Vec<u32>, is_secondary: bool },
}

/// Abstract mode of the machine.
pub ghost enum Mode {
    Waiting,
    Awaiting { pressed_at: u64, keys: Seq<u32>, secondary: bool },
}

impl View for State {
    type V = Mode;

    open spec fn view(&self) -> Mode {
        match self {
            State::Waiting => Mode::Waiting,
            State::AwaitingSecondKey { pressed_at, registered_keys, is_secondary } => Mode::Awaiting {
                pressed_at: *pressed_at,
                keys: registered_keys@,
                secondary: *is_secondary,
            },
        }
    }
}

/// Abstract state of the machine: the leader key's id, the two sets of
/// bindings as (id, path) pairs, the timeout in milliseconds and the mode.
pub ghost struct ChordView {
    pub leader: u32,
    pub primary: Seq<(u32, Seq<char>)>,
    pub secondary: Seq<(u32, Seq<char>)>,
    pub timeout: u64,
    pub mode: Mode,
}

/// What the hotkey facility must do after a key press.
#[derive(Debug)]
pub enum Reaction {
    /// Nothing changed.
    Ignored,
    /// The leader armed the machine: register `keys`.
    Armed { keys: Vec<u32> },
    /// The leader toggled the live set: unregister `released`, then register
    /// `keys`.
    Swapped { released: Vec<u32>, keys: Vec<u32> },
    /// A bound key completed the chord: launch `path` and unregister
    /// `released`.
    Launch { path: String, released: Vec<u32> },
}

/// When the host loop should wake the machine next.
#[derive(Debug)]
pub enum Wake {
    /// Nothing is pending: wait for the next event.
    Indefinitely,
    /// A chord is pending: wake at this instant (milliseconds) to expire it.
    Until(u64),
}

/// The (id, path) pairs of a list of bindings.
pub open spec fn bindings_view(s: Seq<Binding>) -> Seq<(u32, Seq<char>)> {
    s.map_values(|b: Binding| b@)
}

/// The ids of `set` that are registered for a chord, in order: every one but
/// the leader's, which stays registered on its own.
pub open spec fn live_keys(set: Seq<(u32, Seq<char>)>, leader: u32) -> Seq<u32>
    decreases set.len(),
{
    if set.len() == 0 {
        Seq::empty()
    } else {
        let rest = live_keys(set.drop_last(), leader);
        if set.last().0 == leader {
            rest
        } else {
            rest.push(set.last().0)
        }
    }
}

/// The path bound to `id` by the first binding of `set` with that id.
pub open spec fn bound_path(set: Seq<(u32, Seq<char>)>, id: u32) -> Option<Seq<char>>
    decreases set.len(),
{
    if set.len() == 0 {
        None
    } else if set[0].0 == id {
        Some(set[0].1)
    } else {
        bound_path(set.drop_first(), id)
    }
}

/// The set of bindings that is live when `secondary` is as given.
pub open spec fn live_set(v: ChordView, secondary: bool) -> Seq<(u32, Seq<char>)> {
    if secondary {
        v.secondary
    } else {
        v.primary
    }
}

/// `v` with its mode replaced.
pub open spec fn with_mode(v: ChordView, mode: Mode) -> ChordView {
    ChordView { leader: v.leader, primary: v.primary, secondary: v.secondary, timeout: v.timeout, mode }
}

/// The keys registered for a chord: none while waiting.
pub open spec fn registered(v: ChordView) -> Seq<u32> {
    match v.mode {
        Mode::Waiting => Seq::empty(),
        Mode::Awaiting { keys, .. } => keys,
    }
}

/// The application that pressing `id` launches, if any.
pub open spec fn launched(v: ChordView, id: u32) -> Option<Seq<char>> {
    match v.mode {
        Mode::Waiting => None,
        Mode::Awaiting { secondary, .. } => if id == v.leader {
            None
        } else {
            bound_path(live_set(v, secondary), id)
        },
    }
}

/// The state after the key with id `id` is pressed at `now`.
pub open spec fn pressed(v: ChordView, id: u32, now: u64) -> ChordView {
    match v.mode {
        Mode::Waiting => if id == v.leader {
            with_mode(
                v,
                Mode::Awaiting { pressed_at: now, keys: live_keys(v.primary, v.leader), secondary: false },
            )
        } else {
            v
        },
        Mode::Awaiting { secondary, .. } => if id == v.leader {
            with_mode(
                v,
                Mode::Awaiting {
                    pressed_at: now,
                    keys: live_keys(live_set(v, !secondary), v.leader),
                    secondary: !secondary,
                },
            )
        } else if launched(v, id) is Some {
            with_mode(v, Mode::Waiting)
        } else {
            v
        },
    }
}

/// A pending chord whose window has passed at `now`.
pub open spec fn timed_out(v: ChordView, now: u64) -> bool {
    match v.mode {
        Mode::Waiting => false,
        Mode::Awaiting { pressed_at, .. } => now - pressed_at > v.timeout,
    }
}

/// The state after a timeout check at `now`.
pub open spec fn ticked(v: ChordView, now: u64) -> ChordView {
    if timed_out(v, now) {
        with_mode(v, Mode::Waiting)
    } else {
        v
    }
}

/// The state after a new configuration replaced the old one.
pub open spec fn reconfigured(
    v: ChordView,
    leader: u32,
    primary: Seq<(u32, Seq<char>)>,
    secondary: Seq<(u32, Seq<char>)>,
    timeout: u64,
) -> ChordView {
    ChordView { leader, primary, secondary, timeout, mode: Mode::Waiting }
}

/// The instant at which a pending chord expires, saturated to `u64`.
pub open spec fn deadline(v: ChordView) -> Option<u64> {
    match v.mode {
        Mode::Waiting => None,
        Mode::Awaiting { pressed_at, .. } => if pressed_at + v.timeout <= u64::MAX {
            Some((pressed_at + v.timeout) as u64)
        } else {
            Some(u64::MAX)
        },
    }
}

/// The registered keys are exactly the live keys of the live set.
pub open spec fn consistent(v: ChordView) -> bool {
    match v.mode {
        Mode::Waiting => true,
        Mode::Awaiting { keys, secondary, .. } => keys == live_keys(live_set(v, secondary), v.leader),
    }
}

/// What a key press asks of the hotkey facility, given the state before it.
pub open spec fn reaction_fits(v: ChordView, id: u32, now: u64, r: Reaction) -> bool {
    match r {
        Reaction::Ignored => pressed(v, id, now) == v && launched(v, id) is None,
        Reaction::Armed { keys } => v.mode is Waiting && id == v.leader && keys@ == registered(
            pressed(v, id, now),
        ),
        Reaction::Swapped { released, keys } => v.mode is Awaiting && id == v.leader && released@
            == registered(v) && keys@ == registered(pressed(v, id, now)),
        Reaction::Launch { path, released } => launched(v, id) == Some(path@) && released@
            == registered(v),
    }
}

/// An input to the machine.
pub ghost enum Event {
    /// The key with this id was pressed at `now`.
    Press { id: u32, now: u64 },
    /// The host loop checked for a timeout at `now`.
    Tick { now: u64 },
    /// A new configuration was applied.
    Reload {
        leader: u32,
        primary: Seq<(u32, Seq<char>)>,
        secondary: Seq<(u32, Seq<char>)>,
        timeout: u64,
    },
}

/// The state after one event.
pub open spec fn step(v: ChordView, e: Event) -> ChordView {
    match e {
        Event::Press { id, now } => pressed(v, id, now),
        Event::Tick { now } => ticked(v, now),
        Event::Reload { leader, primary, secondary, timeout } => reconfigured(
            v,
            leader,
            primary,
            secondary,
            timeout,
        ),
    }
}

/// The state after a sequence of events, in order.
pub open spec fn run(v: ChordView, events: Seq<Event>) -> ChordView
    decreases events.len(),
{
    if events.len() == 0 {
        v
    } else {
        run(step(v, events[0]), events.drop_first())
    }
}

/// Every live key of `set` is bound in `set` and is not the leader.
proof fn lemma_live_keys_bound(set: Seq<(u32, Seq<char>)>, leader: u32)
    ensures
        forall|k: int|
            0 <= k < live_keys(set, leader).len() ==> {
                &&& live_keys(set, leader)[k] != leader
                &&& exists|i: int| 0 <= i < set.len() && set[i].0 == #[trigger] live_keys(set, leader)[k]
            },
    decreases set.len(),
{
    if set.len() > 0 {
        let rest = set.drop_last();
        lemma_live_keys_bound(rest, leader);
        assert forall|k: int| 0 <= k < live_keys(set, leader).len() implies {
            &&& live_keys(set, leader)[k] != leader
            &&& exists|i: int| 0 <= i < set.len() && set[i].0 == #[trigger] live_keys(set, leader)[k]
        } by {
            if k < live_keys(rest, leader).len() {
                let i = choose|i: int| 0 <= i < rest.len() && rest[i].0 == live_keys(rest, leader)[k];
                assert(set[i] == rest[i]);
            } else {
                assert(set[set.len() - 1].0 == live_keys(set, leader)[k]);
            }
        }
    }
}

/// In a consistent state the leader is never among the registered keys.
pub proof fn leader_never_registered(v: ChordView)
    requires
        consistent(v),
    ensures
        !registered(v).contains(v.leader),
{
    if let Mode::Awaiting { secondary, .. } = v.mode {
        lemma_live_keys_bound(live_set(v, secondary), v.leader);
    }
}

/// Whatever sequence of events a consistent machine receives, it stays
/// consistent: while waiting no secondary key is registered, and while a
/// chord is pending the registered keys are exactly the live keys of the
/// live set, each bound in that set and none of them the leader.
pub proof fn registered_keys_follow_live_set(v: ChordView, events: Seq<Event>)
    requires
        consistent(v),
    ensures
        consistent(run(v, events)),
        run(v, events).mode is Waiting ==> registered(run(v, events)).len() == 0,
        match run(v, events).mode {
            Mode::Waiting => true,
            Mode::Awaiting { keys, secondary, .. } => forall|k: int|
                0 <= k < keys.len() ==> {
                    &&& keys[k] != run(v, events).leader
                    &&& exists|i: int|
                        0 <= i < live_set(run(v, events), secondary).len() && live_set(
                            run(v, events),
                            secondary,
                        )[i].0 == #[trigger] keys[k]
                },
        },
    decreases events.len(),
{
    if events.len() > 0 {
        let next = step(v, events[0]);
        assert(consistent(next));
        registered_keys_follow_live_set(next, events.drop_first());
    }
    let last = run(v, events);
    if let Mode::Awaiting { secondary, .. } = last.mode {
        lemma_live_keys_bound(live_set(last, secondary), last.leader);
    }
}

/// Checking for a timeout after the deadline has passed ends the chord
/// once; every later check, at any instant, leaves the machine as it is.
pub proof fn timeout_check_is_idempotent(v: ChordView, now: u64, later: u64)
    requires
        timed_out(v, now),
    ensures
        ticked(v, now) == with_mode(v, Mode::Waiting),
        registered(ticked(v, now)).len() == 0,
        !timed_out(ticked(v, now), later),
        ticked(ticked(v, now), later) == ticked(v, now),
{
}

/// Applying the same configuration twice leaves the machine as applying it
/// once does: the same leader, bindings and timeout, and waiting.
pub proof fn reconcile_is_idempotent(
    v: ChordView,
    leader: u32,
    primary: Seq<(u32, Seq<char>)>,
    secondary: Seq<(u32, Seq<char>)>,
    timeout: u64,
)
    ensures
        reconfigured(reconfigured(v, leader, primary, secondary, timeout), leader, primary, secondary, timeout)
            == reconfigured(v, leader, primary, secondary, timeout),
        reconfigured(v, leader, primary, secondary, timeout).mode is Waiting,
        reconfigured(v, leader, primary, secondary, timeout).leader == leader,
{
}

/// The chord state machine.
#[derive(Debug)]
pub struct ChordMachine {
    pub leader: u32,
    pub applications: Vec<Binding>,
    pub secondary_applications: Vec<Binding>,
    pub timeout_ms: u64,
    pub state: State,
}

impl View for ChordMachine {
    type V = ChordView;

    open spec fn view(&self) -> ChordView {
        ChordView {
            leader: self.leader,
            primary: bindings_view(self.applications@),
            secondary: bindings_view(self.secondary_applications@),
            timeout: self.timeout_ms,
            mode: self.state@,
        }
    }
}

/// The ids of `set` other than `leader`, in order.
fn live_keys_of(set: &Vec<Binding>, leader: u32) -> (r: Vec<u32>)
    ensures
        r@ == live_keys(bindings_view(set@), leader),
{
    let mut keys: Vec<u32> = Vec::new();
    let mut i: usize = 0;
    while i < set.len()
        invariant
            i <= set@.len(),
            keys@ == live_keys(bindings_view(set@).subrange(0, i as int), leader),
        decreases set@.len() - i,
    {
        let ghost all = bindings_view(set@);
        assert(all.subrange(0, i + 1).drop_last() =~= all.subrange(0, i as int));
        if set[i].id != leader {
            keys.push(set[i].id);
        }
        i = i + 1;
    }
    assert(bindings_view(set@).subrange(0, set@.len() as int) =~= bindings_view(set@));
    keys
}

/// The index of the first binding of `set` with id `id`.
fn find_binding(set: &Vec<Binding>, id: u32) -> (r: Option<usize>)
    ensures
        match r {
            Some(i) => i < set@.len() && bound_path(bindings_view(set@), id) == Some(set@[i as int].path@),
            None => bound_path(bindings_view(set@), id) is None,
        },
{
    let ghost all = bindings_view(set@);
    let mut i: usize = 0;
    assert(all.subrange(0, all.len() as int) =~= all);
    while i < set.len()
        invariant
            i <= set@.len(),
            all == bindings_view(set@),
            bound_path(all, id) == bound_path(all.subrange(i as int, all.len() as int), id),
        decreases set@.len() - i,
    {
        let ghost rest = all.subrange(i as int, all.len() as int);
        if set[i].id == id {
            assert(rest[0] == all[i as int]);
            return Some(i);
        }
        assert(rest.drop_first() =~= all.subrange(i + 1, all.len() as int));
        i = i + 1;
    }
    None
}

impl ChordMachine {
    /// A machine waiting for the leader key.
    pub fn new(
        leader: u32,
        applications: Vec<Binding>,
        secondary_applications: Vec<Binding>,
        timeout_ms: u64,
    ) -> (r: ChordMachine)
        ensures
            r@ == (ChordView {
                leader,
                primary: bindings_view(applications@),
                secondary: bindings_view(secondary_applications@),
                timeout: timeout_ms,
                mode: Mode::Waiting,
            }),
    {
        ChordMachine { leader, applications, secondary_applications, timeout_ms, state: State::Waiting }
    }

    /// Leaves the pending chord, if any, and hands back the keys that were
    /// registered for it.
    pub fn reset_state(&mut self) -> (released: Vec<u32>)
        ensures
            final(self)@ == with_mode(old(self)@, Mode::Waiting),
            released@ == registered(old(self)@),
    {
        let mut state = State::Waiting;
        std::mem::swap(&mut self.state, &mut state);
        match state {
            State::Waiting => Vec::new(),
            State::AwaitingSecondKey { registered_keys, .. } => registered_keys,
        }
    }

    /// Whether the pending chord has expired at `now`.
    pub fn is_timed_out(&self, now: u64) -> (r: bool)
        ensures
            r == timed_out(self@, now),
    {
        match &self.state {
            State::Waiting => false,
            State::AwaitingSecondKey { pressed_at, .. } => now >= *pressed_at && now - *pressed_at
                > self.timeout_ms,
        }
    }

    /// Expires the pending chord if its window has passed at `now`; hands
    /// back the keys to unregister when it did.
    pub fn check_timeout(&mut self, now: u64) -> (r: Option<Vec<u32>>)
        ensures
            final(self)@ == ticked(old(self)@, now),
            match r {
                Some(released) => timed_out(old(self)@, now) && released@ == registered(old(self)@),
                None => !timed_out(old(self)@, now),
            },
    {
        if self.is_timed_out(now) {
            Some(self.reset_state())
        } else {
            None
        }
    }

    /// Handles a press of the key with id `id` at `now`.
    pub fn handle(&mut self, id: u32, now: u64) -> (r: Reaction)
        ensures
            final(self)@ == pressed(old(self)@, id, now),
            reaction_fits(old(self)@, id, now, r),
    {
        let (awaiting, secondary) = match &self.state {
            State::Waiting => (false, false),
            State::AwaitingSecondKey { is_secondary, .. } => (true, *is_secondary),
        };
        if id == self.leader {
            let to_secondary = awaiting && !secondary;
            let keys = if to_secondary {
                live_keys_of(&self.secondary_applications, self.leader)
            } else {
                live_keys_of(&self.applications, self.leader)
            };
            let copy = keys.clone();
            assert(copy@ =~= keys@);
            let released = self.reset_state();
            self.state = State::AwaitingSecondKey {
                pressed_at: now,
                registered_keys: keys,
                is_secondary: to_secondary,
            };
            if awaiting {
                Reaction::Swapped { released, keys: copy }
            } else {
                Reaction::Armed { keys: copy }
            }
        } else if awaiting {
            let found = if secondary {
                find_binding(&self.secondary_applications, id)
            } else {
                find_binding(&self.applications, id)
            };
            match found {
                Some(i) => {
                    let path = if secondary {
                        self.secondary_applications[i].path.clone()
                    } else {
                        self.applications[i].path.clone()
                    };
                    let released = self.reset_state();
                    Reaction::Launch { path, released }
                },
                None => Reaction::Ignored,
            }
        } else {
            Reaction::Ignored
        }
    }

    /// Replaces the configuration; any pending chord is abandoned and its
    /// keys handed back for unregistration.
    pub fn reconfigure(
        &mut self,
        leader: u32,
        applications: Vec<Binding>,
        secondary_applications: Vec<Binding>,
        timeout_ms: u64,
    ) -> (released: Vec<u32>)
        ensures
            final(self)@ == reconfigured(
                old(self)@,
                leader,
                bindings_view(applications@),
                bindings_view(secondary_applications@),
                timeout_ms,
            ),
            released@ == registered(old(self)@),
    {
        let released = self.reset_state();
        self.leader = leader;
        self.applications = applications;
        self.secondary_applications = secondary_applications;
        self.timeout_ms = timeout_ms;
        released
    }

    /// When the host loop should wake the machine next.
    pub fn wake(&self) -> (r: Wake)
        ensures
            match r {
                Wake::Indefinitely => deadline(self@) is None,
                Wake::Until(t) => deadline(self@) == Some(t),
            },
    {
        match &self.state {
            State::Waiting => Wake::Indefinitely,
            State::AwaitingSecondKey { pressed_at, .. } => Wake::Until(
                pressed_at.saturating_add(self.timeout_ms),
            ),
        }
    }
}

} // verus!
