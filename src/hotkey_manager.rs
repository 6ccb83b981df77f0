//! The registration controller: owns the OS hotkey handle and the chord
//! state machine, and keeps what the OS watches for in step with the
//! machine's transitions.
use crate::chord::{
    bindings_view, consistent, deadline, launched, leader_never_registered, pressed, reconfigured,
    registered, ticked, timed_out, with_mode, Binding, ChordMachine, ChordView, Mode, Reaction,
    State, Wake,
};
use crate::config::{
    all_known, binds, entry_bindings, has_duplicate_key, key_for, label_id, Config, ConfigError,
};
use crate::facility::{is_key_name, key_id};
use crate::keys::normalized;
use global_hotkey::hotkey::HotKey;
use global_hotkey::GlobalHotKeyManager;
use vstd::prelude::*;

verus! {

/// Why the hotkey manager could not be set up or reconfigured.
#[derive(Debug, PartialEq, Eq)]
pub enum HotKeyError {
    /// The configuration is invalid.
    Config(ConfigError),
    /// No handle on the OS hotkey facility could be had.
    Facility,
    /// The OS refused to register the key with this id.
    Register(u32),
    /// The OS refused to release the key with this id.
    Unregister(u32),
}

/// What handling one key press did.
#[derive(Debug)]
pub struct Outcome {
    /// The application the completed chord asks to launch.
    pub launch: Option<String>,
    /// Ids of keys that the OS refused to register.
    pub failed_register: Vec<u32>,
    /// Ids of keys that the OS refused to release: each stays hooked.
    pub failed_unregister: Vec<u32>,
}

/// A notification from the hotkey facility: the key's id, and whether it
/// went down (a press) or up.
#[derive(Debug)]
pub struct HotKeyEvent {
    pub id: u32,
    pub pressed: bool,
}

/// What one turn of the host loop did.
#[derive(Debug)]
pub struct Tick {
    /// What handling the pressed key did, if a key was pressed.
    pub outcome: Option<Outcome>,
    /// Set when the pending chord expired: the keys the OS refused to release.
    pub expired: Option<Vec<u32>>,
    /// When the host loop should wake next.
    pub wake: Wake,
}

/// The state after the host loop delivered `event` at `now`: presses are
/// handled, releases ignored.
pub open spec fn delivered(v: ChordView, event: Option<HotKeyEvent>, now: u64) -> ChordView {
    match event {
        Some(e) => if e.pressed {
            pressed(v, e.id, now)
        } else {
            v
        },
        None => v,
    }
}

/// Every label of `config` names a key.
pub open spec fn config_valid(config: &Config) -> bool {
    &&& is_key_name(normalized(config.leader_key@))
    &&& all_known(config.applications@)
    &&& all_known(config.secondary_applications@)
}

/// No two labels of one set of `config` name the same key.
pub open spec fn config_unique(config: &Config) -> bool {
    &&& !has_duplicate_key(config.applications@)
    &&& !has_duplicate_key(config.secondary_applications@)
}

/// The machine that `config` describes, waiting for its leader key.
pub open spec fn config_view(config: &Config) -> ChordView {
    ChordView {
        leader: label_id(config.leader_key@),
        primary: entry_bindings(config.applications@),
        secondary: entry_bindings(config.secondary_applications@),
        timeout: config.timeout_ms,
        mode: Mode::Waiting,
    }
}

/// Which configuration error `e` is, given `config`: an unknown label when
/// one names no key, else a label that repeats a key of its set.
pub open spec fn config_error_fits(config: &Config, e: ConfigError) -> bool {
    if !config_valid(config) {
        e is UnknownKey
    } else {
        !config_unique(config) && e is DuplicateKey
    }
}

/// Every id of `sub` occurs in `all`.
pub open spec fn among(sub: Seq<u32>, all: Seq<u32>) -> bool {
    forall|k: int| 0 <= k < sub.len() ==> all.contains(#[trigger] sub[k])
}

/// What a batch of facility calls did to the set of held ids, going from
/// `before` to `after`: each key of `released` that was not registered
/// again is no longer held unless its release is reported failed; each key
/// of `added` is held unless its registration is reported failed; no other
/// key is released or newly held; and only keys of the batch are reported.
pub open spec fn facility_step(
    before: Set<u32>,
    after: Set<u32>,
    released: Seq<u32>,
    added: Seq<u32>,
    failed_release: Seq<u32>,
    failed_add: Seq<u32>,
) -> bool {
    &&& forall|k: u32|
        released.contains(k) && !added.contains(k) && #[trigger] after.contains(k) ==> failed_release.contains(k)
    &&& forall|k: u32| #[trigger] added.contains(k) && !after.contains(k) ==> failed_add.contains(k)
    &&& forall|k: u32| #[trigger] after.contains(k) ==> before.contains(k) || added.contains(k)
    &&& forall|k: u32| #[trigger] before.contains(k) && !released.contains(k) ==> after.contains(k)
    &&& among(failed_release, released)
    &&& among(failed_add, added)
}

/// The facility holds exactly the leader key and the keys registered for
/// the pending chord.
pub open spec fn in_step(v: ChordView, held: Set<u32>) -> bool {
    held == set![v.leader] + registered(v).to_set()
}

/// The keys that pressing `id` releases.
pub open spec fn released_by(v: ChordView, id: u32) -> Seq<u32> {
    match v.mode {
        Mode::Waiting => Seq::empty(),
        Mode::Awaiting { .. } => if id == v.leader || launched(v, id) is Some {
            registered(v)
        } else {
            Seq::empty()
        },
    }
}

/// The keys that pressing `id` at `now` registers.
pub open spec fn added_by(v: ChordView, id: u32, now: u64) -> Seq<u32> {
    if id == v.leader {
        registered(pressed(v, id, now))
    } else {
        Seq::empty()
    }
}

/// A release batch followed by a registration batch is one batch.
proof fn lemma_release_then_add(
    b0: Set<u32>,
    b1: Set<u32>,
    b2: Set<u32>,
    released: Seq<u32>,
    added: Seq<u32>,
    failed_release: Seq<u32>,
    failed_add: Seq<u32>,
)
    requires
        facility_step(b0, b1, released, Seq::empty(), failed_release, Seq::empty()),
        facility_step(b1, b2, Seq::empty(), added, Seq::empty(), failed_add),
    ensures
        facility_step(b0, b2, released, added, failed_release, failed_add),
{
    assert forall|k: u32| released.contains(k) && !added.contains(k) && #[trigger] b2.contains(k) implies failed_release.contains(k) by {
        assert(b1.contains(k));
        assert(!Seq::<u32>::empty().contains(k));
    }
    assert forall|k: u32| #[trigger] b2.contains(k) implies b0.contains(k) || added.contains(k) by {
        if !added.contains(k) {
            assert(b1.contains(k));
            assert(!Seq::<u32>::empty().contains(k));
        }
    }
    assert forall|k: u32| #[trigger] b0.contains(k) && !released.contains(k) implies b2.contains(k) by {
        assert(b1.contains(k));
        assert(!Seq::<u32>::empty().contains(k));
    }
}

/// Two release batches are one batch.
proof fn lemma_release_twice(
    b0: Set<u32>,
    b1: Set<u32>,
    b2: Set<u32>,
    first: Seq<u32>,
    second: Seq<u32>,
    failed: Seq<u32>,
)
    requires
        facility_step(b0, b1, first, Seq::empty(), Seq::empty(), Seq::empty()),
        facility_step(b1, b2, second, Seq::empty(), failed, Seq::empty()),
    ensures
        facility_step(b0, b2, first + second, Seq::empty(), failed, Seq::empty()),
{
    let all = first + second;
    assert forall|k: u32| all.contains(k) && !Seq::<u32>::empty().contains(k) && #[trigger] b2.contains(k) implies failed.contains(k) by {
        assert(b1.contains(k));
        if !second.contains(k) {
            let m = choose|m: int| 0 <= m < all.len() && all[m] == k;
            if m >= first.len() {
                assert(second[m - first.len()] == k);
            }
            assert(first.contains(k));
            assert(!Seq::<u32>::empty().contains(k));
        }
    }
    assert forall|k: u32| #[trigger] b0.contains(k) && !all.contains(k) implies b2.contains(k) by {
        if first.contains(k) {
            let m = choose|m: int| 0 <= m < first.len() && first[m] == k;
            assert(all[m] == k);
        }
        if second.contains(k) {
            let m = choose|m: int| 0 <= m < second.len() && second[m] == k;
            assert(all[first.len() + m] == k);
        }
    }
    assert forall|k: int| 0 <= k < failed.len() implies all.contains(#[trigger] failed[k]) by {
        let m = choose|m: int| 0 <= m < second.len() && second[m] == failed[k];
        assert(all[first.len() + m] == failed[k]);
    }
    assert forall|k: u32| #[trigger] b2.contains(k) implies b0.contains(k) || Seq::<u32>::empty().contains(k) by {
        assert(b1.contains(k));
    }
}

/// A batch without failures that releases `released` from what it held
/// besides `keep`, and adds `added`, leaves exactly `keep` and `added`.
proof fn lemma_clean_step(before: Set<u32>, after: Set<u32>, keep: Set<u32>, released: Seq<u32>, added: Seq<u32>)
    requires
        facility_step(before, after, released, added, Seq::empty(), Seq::empty()),
        before == keep + released.to_set(),
        forall|k: u32| keep.contains(k) ==> !released.contains(k),
    ensures
        after == keep + added.to_set(),
{
    assert forall|k: u32| #[trigger] after.contains(k) == (keep + added.to_set()).contains(k) by {
        if after.contains(k) && !added.contains(k) {
            assert(!Seq::<u32>::empty().contains(k));
            assert(before.contains(k));
            assert(!released.contains(k));
        }
        if added.contains(k) {
            assert(!Seq::<u32>::empty().contains(k));
        }
        if keep.contains(k) {
            assert(before.contains(k));
        }
    }
    assert(after =~= keep + added.to_set());
}

/// The leader key, the hotkeys of both sets and the state machine, with the
/// OS handle through which they are registered, and the record of the ids
/// that the facility accepted from this manager and has not released since.
pub struct HotKeyManager {
    manager: GlobalHotKeyManager,
    leader_key: HotKey,
    applications: Vec<HotKey>,
    secondary_applications: Vec<HotKey>,
    chord: ChordMachine,
    held: Ghost<Set<u32>>,
}

impl View for HotKeyManager {
    type V = ChordView;

    closed spec fn view(&self) -> ChordView {
        self.chord@
    }
}

/// The derived form of a configuration: leader, then both sets.
type Derived = ((HotKey, u32), (Vec<HotKey>, Vec<Binding>), (Vec<HotKey>, Vec<Binding>));

/// Derives hotkeys and bindings from `config`, leader first.
fn derive(config: &Config) -> (r: Result<Derived, ConfigError>)
    ensures
        match r {
            Ok(((_, leader), (pk, pb), (sk, sb))) => {
                &&& config_valid(config)
                &&& config_unique(config)
                &&& leader == label_id(config.leader_key@)
                &&& pk@.len() == pb@.len()
                &&& sk@.len() == sb@.len()
                &&& bindings_view(pb@) == entry_bindings(config.applications@)
                &&& bindings_view(sb@) == entry_bindings(config.secondary_applications@)
            },
            Err(e) => config_error_fits(config, e),
        },
{
    let leader = match key_for(config.leader_key.as_str()) {
        Ok(k) => k,
        Err(e) => return Err(e),
    };
    let primary = config.applications();
    let secondary = config.secondary_applications();
    // Unknown labels are reported before repeated ones, whichever set holds them.
    match (primary, secondary) {
        (Ok(p), Ok(s)) => {
            assert(bindings_view(p.1@).len() == p.1@.len());
            assert(bindings_view(s.1@).len() == s.1@.len());
            assert(entry_bindings(config.applications@).len() == config.applications@.len());
            assert(entry_bindings(config.secondary_applications@).len() == config.secondary_applications@.len());
            Ok((leader, p, s))
        },
        (Err(ConfigError::UnknownKey(l)), _) => Err(ConfigError::UnknownKey(l)),
        (_, Err(ConfigError::UnknownKey(l))) => Err(ConfigError::UnknownKey(l)),
        (Err(e), _) => Err(e),
        (_, Err(e)) => Err(e),
    }
}

impl HotKeyManager {
    /// The hotkeys line up with the machine's bindings, index for index, and
    /// the machine is consistent.
    pub closed spec fn wf(&self) -> bool {
        &&& self.applications@.len() == self.chord.applications@.len()
        &&& self.secondary_applications@.len() == self.chord.secondary_applications@.len()
        &&& consistent(self.chord@)
    }

    /// The ids of the keys that the facility accepted from this manager and
    /// has not released since.
    pub closed spec fn held(&self) -> Set<u32> {
        self.held@
    }

    /// Sets up the facility, registers the leader key of `config` and waits
    /// for it. Fails, before touching the facility, when a label names no
    /// key or two labels of a set name the same key.
    pub fn from_config(config: &Config) -> (r: Result<HotKeyManager, HotKeyError>)
        ensures
            match r {
                Ok(m) => {
                    &&& config_valid(config) && config_unique(config)
                    &&& m.wf()
                    &&& m@ == config_view(config)
                    &&& m.held() == set![m@.leader]
                    &&& in_step(m@, m.held())
                },
                Err(HotKeyError::Config(e)) => config_error_fits(config, e),
                Err(HotKeyError::Facility) => config_valid(config) && config_unique(config),
                Err(HotKeyError::Register(id)) => config_valid(config) && config_unique(config) && id
                    == label_id(config.leader_key@),
                Err(HotKeyError::Unregister(_)) => false,
            },
    {
        let ((leader_key, leader), (primary_keys, primary), (secondary_keys, secondary)) = match derive(
            config,
        ) {
            Ok(d) => d,
            Err(e) => return Err(HotKeyError::Config(e)),
        };
        let manager = match GlobalHotKeyManager::new() {
            Ok(m) => m,
            Err(_) => return Err(HotKeyError::Facility),
        };
        if manager.register(leader_key).is_err() {
            return Err(HotKeyError::Register(leader));
        }
        let ghost pv = bindings_view(primary@);
        let ghost sv = bindings_view(secondary@);
        assert(pv.len() == primary@.len() && sv.len() == secondary@.len());
        let chord = ChordMachine::new(leader, primary, secondary, config.timeout_ms);
        assert(registered(chord@).to_set() =~= Set::empty());
        assert(set![leader] + Set::empty() =~= set![leader]);
        let ghost initial = set![leader];
        Ok(HotKeyManager {
            manager,
            leader_key,
            applications: primary_keys,
            secondary_applications: secondary_keys,
            chord,
            held: Ghost(initial),
        })
    }

    /// The hotkey with id `id` in the primary set, else in the secondary one.
    fn hotkey_with_id(&self, id: u32) -> Option<HotKey>
        requires
            self.wf(),
    {
        let mut i: usize = 0;
        while i < self.chord.applications.len()
            invariant
                self.wf(),
            decreases self.chord.applications@.len() - i,
        {
            if self.chord.applications[i].id == id {
                return Some(self.applications[i]);
            }
            i = i + 1;
        }
        let mut j: usize = 0;
        while j < self.chord.secondary_applications.len()
            invariant
                self.wf(),
            decreases self.chord.secondary_applications@.len() - j,
        {
            if self.chord.secondary_applications[j].id == id {
                return Some(self.secondary_applications[j]);
            }
            j = j + 1;
        }
        None
    }

    /// Registers the hotkey of each key of `keys`; hands back those the OS
    /// refused.
    fn register_keys(&mut self, keys: &Vec<u32>) -> (failed: Vec<u32>)
        requires
            old(self).wf(),
        ensures
            final(self).wf(),
            final(self).chord == old(self).chord,
            facility_step(old(self).held(), final(self).held(), Seq::empty(), keys@, Seq::empty(), failed@),
    {
        let mut failed: Vec<u32> = Vec::new();
        let mut i: usize = 0;
        while i < keys.len()
            invariant
                self.wf(),
                self.chord == old(self).chord,
                i <= keys@.len(),
                forall|m: int| 0 <= m < i && !self.held@.contains(keys@[m]) ==> failed@.contains(#[trigger] keys@[m]),
                forall|k: u32| #[trigger] self.held@.contains(k) ==> old(self).held@.contains(k) || exists|m: int|
                    0 <= m < i && keys@[m] == k,
                forall|k: u32| #[trigger] old(self).held@.contains(k) ==> self.held@.contains(k),
                forall|f: int| 0 <= f < failed@.len() ==> exists|m: int| 0 <= m < i && keys@[m] == #[trigger] failed@[f],
            decreases keys@.len() - i,
        {
            let id = keys[i];
            let ok = match self.hotkey_with_id(id) {
                Some(hotkey) => self.manager.register(hotkey).is_ok(),
                None => false,
            };
            let ghost before_failed = failed@;
            if ok {
                self.held = Ghost(self.held@.insert(id));
            } else {
                failed.push(id);
                assert(failed@[failed@.len() - 1] == id);
                assert forall|x: u32| before_failed.contains(x) implies failed@.contains(x) by {
                    let w = choose|w: int| 0 <= w < before_failed.len() && before_failed[w] == x;
                    assert(failed@[w] == x);
                }
            }
            assert(failed@.contains(id) || self.held@.contains(id));
            i = i + 1;
        }
        assert forall|k: u32| #[trigger] keys@.contains(k) && !self.held@.contains(k) implies failed@.contains(k) by {
            let m = choose|m: int| 0 <= m < keys@.len() && keys@[m] == k;
        }
        failed
    }

    /// Releases the hotkey of each key of `keys`, going on past refusals;
    /// hands back those the OS refused to release.
    fn unregister_keys(&mut self, keys: &Vec<u32>) -> (failed: Vec<u32>)
        requires
            old(self).wf(),
        ensures
            final(self).wf(),
            final(self).chord == old(self).chord,
            facility_step(old(self).held(), final(self).held(), keys@, Seq::empty(), failed@, Seq::empty()),
    {
        let mut failed: Vec<u32> = Vec::new();
        let mut i: usize = 0;
        while i < keys.len()
            invariant
                self.wf(),
                self.chord == old(self).chord,
                i <= keys@.len(),
                forall|m: int| 0 <= m < i && self.held@.contains(keys@[m]) ==> failed@.contains(#[trigger] keys@[m]),
                forall|k: u32| #[trigger] self.held@.contains(k) ==> old(self).held@.contains(k),
                forall|k: u32| #[trigger] old(self).held@.contains(k) && !(exists|m: int| 0 <= m < i && keys@[m] == k) ==> self.held@.contains(k),
                forall|f: int| 0 <= f < failed@.len() ==> exists|m: int| 0 <= m < i && keys@[m] == #[trigger] failed@[f],
            decreases keys@.len() - i,
        {
            let id = keys[i];
            let ok = match self.hotkey_with_id(id) {
                Some(hotkey) => self.manager.unregister(hotkey).is_ok(),
                None => false,
            };
            let ghost before_failed = failed@;
            if ok {
                self.held = Ghost(self.held@.remove(id));
            } else {
                failed.push(id);
                assert(failed@[failed@.len() - 1] == id);
                assert forall|x: u32| before_failed.contains(x) implies failed@.contains(x) by {
                    let w = choose|w: int| 0 <= w < before_failed.len() && before_failed[w] == x;
                    assert(failed@[w] == x);
                }
            }
            assert(failed@.contains(id) || !self.held@.contains(id));
            i = i + 1;
        }
        assert forall|k: u32| keys@.contains(k) && !Seq::<u32>::empty().contains(k) && #[trigger] self.held@.contains(k) implies failed@.contains(k) by {
            let m = choose|m: int| 0 <= m < keys@.len() && keys@[m] == k;
        }
        assert forall|k: u32| #[trigger] old(self).held@.contains(k) && !keys@.contains(k) implies self.held@.contains(k) by {
            if exists|m: int| 0 <= m < keys@.len() && keys@[m] == k {
                let m = choose|m: int| 0 <= m < keys@.len() && keys@[m] == k;
                assert(keys@.contains(k));
            }
        }
        failed
    }

    /// Handles a press of the key with id `id` at `now` (milliseconds on the
    /// caller's monotonic clock): arms the machine on the leader, toggles the
    /// live set on the leader while armed, and completes the chord on a
    /// bound key, releasing the keys of the old live set and registering
    /// those of the new one. Refusals by the OS are reported and do not stop
    /// the remaining keys; without refusals the facility then holds exactly
    /// the leader key and the chord's registered keys.
    pub fn handle(&mut self, id: u32, now: u64) -> (r: Outcome)
        requires
            old(self).wf(),
        ensures
            final(self).wf(),
            final(self)@ == pressed(old(self)@, id, now),
            match r.launch {
                Some(path) => launched(old(self)@, id) == Some(path@),
                None => launched(old(self)@, id) is None,
            },
            facility_step(
                old(self).held(),
                final(self).held(),
                released_by(old(self)@, id),
                added_by(old(self)@, id, now),
                r.failed_unregister@,
                r.failed_register@,
            ),
            in_step(old(self)@, old(self).held()) && r.failed_register@.len() == 0
                && r.failed_unregister@.len() == 0 ==> in_step(final(self)@, final(self).held()),
    {
        let ghost v = self.chord@;
        let ghost h0 = self.held@;
        proof {
            leader_never_registered(v);
        }
        let reaction = self.chord.handle(id, now);
        proof {
            leader_never_registered(self.chord@);
            assert(bindings_view(self.chord.applications@).len() == self.chord.applications@.len());
            assert(bindings_view(self.chord.secondary_applications@).len() == self.chord.secondary_applications@.len());
            assert(bindings_view(old(self).chord.applications@).len() == old(self).chord.applications@.len());
            assert(bindings_view(old(self).chord.secondary_applications@).len() == old(self).chord.secondary_applications@.len());
        }
        let out = match reaction {
            Reaction::Ignored => {
                assert(released_by(v, id) =~= Seq::<u32>::empty());
                assert(added_by(v, id, now) =~= Seq::<u32>::empty());
                Outcome { launch: None, failed_register: Vec::new(), failed_unregister: Vec::new() }
            },
            Reaction::Armed { keys } => {
                let failed_register = self.register_keys(&keys);
                assert(released_by(v, id) =~= Seq::<u32>::empty());
                Outcome { launch: None, failed_register, failed_unregister: Vec::new() }
            },
            Reaction::Swapped { released, keys } => {
                let ghost h1_pre = self.held@;
                let failed_unregister = self.unregister_keys(&released);
                let ghost h1 = self.held@;
                let failed_register = self.register_keys(&keys);
                proof {
                    lemma_release_then_add(h1_pre, h1, self.held@, released@, keys@, failed_unregister@, failed_register@);
                }
                Outcome { launch: None, failed_register, failed_unregister }
            },
            Reaction::Launch { path, released } => {
                let failed_unregister = self.unregister_keys(&released);
                assert(added_by(v, id, now) =~= Seq::<u32>::empty());
                Outcome { launch: Some(path), failed_register: Vec::new(), failed_unregister }
            },
        };
        proof {
            if in_step(v, h0) && out.failed_register@.len() == 0 && out.failed_unregister@.len() == 0 {
                assert(out.failed_register@ =~= Seq::<u32>::empty());
                assert(out.failed_unregister@ =~= Seq::<u32>::empty());
                let rel = released_by(v, id);
                let add = added_by(v, id, now);
                if rel.len() == 0 && add.len() == 0 {
                    assert(rel =~= Seq::<u32>::empty());
                    assert(add =~= Seq::<u32>::empty());
                    assert(rel.to_set() =~= Set::<u32>::empty());
                    assert(h0 + rel.to_set() =~= h0);
                    lemma_clean_step(h0, self.held@, h0, rel, add);
                    assert(h0 + Set::<u32>::empty() =~= h0);
                    assert(add.to_set() =~= Set::<u32>::empty());
                    assert(registered(self.chord@) == registered(v) || v.mode is Waiting);
                } else {
                    assert(rel == registered(v));
                    assert(add == registered(self.chord@));
                    lemma_clean_step(h0, self.held@, set![v.leader], rel, add);
                }
            }
        }
        out
    }

    /// Abandons the pending chord, if any, releasing its keys; hands back
    /// those the OS refused to release.
    pub fn reset_state(&mut self) -> (failed_unregister: Vec<u32>)
        requires
            old(self).wf(),
        ensures
            final(self).wf(),
            final(self)@ == with_mode(old(self)@, Mode::Waiting),
            facility_step(
                old(self).held(),
                final(self).held(),
                registered(old(self)@),
                Seq::empty(),
                failed_unregister@,
                Seq::empty(),
            ),
            in_step(old(self)@, old(self).held()) && failed_unregister@.len() == 0 ==> in_step(
                final(self)@,
                final(self).held(),
            ),
    {
        let ghost v = self.chord@;
        let ghost h0 = self.held@;
        let ghost before = self.chord.applications@;
        let ghost before_secondary = self.chord.secondary_applications@;
        proof {
            leader_never_registered(v);
        }
        let released = self.chord.reset_state();
        assert(bindings_view(before).len() == before.len());
        assert(bindings_view(before_secondary).len() == before_secondary.len());
        assert(bindings_view(self.chord.applications@).len() == self.chord.applications@.len());
        assert(bindings_view(self.chord.secondary_applications@).len() == self.chord.secondary_applications@.len());
        let failed = self.unregister_keys(&released);
        proof {
            if in_step(v, h0) && failed@.len() == 0 {
                assert(failed@ =~= Seq::<u32>::empty());
                lemma_clean_step(h0, self.held@, set![v.leader], registered(v), Seq::empty());
                assert(registered(self.chord@).to_set() =~= Seq::<u32>::empty().to_set());
            }
        }
        failed
    }

    /// Whether the pending chord has expired at `now`.
    pub fn is_timed_out(&self, now: u64) -> (r: bool)
        ensures
            r == timed_out(self@, now),
    {
        self.chord.is_timed_out(now)
    }

    /// Expires the pending chord if its window has passed at `now`, releasing
    /// its keys; then hands back the keys the OS refused to release. Checking
    /// again after an expiry does nothing.
    pub fn check_timeout(&mut self, now: u64) -> (r: Option<Vec<u32>>)
        requires
            old(self).wf(),
        ensures
            final(self).wf(),
            final(self)@ == ticked(old(self)@, now),
            r is Some <==> timed_out(old(self)@, now),
            match r {
                Some(failed) => {
                    &&& facility_step(
                        old(self).held(),
                        final(self).held(),
                        registered(old(self)@),
                        Seq::empty(),
                        failed@,
                        Seq::empty(),
                    )
                    &&& in_step(old(self)@, old(self).held()) && failed@.len() == 0 ==> in_step(
                        final(self)@,
                        final(self).held(),
                    )
                },
                None => final(self).held() == old(self).held(),
            },
    {
        if self.is_timed_out(now) {
            Some(self.reset_state())
        } else {
            None
        }
    }

    /// Applies a new configuration to the running machine: releases the old
    /// leader key, abandons any pending chord and releases its keys,
    /// registers the new leader key, and takes the new bindings and timeout.
    /// An invalid configuration, or an old leader key that the OS will not
    /// release, leaves the manager as it was. A new leader key that the OS
    /// refuses leaves it waiting without a leader, with its old bindings. On
    /// success, hands back the chord keys the OS refused to release.
    pub fn update_config(&mut self, config: &Config) -> (r: Result<Vec<u32>, HotKeyError>)
        requires
            old(self).wf(),
        ensures
            final(self).wf(),
            match r {
                Ok(failed) => {
                    &&& config_valid(config) && config_unique(config)
                    &&& final(self)@ == reconfigured(
                        old(self)@,
                        label_id(config.leader_key@),
                        entry_bindings(config.applications@),
                        entry_bindings(config.secondary_applications@),
                        config.timeout_ms,
                    )
                    &&& final(self)@ == config_view(config)
                    &&& facility_step(
                        old(self).held(),
                        final(self).held(),
                        seq![old(self)@.leader] + registered(old(self)@),
                        seq![final(self)@.leader],
                        failed@,
                        Seq::empty(),
                    )
                    &&& in_step(old(self)@, old(self).held()) && failed@.len() == 0 ==> final(self).held()
                        == set![final(self)@.leader]
                },
                Err(HotKeyError::Config(e)) => {
                    &&& config_error_fits(config, e)
                    &&& final(self)@ == old(self)@
                    &&& final(self).held() == old(self).held()
                },
                Err(HotKeyError::Unregister(id)) => {
                    &&& config_valid(config) && config_unique(config)
                    &&& id == old(self)@.leader
                    &&& final(self)@ == old(self)@
                    &&& final(self).held() == old(self).held()
                },
                Err(HotKeyError::Register(id)) => {
                    &&& config_valid(config) && config_unique(config)
                    &&& id == label_id(config.leader_key@)
                    &&& final(self)@ == with_mode(old(self)@, Mode::Waiting)
                    &&& forall|k: u32| #[trigger] final(self).held().contains(k) ==> old(self).held().contains(k)
                        && k != old(self)@.leader
                },
                Err(HotKeyError::Facility) => false,
            },
    {
        let ghost v = self.chord@;
        let ghost h0 = self.held@;
        let ((leader_key, leader), (primary_keys, primary), (secondary_keys, secondary)) = match derive(
            config,
        ) {
            Ok(d) => d,
            Err(e) => return Err(HotKeyError::Config(e)),
        };
        if self.manager.unregister(self.leader_key).is_err() {
            return Err(HotKeyError::Unregister(self.chord.leader));
        }
        self.held = Ghost(self.held@.remove(v.leader));
        let ghost h1 = self.held@;
        proof {
            leader_never_registered(v);
            assert forall|k: u32| seq![v.leader].contains(k) && !Seq::<u32>::empty().contains(k) && #[trigger] h1.contains(k) implies Seq::<u32>::empty().contains(k) by {
                assert(seq![v.leader][0] == v.leader);
            }
            assert forall|k: u32| #[trigger] h0.contains(k) && !seq![v.leader].contains(k) implies h1.contains(k) by {
                if k == v.leader {
                    assert(seq![v.leader][0] == v.leader);
                }
            }
            assert(facility_step(h0, h1, seq![v.leader], Seq::empty(), Seq::empty(), Seq::empty()));
        }
        let failed = self.reset_state();
        let ghost h2 = self.held@;
        if self.manager.register(leader_key).is_err() {
            return Err(HotKeyError::Register(leader));
        }
        self.held = Ghost(self.held@.insert(leader));
        self.leader_key = leader_key;
        let ghost pv = bindings_view(primary@);
        let ghost sv = bindings_view(secondary@);
        assert(pv.len() == primary@.len() && sv.len() == secondary@.len());
        let released = self.chord.reconfigure(leader, primary, secondary, config.timeout_ms);
        assert(released@.len() == 0);
        self.applications = primary_keys;
        self.secondary_applications = secondary_keys;
        proof {
            assert(registered(self.chord@) =~= Seq::<u32>::empty());
            lemma_release_twice(h0, h1, h2, seq![v.leader], registered(v), failed@);
            assert forall|k: u32| #[trigger] seq![leader].contains(k) && !self.held@.contains(k) implies Seq::<u32>::empty().contains(k) by {
                assert(seq![leader][0] == leader);
            }
            assert forall|k: u32| #[trigger] self.held@.contains(k) implies h2.contains(k) || seq![leader].contains(k) by {
                assert(seq![leader][0] == leader);
            }
            lemma_release_then_add(h0, h2, self.held@, seq![v.leader] + registered(v), seq![leader], failed@, Seq::empty());
            if in_step(v, h0) && failed@.len() == 0 {
                assert(failed@ =~= Seq::<u32>::empty());
                let rel = seq![v.leader] + registered(v);
                assert(h0 =~= Set::empty() + rel.to_set()) by {
                    assert forall|k: u32| #[trigger] h0.contains(k) == rel.to_set().contains(k) by {
                        if registered(v).contains(k) {
                            let m = choose|m: int| 0 <= m < registered(v).len() && registered(v)[m] == k;
                            assert(rel[1 + m] == k);
                        }
                        if k == v.leader {
                            assert(rel[0] == k);
                        }
                        if rel.contains(k) {
                            let m = choose|m: int| 0 <= m < rel.len() && rel[m] == k;
                            if m > 0 {
                                assert(registered(v)[m - 1] == k);
                            }
                        }
                    }
                }
                lemma_clean_step(h0, self.held@, Set::empty(), rel, seq![leader]);
                assert forall|k: u32| seq![leader].to_set().contains(k) == set![leader].contains(k) by {
                    if k == leader {
                        assert(seq![leader][0] == leader);
                    }
                }
                assert(seq![leader].to_set() =~= set![leader]);
                assert(Set::<u32>::empty() + set![leader] =~= set![leader]);
            }
        }
        Ok(failed)
    }

    /// One turn of the host loop at `now`: handles the delivered event if it
    /// is a press, then expires the pending chord if its window has passed,
    /// and says when to wake next.
    pub fn new_events(&mut self, event: Option<HotKeyEvent>, now: u64) -> (r: Tick)
        requires
            old(self).wf(),
        ensures
            final(self).wf(),
            final(self)@ == ticked(delivered(old(self)@, event, now), now),
            r.outcome is Some <==> (event matches Some(e) && e.pressed),
            match (r.outcome, event) {
                (Some(o), Some(e)) => match o.launch {
                    Some(path) => launched(old(self)@, e.id) == Some(path@),
                    None => launched(old(self)@, e.id) is None,
                },
                _ => true,
            },
            r.expired is Some <==> timed_out(delivered(old(self)@, event, now), now),
            match r.wake {
                Wake::Indefinitely => deadline(final(self)@) is None,
                Wake::Until(t) => deadline(final(self)@) == Some(t),
            },
            in_step(old(self)@, old(self).held()) && (r.outcome matches Some(o) ==> o.failed_register@.len() == 0
                && o.failed_unregister@.len() == 0) && (r.expired matches Some(f) ==> f@.len() == 0) ==> in_step(
                final(self)@,
                final(self).held(),
            ),
    {
        let outcome = match event {
            Some(e) => if e.pressed {
                Some(self.handle(e.id, now))
            } else {
                None
            },
            None => None,
        };
        let expired = self.check_timeout(now);
        let wake = self.wake();
        Tick { outcome, expired, wake }
    }

    /// When the host loop should wake the manager next.
    pub fn wake(&self) -> (r: Wake)
        ensures
            match r {
                Wake::Indefinitely => deadline(self@) is None,
                Wake::Until(t) => deadline(self@) == Some(t),
            },
    {
        self.chord.wake()
    }

    /// The current mode.
    pub fn state(&self) -> (r: &State)
        ensures
            r@ == self@.mode,
    {
        &self.chord.state
    }

    /// The chord window in milliseconds.
    pub fn timeout_ms(&self) -> (r: u64)
        ensures
            r == self@.timeout,
    {
        self.chord.timeout_ms
    }
}

} // verus!
