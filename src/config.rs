//! The configuration snapshot and the hotkeys and bindings derived from it.
use crate::chord::{bindings_view, Binding};
use crate::facility::{hotkey_named, is_key_name, key_id};
use crate::keys::{normalize, normalized};
use global_hotkey::hotkey::HotKey;
use vstd::prelude::*;

verus! {

/// A configuration as loaded from disk: the leader key's label, the two
/// sets of (label, application path) entries ordered by label, the chord
/// timeout, the optional usage database and the file it came from. In a
/// well-formed configuration (`wf`) the labels of each set are unique and
/// ascending, as a map keyed by label yields them.
#[derive(Debug)]
pub struct Config {
    pub leader_key: String,
    pub applications: Vec<(String, String)>,
    pub secondary_applications: Vec<(String, String)>,
    pub timeout_ms: u64,
    pub db: Option<String>,
    pub path: String,
}

/// `a` sorts strictly before `b`, character by character, a proper prefix
/// first.
pub open spec fn label_before(a: Seq<char>, b: Seq<char>) -> bool
    decreases a.len(),
{
    if b.len() == 0 {
        false
    } else if a.len() == 0 {
        true
    } else if a[0] != b[0] {
        a[0] < b[0]
    } else {
        label_before(a.drop_first(), b.drop_first())
    }
}

/// The labels of `entries` ascend strictly, so no label repeats.
pub open spec fn labels_ascending(entries: Seq<(String, String)>) -> bool {
    forall|i: int| 0 <= i < entries.len() - 1 ==> label_before(#[trigger] entries[i].0@, entries[i + 1].0@)
}

impl Config {
    /// The labels of each set are unique and in ascending order.
    pub open spec fn wf(&self) -> bool {
        &&& labels_ascending(self.applications@)
        &&& labels_ascending(self.secondary_applications@)
    }
}

/// Why a configuration cannot be applied.
#[derive(Debug, PartialEq, Eq)]
pub enum ConfigError {
    /// The label does not name a key of the hotkey facility.
    UnknownKey(String),
    /// The label names the same key as an earlier label of its set.
    DuplicateKey(String),
}

/// Every label of `entries` names a key.
pub open spec fn all_known(entries: Seq<(String, String)>) -> bool {
    forall|i: int| 0 <= i < entries.len() ==> is_key_name(#[trigger] normalized(entries[i].0@))
}

/// No two of the first `n` bindings share an id.
pub open spec fn distinct_prefix(s: Seq<(u32, Seq<char>)>, n: int) -> bool {
    forall|i: int, j: int| 0 <= i < j < n ==> #[trigger] s[i].0 != #[trigger] s[j].0
}

/// No two bindings share an id.
pub open spec fn distinct_ids(s: Seq<(u32, Seq<char>)>) -> bool {
    distinct_prefix(s, s.len() as int)
}

/// The id of the key that a configuration label names (0 when it names
/// none).
pub open spec fn label_id(label: Seq<char>) -> u32 {
    match key_id(normalized(label)) {
        Some(id) => id,
        None => 0,
    }
}

/// The (id, path) bindings that a set of entries stands for, in order.
pub open spec fn entry_bindings(entries: Seq<(String, String)>) -> Seq<(u32, Seq<char>)> {
    entries.map_values(|e: (String, String)| (label_id(e.0@), e.1@))
}

/// Two labels of `entries` name the same key.
pub open spec fn has_duplicate_key(entries: Seq<(String, String)>) -> bool {
    exists|i: int, j: int|
        0 <= i < j < entries.len() && #[trigger] label_id(entries[i].0@) == #[trigger] label_id(entries[j].0@)
}

/// The hotkey for a configuration label, with its id.
pub fn key_for(label: &str) -> (r: Result<(HotKey, u32), ConfigError>)
    ensures
        match r {
            Ok((_, id)) => key_id(normalized(label@)) == Some(id),
            Err(e) => !is_key_name(normalized(label@)) && e is UnknownKey && e->UnknownKey_0@ == label@,
        },
{
    let name = normalize(label);
    match hotkey_named(name.as_str()) {
        Some(key) => Ok(key),
        None => Err(ConfigError::UnknownKey(String::from_str(label))),
    }
}

/// The index of the first binding whose id an earlier binding already has.
pub fn first_duplicate(bindings: &Vec<Binding>) -> (r: Option<usize>)
    ensures
        match r {
            None => distinct_ids(bindings_view(bindings@)),
            Some(j) => j < bindings@.len() && distinct_prefix(bindings_view(bindings@), j as int)
                && exists|i: int| 0 <= i < j && bindings@[i].id == bindings@[j as int].id,
        },
{
    let ghost all = bindings_view(bindings@);
    let mut j: usize = 0;
    while j < bindings.len()
        invariant
            j <= bindings@.len(),
            all == bindings_view(bindings@),
            distinct_prefix(all, j as int),
        decreases bindings@.len() - j,
    {
        let mut i: usize = 0;
        while i < j
            invariant
                i <= j < bindings@.len(),
                all == bindings_view(bindings@),
                distinct_prefix(all, j as int),
                forall|k: int| 0 <= k < i ==> bindings@[k].id != bindings@[j as int].id,
            decreases j - i,
        {
            if bindings[i].id == bindings[j].id {
                assert(bindings@[i as int].id == bindings@[j as int].id);
                return Some(j);
            }
            i = i + 1;
        }
        assert forall|a: int, b: int| 0 <= a < b < j + 1 implies #[trigger] all[a].0 != #[trigger] all[b].0 by {
            if b == j {
                assert(all[a].0 == bindings@[a].id);
                assert(all[b].0 == bindings@[b].id);
            }
        }
        j = j + 1;
    }
    None
}

/// What deriving hotkeys and bindings from `entries` gives: one hotkey and
/// one binding per entry, in order, each binding the id of the key its label
/// names and the entry's path, when every label names a key and no two name
/// the same one; otherwise the first label that names no key, or failing that
/// a label that names the same key as an earlier one.
pub open spec fn binds(entries: Seq<(String, String)>, r: Result<(Vec<HotKey>, Vec<Binding>), ConfigError>) -> bool {
    &&& (r matches Err(ConfigError::UnknownKey(_))) <==> !all_known(entries)
    &&& (r matches Err(ConfigError::DuplicateKey(_))) <==> all_known(entries) && has_duplicate_key(entries)
    &&& match r {
        Ok((hotkeys, bindings)) => {
            &&& hotkeys@.len() == entries.len()
            &&& bindings_view(bindings@) == entry_bindings(entries)
        },
        Err(ConfigError::UnknownKey(label)) => exists|i: int|
            0 <= i < entries.len() && entries[i].0@ == label@ && !is_key_name(normalized(entries[i].0@)),
        Err(ConfigError::DuplicateKey(label)) => exists|i: int, j: int|
            0 <= i < j < entries.len() && entries[j].0@ == label@ && label_id(entries[i].0@) == label_id(
                entries[j].0@,
            ),
    }
}

/// Derives the hotkeys and bindings of a set of entries, index for index.
pub fn bind_all(entries: &Vec<(String, String)>) -> (r: Result<(Vec<HotKey>, Vec<Binding>), ConfigError>)
    ensures
        binds(entries@, r),
{
    let mut hotkeys: Vec<HotKey> = Vec::new();
    let mut bindings: Vec<Binding> = Vec::new();
    let mut i: usize = 0;
    while i < entries.len()
        invariant
            i <= entries@.len(),
            hotkeys@.len() == i,
            bindings@.len() == i,
            forall|k: int| 0 <= k < i ==> #[trigger] bindings@[k]@ == (label_id(entries@[k].0@), entries@[k].1@),
            forall|k: int| 0 <= k < i ==> is_key_name(#[trigger] normalized(entries@[k].0@)),
        decreases entries@.len() - i,
    {
        let (label, path) = (&entries[i].0, &entries[i].1);
        match key_for(label.as_str()) {
            Ok((hotkey, id)) => {
                hotkeys.push(hotkey);
                bindings.push(Binding::new(id, path.clone()));
            },
            Err(_) => {
                return Err(ConfigError::UnknownKey(label.clone()));
            },
        }
        i = i + 1;
    }
    assert(bindings_view(bindings@) =~= entry_bindings(entries@));
    match first_duplicate(&bindings) {
        Some(j) => {
            let ghost k = choose|k: int| 0 <= k < j && bindings@[k].id == bindings@[j as int].id;
            assert(bindings@[k]@ == (label_id(entries@[k].0@), entries@[k].1@));
            assert(bindings@[j as int]@ == (label_id(entries@[j as int].0@), entries@[j as int].1@));
            Err(ConfigError::DuplicateKey(entries[j].0.clone()))
        },
        None => {
            assert forall|a: int, b: int| 0 <= a < b < entries@.len() implies #[trigger] label_id(entries@[a].0@)
                != #[trigger] label_id(entries@[b].0@) by {
                assert(bindings_view(bindings@)[a].0 != bindings_view(bindings@)[b].0);
                assert(bindings@[a]@ == (label_id(entries@[a].0@), entries@[a].1@));
                assert(bindings@[b]@ == (label_id(entries@[b].0@), entries@[b].1@));
            }
            Ok((hotkeys, bindings))
        },
    }
}

impl Config {
    /// The hotkeys and bindings of the primary set.
    pub fn applications(&self) -> (r: Result<(Vec<HotKey>, Vec<Binding>), ConfigError>)
        ensures
            binds(self.applications@, r),
    {
        bind_all(&self.applications)
    }

    /// The hotkeys and bindings of the secondary set.
    pub fn secondary_applications(&self) -> (r: Result<(Vec<HotKey>, Vec<Binding>), ConfigError>)
        ensures
            binds(self.secondary_applications@, r),
    {
        bind_all(&self.secondary_applications)
    }
}

/// Width of the window in which repeated change signals count as one.
pub const CHANGE_WINDOW_MS: u64 = 100;

/// Whether a change signal at `now` passes, given the instant the last
/// passing one came at: it is dropped when less than `window` has elapsed
/// since then (a clock that went back counts as no time elapsed).
pub open spec fn passes(last: Option<u64>, window: u64, now: u64) -> bool {
    match last {
        None => true,
        Some(l) => !((if now >= l { now - l } else { 0 }) < window),
    }
}

/// Coalesces bursts of file-change signals into one: a signal passes when
/// no signal passed within the window before it.
#[derive(Debug)]
pub struct ChangeFilter {
    pub last: Option<u64>,
    pub window_ms: u64,
}

impl ChangeFilter {
    pub fn new(window_ms: u64) -> (r: ChangeFilter)
        ensures
            r.last is None,
            r.window_ms == window_ms,
    {
        ChangeFilter { last: None, window_ms }
    }

    /// Whether the change signal that came at `now` (milliseconds) is passed
    /// on; a passing signal opens a new window.
    pub fn accept(&mut self, now: u64) -> (r: bool)
        ensures
            r == passes(old(self).last, old(self).window_ms, now),
            final(self).window_ms == old(self).window_ms,
            final(self).last == if r {
                Some(now)
            } else {
                old(self).last
            },
    {
        let pass = match self.last {
            None => true,
            Some(l) => !(now.saturating_sub(l) < self.window_ms),
        };
        if pass {
            self.last = Some(now);
        }
        pass
    }
}

} // verus!
