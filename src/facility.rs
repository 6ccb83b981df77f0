//! The OS hotkey facility as provided by the `global-hotkey` crate: key
//! codes, hotkeys and the manager that registers them process-wide.
use global_hotkey::hotkey::{Code, HotKey};
use global_hotkey::GlobalHotKeyManager;
use std::str::FromStr;
use vstd::prelude::*;

verus! {

#[verifier::external_type_specification]
#[verifier::external_body]
pub struct ExHotKey(HotKey);

#[verifier::external_type_specification]
#[verifier::external_body]
pub struct ExGlobalHotKeyManager(GlobalHotKeyManager);

#[verifier::external_type_specification]
#[verifier::external_body]
pub struct ExHotKeyError(global_hotkey::Error);

/// The id of the modifier-less hotkey for the key code called `name`, or
/// `None` when `name` is not a key code name. The id is computed from the
/// key code alone.
pub uninterp spec fn key_id(name: Seq<char>) -> Option<u32>;

/// Whether `name` is one of the key code names of the facility.
pub open spec fn is_key_name(name: Seq<char>) -> bool {
    key_id(name) is Some
}

/// Relies on `Code::from_str` (keyboard-types, re-exported by global-hotkey):
/// it matches `name` against its fixed list of key code names and fails on
/// every other string. The code found is turned into the hotkey without
/// modifiers (`HotKey::new(None, code)`), whose `id` field, computed from the
/// code alone, comes back with it.
#[verifier::external_body]
pub(crate) fn hotkey_named(name: &str) -> (r: Option<(HotKey, u32)>)
    ensures
        match r {
            Some((_, id)) => key_id(name@) == Some(id),
            None => key_id(name@) is None,
        },
{
    match Code::from_str(name) {
        Ok(code) => {
            let hotkey = HotKey::new(None, code);
            Some((hotkey, hotkey.id))
        },
        Err(_) => None,
    }
}

/// `GlobalHotKeyManager::new`: whether a handle can be had depends on the
/// platform.
pub assume_specification[ GlobalHotKeyManager::new ]() -> global_hotkey::Result<
    GlobalHotKeyManager,
>;

/// `GlobalHotKeyManager::register`: the OS may refuse the hotkey.
pub assume_specification[ GlobalHotKeyManager::register ](
    manager: &GlobalHotKeyManager,
    hotkey: HotKey,
) -> global_hotkey::Result<()>;

/// `GlobalHotKeyManager::unregister`: the OS may refuse to release it.
pub assume_specification[ GlobalHotKeyManager::unregister ](
    manager: &GlobalHotKeyManager,
    hotkey: HotKey,
) -> global_hotkey::Result<()>;

} // verus!
