//! The settings the core reads, and configuration sync.
//!
//! Settings persist externally as a JSON document; the platform layer loads
//! and saves it. The core cares about three keys only — the hotkey string,
//! the API key, and the post-processing mode — and everything else in the
//! store is opaque to it. Each settings update triggers exactly one
//! configuration command to the engine, carrying the values as of after the
//! update: never a stale value, never a partial one.

use crate::codec;
use crate::codec::{Action, ActionModel};
use vstd::prelude::*;

verus! {

/// The keys the core reads from the settings store.
#[derive(Clone, Copy, PartialEq, Eq, Structural, Debug)]
pub enum SettingKey {
    /// The persisted hotkey string.
    Hotkey,
    /// The API key handed to the engine.
    ApiKey,
    /// The post-processing mode handed to the engine.
    Mode,
}

/// Mathematical state of the settings the core reads: each key's value, or
/// `None` where the store has none.
pub struct SettingsModel {
    pub hotkey: Option<Seq<u8>>,
    pub api_key: Option<Seq<u8>>,
    pub mode: Option<Seq<u8>>,
}

/// The settings the core reads, as plain byte strings.
pub struct Settings {
    hotkey: Option<Vec<u8>>,
    api_key: Option<Vec<u8>>,
    mode: Option<Vec<u8>>,
}

impl View for Settings {
    type V = SettingsModel;

    closed spec fn view(&self) -> SettingsModel {
        SettingsModel {
            hotkey: match self.hotkey {
                Some(ref v) => Some(v@),
                None => None,
            },
            api_key: match self.api_key {
                Some(ref v) => Some(v@),
                None => None,
            },
            mode: match self.mode {
                Some(ref v) => Some(v@),
                None => None,
            },
        }
    }
}

/// `raw` as bytes: the mode used until the user picks one.
pub open spec fn default_mode() -> Seq<u8> {
    seq![0x72, 0x61, 0x77]
}

/// The settings after one key is updated; the other keys keep their values.
pub open spec fn update_spec(s: SettingsModel, key: SettingKey, value: Seq<u8>) -> SettingsModel {
    match key {
        SettingKey::Hotkey => SettingsModel { hotkey: Some(value), ..s },
        SettingKey::ApiKey => SettingsModel { api_key: Some(value), ..s },
        SettingKey::Mode => SettingsModel { mode: Some(value), ..s },
    }
}

/// The configuration command the engine is owed for a settings state: the
/// stored API key or empty, and the stored mode or `raw`.
pub open spec fn config_action(s: SettingsModel) -> ActionModel {
    ActionModel::SetConfig {
        api_key: match s.api_key {
            Some(k) => k,
            None => Seq::empty(),
        },
        mode: match s.mode {
            Some(m) => m,
            None => default_mode(),
        },
    }
}

impl Settings {
    /// Settings as on first start: the store holds none of the keys.
    pub fn empty() -> (s: Settings)
        ensures
            s@.hotkey is None,
            s@.api_key is None,
            s@.mode is None,
    {
        Settings { hotkey: None, api_key: None, mode: None }
    }

    /// The stored value of a key, or empty where the store has none — as the
    /// UI reads settings.
    pub fn get(&self, key: SettingKey) -> (r: Vec<u8>)
        ensures
            r@ == match (match key {
                SettingKey::Hotkey => self@.hotkey,
                SettingKey::ApiKey => self@.api_key,
                SettingKey::Mode => self@.mode,
            }) {
                Some(v) => v,
                None => Seq::<u8>::empty(),
            },
    {
        let slot = match key {
            SettingKey::Hotkey => &self.hotkey,
            SettingKey::ApiKey => &self.api_key,
            SettingKey::Mode => &self.mode,
        };
        match slot {
            Some(v) => crate::events::clone_bytes(v),
            None => Vec::new(),
        }
    }

    /// Stores a new value for one key.
    pub fn set(&mut self, key: SettingKey, value: Vec<u8>)
        ensures
            final(self)@ == update_spec(old(self)@, key, value@),
    {
        match key {
            SettingKey::Hotkey => {
                self.hotkey = Some(value);
            },
            SettingKey::ApiKey => {
                self.api_key = Some(value);
            },
            SettingKey::Mode => {
                self.mode = Some(value);
            },
        }
    }

    /// The configuration action owed to the engine for the current settings.
    pub fn current_config(&self) -> (a: Action)
        ensures
            a@ == config_action(self@),
    {
        let api_key = match &self.api_key {
            Some(v) => crate::events::clone_bytes(v),
            None => Vec::new(),
        };
        let mode = match &self.mode {
            Some(v) => crate::events::clone_bytes(v),
            None => {
                let mut m: Vec<u8> = Vec::new();
                m.push(0x72);
                m.push(0x61);
                m.push(0x77);
                proof {
                    assert(m@ =~= default_mode());
                }
                m
            },
        };
        Action::SetConfig { api_key, mode }
    }

    /// The one configuration line owed to the engine for the current
    /// settings.
    pub fn sync_command(&self) -> (cmd: Vec<u8>)
        ensures
            cmd@ == codec::encode_spec(config_action(self@)),
    {
        let action = self.current_config();
        codec::encode(&action)
    }

    /// One settings update as the UI performs it: stores the value and
    /// returns the single configuration command to send, already reflecting
    /// the update.
    pub fn update_and_sync(&mut self, key: SettingKey, value: Vec<u8>) -> (cmd: Vec<u8>)
        ensures
            final(self)@ == update_spec(old(self)@, key, value@),
            cmd@ == codec::encode_spec(config_action(final(self)@)),
    {
        self.set(key, value);
        self.sync_command()
    }
}

/// The settings after a burst of updates applied in order.
pub open spec fn apply_updates(s: SettingsModel, us: Seq<(SettingKey, Seq<u8>)>) -> SettingsModel
    decreases us.len(),
{
    if us.len() == 0 {
        s
    } else {
        update_spec(apply_updates(s, us.drop_last()), us.last().0, us.last().1)
    }
}

/// The value a key holds after a burst: the value of the last update to that
/// key, or the base value where the burst never touched it.
pub open spec fn latest(
    base: Option<Seq<u8>>,
    us: Seq<(SettingKey, Seq<u8>)>,
    key: SettingKey,
) -> Option<Seq<u8>>
    decreases us.len(),
{
    if us.len() == 0 {
        base
    } else if us.last().0 == key {
        Some(us.last().1)
    } else {
        latest(base, us.drop_last(), key)
    }
}

/// Law: however many settings updates land in rapid succession, the
/// configuration command owed after the burst carries, for every field, the
/// most recently written value — nothing stale, nothing partial.
pub proof fn lemma_config_sync_latest(s: SettingsModel, us: Seq<(SettingKey, Seq<u8>)>)
    ensures
        config_action(apply_updates(s, us)) == (ActionModel::SetConfig {
            api_key: match latest(s.api_key, us, SettingKey::ApiKey) {
                Some(k) => k,
                None => Seq::empty(),
            },
            mode: match latest(s.mode, us, SettingKey::Mode) {
                Some(m) => m,
                None => default_mode(),
            },
        }),
    decreases us.len(),
{
    if us.len() == 0 {
    } else {
        lemma_config_sync_latest(s, us.drop_last());
        lemma_latest_fields(s, us);
    }
}

proof fn lemma_latest_fields(s: SettingsModel, us: Seq<(SettingKey, Seq<u8>)>)
    ensures
        apply_updates(s, us).api_key == latest(s.api_key, us, SettingKey::ApiKey),
        apply_updates(s, us).mode == latest(s.mode, us, SettingKey::Mode),
        apply_updates(s, us).hotkey == latest(s.hotkey, us, SettingKey::Hotkey),
    decreases us.len(),
{
    if us.len() == 0 {
    } else {
        lemma_latest_fields(s, us.drop_last());
    }
}

} // verus!
