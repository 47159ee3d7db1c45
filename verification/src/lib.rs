//! Core of a desktop dictation shell: the command/event bridge to an external
//! speech engine reached over a line-oriented byte protocol, the global-hotkey
//! dispatcher state machine, the settings model that drives configuration
//! sync, and the shared registry holding the one live engine handle.
//!
//! The platform layer around this crate owns the actual process, windows and
//! OS hotkey registration; it reports outcomes (parse results, registration
//! results, broken pipes) and performs the writes this crate decides on.

pub mod bridge;
pub mod codec;
pub mod events;
pub mod hotkey;
pub mod settings;

use vstd::prelude::*;

verus! {

use crate::bridge::{DispatchOutcome, EngineRegistry, dispatch_spec};
use crate::codec::{Action, ActionModel, encode_spec};
use crate::hotkey::{BindError, Combo, Dispatcher, rebind_result};
use crate::settings::{SettingKey, Settings, config_action, update_spec};

/// The UI `ping` command: hands `PING` to the engine if one is live; dropped
/// otherwise, never an error.
pub fn ping_sidecar(reg: &mut EngineRegistry) -> (r: (DispatchOutcome, Option<Vec<u8>>))
    ensures
        (final(reg)@, r.0) == dispatch_spec(old(reg)@, ActionModel::Ping),
        match r.1 {
            Some(line) => r.0 == DispatchOutcome::Written && line@ == encode_spec(
                ActionModel::Ping,
            ),
            None => r.0 != DispatchOutcome::Written,
        },
{
    reg.dispatch(&Action::Ping)
}

/// The UI command that starts a recording without the hotkey.
pub fn force_record_start(reg: &mut EngineRegistry) -> (r: (DispatchOutcome, Option<Vec<u8>>))
    ensures
        (final(reg)@, r.0) == dispatch_spec(old(reg)@, ActionModel::StartRecording),
        match r.1 {
            Some(line) => r.0 == DispatchOutcome::Written && line@ == encode_spec(
                ActionModel::StartRecording,
            ),
            None => r.0 != DispatchOutcome::Written,
        },
{
    reg.dispatch(&Action::StartRecording)
}

/// The UI command that stops a recording without the hotkey.
pub fn force_record_stop(reg: &mut EngineRegistry) -> (r: (DispatchOutcome, Option<Vec<u8>>))
    ensures
        (final(reg)@, r.0) == dispatch_spec(old(reg)@, ActionModel::StopRecording),
        match r.1 {
            Some(line) => r.0 == DispatchOutcome::Written && line@ == encode_spec(
                ActionModel::StopRecording,
            ),
            None => r.0 != DispatchOutcome::Written,
        },
{
    reg.dispatch(&Action::StopRecording)
}

/// Configuration sync: hands the engine the one `SET_CONFIG` line for the
/// current settings. Dropped without error when no engine is live.
pub fn sync_sidecar_config(reg: &mut EngineRegistry, settings: &Settings) -> (r: (
    DispatchOutcome,
    Option<Vec<u8>>,
))
    ensures
        (final(reg)@, r.0) == dispatch_spec(old(reg)@, config_action(settings@)),
        match r.1 {
            Some(line) => r.0 == DispatchOutcome::Written && line@ == encode_spec(
                config_action(settings@),
            ),
            None => r.0 != DispatchOutcome::Written,
        },
{
    let action = settings.current_config();
    reg.dispatch(&action)
}

/// The UI settings update: stores the value, then sends exactly one
/// configuration command carrying the state after the update — the latest
/// values, never stale or partial ones.
pub fn update_settings(
    reg: &mut EngineRegistry,
    settings: &mut Settings,
    key: SettingKey,
    value: Vec<u8>,
) -> (r: (DispatchOutcome, Option<Vec<u8>>))
    ensures
        final(settings)@ == update_spec(old(settings)@, key, value@),
        (final(reg)@, r.0) == dispatch_spec(old(reg)@, config_action(final(settings)@)),
        match r.1 {
            Some(line) => r.0 == DispatchOutcome::Written && line@ == encode_spec(
                config_action(final(settings)@),
            ),
            None => r.0 != DispatchOutcome::Written,
        },
{
    settings.set(key, value);
    sync_sidecar_config(reg, settings)
}

/// The UI hotkey update. The platform layer parses the string and, when the
/// parse succeeded, unregisters the old combination and tries to register
/// the new one; this decides what is bound afterwards and persists the
/// string only on full success. A parse failure leaves binding and settings
/// exactly as they were.
pub fn update_hotkey(
    dispatcher: &mut Dispatcher,
    settings: &mut Settings,
    hotkey_str: Vec<u8>,
    parsed: Option<Combo>,
    register_ok: bool,
) -> (r: Result<(), BindError>)
    ensures
        final(dispatcher).binding() == rebind_result(
            old(dispatcher).binding(),
            parsed,
            register_ok,
        ),
        r is Ok <==> (parsed is Some && register_ok),
        r is Ok ==> final(settings)@ == update_spec(
            old(settings)@,
            SettingKey::Hotkey,
            hotkey_str@,
        ),
        !(r is Ok) ==> final(settings)@ == old(settings)@,
        parsed is None ==> r == Err::<(), BindError>(BindError::Parse),
        (parsed is Some && !register_ok) ==> r == Err::<(), BindError>(BindError::Register),
{
    let res = dispatcher.apply_rebind(parsed, register_ok);
    match res {
        Ok(()) => {
            settings.set(SettingKey::Hotkey, hotkey_str);
            Ok(())
        },
        Err(e) => Err(e),
    }
}

} // verus!
