use engine_bridge::bridge::{DispatchOutcome, EngineHandle, EngineRegistry};
use engine_bridge::codec::{encode, Action};
use engine_bridge::hotkey::{BindError, Combo, Dispatcher, KeyTransition};
use engine_bridge::settings::{SettingKey, Settings};
use engine_bridge::{
    force_record_start, force_record_stop, ping_sidecar, sync_sidecar_config, update_hotkey,
    update_settings,
};

fn live_registry() -> EngineRegistry {
    let mut reg = EngineRegistry::empty();
    reg.install(EngineHandle::fresh());
    reg
}

#[test]
fn rebind_sequence_keeps_exactly_one_binding() {
    let mut d = Dispatcher::unbound();
    let combos: Vec<Combo> = (0..10u32).map(|i| Combo { mods: i, code: 100 + i }).collect();
    for c in &combos {
        let r = d.apply_rebind(Some(*c), true);
        assert!(r.is_ok());
        assert_eq!(d.current_binding(), Some(*c));
    }
    assert_eq!(d.current_binding(), Some(combos[9]));
}

#[test]
fn failed_parse_leaves_previous_binding_functional() {
    let mut d = Dispatcher::unbound();
    let combo = Combo { mods: 3, code: 57 };
    assert!(d.apply_rebind(Some(combo), true).is_ok());
    let r = d.apply_rebind(None, true);
    assert_eq!(r, Err(BindError::Parse));
    assert_eq!(d.current_binding(), Some(combo));
    assert_eq!(
        d.on_transition(combo, KeyTransition::Pressed),
        Some(Action::StartRecording)
    );
    assert_eq!(
        d.on_transition(combo, KeyTransition::Released),
        Some(Action::StopRecording)
    );
}

#[test]
fn failed_registration_leaves_nothing_bound() {
    let mut d = Dispatcher::unbound();
    let old = Combo { mods: 1, code: 2 };
    assert!(d.apply_rebind(Some(old), true).is_ok());
    let r = d.apply_rebind(Some(Combo { mods: 8, code: 9 }), false);
    assert_eq!(r, Err(BindError::Register));
    assert_eq!(d.current_binding(), None);
    assert_eq!(d.on_transition(old, KeyTransition::Pressed), None);
}

#[test]
fn stray_combination_transitions_are_ignored() {
    let mut d = Dispatcher::unbound();
    let bound = Combo { mods: 2, code: 32 };
    assert!(d.apply_rebind(Some(bound), true).is_ok());
    let stray = Combo { mods: 2, code: 33 };
    assert_eq!(d.on_transition(stray, KeyTransition::Pressed), None);
    assert_eq!(d.on_transition(stray, KeyTransition::Released), None);
}

#[test]
fn startup_binding_falls_back_to_default() {
    let mut d = Dispatcher::unbound();
    let fallback = Combo { mods: 0, code: 113 };
    d.bind_startup(None, fallback, true);
    assert_eq!(d.current_binding(), Some(fallback));

    let persisted = Combo { mods: 5, code: 44 };
    d.bind_startup(Some(persisted), fallback, true);
    assert_eq!(d.current_binding(), Some(persisted));
}

#[test]
fn startup_registration_failure_leaves_no_hotkey() {
    let mut d = Dispatcher::unbound();
    d.bind_startup(None, Combo { mods: 0, code: 113 }, false);
    assert_eq!(d.current_binding(), None);
}

#[test]
fn every_issued_command_is_recorded_once_in_order() {
    let mut reg = live_registry();
    let press = Action::StartRecording;
    let release = Action::StopRecording;
    let mut expected: Vec<Vec<u8>> = Vec::new();
    for _ in 0..50 {
        let (o1, _) = force_record_start(&mut reg);
        assert_eq!(o1, DispatchOutcome::Written);
        expected.push(encode(&press));
        let (o2, _) = ping_sidecar(&mut reg);
        assert_eq!(o2, DispatchOutcome::Written);
        expected.push(encode(&Action::Ping));
        let (o3, _) = force_record_stop(&mut reg);
        assert_eq!(o3, DispatchOutcome::Written);
        expected.push(encode(&release));
    }
    let handle = reg.engine().unwrap();
    assert_eq!(handle.written_count(), 150);
    assert_eq!(handle.written_lines(), &expected);
}

#[test]
fn registry_reports_engine_presence() {
    let mut reg = EngineRegistry::empty();
    assert!(!reg.has_engine());
    assert!(reg.engine().is_none());
    reg.install(EngineHandle::fresh());
    assert!(reg.has_engine());
    assert_eq!(reg.engine().unwrap().written_count(), 0);
    assert!(reg.engine().unwrap().is_open());
}

#[test]
fn dispatch_without_engine_is_dropped() {
    let mut reg = EngineRegistry::empty();
    let (outcome, line) = ping_sidecar(&mut reg);
    assert_eq!(outcome, DispatchOutcome::NoEngine);
    assert_eq!(line, None);
}

#[test]
fn broken_pipe_is_contained_and_recovery_works() {
    let mut reg = live_registry();
    let (o, _) = force_record_start(&mut reg);
    assert_eq!(o, DispatchOutcome::Written);

    reg.mark_engine_closed();
    let (o, line) = force_record_stop(&mut reg);
    assert_eq!(o, DispatchOutcome::WriteFailed);
    assert_eq!(line, None);
    assert_eq!(reg.engine().unwrap().written_count(), 1);

    reg.install(EngineHandle::fresh());
    let (o, line) = force_record_stop(&mut reg);
    assert_eq!(o, DispatchOutcome::Written);
    assert_eq!(line.unwrap(), b"STOP_RECORDING\n".to_vec());
}

#[test]
fn settings_get_returns_stored_or_empty() {
    let mut s = Settings::empty();
    assert_eq!(s.get(SettingKey::ApiKey), Vec::<u8>::new());
    s.set(SettingKey::ApiKey, b"sk-1".to_vec());
    assert_eq!(s.get(SettingKey::ApiKey), b"sk-1".to_vec());
    assert_eq!(s.get(SettingKey::Mode), Vec::<u8>::new());
}

#[test]
fn sync_command_uses_defaults_until_set() {
    let s = Settings::empty();
    assert_eq!(
        s.sync_command(),
        b"{\"type\":\"SET_CONFIG\",\"data\":{\"api_key\":\"\",\"mode\":\"raw\"}}\n".to_vec()
    );
}

#[test]
fn each_update_sends_exactly_one_config_with_latest_values() {
    let mut reg = live_registry();
    let mut s = Settings::empty();

    let (o, line) = update_settings(&mut reg, &mut s, SettingKey::ApiKey, b"sk-9".to_vec());
    assert_eq!(o, DispatchOutcome::Written);
    assert_eq!(
        line.unwrap(),
        b"{\"type\":\"SET_CONFIG\",\"data\":{\"api_key\":\"sk-9\",\"mode\":\"raw\"}}\n".to_vec()
    );
    assert_eq!(reg.engine().unwrap().written_count(), 1);

    let (o, line) = update_settings(&mut reg, &mut s, SettingKey::Mode, b"polished".to_vec());
    assert_eq!(o, DispatchOutcome::Written);
    assert_eq!(
        line.unwrap(),
        b"{\"type\":\"SET_CONFIG\",\"data\":{\"api_key\":\"sk-9\",\"mode\":\"polished\"}}\n"
            .to_vec()
    );
    assert_eq!(reg.engine().unwrap().written_count(), 2);
}

#[test]
fn update_and_sync_returns_one_command() {
    let mut s = Settings::empty();
    let cmd = s.update_and_sync(SettingKey::Mode, b"polished".to_vec());
    assert_eq!(
        cmd,
        b"{\"type\":\"SET_CONFIG\",\"data\":{\"api_key\":\"\",\"mode\":\"polished\"}}\n".to_vec()
    );
}

#[test]
fn update_hotkey_persists_only_on_success() {
    let mut d = Dispatcher::unbound();
    let mut s = Settings::empty();
    let combo = Combo { mods: 6, code: 62 };

    let r = update_hotkey(&mut d, &mut s, b"Ctrl+Shift+Space".to_vec(), Some(combo), true);
    assert!(r.is_ok());
    assert_eq!(d.current_binding(), Some(combo));
    assert_eq!(s.get(SettingKey::Hotkey), b"Ctrl+Shift+Space".to_vec());

    let r = update_hotkey(&mut d, &mut s, b"garbage".to_vec(), None, true);
    assert_eq!(r, Err(BindError::Parse));
    assert_eq!(d.current_binding(), Some(combo));
    assert_eq!(s.get(SettingKey::Hotkey), b"Ctrl+Shift+Space".to_vec());

    let other = Combo { mods: 7, code: 70 };
    let r = update_hotkey(&mut d, &mut s, b"Alt+F4".to_vec(), Some(other), false);
    assert_eq!(r, Err(BindError::Register));
    assert_eq!(d.current_binding(), None);
    assert_eq!(s.get(SettingKey::Hotkey), b"Ctrl+Shift+Space".to_vec());
}

#[test]
fn hotkey_transition_commands_reach_the_engine() {
    let mut reg = live_registry();
    let mut d = Dispatcher::unbound();
    let combo = Combo { mods: 3, code: 57 };
    assert!(d.apply_rebind(Some(combo), true).is_ok());

    if let Some(action) = d.on_transition(combo, KeyTransition::Pressed) {
        let (o, _) = reg.dispatch(&action);
        assert_eq!(o, DispatchOutcome::Written);
    }
    if let Some(action) = d.on_transition(combo, KeyTransition::Released) {
        let (o, _) = reg.dispatch(&action);
        assert_eq!(o, DispatchOutcome::Written);
    }
    let expected = vec![b"START_RECORDING\n".to_vec(), b"STOP_RECORDING\n".to_vec()];
    assert_eq!(reg.engine().unwrap().written_lines(), &expected);
}

#[test]
fn initial_sync_after_install() {
    let mut reg = live_registry();
    let mut s = Settings::empty();
    s.set(SettingKey::ApiKey, b"sk-start".to_vec());
    let (o, line) = sync_sidecar_config(&mut reg, &s);
    assert_eq!(o, DispatchOutcome::Written);
    assert_eq!(
        line.unwrap(),
        b"{\"type\":\"SET_CONFIG\",\"data\":{\"api_key\":\"sk-start\",\"mode\":\"raw\"}}\n"
            .to_vec()
    );
}
