use hooviestar::engine_event::{DeviceRecoveryPhase, EngineEvent};
use hooviestar::event_gate::{EventGate, Forward, PENDING_EVENT_LIMIT};
use hooviestar::hotkeys::{
    find_scene, note_initial_failure, HotkeyChange, HotkeyStep, Reply, SceneHotkey, SceneRemoval,
};
use hooviestar::linux::{
    PipeWirePortalLink, PortalSelection, PortalSourceType, PortalStreamInfo,
};
use hooviestar::platform_linux::{
    configure_graphics_backend, enumerate_sources, enumeration_message, hyprctl_result, hyprland_cleanup_source,
    hyprland_rule_source, is_hyprland, native_surfaces, portal_candidates, set_preview_bounds,
    set_preview_visible, show_failure, GraphicsEnvironment, OutputSizes, OutputVisibility,
    PortalResources,
    RawHandle, ShowStep, SourceCandidate,
};
use hooviestar::render_loop::NativeSurfaceKind;
use hooviestar::shell::{
    chosen_file, is_rendered_window, run_audio_watchdog, spawn_audio_watchdog, startup_mode,
    CleanupStep, RuntimeResources, StartupMode, WatchdogStep,
};
use hooviestar::taskbar::{look, Activity, BarStatus, Presentation, Signals, TaskbarState};
use hooviestar::updater::{
    download_percentage, ClaimError, FlushOutcome, PreparedBytesError, PreparedUpdate,
    ShellEffect, UpdateState, UpdateStatus, Updater,
};

#[test]
fn device_failure_survives_unrelated_updater_success() {
    let mut signals = Signals { device: Activity::Error, update: Activity::Indeterminate };
    signals.update = Activity::Idle;
    assert_eq!(signals.presentation(), Presentation::Error);
}

#[test]
fn recovery_outranks_update_download_progress() {
    let signals = Signals { device: Activity::Indeterminate, update: Activity::Progress(63) };
    assert_eq!(signals.presentation(), Presentation::Indeterminate);
}

#[test]
fn completed_recovery_reveals_active_update_progress() {
    let signals = Signals { device: Activity::Idle, update: Activity::Progress(63) };
    assert_eq!(signals.presentation(), Presentation::Progress(63));
}

#[test]
fn taskbar_follows_recovery_and_is_redrawn_only_on_change() {
    let mut taskbar = TaskbarState::new();
    let started = EngineEvent::DeviceRecovery {
        phase: DeviceRecoveryPhase::Started,
        detail: None,
    };
    assert_eq!(taskbar.record_engine_event(&started), Some(Presentation::Indeterminate));
    assert_eq!(taskbar.record_engine_event(&started), None);
    assert_eq!(taskbar.set_update(Activity::Progress(10)), None);
    let failed = EngineEvent::DeviceRecovery {
        phase: DeviceRecoveryPhase::Failed,
        detail: None,
    };
    assert_eq!(taskbar.record_engine_event(&failed), Some(Presentation::Error));
    let done = EngineEvent::DeviceRecovery {
        phase: DeviceRecoveryPhase::Succeeded,
        detail: None,
    };
    assert_eq!(taskbar.record_engine_event(&done), Some(Presentation::Progress(10)));
    assert_eq!(taskbar.set_update(Activity::Idle), Some(Presentation::Idle));
    let unrelated = EngineEvent::SourceAvailable { source_id: 1 };
    assert_eq!(taskbar.record_engine_event(&unrelated), None);
}

#[test]
fn taskbar_looks() {
    assert_eq!(look(Presentation::Idle).status, BarStatus::Hidden);
    assert_eq!(look(Presentation::Indeterminate).status, BarStatus::Indeterminate);
    let progress = look(Presentation::Progress(40));
    assert_eq!(progress.status, BarStatus::Normal);
    assert_eq!(progress.progress, Some(40));
    assert!(!progress.error_badge);
    let error = look(Presentation::Error);
    assert!(error.error_badge);
}

#[test]
fn download_percentage_handles_unknown_zero_and_overrun_lengths() {
    assert_eq!(download_percentage(5, None), None);
    assert_eq!(download_percentage(5, Some(0)), None);
    assert_eq!(download_percentage(50, Some(200)), Some(25));
    assert_eq!(download_percentage(250, Some(200)), Some(100));
    assert_eq!(download_percentage(u64::MAX, Some(1)), Some(100));
    assert_eq!(download_percentage(u64::MAX, Some(u64::MAX)), Some(100));
}

#[test]
fn same_update_status_is_stored_once() {
    let mut state: UpdateState<()> = UpdateState::new();
    assert!(state.snapshot().is_none());
    assert!(state.replace_if_changed(UpdateStatus::Downloading {
        version: "1.2.3".into(),
        progress: Some(10),
    }));
    assert!(!state.replace_if_changed(UpdateStatus::Downloading {
        version: "1.2.3".into(),
        progress: Some(10),
    }));
    assert!(matches!(
        state.snapshot(),
        Some(UpdateStatus::Downloading { version, progress: Some(10) }) if version == "1.2.3"
    ));
    assert!(state.replace_if_changed(UpdateStatus::Checking));
}

fn hello() -> Vec<u8> {
    b"hello world".to_vec()
}

const HELLO_DIGEST: [u8; 32] = [
    0xb9, 0x4d, 0x27, 0xb9, 0x93, 0x4d, 0x3e, 0x08, 0xa5, 0x2e, 0x52, 0xd7, 0xda, 0x7d, 0xab,
    0xfa, 0xc4, 0x84, 0xef, 0xe3, 0x7a, 0x53, 0x80, 0xee, 0x90, 0x88, 0xf7, 0xac, 0xe2, 0xef,
    0xcd, 0xe9,
];

#[test]
fn prepared_update_remembers_length_and_digest() {
    let prepared = PreparedUpdate::prepare((), "1.0.0".into(), &hello());
    assert_eq!(prepared.length, 11);
    assert_eq!(prepared.digest, HELLO_DIGEST);
    assert_eq!(prepared.read_limit().unwrap(), 12);
    assert_eq!(prepared.read_verified_bytes(hello()).unwrap(), hello());
    let short = prepared.read_verified_bytes(b"hello".to_vec()).unwrap_err();
    assert!(short.is_integrity());
    assert_eq!(short.message(), "Vorbereitete Aktualisierung ist unvollständig");
    let changed = prepared.read_verified_bytes(b"hello_world".to_vec()).unwrap_err();
    assert!(changed.is_integrity());
    assert_eq!(
        changed.message(),
        "Vorbereitete Aktualisierung hat die Integritätsprüfung nicht bestanden"
    );
    assert!(prepared.check_bytes(hello(), HELLO_DIGEST).is_ok());
    assert!(prepared.check_bytes(hello(), [0; 32]).is_err());
    let unreadable = PreparedBytesError::unreadable("weg");
    assert!(!unreadable.is_integrity());
    assert_eq!(
        unreadable.message(),
        "Vorbereitete Aktualisierung konnte nicht gelesen werden: weg"
    );
    let endless = PreparedUpdate { update: (), version: "1".into(), length: u64::MAX, digest: [0; 32] };
    assert_eq!(
        endless.read_limit().unwrap_err().message(),
        "Vorbereitete Aktualisierung ist zu groß"
    );
}

#[test]
fn update_claim_is_exclusive() {
    let mut state: UpdateState<u8> = UpdateState::new();
    assert!(matches!(state.claim_pending(), Err(ClaimError::Empty)));
    let prepared = PreparedUpdate::prepare(1u8, "1.0.0".into(), &hello());
    assert!(state.store_pending(prepared).is_ok());
    let second = PreparedUpdate::prepare(2u8, "2.0.0".into(), &hello());
    assert!(matches!(state.store_pending(second), Err(refused) if refused.update == 2));
    let claimed = state.claim_pending().ok().unwrap();
    assert_eq!(claimed.update, 1);
    assert!(matches!(state.claim_pending(), Err(ClaimError::Busy)));
    state.restore_claim(claimed);
    assert!(state.claim_pending().is_ok());
    state.finish_claim();
    assert!(matches!(state.claim_pending(), Err(ClaimError::Empty)));
}

fn statuses(effects: &[ShellEffect]) -> Vec<String> {
    effects
        .iter()
        .filter_map(|effect| match effect {
            ShellEffect::Status(status) => Some(format!("{:?}", status)),
            ShellEffect::Taskbar(_) => None,
        })
        .collect()
}

#[test]
fn update_is_downloaded_prepared_and_installed() {
    let mut updater: Updater<()> = Updater::new();
    let mut effects = Vec::new();
    let mut download = updater.on_checked(Some("1.0.0".into()), &mut effects).unwrap();
    updater.on_chunk(&mut download, 5, Some(11), &mut effects);
    updater.on_chunk(&mut download, 0, Some(11), &mut effects);
    updater.on_chunk(&mut download, 6, Some(11), &mut effects);
    assert_eq!(download.downloaded, 11);
    let seen = statuses(&effects);
    assert_eq!(seen.len(), 4);
    assert!(seen[0].contains("Available"));
    assert!(seen[1].contains("progress: None"));
    assert!(seen[2].contains("Some(45)"));
    assert!(seen[3].contains("Some(100)"));
    let prepared = PreparedUpdate::prepare((), "1.0.0".into(), &hello());
    assert!(updater.on_downloaded(prepared, &mut effects).is_ok());
    let again = PreparedUpdate::prepare((), "1.0.0".into(), &hello());
    assert_eq!(
        updater.on_downloaded(again, &mut effects).unwrap_err(),
        "Es ist bereits eine Aktualisierung vorbereitet"
    );
    let claimed = updater.begin_install(&mut effects).ok().unwrap();
    assert_eq!(
        updater.begin_install(&mut effects).err().unwrap(),
        "Aktualisierung wird bereits installiert"
    );
    assert!(claimed.read_verified_bytes(hello()).is_ok());
    let (claimed, bytes) = updater.on_read(claimed, Ok(hello()), &mut effects).ok().unwrap();
    assert_eq!(bytes, hello());
    let claimed = updater.on_flushed(claimed, FlushOutcome::Saved, &mut effects).ok().unwrap();
    assert!(updater.on_installed(claimed, Ok(()), &mut effects).is_ok());
    assert!(matches!(
        updater.state.snapshot(),
        Some(UpdateStatus::Installed { version }) if version == "1.0.0"
    ));
    assert_eq!(
        updater.begin_install(&mut effects).err().unwrap(),
        "Keine vorbereitete Aktualisierung verfügbar"
    );
}

#[test]
fn failed_installation_keeps_a_good_update_and_drops_a_damaged_one() {
    let mut updater: Updater<()> = Updater::new();
    let mut effects = Vec::new();
    assert!(updater.on_checked(None, &mut effects).is_none());
    assert!(matches!(updater.state.snapshot(), Some(UpdateStatus::UpToDate)));
    let prepared = PreparedUpdate::prepare((), "1.0.0".into(), &hello());
    updater.on_downloaded(prepared, &mut effects).unwrap();

    let claimed = updater.begin_install(&mut effects).ok().unwrap();
    let unreadable = Err(PreparedBytesError::unreadable("weg"));
    assert!(updater.on_read(claimed, unreadable, &mut effects).is_err());
    assert!(matches!(updater.state.snapshot(), Some(UpdateStatus::Ready { .. })));

    let claimed = updater.begin_install(&mut effects).ok().unwrap();
    assert_eq!(
        updater.on_flushed(claimed, FlushOutcome::NoRuntime, &mut effects).err().unwrap(),
        "Updater-Laufzeitstatus ist nicht verfügbar"
    );
    let claimed = updater.begin_install(&mut effects).ok().unwrap();
    assert_eq!(
        updater
            .on_flushed(claimed, FlushOutcome::Failed("voll".into()), &mut effects)
            .err()
            .unwrap(),
        "Projekt konnte vor der Installation nicht gespeichert werden: voll"
    );
    let claimed = updater.begin_install(&mut effects).ok().unwrap();
    assert_eq!(
        updater.on_installed(claimed, Err("nein".into()), &mut effects).unwrap_err(),
        "Aktualisierung konnte nicht gestartet werden: nein"
    );

    let claimed = updater.begin_install(&mut effects).ok().unwrap();
    let damaged = Ok(b"hello_world".to_vec());
    assert_eq!(
        updater.on_read(claimed, damaged, &mut effects).err().unwrap(),
        "Vorbereitete Aktualisierung hat die Integritätsprüfung nicht bestanden"
    );
    assert!(matches!(updater.state.snapshot(), Some(UpdateStatus::Error { .. })));
    assert!(updater.begin_install(&mut effects).is_err());
}

fn error_event(message: &str) -> EngineEvent {
    EngineEvent::EngineError { message: message.into() }
}

fn messages(events: &[EngineEvent]) -> Vec<String> {
    events
        .iter()
        .map(|event| match event {
            EngineEvent::EngineError { message } => message.clone(),
            EngineEvent::HotkeyError { message, .. } => message.clone(),
            _ => panic!("unexpected event"),
        })
        .collect()
}

#[test]
fn waiting_events_are_bounded_and_the_overflow_is_logged_once() {
    let mut gate = EventGate::new(Vec::new());
    for i in 0..PENDING_EVENT_LIMIT {
        assert!(matches!(
            gate.forward(error_event(&i.to_string())),
            Forward::Buffered { log_overflow: false }
        ));
    }
    assert!(matches!(
        gate.forward(error_event("one more")),
        Forward::Buffered { log_overflow: true }
    ));
    assert!(matches!(
        gate.forward(error_event("and one")),
        Forward::Buffered { log_overflow: false }
    ));
    let waiting = messages(&gate.begin_replay());
    assert_eq!(waiting.len(), PENDING_EVENT_LIMIT);
    assert_eq!(waiting[0], "2");
    assert_eq!(waiting[PENDING_EVENT_LIMIT - 1], "and one");
    assert!(matches!(gate.forward(error_event("live")), Forward::Emit(_)));
}

#[test]
fn interrupted_replay_resumes_at_the_event_that_failed() {
    let mut gate = EventGate::new(vec![error_event("start")]);
    note_initial_failure(&mut gate, 7, "Ctrl+1", "belegt");
    gate.forward(error_event("later"));
    let events = gate.begin_replay();
    assert_eq!(messages(&events), vec!["start", "Ctrl+1: belegt", "later"]);
    assert_eq!(
        gate.on_replay_failed(events, 1, "zu"),
        "Engine-Ereignis konnte nicht zugestellt werden: zu"
    );
    assert_eq!(messages(&gate.pending), vec!["Ctrl+1: belegt", "later"]);
    assert!(gate.initial_events.is_empty() && gate.initial_hotkey_failures.is_empty());
    gate.forward(error_event("newer"));
    let events = gate.begin_replay();
    assert_eq!(messages(&events), vec!["Ctrl+1: belegt", "later", "newer"]);
    gate.on_emit_failed(error_event("lost"));
    assert_eq!(messages(&gate.begin_replay()), vec!["lost"]);
}

fn scenes() -> Vec<SceneHotkey> {
    vec![
        SceneHotkey { scene_id: 1, hotkey: Some("A".into()) },
        SceneHotkey { scene_id: 2, hotkey: None },
    ]
}

#[test]
fn hotkey_change_registers_new_before_removing_old() {
    assert_eq!(find_scene(&scenes(), 2), Some(1));
    assert_eq!(
        HotkeyChange::begin(&scenes(), 9, None).err().unwrap(),
        "Szene nicht gefunden"
    );
    let mut change = HotkeyChange::begin(&scenes(), 1, Some("B".into())).ok().unwrap();
    assert!(matches!(change.step(), HotkeyStep::Register(key) if key == "B"));
    assert!(!change.on_reply(Reply::Answer(true)));
    assert!(change.on_reply(Reply::Success));
    assert!(matches!(change.step(), HotkeyStep::IsRegistered(key) if key == "A"));
    assert!(change.on_reply(Reply::Answer(true)));
    assert!(matches!(change.step(), HotkeyStep::Unregister(key) if key == "A"));
    assert!(change.on_reply(Reply::Success));
    assert!(matches!(change.step(), HotkeyStep::Store));
    assert!(change.on_reply(Reply::Success));
    assert!(matches!(change.step(), HotkeyStep::Done));
}

#[test]
fn refused_hotkey_change_is_undone() {
    let mut change = HotkeyChange::begin(&scenes(), 1, Some("B".into())).ok().unwrap();
    change.on_reply(Reply::Success);
    change.on_reply(Reply::Answer(true));
    change.on_reply(Reply::Success);
    change.on_reply(Reply::Failure("abgelehnt".into()));
    assert!(matches!(change.step(), HotkeyStep::Unregister(key) if key == "B"));
    change.on_reply(Reply::Success);
    assert!(matches!(change.step(), HotkeyStep::Register(key) if key == "A"));
    change.on_reply(Reply::Success);
    assert!(matches!(change.step(), HotkeyStep::Refused(message) if message == "abgelehnt"));

    let mut taken = HotkeyChange::begin(&scenes(), 2, Some("B".into())).ok().unwrap();
    taken.on_reply(Reply::Failure("belegt".into()));
    assert!(matches!(taken.step(), HotkeyStep::Refused(message) if message == "B: belegt"));

    let mut stuck = HotkeyChange::begin(&scenes(), 1, Some("B".into())).ok().unwrap();
    stuck.on_reply(Reply::Success);
    stuck.on_reply(Reply::Answer(true));
    stuck.on_reply(Reply::Failure("fest".into()));
    stuck.on_reply(Reply::Success);
    assert!(matches!(
        stuck.step(),
        HotkeyStep::Refused(message)
            if message == "Alter Hotkey A konnte nicht entfernt werden: fest"
    ));
}

#[test]
fn unchanged_hotkey_is_registered_again_only_where_it_was_lost() {
    let mut kept = HotkeyChange::begin(&scenes(), 1, Some("A".into())).ok().unwrap();
    assert!(matches!(kept.step(), HotkeyStep::IsRegistered(key) if key == "A"));
    kept.on_reply(Reply::Answer(true));
    assert!(matches!(kept.step(), HotkeyStep::Done));
    let mut lost = HotkeyChange::begin(&scenes(), 1, Some("A".into())).ok().unwrap();
    lost.on_reply(Reply::Answer(false));
    assert!(matches!(lost.step(), HotkeyStep::Register(key) if key == "A"));
    let none = HotkeyChange::begin(&scenes(), 2, None).ok().unwrap();
    assert!(matches!(none.step(), HotkeyStep::Done));
}

#[test]
fn refused_scene_removal_restores_the_hotkey() {
    let mut removal = SceneRemoval::begin(&scenes(), 1);
    assert!(matches!(removal.step(), HotkeyStep::IsRegistered(key) if key == "A"));
    removal.on_reply(Reply::Answer(true));
    assert!(matches!(removal.step(), HotkeyStep::Unregister(key) if key == "A"));
    removal.on_reply(Reply::Success);
    assert!(matches!(removal.step(), HotkeyStep::Store));
    removal.on_reply(Reply::Failure("nein".into()));
    assert!(matches!(removal.step(), HotkeyStep::Register(key) if key == "A"));
    removal.on_reply(Reply::Success);
    assert!(matches!(removal.step(), HotkeyStep::Refused(message) if message == "nein"));
    let unknown = SceneRemoval::begin(&scenes(), 9);
    assert!(matches!(unknown.step(), HotkeyStep::Store));
}

#[test]
fn watchdog_arguments_come_back() {
    let arguments = spawn_audio_watchdog(4711, "journal");
    assert_eq!(arguments.flag, "--audio-watchdog");
    assert_eq!(arguments.parent, "4711");
    assert!(matches!(
        startup_mode(Some(&arguments.flag), Some(&arguments.parent), Some(arguments.journal)),
        StartupMode::Watchdog { parent: 4711, journal: "journal" }
    ));
    assert!(matches!(
        startup_mode(Some("--audio-watchdog"), Some("x"), Some(1)),
        StartupMode::Nothing
    ));
    assert!(matches!(
        startup_mode(Some("--audio-watchdog"), Some("1"), None::<u8>),
        StartupMode::Nothing
    ));
    assert!(matches!(startup_mode(None, None, None::<u8>), StartupMode::Studio));
    assert!(matches!(startup_mode(Some("file"), None, None::<u8>), StartupMode::Studio));
    assert_eq!(
        run_audio_watchdog(true),
        vec![
            WatchdogStep::WaitForParent,
            WatchdogStep::CloseParent,
            WatchdogStep::RepairJournal
        ]
    );
    assert_eq!(run_audio_watchdog(false), vec![WatchdogStep::RepairJournal]);
}

#[test]
fn cleanup_happens_once() {
    let mut resources = RuntimeResources::new();
    resources.engine = true;
    resources.event_thread = true;
    resources.preview = true;
    let steps = resources.cleanup();
    assert_eq!(steps[0], CleanupStep::UnregisterHotkeys);
    assert!(steps.contains(&CleanupStep::ShutdownEngine));
    assert!(steps.contains(&CleanupStep::DestroyPreview));
    assert!(!steps.contains(&CleanupStep::RestoreVisibility));
    assert!(resources.cleanup().is_empty());
}

#[test]
fn chosen_paths_are_regular_unicode_files() {
    assert_eq!(chosen_file(true, Some("/a".into())).unwrap(), "/a");
    assert_eq!(
        chosen_file(false, Some("/a".into())).unwrap_err(),
        "Ausgewählter Pfad ist keine reguläre Datei"
    );
    assert_eq!(
        chosen_file(true, None).unwrap_err(),
        "Ausgewählter Pfad ist kein gültiger Unicode-Pfad"
    );
    assert!(is_rendered_window("program"));
    assert!(is_rendered_window("preview"));
    assert!(!is_rendered_window("settings"));
}

#[test]
fn hyprland_rules_keep_output_mapped_but_off_the_physical_desktop() {
    let source = hyprland_rule_source();
    assert!(source.contains("workspace = \"special:hooviestar-output silent\""));
    assert!(source.contains("title = \"^Hooviestar – Program$\""));
    assert!(source.contains("render_unfocused = true"));
    assert!(source.contains("no_initial_focus = true"));
}

#[test]
fn hyprland_cleanup_disables_both_runtime_rules() {
    let source = hyprland_cleanup_source();
    assert_eq!(source.matches(":set_enabled(false)").count(), 2);
    assert!(source.contains("_G.__hooviestar_program_rule = nil"));
    assert!(source.contains("_G.__hooviestar_preview_rule = nil"));
}

#[test]
fn hyprland_is_recognised_by_signature_and_desktop() {
    assert!(is_hyprland(true, Some("Hyprland")));
    assert!(is_hyprland(true, Some("wlroots:HYPRLAND")));
    assert!(!is_hyprland(true, Some("Hyprlander")));
    assert!(!is_hyprland(false, Some("Hyprland")));
    assert!(!is_hyprland(true, None));
}

#[test]
fn studio_restarts_itself_once_for_its_graphics() {
    let env = GraphicsEnvironment {
        hyprland: true,
        gdk_backend_is_x11: false,
        webkit_fallback_set: true,
        ready: false,
    };
    let restart = configure_graphics_backend(env).unwrap();
    assert!(restart.set_x11_backend && !restart.set_webkit_fallback);
    assert!(configure_graphics_backend(GraphicsEnvironment { ready: true, ..env }).is_none());
    assert!(configure_graphics_backend(GraphicsEnvironment { hyprland: false, ..env }).is_none());
    assert!(configure_graphics_backend(GraphicsEnvironment { gdk_backend_is_x11: true, ..env })
        .is_none());
}

#[test]
fn hyprctl_answers_are_judged() {
    assert!(hyprctl_result(true, " ok\n", "").is_ok());
    assert!(hyprctl_result(false, "ok", "kaputt").is_err());
    assert!(hyprctl_result(true, "nicht gut", "").unwrap_err().ends_with("nicht gut"));
}

#[test]
fn output_windows_are_kept_off_the_desktop() {
    let mut hypr = OutputVisibility::prepare(true, Ok(())).ok().unwrap();
    assert!(hypr.initially_visible());
    assert_eq!(hypr.show(false).unwrap(), ShowStep::Nothing);
    assert!(hypr.cleanup().is_some());
    assert!(hypr.cleanup().is_none());
    assert_eq!(OutputVisibility::prepare(true, Err("weg".into())).err().unwrap(), "weg");
    let mut x11 = OutputVisibility::prepare(false, Ok(())).ok().unwrap();
    assert!(!x11.initially_visible());
    assert_eq!(x11.show(true).unwrap(), ShowStep::PlaceAndShow { x: -32768, y: -32768 });
    assert!(x11.show(false).is_err());
    assert!(x11.cleanup().is_none());
    assert_eq!(show_failure("T", true, "e"), "T konnte nicht gestartet werden: e");
    assert_eq!(show_failure("T", false, "e"), "T konnte nicht offscreen platziert werden: e");
}

#[test]
fn surfaces_need_handles_of_one_window_system() {
    let sizes = OutputSizes {
        program_width: 1280,
        program_height: 720,
        preview_width: 0,
        preview_height: 540,
    };
    let surfaces = native_surfaces(
        RawHandle::XlibDisplay(Some(9)),
        RawHandle::XlibWindow(1),
        RawHandle::XlibWindow(2),
        RawHandle::XlibWindow(3),
        sizes,
    )
    .unwrap();
    assert_eq!(surfaces.kind, NativeSurfaceKind::Xlib);
    assert_eq!((surfaces.display, surfaces.studio), (9, 1));
    assert_eq!((surfaces.program, surfaces.preview), (2, 3));
    assert_eq!(surfaces.preview_width, 1);
    assert_eq!(
        native_surfaces(
            RawHandle::XlibDisplay(None),
            RawHandle::XlibWindow(1),
            RawHandle::XlibWindow(2),
            RawHandle::XlibWindow(3),
            sizes,
        )
        .unwrap_err(),
        "Xlib display handle is null"
    );
    let wayland = native_surfaces(
        RawHandle::WaylandDisplay(9),
        RawHandle::WaylandSurface(1),
        RawHandle::WaylandSurface(2),
        RawHandle::WaylandSurface(3),
        sizes,
    )
    .unwrap();
    assert_eq!(wayland.kind, NativeSurfaceKind::Wayland);
    assert_eq!(
        native_surfaces(
            RawHandle::WaylandDisplay(9),
            RawHandle::XlibWindow(1),
            RawHandle::WaylandSurface(2),
            RawHandle::WaylandSurface(3),
            sizes,
        )
        .unwrap_err(),
        "unsupported Linux native surface combination"
    );
}

#[test]
fn linux_preview_is_a_window_of_its_own() {
    assert_eq!(
        set_preview_bounds(1, 0, 0, 10, 10).unwrap_err(),
        "Linux verwendet ein separates natives Preview-Fenster"
    );
    assert!(set_preview_visible(1, true).is_ok());
    assert_eq!(
        enumeration_message(None),
        "Fenster und Monitore werden über das Desktop-Portal ausgewählt."
    );
    assert_eq!(
        enumeration_message(Some("weg")),
        "PipeWire-Audio nicht verfügbar: weg. Fenster und Monitore werden über das Desktop-Portal ausgewählt."
    );
}

#[test]
fn portal_streams_become_candidates() {
    let stream = |node: u32, source_type: Option<PortalSourceType>| PortalStreamInfo {
        pipewire_node_id: node,
        source_type,
        id: None,
        mapping_id: None,
        position: None,
        size: None,
    };
    let selection = PortalSelection {
        binding_id: 1,
        session: (),
        remote: Some(()),
        streams: vec![
            stream(5, Some(PortalSourceType::Window)),
            stream(6, Some(PortalSourceType::Monitor)),
        ],
    };
    let candidates = portal_candidates(&selection);
    assert_eq!(candidates.len(), 2);
    match &candidates[0] {
        SourceCandidate::Window { runtime_id, process_path, window_title, .. } => {
            assert!(runtime_id.starts_with("portal:window:"));
            assert_eq!(process_path, "portal:00000000-0000-0000-0000-000000000001");
            assert_eq!(window_title, "5");
        }
        SourceCandidate::Display { .. } => panic!("stream 5 is a window"),
    }
    match &candidates[1] {
        SourceCandidate::Display { runtime_id, adapter_luid, output_id, .. } => {
            assert!(runtime_id.starts_with("portal:display:"));
            assert_eq!(adapter_luid, "portal:00000000-0000-0000-0000-000000000001");
            assert_eq!(*output_id, 6);
        }
        SourceCandidate::Window { .. } => panic!("stream 6 is a display"),
    }
}

#[test]
fn portal_is_asked_for_windows_and_monitors() {
    let found = enumerate_sources(Ok(Ok(vec![1, 2]))).unwrap();
    assert_eq!(found.candidates, vec![1, 2]);
    assert!(found.portal_selection_required);
    assert_eq!(found.message.unwrap(), enumeration_message(None));
    let found = enumerate_sources::<u8>(Ok(Err("weg".into()))).unwrap();
    assert!(found.candidates.is_empty() && found.portal_selection_required);
    assert_eq!(found.message.unwrap(), enumeration_message(Some("weg")));
    assert_eq!(
        enumerate_sources::<u8>(Err("weg".into())).unwrap_err(),
        "enumerate_sources task failed: weg"
    );
}

#[test]
fn selection_is_refused_without_a_renderer() {
    let selection = || PortalSelection {
        binding_id: 1,
        session: (),
        remote: Some(7),
        streams: vec![PortalStreamInfo {
            pipewire_node_id: 5,
            source_type: Some(PortalSourceType::Window),
            id: Some("Editor".into()),
            mapping_id: None,
            position: None,
            size: None,
        }],
    };
    let mut link: PipeWirePortalLink<(), i32> = PipeWirePortalLink::new();
    let mut portal = PortalResources::new();
    assert_eq!(
        portal.on_selected(Ok(selection()), &mut link).unwrap_err(),
        "Linux-Renderer ist noch nicht initialisiert"
    );
    assert_eq!(link.generation(), 0);
    portal.set_link();
    assert_eq!(portal.on_selected(Err("abgelehnt".into()), &mut link).unwrap_err(), "abgelehnt");
    let found = portal.on_selected(Ok(selection()), &mut link).unwrap();
    assert_eq!(found.candidates.len(), 1);
    assert!(!found.portal_selection_required && found.message.is_none());
    assert_eq!((link.generation(), link.take_remote()), (1, Some(7)));
    portal.clear();
    assert!(portal.on_selected(Ok(selection()), &mut link).is_err());
}
