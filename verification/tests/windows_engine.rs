use hooviestar::engine_event::{DeviceRecoveryPhase, EngineEvent};
use hooviestar::id_map::IdMap;
use hooviestar::id_set::IdSet;
use hooviestar::project::{
    MediaSource, OutputConfig, Project, Scene, SceneItem, Source, TextAlign, TextSource,
};
use hooviestar::video::{media_control_bus, MediaControl};
use hooviestar::windows_caches::{
    fnv1a_utf8, format_weight, BitmapCache, BrushCache, D3d11Compositor, TextBuffers,
    TextFormatCache, SOURCE_BITMAP_CACHE_CAPACITY,
};
use hooviestar::windows_capture::{DisplayTables, WindowCapture, WindowTables, STALE_AGE_NS};
use hooviestar::windows_media::{audio_frames, AudioRefill, MediaVideoSource, ReadOutcome, ReadPlan};
use hooviestar::windows_pump::{visible_sources, MediaPump, Position, PumpStep};
use hooviestar::windows_render::{
    sign_style, startup_failed, MediaContextLog, PictureOrigin, RecoveryStep, WindowsRenderLoop,
    WindowsSources,
};
use hooviestar::windows_sync::{
    next_creation, on_created, retain_wanted, sync_passes, wanted, FailureKind, FailureLog,
    Loaded, SyncClock, SyncPass, SYNC_INTERVAL_NS,
};
use hooviestar::windows_video::{
    check_surfaces, check_target_window, image_layout, is_adapter, parse_hex_color, utf16,
    D3d11Device, DisplayCapture, MediaFoundationContext, SceneTextureDescriptor, StartupCleanup,
    WindowsVideoError,
};

fn item(source_id: u128, visible: bool) -> SceneItem {
    SceneItem { source_id, visible, panel_width: 10, panel_height: 10 }
}

fn project(sources: Vec<Source>, items: Vec<SceneItem>) -> Project {
    Project {
        active_scene_id: 1,
        scenes: vec![Scene { id: 1, items }],
        sources,
        output: output(1920, 1080),
    }
}

fn output(width: u32, height: u32) -> OutputConfig {
    OutputConfig { width, height, fps: 60, background: "#000000".into() }
}

fn media(restart_on_show: bool, looped: bool) -> MediaSource {
    MediaSource {
        id: 1,
        name: "Film".into(),
        path: "a.mp4".into(),
        looped,
        continue_when_hidden: false,
        restart_on_show,
    }
}

#[test]
fn windows_errors_have_their_messages() {
    assert_eq!(
        WindowsVideoError::SourceUnavailable("x".into()).message(),
        "source unavailable: x"
    );
    assert_eq!(
        WindowsVideoError::DeviceCreation("x".into()).message(),
        "D3D11 device creation failed: x"
    );
    assert_eq!(
        WindowsVideoError::InvalidSceneTexture.message(),
        "invalid Float16 scene texture descriptor"
    );
    assert_eq!(
        WindowsVideoError::CaptureApi("x".into()).message(),
        "Windows Graphics Capture failed: x"
    );
    assert_eq!(WindowsVideoError::SwapChain("x".into()).message(), "DXGI swapchain failed: x");
    assert_eq!(
        WindowsVideoError::UnsupportedImage("x".into()).message(),
        "unsupported image: x"
    );
    assert_eq!(
        WindowsVideoError::UnsupportedMedia("x".into()).message(),
        "unsupported media: x"
    );
}

#[test]
fn devices_and_surfaces_are_checked() {
    assert!(SceneTextureDescriptor::float16(1, 1).check().is_ok());
    assert!(SceneTextureDescriptor::float16(0, 1).check().is_err());
    assert!(D3d11Device::from_parts(Some(1), Ok(()), Some(2), 3).is_ok());
    let missing = D3d11Device::from_parts(None::<u8>, Ok(()), Some(2), 3).err().unwrap();
    assert_eq!(missing.message(), "D3D11 device creation failed: D3D11 returned no device");
    let foreign = D3d11Device::from_parts(Some(1), Err("weg".into()), Some(2), 3).err().unwrap();
    assert_eq!(foreign.message(), "D3D11 device creation failed: weg");
    let idle = D3d11Device::from_parts(Some(1), Ok(()), None::<u8>, 3).err().unwrap();
    assert!(idle.message().ends_with("D3D11 returned no immediate context"));
    assert_eq!(image_layout(10, 20).unwrap(), (40, 800));
    assert!(image_layout(u32::MAX, 1).unwrap_err().message().ends_with("image stride overflow"));
    assert!(image_layout(65536, 65536).unwrap_err().message().ends_with("image size overflow"));
    assert!(check_target_window(1).is_ok());
    assert!(check_target_window(0).is_err());
    assert!(check_surfaces(1, 2).is_ok());
    assert!(check_surfaces(1, 0).is_err());
}

#[test]
fn displays_are_found_on_their_adapter() {
    assert!(is_adapter(1, 0xabc, "00000001:00000abc"));
    assert!(!is_adapter(1, 0xabc, "00000001:00000abd"));
    type Capture = DisplayCapture<u8, u8>;
    assert!(Capture::check_adapter(1, 0xabc, "00000001:00000abc").is_ok());
    assert!(Capture::check_adapter(2, 0xabc, "00000001:00000abc").is_err());
    assert!(Capture::needs_texture(None, 1, 1));
    assert!(!Capture::needs_texture(Some((1, 1)), 1, 1));
    assert!(Capture::needs_texture(Some((1, 2)), 1, 1));
    assert!(Capture::new(1).texture().is_none());
    assert!(matches!(Capture::acquired(Ok(()), Ok(())), Ok(true)));
    let failed = Capture::acquired(
        Err(WindowsVideoError::CaptureApi("kopie".into())),
        Err(WindowsVideoError::CaptureApi("frei".into())),
    );
    assert!(failed.unwrap_err().message().ends_with("kopie"));
}

#[test]
fn media_foundation_is_shut_down_where_its_setup_fails() {
    let (made, cleanup) = MediaFoundationContext::from_setup(Ok(Some(1)), Ok(()));
    assert!(made.is_ok());
    assert_eq!(cleanup, StartupCleanup::KeepRunning);
    let (none, cleanup) = MediaFoundationContext::from_setup(Ok(None::<u8>), Ok(()));
    assert!(none.is_err());
    assert_eq!(cleanup, StartupCleanup::Shutdown);
    let (reset, cleanup) = MediaFoundationContext::from_setup(Ok(Some(1)), Err("weg".into()));
    assert!(reset.is_err());
    assert_eq!(cleanup, StartupCleanup::Shutdown);
}

#[test]
fn colours_and_texts_are_read() {
    assert_eq!(parse_hex_color("#102030"), [16, 32, 48, 255]);
    assert_eq!(parse_hex_color("#10203040"), [0, 0, 0, 255]);
    assert_eq!(parse_hex_color("nope"), [0, 0, 0, 255]);
    assert_eq!(utf16("aé"), vec![0x61, 0xe9]);
    assert_eq!(utf16("😀"), vec![0xd83d, 0xde00]);
}

#[test]
fn least_recently_used_bitmap_gives_way() {
    let mut cache = BitmapCache::new();
    for texture in 0..SOURCE_BITMAP_CACHE_CAPACITY {
        assert!(!cache.search(texture));
        cache.store(texture, texture);
    }
    assert!(cache.search(0));
    assert!(!cache.search(1000));
    cache.store(1000, 1000);
    assert_eq!(cache.bitmap(0), Some(&0));
    assert_eq!(cache.bitmap(1), None);
    assert_eq!(cache.bitmap(1000), Some(&1000));
}

#[test]
fn text_resources_are_cached_by_their_contents() {
    assert_eq!(fnv1a_utf8(""), 0xcbf2_9ce4_8422_2325);
    assert_eq!(fnv1a_utf8("a"), 0xaf63_dc4c_8601_ec8c);
    let mut formats = TextFormatCache::new();
    formats.store("Sans", 1, 400, TextAlign::Left, 7);
    assert_eq!(formats.find("Sans", 1, 400, TextAlign::Left), Some(&7));
    assert_eq!(formats.find("Serif", 1, 400, TextAlign::Left), None);
    assert_eq!(formats.find("Sans", 1, 400, TextAlign::Right), None);
    assert_eq!(format_weight(400), 400);
    let mut brushes = BrushCache::new();
    brushes.store("#fff", 3);
    assert_eq!(brushes.find("#fff"), Some(&3));
    assert_eq!(brushes.find("#000"), None);
    let mut buffers = TextBuffers::new();
    buffers.note("a");
    buffers.note("b");
    assert_eq!(buffers.buffer("a"), Some(&vec![0x61]));
    buffers.end_frame();
    buffers.note("b");
    buffers.end_frame();
    assert!(buffers.buffer("a").is_none());
    assert!(buffers.buffer("b").is_some());
    let compositor: D3d11Compositor<u8, u8, u8> = D3d11Compositor::new();
    assert!(compositor.brushes.find("#fff").is_none());
}

#[test]
fn repeated_failure_is_silent() {
    let mut log = FailureLog::new();
    assert!(log.should_report_failure(1, FailureKind::Image, "weg"));
    assert!(!log.should_report_failure(1, FailureKind::Image, "weg"));
    assert!(log.should_report_failure(1, FailureKind::Image, "anders"));
    assert!(log.should_report_failure(1, FailureKind::Window, "weg"));
    log.forget(1, FailureKind::Image);
    assert!(log.should_report_failure(1, FailureKind::Image, "anders"));
    log.clear();
    assert!(log.should_report_failure(1, FailureKind::Image, "anders"));
}

#[test]
fn sync_passes_take_turns() {
    assert_eq!(sync_passes(0)[0], SyncPass::Window);
    assert_eq!(sync_passes(1)[0], SyncPass::Display);
    assert_eq!(sync_passes(6)[0], SyncPass::Images);
    assert_eq!(sync_passes(7)[3], SyncPass::Images);
    let mut clock = SyncClock::new();
    assert!(clock.due(0));
    assert_eq!(clock.begin()[0], SyncPass::Window);
    clock.done(5);
    assert!(!clock.due(4 + SYNC_INTERVAL_NS));
    assert!(clock.due(5 + SYNC_INTERVAL_NS));
    assert_eq!(clock.begin()[0], SyncPass::Display);
    clock.done(5);
    clock.force();
    assert!(clock.due(5));
}

#[test]
fn sources_are_created_kept_and_dropped() {
    let sources = vec![
        Source::Image { id: 1, name: "A".into(), path: "a.png".into() },
        Source::Image { id: 2, name: "B".into(), path: "b.png".into() },
        Source::Window {
            id: 3,
            name: "W".into(),
            process_path: "p".into(),
            window_title: "t".into(),
        },
    ];
    let images = wanted(&sources, SyncPass::Images);
    assert_eq!(images.keys(), vec![1, 2]);
    assert_eq!(wanted(&sources, SyncPass::Window).keys(), vec![3]);
    let mut table: IdMap<Loaded<u8>> = IdMap::new();
    let mut failures = FailureLog::new();
    let mut events = Vec::new();
    let mut creations: u32 = 0;
    assert_eq!(next_creation(&table, &images, creations, 0), Some(1));
    on_created(
        &mut table,
        SyncPass::Images,
        1,
        Some("a.png".into()),
        Ok(9),
        &mut creations,
        &mut failures,
        &mut events,
    );
    assert!(table.contains(1));
    assert_eq!(creations, 1);
    on_created(
        &mut table,
        SyncPass::Images,
        2,
        Some("b.png".into()),
        Err("weg".into()),
        &mut creations,
        &mut failures,
        &mut events,
    );
    assert!(!table.contains(2));
    assert!(matches!(
        events.last(),
        Some(EngineEvent::SourceUnavailable { source_id: 2, .. })
    ));
    let told = events.len();
    on_created(
        &mut table,
        SyncPass::Images,
        2,
        Some("b.png".into()),
        Err("weg".into()),
        &mut creations,
        &mut failures,
        &mut events,
    );
    assert_eq!(events.len(), told);
    let renamed = vec![Source::Image { id: 1, name: "A".into(), path: "c.png".into() }];
    assert_eq!(next_creation(&table, &wanted(&renamed, SyncPass::Images), 0, 7), Some(1));
    retain_wanted(&mut table, &wanted(&Vec::new(), SyncPass::Images));
    assert!(table.keys().is_empty());
}

#[test]
fn still_window_stays_and_a_gone_one_is_reported_once() {
    let shown = project(Vec::new(), vec![item(1, true)]);
    let mut tables: WindowTables<u8> = WindowTables::new();
    let mut events = Vec::new();
    assert!(WindowCapture::<u8>::check_window(0).is_err());
    assert!(WindowCapture::<u8>::start(0, 1, 0).is_err());
    let capture = WindowCapture::start(10, 10, 0).unwrap_or_else(|_| panic!("has an area"));
    assert!(capture.needs_pool(10, 11) && !capture.needs_pool(10, 10));
    tables.captures.insert(1, Loaded { path: None, value: capture });
    tables.captures.get_mut(1).unwrap().value.on_frame(7, 10);
    tables.pump_window_frames(&shown, 10, &mut events);
    assert_eq!(tables.frames.get(1), Some(&7));
    tables.pump_window_frames(&shown, 10 + 2 * STALE_AGE_NS, &mut events);
    assert_eq!(tables.frames.get(1), Some(&7));
    assert!(events.is_empty());
    tables.captures.get_mut(1).unwrap().value.on_closed();
    tables.pump_window_frames(&shown, 10 + 2 * STALE_AGE_NS, &mut events);
    tables.pump_window_frames(&shown, 10 + 3 * STALE_AGE_NS, &mut events);
    assert_eq!(tables.frames.get(1), None);
    assert_eq!(events.len(), 1);
    assert!(matches!(
        &events[0],
        EngineEvent::SourceUnavailable { source_id: 1, reason }
            if reason == "Fenster wurde geschlossen"
    ));
    tables.captures.get_mut(1).unwrap().value.on_frame(8, 9);
    tables.pump_window_frames(&shown, 11, &mut events);
    assert!(matches!(events[1], EngineEvent::SourceAvailable { source_id: 1 }));
}

#[test]
fn silent_window_has_time_before_its_first_frame() {
    let capture: WindowCapture<u8> =
        WindowCapture::start(10, 10, 0).unwrap_or_else(|_| panic!("has an area"));
    assert!(!capture.is_stale(STALE_AGE_NS, 4 * STALE_AGE_NS));
    assert!(capture.is_stale(STALE_AGE_NS, 4 * STALE_AGE_NS + 1));
    assert!(!capture.has_delivered() && !capture.is_closed());
}

#[test]
fn display_failures_are_reported() {
    let mut tables: DisplayTables<u8> = DisplayTables::new();
    let mut events = Vec::new();
    tables.captures.insert(1, Loaded { path: None, value: 1 });
    tables.on_acquired(1, Ok(true), &mut events);
    tables.on_acquired(1, Ok(true), &mut events);
    assert!(matches!(events[0], EngineEvent::SourceAvailable { source_id: 1 }));
    assert_eq!(events.len(), 1);
    tables.on_acquired(1, Err("weg".into()), &mut events);
    assert!(matches!(events[1], EngineEvent::SourceUnavailable { source_id: 1, .. }));
    assert!(!tables.captures.contains(1));
}

#[test]
fn media_clock_runs_pauses_and_seeks() {
    let mut film: MediaVideoSource<u8> =
        MediaVideoSource::open(true, false, 0).unwrap_or_else(|_| panic!("has a stream"));
    assert!(MediaVideoSource::<u8>::open(false, false, 0).is_err());
    assert_eq!(film.plan_read(0), ReadPlan::Read { video: true, audio: false });
    assert!(film.clock_fits(1_000));
    film.set_paused(false, 0);
    assert_eq!(film.media_clock_100ns(1_000), 10);
    film.set_paused(true, 1_000);
    assert_eq!(film.media_clock_100ns(9_000), 10);
    film.on_video(Some((5, 2_000_000)));
    assert!(film.decoded_video());
    assert_eq!(film.texture(), Some(&5));
    assert_eq!(film.timestamp_100ns(), 2_000_000);
    assert!(!film.video_due(9_000));
    assert_eq!(film.read_outcome(false), ReadOutcome::Paced);
    assert_eq!(film.read_outcome(true), ReadOutcome::Advanced);
    film.seek(2_000_000, 9_000);
    assert!(film.video_due(9_000));
    film.on_video(None);
    assert!(film.streams_ended());
    assert_eq!(film.plan_read(9_000), ReadPlan::Ended);
    assert_eq!(film.read_outcome(false), ReadOutcome::Eof);
    film.seek(0, 9_000);
    assert!(!film.streams_ended());
}

#[test]
fn audio_is_refilled_until_enough_or_idle() {
    assert_eq!(audio_frames(false, 64), 0);
    assert_eq!(audio_frames(true, 64), 8);
    let mut refill = AudioRefill::new();
    assert!(refill.wants_more(0));
    assert!(!refill.wants_more(9600));
    for _ in 0..4 {
        refill.on_probe(Some(0));
    }
    assert!(!refill.wants_more(0));
    assert!(!refill.advanced);
    let mut ended = AudioRefill::new();
    ended.on_probe(Some(5));
    ended.on_probe(None);
    assert!(ended.advanced && ended.ended && !ended.wants_more(0));
}

const START: Position = Position { bits: 0, stepped: false };

#[test]
fn ended_file_waits_for_a_new_wish() {
    let mut pump = MediaPump::new();
    let mut bus = media_control_bus();
    let mut failures = FailureLog::new();
    let mut events = Vec::new();
    let film = media(false, false);
    let (turn, step) = pump.begin(&film, true, &mut bus);
    assert_eq!(step, PumpStep::Read);
    let end = Position { bits: 9, stepped: true };
    pump.after_read(turn, Ok(ReadOutcome::Eof), end, &mut bus, &mut failures, &mut events);
    assert!(!bus.read(1).playing);
    assert!(matches!(
        events[0],
        EngineEvent::MediaState { source_id: 1, state } if !state.playing
    ));
    let (_, step) = pump.begin(&film, true, &mut bus);
    assert!(matches!(step, PumpStep::Hold { .. }));
    bus.controls.insert(1, MediaControl { playing: true, seek_seconds: None, epoch: 1 });
    let (turn, step) = pump.begin(&film, true, &mut bus);
    assert_eq!(step, PumpStep::SeekForReplay);
    assert_eq!(
        pump.after_replay(turn, Ok(()), &mut bus, &mut failures, &mut events),
        PumpStep::Read
    );
}

#[test]
fn pump_restarts_seeks_and_loops() {
    let mut pump = MediaPump::new();
    let mut bus = media_control_bus();
    let mut failures = FailureLog::new();
    let mut events = Vec::new();
    let film = media(true, true);
    bus.controls.insert(1, MediaControl { playing: true, seek_seconds: Some(4), epoch: 0 });
    let (turn, step) = pump.begin(&film, true, &mut bus);
    assert_eq!(step, PumpStep::SeekForRestart);
    let step = pump.after_restart(turn, true, &mut bus, &mut failures);
    assert_eq!(step, PumpStep::SeekTo(4));
    assert_eq!(bus.take_recorded_seek(1), None);
    assert_eq!(
        pump.after_seek(turn, Ok(()), &mut failures, &mut events),
        PumpStep::Read
    );
    let step = pump.after_read(
        turn, Ok(ReadOutcome::Eof), START, &mut bus, &mut failures, &mut events,
    );
    assert_eq!(step, PumpStep::SeekForLoop);
    pump.after_loop_seek(turn, true, START, &mut bus, &mut events);
    assert!(bus.read(1).playing);
    let mut seen = IdSet::new();
    seen.insert(1);
    pump.finish(seen);
    let (_, step) = pump.begin(&film, true, &mut bus);
    assert_eq!(step, PumpStep::Read);
    let (_, step) = pump.begin(&film, false, &mut bus);
    assert!(matches!(step, PumpStep::Hold { .. }));
    pump.forget_device();
}

#[test]
fn failed_read_rests_one_round() {
    let mut pump = MediaPump::new();
    let mut bus = media_control_bus();
    let mut failures = FailureLog::new();
    let mut events = Vec::new();
    let film = media(false, false);
    let (turn, _) = pump.begin(&film, true, &mut bus);
    pump.after_read(turn, Err("weg".into()), START, &mut bus, &mut failures, &mut events);
    assert_eq!(events.len(), 1);
    let (_, step) = pump.begin(&film, true, &mut bus);
    assert_ne!(step, PumpStep::Read);
    let (turn, step) = pump.begin(&film, true, &mut bus);
    assert_eq!(step, PumpStep::Read);
    pump.after_read(turn, Err("weg".into()), START, &mut bus, &mut failures, &mut events);
    assert_eq!(events.len(), 1);
}

#[test]
fn same_media_state_is_silent() {
    let mut pump = MediaPump::new();
    let mut events = Vec::new();
    pump.send_media_state(1, true, Position { bits: 5, stepped: false }, &mut events);
    pump.send_media_state(1, true, Position { bits: 6, stepped: false }, &mut events);
    assert_eq!(events.len(), 1);
    pump.send_media_state(1, true, Position { bits: 7, stepped: true }, &mut events);
    pump.send_media_state(1, false, Position { bits: 7, stepped: false }, &mut events);
    assert_eq!(events.len(), 3);
    assert_eq!(pump.last_position(1), Some(7));
    let shown = visible_sources(&project(Vec::new(), vec![item(1, true), item(2, false)]));
    assert!(shown.contains(1) && !shown.contains(2));
}

#[test]
fn frame_plan_shows_pictures_texts_and_signs() {
    let mut sources: WindowsSources<u8, u8, u8> = WindowsSources::new();
    sources.windows.frames.insert(1, 7);
    sources.images.insert(2, Loaded { path: Some("a".into()), value: 3 });
    let text = Source::Text(TextSource {
        id: 3,
        name: "Titel".into(),
        text: "Hallo".into(),
        font_family: "Sans".into(),
        font_size_bits: 0,
        font_weight: 400,
        color: "#ffffff".into(),
        background_color: String::new(),
        align: TextAlign::Left,
    });
    let offline = Source::Image { id: 4, name: "Bild".into(), path: "b".into() };
    let shown = project(
        vec![text, offline],
        vec![item(1, true), item(2, true), item(3, true), item(4, true), item(1, false)],
    );
    assert_eq!(sources.picture(1), Some(PictureOrigin::Window));
    assert_eq!(sources.picture(2), Some(PictureOrigin::Image));
    assert_eq!(sources.picture(4), None);
    assert!(sources.present(2) && !sources.present(4));
    let (pictures, texts, signs) = sources.plan_frame(&shown);
    assert_eq!(pictures.len(), 2);
    assert_eq!((pictures[1].item, pictures[1].origin), (1, PictureOrigin::Image));
    assert_eq!((texts[0].item, texts[0].source), (2, 0));
    assert_eq!(signs.len(), 1);
    assert_eq!(signs[0].item, 3);
    assert_eq!(signs[0].text, "Quelle nicht verfügbar: Bild");
    sources.clear_device_tied_state();
    assert!(!sources.present(1) && !sources.present(2));
}

#[test]
fn flapping_device_ends_the_windows_loop() {
    let mut rounds = WindowsRenderLoop::new(&output(1920, 1080), 0);
    let mut events = Vec::new();
    rounds.on_render_error("weg", &mut events);
    assert_eq!(rounds.on_recreated(Ok(()), &mut events), RecoveryStep::Continue);
    for _ in 0..60 {
        rounds.on_frame_rendered();
    }
    assert_eq!(rounds.recovery.streak, 0);
    for streak in 1..8 {
        rounds.on_render_error("weg", &mut events);
        let step = rounds.on_recreated(Ok(()), &mut events);
        if streak == 1 {
            assert_eq!(step, RecoveryStep::Continue);
        } else {
            assert!(matches!(step, RecoveryStep::Wait(_)));
        }
    }
    rounds.on_render_error("weg", &mut events);
    assert!(matches!(
        rounds.on_recreated(Ok(()), &mut events),
        RecoveryStep::WaitAndGiveUp(1600)
    ));
    assert_eq!(rounds.on_recreated(Err("weg".into()), &mut events), RecoveryStep::GiveUp);
    events.clear();
    rounds.report_unstable(&mut events);
    assert!(matches!(
        &events[0],
        EngineEvent::DeviceRecovery { phase: DeviceRecoveryPhase::Failed, detail: Some(_) }
    ));
}

#[test]
fn failed_size_is_tried_again_later() {
    let mut rounds = WindowsRenderLoop::new(&output(1920, 1080), 0);
    let mut events = Vec::new();
    let next = output(1280, 720);
    assert!(!rounds.begin_resize(&output(1920, 1080), 0, &mut events));
    assert!(rounds.begin_resize(&next, 0, &mut events));
    rounds.on_resized(&next, Err("weg".into()), 0, &mut events);
    assert!(!rounds.begin_resize(&next, 199_999_999, &mut events));
    assert!(rounds.begin_resize(&next, 200_000_000, &mut events));
    rounds.on_resized(&next, Ok(()), 200_000_000, &mut events);
    assert_eq!(rounds.output.width, 1280);
    assert!(!rounds.begin_resize(&next, 200_000_000, &mut events));
    assert_eq!(rounds.pace(10, 0), 10);
    assert_eq!(rounds.pace(10, 500), 0);
}

#[test]
fn windows_start_failures_are_told() {
    let mut events = Vec::new();
    let error = startup_failed("weg".into(), &mut events);
    assert!(error.message().ends_with("weg"));
    assert_eq!(events.len(), 1);
    let mut log = MediaContextLog { last_error: None };
    assert!(log.on_start(Err("weg".into())));
    assert!(!log.on_start(Err("weg".into())));
    assert!(log.on_start(Err("anders".into())));
    assert!(!log.on_start(Ok(())));
}

#[test]
fn failed_pool_change_is_tried_again() {
    let mut capture: WindowCapture<u8> =
        WindowCapture::start(10, 10, 0).unwrap_or_else(|_| panic!("has an area"));
    capture.recreate_pool(20, 30, false);
    assert!(capture.needs_pool(20, 30));
    capture.recreate_pool(20, 30, true);
    assert!(!capture.needs_pool(20, 30) && capture.needs_pool(10, 10));
}

#[test]
fn sound_file_ends_with_its_audio() {
    let mut sound: MediaVideoSource<u8> =
        MediaVideoSource::open(false, true, 0).unwrap_or_else(|_| panic!("has a stream"));
    assert_eq!(sound.read_outcome(false), ReadOutcome::Paced);
    sound.on_audio_end();
    assert!(sound.streams_ended());
    assert_eq!(sound.read_outcome(false), ReadOutcome::Eof);
    assert_eq!(sound.read_outcome(true), ReadOutcome::Advanced);
    sound.seek(0, 0);
    assert!(!sound.streams_ended());
}

#[test]
fn held_file_reports_only_where_it_is_asked_to() {
    let mut pump = MediaPump::new();
    let mut bus = media_control_bus();
    let mut events = Vec::new();
    let (turn, _) = pump.begin(&media(false, false), true, &mut bus);
    pump.after_hold(turn, false, START, &mut events);
    assert!(events.is_empty());
    pump.after_hold(turn, true, START, &mut events);
    assert!(matches!(
        events[0],
        EngineEvent::MediaState { source_id: 1, state } if !state.playing
    ));
}

#[test]
fn failing_source_does_not_keep_the_others_waiting() {
    let sources = vec![
        Source::Image { id: 1, name: "A".into(), path: "a.png".into() },
        Source::Image { id: 2, name: "B".into(), path: "b.png".into() },
        Source::Image { id: 3, name: "C".into(), path: "c.png".into() },
    ];
    let images = wanted(&sources, SyncPass::Images);
    let table: IdMap<Loaded<u8>> = IdMap::new();
    assert_eq!(next_creation(&table, &images, 0, 3), Some(1));
    assert_eq!(next_creation(&table, &images, 0, 4), Some(2));
    assert_eq!(next_creation(&table, &images, 0, 11), Some(3));
    assert_eq!(next_creation(&table, &images, 0, 12), Some(1));
    assert_eq!(next_creation(&table, &images, 1, 12), None);
    let mut open: IdMap<Loaded<u8>> = IdMap::new();
    open.insert(3, Loaded { path: Some("c.png".into()), value: 0 });
    assert_eq!(next_creation(&open, &images, 0, 8), Some(1));
}

#[test]
fn unfinished_frame_leaves_no_texts_behind() {
    let mut buffers = TextBuffers::new();
    buffers.begin_frame();
    buffers.note("a");
    buffers.begin_frame();
    buffers.note("b");
    assert!(buffers.buffer("a").is_some());
    buffers.end_frame();
    assert!(buffers.buffer("a").is_none());
    assert!(buffers.buffer("b").is_some());
}

#[test]
fn signs_are_written_in_one_style() {
    let style = sign_style();
    assert_eq!(style.font_family, "Segoe UI");
    assert_eq!(f32::from_bits(style.font_size_bits), 28.0);
    assert_eq!(style.font_weight, 600);
    assert_eq!((style.color.as_str(), style.background_color.as_str()), ("#ffffff", "#202736"));
    assert_eq!(style.align, TextAlign::Center);
}
