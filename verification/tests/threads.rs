use hooviestar::engine_event::{DeviceRecoveryPhase, EngineEvent};
use hooviestar::id_map::IdMap;
use hooviestar::linux::{CapturedFrame, FrameMemory, SendBufferToken};
use hooviestar::portal_captures::CaptureTables;
use hooviestar::project::{OutputConfig, Project, Scene};
use hooviestar::render_loop::{Extent, NativeSurfaceKind, NativeSurfaces, RenderFailure};
use hooviestar::render_runtime::{finish, EndStep, Ready, RenderRounds, RenderRuntime, RoundStep};
use hooviestar::windows_runtime::{on_ready, WindowsReady, WindowsRounds, WindowsStep};
use hooviestar::windows_sync::{Loaded, SyncPass};

const SURFACES: NativeSurfaces = NativeSurfaces {
    kind: NativeSurfaceKind::Xlib,
    studio: 1,
    display: 2,
    program: 3,
    preview: 4,
    program_width: 1280,
    program_height: 720,
    preview_width: 960,
    preview_height: 540,
};

const OUTPUT: Extent = Extent { width: 1920, height: 1080 };
const PROGRAM: Extent = Extent { width: 1280, height: 720 };
const PREVIEW: Extent = Extent { width: 960, height: 540 };

#[test]
fn render_thread_is_joined_once() {
    let mut runtime = RenderRuntime::start(Ready::Started, 7).ok().unwrap();
    assert!(!runtime.stop);
    assert_eq!(runtime.shutdown(), Some(7));
    assert!(runtime.stop);
    assert_eq!(runtime.shutdown(), None);
    let refused = RenderRuntime::start(Ready::Refused("weg".into()), 7).err().unwrap();
    assert_eq!((refused.thread, refused.message.as_str()), (7, "weg"));
    let silent = RenderRuntime::start(Ready::Silent("zu spät".into()), 7).err().unwrap();
    assert_eq!(
        silent.message,
        "Zeitüberschreitung beim Vulkan-Renderer-Start: zu spät"
    );
}

fn to_render(thread: &mut RenderRounds, events: &mut Vec<EngineEvent>) {
    thread.begin(false);
    assert_eq!(thread.step, RoundStep::ReconcileMedia);
    thread.done();
    thread.compare_sizes(OUTPUT, PROGRAM, PREVIEW, SURFACES, events);
    assert_eq!(thread.step, RoundStep::CompareSelection);
    thread.compare_selection(false);
    assert_eq!(thread.step, RoundStep::ReconcileCaptures);
    thread.done();
    assert_eq!(thread.step, RoundStep::TakeMessages);
    thread.done();
    assert_eq!(thread.step, RoundStep::ExpireCaptures);
    thread.done();
    assert_eq!(thread.step, RoundStep::Render);
}

#[test]
fn calm_round_renders_and_paces() {
    let mut thread = RenderRounds::new(OUTPUT, 0);
    let mut events = Vec::new();
    to_render(&mut thread, &mut events);
    thread.on_rendered(Ok(()), &mut events);
    assert_eq!(thread.step, RoundStep::Pace);
    assert_eq!(thread.pace(16_000_000, 6_000_000), 10_000_000);
    assert_eq!(thread.step, RoundStep::Begin);
    assert!(events.is_empty());
    thread.begin(true);
    assert_eq!(thread.step, RoundStep::End);
}

#[test]
fn resized_surface_is_rebuilt_before_the_captures() {
    let mut thread = RenderRounds::new(OUTPUT, 0);
    let mut events = Vec::new();
    thread.begin(false);
    thread.done();
    thread.compare_sizes(PROGRAM, PROGRAM, PREVIEW, SURFACES, &mut events);
    assert_eq!(thread.step, RoundStep::Resize);
    thread.on_resized(Ok(()), PROGRAM, &mut events);
    assert_eq!(thread.step, RoundStep::CompareSelection);
    thread.compare_selection(true);
    assert_eq!(thread.step, RoundStep::RestartCapture);
    thread.on_capture_restarted(Err("weg".into()), &mut events);
    assert_eq!(thread.step, RoundStep::WaitThenRestartCapture);
    assert_eq!(thread.backoff(), 200);
    thread.done();
    thread.on_capture_restarted(Ok(()), &mut events);
    assert_eq!(thread.step, RoundStep::ReconcileCaptures);
    assert_eq!(events.len(), 3);
}

#[test]
fn lost_device_is_rebuilt_until_the_budget_is_used() {
    let mut thread = RenderRounds::new(OUTPUT, 0);
    let mut events = Vec::new();
    to_render(&mut thread, &mut events);
    let lost = RenderFailure::Device { swapchain_scoped: true, name: "X".into() };
    thread.on_rendered(Err(lost), &mut events);
    assert_eq!(thread.step, RoundStep::RecreateSwapchains);
    thread.on_swapchains_recreated(false, &mut events);
    assert_eq!(thread.step, RoundStep::RecreateDevice);
    thread.on_device_recreated(Err("weg".into()), &mut events);
    assert_eq!(thread.step, RoundStep::WaitThenPace);
    thread.done();
    thread.pace(1, 0);
    for failure in 2..=8 {
        thread.begin(false);
        assert_eq!(thread.step, RoundStep::BuildDevice);
        thread.on_device_built(Err("weg".into()), OUTPUT, &mut events);
        if failure < 8 {
            assert_eq!(thread.step, RoundStep::WaitThenBegin);
            thread.done();
        }
    }
    assert_eq!(thread.step, RoundStep::End);
    assert!(matches!(events.last(), Some(EngineEvent::EngineError { .. })));
}

#[test]
fn end_returns_every_buffer_before_the_capture_stops() {
    let mut captures: CaptureTables<u8> = CaptureTables::new();
    captures.frames.insert(
        5,
        CapturedFrame {
            source_id: 5,
            sequence: 0,
            timestamp_ns: 0,
            width: 1,
            height: 1,
            drm_format: 0,
            modifier: 0,
            memory: FrameMemory::DmaBuf { planes: Vec::new() },
            buffer_token: SendBufferToken(50),
        },
    );
    let mut media: IdMap<u8> = IdMap::new();
    media.insert(4, 0);
    let steps = finish(true, &mut media, &mut captures);
    assert_eq!(
        steps,
        vec![
            EndStep::RemoveTexture(4),
            EndStep::ShutdownMedia,
            EndStep::RemoveTexture(5),
            EndStep::Return { source_id: 5, token: SendBufferToken(50) },
            EndStep::ShutdownCapture
        ]
    );
    assert_eq!(
        finish(false, &mut media, &mut captures),
        vec![EndStep::ShutdownMedia, EndStep::ShutdownCapture]
    );
}

fn output(width: u32) -> OutputConfig {
    OutputConfig { width, height: 1080, fps: 60, background: "#000000".into() }
}

fn project() -> Project {
    Project {
        active_scene_id: 1,
        scenes: vec![Scene { id: 1, items: Vec::new() }],
        sources: Vec::new(),
        output: output(1920),
    }
}

type Rounds = WindowsRounds<u8, u8, u8>;

fn windows_to_render(thread: &mut Rounds, now: u64, events: &mut Vec<EngineEvent>) {
    thread.begin(false, &output(1920), now, events);
    assert_eq!(thread.step, WindowsStep::CompareClock);
    thread.compare_clock(now);
    if thread.step == WindowsStep::Synchronize {
        thread.passes();
        thread.on_synchronized(now);
    }
    assert_eq!(thread.step, WindowsStep::PumpWindows);
    thread.pump_windows(&project(), now, events);
    thread.on_displays_pumped();
    thread.on_media_pumped();
    assert_eq!(thread.step, WindowsStep::Render);
}

#[test]
fn windows_round_synchronises_once_a_second() {
    let mut thread: Rounds = WindowsRounds::new(&output(1920), true, 0);
    let mut events = Vec::new();
    thread.begin(false, &output(1920), 0, &mut events);
    thread.compare_clock(0);
    assert_eq!(thread.step, WindowsStep::Synchronize);
    assert_eq!(thread.passes()[0], SyncPass::Window);
    thread.on_synchronized(0);
    thread.pump_windows(&project(), 0, &mut events);
    thread.on_displays_pumped();
    thread.on_media_pumped();
    thread.on_rendered(Ok(()), &mut events);
    assert_eq!(thread.step, WindowsStep::Pace);
    assert_eq!(thread.pace(16, 6), 10);
    thread.begin(false, &output(1920), 6, &mut events);
    thread.compare_clock(6);
    assert_eq!(thread.step, WindowsStep::PumpWindows);
    assert!(events.is_empty());
}

#[test]
fn lost_windows_device_shows_nothing_until_it_is_back() {
    let mut thread: Rounds = WindowsRounds::new(&output(1920), true, 0);
    let mut events = Vec::new();
    windows_to_render(&mut thread, 0, &mut events);
    thread.sources.images.insert(9, Loaded { path: None, value: 1 });
    thread.on_rendered(Err("weg".into()), &mut events);
    assert_eq!(thread.step, WindowsStep::Recreate);
    assert!(!thread.sources.present(9) && !thread.media_ready);
    thread.on_recreated(Ok(true), &mut events);
    assert_eq!(thread.step, WindowsStep::Begin);
    assert!(thread.media_ready);
    thread.begin(false, &output(1920), 1, &mut events);
    thread.compare_clock(1);
    assert_eq!(thread.step, WindowsStep::Synchronize);
}

#[test]
fn unstable_windows_device_ends_the_thread() {
    let mut thread: Rounds = WindowsRounds::new(&output(1920), true, 0);
    let mut events = Vec::new();
    for failure in 1..=8 {
        windows_to_render(&mut thread, 0, &mut events);
        thread.on_rendered(Err("weg".into()), &mut events);
        thread.on_recreated(Ok(true), &mut events);
        if failure > 1 && failure < 8 {
            assert_eq!(thread.step, WindowsStep::Wait(200 * failure));
            thread.waited(&mut events);
        }
    }
    assert_eq!(thread.step, WindowsStep::WaitAndGiveUp(1600));
    thread.waited(&mut events);
    assert_eq!(thread.step, WindowsStep::End);
    assert!(matches!(
        events.last(),
        Some(EngineEvent::DeviceRecovery { phase: DeviceRecoveryPhase::Failed, detail: Some(text) })
            if text == "Wiederherstellung endgültig aufgegeben: 8 Eingriffe in Folge ohne stabilen Frame"
    ));
}

#[test]
fn windows_sources_survive_a_size_that_cannot_be_had() {
    let mut thread: Rounds = WindowsRounds::new(&output(1920), true, 0);
    let mut events = Vec::new();
    thread.sources.images.insert(9, Loaded { path: None, value: 1 });
    thread.begin(false, &output(1280), 0, &mut events);
    assert_eq!(thread.step, WindowsStep::Resize);
    thread.on_resized(&output(1280), Err("weg".into()), 0, &mut events);
    assert!(thread.sources.present(9));
    assert_eq!(thread.rounds.output.width, 1920);
    assert!(matches!(on_ready(WindowsReady::Started), Ok(())));
    assert_eq!(
        on_ready(WindowsReady::Failed("weg".into())).unwrap_err().message(),
        "DXGI swapchain failed: weg"
    );
}
