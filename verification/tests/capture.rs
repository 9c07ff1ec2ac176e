use hooviestar::draw_plan::{
    acquire_barriers, collect_external_images, commit_acquired, plan_draws, release_barriers,
    Aspect, Layout, Owner, TextureBinding,
};
use hooviestar::engine_event::EngineEvent;
use hooviestar::external_textures::{ExternalKind, ExternalTextures};
use hooviestar::frame_flow::{
    begin_frame, next_call, scene_target_outdated, CallResult, FrameCall, FrameProgress,
};
use hooviestar::id_map::IdMap;
use hooviestar::id_set::IdSet;
use hooviestar::linux::{
    connection_failed, connection_missing, dma_buf_data_types, dma_buf_params, drm_xrgb8888,
    format_offer, fourcc, negotiation_failed, offered_layouts, spa_format_to_drm, stream_name, CaptureThread, CapturedFrame, DmaBufPlane,
    FormatAnswer, FrameMemory, FrameMessage, LinuxVideoError, NegotiatedFormat,
    PipeWirePortalLink, PixelLayout, PortalSelection, PortalSourceType, PortalStreamInfo, SendBufferToken,
    SpaData, SpaFormats, StartStep, StreamData,
};
use hooviestar::portal_captures::{
    node_of, wanted, CaptureEffect, CaptureTables, CAPTURE_GRACE_NS, IMPORT_RETRY_INTERVAL_NS,
};
use hooviestar::project::{OutputConfig, Project, Scene, SceneItem, Source};
use hooviestar::render_loop::Extent;

const FORMATS: SpaFormats = SpaFormats { rgba: 11, bgra: 12, rgbx: 7 };

fn stream(node: u32, source_type: Option<PortalSourceType>) -> PortalStreamInfo {
    PortalStreamInfo {
        pipewire_node_id: node,
        source_type,
        id: None,
        mapping_id: None,
        position: None,
        size: None,
    }
}

fn selection(binding_id: u128, nodes: &[u32]) -> PortalSelection<&'static str, u32> {
    PortalSelection {
        binding_id,
        session: "session",
        remote: Some(42),
        streams: nodes.iter().map(|node| stream(*node, None)).collect(),
    }
}

fn frame(source_id: u128, sequence: u64, token: usize) -> CapturedFrame<u32> {
    CapturedFrame {
        source_id,
        sequence,
        timestamp_ns: 1,
        width: 4,
        height: 2,
        drm_format: drm_xrgb8888(),
        modifier: 0,
        memory: FrameMemory::DmaBuf { planes: Vec::new() },
        buffer_token: SendBufferToken(token),
    }
}

fn item(source_id: u128, visible: bool) -> SceneItem {
    SceneItem { source_id, visible, panel_width: 10, panel_height: 10 }
}

fn project_of(sources: Vec<Source>, items: Vec<SceneItem>) -> Project {
    Project {
        active_scene_id: 1,
        scenes: vec![Scene { id: 1, items }],
        sources,
        output: OutputConfig { width: 1920, height: 1080, fps: 60, background: "#000000".into() },
    }
}

fn portal_window(id: u128, marker: &str, node: &str) -> Source {
    Source::Window {
        id,
        name: "Fenster".into(),
        process_path: marker.into(),
        window_title: node.into(),
    }
}

#[test]
fn portal_remote_is_taken_once_per_selection() {
    let mut link = PipeWirePortalLink::new();
    assert_eq!(link.generation(), 0);
    assert!(link.binding_marker().is_none());
    link.publish(selection(0x10, &[5]));
    assert_eq!(link.generation(), 1);
    assert_eq!(link.take_remote(), Some(42));
    assert_eq!(link.take_remote(), None);
    assert_eq!(link.streams().unwrap().len(), 1);
    link.publish(selection(0x11, &[6]));
    assert_eq!(link.generation(), 2);
    assert_eq!(link.take_remote(), Some(42));
}

#[test]
fn binding_marker_is_the_hyphenated_identifier() {
    let mut link = PipeWirePortalLink::new();
    link.publish(selection(0x0123_4567_89ab_cdef_0011_2233_4455_6677, &[]));
    assert_eq!(
        link.binding_marker().unwrap(),
        "portal:01234567-89ab-cdef-0011-223344556677"
    );
    assert_eq!(
        stream_name(1),
        "hooviestar-portal-00000000-0000-0000-0000-000000000001"
    );
}

#[test]
fn only_window_streams_are_windows() {
    assert!(stream(1, Some(PortalSourceType::Window)).is_window());
    assert!(!stream(1, Some(PortalSourceType::Monitor)).is_window());
    assert!(!stream(1, Some(PortalSourceType::Virtual)).is_window());
    assert!(!stream(1, None).is_window());
}

#[test]
fn capture_errors_have_their_messages() {
    assert_eq!(
        LinuxVideoError::PortalDenied.message(),
        "desktop portal denied capture permission"
    );
    assert_eq!(LinuxVideoError::SourceOffline.message(), "PipeWire source is offline");
    assert_eq!(LinuxVideoError::DmaBufUnavailable.message(), "DMA-BUF import is unavailable");
    assert_eq!(LinuxVideoError::InvalidDmaBuf.message(), "invalid DMA-BUF metadata");
    assert_eq!(LinuxVideoError::DeviceLost.message(), "Vulkan device lost");
    assert_eq!(LinuxVideoError::Portal("x".into()).message(), "desktop portal failed: x");
    assert_eq!(LinuxVideoError::PipeWire("y".into()).message(), "PipeWire failed: y");
    assert!(connection_failed("weg").ends_with("weg"));
    assert!(!connection_missing().is_empty());
    assert!(negotiation_failed("weg").ends_with("weg"));
}

#[test]
fn pixel_formats_have_their_codes() {
    assert_eq!(fourcc(b'X', b'R', b'2', b'4'), 0x3432_5258);
    assert_eq!(drm_xrgb8888(), 0x3432_5258);
    assert_eq!(spa_format_to_drm(11, FORMATS), 0x3432_4241);
    assert_eq!(spa_format_to_drm(12, FORMATS), 0x3432_5241);
    assert_eq!(spa_format_to_drm(7, FORMATS), 0x3432_4258);
    assert_eq!(spa_format_to_drm(99, FORMATS), 0x3432_5258);
}

#[test]
fn buffer_requests_fit_their_frames() {
    let request = dma_buf_params(1920, 1080).unwrap();
    assert_eq!(offered_layouts()[0], PixelLayout::Bgrx);
    assert_eq!(request.size, 1920 * 1080 * 4);
    assert_eq!(request.stride, 1920 * 4);
    assert_eq!(
        (request.default_buffers, request.min_buffers, request.max_buffers),
        (4, 2, 8)
    );
    assert_eq!(
        dma_buf_params(65535, 65535).unwrap_err(),
        "PipeWire-Videopuffer ist zu groß"
    );
    assert_eq!(
        dma_buf_params(u32::MAX, 0).unwrap_err(),
        "PipeWire-Videostride ist zu groß"
    );
    assert_eq!(format_offer().modifier, 0x00ff_ffff_ffff_ffff);
}

#[test]
fn stream_negotiates_delivers_and_takes_back() {
    let mut data = StreamData::new(9);
    let dma = SpaData {
        has_chunk: true,
        is_dma_buf: true,
        chunk_offset: 16,
        chunk_stride: 64,
        fd: 3,
    };
    let blocks = vec![dma];
    assert!(data.planes_to_duplicate(Some(&blocks)).is_none());
    match data.on_format(None, FORMATS) {
        FormatAnswer::Report(reason) => {
            assert_eq!(reason, "PipeWire-Videoformat konnte nicht ausgehandelt werden")
        }
        FormatAnswer::Request(_) => panic!("no format was announced"),
    }
    let announced = NegotiatedFormat { width: 16, height: 8, spa_format: 12, modifier: 77 };
    assert!(matches!(
        data.on_format(Some(announced), FORMATS),
        FormatAnswer::Request(_)
    ));
    let planes = data.planes_to_duplicate(Some(&blocks)).unwrap();
    assert_eq!((planes[0].fd, planes[0].offset, planes[0].stride), (3, 16, 64));
    assert!(data.may_dequeue());
    let plane = DmaBufPlane { fd: 3u32, offset: 16, stride: 64 };
    let first = data.deliver(vec![plane], SendBufferToken(100), 5);
    assert_eq!((first.source_id, first.sequence, first.timestamp_ns), (9, 0, 5));
    assert_eq!((first.width, first.height, first.modifier), (16, 8, 77));
    assert_eq!(first.drm_format, 0x3432_5241);
    assert!(data.may_dequeue());
    let second: CapturedFrame<u32> = data.deliver(Vec::new(), SendBufferToken(101), 6);
    assert_eq!(second.sequence, 1);
    assert!(!data.may_dequeue());
    assert!(data.release(SendBufferToken(100)));
    assert!(!data.release(SendBufferToken(100)));
    assert!(data.may_dequeue());
    data.on_stream_error();
    assert!(data.may_dequeue());
}

#[test]
fn capture_thread_connects_before_it_creates() {
    let mut thread = CaptureThread::new();
    assert!(thread.begin_start(1, true) == StartStep::Connect);
    assert!(thread.begin_start(1, false) == StartStep::ReportOffline);
    thread.on_connected();
    assert!(thread.begin_start(1, true) == StartStep::Create);
    thread.on_created(1);
    assert!(thread.begin_start(1, false) == StartStep::Nothing);
    assert!(!thread.return_buffer(1, SendBufferToken(4)));
    assert!(!thread.return_buffer(2, SendBufferToken(4)));
    assert!(thread.stream_mut(2).is_none());
    let running = thread.stream_mut(1).unwrap();
    let delivered: CapturedFrame<u32> = running.deliver(Vec::new(), SendBufferToken(4), 0);
    assert_eq!((delivered.source_id, delivered.sequence), (1, 0));
    assert!(thread.return_buffer(1, SendBufferToken(4)));
    assert!(!thread.return_buffer(1, SendBufferToken(4)));
    thread.stop(1);
    assert!(thread.begin_start(1, false) == StartStep::Create);
    thread.shutdown();
}

#[test]
fn sources_of_another_selection_wait() {
    let selected = vec![stream(7, None)];
    let marker = Some("portal:now".to_string());
    assert_eq!(node_of(&portal_window(1, "portal:now", "7"), &marker, &selected), Some(7));
    assert_eq!(node_of(&portal_window(1, "portal:now", "8"), &marker, &selected), None);
    assert_eq!(node_of(&portal_window(1, "portal:then", "7"), &marker, &selected), None);
    assert_eq!(node_of(&portal_window(1, "portal:now", "x"), &marker, &selected), None);
    assert_eq!(node_of(&portal_window(1, "portal:now", "7"), &None, &selected), None);
    let display = Source::Display {
        id: 2,
        name: "Monitor".into(),
        adapter_luid: "portal:now".into(),
        output_id: 7,
    };
    assert_eq!(node_of(&display, &marker, &selected), Some(7));
}

#[test]
fn captures_start_deliver_fail_and_back_off() {
    let mut tables: CaptureTables<u32> = CaptureTables::new();
    let mut available = IdSet::new();
    let mut effects = Vec::new();
    let mut events = Vec::new();
    let failures: IdMap<u64> = IdMap::new();
    let project = project_of(vec![portal_window(1, "portal:now", "7")], vec![item(1, true)]);
    let captures = wanted(&project, &Some("portal:now".to_string()), &vec![stream(7, None)]);
    tables.reconcile(&captures, 0, &mut effects);
    assert_eq!(effects, vec![CaptureEffect::Start { source_id: 1, node_id: 7 }]);
    effects.clear();
    tables.reconcile(&captures, 1, &mut effects);
    assert!(effects.is_empty());
    let message = FrameMessage::Frame(frame(1, 0, 100));
    tables.on_message(message, "lost", &failures, &mut available, &mut effects, &mut events);
    assert!(available.contains(1));
    assert!(matches!(events[0], EngineEvent::SourceAvailable { source_id: 1 }));
    assert!(effects.is_empty());
    let message = FrameMessage::Frame(frame(1, 1, 101));
    tables.on_message(message, "lost", &failures, &mut available, &mut effects, &mut events);
    assert_eq!(
        effects,
        vec![CaptureEffect::Return { source_id: 1, token: SendBufferToken(100) }]
    );
    assert_eq!(events.len(), 1);
    effects.clear();
    let error = FrameMessage::SourceError { source_id: 1, reason: "weg".into() };
    tables.on_message(error, "lost", &failures, &mut available, &mut effects, &mut events);
    assert!(!available.contains(1));
    assert!(matches!(
        &events[1],
        EngineEvent::SourceUnavailable { source_id: 1, reason } if reason == "weg"
    ));
    let error = FrameMessage::SourceError { source_id: 1, reason: "weg".into() };
    tables.on_message(error, "lost", &failures, &mut available, &mut effects, &mut events);
    assert_eq!(events.len(), 2);
}

#[test]
fn failed_start_waits_and_lost_portal_waits_for_a_selection() {
    let mut tables: CaptureTables<u32> = CaptureTables::new();
    let mut available = IdSet::new();
    let mut effects = Vec::new();
    let mut events = Vec::new();
    let failures: IdMap<u64> = IdMap::new();
    let project = project_of(vec![portal_window(1, "portal:now", "7")], vec![item(1, true)]);
    let captures = wanted(&project, &Some("portal:now".to_string()), &vec![stream(7, None)]);
    tables.reconcile(&captures, 0, &mut effects);
    let error = FrameMessage::SourceError { source_id: 1, reason: "weg".into() };
    tables.on_message(error, "lost", &failures, &mut available, &mut effects, &mut events);
    effects.clear();
    tables.reconcile(&captures, IMPORT_RETRY_INTERVAL_NS - 1, &mut effects);
    assert!(effects.is_empty());
    tables.reconcile(&captures, IMPORT_RETRY_INTERVAL_NS, &mut effects);
    assert_eq!(effects, vec![CaptureEffect::Start { source_id: 1, node_id: 7 }]);
    let error = FrameMessage::SourceError { source_id: 1, reason: "lost".into() };
    tables.on_message(error, "lost", &failures, &mut available, &mut effects, &mut events);
    effects.clear();
    tables.reconcile(&captures, 100 * IMPORT_RETRY_INTERVAL_NS, &mut effects);
    assert!(effects.is_empty());
    assert!(tables.begin_generation(1, &mut effects));
    tables.finish_generation(1, &mut available);
    tables.reconcile(&captures, 100 * IMPORT_RETRY_INTERVAL_NS, &mut effects);
    assert_eq!(effects, vec![CaptureEffect::Start { source_id: 1, node_id: 7 }]);
    assert!(!tables.begin_generation(1, &mut effects));
}

#[test]
fn silent_capture_expires_and_buffers_return() {
    let mut tables: CaptureTables<u32> = CaptureTables::new();
    let mut available = IdSet::new();
    let mut effects = Vec::new();
    let mut events = Vec::new();
    let project = project_of(vec![portal_window(1, "portal:now", "7")], vec![item(1, true)]);
    let captures = wanted(&project, &Some("portal:now".to_string()), &vec![stream(7, None)]);
    tables.reconcile(&captures, 0, &mut effects);
    tables.expire(CAPTURE_GRACE_NS, &mut available, &mut effects, &mut events);
    assert!(events.is_empty());
    tables.expire(CAPTURE_GRACE_NS + 1, &mut available, &mut effects, &mut events);
    assert!(matches!(
        events[0],
        EngineEvent::SourceUnavailable { source_id: 1, .. }
    ));
    let failures: IdMap<u64> = IdMap::new();
    let message = FrameMessage::Frame(frame(1, 0, 100));
    tables.on_message(message, "lost", &failures, &mut available, &mut effects, &mut events);
    effects.clear();
    tables.return_all(&mut effects);
    assert_eq!(
        effects,
        vec![CaptureEffect::Return { source_id: 1, token: SendBufferToken(100) }]
    );
}

#[test]
fn imported_frame_is_kept_until_a_new_one_comes() {
    let mut textures: ExternalTextures<&str> = ExternalTextures::new();
    let mut failures: IdMap<u64> = IdMap::new();
    let mut retired = Vec::new();
    let mut events = Vec::new();
    assert!(textures.decide(ExternalKind::Portal, 1, 5, 0, &failures));
    textures.on_imported(
        ExternalKind::Portal, 1, 5, "five", 500, &mut failures, &mut retired, &mut events,
    );
    assert!(!textures.decide(ExternalKind::Portal, 1, 5, 0, &failures));
    assert!(textures.decide(ExternalKind::Portal, 1, 6, 0, &failures));
    textures.on_imported(
        ExternalKind::Portal, 1, 6, "six", 600, &mut failures, &mut retired, &mut events,
    );
    assert_eq!(retired, vec!["five"]);
    textures.on_import_failed(1, 10, &mut failures, &mut retired, &mut events);
    assert_eq!(retired, vec!["five", "six"]);
    assert!(matches!(events[0], EngineEvent::SourceUnavailable { source_id: 1, .. }));
    assert!(!textures.decide(ExternalKind::Portal, 1, 7, 11, &failures));
    assert!(textures.decide(
        ExternalKind::Portal, 1, 7, 10 + IMPORT_RETRY_INTERVAL_NS, &failures
    ));
    textures.on_imported(
        ExternalKind::Portal, 1, 7, "seven", 700, &mut failures, &mut retired, &mut events,
    );
    assert!(matches!(events[1], EngineEvent::SourceAvailable { source_id: 1 }));
    let frames: IdMap<u8> = IdMap::new();
    textures.evict_stale(ExternalKind::Portal, &frames, &mut failures, &mut retired);
    assert_eq!(retired, vec!["five", "six", "seven"]);
}

#[test]
fn draws_bind_portal_before_media_before_static() {
    let mut textures: ExternalTextures<u8> = ExternalTextures::new();
    let mut failures: IdMap<u64> = IdMap::new();
    let mut retired = Vec::new();
    let mut events = Vec::new();
    textures.on_imported(
        ExternalKind::Portal, 1, 0, 0, 10, &mut failures, &mut retired, &mut events,
    );
    textures.on_imported(
        ExternalKind::Media, 1, 0, 0, 11, &mut failures, &mut retired, &mut events,
    );
    textures.on_imported(
        ExternalKind::Media, 2, 0, 0, 12, &mut failures, &mut retired, &mut events,
    );
    let mut statics: IdMap<u8> = IdMap::new();
    statics.insert(2, 0);
    statics.insert(3, 0);
    let items = vec![item(1, true), item(2, true), item(9, false), item(3, true), item(4, true)];
    let draws = plan_draws(&items, &textures, &statics);
    let bindings: Vec<TextureBinding> = draws.iter().map(|draw| draw.binding).collect();
    assert_eq!(
        bindings,
        vec![
            TextureBinding::Portal,
            TextureBinding::Media,
            TextureBinding::Static,
            TextureBinding::Placeholder
        ]
    );
    let switches: Vec<bool> = draws.iter().map(|draw| draw.switch_pipeline).collect();
    assert_eq!(switches, vec![false, true, true, false]);
    assert_eq!(draws[3].mode, 1);
    assert_eq!(draws[3].item, 4);
    assert_eq!(draws[3].slot, 3);
}

#[test]
fn foreign_images_are_taken_over_and_given_back() {
    let mut textures: ExternalTextures<u8> = ExternalTextures::new();
    let mut failures: IdMap<u64> = IdMap::new();
    let mut retired = Vec::new();
    let mut events = Vec::new();
    textures.on_imported(
        ExternalKind::Portal, 1, 0, 0, 10, &mut failures, &mut retired, &mut events,
    );
    textures.on_imported(
        ExternalKind::Media, 2, 0, 0, 20, &mut failures, &mut retired, &mut events,
    );
    let items = vec![item(1, true), item(1, true), item(2, true)];
    let images = collect_external_images(&items, &textures);
    assert_eq!(images.len(), 2);
    assert!(images[0].first_acquire && !images[0].disjoint);
    assert!(images[1].disjoint);
    let acquire = acquire_barriers(&images);
    assert_eq!(acquire.len(), 3);
    assert_eq!(acquire[0].old_layout, Layout::Undefined);
    assert_eq!((acquire[0].source, acquire[0].target), (Owner::Foreign, Owner::Graphics));
    assert_eq!(acquire[1].aspect, Aspect::Plane0);
    assert_eq!(acquire[2].aspect, Aspect::Plane1);
    let release = release_barriers(&images);
    assert_eq!(release.len(), 3);
    assert_eq!((release[0].source, release[0].target), (Owner::Graphics, Owner::Foreign));
    commit_acquired(&mut textures, &images);
    let again = collect_external_images(&items, &textures);
    assert!(!again[0].first_acquire && !again[1].first_acquire);
    assert_eq!(acquire_barriers(&again)[0].old_layout, Layout::General);
}

#[test]
fn frame_runs_in_order_and_a_timed_out_preview_is_settled() {
    let mut progress = begin_frame(true);
    let mut calls = 0;
    while let FrameProgress::Call(call) = progress {
        progress = next_call(call, CallResult::Done);
        calls += 1;
    }
    assert_eq!(progress, FrameProgress::Rendered);
    assert_eq!(calls, 11);
    assert_eq!(begin_frame(false), FrameProgress::NoScene);
    assert_eq!(
        next_call(FrameCall::AcquireProgram, CallResult::Timeout),
        FrameProgress::TimedOut
    );
    assert_eq!(
        next_call(FrameCall::AcquirePreview, CallResult::Timeout),
        FrameProgress::Call(FrameCall::ResetFenceForSkip)
    );
    assert_eq!(
        next_call(FrameCall::ResetFenceForSkip, CallResult::Done),
        FrameProgress::Call(FrameCall::SubmitForSkip)
    );
    assert_eq!(
        next_call(FrameCall::PresentForSkip, CallResult::Done),
        FrameProgress::Rendered
    );
    assert_eq!(
        next_call(FrameCall::Submit, CallResult::Failed),
        FrameProgress::Failed
    );
    let small = Extent { width: 1, height: 1 };
    assert!(!scene_target_outdated(small, small));
    assert!(scene_target_outdated(small, Extent { width: 1, height: 2 }));
}

#[test]
fn only_dma_buf_memory_is_taken() {
    assert_eq!(dma_buf_data_types(3), 8);
    assert_eq!(dma_buf_data_types(0), 1);
}
