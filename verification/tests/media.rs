use hooviestar::engine_event::{EngineEvent, MediaState};
use hooviestar::id_map::IdMap;
use hooviestar::id_set::IdSet;
use hooviestar::linux_media::{
    after_attempt, audio_extension, dma_buf_planes, gave_up_reason, mutes_at_once,
    pipeline_description, plane_offset, plane_stride, plane_window, retries_send, setup_error,
    worker_name, AudioTap, ErrorOutcome, LinuxMedia, MediaAttempt, MediaPacer, MediaPlane,
    PipelineCall, PipelineError, PlaneMemory, SampleFault, Player, PlayerEffect, ReopenBudget, RunStep,
    SendResult, SetupStage, VideoTap, CLEAN_STRETCH_NS, MAX_SEND_ATTEMPTS, PACE_MAX_SLEEP_NS,
};
use hooviestar::media_sessions::{
    MediaCommand, MediaEffect, MediaNotice, MediaSessions, MEDIA_RETRY_COOLDOWN_NS,
};
use hooviestar::project::{MediaSource, OutputConfig, Project, Scene};
use hooviestar::video::{media_control_bus, GpuFrame, LatestFrame, MediaControl};
use std::sync::Arc;

#[test]
fn latest_slot_holds_single_frame() {
    let mut slot = LatestFrame::default();
    let id = uuid::Uuid::new_v4().as_u128();
    for sequence in 0..10 {
        let previous = slot.publish(Arc::new(GpuFrame {
            source_id: id,
            sequence,
            timestamp_ns: 0,
            native_texture: 1,
        }));
        assert_eq!(previous.is_some(), sequence > 0);
    }
    assert_eq!(slot.take().unwrap().sequence, 9);
    assert!(slot.take().is_none());
}

#[test]
fn default_starts_playing_without_seek() {
    let control = MediaControl::default();
    assert!(control.playing);
    assert!(control.seek_seconds.is_none());
    assert_eq!(control.epoch, 0);
}

#[test]
fn stale_media_writeback_cannot_overwrite_newer_epoch() {
    let mut bus = media_control_bus();
    let id = uuid::Uuid::new_v4().as_u128();
    let stale_control = bus.entry(id);
    assert!(stale_control.playing);
    {
        let entry = bus.controls.get_mut(id).unwrap();
        entry.epoch = entry.epoch.wrapping_add(1);
        entry.playing = true;
    }
    bus.write_back_paused(id, stale_control.epoch);
    assert!(bus.controls.get(id).unwrap().playing);
    let fresh_control = *bus.controls.get(id).unwrap();
    assert_ne!(fresh_control.epoch, stale_control.epoch);
    bus.write_back_paused(id, fresh_control.epoch);
    assert!(!bus.controls.get(id).unwrap().playing);
}

#[test]
fn requested_position_is_taken_once() {
    let mut bus = media_control_bus();
    assert_eq!(bus.read(1), MediaControl::default());
    assert_eq!(bus.take_recorded_seek(1), None);
    assert!(!bus.controls.contains(1));
    bus.controls.insert(1, MediaControl { playing: true, seek_seconds: Some(7), epoch: 3 });
    assert_eq!(bus.take_recorded_seek(1), Some(7));
    assert_eq!(bus.take_seek(1), None);
    assert_eq!(bus.take_seek(2), None);
    assert!(bus.controls.contains(2));
}

#[test]
fn pacer_holds_samples_back_to_their_time() {
    let mut pacer = MediaPacer::new(0);
    assert_eq!(pacer.delay(1_000, 5_000, false), None);
    assert_eq!(pacer.delay(2_000, 35_000, false), Some(29_000));
    assert_eq!(pacer.delay(90_000, 40_000, false), None);
    assert_eq!(pacer.delay(90_000, 300_000_000, false), Some(PACE_MAX_SLEEP_NS));
    assert_eq!(pacer.delay(100_000, 1_000, false), None);
    assert_eq!(pacer.delay(100_000, 900_000_000, false), None);
    assert_eq!(pacer.delay(100_000, 900_000_001, true), None);
}

#[test]
fn file_is_given_up_after_six_failures_without_a_clean_stretch() {
    let failure = MediaAttempt::Transient("weg".into());
    let mut budget = ReopenBudget::new();
    for _ in 0..5 {
        budget.begin_attempt();
        assert_eq!(after_attempt(&mut budget, &failure, 0), RunStep::Retry);
    }
    assert_eq!(after_attempt(&mut budget, &failure, 0), RunStep::GiveUp);
    assert_eq!(after_attempt(&mut ReopenBudget::new(), &MediaAttempt::Finished, 0), RunStep::Done);
    assert_eq!(
        gave_up_reason(),
        "Medium wiederholt fehlgeschlagen (wiederholtes Nachladen)"
    );
}

#[test]
fn clean_stretch_forgives_and_a_single_sample_does_not() {
    let mut budget = ReopenBudget::new();
    for _ in 0..3 {
        budget.charge(0);
    }
    budget.begin_attempt();
    budget.note_sample(0);
    assert_eq!(budget.charge(CLEAN_STRETCH_NS), 4);
    budget.begin_attempt();
    budget.note_sample(0);
    budget.note_sample(CLEAN_STRETCH_NS);
    assert_eq!(budget.charge(CLEAN_STRETCH_NS), 1);
}

#[test]
fn audio_files_are_known_by_their_extension() {
    assert_eq!(audio_extension("file:///a/Lied.FLAC"), Some("flac"));
    assert_eq!(audio_extension("x.mp3"), Some("mp3"));
    assert_eq!(audio_extension("x.opus"), Some("opus"));
    assert_eq!(audio_extension("x.mp4"), None);
    assert_eq!(audio_extension(""), None);
}

#[test]
fn planes_lie_within_their_buffer() {
    let offsets = vec![0, 100];
    assert_eq!(plane_window(&offsets, 0, 150), (0, 100));
    assert_eq!(plane_window(&offsets, 1, 150), (100, 150));
    assert_eq!(plane_window(&vec![10, 10], 0, 150), (10, 11));
    assert_eq!(plane_offset(3, 4).unwrap(), 7);
    assert_eq!(
        plane_offset(usize::MAX, 1).unwrap_err(),
        "media DMA-BUF plane offset overflows u32"
    );
    assert_eq!(plane_stride(64).unwrap(), 64);
    assert_eq!(plane_stride(-1).unwrap_err(), "media DMA-BUF plane stride is invalid");
}

#[test]
fn frame_planes_are_all_usable_or_the_first_fault_is_told() {
    let strides = vec![64, 64];
    let found = |memory_offset: usize| PlaneMemory::Found {
        memory_offset,
        skip: 8,
    };
    let planes = dma_buf_planes(&vec![found(0), found(4096)], &strides).unwrap();
    assert_eq!(
        planes,
        vec![
            MediaPlane { offset: 8, stride: 64 },
            MediaPlane { offset: 4104, stride: 64 },
        ]
    );
    let refusal = |memory: PlaneMemory| dma_buf_planes(&vec![found(0), memory], &strides).unwrap_err();
    assert_eq!(refusal(PlaneMemory::Missing), "DMA-BUF plane 1 has no backing memory");
    assert_eq!(
        refusal(PlaneMemory::Spread),
        "DMA-BUF plane 1 spans multiple memory objects"
    );
    assert_eq!(
        refusal(PlaneMemory::Foreign),
        "GStreamer negotiated non-DMA-BUF video memory"
    );
    assert_eq!(
        refusal(PlaneMemory::NotDuplicated("no descriptors".to_string())),
        "duplicate media DMA-BUF fd: no descriptors"
    );
    assert_eq!(
        refusal(found(u32::MAX as usize)),
        "media DMA-BUF plane offset overflows u32"
    );
    assert_eq!(
        dma_buf_planes(&vec![found(0), PlaneMemory::Missing], &vec![-1, 64]).unwrap_err(),
        "media DMA-BUF plane stride is invalid"
    );
    assert_eq!(
        dma_buf_planes(&vec![], &vec![]).unwrap_err(),
        "DMA-BUF video sample has no planes"
    );
}

fn pipeline_error(message: &str, detail: &str, stream: bool) -> PipelineError {
    PipelineError {
        stream,
        resource: false,
        core: false,
        message: message.into(),
        detail: detail.into(),
        display: "Fehler".into(),
    }
}

#[test]
fn player_follows_its_commands() {
    let mut player = Player::new(false);
    let mut effects = Vec::new();
    assert!(player.begin_attempt());
    assert_eq!(player.on_command(MediaCommand::Pause), PipelineCall::SetPaused);
    player.on_paused_set(true);
    player.on_play_ended(3, None, &mut effects);
    assert!(matches!(
        effects.pop(),
        Some(PlayerEffect::Report(state)) if !state.playing && state.position == 3
    ));
    assert!(!player.begin_attempt());
    assert_eq!(player.on_command(MediaCommand::Play), PipelineCall::SetPlaying);
    player.on_playing_set(true, &mut effects);
    assert!(matches!(effects[0], PlayerEffect::RingActive(true)));
    assert_eq!(player.on_end_of_stream(&mut effects), PipelineCall::SetPaused);
    assert!(matches!(effects[1], PlayerEffect::RingActive(false)));
    assert_eq!(player.on_command(MediaCommand::Play), PipelineCall::SeekStart);
    assert!(!player.begin_attempt());
    assert_eq!(player.on_command(MediaCommand::Seek(9)), PipelineCall::SeekTo(9));
    player.on_seek(Err("nein".into()), &mut effects);
    assert!(matches!(
        &effects[2],
        PlayerEffect::SeekFailed(reason) if reason == "Seek fehlgeschlagen: nein"
    ));
    assert_eq!(player.on_command(MediaCommand::SetLoop(true)), PipelineCall::Nothing);
    assert_eq!(player.on_end_of_stream(&mut effects), PipelineCall::SeekStart);
    player.on_loop_seek(Ok(()), &mut effects);
    assert!(matches!(effects[3], PlayerEffect::RingClear));
    assert_eq!(player.on_command(MediaCommand::Stop), PipelineCall::Stop);
    assert!(mutes_at_once(MediaCommand::Pause) && mutes_at_once(MediaCommand::Stop));
    assert!(!mutes_at_once(MediaCommand::Play));
}

#[test]
fn unplayable_file_is_told_once() {
    let mut player = Player::new(false);
    let mut effects = Vec::new();
    assert!(player.on_video_sample(true, &mut effects));
    assert!(!player.on_video_sample(false, &mut effects));
    assert!(!player.on_video_sample(false, &mut effects));
    assert_eq!(effects.len(), 1);
    let error = pipeline_error("Could not NEGOTIATE", "detail", true);
    assert!(matches!(player.on_error(error, None, &mut effects), ErrorOutcome::Finish));
    assert_eq!(effects.len(), 2);
}

#[test]
fn pipeline_errors_are_sorted() {
    let mut effects = Vec::new();
    let fatal = Player::new(false).on_error(
        pipeline_error("kaputt", "tief", false),
        None,
        &mut effects,
    );
    assert!(matches!(fatal, ErrorOutcome::Fatal(reason) if reason == "Fehler: tief"));
    let retry = Player::new(false).on_error(
        pipeline_error("kaputt", "reason not-linked (-1)", false),
        None,
        &mut effects,
    );
    assert!(matches!(
        retry,
        ErrorOutcome::Retry(reason) if reason == "transient media error: reason not-linked (-1)"
    ));
    effects.clear();
    let refused = Player::new(false).on_error(
        pipeline_error("not negotiated", "tief", true),
        Some("mp3"),
        &mut effects,
    );
    assert!(matches!(refused, ErrorOutcome::Finish));
    assert!(matches!(
        &effects[0],
        PlayerEffect::Unsupported(reason) if reason == "Audioformat nicht unterstützt: mp3"
    ));
}

#[test]
fn given_up_file_is_reported_as_paused() {
    let mut player = Player::new(false);
    let mut effects = Vec::new();
    player.on_attempt_playing(&mut effects);
    player.on_attempt_finished(7, Some(9), &mut effects);
    player.on_gave_up(&mut effects);
    player.on_gave_up(&mut effects);
    assert!(matches!(effects[0], PlayerEffect::RingActive(true)));
    assert!(matches!(
        effects[1],
        PlayerEffect::Report(state) if !state.playing && state.position == 7
    ));
    assert!(matches!(&effects[2], PlayerEffect::Unsupported(reason) if *reason == gave_up_reason()));
    assert!(matches!(
        effects[3],
        PlayerEffect::Report(state) if state.position == 0 && state.duration.is_none()
    ));
    assert!(matches!(effects[4], PlayerEffect::Report(_)));
    assert_eq!(effects.len(), 5);
}

#[test]
fn pipelines_are_described_and_their_failures_named() {
    assert!(!pipeline_description("a.mp3").contains("video_sink"));
    assert!(pipeline_description("a.mp4").contains("drm-format=NV12"));
    assert_eq!(setup_error(SetupStage::Parse, "e"), "hardware DMA-BUF pipeline: e");
    assert_eq!(setup_error(SetupStage::Decoder, ""), "uridecodebin missing");
    assert_eq!(setup_error(SetupStage::Play, "e"), "start media pipeline: e");
}

#[test]
fn samples_are_numbered_and_the_ring_registered_once() {
    let mut budget = ReopenBudget::new();
    let mut video = VideoTap::new(0);
    assert_eq!(video.pacer.delay(0, 5, false), None);
    assert_eq!(video.on_delivered(&mut budget, 1), 0);
    assert_eq!(video.on_delivered(&mut budget, 2), 1);
    let mut audio = AudioTap::new(0);
    assert!(audio.on_delivered(&mut budget, CLEAN_STRETCH_NS));
    assert!(!audio.on_delivered(&mut budget, CLEAN_STRETCH_NS));
    budget.charge(0);
    assert_eq!(budget.charge(CLEAN_STRETCH_NS + 1), 1);
}

#[test]
fn delivered_report_is_not_repeated() {
    let mut player = Player::new(false);
    player.begin_attempt();
    let state = player.report(5, Some(10)).unwrap();
    assert!(player.report(5, Some(10)).is_some());
    player.on_report_delivered(state);
    assert!(player.report(5, Some(10)).is_none());
    assert!(player.report(6, Some(10)).is_some());
}

#[test]
fn media_workers_keep_their_rings() {
    let mut media: LinuxMedia<u8, &str> = LinuxMedia::start();
    let mut rings: IdMap<u8> = IdMap::new();
    rings.insert(1, 11);
    assert_eq!(LinuxMedia::<u8, &str>::ring_for(&rings, 1, 99), 11);
    assert_eq!(LinuxMedia::<u8, &str>::ring_for(&rings, 2, 99), 99);
    assert!(media.open(1, 11, "worker").is_none());
    assert_eq!(media.open(1, 11, "newer").unwrap().worker, "worker");
    assert_eq!(media.audio_ring_handle(1), Some(11));
    let (worker, mute) = media.command(1, MediaCommand::Pause).unwrap();
    assert_eq!((*worker, mute), ("newer", Some(11)));
    let (_, mute) = media.command(1, MediaCommand::Play).unwrap();
    assert_eq!(mute, None);
    assert!(media.command(2, MediaCommand::Play).is_none());
    assert_eq!(media.remove(1, &mut rings).unwrap().worker, "newer");
    assert!(!rings.contains(1));
    media.open(3, 33, "third");
    assert_eq!(media.shutdown(&mut rings).keys(), vec![3]);
    assert!(media.audio_ring_handle(3).is_none());
    assert!(worker_name(1).ends_with("00000000-0000-0000-0000-000000000001"));
    assert!(retries_send(0, SendResult::Full));
    assert!(!retries_send(MAX_SEND_ATTEMPTS, SendResult::Full));
    assert!(!retries_send(0, SendResult::Disconnected));
    assert!(!retries_send(0, SendResult::Delivered));
}

fn source(path: &str) -> MediaSource {
    MediaSource {
        id: 1,
        name: "Film".into(),
        path: path.into(),
        looped: false,
        continue_when_hidden: false,
        restart_on_show: true,
    }
}

fn empty_project() -> Project {
    Project {
        active_scene_id: 1,
        scenes: vec![Scene { id: 1, items: Vec::new() }],
        sources: Vec::new(),
        output: OutputConfig { width: 16, height: 9, fps: 30, background: String::new() },
    }
}

#[test]
fn media_session_opens_plays_and_closes() {
    let mut sessions: MediaSessions<u8> = MediaSessions::new();
    let mut bus = media_control_bus();
    let mut effects = Vec::new();
    let mut events = Vec::new();
    let film = source("a.mp4");
    assert!(sessions.begin(&film, 0, &mut effects));
    sessions.on_open(&film, true, Ok(()), 0, &mut events);
    assert!(!sessions.begin(&film, 1, &mut effects));
    sessions.drive(&film, true, &mut bus, &mut effects);
    assert!(effects.is_empty());
    sessions.drive(&film, false, &mut bus, &mut effects);
    sessions.drive(&film, true, &mut bus, &mut effects);
    let command = |command| MediaEffect::Command { source_id: 1, command };
    assert_eq!(
        effects,
        vec![
            command(MediaCommand::Pause),
            command(MediaCommand::Seek(0)),
            command(MediaCommand::Play)
        ]
    );
    effects.clear();
    bus.controls.insert(1, MediaControl { playing: true, seek_seconds: Some(5), epoch: 1 });
    sessions.drive(&film, true, &mut bus, &mut effects);
    sessions.drive(&film, true, &mut bus, &mut effects);
    assert_eq!(effects, vec![command(MediaCommand::Seek(5))]);
    effects.clear();
    assert!(sessions.begin(&source("b.mp4"), 2, &mut effects));
    assert_eq!(effects, vec![MediaEffect::Close { source_id: 1 }]);
    sessions.on_open(&film, true, Ok(()), 0, &mut events);
    effects.clear();
    sessions.prune(&empty_project(), &mut effects);
    assert_eq!(effects, vec![MediaEffect::Close { source_id: 1 }]);
    assert!(events.is_empty());
}

#[test]
fn unplayable_media_waits_before_its_next_attempt() {
    let mut sessions: MediaSessions<u8> = MediaSessions::new();
    let mut effects = Vec::new();
    let mut events = Vec::new();
    let film = source("a.mp4");
    sessions.on_open(&film, true, Err("weg".into()), 10, &mut events);
    assert!(matches!(
        &events[0],
        EngineEvent::UnsupportedMedia { source_id: 1, reason } if reason == "weg"
    ));
    assert!(!sessions.begin(&film, 9 + MEDIA_RETRY_COOLDOWN_NS, &mut effects));
    assert!(sessions.begin(&film, 10 + MEDIA_RETRY_COOLDOWN_NS, &mut effects));
    assert!(effects.is_empty());
}

#[test]
fn end_of_a_file_pauses_its_control() {
    let mut sessions: MediaSessions<u8> = MediaSessions::new();
    let mut bus = media_control_bus();
    let mut available = IdSet::new();
    let mut effects = Vec::new();
    let mut events = Vec::new();
    let failures: IdMap<u64> = IdMap::new();
    let film = source("a.mp4");
    sessions.on_open(&film, true, Ok(()), 0, &mut events);
    let state = MediaState { playing: false, position_bits: 1, duration_bits: None };
    let ended = MediaNotice::State { source_id: 1, state };
    sessions.on_notice(ended, 0, &failures, &mut bus, &mut available, &mut effects, &mut events);
    assert!(!bus.read(1).playing);
    assert!(matches!(events[0], EngineEvent::MediaState { source_id: 1, .. }));
    bus.controls.insert(1, MediaControl { playing: true, seek_seconds: None, epoch: 1 });
    sessions.drive(&film, true, &mut bus, &mut effects);
    assert_eq!(
        effects,
        vec![MediaEffect::Command { source_id: 1, command: MediaCommand::Play }]
    );
    effects.clear();
    let frame = MediaNotice::Video { source_id: 1, frame: 7 };
    sessions.on_notice(frame, 0, &failures, &mut bus, &mut available, &mut effects, &mut events);
    assert!(available.contains(1));
    assert_eq!(sessions.frames.get(1), Some(&7));
    let unsupported = MediaNotice::Unsupported { source_id: 1, reason: "nein".into() };
    sessions.on_notice(
        unsupported, 0, &failures, &mut bus, &mut available, &mut effects, &mut events,
    );
    assert!(!available.contains(1));
    assert_eq!(effects, vec![MediaEffect::Close { source_id: 1 }]);
}

#[test]
fn ended_file_plays_again_from_its_start() {
    let mut player = Player::new(false);
    let mut effects = Vec::new();
    player.on_end_of_stream(&mut effects);
    effects.clear();
    assert_eq!(player.on_command(MediaCommand::Play), PipelineCall::SeekStart);
    assert!(!player.on_restart_seek(false, &mut effects));
    assert!(effects.is_empty());
    assert_eq!(player.on_command(MediaCommand::Play), PipelineCall::SeekStart);
    assert!(player.on_restart_seek(true, &mut effects));
    assert!(matches!(effects[0], PlayerEffect::RingClear));
    assert_eq!(player.on_command(MediaCommand::Play), PipelineCall::SetPlaying);
}

#[test]
fn sample_without_planes_says_why() {
    assert_eq!(SampleFault::NoCaps.message(), "video sample has no caps");
    assert_eq!(
        SampleFault::InvalidCaps("nein".into()).message(),
        "invalid DMA-DRM video caps: nein"
    );
    assert_eq!(SampleFault::NoBuffer.message(), "video sample has no buffer");
}
