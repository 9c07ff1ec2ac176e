use hooviestar::engine_event::{DeviceRecoveryPhase, EngineEvent};
use hooviestar::id_map::IdMap;
use hooviestar::image_cache::ImageCache;
use hooviestar::project::{
    active_scene, find_source, is_shown, source_name, OutputConfig, Project, Scene, SceneItem,
    Source, TextAlign, TextSource,
};
use hooviestar::recovery::{backoff_duration, RecoveryBudget, RecoveryOutcome};
use hooviestar::render_loop::{
    check_handles, startup_failed, surface_side, swapchains_to_recreate, wanted_extents, Extent,
    NativeSurfaceKind, NativeSurfaces, NextStep, RenderFailure, RenderLoop, StartupStage,
};
use hooviestar::static_textures::{
    ImageFile, StaticIdentity, StaticPass, StaticRequest, StaticTextures,
};
use hooviestar::text_raster::TextCache;
use hooviestar::vulkan_choice::{
    check_media_format, check_upload, choose_device, choose_extent, choose_format, drm_to_vk,
    find_memory_type, find_memory_type_any, image_count, plan_import, plan_media_import,
    DeviceInfo, ImportError, PackedFormat, PlaneInfo, PlaneLayout, QueueFamily,
    SurfaceLimits, DRM_FORMAT_ABGR8888, DRM_FORMAT_ARGB8888, DRM_FORMAT_NV12, DRM_FORMAT_XBGR8888,
    DRM_FORMAT_XRGB8888,
};
use hooviestar::vulkan_staging::{
    bound_rollback, import_rollback, scene_rollback, upload_release, upload_view_failed,
    BuildStage, ImportStage, PartialVulkan, Resource, SceneStage, SwapchainStage, UploadOutcome,
    UploadStage,
};

fn extent(width: u32, height: u32) -> Extent {
    Extent { width, height }
}

fn surfaces(kind: NativeSurfaceKind) -> NativeSurfaces {
    NativeSurfaces {
        kind,
        studio: 1,
        display: 2,
        program: 3,
        preview: 4,
        program_width: 1280,
        program_height: 720,
        preview_width: 0,
        preview_height: 540,
    }
}

#[test]
fn backoff_grows_up_to_two_seconds() {
    let waits: Vec<u64> = (1..=11).map(backoff_duration).collect();
    assert_eq!(
        waits,
        vec![200, 400, 600, 800, 1000, 1200, 1400, 1600, 1800, 2000, 2000]
    );
    assert_eq!(backoff_duration(u32::MAX), 2000);
}

#[test]
fn eighth_failure_in_a_row_gives_up() {
    let mut budget = RecoveryBudget::new();
    let mut events = Vec::new();
    for _ in 0..7 {
        assert_eq!(budget.on_failure("weg", &mut events), RecoveryOutcome::RetryAfterBackoff);
    }
    assert_eq!(budget.on_failure("weg", &mut events), RecoveryOutcome::GiveUp);
    assert_eq!(events.len(), 9);
    assert!(matches!(
        &events[8],
        EngineEvent::EngineError { message }
            if message == "Vulkan-Renderer nach 8 Wiederherstellungsversuchen aufgegeben: weg"
    ));
    budget.on_success(&mut events);
    assert_eq!(budget.failures(), 0);
}

#[test]
fn handles_are_checked_before_surfaces_are_made() {
    assert!(check_handles(surfaces(NativeSurfaceKind::Xlib)).is_ok());
    let xlib = surfaces(NativeSurfaceKind::Xlib);
    assert_eq!(
        check_handles(NativeSurfaces { display: 0, ..xlib }).unwrap_err(),
        "native display handle is null"
    );
    let wayland = surfaces(NativeSurfaceKind::Wayland);
    assert_eq!(
        check_handles(NativeSurfaces { program: 0, ..wayland }).unwrap_err(),
        "Program Wayland surface is null"
    );
    assert_eq!(
        check_handles(NativeSurfaces { preview: 0, ..wayland }).unwrap_err(),
        "Preview Wayland surface is null"
    );
    assert!(check_handles(surfaces(NativeSurfaceKind::Win32)).is_err());
    assert_eq!(surface_side(0), 1);
    assert_eq!(wanted_extents(xlib), (extent(1280, 720), extent(1, 540)));
}

#[test]
fn only_outdated_swapchains_are_rebuilt() {
    let a = extent(1, 1);
    let b = extent(2, 2);
    let plan = swapchains_to_recreate(a, a, a, b, false);
    assert!(!plan.program && plan.preview);
    let forced = swapchains_to_recreate(a, a, a, a, true);
    assert!(forced.program && forced.preview);
}

#[test]
fn render_loop_recovers_and_gives_up() {
    let mut events = Vec::new();
    let mut rounds = RenderLoop::new(extent(1920, 1080), 0);
    assert!(!rounds.needs_device());
    let size = surfaces(NativeSurfaceKind::Xlib);
    let (program, preview) = wanted_extents(size);
    assert!(!rounds.begin_resize(extent(1920, 1080), program, preview, size, &mut events));
    assert!(rounds.begin_resize(extent(1280, 720), program, preview, size, &mut events));
    assert!(rounds.on_resized(Ok(()), extent(1280, 720), &mut events).is_none());
    assert_eq!(events.len(), 2);
    events.clear();
    assert_eq!(
        rounds.on_rendered(Err(RenderFailure::AcquireTimeout), &mut events),
        NextStep::Pace
    );
    let lost = RenderFailure::Device { swapchain_scoped: true, name: "X".into() };
    assert_eq!(rounds.on_rendered(Err(lost), &mut events), NextStep::RecreateSwapchains);
    assert_eq!(rounds.on_swapchains_recreated(false, &mut events), NextStep::RecreateDevice);
    assert!(rounds.needs_device());
    assert_eq!(
        rounds.on_device_recreated(Err("weg".into()), &mut events),
        NextStep::BackoffThenPace
    );
    assert_eq!(rounds.backoff(), 200);
    assert_eq!(
        rounds.on_device_built(Err("weg".into()), extent(1, 1), &mut events),
        NextStep::BackoffThenNextRound
    );
    assert_eq!(
        rounds.on_device_built(Ok(()), extent(1, 1), &mut events),
        NextStep::NextRound
    );
    let import = RenderFailure::Import { reason: "falsch".into() };
    assert_eq!(rounds.on_rendered(Err(import), &mut events), NextStep::NextRound);
    for _ in 0..7 {
        assert!(rounds.on_capture_failed("weg", &mut events));
    }
    assert!(!rounds.on_capture_failed("weg", &mut events));
}

#[test]
fn lost_device_is_named() {
    let mut events = Vec::new();
    let mut rounds = RenderLoop::new(extent(1, 1), 0);
    let lost = RenderFailure::Device { swapchain_scoped: false, name: "DEVICE_LOST".into() };
    assert_eq!(rounds.on_rendered(Err(lost), &mut events), NextStep::RecreateDevice);
    assert!(matches!(
        &events[0],
        EngineEvent::DeviceRecovery { phase: DeviceRecoveryPhase::Started, detail: Some(detail) }
            if detail == "Vulkan-Gerät wird nach DEVICE_LOST neu erstellt"
    ));
}

#[test]
fn frames_are_paced_without_catching_up() {
    let mut rounds = RenderLoop::new(extent(1, 1), 1_000);
    assert_eq!(rounds.pace(500, 1_200), 300);
    assert_eq!(rounds.pace(500, 1_600), 400);
    assert_eq!(rounds.pace(500, 9_000), 0);
    assert_eq!(rounds.pace(500, 9_100), 400);
}

#[test]
fn failed_start_is_reported() {
    let mut events = Vec::new();
    let compositor = startup_failed(StartupStage::Compositor, "weg", &mut events);
    let capture = startup_failed(StartupStage::Capture, "weg", &mut events);
    let media = startup_failed(StartupStage::Media, "weg", &mut events);
    assert!(compositor.ends_with("weg") && capture.ends_with("weg") && media.ends_with("weg"));
    assert!(!events.is_empty());
}

fn text_source(id: u128, text: &str) -> Source {
    Source::Text(TextSource {
        id,
        name: "Titel".into(),
        text: text.into(),
        font_family: "Sans".into(),
        font_size_bits: 32f32.to_bits(),
        font_weight: 400,
        color: "#ffffff".into(),
        background_color: "#000000".into(),
        align: TextAlign::Left,
    })
}

fn item(source_id: u128, visible: bool) -> SceneItem {
    SceneItem { source_id, visible, panel_width: 100, panel_height: 50 }
}

fn project() -> Project {
    Project {
        active_scene_id: 2,
        scenes: vec![
            Scene { id: 1, items: Vec::new() },
            Scene { id: 2, items: vec![item(10, true), item(11, true), item(12, false)] },
        ],
        sources: vec![
            text_source(10, "Hallo"),
            Source::Image { id: 11, name: "Bild".into(), path: "a.png".into() },
            text_source(12, "versteckt"),
        ],
        output: OutputConfig { width: 16, height: 9, fps: 30, background: String::new() },
    }
}

#[test]
fn project_is_searched() {
    let p = project();
    assert_eq!(active_scene(&p), Some(1));
    assert_eq!(find_source(&p.sources, 11), Some(1));
    assert_eq!(find_source(&p.sources, 99), None);
    assert_eq!(source_name(&p.sources[1]), "Bild");
    assert_eq!(p.sources[2].id(), 12);
    assert!(is_shown(&p, 10));
    assert!(!is_shown(&p, 12));
}

#[test]
fn same_static_picture_is_not_uploaded_again() {
    let p = project();
    let mut pass = StaticPass::begin(&p).unwrap_or_else(|| panic!("has an active scene"));
    let mut textures: StaticTextures<&str> = StaticTextures::new();
    let mut retired = Vec::new();
    let mut events = Vec::new();
    let key = match pass.next(&p) {
        Some(StaticRequest::Text { source_id: 10, key }) => key,
        _ => panic!("source 10 is a text"),
    };
    assert_eq!((key.width, key.height), (100, 50));
    assert!(!textures.text_unchanged(10, &key));
    textures.on_uploaded(
        10, StaticIdentity::Text(key.copy()), "text", &mut retired, &mut events,
    );
    assert!(textures.text_unchanged(10, &key));
    match pass.next(&p) {
        Some(StaticRequest::Image { source_id: 11, path }) => assert_eq!(path, "a.png"),
        _ => panic!("source 11 is an image"),
    }
    let path = b"a.png".to_vec();
    pass.note_image(path.clone());
    let identity = StaticIdentity::Image { path: path.clone(), fingerprint: (1, 2) };
    textures.on_uploaded(11, identity, "image", &mut retired, &mut events);
    assert!(textures.image_unchanged(11, &path, (1, 2)));
    assert!(!textures.image_unchanged(11, &path, (1, 3)));
    assert!(pass.next(&p).is_none());
    assert_eq!(events.len(), 2);
    let mut texts = TextCache::new();
    let mut images = ImageCache::new();
    textures.finish(&pass, &mut texts, &mut images, 0, &mut retired);
    assert!(retired.is_empty());
    let mut other = project();
    other.active_scene_id = 1;
    let mut empty = StaticPass::begin(&other).unwrap_or_else(|| panic!("has an active scene"));
    assert!(empty.next(&other).is_none());
    textures.finish(&empty, &mut texts, &mut images, 0, &mut retired);
    assert_eq!(retired.len(), 2);
    other.active_scene_id = 9;
    assert!(StaticPass::begin(&other).is_none());
}

#[test]
fn failed_picture_is_reported_once_and_comes_back() {
    let mut textures: StaticTextures<&str> = StaticTextures::new();
    let mut retired = Vec::new();
    let mut events = Vec::new();
    textures.on_failed(11, "weg".into(), &mut retired, &mut events);
    textures.on_failed(11, "weg".into(), &mut retired, &mut events);
    assert_eq!(events.len(), 1);
    textures.on_failed(11, "anders".into(), &mut retired, &mut events);
    assert_eq!(events.len(), 2);
    let identity = StaticIdentity::Image { path: b"a".to_vec(), fingerprint: (0, 0) };
    textures.on_uploaded(11, identity, "image", &mut retired, &mut events);
    assert!(matches!(events[2], EngineEvent::SourceAvailable { source_id: 11 }));
    textures.on_unchanged(11, &mut events);
    assert_eq!(events.len(), 3);
}

fn device(extensions: Option<Vec<&str>>, ycbcr: bool, graphics: bool) -> DeviceInfo {
    DeviceInfo {
        extensions: extensions
            .map(|names| names.iter().map(|name| name.as_bytes().to_vec()).collect())
            .ok_or("device lost".to_owned()),
        ycbcr_conversion: ycbcr,
        families: vec![
            QueueFamily { graphics: true, presents_program: true, presents_preview: false },
            QueueFamily { graphics, presents_program: true, presents_preview: true },
        ],
    }
}

#[test]
fn first_suitable_device_is_chosen() {
    let required = vec![b"swapchain".to_vec(), b"dmabuf".to_vec()];
    let all = || Some(vec!["dmabuf", "swapchain", "other"]);
    let devices = vec![
        device(Some(vec!["swapchain"]), true, true),
        device(all(), false, true),
        device(all(), true, false),
        device(all(), true, true),
    ];
    assert_eq!(choose_device(&devices, &required), Ok((3, 1)));
    assert_eq!(
        choose_device(&vec![device(None, true, true)], &required),
        Err("query device extensions: device lost".to_owned())
    );
    assert_eq!(
        choose_device(&Vec::new(), &required).err().unwrap(),
        "no Vulkan device supports the required extensions and features and can present both surfaces"
    );
}

#[test]
fn swapchain_settings_fit_the_surface() {
    assert_eq!(choose_format(&vec![1, 2, 2], 2), Ok(1));
    assert_eq!(choose_format(&vec![1, 3], 2), Ok(0));
    assert_eq!(choose_format(&Vec::new(), 2), Err("surface has no Vulkan formats".to_owned()));
    let limits = SurfaceLimits {
        current: extent(u32::MAX, u32::MAX),
        min: extent(10, 10),
        max: extent(100, 100),
        min_images: 2,
        max_images: 0,
    };
    assert_eq!(choose_extent(limits, extent(5, 500)), extent(10, 100));
    let fixed = SurfaceLimits { current: extent(7, 8), ..limits };
    assert_eq!(choose_extent(fixed, extent(5, 500)), extent(7, 8));
    assert_eq!(image_count(limits), 3);
    assert_eq!(image_count(SurfaceLimits { max_images: 2, ..limits }), 2);
}

#[test]
fn memory_types_are_searched_in_order() {
    let types = vec![0b001, 0b011, 0b111];
    assert_eq!(find_memory_type(&types, 0b110, 0b010), Ok(1));
    assert_eq!(find_memory_type(&types, 0b100, 0b010), Ok(2));
    assert_eq!(
        find_memory_type(&types, 0b001, 0b1010).err().unwrap(),
        "no Vulkan memory type with bits 0b1 satisfying 0xa"
    );
    assert_eq!(
        find_memory_type(&types, 0b11000, 0).err().unwrap(),
        "no Vulkan memory type with bits 0b11000 satisfying 0x0"
    );
    assert_eq!(find_memory_type_any(&types, 0b001, 0b010), Ok(0));
    assert_eq!(
        find_memory_type_any(&types, 0, 0).err().unwrap(),
        "no compatible Vulkan memory type"
    );
}

#[test]
fn captured_frames_are_imported_by_format() {
    assert_eq!(drm_to_vk(DRM_FORMAT_XRGB8888), Some(PackedFormat::Bgra8));
    assert_eq!(drm_to_vk(DRM_FORMAT_ARGB8888), Some(PackedFormat::Bgra8));
    assert_eq!(drm_to_vk(DRM_FORMAT_XBGR8888), Some(PackedFormat::Rgba8));
    assert_eq!(drm_to_vk(DRM_FORMAT_ABGR8888), Some(PackedFormat::Rgba8));
    assert_eq!(drm_to_vk(DRM_FORMAT_NV12), None);
    let planes = vec![PlaneInfo { offset: 8, stride: 64 }];
    let plan = plan_import(DRM_FORMAT_XRGB8888, 1, &planes, 10).unwrap();
    assert!(plan.opaque_alpha);
    assert_eq!(plan.layout, PlaneLayout { offset: 8, size: 640, row_pitch: 64 });
    assert!(!plan_import(DRM_FORMAT_ARGB8888, 1, &planes, 10).unwrap().opaque_alpha);
    assert_eq!(
        plan_import(DRM_FORMAT_NV12, 1, &planes, 10),
        Err(ImportError::UnsupportedFormat)
    );
    assert_eq!(
        plan_import(DRM_FORMAT_XRGB8888, 0x00ff_ffff_ffff_ffff, &planes, 10),
        Err(ImportError::ModifierNotFixated)
    );
    assert_eq!(
        plan_import(DRM_FORMAT_XRGB8888, 1, &Vec::new(), 10),
        Err(ImportError::NotOnePlane)
    );
}

#[test]
fn decoded_frames_have_a_luma_and_a_chroma_plane() {
    assert!(check_media_format(DRM_FORMAT_NV12, 0).is_ok());
    assert_eq!(
        check_media_format(DRM_FORMAT_XRGB8888, 0),
        Err(ImportError::UnsupportedMediaFormat(DRM_FORMAT_XRGB8888))
    );
    assert_eq!(
        check_media_format(DRM_FORMAT_NV12, 0x00ff_ffff_ffff_ffff),
        Err(ImportError::InvalidMediaModifier)
    );
    let planes = vec![PlaneInfo { offset: 0, stride: 10 }, PlaneInfo { offset: 70, stride: 10 }];
    let (luma, chroma) = plan_media_import(&planes, 7).unwrap();
    assert_eq!((luma.size, chroma.size, chroma.offset), (70, 40, 70));
    assert_eq!(plan_media_import(&Vec::new(), 7), Err(ImportError::NotTwoPlanes(0)));
    assert!(!ImportError::NotTwoPlanes(0).message().is_empty());
    assert_eq!(check_upload(2, 3, 24).unwrap(), 24);
    assert!(check_upload(2, 3, 23).is_err());
    assert!(check_upload(0, 3, 0).is_err());
}

#[test]
fn unfinished_device_is_taken_down_in_order() {
    let mut partial = PartialVulkan::new();
    assert!(partial.destroy_created().is_empty());
    let mut built = Vec::new();
    while let Some(stage) = partial.next_step() {
        built.push(stage);
        partial.step_done();
        if stage == BuildStage::FrameFence {
            break;
        }
    }
    assert_eq!(built[0], BuildStage::Instance);
    assert_eq!(
        partial.destroy_created(),
        vec![
            BuildStage::CommandPool,
            BuildStage::FrameFence,
            BuildStage::Device,
            BuildStage::ProgramSurface,
            BuildStage::PreviewSurface,
            BuildStage::Instance
        ]
    );
}

#[test]
fn unfinished_parts_release_what_they_hold() {
    let mut swapchain = SwapchainStage::new(1);
    assert_eq!(swapchain.rollback(), vec![Resource::RenderPass(1)]);
    swapchain.swapchain = Some(2);
    swapchain.views = vec![3, 4];
    let released = swapchain.rollback();
    assert!(released.contains(&Resource::Swapchain(2)));
    assert!(released.contains(&Resource::ImageView(3)));
    assert!(released.contains(&Resource::ImageView(4)));
    assert_eq!(released.len(), 4);
    let scene = SceneStage { image: 1, memory: Some(2), view: None, framebuffer: None };
    let scene_parts = scene_rollback(scene);
    assert_eq!(scene_parts.len(), 2);
    assert!(scene_parts.contains(&Resource::Image(1)));
    assert!(scene_parts.contains(&Resource::Memory(2)));
    let import = ImportStage { image: 1, memories: vec![2, 3], view: None };
    assert_eq!(import_rollback(&import).len(), 3);
    assert_eq!(bound_rollback(Resource::Buffer(1), None), vec![Resource::Buffer(1)]);
    assert_eq!(bound_rollback(Resource::Buffer(1), Some(2)).len(), 2);
}

#[test]
fn upload_keeps_its_picture_only_where_it_was_copied() {
    let stage = UploadStage {
        staging_buffer: 1,
        staging_memory: 2,
        image: 3,
        memory: 4,
        command_buffer: Some(5),
        fence: Some(6),
    };
    let copied = upload_release(stage, UploadOutcome::Copied);
    assert!(!copied.contains(&Resource::Image(3)));
    assert!(copied.contains(&Resource::Buffer(1)));
    let failed = upload_release(stage, UploadOutcome::CopyFailed);
    assert!(failed.contains(&Resource::Image(3)) && failed.contains(&Resource::Memory(4)));
    let none = upload_release(stage, UploadOutcome::NoImage);
    assert!(!none.contains(&Resource::Image(3)));
    assert!(upload_view_failed(stage).contains(&Resource::Image(3)));
    let empty: IdMap<u8> = IdMap::new();
    assert!(empty.keys().is_empty());
}

#[test]
fn retired_swapchain_goes_before_its_replacement() {
    let mut swapchain = SwapchainStage::new(1);
    swapchain.swapchain = Some(2);
    swapchain.views = vec![3];
    swapchain.framebuffers = vec![4];
    swapchain.available = Some(5);
    swapchain.rendered = vec![6];
    swapchain.pipeline_layout = Some(7);
    swapchain.pipeline = Some(8);
    assert_eq!(
        swapchain.retire(),
        vec![
            Resource::Framebuffer(4),
            Resource::ImageView(3),
            Resource::Pipeline(8),
            Resource::PipelineLayout(7),
            Resource::RenderPass(1),
            Resource::Semaphore(5),
            Resource::Semaphore(6),
            Resource::Swapchain(2),
        ]
    );
}

#[test]
fn broken_image_is_not_decoded_every_frame() {
    let p = project();
    let mut textures: StaticTextures<&str> = StaticTextures::new();
    let mut texts = TextCache::new();
    let mut images = ImageCache::new();
    let mut retired = Vec::new();
    let mut events = Vec::new();
    let path = b"/a.png".to_vec();
    let garbage = b"no image".to_vec();
    let file = || ImageFile { path: path.clone(), shown: "/a.png".into(), fingerprint: (1, 2) };
    let frame = 16_000_000;
    for n in 0..4 {
        let now = n * frame;
        let mut pass = StaticPass::begin(&p).unwrap_or_else(|| panic!("has an active scene"));
        while let Some(request) = pass.next(&p) {
            if let StaticRequest::Image { source_id, .. } = request {
                assert_eq!(images.needs_contents(&path, (1, 2), now), n == 0);
                assert!(textures
                    .on_image(
                        &mut pass, source_id, Ok(file()), Ok(&garbage), now, &mut images,
                        &mut retired, &mut events,
                    )
                    .is_none());
            }
        }
        textures.finish(&pass, &mut texts, &mut images, now, &mut retired);
    }
    assert!(images.needs_contents(&path, (1, 2), 5_000_000_000));
    assert!(images.needs_contents(&path, (1, 3), 1));
    assert!(matches!(
        events.last(),
        Some(EngineEvent::SourceUnavailable { source_id: 11, reason })
            if reason == "image decode recently failed, retry after cooldown: /a.png"
    ));
    let mut other = project();
    other.active_scene_id = 1;
    let mut empty = StaticPass::begin(&other).unwrap_or_else(|| panic!("has an active scene"));
    assert!(empty.next(&other).is_none());
    textures.finish(&empty, &mut texts, &mut images, 4 * frame, &mut retired);
    assert!(!images.needs_contents(&path, (1, 2), 5 * frame));
    textures.finish(&empty, &mut texts, &mut images, 5_000_000_000, &mut retired);
    assert!(images.needs_contents(&path, (1, 2), 5 * frame));
}

#[test]
fn picture_is_uploaded_where_it_changed() {
    let p = project();
    let mut pass = StaticPass::begin(&p).unwrap_or_else(|| panic!("has an active scene"));
    let mut textures: StaticTextures<&str> = StaticTextures::new();
    let mut texts = TextCache::new();
    let mut images = ImageCache::new();
    let mut retired = Vec::new();
    let mut events = Vec::new();
    let key = match pass.next(&p) {
        Some(StaticRequest::Text { source_id: 10, key }) => key,
        _ => panic!("source 10 is a text"),
    };
    assert!(textures.needs_glyphs(10, &key, &texts));
    let (identity, panel) = textures
        .on_text(10, key.copy(), Ok(Vec::new()), &mut texts, &mut retired, &mut events)
        .unwrap_or_else(|| panic!("is uploaded"));
    assert_eq!((panel.width, panel.height), (100, 50));
    textures.on_upload(10, identity, Ok("text"), &mut retired, &mut events);
    assert!(!textures.needs_glyphs(10, &key, &texts));
    assert!(textures
        .on_text(10, key, Ok(Vec::new()), &mut texts, &mut retired, &mut events)
        .is_none());
    assert_eq!(events.len(), 1);
    let failed = textures.on_image(
        &mut pass, 11, Err("image path a.png: weg".into()), Ok(&Vec::new()), 0, &mut images,
        &mut retired, &mut events,
    );
    assert!(failed.is_none());
    assert!(pass.desired_images.is_empty());
    assert!(matches!(
        events.last(),
        Some(EngineEvent::SourceUnavailable { source_id: 11, reason })
            if reason == "image path a.png: weg"
    ));
    let identity = StaticIdentity::Image { path: b"a".to_vec(), fingerprint: (0, 0) };
    textures.on_upload(10, identity, Err("voll".into()), &mut retired, &mut events);
    assert_eq!(retired, vec!["text"]);
    assert!(matches!(
        events.last(),
        Some(EngineEvent::SourceUnavailable { source_id: 10, reason }) if reason == "voll"
    ));
}
