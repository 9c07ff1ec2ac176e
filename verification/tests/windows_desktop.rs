use hooviestar::platform_windows::{
    assert_mapped_offscreen, assert_program_picker_covered, configure_graphics_backend,
    offscreen_program_position, plan_show_program, rectangles_contain, rectangles_intersect,
    restore_program_offscreen, stage_program_for_picker, window_is_above, OutputVisibility, Rect,
    VirtualDesktop, WindowState,
};
use hooviestar::windows_preview::{
    attach, client_size, creation_error, creation_rollback, enumerate_sources, finish_overlay,
    handle_rect, initial_surfaces, pointer_keys, preview_failure, rgb, selection_style,
    select_portal_sources, signed_word, Attachment, ListedSources, NativePreview, Overlay, OverlayAction, OverlayMessage, PointerPhase,
    PreviewFailure, PreviewRegistry, PreviewStage, PreviewWindow, Visibility,
};

fn rect(left: i32, top: i32, right: i32, bottom: i32) -> Rect {
    Rect { left, top, right, bottom }
}

#[test]
fn program_is_placed_left_of_single_monitor_desktop() {
    assert_eq!(offscreen_program_position(0, 0, 1920, 1280), Ok((-1408, 0)));
}

#[test]
fn program_is_placed_left_of_negative_origin_multi_monitor_desktop() {
    assert_eq!(
        offscreen_program_position(-1920, -120, 3840, 1920),
        Ok((-3968, -120))
    );
}

#[test]
fn extreme_left_coordinate_falls_back_right_of_desktop() {
    assert_eq!(
        offscreen_program_position(i32::MIN + 64, 42, 3840, 1920),
        Ok((i32::MIN + 4032, 42))
    );
}

#[test]
fn impossible_coordinate_range_fails_closed() {
    assert!(offscreen_program_position(i32::MAX - 4, 0, 8, 1920).is_err());
}

#[test]
fn picker_cover_must_contain_every_program_edge() {
    let cover = Rect { left: -8, top: -8, right: 1928, bottom: 1088 };
    assert!(rectangles_contain(
        cover,
        Rect { left: 0, top: 0, right: 1280, bottom: 720 }
    ));
    assert!(!rectangles_contain(
        cover,
        Rect { left: 0, top: 0, right: 1930, bottom: 720 }
    ));
}

#[test]
fn touching_rectangles_do_not_intersect() {
    assert!(rectangles_intersect(rect(0, 0, 10, 10), rect(9, 9, 20, 20)));
    assert!(!rectangles_intersect(rect(0, 0, 10, 10), rect(10, 0, 20, 10)));
}

#[test]
fn shown_program_is_off_the_desktop() {
    let desktop = VirtualDesktop { left: 0, top: 0, width: 1920, height: 1080 };
    let (place, area) = plan_show_program(desktop, 1280, 720).unwrap();
    assert_eq!((place.x, place.y, place.width, place.height), (-1408, 0, 1280, 720));
    assert_eq!(area, rect(0, 0, 1920, 1080));
    let program = rect(-1408, 0, -128, 720);
    assert!(assert_mapped_offscreen(true, false, Ok(program), area).is_ok());
    assert_eq!(
        assert_mapped_offscreen(false, false, Ok(program), area).unwrap_err(),
        "Program-Ausgabe ist nicht für Capture-APIs gemappt"
    );
    assert_eq!(
        assert_mapped_offscreen(true, true, Ok(program), area).unwrap_err(),
        "Program-Ausgabe wurde unerwartet minimiert"
    );
    assert!(assert_mapped_offscreen(true, false, Err("weg".into()), area).is_err());
    let visible = assert_mapped_offscreen(true, false, Ok(rect(0, 0, 10, 10)), area).unwrap_err();
    assert_eq!(
        visible,
        "Program-Ausgabe schneidet sichtbaren Desktop: program=RECT { left: 0, top: 0, right: 10, bottom: 10 }, desktop=RECT { left: 0, top: 0, right: 1920, bottom: 1080 }"
    );
    let none = VirtualDesktop { left: 0, top: 0, width: 0, height: 1080 };
    assert_eq!(
        plan_show_program(none, 1280, 720).unwrap_err(),
        "Windows meldet keinen virtuellen Desktop"
    );
    assert_eq!(
        plan_show_program(desktop, u32::MAX, 720).unwrap_err(),
        "Programmbreite ist zu groß"
    );
}

#[test]
fn picker_stage_is_covered_by_the_studio() {
    let cover = rect(0, 0, 1920, 1080);
    let program = rect(-1408, 0, -128, 720);
    let place = stage_program_for_picker(program, cover, true, false).unwrap();
    assert_eq!((place.width, place.height), (1280, 720));
    assert_eq!(
        stage_program_for_picker(program, cover, false, false).unwrap_err(),
        "Studio muss sichtbar und maximiert bleiben"
    );
    assert_eq!(
        stage_program_for_picker(rect(0, 0, 4000, 720), cover, true, false).unwrap_err(),
        "Studio deckt Program für sichere Auswahl nicht vollständig ab: program=RECT { left: 0, top: 0, right: 4000, bottom: 720 }, studio=RECT { left: 0, top: 0, right: 1920, bottom: 1080 }"
    );
    let staged = WindowState {
        visible: true,
        minimized: false,
        rectangle: Ok(rect(
            place.x,
            place.y,
            place.x + place.width,
            place.y + place.height,
        )),
    };
    let studio = WindowState { visible: true, minimized: false, rectangle: Ok(cover) };
    assert!(assert_program_picker_covered(&staged, &studio, true).is_ok());
    assert_eq!(
        assert_program_picker_covered(&staged, &studio, false).unwrap_err(),
        "Studio-Cover liegt nicht mehr über Program"
    );
    let hidden = WindowState { visible: false, minimized: false, rectangle: Ok(cover) };
    assert_eq!(
        assert_program_picker_covered(&staged, &hidden, true).unwrap_err(),
        "Studio-Cover ist nicht mehr sichtbar"
    );
    let small = WindowState { visible: true, minimized: false, rectangle: Ok(rect(0, 0, 9, 9)) };
    assert!(assert_program_picker_covered(&staged, &small, true)
        .unwrap_err()
        .starts_with("Studio deckt Program nicht mehr vollständig ab"));
    let desktop = VirtualDesktop { left: 0, top: 0, width: 1920, height: 1080 };
    let (back, _) = restore_program_offscreen(rect(0, 0, 1280, 720), desktop).unwrap();
    assert_eq!((back.x, back.y), (-1408, 0));
    assert_eq!(
        restore_program_offscreen(rect(0, 0, 0, 720), desktop).unwrap_err(),
        "Ungültige Geometrie beim Offscreen-Wiederherstellen"
    );
}

#[test]
fn window_order_is_searched_upwards() {
    assert!(window_is_above(&vec![3, 4, 5], 5));
    assert!(!window_is_above(&vec![3, 4], 5));
    let mut many = vec![1; 4096];
    many.push(5);
    assert!(!window_is_above(&many, 5));
    assert!(configure_graphics_backend().is_none());
    let visibility = OutputVisibility::prepare().ok().unwrap();
    assert!(!visibility.initially_visible());
    assert!(visibility.cleanup().is_none());
}

#[test]
fn packed_coordinates_are_signed_words() {
    assert_eq!(signed_word(0x0005_0003, 0), 3);
    assert_eq!(signed_word(0x0005_0003, 16), 5);
    assert_eq!(signed_word(0xffff, 0), -1);
    assert_eq!(signed_word(0x8000_0000, 16), -32768);
    assert_eq!(rgb(1, 2, 3), 0x0003_0201);
    let keys = pointer_keys(true, false, 0, -1, 0);
    assert!(keys.shift_key && keys.alt_key && !keys.ctrl_key);
}

fn kinds(actions: &[OverlayAction<(i32, i32)>]) -> Vec<&'static str> {
    actions
        .iter()
        .map(|action| match action {
            OverlayAction::Validate => "validate",
            OverlayAction::Redraw => "redraw",
            OverlayAction::Capture => "capture",
            OverlayAction::Release => "release",
            OverlayAction::ReleaseOwn => "release own",
            OverlayAction::Emit { phase: PointerPhase::Down, .. } => "down",
            OverlayAction::Emit { phase: PointerPhase::Move, .. } => "move",
            OverlayAction::Emit { phase: PointerPhase::Up, .. } => "up",
            OverlayAction::Emit { phase: PointerPhase::Cancel, .. } => "cancel",
            OverlayAction::Default => "default",
            OverlayAction::Forget => "forget",
        })
        .collect()
}

#[test]
fn a_drag_ends_once() {
    let mut overlay: Overlay<(i32, i32)> = Overlay::new();
    overlay.model_visible = true;
    overlay.native_visible = true;
    let mut actions = Vec::new();
    overlay.on_message(OverlayMessage::ButtonDown((1, 1)), &mut actions);
    assert_eq!(kinds(&actions), vec!["capture", "down"]);
    actions.clear();
    overlay.on_message(OverlayMessage::MouseMove((2, 2)), &mut actions);
    assert_eq!(kinds(&actions), vec!["move"]);
    actions.clear();
    overlay.on_message(OverlayMessage::CaptureChanged, &mut actions);
    overlay.on_message(OverlayMessage::CancelMode, &mut actions);
    let cancels = kinds(&actions).iter().filter(|kind| **kind == "cancel").count();
    assert_eq!(cancels, 1);
    actions.clear();
    overlay.on_message(OverlayMessage::MouseMove((3, 3)), &mut actions);
    assert!(!kinds(&actions).contains(&"move"));
    assert_eq!(overlay.pointer_cancel(), None);
}

#[test]
fn overlay_is_attached_at_its_creation() {
    assert_eq!(attach(true, true), Attachment::Attach);
    assert_eq!(attach(true, false), Attachment::Refuse);
    assert_eq!(attach(false, true), Attachment::Default);
}

#[test]
fn overlay_pixels_and_handles() {
    assert_eq!(client_size(rect(0, 0, 10, 20)), (10, 20));
    assert_eq!(client_size(rect(0, 0, 0, -5)), (1, 1));
    let handle = handle_rect(10, 20);
    assert!(handle.left < 10 && 10 < handle.right);
    assert!(handle.top < 20 && 20 < handle.bottom);
    assert_ne!(selection_style(true), selection_style(false));
    assert!(selection_style(true).dashed);
    let mut pixels = vec![0u32, 0x0012_3456, 0x0000_0001];
    finish_overlay(&mut pixels);
    assert_eq!(pixels[0] >> 24, 1);
    assert_eq!(pixels[1], 0xff12_3456);
    assert_eq!(pixels[2], 0xff00_0001);
}

#[test]
fn failed_preview_creation_takes_its_windows_down() {
    assert!(creation_rollback(PreviewStage::Preview).is_empty());
    assert_eq!(creation_rollback(PreviewStage::Overlay), vec![PreviewWindow::Preview]);
    assert_eq!(
        creation_rollback(PreviewStage::Draw),
        vec![PreviewWindow::Overlay, PreviewWindow::Preview]
    );
    assert_eq!(
        creation_error(PreviewStage::Preview, "e"),
        "Native D3D11-Preview konnte nicht erstellt werden: e"
    );
    let surfaces = initial_surfaces(1, 2, 3, 1280, 720);
    assert_eq!((surfaces.preview_width, surfaces.preview_height), (16, 9));
    assert_eq!((surfaces.program_width, surfaces.program), (1280, 2));
}

#[test]
fn preview_windows_are_destroyed_once() {
    let mut preview = NativePreview { hwnd: 5, overlay: 6 };
    assert_eq!(preview.native_handle(), 5);
    assert_eq!(preview.to_destroy(), (Some(6), Some(5)));
    assert_eq!(
        preview.on_destroyed(Some("a".into()), Some("b".into())).unwrap_err(),
        "Preview-Overlay: a; D3D11-Preview: b"
    );
    assert!(preview.on_destroyed(None, None).is_ok());
    assert_eq!(preview.to_destroy(), (None, None));
}

#[test]
fn preview_registry_knows_its_overlays() {
    let mut registry: PreviewRegistry<(i32, i32)> = PreviewRegistry::new();
    let mut actions = Vec::new();
    assert!(registry.set_preview_overlay(5, true, &mut actions).is_err());
    registry.register(NativePreview { hwnd: 5, overlay: 6 }, Overlay::new());
    assert_eq!(registry.set_preview_bounds(5, 10, 10).unwrap(), (5, 6));
    assert_eq!(
        registry.set_preview_bounds(5, 0, 10).unwrap_err(),
        "Vorschauabmessungen müssen positiv sein"
    );
    assert!(registry.set_preview_overlay(5, true, &mut actions).is_ok());
    assert_eq!(
        registry.begin_set_visible(5, true, &mut actions).unwrap(),
        Visibility { preview: true, overlay: true }
    );
    registry.finish_set_visible(5, true);
    assert_eq!(registry.unregister(5).map(|entry| entry.window), Some(6));
    assert!(registry.unregister(5).is_none());
    assert_eq!(
        registry.set_preview_bounds(5, 10, 10).unwrap_err(),
        "Native Preview-Overlay ist nicht verfügbar"
    );
    assert!(preview_failure(PreviewFailure::ShowOverlay, "e").ends_with(": e"));
}

#[test]
fn sources_are_listed_even_without_audio() {
    let listed = |audio| ListedSources { windows: vec![1], displays: vec![2], audio };
    let found = enumerate_sources(Ok(Ok(listed(Ok(vec![3]))))).unwrap();
    assert_eq!(found.candidates, vec![1, 2, 3]);
    assert!(found.message.is_none() && !found.portal_selection_required);
    let found = enumerate_sources(Ok(Ok(listed(Err("weg".into()))))).unwrap();
    assert_eq!(found.candidates, vec![1, 2]);
    assert_eq!(found.message.unwrap(), "Anwendungs-Audio nicht verfügbar: weg");
    assert_eq!(enumerate_sources::<u8>(Ok(Err("weg".into()))).unwrap_err(), "weg");
    assert_eq!(
        enumerate_sources::<u8>(Err("weg".into())).unwrap_err(),
        "Quellenauflösung fehlgeschlagen: weg"
    );
    assert_eq!(
        select_portal_sources::<u8>().unwrap_err(),
        "Desktop-Portal-Auswahl ist nur unter Linux verfügbar"
    );
}

#[test]
fn registered_overlay_and_its_window_share_their_state() {
    let mut registry: PreviewRegistry<(i32, i32)> = PreviewRegistry::new();
    let mut actions = Vec::new();
    assert_eq!(registry.on_message(5, OverlayMessage::HitTest, &mut actions), None);
    registry.register(NativePreview { hwnd: 5, overlay: 6 }, Overlay::new());
    assert_eq!(registry.on_message(5, OverlayMessage::HitTest, &mut actions), Some(Some(1)));
    registry.on_message(5, OverlayMessage::ButtonDown((3, 4)), &mut actions);
    actions.clear();
    assert!(!registry.set_preview_overlay(5, false, &mut actions).unwrap());
    assert!(matches!(
        actions[..],
        [
            OverlayAction::Emit { phase: PointerPhase::Cancel, position: (3, 4) },
            OverlayAction::ReleaseOwn,
        ]
    ));
    assert_eq!(registry.on_message(5, OverlayMessage::HitTest, &mut actions), Some(Some(0)));
    assert!(registry.set_preview_overlay(5, true, &mut actions).unwrap());
    assert!(registry.begin_set_visible(5, true, &mut actions).is_ok());
    assert_eq!(registry.on_message(5, OverlayMessage::HitTest, &mut actions), Some(Some(0)));
    registry.finish_set_visible(5, true);
    assert_eq!(registry.on_message(5, OverlayMessage::HitTest, &mut actions), Some(Some(1)));
    actions.clear();
    registry.on_message(5, OverlayMessage::MouseMove((1, 1)), &mut actions);
    assert!(actions.is_empty());
}
