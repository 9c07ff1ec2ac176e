//! Verified decision logic of the Hooviestar studio.
pub mod draw_plan;
pub mod engine_event;
pub mod event_gate;
pub mod external_textures;
pub mod font_names;
pub mod frame_flow;
pub mod hotkeys;
pub mod id_map;
pub mod id_set;
pub mod image_cache;
pub mod keyed_map;
pub mod linux;
pub mod linux_media;
pub mod media_sessions;
pub mod platform_linux;
pub mod platform_windows;
pub mod portal_captures;
pub mod project;
pub mod recovery;
pub mod render_loop;
pub mod render_runtime;
pub mod shell;
pub mod source_id;
pub mod static_textures;
pub mod taskbar;
pub mod text;
pub mod text_raster;
pub mod updater;
pub mod video;
pub mod vulkan_choice;
pub mod vulkan_staging;
pub mod windows_caches;
pub mod windows_capture;
pub mod windows_media;
pub mod windows_preview;
pub mod windows_pump;
pub mod windows_render;
pub mod windows_runtime;
pub mod windows_sync;
pub mod windows_video;
