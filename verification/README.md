# hooviestar

The logic of a live studio that composes captured windows and screens, media files, pictures
and text into scenes. Every item under `src/` is verified with Verus; `app/` is ordinary Rust
around it.

## The library

| Subject | Modules |
| --- | --- |
| Foundations | `text`, `source_id`, `id_map`, `id_set`, `keyed_map`, `project`, `engine_event` |
| What a frame shows | `draw_plan`, `frame_flow`, `static_textures`, `external_textures`, `text_raster`, `font_names`, `image_cache` |
| Vulkan | `vulkan_choice` (devices, formats, memory, imports), `vulkan_staging` (building up and taking down) |
| Rendering on Linux | `render_loop`, `render_runtime`, `recovery`, `portal_captures`, `linux`, `media_sessions`, `linux_media` |
| Rendering on Windows | `windows_video`, `windows_caches`, `windows_capture`, `windows_media`, `windows_pump`, `windows_sync`, `windows_render`, `windows_runtime`, `windows_preview` |
| The desktop program | `video`, `shell`, `hotkeys`, `event_gate`, `taskbar`, `updater`, `platform_linux`, `platform_windows` |

Code that waits for the outside world is written as a machine: one method says what to do next,
another takes the outcome. Each says in its `ensures` what it changes, over a view of the state.
Functions named `law_*` state what holds of several of them together.

Times are counts of nanoseconds, ids are the 128-bit values of their UUIDs, paths are bytes, and
playback positions travel as the bit patterns of their floating-point values.

The library calls `image`, `fontdb`, `fontdue`, `sha2` and `uuid` through small functions marked
`external_body`; what is believed of each is said above it.

## The program

`app/` holds the drivers: threads, Vulkan calls, the screen-cast portal, files and the
floating-point geometry. PipeWire streams, decoding pipelines and the desktop's windows are traits
there, for the platform's own bindings to implement.
