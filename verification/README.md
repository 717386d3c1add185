# vibetty-screenshot (verified core)

Renders `vt100` terminal screens to RGBA images. `src/` is the library,
verified with Verus; `app/` is the ordinary Rust around it.

- `src/theme.rs` — the xterm 256-colour model, bold and dim.
- `src/screen.rs` — a `vt100::Screen` read into a plain grid; the rows shown.
- `src/layout.rs` — image size, cell rectangles and text runs, in paint order.
- `src/glyph.rs` — glyph masks: extraction, grid placement, clipping to a
  text row, FreeType bitmap conversion.
- `src/raster.rs`, `src/canvas.rs` — straight-alpha glyph blending, the text
  layer composited over the background.
- `src/capture.rs` — a layout painted into an image.
- `src/pixmap.rs`, `src/rgba.rs` — `tiny_skia` and `image` behind trusted items.
- `src/laws.rs` — properties that span the functions above.
- `app/` — configuration, font loading and rasterisation (floating point),
  `capture_screen` and `save_screen_png`.

Fonts are read at run time from the directory named by `VIBETTY_FONT_DIR`
(default `assets`): `JetBrainsMono-Regular.ttf` and `SarasaMonoSC-Light.ttf`.

## Transparent background: what is proved

Screenshots have a transparent background: only text, cells with a
background colour and the title bar paint pixels. `render_layout` proves
this, together with the title bar's colours and the colour of each opaque
cell rectangle, for images less than 2^24 pixels each way. Up to 8191
pixels `tiny_skia` fills a rectangle directly; beyond that it fills it as a
path, tile by tile; in both cases, with integer edges that `f32` holds
exactly, only the rectangle's pixels are touched and an opaque colour
lands exactly (see the trusted contract of `pixmap_fill_rect`). From 2^24
pixels on, `f32` no longer holds every integer edge and `tiny_skia` can
move a rectangle's edge by a pixel (a one-pixel rectangle at x = 2^24 + 1
is painted at x = 2^24), so the property does not hold there; the library
states which bytes the fill gives only through the name
`filled_rect_pixels`.
