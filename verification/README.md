# interstice

The screen logic of INTERSTICE, a game drawn on a fixed grid of 96×54
character cells, as a library verified with Verus.

- `canvas`: the cell grid — single characters with two-column handling for
  wide characters, one-line text runs with alignment and ellipsis,
  rectangles, backgrounds, icons — and drawing commands.
- `render`: what is drawn for a canvas (background blocks, text runs, glyphs,
  icon boxes) and with which font; font loading progress.
- `text`, `width`, `fmt`, `hex`: display widths, fitting text into columns,
  number formatting, `#rrggbb` colours.
- `router`: the page stack and back navigation.
- `save`: save files and their version check.
- `save_load`, `pixel_editor`, `character_creation`, `main_menu`,
  `status_bar`: each page's state, what a hover, click or key does, when it
  needs redrawing, and the drawing commands it produces.

`app/` is the Bevy program around the library: window, mouse and keyboard,
fonts fetched from the web, the theme file, the clipboard, timing, and turning
the render plan into sprites and text.
