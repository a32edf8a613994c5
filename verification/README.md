# turi

A small terminal user-interface toolkit whose logic is proved with Verus.

- `src/` is the library: grid geometry (`vec2`, `rect`), CSS-like values,
  rules and style sheets (`css`), text measurement (`util`, `text`), the view
  tree and its builders (`view`, `builder`, `element_view`), event handling
  (`event`, `event_filter`, `event_result`, `update_result`), backends and the
  printer that draws into them (`backend`, `printer`), and wrapping views
  (`widget`, `view_wrappers`, `view_proxys`, `converters`).
- `tests/` runs the library on concrete values.
- `app/` holds what talks to the terminal and the operating system: a
  crossterm backend, conversions to and from `ansi_term` and `crossterm`
  values, raw output files, and the floating-point conversions of window
  input.
