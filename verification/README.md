# iris_ui

A small retained-mode GUI toolkit for embedded displays: a scene of named
views arranged in a tree, their layout, hit testing, focus, dirty-region
tracking, and the behaviour of the built-in widgets (button, label, panel,
grid, text input, toggle button, toggle group, list, tabbed panel, menu).
Views of the application's own making carry their behaviour and state as a
`view::CustomView`, which the library lays out, taps and draws like the
built-in ones.

## Layout

- `src/` is the library, verified with Verus. Each public function states
  what it does in its contract, over a mathematical model of the scene
  (`scene::SceneModel`). The library decides everything: how views are laid
  out (`layouts`), which views lie under a point and what a tap or a key does
  to them (`events`), which views are drawn where (`draw`), and which part of
  the screen must be redrawn (`scene`).
- `app/` carries those decisions out on an `embedded-graphics` display:
  themes with real fonts and colors, drawing contexts, the drawing of each
  kind of view, and input dispatch that also runs application callbacks.
- `tests/` exercises the library on concrete scenes.

Where plain `i32` arithmetic would overflow or divide by zero, the library
returns `input::ArithmeticFault` instead of panicking; `app/` turns that into
a panic, as the plain arithmetic would.
