# Slate

Structures for building and updating user interfaces, with the runtimes
that show them (Bevy, the terminal) and the applications built on them.

## Layout

- `src/` — the verified library.
  - `terminal/` — element blocks of the terminal runtime (bounds, padding,
    border, labels and content as a draw plan) and the terminal surface's
    event handling and nested layout.
  - `bevy_slate/` — the Bevy runtime: text inputs, fonts and surface
    updates, windows and their events, the draw timer, web views, the
    terminal plugin's layout, configuration.
  - `surface_app/`, `hud/` — the logic of the surface and HUD
    applications: key bindings, selection, gamepads, tools.
  - `uix/` — the UIx markup: token trees, the parser of elements, props,
    attributes and class blocks, what a block expands to (or the
    `compile_error!` that reports why it cannot be parsed), and what
    `#[derive(Element)]` gives a struct; `laws.rs` states that written-out
    markup parses back to itself.
  - `chalk.rs` — the style derives (`Unit`, `Rect`, `Size2d`, `Color`,
    `StyleProperty`): the impls each gives a style type.
  - `keys.rs`, `outside.rs` — keys as the logic reads them; the outside
    types the library carries.
- `tests/` — tests of the library.
- `app/` — the programs around it: the terminal loop, the Bevy systems,
  a command that expands UIx markup, style blocks and derived elements,
  and copies of types with serde's derives.
