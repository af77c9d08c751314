# macro_ui

The logic of a page on which desktop macros are authored, arranged, run and watched, verified with
Verus.

A macro is a tree of blocks: observations of a window, decisions, loops, watch groups, clicks and
waits. The page edits it through commands, draws it as a graph, lists it as steps and as a timeline,
guides a first draft through a wizard, and shows what a run reports.

## Layout

- `src/` is the library. Every function states what it returns or changes, over the views of the
  types.
  - `macro_engine`, `tree`, `container`, `places`, `identities`: the model of a macro.
  - `edits`, `rule_edits`, `block_edit`, `duplicate`, `commands`, `draft`: commands on a draft, with
    undo and redo.
  - `canvas_model`, `canvas_layout`, `canvas`, `history`: the drawing, its layout and its gestures.
  - `inspector`, `palette`, `conversion`, `toolbar`: what can be done with a selected block.
  - `step_list`, `timeline`, `library`, `monitor`, `presentation`: what is shown.
  - `wizard`: the guided first draft.
  - `page`, `page_edit`, `page_authoring`, `page_wizard`, `page_status`, `intents`: the page as a
    whole.
  - the modules whose names end in `_laws`: what holds across functions.
- `app/` draws the page with egui. It holds no rule of its own; the floating-point geometry of the
  viewport is there.
- `tests/` runs the library on concrete macros.

Numbers that are floating point on the desktop (ratios, thresholds, positions, scores) are carried as
their IEEE 754 bits and compared as numbers. Details of an observation are a `serde_json::Value`.
