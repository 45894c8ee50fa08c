# Storyforge

A terminal RPG engine for story-driven campaigns with deterministic rules and
validated content packs, written in Verus.

- `src/` is the verified library: content IDs (`id`), commands, events and
  game state (`command`, `state`), the command → event → state engine
  (`engine`), campaign content and validation (`model`, `diagnostic`,
  `validation`, `loader`), and the terminal interface's state machine, key
  bindings, layout, themes and texts (`app`, `action`, `layout`, `theme`,
  `ui`). `text` holds the character-level helpers they share.
- `app/` is the executable around it: the terminal loop, drawing with
  ratatui, reading campaigns from disk, and the serde forms of the library's
  types.
- `tests/` exercises the library on concrete values.
