# app_core

The core logic of a Bluesky-style social client, written in Verus: every function of the
library carries a contract (`requires` / `ensures`) that Verus proves.

## Layout

- `src/` — the verified library.
  - `text.rs`, `keyed_map.rs`, `sorting.rs`, `time.rs`, `json.rs`: shared helpers (UTF-8 and
    character sequences, a map kept as a list of unique keys, stable sorting by lexicographic
    keys, points in time as seconds and nanoseconds, the JSON types carried through).
  - `posts.rs`, `editor.rs`, `embeds.rs`, `link_preview.rs`: rich text and its facets, the
    text editor and its autocompletion, embeds, and link previews with their HTML metadata.
  - `feeds.rs`, `threads.rs`, `notifications.rs`, `messages.rs`, `bookmarks.rs`,
    `interactions.rs`, `lists.rs`, `profiles.rs`, `search.rs`, `autocomplete.rs`, `auth.rs`,
    `media.rs`, `branding.rs`: the features, with the decisions their network services make.
  - Public proof functions named `law_*` state properties that relate several calls (an undo
    restores the state, a sort keeps every item and orders them, ...).
- `tests/` — tests of the library, run against the compiled crate.
- `app/` — the unverified edge: image decoding, resizing and encoding with the `image`
  crate, the serde forms of the direct-message types, error types implementing
  `std::error::Error`, and a feed configuration with floating-point weights.

The calls into outside crates (`regex`, `unicode-segmentation`, `chrono`, `serde_json`,
`image`, std's clocks and case mapping) are made through small trusted functions whose doc
comments say what their contracts claim.
