# nebula

The logic of the Nebula terminal, as a library whose functions carry contracts
that Verus proves, and a command line around it.

- `src/completions`: completion of paths and static words, with prefix,
  substring and fuzzy matching.
- `src/file_uri.rs`: from `file://` links to local paths.
- `src/config`: colors, mouse and selection settings.
- `src/display`: the command palette, tabs, the drawer with its file tree and
  git view, themes, suggestions and what is drawn of each of them.
- `src/event`: windows, the quick terminal, search, pasting, mouse and terminal
  events.
- `src/ai_hook`: wiring of AI command line tools, and their messages.
- `src/text.rs`, `src/unicode.rs`, `src/order.rs`: what the rest is built on.
- `app`: files, processes, pixels, and everything in floating point.

Functions named `law_…` state what holds of several functions together.
