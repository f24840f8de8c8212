# herdr-comments

A Herdr plugin that turns passages of terminal history into quote-first
Markdown comments: capture a frozen snapshot of a pane, select passages,
attach notes, review the collection in Neovim and paste it into the pane
without submitting it.

## Layout

- `src/` is the verified library. Every function carries a contract that
  Verus proves, except seven small wrappers around outside functions
  (`String::push`, `String::push_str`, `String::from_utf8`,
  `serde_json::to_string`, `sha2`'s SHA-256, `uuid`'s random identifiers and
  `unicode-width`'s character widths), marked `#[verifier::external_body]`,
  whose contracts are trusted and stated in their doc comments:
  - `text`, `decimal`: the character-level text model (trimming, line
    endings, UTF-8 sizes, decimal rendering).
  - `format`: validation of selections, notes, snapshots and reviews, and the
    Markdown that comments become.
  - `snapshot`: how a pane snapshot is assembled from Herdr's reads.
  - `wrap`, `editor`, `keys`, `tui`, `layout`: the annotation popup as a
    state machine, its note editor, soft wrapping and what goes on screen.
  - `config`, `context`: popup sizes and profiles, and the action context.
  - `store`, `records`: identifiers, scopes, expiry, record construction and
    capture order.
  - `herdr`: command lines, socket requests and failure classification.
  - `annotation`, `review`, `capture`, `clipboard`: the decisions behind each
    plugin action.
- `app/` is the binary around it: command-line parsing, the state
  directory on disk, Herdr's command line and socket, Neovim and the
  terminal front end.
- `tests/` exercises the library on concrete values.
