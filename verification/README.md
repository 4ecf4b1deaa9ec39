# line-gtk

The core of a LINE desktop client, written in Verus. The functions under
`src/` carry contracts that Verus proves; the few calls into other crates and
into std that Verus does not know are made by small trusted functions
(marked `#[verifier::external_body]`), whose contracts state what those
crates document and are not proved.

## Layout

- `src/` — the verified library (crate `line_gtk`):
  - `text` — string helpers with their specifications (trimming, case,
    decimal numbers, lexicographic order).
  - `chats`, `listing`, `friends` — the chat list (ordering, pins, unread
    counters, read marks, rows), a conversation's messages in time order, and
    the friends list with its index letters.
  - `events`, `outgoing`, `profile`, `looks` — what the window does about each
    engine event, what is checked and shown when sending, the profile card, and
    the looks of toggle buttons.
  - `media`, `locate`, `downloads`, `backgrounds`, `sticker_picker` —
    attachments: names, viewers, where media is found on disk, download
    destinations, chat backgrounds and the sticker picker.
  - `sticker` — animated PNG stickers: recognising them and compositing their
    frames.
  - `sidecar`, `discord`, `tray`, `notify`, `i18n`, `settings`,
    `diagnostics`, `login` — the protocol engine's request bookkeeping and line
    routing, the Discord presence worker, the tray menu, notifications,
    translations, settings, the diagnostics page and the sign-in QR code.
- `tests/` — tests of the library on concrete values.
- `app/` — a headless program around the library: it runs the engine
  process, the tray and the presence worker, and prints what the window would
  show.
