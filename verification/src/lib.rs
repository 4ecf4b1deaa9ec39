//! Verified core of a LINE desktop client: text handling, chat-list and
//! message-list bookkeeping, download naming, translations, tray and
//! presence decisions, and image frame compositing.

pub mod text;
pub mod downloads;
pub mod protocol;
pub mod chats;
pub mod discord;
pub mod friends;
pub mod sticker;
pub mod sidecar;
pub mod i18n;
pub mod tray;
pub mod notify;
pub mod media;
pub mod settings;
pub mod events;
pub mod listing;
pub mod locate;
pub mod outgoing;
pub mod profile;
pub mod sticker_picker;
pub mod backgrounds;
pub mod diagnostics;
pub mod looks;
pub mod login;
