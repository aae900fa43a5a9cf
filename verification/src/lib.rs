//! The core of a pastebin service: pastes go in over HTTP, are kept by a
//! storage under short identifiers, and come out again.
//!
//! The parts, from the leaves up:
//!
//! * [`id`] and [`object_id`]: identifiers and their text form.
//! * [`mime`]: the MIME type of a paste, and which types are shown as text.
//! * [`read`]: reading a body under a size limit.
//! * [`request`], [`response`], [`error`]: what the dispatcher reads and
//!   what it answers.
//! * [`time`]: when a paste expires.
//! * [`html`]: text made safe for a page.
//! * [`paste`]: a paste, and the interface to the storage.
//! * [`pastebin`] and [`web`]: the dispatcher and its setup.
//! * [`memory`] and [`document`]: a storage in memory, and the record of a
//!   paste as a document database keeps it.
//! * [`guarantees`]: what the service guarantees over the storage in memory.
//!
//! Every function states what it returns, and the statements are proved. The
//! calls into other crates stand behind small functions whose documentation
//! says what is taken on trust.

pub mod document;
pub mod error;
pub mod guarantees;
pub mod html;
pub mod id;
pub mod memory;
pub mod mime;
pub mod object_id;
pub mod paste;
pub mod pastebin;
pub mod read;
pub mod request;
pub mod response;
pub mod text;
pub mod time;
pub mod web;
