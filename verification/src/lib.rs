//! Data model and request logic of the ONote server: what each request asks of
//! the note database, and what is answered to the client.

pub mod commands;
pub mod handlers;
pub mod laws;
pub mod model;
pub mod note_name;
pub mod object_id;
