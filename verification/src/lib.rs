//! In-memory backend for a quick-capture note utility: an ephemeral
//! note store for handing records between windows, and the decision
//! logic of the window coordinator (visibility toggle, shortcut
//! handling, event broadcast targeting).

pub mod error;
pub mod laws;
pub mod note;
pub mod store;
pub mod temp_note;
pub mod window;
