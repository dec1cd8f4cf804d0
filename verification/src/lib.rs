//! A flashcard store kept as a comma-separated table, and the lookups made on it.
//!
//! The store holds one question per row: the prompt, four candidate answers and
//! the ordinal (1 to 4) of the correct one. This crate turns rows into questions
//! and back, searches questions by fragments of their prompt or of their
//! answers, selects and removes records, and decides each step of the
//! line-by-line dialogue that a terminal front end runs. It reads and writes no
//! file: it takes and gives the bytes of the store.
//!
//! - `question`: the record and its equality.
//! - `store`: rows to questions and back; loading, appending, rewriting.
//! - `query`: lookup by prompt and by answer; choosing the record to remove.
//! - `session`: the dialogue as a state machine.
//! - `laws`: what holds of storing, loading, removing and the dialogue.
//! - `table`: what is taken from the `csv` crate, unproved.
//! - `text`, `decimal`: string containment and equality; reading numbers.

pub mod decimal;
pub mod laws;
pub mod query;
pub mod question;
pub mod session;
pub mod store;
pub mod table;
pub mod text;
