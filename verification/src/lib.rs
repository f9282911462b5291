//! The logic of a small Discord bot: which messages are commands, what each
//! command answers, and how the school timetable is fetched and rendered.
//!
//! The library sends nothing and reads no clock. It says what to send, builds
//! the requests of the timetable exchange and reads their answers; the
//! program around it talks to Discord and to the timetable's API.

pub mod agenda;
pub mod calendar;
pub mod command;
pub mod json;
pub mod message;
pub mod planning;
pub mod text;
