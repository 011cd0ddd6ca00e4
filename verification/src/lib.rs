//! Progress bars for one output stream that many producers share.
//!
//! A bar is a record of position, length, message and template. A template
//! is compiled once into a list of fields and literal text ([`template`]),
//! and rendering a bar is a pure function of its record and the current time
//! ([`state`], [`text`]). A manager keeps the bars in the order of their
//! creation ([`registry`]), decides on every request whether to draw
//! ([`manager`]), and hands whole frames to its sink ([`sink`], [`frame`]):
//! on a terminal a frame erases the one before it, row for wrapped row
//! ([`width`]); elsewhere it only adds the bars that changed. A handle
//! ([`bar`]) names one bar and works on whatever manager its holder still
//! finds. The ticker's loop asks [`ticker`] what to do next.
//!
//! The library keeps no clock, takes no lock and starts no thread. Every
//! operation that depends on the time is given it, as nanoseconds on a
//! monotonic clock, and every operation on a manager has the manager to
//! itself for as long as it runs.
//!
//! [`laws`] holds what is proved of all this taken together.

pub mod bar;
pub mod frame;
pub mod laws;
pub mod manager;
pub mod registry;
pub mod sink;
pub mod state;
pub mod template;
pub mod text;
pub mod ticker;
pub mod width;
