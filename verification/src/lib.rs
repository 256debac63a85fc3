//! Decision logic of a bedside alarm clock that watches the bed through a
//! camera and asks a small vision-language model whether someone is still
//! lying in it.
//!
//! Everything that touches hardware, the network or the clock's wiring lives
//! around this crate; the crate itself holds the rules: when the alarm is
//! armed, how the model's answers are counted, how the buzzer and the status
//! light behave, and how the helper processes are supervised.

pub mod inbox;
pub mod camera;
pub mod dispatch;
pub mod history;
pub mod json;
pub mod led;
pub mod pin;
pub mod request;
pub mod schedule;
pub mod server;
pub mod sound;
pub mod votes;
