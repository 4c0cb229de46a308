//! Event logic of two small desktop programs: a click counter and a two-way
//! Celsius/Fahrenheit converter. The widgets and the event loop live
//! elsewhere; this crate decides what each notification does to the state and
//! which text goes back to the screen.
//!
//! * [`decimal`] reads and writes integers as decimal text.
//! * [`temperature`] converts between the two scales with integer arithmetic.
//! * [`counter`] is the state of the counter program.
//! * [`temp_conv`] is the state of the converter program.

pub mod counter;
pub mod decimal;
pub mod temp_conv;
pub mod temperature;
