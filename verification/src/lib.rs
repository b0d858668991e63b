//! Driver logic for a five-button, one-RGB-LED I2C peripheral.
//!
//! The crate holds the two pure cores of the driver: the per-channel
//! debounce state machine that turns raw active-low samples into
//! press/hold/click states, and the bit-serial frame encoder that turns
//! an (R, G, B) triple into the register-write byte sequence driving the
//! LED. Bus I/O stays outside; both cores work on plain values.

pub mod buttons;
pub mod led;
