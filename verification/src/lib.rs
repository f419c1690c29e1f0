//! Status readouts for a window-manager status bar: temperatures, load
//! averages, battery charge and clock zones, each turned into a short text
//! fragment, and the fragments joined into one status line.
//!
//! The library reads no file and makes no system call but for the clock.
//! Its caller lists the device directories, reads the device files and
//! queries the load averages, and hands over what came back; the library
//! decides what is shown for it.

pub mod clock;
pub mod error;
pub mod number;
pub mod paths;
pub mod publish;
pub mod readout;
pub mod status;
pub mod text;

pub use crate::clock::{get_local_time, get_tz_time, local_time_at, tz_time_at, Instant};
pub use crate::error::StatusError;
pub use crate::number::NumError;
pub use crate::publish::{start, status_at, status_line, status_now, step, Action, Phase};
pub use crate::readout::{
    fragment_of, get_batt, get_load_avgs, get_temp, BatteryFiles, LoadSample,
};
pub use crate::status::{ClockZone, RwmStatus};
