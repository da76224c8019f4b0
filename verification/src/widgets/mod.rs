//! What the widgets show.
//!
//! A widget reads something of the system and turns it into texts for its
//! slot of the bar. The reading is the caller's part; turning what was
//! read into texts is done here.

pub mod active_window_title;
pub mod battery_bsd;
pub mod battery_linux;
pub mod clock;
pub mod command;
pub mod cpu;
pub mod disk_usage;
pub mod leftwm;
pub mod pager;
pub mod sensors_bsd;
pub mod sensors_linux;
pub mod volume_bsd;
pub mod volume_linux;
pub mod weather;
pub mod wireless;

pub use self::active_window_title::ActiveWindowTitle;
pub use self::battery_linux::Battery;
pub use self::clock::Clock;
pub use self::command::Command;
pub use self::pager::Pager;
pub use self::sensors_linux::Sensors;
pub use self::volume_linux::Volume;
pub use self::weather::Weather;
pub use self::wireless::Wireless;
