//! The logic of a command line tool and a daemon for the TUXEDO drivers of Uniwill laptops.
//!
//! Nothing in this crate touches a device, a file or a clock. What the tool and the daemon do
//! is laid out as actions that a caller performs and whose outcome it hands back:
//!
//! - [`cli`] turns a command into a session, and [`session`] and [`step`] say what a session
//!   asks for next and what becomes of each reply; [`cli_runs`] states what whole sessions of
//!   the commands look like;
//! - [`daemon`] holds what the daemon does when it starts and how it waits, [`fan_loop`] how it
//!   runs the fans, and [`config`] what can be set;
//! - [`fan`] chooses fan speeds, [`profile`] names performance profiles, [`sysfs`] knows the
//!   attributes of the keyboard driver and [`ioctl`] the requests of the device;
//! - [`text`] and [`number`] read and write the text that passes in between.
//!
//! Each executable function states what it returns over a mathematical model. The proof
//! functions whose names begin with `law_` state what holds of several of them together.

pub mod cli;
pub mod cli_runs;
pub mod config;
pub mod daemon;
pub mod fan;
pub mod fan_loop;
pub mod ioctl;
pub mod number;
pub mod profile;
pub mod session;
pub mod step;
pub mod sysfs;
pub mod text;
