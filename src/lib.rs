//! Keyboard-layout selection: which attached USB keyboard maps to which
//! layout profile, and the exact arguments handed to the layout tools.

pub mod config;
pub mod error;
pub mod path;
pub mod profile;
pub mod resolve;
pub mod run;
pub mod usb;

pub use config::Config;
pub use error::KeysetError;
pub use path::{config_path, join_path, xmodmap_dir};
pub use profile::{Keyboard, KeyboardView};
pub use resolve::Outcome;
pub use run::{check_launch, plan, set_keyboard, CliOptions, Invocation, InvocationOutcome, Plan};
pub use usb::usb_id;
