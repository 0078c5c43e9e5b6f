use vstd::prelude::*;

verus! {

/// Every fatal outcome of one run; each carries the name or path involved.
#[derive(Debug, PartialEq, Eq)]
pub enum KeysetError {
    /// The configuration could not be read or parsed.
    ConfigError(String),
    /// A key occurs twice in one of the configuration tables.
    DuplicateKey(String),
    /// The named profile lacks a layout or a variant.
    IncompleteProfile(String),
    /// The USB subsystem could not be initialised or listed.
    DeviceAccessError(String),
    /// A forced profile name is not among the configured keyboards.
    UnknownProfile(String),
    /// A USB identifier points to a profile name that has no keyboard entry.
    MissingProfile(String),
    /// The remap file of the selected profile does not exist.
    RemapFileMissing(String),
    /// An external tool could not be started.
    LaunchError(String),
}

} // verus!
