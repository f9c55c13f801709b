use vstd::prelude::*;

verus! {

/// The fatal errors this library can report. Contained per-host failures in
/// fan-out modes are not errors of the invocation and never use this type.
#[derive(Debug, Clone, PartialEq, Eq)]
pub enum ExecError {
    /// A host literal without `@` where an identity was required.
    HostMissingAt { host: String },
    /// Interactive mode needs exactly one filtered host; `count` remained.
    InteractiveHostCount { count: usize },
    /// Serial mode was configured with a batch size of zero.
    ZeroBatchSize,
    /// An include or exclude filter did not compile as a regular expression.
    InvalidPattern { pattern: String },
    /// The requested network name is not in the configuration.
    UnknownNetwork { name: String },
    /// A command name (given directly or referenced by a target) is unknown.
    UnknownCommand { name: String },
    /// An upload source path from which no base name can be taken.
    InvalidUploadSource { src: String },
}

impl ExecError {
    /// The diagnostic line reported for this error.
    pub fn describe(&self) -> (r: String)
        ensures
            match self {
                ExecError::HostMissingAt { host } => r@ == "host must be in format user@host: "@
                    + host@,
                ExecError::InteractiveHostCount { count } => r@
                    == "interactive mode requires exactly one host"@,
                ExecError::ZeroBatchSize => r@ == "serial batch size must be positive"@,
                ExecError::InvalidPattern { pattern } => r@ == "invalid host filter pattern: "@
                    + pattern@,
                ExecError::UnknownNetwork { name } => r@ == "network not found: "@ + name@,
                ExecError::UnknownCommand { name } => r@ == "command not found: "@ + name@,
                ExecError::InvalidUploadSource { src } => r@ == "upload source has no base name: "@
                    + src@,
            },
    {
        match self {
            ExecError::HostMissingAt { host } => {
                let mut out = String::from_str("host must be in format user@host: ");
                out.append(host.as_str());
                out
            },
            ExecError::InteractiveHostCount { count: _ } => String::from_str(
                "interactive mode requires exactly one host",
            ),
            ExecError::ZeroBatchSize => String::from_str("serial batch size must be positive"),
            ExecError::InvalidPattern { pattern } => {
                let mut out = String::from_str("invalid host filter pattern: ");
                out.append(pattern.as_str());
                out
            },
            ExecError::UnknownNetwork { name } => {
                let mut out = String::from_str("network not found: ");
                out.append(name.as_str());
                out
            },
            ExecError::UnknownCommand { name } => {
                let mut out = String::from_str("command not found: ");
                out.append(name.as_str());
                out
            },
            ExecError::InvalidUploadSource { src } => {
                let mut out = String::from_str("upload source has no base name: ");
                out.append(src.as_str());
                out
            },
        }
    }
}

} // verus!
