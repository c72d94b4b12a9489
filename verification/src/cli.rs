//! The command line: the options, the configuration they make, and its summary.

pub mod config;
pub mod draft;
pub mod fields;
pub mod help;
pub mod laws;
pub mod options;
pub mod parse;
pub mod spelling;
pub mod summary;
pub mod values;

pub use self::config::{AuthMode, Config, Endpoints, ForwardAuthConfig};
pub use self::draft::{ParseEnvironment, PathProbe, MAX_SRV_BUF_SIZE, MAX_TERMINAL_TYPE};
pub use self::help::{help_text, version, VERSION};
pub use self::parse::{index_paths, parse, parse_report, Outcome, Report};
pub use self::summary::config_summary;
