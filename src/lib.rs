//! Control of networked 3D-printer controller boards: the command framing of
//! the TCP protocol, the tag-length-value decoder of structured replies, the
//! parsers of status and temperature replies, and the decisions of the UDP
//! discovery scan.

pub mod commands;
pub mod error;
pub mod scanner;
pub mod structured;
pub mod status;
pub mod text;
pub mod transport;

pub use commands::{check_login_reply, check_logout_reply, check_new_name, parse_progress};
pub use error::{Error, ErrorKind, Fault};
pub use scanner::{machine_name, probe, Discovery, Next, Received};
pub use status::{Status, Temperature, Temperatures, V3};
pub use structured::{file_names, Object};
pub use transport::{expected_echo, request_frame, Event, Exchange, Step};
