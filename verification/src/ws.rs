//! The WebSocket endpoint: who may connect, and the session behind a connection.

pub mod laws;
pub mod origin;
pub mod query;
pub mod session;
pub mod upgrade;

pub use self::origin::normalize_origin;
pub use self::query::parse_url_args;
pub use self::upgrade::{handle_upgrade, origin_matches_host, ws_token_required, ClientSlot, Upgrade};
