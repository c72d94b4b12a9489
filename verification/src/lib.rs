//! Share a terminal over the web: the decisions of the server, without its sockets.

pub mod auth;
pub mod cli;
pub mod headers;
pub mod html;
pub mod http;
pub mod jsonc;
pub mod logging;
pub mod number;
pub mod protocol;
pub mod pty;
pub mod serve;
pub mod shutdown;
pub mod state;
pub mod text;
pub mod tls;
pub mod utils;
pub mod ws;
