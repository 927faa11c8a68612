//! A client-side model of the OpenVPN management interface's `status` report.
//!
//! The crate turns the text that the server sends in answer to `status` into a
//! [`Status`]: the report's title, the time at which it was generated and the
//! clients that were connected. Every function states what it returns as a
//! contract over plain sequences of characters, and the contracts are proved.
//!
//! The socket is not this crate's business. A caller writes
//! [`manager::STATUS_COMMAND`] to the connection, feeds what it reads to a
//! [`ResponseBuffer`] until the buffer says that the response is whole, and
//! hands the text to [`try_parse_status_output`].
pub mod client;
pub mod encoding;
pub mod error;
pub mod laws;
pub mod line;
pub mod manager;
pub mod number;
pub mod parse;
pub mod response;
pub mod status;
pub mod text;
pub mod time;

pub use crate::client::Client;
pub use crate::error::{FloatError, IntError, OpenvpnError, OpenvpnResult};
pub use crate::manager::{CommandManagerBuilder, EventManager, ResponseBuffer};
pub use crate::number::FloatLiteral;
pub use crate::parse::{
    parse_client, parse_timestamp, parse_title, split_line_by_tabs, try_parse_client,
    try_parse_timestamp,
};
pub use crate::response::{parse_status_output, try_parse_status_output};
pub use crate::status::Status;
pub use crate::time::{checked_utc_start_time, get_utc_start_time};
