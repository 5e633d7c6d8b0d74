pub mod bar;
pub mod collectors;
pub mod config;
pub mod formatter;
pub mod input;
pub mod json;
pub mod state;
pub mod text;

use vstd::prelude::*;

verus! {

/// Reserved block name for the "page up" pagination affordance.
pub const NAME_PAGE_UP: &'static str = "yaib-page-up";

/// Reserved block name for the "page down" pagination affordance.
pub const NAME_PAGE_DOWN: &'static str = "yaib-page-down";

/// The well-known filesystem path of the external-injection socket.
pub const SOCKET_PATH: &'static str = "/tmp/yaib.sock";

} // verus!
