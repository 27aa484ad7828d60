//! Harnel's protocol core: ACP framing, request correlation, attachment
//! state, command-line parsing and the toolchain checks, with the contracts
//! that the embedding runtime relies on.
pub mod acp;
pub mod broker;
pub mod cli;
pub mod error;
pub mod frame;
pub mod runtime;
pub mod session;
pub mod text;
pub mod tool;
pub mod toolchain;

pub use error::{Error, ErrorView, NativeError, Result, RpcError};
pub use runtime::{Builder, Event, Events, LoginMethod, Provider};
pub use session::{Answer, TurnResult};
pub use tool::{ToolCall, ToolOutput, ToolSpec};
