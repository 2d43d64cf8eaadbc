//! A kernel-assisted layer-4 TCP reverse proxy: the verified decision logic.
//!
//! Sockets, the kernel redirector and the event loop live with the caller;
//! this library decides what they do.

mod net;
mod config;
pub mod balance;
mod router;
pub mod redirector;
pub mod control;
pub mod drain;
pub mod upgrade;
mod target;
mod proxy;

pub use net::{IpAddress, SocketAddress};
pub use config::{App, AppTarget, Config, default_debug, default_ip_addr, default_port};
pub use router::{Attempt, Dial, RouteError, Router};
pub use redirector::{pin_ops, plan_redirector, PinOp, PinnedObject, RedirectorError, RedirectorPlan};
pub use control::{read_handoff, Ancillary, ControlRequest, ControlSocketError, HandoffRegistry};
pub use drain::{DrainState, ServerEvent};
pub use upgrade::{descriptor_text, parse_listener_fd, respawn_env, should_signal_parent};
pub use target::{Target, TargetDiscover};
pub use proxy::{Proxy, ProxyLayer};
