use vstd::prelude::*;
use crate::net::IpAddress;

verus! {

/// The port the shared listener binds to when none is configured.
pub const DEFAULT_PORT: u16 = 8080;

/// One upstream of an app, chosen by the balancer in proportion to `weight`.
#[derive(Clone, Copy, Debug, PartialEq, Eq, Structural)]
pub struct AppTarget {
    pub ip_addr: IpAddress,
    pub weight: u8,
}

/// An app: the virtual address clients dial, and the upstreams behind it.
#[derive(Clone, Debug)]
pub struct App {
    pub uuid: String,
    pub ip_addr: IpAddress,
    pub targets: Vec<AppTarget>,
}

/// The proxy's configuration.
#[derive(Clone, Debug)]
pub struct Config {
    pub debug: bool,
    pub ip_addr: IpAddress,
    pub port: u16,
    pub apps: Vec<App>,
    pub control_socket_path: Option<String>,
}

/// Whether debug output is on when the configuration does not say:
/// exactly when the `ENV` variable holds `development`.
pub fn default_debug(env: Option<String>) -> (r: bool)
    ensures
        r == (env.is_some() && env.unwrap()@ == "development"@),
{
    proof { reveal_strlit("development"); }
    match env {
        Some(e) => {
            let dev = String::from_str("development");
            e == dev
        },
        None => false,
    }
}

/// The listener's address when none is configured: `0.0.0.0`.
pub fn default_ip_addr() -> (r: IpAddress)
    ensures
        r == IpAddress::V4(0),
{
    IpAddress::V4(0)
}

/// The listener's port when none is configured.
pub fn default_port() -> (r: u16)
    ensures
        r == 8080,
{
    DEFAULT_PORT
}

} // verus!
