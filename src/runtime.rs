//! The runtime settings a tool gathers before invoking a plugin.

use vstd::prelude::*;

use crate::args::CniArgs;

verus! {

/// Where network configuration files live by default.
pub const DEFAULT_NET_CONF_DIR: &'static str = "/etc/cni/net.d";

/// Where plugin executables live by default.
pub const DEFAULT_NET_BIN_DIR: &'static str = "/opt/cni/bin";

/// Where plugins keep their cache by default.
pub const DEFAULT_NET_CACHE_DIR: &'static str = "/var/lib/cni";

/// What a runtime tool hands a plugin about the container.
#[derive(Debug)]
pub struct RuntimeConfig {
    pub container_id: String,
    pub netns: String,
    pub if_name: String,
    pub args: CniArgs,
}

} // verus!
