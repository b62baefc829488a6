//! Command-line arguments and the node configuration.
use vstd::prelude::*;

verus! {

/// The driver's command-line arguments.
#[derive(Debug, Clone, PartialEq, Eq)]
pub struct Args {
    /// The CSI endpoint, `unix://` and the socket path.
    pub endpoint: String,
    /// Path of an optional node configuration YAML file.
    pub config: Option<String>,
    /// Run startup checks and exit without serving.
    pub check: bool,
}

/// The node configuration, every field with a default.
#[derive(Debug, Clone, PartialEq, Eq)]
pub struct NodeConfig {
    pub driver_name: String,
    pub node_id: Option<String>,
    pub default_fs_type: String,
    pub mapper_prefix: String,
}

impl Default for NodeConfig {
    fn default() -> (config: Self)
        ensures
            config.driver_name@ == "dev.gitopolis.iscsi-luks-csi"@,
            config.node_id is None,
            config.default_fs_type@ == "ext4"@,
            config.mapper_prefix@ == "iscsi-luks-csi"@,
    {
        NodeConfig {
            driver_name: "dev.gitopolis.iscsi-luks-csi".to_owned(),
            node_id: None,
            default_fs_type: "ext4".to_owned(),
            mapper_prefix: "iscsi-luks-csi".to_owned(),
        }
    }
}

} // verus!
