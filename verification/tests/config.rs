use iscsi_luks_csi::api::{default_chap_password_key, default_chap_username_key, default_fs_type};
use iscsi_luks_csi::config::NodeConfig;
use iscsi_luks_csi::ops::HostPaths;

#[test]
fn node_config_defaults() {
    let config = NodeConfig::default();
    assert_eq!(config.driver_name, "dev.gitopolis.iscsi-luks-csi");
    assert_eq!(config.node_id, None);
    assert_eq!(config.default_fs_type, "ext4");
    assert_eq!(config.mapper_prefix, "iscsi-luks-csi");
}

#[test]
fn volume_spec_defaults() {
    assert_eq!(default_fs_type(), "ext4");
    assert_eq!(default_chap_username_key(), "username");
    assert_eq!(default_chap_password_key(), "password");
}

#[test]
fn host_paths_defaults() {
    let paths = HostPaths::default();
    assert_eq!(paths.by_path_dir, "/dev/disk/by-path");
    assert_eq!(paths.mapper_dir, "/dev/mapper");
    assert_eq!(paths.mountinfo_path, "/proc/self/mountinfo");
}
