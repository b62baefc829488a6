//! The `IscsiLuksVolume` custom resource: one static iSCSI LUN opened
//! through LUKS on a node.
use vstd::prelude::*;

verus! {

/// The desired state of an `IscsiLuksVolume`.
#[derive(Clone, Debug, Default, PartialEq, Eq)]
pub struct IscsiLuksVolumeSpec {
    pub target: IscsiTargetSpec,
    pub capacity: String,
    pub luks_secret_ref: SecretKeyRef,
    pub chap_secret_ref: Option<ChapSecretRef>,
    pub storage_class_name: Option<String>,
    pub fs_type: String,
    pub allow_format: bool,
}

/// The iSCSI portal, IQN and LUN of a volume.
#[derive(Clone, Debug, Default, PartialEq, Eq)]
pub struct IscsiTargetSpec {
    pub portal: String,
    pub iqn: String,
    pub lun: u32,
}

/// A key of a Kubernetes secret.
#[derive(Clone, Debug, Default, PartialEq, Eq)]
pub struct SecretKeyRef {
    pub name: String,
    pub key: String,
}

/// The secret holding CHAP credentials and the keys of its two values.
#[derive(Clone, Debug, Default, PartialEq, Eq)]
pub struct ChapSecretRef {
    pub name: String,
    pub username_key: String,
    pub password_key: String,
}

/// The observed state of an `IscsiLuksVolume`.
#[derive(Clone, Debug, Default, PartialEq, Eq)]
pub struct IscsiLuksVolumeStatus {
    pub observed_generation: Option<i64>,
    pub phase: Option<String>,
    pub persistent_volume_name: Option<String>,
    pub message: Option<String>,
}

/// The filesystem used when a volume names none.
pub fn default_fs_type() -> (s: String)
    ensures
        s@ == "ext4"@,
{
    "ext4".to_owned()
}

/// The CHAP secret key of the user name when a volume names none.
pub fn default_chap_username_key() -> (s: String)
    ensures
        s@ == "username"@,
{
    "username".to_owned()
}

/// The CHAP secret key of the password when a volume names none.
pub fn default_chap_password_key() -> (s: String)
    ensures
        s@ == "password"@,
{
    "password".to_owned()
}

} // verus!
