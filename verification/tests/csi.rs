use std::path::PathBuf;

use iscsi_luks_csi::csi::{node_id_from_hostname, preferred_node_id, unix_socket_path, EndpointError, NodeIdError};

#[test]
fn unix_socket_path_accepts_absolute_unix_endpoint() {
    assert_eq!(
        PathBuf::from(unix_socket_path("unix:///csi/csi.sock").unwrap()),
        PathBuf::from("/csi/csi.sock")
    );
}

#[test]
fn unix_socket_path_rejects_relative_path() {
    assert!(unix_socket_path("unix://csi.sock").is_err());
}

#[test]
fn unix_socket_path_rejects_other_schemes() {
    assert!(unix_socket_path("tcp://127.0.0.1:1234").is_err());
}

#[test]
fn unix_socket_path_reports_each_refusal() {
    assert_eq!(unix_socket_path("tcp://127.0.0.1:1234"), Err(EndpointError::NotUnix));
    assert_eq!(unix_socket_path("unix://"), Err(EndpointError::EmptyPath));
    assert_eq!(unix_socket_path("unix://csi.sock"), Err(EndpointError::RelativePath));
    assert_eq!(unix_socket_path("unix:/"), Err(EndpointError::NotUnix));
}

#[test]
fn unix_socket_path_round_trips_absolute_paths() {
    for path in ["/a", "/var/lib/kubelet/plugins/csi.sock", "/ spaced/é"] {
        let endpoint = format!("unix://{path}");
        assert_eq!(unix_socket_path(&endpoint).unwrap(), path);
    }
}

#[test]
fn node_id_prefers_configuration_then_environment() {
    let configured = Some("node-a".to_string());
    let env = Some("node-b".to_string());
    assert_eq!(preferred_node_id(&configured, &env), Some("node-a".to_string()));
    assert_eq!(preferred_node_id(&Some(String::new()), &env), Some("node-b".to_string()));
    assert_eq!(preferred_node_id(&None, &env), Some("node-b".to_string()));
    assert_eq!(preferred_node_id(&None, &Some(String::new())), None);
    assert_eq!(preferred_node_id(&None, &None), None);
}

#[test]
fn node_id_from_hostname_trims_and_refuses_empty() {
    assert_eq!(node_id_from_hostname("worker-1\n"), Ok("worker-1".to_string()));
    assert_eq!(node_id_from_hostname("  \tworker-2 \r\n"), Ok("worker-2".to_string()));
    assert_eq!(node_id_from_hostname(" \n\t "), Err(NodeIdError::Empty));
    assert_eq!(node_id_from_hostname(""), Err(NodeIdError::Empty));
}
