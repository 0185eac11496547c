use rustfs_core::globals::{
    get_global_init_time, get_global_local_node_name, set_global_addr, set_global_init_time,
    set_global_init_time_now, set_global_local_node_name, set_global_mtls_identity, set_global_root_cert,
    MtlsIdentityPem, NodeGlobals, UtcTime,
};

#[test]
fn new_node_knows_its_port_only() {
    let node = NodeGlobals::new();
    assert_eq!(node.local_node_name, "");
    assert_eq!(node.host, "");
    assert_eq!(node.port, "9000");
    assert_eq!(node.addr, "");
    assert!(node.root_cert.is_none());
    assert!(node.mtls_identity.is_none());
    assert!(get_global_init_time(&node).is_none());
}

#[test]
fn settings_are_read_back() {
    let mut node = NodeGlobals::new();
    set_global_local_node_name(&mut node, "node1");
    set_global_addr(&mut node, "https://node1:9000");
    set_global_root_cert(&mut node, vec![1, 2]);
    let id = MtlsIdentityPem { cert_pem: vec![3], key_pem: vec![4] };
    set_global_mtls_identity(&mut node, Some(id.clone()));
    set_global_init_time(&mut node, UtcTime { secs: 5, nanos: 6 });
    assert_eq!(get_global_local_node_name(&node), "node1");
    assert_eq!(node.addr, "https://node1:9000");
    assert_eq!(node.root_cert, Some(vec![1, 2]));
    let kept = node.mtls_identity.as_ref().unwrap();
    assert_eq!((&kept.cert_pem, &kept.key_pem), (&id.cert_pem, &id.key_pem));
    assert_eq!(get_global_init_time(&node), Some(UtcTime { secs: 5, nanos: 6 }));
    assert_eq!(node.port, "9000");
    set_global_mtls_identity(&mut node, None);
    assert!(node.mtls_identity.is_none());
}

#[test]
fn node_starts_now() {
    let mut node = NodeGlobals::new();
    let before = chrono::Utc::now().timestamp();
    set_global_init_time_now(&mut node);
    let after = chrono::Utc::now().timestamp();
    let time = get_global_init_time(&node).unwrap();
    assert!(before <= time.secs && time.secs <= after);
    assert!(time.nanos < 2_000_000_000);
}
