use httpgate::registry::DevboxRegistry;

#[test]
fn test_register_and_get_devbox() {
    let mut registry = DevboxRegistry::new();
    registry.register_devbox(
        "unique-123".to_string(),
        "ns-test".to_string(),
        "devbox1".to_string(),
    );

    let info = registry.get_devbox("unique-123").unwrap();
    assert_eq!(info.namespace, "ns-test");
    assert_eq!(info.devbox_name, "devbox1");
}

#[test]
fn test_update_pod_ip() {
    let mut registry = DevboxRegistry::new();

    // Pod IP can be set independently of devbox registration
    registry.update_pod_ip("ns-test", "devbox1", "10.0.0.1".to_string());

    let pod_ip = registry.get_pod_ip("ns-test", "devbox1");
    assert_eq!(pod_ip, Some("10.0.0.1".to_string()));
}

#[test]
fn test_clear_pod_ip() {
    let mut registry = DevboxRegistry::new();
    registry.update_pod_ip("ns-test", "devbox1", "10.0.0.1".to_string());

    // Clear pod IP
    registry.clear_pod_ip("ns-test", "devbox1");

    let pod_ip = registry.get_pod_ip("ns-test", "devbox1");
    assert!(pod_ip.is_none());
}

#[test]
fn test_unregister_devbox() {
    let mut registry = DevboxRegistry::new();
    registry.register_devbox(
        "unique-123".to_string(),
        "ns-test".to_string(),
        "devbox1".to_string(),
    );

    assert!(registry.unregister_devbox("unique-123"));
    assert!(registry.get_devbox("unique-123").is_none());
    assert!(!registry.unregister_devbox("unique-123")); // Already removed
}

#[test]
fn test_indices_are_independent() {
    let mut registry = DevboxRegistry::new();

    // Register devbox
    registry.register_devbox(
        "unique-123".to_string(),
        "ns-test".to_string(),
        "devbox1".to_string(),
    );

    // Update pod IP (independent operation)
    registry.update_pod_ip("ns-test", "devbox1", "10.0.0.1".to_string());

    // Both should exist
    assert!(registry.get_devbox("unique-123").is_some());
    assert_eq!(
        registry.get_pod_ip("ns-test", "devbox1"),
        Some("10.0.0.1".to_string())
    );

    // Unregister devbox - pod IP should still exist
    registry.unregister_devbox("unique-123");
    assert!(registry.get_devbox("unique-123").is_none());
    assert_eq!(
        registry.get_pod_ip("ns-test", "devbox1"),
        Some("10.0.0.1".to_string())
    );

    // Clear pod IP - devbox should still not exist
    registry.clear_pod_ip("ns-test", "devbox1");
    assert!(registry.get_pod_ip("ns-test", "devbox1").is_none());
}

#[test]
fn test_clear_devboxes() {
    let mut registry = DevboxRegistry::new();
    registry.register_devbox("id-1".to_string(), "ns-1".to_string(), "devbox1".to_string());
    registry.register_devbox("id-2".to_string(), "ns-2".to_string(), "devbox2".to_string());
    registry.update_pod_ip("ns-1", "devbox1", "10.0.0.1".to_string());

    assert_eq!(registry.devbox_count(), 2);
    registry.clear_devboxes();
    assert_eq!(registry.devbox_count(), 0);

    // Pod IPs should be unaffected
    assert_eq!(
        registry.get_pod_ip("ns-1", "devbox1"),
        Some("10.0.0.1".to_string())
    );
}

#[test]
fn test_clear_pod_ips() {
    let mut registry = DevboxRegistry::new();
    registry.register_devbox("id-1".to_string(), "ns-1".to_string(), "devbox1".to_string());
    registry.update_pod_ip("ns-1", "devbox1", "10.0.0.1".to_string());
    registry.update_pod_ip("ns-2", "devbox2", "10.0.0.2".to_string());

    assert_eq!(registry.pod_ip_count(), 2);
    registry.clear_pod_ips();
    assert_eq!(registry.pod_ip_count(), 0);

    // Devboxes should be unaffected
    assert!(registry.get_devbox("id-1").is_some());
}

#[test]
fn register_reports_whether_new() {
    let mut registry = DevboxRegistry::new();
    assert!(registry.register_devbox("id-1".to_string(), "ns-1".to_string(), "a".to_string()));
    assert!(!registry.register_devbox("id-1".to_string(), "ns-2".to_string(), "b".to_string()));
    assert_eq!(registry.devbox_count(), 1);
    let info = registry.get_devbox("id-1").unwrap();
    assert_eq!(info.namespace, "ns-2");
    assert_eq!(info.devbox_name, "b");
}

#[test]
fn register_then_unregister_restores_count() {
    let mut registry = DevboxRegistry::new();
    registry.register_devbox("id-1".to_string(), "ns-1".to_string(), "a".to_string());
    let before = registry.devbox_count();
    registry.register_devbox("id-2".to_string(), "ns-2".to_string(), "b".to_string());
    assert!(registry.unregister_devbox("id-2"));
    assert!(registry.get_devbox("id-2").is_none());
    assert_eq!(registry.devbox_count(), before);
    // Unregistering an absent tenant reports it and changes nothing.
    assert!(!registry.unregister_devbox("id-2"));
    assert!(!registry.unregister_devbox("id-2"));
    assert_eq!(registry.devbox_count(), before);
}

#[test]
fn empty_address_update_clears() {
    let mut registry = DevboxRegistry::new();
    registry.update_pod_ip("ns-1", "a", "10.0.0.1".to_string());
    assert!(registry.update_pod_ip("ns-1", "a", String::new()));
    assert!(registry.get_pod_ip("ns-1", "a").is_none());
    assert_eq!(registry.pod_ip_count(), 0);
    // A second empty update finds nothing to clear, just as a clear would.
    assert!(!registry.update_pod_ip("ns-1", "a", String::new()));
    assert!(!registry.clear_pod_ip("ns-1", "a"));
}

#[test]
fn address_update_reports_change() {
    let mut registry = DevboxRegistry::new();
    assert!(registry.update_pod_ip("ns-1", "a", "10.0.0.1".to_string()));
    assert!(!registry.update_pod_ip("ns-1", "a", "10.0.0.1".to_string()));
    assert!(registry.update_pod_ip("ns-1", "a", "10.0.0.2".to_string()));
    assert_eq!(registry.get_pod_ip("ns-1", "a"), Some("10.0.0.2".to_string()));
    assert_eq!(registry.pod_ip_count(), 1);
}

#[test]
fn address_key_joins_namespace_and_name() {
    let mut registry = DevboxRegistry::new();
    registry.update_pod_ip("ns-1", "a", "10.0.0.1".to_string());
    assert!(registry.get_pod_ip("ns-1", "b").is_none());
    assert!(registry.get_pod_ip("ns-2", "a").is_none());
    assert_eq!(registry.get_pod_ip("ns-1", "a"), Some("10.0.0.1".to_string()));
}

#[test]
fn many_distinct_registrations_all_kept() {
    let mut registry = DevboxRegistry::new();
    for i in 0..100 {
        registry.register_devbox(format!("id-{i}"), format!("ns-{i}"), format!("devbox-{i}"));
    }
    assert_eq!(registry.devbox_count(), 100);
    for i in 0..100 {
        let info = registry.get_devbox(&format!("id-{i}")).unwrap();
        assert_eq!(info.namespace, format!("ns-{i}"));
        assert_eq!(info.devbox_name, format!("devbox-{i}"));
    }
}

#[test]
fn many_distinct_addresses_all_kept() {
    let mut registry = DevboxRegistry::default();
    for i in 0..100 {
        registry.update_pod_ip(&format!("ns-{i}"), &format!("devbox-{i}"), format!("10.0.0.{i}"));
    }
    assert_eq!(registry.pod_ip_count(), 100);
    assert_eq!(registry.devbox_count(), 0);
}
