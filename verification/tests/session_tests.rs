use rtp_media::session::{allocate_port, AllocationError, SessionRegistry};

#[test]
fn registry_records_and_enumerates_ports() {
    let mut registry = SessionRegistry::new();
    assert_eq!(registry.len(), 0);
    assert!(!registry.contains(30000));
    registry.register(30000);
    registry.register(30001);
    assert_eq!(registry.len(), 2);
    assert!(registry.contains(30000));
    assert!(registry.contains(30001));
    assert!(!registry.contains(30002));
    assert_eq!(registry.port_at(0), 30000);
    assert_eq!(registry.port_at(1), 30001);
}

#[test]
fn single_port_range_allocates_then_exhausts() {
    // A free one-port range succeeds and returns that port; a second
    // allocation over the same range fails with exhaustion.
    let mut registry = SessionRegistry::new();
    assert_eq!(allocate_port(&mut registry, 30000, 30000), Ok(30000));
    assert!(registry.contains(30000));
    assert_eq!(
        allocate_port(&mut registry, 30000, 30000),
        Err(AllocationError::AddressSpaceExhausted)
    );
    assert_eq!(registry.len(), 1);
}

#[test]
fn allocation_never_returns_a_registered_port() {
    let mut registry = SessionRegistry::new();
    for port in 40000..40008u16 {
        registry.register(port);
    }
    for _ in 0..32 {
        match allocate_port(&mut registry, 40000, 40015) {
            Ok(p) => {
                assert!((40000..=40015).contains(&p));
                // The port was free before this call and is recorded now.
                assert!(registry.contains(p));
            }
            Err(AllocationError::AddressSpaceExhausted) => {}
        }
    }
    // No port can ever have been handed out twice.
    let mut seen = Vec::new();
    for i in 0..registry.len() {
        let p = registry.port_at(i);
        assert!(!seen.contains(&p), "port {} registered twice", p);
        seen.push(p);
    }
}

#[test]
fn fully_occupied_range_fails_deterministically() {
    let mut registry = SessionRegistry::new();
    registry.register(50000);
    registry.register(50001);
    assert_eq!(
        allocate_port(&mut registry, 50000, 50001),
        Err(AllocationError::AddressSpaceExhausted)
    );
    assert_eq!(registry.len(), 2);
}
