use dwr::registry::{Capability, UnboundProtocols};

fn record(reg: &mut UnboundProtocols<u32, u32, u32>, cap: Capability, handle: u32) -> bool {
    match cap {
        Capability::Compositor => reg.record_compositor(handle),
        Capability::SharedMemory => reg.record_shm(handle),
        Capability::LayerShell => reg.record_layer(handle),
    }
}

#[test]
fn snapshot_appears_only_after_third_capability_in_any_order() {
    let caps = [Capability::Compositor, Capability::SharedMemory, Capability::LayerShell];
    let orders = [[0, 1, 2], [0, 2, 1], [1, 0, 2], [1, 2, 0], [2, 0, 1], [2, 1, 0]];
    for order in orders {
        let mut reg: UnboundProtocols<u32, u32, u32> = UnboundProtocols::new();
        assert!(reg.snapshot().is_none());
        for (k, &i) in order.iter().enumerate() {
            assert!(reg.wants(caps[i]));
            assert!(record(&mut reg, caps[i], 10 + i as u32));
            assert_eq!(reg.snapshot().is_some(), k == 2);
        }
        let b = reg.snapshot().unwrap();
        assert_eq!((*b.get_compositor(), *b.get_shm(), *b.get_layer()), (10, 11, 12));
    }
}

#[test]
fn repeated_announcement_is_ignored() {
    let mut reg: UnboundProtocols<u32, u32, u32> = UnboundProtocols::new();
    assert!(reg.record_shm(1));
    assert!(!reg.record_shm(2));
    assert!(!reg.wants(Capability::SharedMemory));
    assert!(reg.record_compositor(3));
    assert!(reg.record_layer(4));
    assert!(!reg.record_layer(5));
    assert!(!reg.record_compositor(6));
    let b = reg.snapshot().unwrap();
    assert_eq!((*b.get_compositor(), *b.get_shm(), *b.get_layer()), (3, 1, 4));
}
