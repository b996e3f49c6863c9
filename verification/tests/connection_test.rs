use qubwic::connection::client::{h3_setup_result, should_create_h3, H3Setup};
use qubwic::connection::handler::{egress_step, route_packet, PacketRoute, SendOutcome};
use qubwic::connection::manager::{earliest_timeout, first_match, MAX_CONN_ID_LEN};
use qubwic::connection::ClientMap;

#[test]
fn insert_then_find() {
    let mut m: ClientMap<&str> = ClientMap::new();
    assert!(m.is_empty());
    m.insert(vec![1, 2, 3], "a");
    m.insert(vec![4, 5], "b");
    assert_eq!(m.len(), 2);
    assert_eq!(m.position(&[1, 2, 3]), Some(0));
    assert_eq!(m.position(&[4, 5]), Some(1));
    assert_eq!(m.position(&[9]), None);
    m.insert(vec![1, 2, 3], "c");
    assert_eq!(m.len(), 2);
    assert_eq!(*m.client_at(0), "c");
    assert_eq!(*m.client_at(1), "b");
    assert_eq!(m.id_at(1), &vec![4, 5]);
}

#[test]
fn change_in_place() {
    let mut m: ClientMap<u32> = ClientMap::new();
    m.insert(vec![7], 1);
    *m.client_at_mut(0) += 41;
    assert_eq!(*m.client_at(0), 42);
}

#[test]
fn retain_open_keeps_order() {
    let mut m: ClientMap<u32> = ClientMap::new();
    for i in 0..5u8 {
        m.insert(vec![i], i as u32 * 10);
    }
    m.retain_open(&vec![true, false, true, false, false]);
    assert_eq!(m.len(), 3);
    assert_eq!(*m.client_at(0), 10);
    assert_eq!(*m.client_at(1), 30);
    assert_eq!(*m.client_at(2), 40);
    assert_eq!(m.position(&[0]), None);
    assert_eq!(m.position(&[3]), Some(1));
    m.retain_open(&vec![true, true, true]);
    assert!(m.is_empty());
}

#[test]
fn generated_ids_are_random_and_full_length() {
    let m: ClientMap<()> = ClientMap::new();
    let a = m.generate_cid().expect("random bytes");
    let b = m.generate_cid().expect("random bytes");
    assert_eq!(a.len(), MAX_CONN_ID_LEN);
    assert_eq!(b.len(), 20);
    assert_ne!(a, b);
}

#[test]
fn finds_first_source_id_match() {
    let ids = vec![vec![1], vec![2, 2], vec![2, 2]];
    assert_eq!(first_match(&ids, &[2, 2]), Some(1));
    assert_eq!(first_match(&ids, &[3]), None);
}

#[test]
fn earliest_of_set_timeouts() {
    assert_eq!(earliest_timeout(&vec![None, Some(50), Some(7), None, Some(9)]), Some(7));
    assert_eq!(earliest_timeout(&vec![None, None]), None);
    assert_eq!(earliest_timeout(&vec![]), None);
}

#[test]
fn packet_routing() {
    assert_eq!(route_packet(Some(3), Some(1), false, false), PacketRoute::Known(3));
    assert_eq!(route_packet(None, Some(1), false, false), PacketRoute::Known(1));
    assert_eq!(route_packet(None, None, false, true), PacketRoute::DropUnknown);
    assert_eq!(route_packet(None, None, true, false), PacketRoute::DropShuttingDown);
    assert_eq!(route_packet(None, None, true, true), PacketRoute::Accept);
}

#[test]
fn h3_setup_and_egress() {
    assert!(should_create_h3(true, false));
    assert!(!should_create_h3(true, true));
    assert!(!should_create_h3(false, false));
    assert_eq!(h3_setup_result(H3Setup::Created), Ok(true));
    assert_eq!(h3_setup_result(H3Setup::NotReady), Ok(false));
    assert_eq!(h3_setup_result(H3Setup::Failed), Err(()));
    assert_eq!(egress_step(SendOutcome::Packet(1200)), Some(1200));
    assert_eq!(egress_step(SendOutcome::Done), None);
    assert_eq!(egress_step(SendOutcome::Failed), None);
}
