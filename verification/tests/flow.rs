use udp_over_tcp::addr::{IpAddress, SocketAddress};
use udp_over_tcp::flow::{idle_at, CleanupSummary, FlowEntry, FlowTable, IDLE_TIMEOUT_NANOS};

const SECOND: u64 = 1_000_000_000;

fn client(n: u16) -> SocketAddress {
    SocketAddress::new(IpAddress::V4([127, 0, 0, 1]), 40000 + n)
}

#[test]
fn idle_means_more_than_600_seconds() {
    assert_eq!(IDLE_TIMEOUT_NANOS, 600 * SECOND);
    assert!(!idle_at(1000, 1000));
    assert!(!idle_at(1000, 1000 + 600 * SECOND));
    assert!(idle_at(1000, 1000 + 600 * SECOND + 1));
    assert!(idle_at(0, u64::MAX));
}

#[test]
fn a_clock_that_went_backwards_makes_nothing_idle() {
    assert!(!idle_at(5000 * SECOND, 10 * SECOND));
    assert!(!idle_at(u64::MAX, 0));
}

#[test]
fn a_new_table_is_empty() {
    let t = FlowTable::new();
    assert_eq!(t.len(), 0);
    assert_eq!(t.socket_count(), 0);
    assert_eq!(t.mapping_count(), 0);
    assert_eq!(t.get(&client(1)), None);
    assert!(!t.has_socket(&client(1)));
    assert_eq!(t.client_for_port(1234), None);
}

#[test]
fn record_packet_counts_from_one() {
    let mut t = FlowTable::new();
    assert_eq!(t.record_packet(client(1), 10), 1);
    assert_eq!(t.record_packet(client(1), 20), 2);
    assert_eq!(t.record_packet(client(2), 30), 1);
    assert_eq!(t.record_packet(client(1), 40), 3);
    assert_eq!(t.len(), 2);
    assert_eq!(
        t.get(&client(1)),
        Some(FlowEntry { local_port: None, last_activity: 40, packet_count: 3 })
    );
    assert_eq!(
        t.get(&client(2)),
        Some(FlowEntry { local_port: None, last_activity: 30, packet_count: 1 })
    );
    assert_eq!(t.mapping_count(), 0);
}

#[test]
fn attach_socket_fills_the_reverse_index() {
    let mut t = FlowTable::new();
    t.attach_socket(client(1), 50001, 7);
    assert!(t.has_socket(&client(1)));
    assert_eq!(t.client_for_port(50001), Some(client(1)));
    assert_eq!(
        t.get(&client(1)),
        Some(FlowEntry { local_port: Some(50001), last_activity: 7, packet_count: 0 })
    );
    assert_eq!(t.len(), 1);
    assert_eq!(t.mapping_count(), 1);
}

#[test]
fn attach_socket_keeps_the_count_of_a_known_flow() {
    let mut t = FlowTable::new();
    t.record_packet(client(1), 1);
    t.record_packet(client(1), 2);
    t.attach_socket(client(1), 50001, 3);
    assert_eq!(
        t.get(&client(1)),
        Some(FlowEntry { local_port: Some(50001), last_activity: 3, packet_count: 2 })
    );
}

#[test]
fn confirm_port_replaces_the_provisional_mapping() {
    let mut t = FlowTable::new();
    t.attach_socket(client(1), 0, 7);
    assert_eq!(t.client_for_port(0), Some(client(1)));
    t.record_packet(client(1), 8);
    t.confirm_port(client(1), 50001);
    assert_eq!(t.client_for_port(50001), Some(client(1)));
    assert_eq!(t.client_for_port(0), None);
    assert_eq!(t.mapping_count(), 1);
    assert_eq!(
        t.get(&client(1)),
        Some(FlowEntry { local_port: Some(50001), last_activity: 8, packet_count: 1 })
    );
}

#[test]
fn confirm_port_with_the_same_port_changes_nothing() {
    let mut t = FlowTable::new();
    t.attach_socket(client(1), 50001, 7);
    t.confirm_port(client(1), 50001);
    assert_eq!(t.client_for_port(50001), Some(client(1)));
    assert_eq!(t.mapping_count(), 1);
    assert_eq!(
        t.get(&client(1)),
        Some(FlowEntry { local_port: Some(50001), last_activity: 7, packet_count: 0 })
    );
}

#[test]
fn confirm_port_leaves_another_flows_mapping_alone() {
    let mut t = FlowTable::new();
    t.attach_socket(client(1), 0, 1);
    t.attach_socket(client(2), 0, 2);
    // Port 0 now leads to the second client.
    assert_eq!(t.client_for_port(0), Some(client(2)));
    t.confirm_port(client(1), 50001);
    assert_eq!(t.client_for_port(0), Some(client(2)));
    assert_eq!(t.client_for_port(50001), Some(client(1)));
    t.confirm_port(client(2), 50002);
    assert_eq!(t.client_for_port(0), None);
    assert_eq!(t.client_for_port(50002), Some(client(2)));
    assert_eq!(t.mapping_count(), 2);
}

#[test]
fn confirm_port_without_a_socket_does_nothing() {
    let mut t = FlowTable::new();
    t.confirm_port(client(1), 50001);
    assert_eq!(t.len(), 0);
    assert_eq!(t.mapping_count(), 0);
    t.record_packet(client(1), 5);
    t.confirm_port(client(1), 50001);
    assert_eq!(t.mapping_count(), 0);
    assert_eq!(
        t.get(&client(1)),
        Some(FlowEntry { local_port: None, last_activity: 5, packet_count: 1 })
    );
}

#[test]
fn reverse_index_is_the_inverse_of_the_ports() {
    let mut t = FlowTable::new();
    for n in 1..=5u16 {
        t.attach_socket(client(n), 50000 + n, 1);
        t.record_packet(client(n), 2);
        t.confirm_port(client(n), 50000 + n);
    }
    assert_eq!(t.len(), 5);
    assert_eq!(t.mapping_count(), 5);
    for n in 1..=5u16 {
        let port = t.get(&client(n)).unwrap().local_port.unwrap();
        assert_eq!(port, 50000 + n);
        assert_eq!(t.client_for_port(port), Some(client(n)));
    }
    assert_eq!(t.client_for_port(50006), None);
}

#[test]
fn sweep_removes_exactly_the_idle_flows() {
    let mut t = FlowTable::new();
    t.attach_socket(client(1), 50001, 0);
    t.attach_socket(client(2), 50002, 100 * SECOND);
    t.record_packet(client(3), 0);
    t.record_packet(client(4), 1);
    let mut evicted = t.sweep(600 * SECOND + 1);
    evicted.sort_by_key(|c| c.port());
    assert_eq!(evicted, vec![client(1), client(3)]);
    assert_eq!(t.len(), 2);
    assert_eq!(t.get(&client(1)), None);
    assert_eq!(t.get(&client(3)), None);
    assert_eq!(t.client_for_port(50001), None);
    assert_eq!(t.client_for_port(50002), Some(client(2)));
    assert_eq!(
        t.get(&client(2)),
        Some(FlowEntry { local_port: Some(50002), last_activity: 100 * SECOND, packet_count: 0 })
    );
    assert_eq!(
        t.get(&client(4)),
        Some(FlowEntry { local_port: None, last_activity: 1, packet_count: 1 })
    );
    assert_eq!(t.mapping_count(), 1);
}

#[test]
fn sweep_at_exactly_600_seconds_keeps_the_flow() {
    let mut t = FlowTable::new();
    t.attach_socket(client(1), 50001, 5);
    assert!(t.sweep(5 + 600 * SECOND).is_empty());
    assert_eq!(t.len(), 1);
    assert_eq!(t.sweep(5 + 600 * SECOND + 1), vec![client(1)]);
    assert_eq!(t.len(), 0);
    assert_eq!(t.mapping_count(), 0);
}

#[test]
fn activity_postpones_eviction() {
    let mut t = FlowTable::new();
    t.attach_socket(client(1), 50001, 0);
    t.record_packet(client(1), 500 * SECOND);
    assert!(t.sweep(900 * SECOND).is_empty());
    assert_eq!(t.sweep(1100 * SECOND + 1), vec![client(1)]);
}

#[test]
fn sweep_of_an_empty_table_is_empty() {
    let mut t = FlowTable::new();
    assert!(t.sweep(u64::MAX).is_empty());
    assert_eq!(t.len(), 0);
}

#[test]
fn clear_reports_what_was_there_and_is_idempotent() {
    let mut t = FlowTable::new();
    t.attach_socket(client(1), 50001, 0);
    t.attach_socket(client(2), 50002, 0);
    t.record_packet(client(3), 0);
    assert_eq!(t.socket_count(), 2);
    let first = t.clear();
    assert_eq!(first, CleanupSummary { sockets: 2, mappings: 2, flows: 3 });
    assert_eq!(t.len(), 0);
    assert_eq!(t.mapping_count(), 0);
    assert_eq!(t.get(&client(1)), None);
    assert_eq!(t.client_for_port(50001), None);
    let second = t.clear();
    assert_eq!(second, CleanupSummary { sockets: 0, mappings: 0, flows: 0 });
    assert_eq!(t.socket_count(), 0);
    assert_eq!(t.len(), 0);
    assert_eq!(t.mapping_count(), 0);
}

#[test]
fn addresses_that_differ_in_one_byte_are_different_flows() {
    let mut t = FlowTable::new();
    let a = SocketAddress::new(IpAddress::V6([0u8; 16]), 1);
    let mut other = [0u8; 16];
    other[15] = 1;
    let b = SocketAddress::new(IpAddress::V6(other), 1);
    let c = SocketAddress::new(IpAddress::V4([0, 0, 0, 0]), 1);
    t.record_packet(a, 1);
    t.record_packet(b, 1);
    t.record_packet(c, 1);
    t.record_packet(a, 2);
    assert_eq!(t.len(), 3);
    assert_eq!(t.get(&a).unwrap().packet_count, 2);
    assert_eq!(t.get(&b).unwrap().packet_count, 1);
    assert_eq!(t.get(&c).unwrap().packet_count, 1);
}

#[test]
fn socket_count_counts_only_flows_with_a_socket() {
    let mut t = FlowTable::new();
    t.record_packet(client(1), 1);
    assert_eq!(t.socket_count(), 0);
    t.attach_socket(client(2), 50002, 1);
    t.attach_socket(client(3), 50003, 1);
    t.record_packet(client(3), 2);
    assert_eq!(t.socket_count(), 2);
    assert_eq!(t.len(), 3);
    t.attach_socket(client(1), 50001, 3);
    assert_eq!(t.socket_count(), 3);
}
