use sysmetrics::network::{CounterDelta, InterfaceObservation, NetworkData, Networks};

fn observe(name: &str, rx: u64, tx: u64) -> InterfaceObservation {
    InterfaceObservation {
        name: String::from(name),
        mtu: 1500,
        received_bytes: rx,
        transmitted_bytes: tx,
        received_packets: 0,
        transmitted_packets: 0,
        receive_errors: 0,
        transmit_errors: 0,
    }
}

fn lookup<'a>(nets: &'a Networks, name: &str) -> &'a NetworkData {
    let key = String::from(name);
    nets.get(&key).expect("interface is tracked")
}

#[test]
fn counter_delta_tracks_intervals() {
    let mut c = CounterDelta { total: 0, last: 0 };
    c.update(1000);
    assert_eq!(c.total, 1000);
    assert_eq!(c.last, 1000);
    c.update(1500);
    assert_eq!(c.total, 1500);
    assert_eq!(c.last, 500);
    // rollback: the delta clamps to zero, never a negative rate
    c.update(400);
    assert_eq!(c.total, 400);
    assert_eq!(c.last, 0);
}

#[test]
fn interface_refresh_yields_interval_deltas() {
    let mut nets = Networks::default();
    nets.refresh_networks_list(&vec![observe("eth0", 1000, 500)]);
    nets.refresh_networks_list(&vec![observe("eth0", 1500, 600)]);
    let eth0 = lookup(&nets, "eth0");
    assert_eq!(eth0.get_received(), 500);
    assert_eq!(eth0.get_transmitted(), 100);
    assert_eq!(eth0.get_total_received(), 1500);
    assert_eq!(eth0.get_total_transmitted(), 600);
}

#[test]
fn first_observation_has_zero_baseline() {
    let mut nets = Networks::default();
    nets.refresh_networks_list(&vec![observe("em0", 4242, 17)]);
    let em0 = lookup(&nets, "em0");
    // the first post-insert read is the full cumulative value, not a rate
    assert_eq!(em0.get_received(), 4242);
    assert_eq!(em0.get_total_received(), 4242);
    assert_eq!(em0.get_transmitted(), 17);
    assert_eq!(em0.mtu, 1500);
}

#[test]
fn absent_interface_retains_values() {
    let mut nets = Networks::default();
    nets.refresh_networks_list(&vec![observe("eth0", 1000, 500), observe("eth1", 10, 20)]);
    nets.refresh_networks_list(&vec![observe("eth0", 1200, 800), observe("eth1", 30, 60)]);
    let frozen_rx = lookup(&nets, "eth1").get_received();
    let frozen_total = lookup(&nets, "eth1").get_total_received();
    assert_eq!(frozen_rx, 20);
    assert_eq!(frozen_total, 30);
    // eth1 vanishes from the next snapshot: it is not deleted and keeps its
    // last computed values unchanged
    nets.refresh_networks_list(&vec![observe("eth0", 2000, 900)]);
    assert_eq!(lookup(&nets, "eth1").get_received(), frozen_rx);
    assert_eq!(lookup(&nets, "eth1").get_total_received(), frozen_total);
    assert_eq!(lookup(&nets, "eth0").get_received(), 800);
}

#[test]
fn repeated_observations_merge_in_order() {
    let mut nets = Networks::default();
    // one snapshot may carry several records for one interface (one per
    // address): later records refresh the counters again
    nets.refresh_networks_list(&vec![observe("lo0", 100, 0), observe("lo0", 150, 0)]);
    let lo0 = lookup(&nets, "lo0");
    assert_eq!(lo0.get_total_received(), 150);
    assert_eq!(lo0.get_received(), 50);
}

#[test]
fn counter_rollback_clamps_interface_delta() {
    let mut nets = Networks::default();
    nets.refresh_networks_list(&vec![observe("eth0", 1000, 500)]);
    nets.refresh_networks_list(&vec![observe("eth0", 400, 700)]);
    let eth0 = lookup(&nets, "eth0");
    assert_eq!(eth0.get_received(), 0);
    assert_eq!(eth0.get_total_received(), 400);
    assert_eq!(eth0.get_transmitted(), 200);
}

#[test]
fn unknown_interface_lookup_fails() {
    let mut nets = Networks::default();
    nets.refresh_networks_list(&vec![observe("eth0", 1, 1)]);
    assert!(nets.get(&String::from("wlan0")).is_none());
    assert_eq!(nets.entries().len(), 1);
}

#[test]
fn all_six_counters_are_tracked() {
    let mut nets = Networks::default();
    let mut o = observe("ix0", 10, 20);
    o.received_packets = 30;
    o.transmitted_packets = 40;
    o.receive_errors = 50;
    o.transmit_errors = 60;
    nets.refresh_networks_list(&vec![o]);
    let mut o2 = observe("ix0", 11, 22);
    o2.received_packets = 33;
    o2.transmitted_packets = 44;
    o2.receive_errors = 55;
    o2.transmit_errors = 66;
    nets.refresh_networks_list(&vec![o2]);
    let d = lookup(&nets, "ix0");
    assert_eq!(d.get_packets_received(), 3);
    assert_eq!(d.get_total_packets_received(), 33);
    assert_eq!(d.get_packets_transmitted(), 4);
    assert_eq!(d.get_total_packets_transmitted(), 44);
    assert_eq!(d.get_errors_on_received(), 5);
    assert_eq!(d.get_total_errors_on_received(), 55);
    assert_eq!(d.get_errors_on_transmitted(), 6);
    assert_eq!(d.get_total_errors_on_transmitted(), 66);
}
