use monitoring::metrics::{Registry, add_metrics_to_registry};
use monitoring::collector::connected_clients_metric;
use monitoring::connections::{Connection, ConnectionState};

fn gauge_registry() -> Registry {
    let mut registry = Registry::new();
    add_metrics_to_registry(&mut registry, vec![connected_clients_metric()]);
    registry
}

fn live_connections(registry: &Registry) -> i64 {
    registry.get_gauge("connected_clients", &Vec::new())
}

#[test]
fn upgrades_then_closes_return_gauge_to_start() {
    let mut registry = gauge_registry();
    let start = live_connections(&registry);
    let mut connections: Vec<Connection> = (0..4)
        .map(|i| Connection::new(format!("client-{}", i)))
        .collect();
    for connection in connections.iter_mut() {
        connection.on_upgrade(&mut registry);
        assert!(live_connections(&registry) >= start);
    }
    assert_eq!(live_connections(&registry), start + 4);
    for connection in connections.iter_mut() {
        connection.on_close(&mut registry);
        assert!(live_connections(&registry) >= start);
    }
    assert_eq!(live_connections(&registry), start);
}

#[test]
fn gauge_never_goes_negative_under_interleaving() {
    let mut registry = gauge_registry();
    let mut a = Connection::new(String::from("a"));
    let mut b = Connection::new(String::from("b"));
    a.on_upgrade(&mut registry);
    assert!(live_connections(&registry) >= 0);
    b.on_upgrade(&mut registry);
    assert!(live_connections(&registry) >= 0);
    a.on_close(&mut registry);
    assert!(live_connections(&registry) >= 0);
    b.on_close(&mut registry);
    assert_eq!(live_connections(&registry), 0);
}

#[test]
fn connection_walks_the_state_machine() {
    let mut registry = gauge_registry();
    let mut connection = Connection::new(String::from("c"));
    assert_eq!(connection.id(), "c");
    connection.on_upgrade(&mut registry);
    assert!(connection.on_message(true));
    assert!(!connection.on_message(false));
    connection.on_close(&mut registry);
    assert_eq!(live_connections(&registry), 0);
}

#[test]
fn states_are_distinct() {
    assert_ne!(ConnectionState::Connecting, ConnectionState::Connected);
    assert_ne!(ConnectionState::Connected, ConnectionState::Closed);
}
