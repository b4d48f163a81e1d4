use sammy::settings::DB_INSERT_QUEUE_MAX_SIZE;
use sammy::settings::Database;
use sammy::settings::vehicle_stat_names;

#[test]
fn configured_port_wins_over_the_default() {
    let with_port = Database {
        host: "localhost".to_string(),
        port: Some(15432),
        user: None,
        password: None,
        name: "transporter".to_string(),
    };
    assert_eq!(with_port.effective_port(), 15432);
    let without_port = Database { port: None, ..with_port };
    assert_eq!(without_port.effective_port(), 5432);
}

#[test]
fn requested_stat_kinds() {
    assert_eq!(vehicle_stat_names(), vec!["gps", "engineStates", "obdOdometerMeters"]);
}

#[test]
fn queue_bound_is_a_million_records() {
    assert_eq!(DB_INSERT_QUEUE_MAX_SIZE, 1_000_000);
}
