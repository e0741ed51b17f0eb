use discrete_event_simulator::environment::bus_world::passenger::Passenger;

#[test]
fn create_passenger() {
    let p = Passenger::new(0, "John".to_string(), "A".to_string(), "B".to_string());
    assert_eq!(p.uid, 0);
    assert_eq!(p.name, "John");
    assert_eq!(p.source, "A");
    assert_eq!(p.destination, "B");
    assert_eq!(p.location, "A");
    assert_eq!(p.wait_time, 0);
}
