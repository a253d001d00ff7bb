use udp_polygon::timers::{RetransmitAction, StopReason, Timers};
use udp_polygon::transport::{ConfigureError, Datagram, SendError};
use udp_polygon::{Address, Config, FromArguments, IpAddress, Polygon};

fn local(port: u16) -> Address {
    Address::new(IpAddress::V4([127, 0, 0, 1]), port)
}

#[test]
fn configure_keeps_every_binding() {
    let bindings = vec![local(6000), local(6001), Address::new(IpAddress::V4([0, 0, 0, 0]), 6002)];
    let polygon = Polygon::configure(Config::from_arguments(bindings.clone(), Some(local(6100)))).unwrap();
    assert_eq!(polygon.bind_addresses(), &bindings);
    assert_eq!(polygon.destination(), Some(local(6100)));
}

#[test]
fn configure_refuses_an_empty_binding_set() {
    let r = Polygon::configure(Config::from_arguments(vec![], Some(local(6100))));
    assert_eq!(r.unwrap_err(), ConfigureError::NoBindAddress);
}

#[test]
fn send_without_destination_fails() {
    let polygon = Polygon::configure(Config::from_arguments(vec![local(6000)], None)).unwrap();
    assert_eq!(polygon.send(b"hello".to_vec()).unwrap_err(), SendError::NoDestination);
    let r = polygon.send_with_timer(b"hello".to_vec(), Timers { delays: vec![10] });
    assert_eq!(r.unwrap_err(), SendError::NoDestination);
}

#[test]
fn send_makes_one_datagram_to_the_destination() {
    let polygon = Polygon::configure(Config::from_arguments(vec![local(6000)], Some(local(6001)))).unwrap();
    let d = polygon.send(vec![1, 2, 3]).unwrap();
    assert_eq!(d, Datagram { to: local(6001), payload: vec![1, 2, 3] });
}

fn drive(polygon: &Polygon, delays: Vec<u64>, flags: &[bool]) -> Vec<RetransmitAction> {
    let mut r = polygon.send_with_timer(b"again".to_vec(), Timers { delays }).unwrap();
    flags.iter().map(|f| r.step(*f)).collect()
}

fn send(to: Address, delay_ms: u64) -> RetransmitAction {
    RetransmitAction::Send { to, payload: b"again".to_vec(), delay_ms }
}

#[test]
fn uncancelled_schedule_sends_once_per_delay() {
    let polygon = Polygon::configure(Config::from_arguments(vec![local(6000)], Some(local(6001)))).unwrap();
    let actions = drive(&polygon, vec![500, 600, 1000], &[false, false, false, false, false]);
    assert_eq!(
        actions,
        vec![
            send(local(6001), 500),
            send(local(6001), 600),
            send(local(6001), 1000),
            RetransmitAction::Stop(StopReason::Done),
            RetransmitAction::Stop(StopReason::Done),
        ]
    );
}

#[test]
fn empty_schedule_sends_nothing() {
    let polygon = Polygon::configure(Config::from_arguments(vec![local(6000)], Some(local(6001)))).unwrap();
    let actions = drive(&polygon, vec![], &[false, true]);
    assert_eq!(
        actions,
        vec![RetransmitAction::Stop(StopReason::Done), RetransmitAction::Stop(StopReason::Done)]
    );
}

#[test]
fn cancel_after_first_send_sends_exactly_once() {
    let polygon = Polygon::configure(Config::from_arguments(vec![local(6000)], Some(local(6001)))).unwrap();
    let actions = drive(&polygon, vec![5, 6, 7], &[false, true, false, false]);
    assert_eq!(
        actions,
        vec![
            send(local(6001), 5),
            RetransmitAction::Stop(StopReason::Cancelled),
            RetransmitAction::Stop(StopReason::Cancelled),
            RetransmitAction::Stop(StopReason::Cancelled),
        ]
    );
}

#[test]
fn flag_set_before_the_first_send_still_sends_once() {
    let polygon = Polygon::configure(Config::from_arguments(vec![local(6000)], Some(local(6001)))).unwrap();
    let actions = drive(&polygon, vec![5, 6], &[true, true]);
    assert_eq!(actions, vec![send(local(6001), 5), RetransmitAction::Stop(StopReason::Cancelled)]);
}

#[test]
fn flag_cleared_again_lets_the_schedule_go_on() {
    let polygon = Polygon::configure(Config::from_arguments(vec![local(6000)], Some(local(6001)))).unwrap();
    let actions = drive(&polygon, vec![5, 6], &[true, false, false]);
    assert_eq!(
        actions,
        vec![send(local(6001), 5), send(local(6001), 6), RetransmitAction::Stop(StopReason::Done)]
    );
}

#[test]
fn changing_destination_spares_a_started_retransmission() {
    let mut polygon = Polygon::configure(Config::from_arguments(vec![local(6000)], Some(local(6001)))).unwrap();
    let mut r = polygon.send_with_timer(b"again".to_vec(), Timers { delays: vec![1, 2] }).unwrap();
    assert_eq!(r.step(false), send(local(6001), 1));
    polygon.change_destination(local(7001));
    assert_eq!(r.target(), local(6001));
    assert_eq!(r.step(false), send(local(6001), 2));
    assert_eq!(polygon.destination(), Some(local(7001)));
    let d = polygon.send(b"later".to_vec()).unwrap();
    assert_eq!(d.to, local(7001));
    assert_eq!(d.payload, b"later".to_vec());
    assert_eq!(polygon.bind_addresses(), &vec![local(6000)]);
}

#[test]
fn change_destination_gives_a_destination_to_a_transport_without_one() {
    let mut polygon = Polygon::configure(Config::from_arguments(vec![local(6000)], None)).unwrap();
    polygon.change_destination(local(6001));
    assert_eq!(polygon.send(vec![9]).unwrap().to, local(6001));
}
