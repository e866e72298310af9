use void_proxy::pump::PumpAction;
use void_proxy::pump::PumpEvent;
use void_proxy::pump::PumpState;

#[test]
fn pump_forwards_bytes_in_order_until_eof() {
    let mut pump = PumpState::new();
    let mut forwarded: Vec<Vec<u8>> = Vec::new();

    let events = vec![
        PumpEvent::Data(b"hel".to_vec()),
        PumpEvent::Data(b"lo".to_vec()),
        PumpEvent::Eof,
        PumpEvent::Data(b"late".to_vec()),
    ];
    for event in events {
        match pump.step(event) {
            PumpAction::Forward(d) => forwarded.push(d),
            PumpAction::Stop => {},
        }
    }
    assert_eq!(forwarded, vec![b"hel".to_vec(), b"lo".to_vec()]);
    assert_eq!(pump.total_bytes, 5);
    assert!(pump.done);
}

#[test]
fn pump_echo_scenario_moves_at_least_the_payload() {
    // One connection pair: the client sends "hello", the destination echoes
    // it; each direction is one pump.
    let mut client_to_server = PumpState::new();
    let mut server_to_client = PumpState::new();

    let sent = match client_to_server.step(PumpEvent::Data(b"hello".to_vec())) {
        PumpAction::Forward(d) => d,
        PumpAction::Stop => panic!("data on a live pump must be forwarded"),
    };
    assert_eq!(sent, b"hello".to_vec());

    let echoed = match server_to_client.step(PumpEvent::Data(sent)) {
        PumpAction::Forward(d) => d,
        PumpAction::Stop => panic!("data on a live pump must be forwarded"),
    };
    assert_eq!(echoed, b"hello".to_vec());

    client_to_server.step(PumpEvent::Eof);
    server_to_client.step(PumpEvent::Eof);
    assert!(client_to_server.total_bytes >= 5);
    assert!(server_to_client.total_bytes >= 5);
}

#[test]
fn pump_stops_on_cancellation_timeout_and_errors() {
    for terminator in [
        PumpEvent::Cancelled,
        PumpEvent::IdleTimeout,
        PumpEvent::ReadError,
        PumpEvent::WriteError,
    ] {
        let mut pump = PumpState::new();
        match pump.step(terminator) {
            PumpAction::Stop => {},
            PumpAction::Forward(_) => panic!("a terminating event must stop the pump"),
        }
        assert!(pump.done);
        assert_eq!(pump.total_bytes, 0);
    }
}

#[test]
fn pump_total_saturates() {
    let mut pump = PumpState::new();
    pump.total_bytes = u64::MAX - 2;
    match pump.step(PumpEvent::Data(b"xyz".to_vec())) {
        PumpAction::Forward(_) => {},
        PumpAction::Stop => panic!("data on a live pump must be forwarded"),
    }
    assert_eq!(pump.total_bytes, u64::MAX);
}
