use sensor_bridge::forward::{ForwardError, Point, RegisterWrite};
use sensor_bridge::frame::{DecodeError, StreamError};
use sensor_bridge::message::DeviceMessage;
use sensor_bridge::supervisor::{Action, Event, LinkState, Supervisor};

fn message(number: u16) -> DeviceMessage {
    DeviceMessage {
        batt_pid1: 1,
        batt_value: 0,
        temp_pid2: 2,
        temp_value: 84,
        vib_pid3: 3,
        vib_x: 62206,
        vib_y: 602,
        vib_z: 1914,
        msg_num_pid5: 5,
        msg_num_value: number,
        version_pid11: 11,
        version_value: 2,
        rssi_pid6: 6,
        rssi_value: 189,
    }
}

fn write_failure() -> ForwardError {
    ForwardError { point: Point::Battery, write: RegisterWrite::Single { address: 1, value: 0 } }
}

fn connected() -> Supervisor {
    let (mut supervisor, _) = Supervisor::start();
    supervisor.on_event(Event::ConnectSucceeded);
    supervisor
}

#[test]
fn supervisor_starts_by_connecting() {
    let (supervisor, action) = Supervisor::start();
    assert_eq!(supervisor.state, LinkState::Disconnected);
    assert_eq!(action, Action::Connect);
}

#[test]
fn supervisor_stops_when_it_cannot_connect() {
    let (mut supervisor, _) = Supervisor::start();
    assert_eq!(supervisor.on_event(Event::ConnectFailed), Action::Stop);
    assert_eq!(supervisor.state, LinkState::Disconnected);
}

#[test]
fn supervisor_reads_and_forwards() {
    let (mut supervisor, _) = Supervisor::start();
    assert_eq!(supervisor.on_event(Event::ConnectSucceeded), Action::Read);
    assert_eq!(supervisor.state, LinkState::Connected);
    for number in 0..5 {
        assert_eq!(
            supervisor.on_event(Event::Read(Ok(message(number)))),
            Action::Forward(message(number))
        );
        assert_eq!(supervisor.state, LinkState::Connected);
        assert_eq!(supervisor.on_event(Event::Forwarded(Ok(()))), Action::Read);
        assert_eq!(supervisor.state, LinkState::Connected);
    }
}

#[test]
fn supervisor_reconnects_after_any_error() {
    let errors = [
        Event::Read(Err(DecodeError::Io(StreamError::EndOfStream))),
        Event::Read(Err(DecodeError::Io(StreamError::ReadFailed))),
        Event::Read(Err(DecodeError::UnrecognisedStartSequence)),
        Event::Read(Err(DecodeError::UnexpectedDeviceId)),
        Event::Read(Err(DecodeError::InvalidPayloadLength)),
        Event::Forwarded(Err(write_failure())),
    ];
    for error in errors {
        let mut supervisor = connected();
        assert_eq!(supervisor.on_event(error), Action::Connect);
        assert_eq!(supervisor.state, LinkState::Disconnected);
        // The new connection is used like the first.
        assert_eq!(supervisor.on_event(Event::ConnectSucceeded), Action::Read);
        assert_eq!(supervisor.state, LinkState::Connected);
    }
}

#[test]
fn supervisor_retries_without_bound() {
    let mut supervisor = connected();
    for _ in 0..1000 {
        assert_eq!(
            supervisor.on_event(Event::Read(Err(DecodeError::UnexpectedDeviceId))),
            Action::Connect
        );
        assert_eq!(supervisor.on_event(Event::ConnectSucceeded), Action::Read);
    }
    assert_eq!(supervisor.on_event(Event::Read(Ok(message(7)))), Action::Forward(message(7)));
}

#[test]
fn supervisor_treats_stray_events_as_errors() {
    let strays = [
        Event::Read(Ok(message(1))),
        Event::Forwarded(Ok(())),
        Event::Read(Err(DecodeError::InvalidPayloadLength)),
        Event::Forwarded(Err(write_failure())),
    ];
    for stray in strays {
        let (mut supervisor, _) = Supervisor::start();
        assert_eq!(supervisor.on_event(stray), Action::Connect);
        assert_eq!(supervisor.state, LinkState::Disconnected);
    }
    for stray in [Event::ConnectSucceeded, Event::ConnectFailed] {
        let mut supervisor = connected();
        assert_eq!(supervisor.on_event(stray), Action::Connect);
        assert_eq!(supervisor.state, LinkState::Disconnected);
    }
}
