use serial_monitor::manager::{
    post_open_steps, reader_step, Channel, ConnState, ConnectError, Monitor, PortStep,
    ReadEvent, ReaderAction, SendError,
};

#[test]
fn connect_with_empty_descriptor_is_a_config_error() {
    let mut m = Monitor::new();
    let r = m.begin_connect(b"", 115200);
    assert!(matches!(r, Err(ConnectError::NoPortSelected)));
    assert_eq!(m.connection_state(), ConnState::Disconnected);
    assert_eq!(m.log_bytes().as_slice(), b"Select one port.\n");
}

#[test]
fn connect_hands_out_the_fixed_line_parameters() {
    let mut m = Monitor::new();
    let p = m.begin_connect(b"/dev/ttyUSB0", 9600).unwrap();
    assert_eq!(p.path, b"/dev/ttyUSB0".to_vec());
    assert_eq!(p.baud, 9600);
    assert_eq!(p.timeout_ms, 10);
    assert_eq!(p.data_bits, 8);
    assert_eq!(p.stop_bits, 1);
    assert!(!p.parity_enabled);
    assert!(!p.flow_enabled);
    assert_eq!(m.connection_state(), ConnState::Connecting);
    m.open_succeeded();
    assert_eq!(m.connection_state(), ConnState::Connected);
    assert_eq!(m.log_bytes().as_slice(), b"Connected\n");
}

#[test]
fn failed_open_returns_to_disconnected() {
    let mut m = Monitor::new();
    m.begin_connect(b"/dev/ttyUSB0", 115200).unwrap();
    m.open_failed(b"no such device");
    assert_eq!(m.connection_state(), ConnState::Disconnected);
    assert_eq!(m.log_bytes().as_slice(), b"Failed: no such device\n");
}

#[test]
fn disconnect_twice_is_a_no_op() {
    let mut m = Monitor::new();
    m.begin_connect(b"/dev/ttyUSB0", 115200).unwrap();
    m.open_succeeded();
    m.disconnect();
    assert_eq!(m.connection_state(), ConnState::Disconnected);
    let log_after_first = m.log_bytes().clone();
    m.disconnect();
    assert_eq!(m.connection_state(), ConnState::Disconnected);
    assert_eq!(m.log_bytes(), &log_after_first);
}

#[test]
fn read_timeout_forwards_nothing() {
    assert!(matches!(reader_step(ReadEvent::TimedOut), ReaderAction::Idle));
}

#[test]
fn read_data_is_forwarded_decoded() {
    match reader_step(ReadEvent::Data(b"abc\n".to_vec())) {
        ReaderAction::Forward(f) => assert_eq!(f, b"abc\n".to_vec()),
        _ => panic!("data must be forwarded"),
    }
    // invalid UTF-8 is replaced, never dropped and never an error
    match reader_step(ReadEvent::Data(vec![0xFF])) {
        ReaderAction::Forward(f) => assert_eq!(f, vec![0xEF, 0xBF, 0xBD]),
        _ => panic!("data must be forwarded"),
    }
}

#[test]
fn empty_read_forwards_nothing() {
    assert!(matches!(
        reader_step(ReadEvent::Data(Vec::new())),
        ReaderAction::Idle
    ));
}

#[test]
fn read_failure_forwards_an_error_marker() {
    match reader_step(ReadEvent::Failed(b"device gone".to_vec())) {
        ReaderAction::Recover(l) => assert_eq!(l, b"Error: device gone\n".to_vec()),
        _ => panic!("a failure must ask for recovery"),
    }
}

#[test]
fn send_is_refused_when_not_connected() {
    let m = Monitor::new();
    assert!(matches!(m.prepare_send(b"hi"), Err(SendError::NotConnected)));
}

#[test]
fn send_payload_is_raw_text_or_hex_reading() {
    let mut m = Monitor::new();
    m.begin_connect(b"/dev/ttyUSB0", 115200).unwrap();
    m.open_succeeded();
    assert_eq!(m.prepare_send(b"hi").unwrap(), b"hi".to_vec());
    m.set_hex_input(true);
    assert_eq!(m.prepare_send(b"DE AD").unwrap(), vec![0xDE, 0xAD]);
    // a malformed pair is skipped, not fatal
    assert_eq!(m.prepare_send(b"DE XY AD").unwrap(), vec![0xDE, 0xAD]);
}

#[test]
fn send_record_uses_the_display_mode() {
    let mut m = Monitor::new();
    m.begin_connect(b"/dev/ttyUSB0", 115200).unwrap();
    m.open_succeeded();
    m.clear_log();
    m.record_send(b"hi", b"hi");
    assert_eq!(m.log_bytes().as_slice(), b"Send: hi\n");
    m.set_hex_display(true);
    m.clear_log();
    m.record_send(&[0xDE, 0xAD], b"DE AD");
    assert_eq!(m.log_bytes().as_slice(), b"Send: DE AD \n");
}

#[test]
fn write_failure_is_reported_for_that_send() {
    let mut m = Monitor::new();
    m.record_send_failure(b"broken pipe");
    assert_eq!(m.log_bytes().as_slice(), b"Write failed: broken pipe\n");
}

#[test]
fn fragment_with_a_frame_feeds_all_four_channels() {
    let mut m = Monitor::new();
    m.set_plot_open(true);
    m.handle_fragment(b"Pace: FL: 1.0 FR: 2.0 RL: 3.0 RR: 4.0", 1000);
    m.handle_fragment(b"Pace: FL: 1.5 FR: 2.5 RL: 3.5 RR: 4.5", 1250);
    for (c, first, second) in [
        (Channel::Fl, "1.0", "1.5"),
        (Channel::Fr, "2.0", "2.5"),
        (Channel::Rl, "3.0", "3.5"),
        (Channel::Rr, "4.0", "4.5"),
    ] {
        let snap = m.snapshot(c);
        assert_eq!(snap.len(), 2);
        assert_eq!(snap[0], (0, first.as_bytes().to_vec()));
        assert_eq!(snap[1], (250, second.as_bytes().to_vec()));
    }
}

#[test]
fn fragment_without_a_frame_feeds_nothing() {
    let mut m = Monitor::new();
    m.set_plot_open(true);
    m.handle_fragment(b"Pace: FL: 1.0 FR: 2.0", 1000);
    m.handle_fragment(b"random text", 1100);
    assert_eq!(m.snapshot(Channel::Fl).len(), 0);
    assert_eq!(m.snapshot(Channel::Rr).len(), 0);
}

#[test]
fn closed_or_paused_plot_ignores_frames() {
    let mut m = Monitor::new();
    m.handle_fragment(b"Pace: FL: 1.0 FR: 2.0 RL: 3.0 RR: 4.0", 1000);
    assert_eq!(m.snapshot(Channel::Fl).len(), 0);
    m.set_plot_open(true);
    m.set_paused(true);
    m.handle_fragment(b"Pace: FL: 1.0 FR: 2.0 RL: 3.0 RR: 4.0", 1100);
    assert_eq!(m.snapshot(Channel::Fl).len(), 0);
    m.set_paused(false);
    m.handle_fragment(b"Pace: FL: 1.0 FR: 2.0 RL: 3.0 RR: 4.0", 1200);
    assert_eq!(m.snapshot(Channel::Fl).len(), 1);
}

#[test]
fn fragments_enter_the_transcript() {
    let mut m = Monitor::new();
    m.handle_fragment(b"hello", 0);
    assert_eq!(m.log_bytes().as_slice(), b"hello\n");
    m.set_hex_display(true);
    m.clear_log();
    m.handle_fragment(&[0xDE, 0xAD], 0);
    assert_eq!(m.log_bytes().as_slice(), b"DE AD \n");
}

#[test]
fn clear_plots_restarts_every_channel() {
    let mut m = Monitor::new();
    m.set_plot_open(true);
    m.handle_fragment(b"Pace: FL: 1.0 FR: 2.0 RL: 3.0 RR: 4.0", 1000);
    m.clear_plots();
    assert_eq!(m.snapshot(Channel::Fl).len(), 0);
    m.handle_fragment(b"Pace: FL: 1.0 FR: 2.0 RL: 3.0 RR: 4.0", 5000);
    // the clock restarted: the first sample after the clear is at zero again
    assert_eq!(m.snapshot(Channel::Rr)[0].0, 0);
}

#[test]
fn buffers_obey_the_configured_capacity() {
    let mut m = Monitor::new();
    m.set_plot_open(true);
    m.set_max_points(100);
    for i in 0..120u64 {
        m.handle_fragment(b"Pace: FL: 1.0 FR: 2.0 RL: 3.0 RR: 4.0", i * 10);
    }
    assert_eq!(m.snapshot(Channel::Fl).len(), 100);
}

#[test]
fn reset_plan_is_owed_exactly_when_connected() {
    let mut m = Monitor::new();
    assert!(m.reset_plan().is_none());
    m.begin_connect(b"/dev/ttyUSB0", 115200).unwrap();
    assert!(m.reset_plan().is_none());
    m.open_succeeded();
    let plan = m.reset_plan().unwrap();
    assert_eq!(
        plan,
        vec![
            PortStep::ClearBuffers,
            PortStep::SetDtr(true),
            PortStep::WaitMs(100),
            PortStep::SetDtr(false),
            PortStep::WaitMs(100),
        ]
    );
}

#[test]
fn post_open_steps_deassert_the_control_lines() {
    assert_eq!(
        post_open_steps(),
        vec![
            PortStep::SetDtr(false),
            PortStep::SetRts(false),
            PortStep::ClearBuffers,
        ]
    );
}
