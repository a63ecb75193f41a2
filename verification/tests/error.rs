use marlinbox_rs::error::Error;

#[test]
fn messages_name_what_failed() {
    assert_eq!(Error::Io("disk full".to_string()).message(), "IO error: disk full");
    assert_eq!(Error::Wifi("FailedToCreate".to_string()).message(), "WiFi error: FailedToCreate");
    assert_eq!(Error::Decoder("UnrecognizedFormat".to_string()).message(), "Decoder error: UnrecognizedFormat");
    assert_eq!(Error::Play("NoDevice".to_string()).message(), "Play error: NoDevice");
    assert_eq!(Error::Stream("NoDevice".to_string()).message(), "Stream error: NoDevice");
    assert_eq!(Error::File("not found".to_string()).message(), "File error: not found");
    assert_eq!(Error::Rusb("No device".to_string()).message(), "Rusb error: No device");
    assert_eq!(
        Error::Send("sending on a disconnected channel".to_string()).message(),
        "Send error: sending on a disconnected channel"
    );
}

#[test]
fn messages_without_text() {
    assert_eq!(Error::Recv.message(), "Receiver channel error");
    assert_eq!(Error::MutexPoison.message(), "Mutex poison error");
}

#[test]
fn message_with_empty_text_keeps_the_prefix() {
    assert_eq!(Error::Io(String::new()).message(), "IO error: ");
}

#[test]
fn only_a_poisoned_lock_ends_the_control_loop() {
    assert!(Error::MutexPoison.ends_control_loop());
    let text = || "x".to_string();
    let others = vec![
        Error::Io(text()),
        Error::Wifi(text()),
        Error::Decoder(text()),
        Error::Play(text()),
        Error::Stream(text()),
        Error::Recv,
        Error::File(text()),
        Error::Rusb(text()),
        Error::Send(text()),
    ];
    for error in &others {
        assert!(!error.ends_control_loop());
    }
}
