use ubuntu_config_scripts::audio_speakers::{
    detect_audio_devices, extract_field, get_current_speaker_config, parse_sink_listing,
    resolve_device, validate_device_id, AudioDevice, CommandReport, ConfigError, ConfigureAction,
    ConfigureEvent, ConfigurePhase, ConfigureSession, SpeakerConfig,
};

fn exited(stdout: &str) -> CommandReport {
    CommandReport::Exited { success: true, stdout: stdout.to_string(), stderr: String::new() }
}

fn failed(stderr: &str) -> CommandReport {
    CommandReport::Exited { success: false, stdout: String::new(), stderr: stderr.to_string() }
}

const TWO_SINKS: &str = "Sink #0\n\tName: alsa_output.a\n\tDescription: Speakers\n\tMute: no\n\tVolume: 50% / 50%\nSink #1\n\tName: alsa_output.b\n\tDescription: Headphones\n\tMute: yes\n\tVolume: 80% / 80%\n";

fn device(id: &str, name: &str, description: &str, is_default: bool) -> AudioDevice {
    AudioDevice {
        id: id.to_string(),
        name: name.to_string(),
        description: description.to_string(),
        is_default,
    }
}

#[test]
fn test_validate_device_id_valid() {
    assert!(validate_device_id("device-123"));
    assert!(validate_device_id("valid-device"));
    assert!(validate_device_id("device123"));
}

#[test]
fn test_validate_device_id_invalid() {
    assert!(!validate_device_id("")); // Empty
    assert!(!validate_device_id("../etc/passwd")); // Path traversal
    assert!(!validate_device_id("device\0null")); // Null byte
    assert!(!validate_device_id("/path/to/device")); // Absolute path
}

#[test]
fn test_extract_field() {
    let text = "Name: my-device\nDescription: My Device\n";
    assert_eq!(extract_field(text, "Name:"), Some("my-device".to_string()));
    assert_eq!(
        extract_field(text, "Description:"),
        Some("My Device".to_string())
    );
    assert_eq!(extract_field(text, "NotFound:"), None);
}

#[test]
fn prop_device_validation_consistent() {
    let test_ids = vec![
        ("valid-device-1", true),
        ("", false),
        ("device with spaces", false),
        ("device-123", true),
        ("../../etc/passwd", false),
    ];

    for (device_id, expected_valid) in test_ids {
        for _ in 0..3 {
            let is_valid = validate_device_id(device_id);
            assert_eq!(
                is_valid, expected_valid,
                "Validation for '{}' should consistently return {}",
                device_id, expected_valid
            );
        }
    }
}

#[test]
fn verify_red_phase() {
    println!("property tests of the audio workflow are in this file");
    assert!(true);
}

#[test]
fn validate_id_examples() {
    assert!(!validate_device_id(""));
    assert!(!validate_device_id("../x"));
    assert!(!validate_device_id("a b"));
    assert!(validate_device_id("device-123"));
    assert!(!validate_device_id("back\\slash"));
    assert_eq!(validate_device_id("device-123"), validate_device_id("device-123"));
}

#[test]
fn extract_field_edge_cases() {
    // Leading white space before the label is skipped; the value is trimmed.
    assert_eq!(extract_field("  \tMute:   yes  \r\n", "Mute:"), Some("yes".to_string()));
    // The first matching line wins.
    assert_eq!(extract_field("Name: a\nName: b\n", "Name:"), Some("a".to_string()));
    // A matching line without a colon gives an empty value.
    assert_eq!(extract_field("Names are here\n", "Name"), Some(String::new()));
    // The value is what follows the first colon of the line.
    assert_eq!(extract_field("Volume: front-left: 65536 /  100%", "Volume:"),
        Some("front-left: 65536 /  100%".to_string()));
    assert_eq!(extract_field("", "Name:"), None);
}

#[test]
fn sink_listing_scenario() {
    let devices = parse_sink_listing(TWO_SINKS, "alsa_output.b");
    assert_eq!(
        devices,
        vec![
            device("0", "alsa_output.a", "Speakers", false),
            device("1", "alsa_output.b", "Headphones", true),
        ]
    );
    let detected = detect_audio_devices(&exited(TWO_SINKS), &exited("alsa_output.b\n")).unwrap();
    assert_eq!(detected, devices);
    let current = get_current_speaker_config(&exited("alsa_output.b\n"), &exited(TWO_SINKS));
    assert_eq!(
        current,
        Ok(SpeakerConfig { device_id: "alsa_output.b".to_string(), volume: 80, muted: true })
    );
    let other = get_current_speaker_config(&exited("alsa_output.a"), &exited(TWO_SINKS)).unwrap();
    assert_eq!(other.volume, 50);
    assert!(!other.muted);
}

#[test]
fn detection_fallbacks_and_skipped_blocks() {
    let listing = "Sink #7\n\tState: RUNNING\nSink #  \n\tName: ghost\n   \nSink #9\n\tName: only-name\n";
    let devices = parse_sink_listing(listing, "");
    assert_eq!(
        devices,
        vec![device("7", "sink-7", "sink-7", false), device("9", "only-name", "only-name", false)]
    );
    assert_eq!(parse_sink_listing("", "x"), vec![]);
}

#[test]
fn detection_errors() {
    assert_eq!(
        detect_audio_devices(&CommandReport::SpawnFailed("no pactl".to_string()), &exited("a")),
        Err(ConfigError::CommandFailed("no pactl".to_string()))
    );
    assert_eq!(
        detect_audio_devices(&failed("connection refused"), &exited("a")),
        Err(ConfigError::CommandFailed("connection refused".to_string()))
    );
    assert_eq!(
        detect_audio_devices(&exited(TWO_SINKS), &CommandReport::SpawnFailed("gone".to_string())),
        Err(ConfigError::CommandFailed("gone".to_string()))
    );
    // A failed default query leaves every device non-default.
    let devices = detect_audio_devices(&exited(TWO_SINKS), &failed("")).unwrap();
    assert!(devices.iter().all(|d| !d.is_default));
}

#[test]
fn current_config_errors() {
    assert_eq!(
        get_current_speaker_config(&failed(""), &exited(TWO_SINKS)),
        Err(ConfigError::InvalidState("No default sink configured".to_string()))
    );
    assert_eq!(
        get_current_speaker_config(&CommandReport::SpawnFailed("e".to_string()), &exited(TWO_SINKS)),
        Err(ConfigError::CommandFailed("e".to_string()))
    );
    assert_eq!(
        get_current_speaker_config(&exited("missing"), &exited(TWO_SINKS)),
        Err(ConfigError::DeviceNotFound("missing".to_string()))
    );
    assert_eq!(
        get_current_speaker_config(&exited("alsa_output.a"), &CommandReport::SpawnFailed("x".to_string())),
        Err(ConfigError::CommandFailed("x".to_string()))
    );
}

#[test]
fn volume_is_clamped_and_defaulted() {
    let read = |volume_line: &str| {
        let listing = format!("Sink #0\n\tName: s\n{}\n", volume_line);
        get_current_speaker_config(&exited("s"), &exited(&listing)).unwrap().volume
    };
    assert_eq!(read("\tVolume: front-left: 98304 / 150% / 10.57 dB"), 100);
    assert_eq!(read("\tVolume: -5%"), 0);
    assert_eq!(read("\tVolume: loud"), 100);
    assert_eq!(read("\tVolume: 99999999999%"), 100);
    assert_eq!(read("\tVolume: +42% / 42%"), 42);
    assert_eq!(read("\tBase Volume: 7%"), 100);
    assert_eq!(read("\tVolume: 0%"), 0);
    for v in [read("\tVolume: 65%"), read("\tVolume: -2147483649%")] {
        assert!((0..=100).contains(&v));
    }
}

#[test]
fn resolver_prefers_name_over_id() {
    let devices = vec![device("a", "x", "X", false), device("1", "a", "A", false)];
    assert_eq!(resolve_device(&devices, "a"), Ok(1));
    assert_eq!(resolve_device(&devices, "x"), Ok(0));
    assert_eq!(resolve_device(&devices, "1"), Ok(1));
    assert_eq!(
        resolve_device(&devices, "nope"),
        Err(ConfigError::DeviceNotFound("nope".to_string()))
    );
}

fn config(name: &str) -> SpeakerConfig {
    SpeakerConfig { device_id: name.to_string(), volume: 50, muted: false }
}

fn two_devices() -> Vec<AudioDevice> {
    parse_sink_listing(TWO_SINKS, "alsa_output.a")
}

/// Drives one session against a simulated audio system whose default sink
/// is `*current`; gives the outcome and the names set on the way.
fn run_session(identifier: &str, current: &mut String, accept_set: bool) -> (Result<(), ConfigError>, Vec<String>) {
    let (mut session, mut action) = ConfigureSession::start(identifier);
    let mut set = Vec::new();
    loop {
        action = match action {
            ConfigureAction::ReadCurrent => session.step(ConfigureEvent::Current(Ok(config(current)))),
            ConfigureAction::DetectDevices => session.step(ConfigureEvent::Devices(Ok(two_devices()))),
            ConfigureAction::SetDefault(name) => {
                set.push(name.clone());
                if accept_set {
                    *current = name;
                    session.step(ConfigureEvent::SetDefaultDone(exited("")))
                } else {
                    session.step(ConfigureEvent::SetDefaultDone(failed("refused")))
                }
            }
            ConfigureAction::RollbackAndFail(name, e) => {
                set.push(name.clone());
                *current = name;
                return (Err(e), set);
            }
            ConfigureAction::Finish(r) => return (r, set),
        };
    }
}

#[test]
fn configure_round_trip() {
    let mut current = "alsa_output.a".to_string();
    for d in two_devices() {
        let (r, set) = run_session(&d.name, &mut current, true);
        assert_eq!(r, Ok(()));
        assert_eq!(set, vec![d.name.clone()]);
        assert_eq!(current, d.name);
    }
    // Selecting by id sets the device's name, never its id.
    let (r, set) = run_session("1", &mut current, true);
    assert_eq!(r, Ok(()));
    assert_eq!(set, vec!["alsa_output.b".to_string()]);
}

#[test]
fn configure_fails_gracefully() {
    for bad in ["", "a\0b", "../../etc/passwd"] {
        let (session, action) = ConfigureSession::start(bad);
        assert_eq!(session.phase, ConfigurePhase::Done);
        assert!(matches!(action, ConfigureAction::Finish(Err(ConfigError::InvalidState(_)))));
    }
    assert_eq!(
        ConfigureSession::start("").1,
        ConfigureAction::Finish(Err(ConfigError::InvalidState("Device ID cannot be empty".to_string())))
    );
    assert_eq!(
        ConfigureSession::start("a..b").1,
        ConfigureAction::Finish(Err(ConfigError::InvalidState("Invalid device ID format: a..b".to_string())))
    );
    // The permissive check lets spaces through to the resolver.
    assert_eq!(ConfigureSession::start("with space").1, ConfigureAction::ReadCurrent);
    let mut current = "alsa_output.a".to_string();
    let (r, set) = run_session("nonexistent-id-xyz", &mut current, true);
    assert_eq!(r, Err(ConfigError::DeviceNotFound("nonexistent-id-xyz".to_string())));
    assert!(set.is_empty());
    assert_eq!(current, "alsa_output.a");
}

#[test]
fn configure_rolls_back_on_failure() {
    let mut current = "alsa_output.a".to_string();
    let (r, set) = run_session("alsa_output.b", &mut current, false);
    assert_eq!(r, Err(ConfigError::CommandFailed("refused".to_string())));
    assert_eq!(set, vec!["alsa_output.b".to_string(), "alsa_output.a".to_string()]);
    assert_eq!(current, "alsa_output.a");

    // A spawn failure of the set command also rolls back.
    let (mut session, _) = ConfigureSession::start("alsa_output.b");
    session.step(ConfigureEvent::Current(Ok(config("alsa_output.a"))));
    session.step(ConfigureEvent::Devices(Ok(two_devices())));
    let action = session.step(ConfigureEvent::SetDefaultDone(CommandReport::SpawnFailed("no pactl".to_string())));
    assert_eq!(
        action,
        ConfigureAction::RollbackAndFail(
            "alsa_output.a".to_string(),
            ConfigError::CommandFailed("no pactl".to_string())
        )
    );

    // A read-back that disagrees rolls back with InvalidState.
    let (mut session, _) = ConfigureSession::start("alsa_output.b");
    session.step(ConfigureEvent::Current(Ok(config("alsa_output.a"))));
    session.step(ConfigureEvent::Devices(Ok(two_devices())));
    assert_eq!(session.step(ConfigureEvent::SetDefaultDone(exited(""))), ConfigureAction::ReadCurrent);
    let action = session.step(ConfigureEvent::Current(Ok(config("alsa_output.a"))));
    assert_eq!(
        action,
        ConfigureAction::RollbackAndFail(
            "alsa_output.a".to_string(),
            ConfigError::InvalidState("Configuration not applied correctly".to_string())
        )
    );
}

#[test]
fn configure_passes_read_errors_through() {
    let (mut session, _) = ConfigureSession::start("alsa_output.b");
    let action = session.step(ConfigureEvent::Current(Err(ConfigError::PermissionDenied)));
    assert_eq!(action, ConfigureAction::Finish(Err(ConfigError::PermissionDenied)));
    let (mut session, _) = ConfigureSession::start("alsa_output.b");
    session.step(ConfigureEvent::Current(Ok(config("alsa_output.a"))));
    let action = session.step(ConfigureEvent::Devices(Err(ConfigError::CommandFailed("x".to_string()))));
    assert_eq!(action, ConfigureAction::Finish(Err(ConfigError::CommandFailed("x".to_string()))));
}

/// An audio system held in memory: it answers the mixer's three commands
/// as the real one would, and the library does the rest.
struct Mixer {
    sinks: Vec<(u32, String, String, bool, i32)>,
    default: String,
}

impl Mixer {
    fn new() -> Mixer {
        Mixer {
            sinks: vec![
                (0, "alsa_output.a".to_string(), "Speakers".to_string(), false, 50),
                (1, "alsa_output.b".to_string(), "Headphones".to_string(), true, 80),
                (5, "bluez_output.c".to_string(), "Earbuds".to_string(), false, 120),
            ],
            default: "alsa_output.a".to_string(),
        }
    }

    fn list_sinks(&self) -> CommandReport {
        let mut text = String::new();
        for (id, name, description, muted, volume) in &self.sinks {
            text.push_str(&format!(
                "Sink #{}\n\tState: RUNNING\n\tName: {}\n\tDescription: {}\n\tMute: {}\n\tVolume: front-left: 65536 / {}% / 0.00 dB\n\n",
                id, name, description, if *muted { "yes" } else { "no" }, volume
            ));
        }
        exited(&text)
    }

    fn get_default_sink(&self) -> CommandReport {
        exited(&format!("{}\n", self.default))
    }

    fn set_default_sink(&mut self, name: &str) -> CommandReport {
        if self.sinks.iter().any(|s| s.1 == name) {
            self.default = name.to_string();
            exited("")
        } else {
            failed("Failure: No such entity")
        }
    }

    fn detect_audio_devices(&self) -> Result<Vec<AudioDevice>, ConfigError> {
        detect_audio_devices(&self.list_sinks(), &self.get_default_sink())
    }

    fn get_current_speaker_config(&self) -> Result<SpeakerConfig, ConfigError> {
        get_current_speaker_config(&self.get_default_sink(), &self.list_sinks())
    }

    fn configure_speaker(&mut self, device_id: &str) -> Result<(), ConfigError> {
        let (mut session, mut action) = ConfigureSession::start(device_id);
        loop {
            let event = match action {
                ConfigureAction::ReadCurrent => ConfigureEvent::Current(self.get_current_speaker_config()),
                ConfigureAction::DetectDevices => ConfigureEvent::Devices(self.detect_audio_devices()),
                ConfigureAction::SetDefault(name) => ConfigureEvent::SetDefaultDone(self.set_default_sink(&name)),
                ConfigureAction::RollbackAndFail(name, e) => {
                    let _ = self.set_default_sink(&name);
                    return Err(e);
                }
                ConfigureAction::Finish(r) => return r,
            };
            assert!(session.accepts(&event));
            action = session.step(event);
        }
    }
}

#[test]
fn prop_device_detection_idempotent() {
    let mixer = Mixer::new();
    let devices1 = mixer.detect_audio_devices().expect("First detection should succeed");
    let devices2 = mixer.detect_audio_devices().expect("Second detection should succeed");
    assert_eq!(
        devices1, devices2,
        "Device detection should be idempotent - same results each time"
    );
    assert_eq!(devices1.len(), 3);
}

#[test]
fn prop_speaker_config_reversible() {
    let mut mixer = Mixer::new();
    let original_config = mixer
        .get_current_speaker_config()
        .expect("Should be able to get initial config");
    let devices = mixer.detect_audio_devices().expect("Should detect devices");
    assert!(devices.len() >= 2);

    let device_a = &devices[0];
    mixer.configure_speaker(&device_a.name).expect("Should configure first device");
    let config_a = mixer.get_current_speaker_config().expect("Should get config after first change");
    assert_eq!(config_a.device_id, device_a.name);

    let device_b = &devices[1];
    mixer.configure_speaker(&device_b.name).expect("Should configure second device");
    let config_b = mixer.get_current_speaker_config().expect("Should get config after second change");
    assert_eq!(config_b.device_id, device_b.name);

    mixer
        .configure_speaker(&original_config.device_id)
        .expect("Should restore original config");
    let restored_config = mixer.get_current_speaker_config().expect("Should get final config");
    assert_eq!(
        restored_config.device_id, original_config.device_id,
        "Configuration should be fully reversible"
    );

    // A, then B, then A again ends on A.
    mixer.configure_speaker("bluez_output.c").unwrap();
    mixer.configure_speaker("alsa_output.b").unwrap();
    mixer.configure_speaker("bluez_output.c").unwrap();
    assert_eq!(mixer.get_current_speaker_config().unwrap().device_id, "bluez_output.c");
}

#[test]
fn prop_invalid_device_fails_gracefully() {
    let mut mixer = Mixer::new();
    let original_config = mixer.get_current_speaker_config().expect("Should have valid initial state");
    let invalid_ids = vec![
        "definitely-not-a-real-device-id-12345",
        "",
        "../../etc/passwd",
        "device\0null",
        "device with spaces and special chars !@#$%",
        "nonexistent-id-xyz",
        "a\0b",
    ];
    for invalid_id in invalid_ids {
        let result = mixer.configure_speaker(invalid_id);
        assert!(result.is_err(), "Invalid device ID '{}' should return error, not succeed", invalid_id);
        match result {
            Err(ConfigError::DeviceNotFound(_)) | Err(ConfigError::InvalidState(_)) => {}
            _ => panic!("Expected DeviceNotFound or InvalidState error for invalid ID"),
        }
        let current_config = mixer
            .get_current_speaker_config()
            .expect("System should remain in valid state after error");
        assert_eq!(
            current_config.device_id, original_config.device_id,
            "Failed config attempt should not change system state"
        );
    }
}

#[test]
fn prop_config_persists() {
    let mut mixer = Mixer::new();
    let devices = mixer.detect_audio_devices().expect("Should detect devices");
    let test_device = &devices[2];
    mixer.configure_speaker(&test_device.name).expect("Should configure device");
    for i in 0..5 {
        let current_config = mixer
            .get_current_speaker_config()
            .unwrap_or_else(|_| panic!("Query {} should succeed", i + 1));
        assert_eq!(current_config.device_id, test_device.name);
    }
}

#[test]
fn prop_detected_devices_complete() {
    let mixer = Mixer::new();
    let devices = mixer.detect_audio_devices().expect("Should detect devices");
    for device in devices {
        assert!(!device.id.is_empty(), "Device ID must not be empty");
        assert!(!device.name.is_empty(), "Device name must not be empty");
        if device.is_default {
            let config = mixer.get_current_speaker_config().expect("Should get config for default device");
            assert_eq!(config.device_id, device.name);
        }
    }
}

#[test]
fn prop_volume_in_valid_range() {
    let mut mixer = Mixer::new();
    for name in ["alsa_output.a", "alsa_output.b", "bluez_output.c"] {
        mixer.configure_speaker(name).unwrap();
        let config = mixer.get_current_speaker_config().expect("Should get current config");
        assert!(config.volume >= 0 && config.volume <= 100, "Volume {} should be in range 0-100", config.volume);
    }
    assert_eq!(mixer.get_current_speaker_config().unwrap().volume, 100);
}

#[test]
fn configure_by_id_sets_the_name() {
    let mut mixer = Mixer::new();
    mixer.configure_speaker("5").unwrap();
    assert_eq!(mixer.default, "bluez_output.c");
}

#[test]
fn error_messages() {
    assert_eq!(ConfigError::DeviceNotFound("x".to_string()).message(), "Device not found: x");
    assert_eq!(ConfigError::CommandFailed("boom".to_string()).message(), "Command failed: boom");
    assert_eq!(ConfigError::InvalidState("odd".to_string()).message(), "Invalid state: odd");
    assert_eq!(ConfigError::PermissionDenied.message(), "Permission denied");
}

#[test]
fn configure_rolls_back_when_read_back_fails() {
    let (mut session, _) = ConfigureSession::start("alsa_output.b");
    session.step(ConfigureEvent::Current(Ok(config("alsa_output.a"))));
    session.step(ConfigureEvent::Devices(Ok(two_devices())));
    session.step(ConfigureEvent::SetDefaultDone(exited("")));
    let action = session.step(ConfigureEvent::Current(Err(ConfigError::InvalidState(
        "No default sink configured".to_string(),
    ))));
    assert_eq!(
        action,
        ConfigureAction::RollbackAndFail(
            "alsa_output.a".to_string(),
            ConfigError::InvalidState("No default sink configured".to_string())
        )
    );
    assert_eq!(session.phase, ConfigurePhase::Done);
}
