//! Tests of the unit renderer.
use taskgen::render::render_script;
use taskgen::render::render_service;
use taskgen::render::render_timer;

#[test]
fn renderer_is_deterministic() {
    let commands = vec!["/bin/echo hi".to_string(), "/bin/true".to_string()];
    let first = render_service("job", &commands);
    let second = render_service("job", &commands);
    assert_eq!(first, second);
    let t1 = render_timer("job", "daily", "RandomizedDelaySec=30");
    let t2 = render_timer("job", "daily", "RandomizedDelaySec=30");
    assert_eq!(t1, t2);
    assert_eq!(render_script(&commands), render_script(&commands));
}

#[test]
fn timer_with_no_frequency_and_no_options_is_boilerplate_only() {
    let text = render_timer("job", "", "");
    assert_eq!(
        text,
        "[Unit]\nDescription=Timer for job\n\n[Timer]\nPersistent=true\n\n[Install]\nWantedBy=timers.target\n"
    );
    assert!(!text.contains("OnCalendar="));
}

#[test]
fn timer_with_frequency_and_options_emits_lines_in_order() {
    let text = render_timer("job", "daily", "RandomizedDelaySec=30,AccuracySec=1s");
    assert_eq!(
        text,
        "[Unit]\nDescription=Timer for job\n\n[Timer]\nOnCalendar=daily\nRandomizedDelaySec=30\nAccuracySec=1s\nPersistent=true\n\n[Install]\nWantedBy=timers.target\n"
    );
    let on_calendar = text.find("OnCalendar=daily").unwrap();
    let delay = text.find("RandomizedDelaySec=30").unwrap();
    let accuracy = text.find("AccuracySec=1s").unwrap();
    let persistent = text.find("Persistent=true").unwrap();
    let install = text.find("[Install]").unwrap();
    assert!(on_calendar < delay && delay < accuracy && accuracy < persistent);
    assert!(persistent < install);
}

#[test]
fn service_has_one_exec_start_per_command() {
    let commands = vec!["/bin/echo hi".to_string(), "/bin/true".to_string()];
    let text = render_service("backup", &commands);
    assert_eq!(
        text,
        "[Unit]\nDescription=Service for backup\n\n[Service]\nType=oneshot\nExecStart=/bin/echo hi\nExecStart=/bin/true\n"
    );
}

#[test]
fn script_holds_shell_header_and_all_commands() {
    let commands = vec!["/bin/echo hi".to_string(), "/bin/true".to_string()];
    assert_eq!(render_script(&commands), "#!/bin/sh\n/bin/echo hi\n/bin/true\n");
}

#[test]
fn timer_options_are_emitted_verbatim_without_validation() {
    let text = render_timer("job", "", "utter garbage directive");
    assert!(text.contains("utter garbage directive\n"));
    let duplicated = render_timer("job", "", "Persistent=true");
    assert_eq!(duplicated.matches("Persistent=true").count(), 2);
}
