//! Tests of the lifecycle driver gate and the create/delete planners.
use taskgen::lifecycle::is_allowed_verb;
use taskgen::lifecycle::plan_operation;
use taskgen::lifecycle::unit_name;
use taskgen::orchestrate::classify_operation;
use taskgen::orchestrate::plan_create;
use taskgen::orchestrate::plan_delete;
use taskgen::orchestrate::CreateError;
use taskgen::orchestrate::OperationKind;

#[test]
fn verbs_outside_allow_list_are_rejected_without_invocation() {
    assert!(plan_operation("job", "frobnicate", "timer").is_none());
    assert!(plan_operation("job", "start ", "timer").is_none());
    assert!(plan_operation("job", "", "timer").is_none());
    assert!(plan_operation("job", "Start", "timer").is_none());
    assert!(!is_allowed_verb("mask"));
}

#[test]
fn allowed_verbs_become_one_call() {
    for verb in [
        "start",
        "stop",
        "restart",
        "reload",
        "enable",
        "disable",
        "status",
        "daemon-reload",
    ] {
        assert!(is_allowed_verb(verb));
        let call = plan_operation("job", verb, "service").unwrap();
        assert_eq!(call.verb, verb);
        assert_eq!(call.unit.as_deref(), Some("job.service"));
    }
    let call = plan_operation("job", "restart", "timer").unwrap();
    assert_eq!(call.unit.as_deref(), Some("job.timer"));
}

#[test]
fn unit_name_is_fully_qualified() {
    assert_eq!(unit_name("backup", "timer"), "backup.timer");
    assert_eq!(unit_name("backup", "service"), "backup.service");
}

#[test]
fn create_with_no_commands_fails_before_any_effect() {
    let r = plan_create(
        "/etc/systemd/system",
        "job",
        &Vec::new(),
        "daily",
        "",
        None,
    );
    assert!(matches!(r, Err(CreateError::NoCommands)));
}

#[test]
fn create_plan_without_script() {
    let commands = vec!["/bin/echo hi".to_string(), "/bin/true".to_string()];
    let plan = plan_create(
        "/etc/systemd/system",
        "job",
        &commands,
        "daily",
        "AccuracySec=1s",
        None,
    )
    .unwrap();
    assert!(plan.script.is_none());
    assert_eq!(plan.service.path, "/etc/systemd/system/job.service");
    assert_eq!(
        plan.service.content,
        "[Unit]\nDescription=Service for job\n\n[Service]\nType=oneshot\nExecStart=/bin/echo hi\nExecStart=/bin/true\n"
    );
    assert_eq!(plan.timer.path, "/etc/systemd/system/job.timer");
    assert_eq!(
        plan.timer.content,
        "[Unit]\nDescription=Timer for job\n\n[Timer]\nOnCalendar=daily\nAccuracySec=1s\nPersistent=true\n\n[Install]\nWantedBy=timers.target\n"
    );
    assert_eq!(plan.calls.len(), 3);
    assert_eq!(plan.calls[0].verb, "daemon-reload");
    assert!(plan.calls[0].unit.is_none());
    assert_eq!(plan.calls[1].verb, "enable");
    assert_eq!(plan.calls[1].unit.as_deref(), Some("job.timer"));
    assert_eq!(plan.calls[2].verb, "start");
    assert_eq!(plan.calls[2].unit.as_deref(), Some("job.timer"));
    assert_eq!(plan.record.name, "job");
    assert_eq!(plan.record.command, "/bin/echo hi && /bin/true");
    assert_eq!(plan.record.frequency, "daily");
    assert_eq!(plan.record.timer_options, "AccuracySec=1s");
}

#[test]
fn create_plan_with_script_wraps_commands() {
    let commands = vec!["/bin/echo hi".to_string(), "/bin/true".to_string()];
    let plan = plan_create(
        "/etc/systemd/system",
        "job",
        &commands,
        "",
        "",
        Some("/usr/local/bin/job.sh"),
    )
    .unwrap();
    let script = plan.script.unwrap();
    assert_eq!(script.path, "/usr/local/bin/job.sh");
    assert_eq!(script.content, "#!/bin/sh\n/bin/echo hi\n/bin/true\n");
    assert_eq!(
        plan.service.content,
        "[Unit]\nDescription=Service for job\n\n[Service]\nType=oneshot\nExecStart=/usr/local/bin/job.sh\n"
    );
    assert_eq!(plan.record.command, "/usr/local/bin/job.sh");
}

#[test]
fn delete_plan_names_every_step() {
    let plan = plan_delete("/etc/systemd/system", "job");
    assert_eq!(plan.stop.verb, "stop");
    assert_eq!(plan.stop.unit.as_deref(), Some("job.timer"));
    assert_eq!(plan.disable.verb, "disable");
    assert_eq!(plan.disable.unit.as_deref(), Some("job.timer"));
    assert_eq!(plan.remove_service_path, "/etc/systemd/system/job.service");
    assert_eq!(plan.remove_timer_path, "/etc/systemd/system/job.timer");
    assert_eq!(plan.reload.verb, "daemon-reload");
    assert!(plan.reload.unit.is_none());
    assert_eq!(plan.target, "job");
}

#[test]
fn operation_words_are_classified() {
    assert!(matches!(classify_operation("create"), OperationKind::Create));
    assert!(matches!(classify_operation("delete"), OperationKind::Delete));
    assert!(matches!(
        classify_operation("status"),
        OperationKind::Passthrough
    ));
    assert!(matches!(
        classify_operation("frobnicate"),
        OperationKind::Passthrough
    ));
}
