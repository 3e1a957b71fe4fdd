//! The task orchestrator's decision side. A `create` or `delete` request is
//! turned into a plan: the exact files to write or remove, the exact calls
//! to issue to the process-control facility, and the store update to make,
//! in their fixed order. The caller executes the plan step by step and may
//! stop at the first failing step, so every inspection and rendering here is
//! verified while the I/O stays outside.
use vstd::prelude::*;
use vstd::string::*;

use crate::lifecycle::SystemctlCall;
use crate::record::TaskRecord;
use crate::render::render_script;
use crate::render::render_service;
use crate::render::render_timer;
use crate::render::spec_render_script;
use crate::render::spec_render_service;
use crate::render::spec_render_timer;
use crate::text::char_seqs;
use crate::text::join_sep;
use crate::text::join_str;
use crate::text::str_eq;

verus! {

/// One file the caller is to write: where, and the full text.
pub struct FileWrite {
    pub path: String,
    pub content: String,
}

/// Why a `create` request was rejected before anything was done.
#[derive(Debug, PartialEq)]
pub enum CreateError {
    /// The command list was empty: a service with nothing to run.
    NoCommands,
}

/// The plan for a `create` request. Execution order, stopping at the first
/// failure: write `script` (if any, marked executable), write `service`,
/// write `timer`, issue `calls` in order, then replace any record named as
/// `record` in the store with `record` and persist the store.
pub struct CreatePlan {
    /// The wrapper script, when one was asked for.
    pub script: Option<FileWrite>,
    /// The service unit file.
    pub service: FileWrite,
    /// The timer unit file.
    pub timer: FileWrite,
    /// The process-control calls: reload the manager's view of the unit
    /// files, then enable and start the timer.
    pub calls: Vec<SystemctlCall>,
    /// The record to put into the store once all calls succeeded.
    pub record: TaskRecord,
}

/// The plan for a `delete` request. Execution order: issue `stop`, then
/// `disable`, stopping at the first failure; remove the two unit files,
/// best-effort (a failed removal is reported but does not stop the plan);
/// issue `reload`, stopping on failure; then remove every record named
/// `target` from the store and persist the store.
pub struct DeletePlan {
    /// Stops the timer.
    pub stop: SystemctlCall,
    /// Disables the timer.
    pub disable: SystemctlCall,
    /// The service unit file to remove.
    pub remove_service_path: String,
    /// The timer unit file to remove.
    pub remove_timer_path: String,
    /// Reloads the manager's view of the unit files.
    pub reload: SystemctlCall,
    /// The name whose records leave the store.
    pub target: String,
}

/// Which of the three operation forms a request names.
pub enum OperationKind {
    /// Create a task: render, write, enable, start, record.
    Create,
    /// Delete a task: stop, disable, remove, forget.
    Delete,
    /// Any other word: a candidate free-form lifecycle verb.
    Passthrough,
}

/// Classifies the requested operation word.
pub fn classify_operation(op: &str) -> (r: OperationKind)
    ensures
        r is Create <==> op@ == "create"@,
        r is Delete <==> (op@ != "create"@ && op@ == "delete"@),
        r is Passthrough <==> (op@ != "create"@ && op@ != "delete"@),
{
    if str_eq(op, "create") {
        OperationKind::Create
    } else if str_eq(op, "delete") {
        OperationKind::Delete
    } else {
        OperationKind::Passthrough
    }
}

/// Builds the path `<unit_dir>/<name>.<suffix>`.
fn unit_file_path(unit_dir: &str, name: &str, suffix: &str) -> (r: String)
    ensures
        r@ == unit_dir@ + "/"@ + name@ + suffix@,
{
    let mut out = String::from_str(unit_dir);
    out.append("/");
    out.append(name);
    out.append(suffix);
    out
}

/// Plans a `create` request: rejected if and only if no command was given,
/// and then nothing is to be written, called or recorded. Otherwise the plan
/// holds the two rendered unit files under `unit_dir`, the wrapper script
/// exactly when `script_path` was given (the service then starts the script;
/// otherwise one `ExecStart=` per command), the reload–enable–start call
/// sequence for the timer, and the record to store (its command field: the
/// script path, or the commands joined by ` && `).
pub fn plan_create(
    unit_dir: &str,
    name: &str,
    commands: &Vec<String>,
    frequency: &str,
    timer_options: &str,
    script_path: Option<&str>,
) -> (r: Result<CreatePlan, CreateError>)
    ensures
        r is Err <==> commands@.len() == 0,
        r is Err ==> r->Err_0 == CreateError::NoCommands,
        r is Ok ==> ({
            let p = r->Ok_0;
            &&& match script_path {
                Some(sp) => {
                    &&& p.script is Some
                    &&& p.script->0.path@ == sp@
                    &&& p.script->0.content@ == spec_render_script(char_seqs(commands@))
                    &&& p.service.content@ == spec_render_service(name@, seq![sp@])
                    &&& p.record@.command == sp@
                },
                None => {
                    &&& p.script is None
                    &&& p.service.content@ == spec_render_service(name@, char_seqs(commands@))
                    &&& p.record@.command == join_sep(char_seqs(commands@), " && "@)
                },
            }
            &&& p.service.path@ == unit_dir@ + "/"@ + name@ + ".service"@
            &&& p.timer.path@ == unit_dir@ + "/"@ + name@ + ".timer"@
            &&& p.timer.content@ == spec_render_timer(name@, frequency@, timer_options@)
            &&& p.calls@.len() == 3
            &&& p.calls@[0]@.verb == "daemon-reload"@ && p.calls@[0]@.unit is None
            &&& p.calls@[1]@.verb == "enable"@ && p.calls@[1]@.unit == Some(name@ + ".timer"@)
            &&& p.calls@[2]@.verb == "start"@ && p.calls@[2]@.unit == Some(name@ + ".timer"@)
            &&& p.record@.name == name@
            &&& p.record@.frequency == frequency@
            &&& p.record@.timer_options == timer_options@
        }),
{
    if commands.len() == 0 {
        return Err(CreateError::NoCommands);
    }
    let script: Option<FileWrite>;
    let service_content: String;
    let record_command: String;
    match script_path {
        Some(sp) => {
            let mut exec_starts: Vec<String> = Vec::new();
            exec_starts.push(String::from_str(sp));
            proof {
                assert(char_seqs(exec_starts@) =~~= seq![sp@]);
            }
            service_content = render_service(name, &exec_starts);
            script = Some(FileWrite { path: String::from_str(sp), content: render_script(commands) });
            record_command = String::from_str(sp);
        },
        None => {
            service_content = render_service(name, commands);
            script = None;
            record_command = join_str(commands, " && ");
        },
    }
    let service = FileWrite {
        path: unit_file_path(unit_dir, name, ".service"),
        content: service_content,
    };
    let timer = FileWrite {
        path: unit_file_path(unit_dir, name, ".timer"),
        content: render_timer(name, frequency, timer_options),
    };
    let mut timer_unit = String::from_str(name);
    timer_unit.append(".timer");
    let mut calls: Vec<SystemctlCall> = Vec::new();
    calls.push(SystemctlCall { verb: String::from_str("daemon-reload"), unit: None });
    calls.push(
        SystemctlCall { verb: String::from_str("enable"), unit: Some(timer_unit.clone()) },
    );
    calls.push(SystemctlCall { verb: String::from_str("start"), unit: Some(timer_unit) });
    let record = TaskRecord::new(
        String::from_str(name),
        record_command,
        String::from_str(frequency),
        String::from_str(timer_options),
    );
    Ok(CreatePlan { script, service, timer, calls, record })
}

/// Plans a `delete` request for the task `name`: stop and disable the
/// timer, remove its two unit files under `unit_dir`, reload the manager,
/// and drop the task's record from the store.
pub fn plan_delete(unit_dir: &str, name: &str) -> (p: DeletePlan)
    ensures
        p.stop@.verb == "stop"@ && p.stop@.unit == Some(name@ + ".timer"@),
        p.disable@.verb == "disable"@ && p.disable@.unit == Some(name@ + ".timer"@),
        p.remove_service_path@ == unit_dir@ + "/"@ + name@ + ".service"@,
        p.remove_timer_path@ == unit_dir@ + "/"@ + name@ + ".timer"@,
        p.reload@.verb == "daemon-reload"@ && p.reload@.unit is None,
        p.target@ == name@,
{
    let mut timer_unit = String::from_str(name);
    timer_unit.append(".timer");
    DeletePlan {
        stop: SystemctlCall { verb: String::from_str("stop"), unit: Some(timer_unit.clone()) },
        disable: SystemctlCall {
            verb: String::from_str("disable"),
            unit: Some(timer_unit),
        },
        remove_service_path: unit_file_path(unit_dir, name, ".service"),
        remove_timer_path: unit_file_path(unit_dir, name, ".timer"),
        reload: SystemctlCall { verb: String::from_str("daemon-reload"), unit: None },
        target: String::from_str(name),
    }
}

} // verus!
