//! The lifecycle driver's decision side: the fixed allow-list of verbs the
//! external process-control facility may be asked to run, and the shape of
//! one such invocation. Actually spawning the process is the caller's
//! affair; nothing here performs I/O.
use vstd::prelude::*;
use vstd::string::*;

use crate::text::str_eq;

verus! {

/// Mathematical model of a [`SystemctlCall`].
#[verifier::ext_equal]
pub struct SystemctlCallModel {
    pub verb: Seq<char>,
    pub unit: Option<Seq<char>>,
}

/// One invocation of the external process-control command: a verb and, for
/// all verbs but a bare reload of the manager, the fully-qualified unit name
/// it applies to.
pub struct SystemctlCall {
    pub verb: String,
    pub unit: Option<String>,
}

impl View for SystemctlCall {
    type V = SystemctlCallModel;

    open spec fn view(&self) -> SystemctlCallModel {
        SystemctlCallModel {
            verb: self.verb@,
            unit: match self.unit {
                Some(u) => Some(u@),
                None => None,
            },
        }
    }
}

/// The fixed allow-list of verbs.
pub open spec fn is_allowed_verb_spec(v: Seq<char>) -> bool {
    ||| v == "start"@
    ||| v == "stop"@
    ||| v == "restart"@
    ||| v == "reload"@
    ||| v == "enable"@
    ||| v == "disable"@
    ||| v == "status"@
    ||| v == "daemon-reload"@
}

/// Whether a verb stands in the fixed allow-list.
pub fn is_allowed_verb(verb: &str) -> (r: bool)
    ensures
        r == is_allowed_verb_spec(verb@),
{
    str_eq(verb, "start") || str_eq(verb, "stop") || str_eq(verb, "restart") || str_eq(
        verb,
        "reload",
    ) || str_eq(verb, "enable") || str_eq(verb, "disable") || str_eq(verb, "status") || str_eq(
        verb,
        "daemon-reload",
    )
}

/// The fully-qualified unit name `<name>.<unit>`.
pub fn unit_name(name: &str, unit: &str) -> (r: String)
    ensures
        r@ == name@ + "."@ + unit@,
{
    let mut out = String::from_str(name);
    out.append(".");
    out.append(unit);
    out
}

/// Decides a free-form lifecycle request: an allow-listed verb becomes the
/// one call to issue against `<name>.<unit>`; any other verb is rejected,
/// and no call is to be made.
pub fn plan_operation(name: &str, verb: &str, unit: &str) -> (r: Option<SystemctlCall>)
    ensures
        r is Some <==> is_allowed_verb_spec(verb@),
        r is Some ==> r->0@.verb == verb@,
        r is Some ==> r->0@.unit == Some(name@ + "."@ + unit@),
{
    if is_allowed_verb(verb) {
        let target = unit_name(name, unit);
        Some(SystemctlCall { verb: String::from_str(verb), unit: Some(target) })
    } else {
        None
    }
}

} // verus!
