//! The task record: one entry per managed service/timer pair.
use vstd::prelude::*;
use vstd::string::*;

use crate::text::push_char;

verus! {

/// Mathematical model of a [`TaskRecord`]: the four fields as character
/// sequences.
#[verifier::ext_equal]
pub struct TaskRecordModel {
    pub name: Seq<char>,
    pub command: Seq<char>,
    pub frequency: Seq<char>,
    pub timer_options: Seq<char>,
}

/// One managed task: the unit name, the command line(s) the service runs,
/// the calendar expression of its timer, and any extra timer directives.
#[derive(Clone, Debug, PartialEq)]
pub struct TaskRecord {
    /// Unique identifier; also the stem of the service and timer unit names.
    pub name: String,
    /// Command executed by the service; several commands are joined with
    /// `&&`, or replaced by the path of a generated wrapper script.
    pub command: String,
    /// `OnCalendar` expression saying how often the timer fires; empty means
    /// no calendar trigger.
    pub frequency: String,
    /// Comma-separated extra timer directives, appended verbatim to the
    /// timer section.
    pub timer_options: String,
}

impl View for TaskRecord {
    type V = TaskRecordModel;

    open spec fn view(&self) -> TaskRecordModel {
        TaskRecordModel {
            name: self.name@,
            command: self.command@,
            frequency: self.frequency@,
            timer_options: self.timer_options@,
        }
    }
}

impl TaskRecord {
    /// Builds a record from its four fields.
    pub fn new(name: String, command: String, frequency: String, timer_options: String) -> (r:
        TaskRecord)
        ensures
            r@.name == name@,
            r@.command == command@,
            r@.frequency == frequency@,
            r@.timer_options == timer_options@,
    {
        TaskRecord { name, command, frequency, timer_options }
    }

    /// The one-line listing form of this record: the four fields joined by
    /// `:`, verbatim.
    pub fn display_line(&self) -> (r: String)
        ensures
            r@ == self@.name + seq![':'] + self@.command + seq![':'] + self@.frequency + seq![':']
                + self@.timer_options,
    {
        let mut out = String::from_str(self.name.as_str());
        push_char(&mut out, ':');
        out.append(self.command.as_str());
        push_char(&mut out, ':');
        out.append(self.frequency.as_str());
        push_char(&mut out, ':');
        out.append(self.timer_options.as_str());
        out
    }

    /// Returns a copy of this record with the same four fields.
    pub fn duplicate(&self) -> (r: TaskRecord)
        ensures
            r@ == self@,
    {
        TaskRecord {
            name: self.name.clone(),
            command: self.command.clone(),
            frequency: self.frequency.clone(),
            timer_options: self.timer_options.clone(),
        }
    }
}

} // verus!
