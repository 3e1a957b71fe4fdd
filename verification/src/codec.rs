//! The stored form of one task record: its four fields escaped and joined
//! with `:` into a single line, together with the parser for that line and
//! the proof that parsing undoes encoding.
use vstd::prelude::*;

use crate::record::TaskRecord;
use crate::record::TaskRecordModel;
use crate::text::char_seqs;
use crate::text::escape;
use crate::text::escape_str;
use crate::text::join_sep;
use crate::text::lemma_escape_clean;
use crate::text::lemma_join_clean;
use crate::text::lemma_split_join;
use crate::text::lemma_unescape_escape;
use crate::text::split_on;
use crate::text::split_str;
use crate::text::unescape;
use crate::text::unescape_str;
use crate::text::join_char;

verus! {

/// The four fields of a record, each escaped, in stored order.
pub open spec fn record_fields(m: TaskRecordModel) -> Seq<Seq<char>> {
    seq![escape(m.name), escape(m.command), escape(m.frequency), escape(m.timer_options)]
}

/// The line under which a record is stored.
pub open spec fn spec_encode_record(m: TaskRecordModel) -> Seq<char> {
    join_sep(record_fields(m), seq![':'])
}

/// Reads a stored line back into a record: the line must split at `:` into
/// exactly four fields, each of which must unescape.
pub open spec fn spec_parse_record(line: Seq<char>) -> Option<TaskRecordModel> {
    let parts = split_on(line, ':');
    if parts.len() == 4 && unescape(parts[0]) is Some && unescape(parts[1]) is Some && unescape(
        parts[2],
    ) is Some && unescape(parts[3]) is Some {
        Some(
            TaskRecordModel {
                name: unescape(parts[0])->0,
                command: unescape(parts[1])->0,
                frequency: unescape(parts[2])->0,
                timer_options: unescape(parts[3])->0,
            },
        )
    } else {
        None
    }
}

/// Encodes a record as its stored line.
pub fn encode_record(rec: &TaskRecord) -> (r: String)
    ensures
        r@ == spec_encode_record(rec@),
{
    let mut fields: Vec<String> = Vec::new();
    fields.push(escape_str(rec.name.as_str()));
    fields.push(escape_str(rec.command.as_str()));
    fields.push(escape_str(rec.frequency.as_str()));
    fields.push(escape_str(rec.timer_options.as_str()));
    proof {
        assert(char_seqs(fields@) =~~= record_fields(rec@));
    }
    join_char(&fields, ':')
}

/// Parses a stored line; `None` when the line is malformed.
pub fn parse_record(line: &str) -> (r: Option<TaskRecord>)
    ensures
        match r {
            Some(rec) => spec_parse_record(line@) == Some(rec@),
            None => spec_parse_record(line@) is None,
        },
{
    let parts = split_str(line, ':');
    if parts.len() != 4 {
        return None;
    }
    let name = match unescape_str(parts[0].as_str()) {
        Some(s) => s,
        None => {
            return None;
        },
    };
    let command = match unescape_str(parts[1].as_str()) {
        Some(s) => s,
        None => {
            return None;
        },
    };
    let frequency = match unescape_str(parts[2].as_str()) {
        Some(s) => s,
        None => {
            return None;
        },
    };
    let timer_options = match unescape_str(parts[3].as_str()) {
        Some(s) => s,
        None => {
            return None;
        },
    };
    let rec = TaskRecord::new(name, command, frequency, timer_options);
    proof {
        assert(spec_parse_record(line@)->0 =~= rec@);
    }
    Some(rec)
}

/// Round trip: parsing the stored line of a record yields that record, for
/// every record, empty fields included.
pub proof fn lemma_record_round_trip(m: TaskRecordModel)
    ensures
        spec_parse_record(spec_encode_record(m)) == Some(m),
{
    let fields = record_fields(m);
    lemma_escape_clean(m.name);
    lemma_escape_clean(m.command);
    lemma_escape_clean(m.frequency);
    lemma_escape_clean(m.timer_options);
    assert forall|i: int| 0 <= i < fields.len() implies !(#[trigger] fields[i]).contains(':') by {
        assert(fields[0] == escape(m.name));
        assert(fields[1] == escape(m.command));
        assert(fields[2] == escape(m.frequency));
        assert(fields[3] == escape(m.timer_options));
    }
    lemma_split_join(fields, ':');
    lemma_unescape_escape(m.name);
    lemma_unescape_escape(m.command);
    lemma_unescape_escape(m.frequency);
    lemma_unescape_escape(m.timer_options);
    assert(spec_parse_record(spec_encode_record(m))->0 =~= m);
}

/// A stored line never contains the line separator.
pub proof fn lemma_encode_record_no_newline(m: TaskRecordModel)
    ensures
        !spec_encode_record(m).contains('\n'),
{
    let fields = record_fields(m);
    lemma_escape_clean(m.name);
    lemma_escape_clean(m.command);
    lemma_escape_clean(m.frequency);
    lemma_escape_clean(m.timer_options);
    assert forall|i: int| 0 <= i < fields.len() implies !(#[trigger] fields[i]).contains('\n') by {
        assert(fields[0] == escape(m.name));
        assert(fields[1] == escape(m.command));
        assert(fields[2] == escape(m.frequency));
        assert(fields[3] == escape(m.timer_options));
    }
    assert(!seq![':'].contains('\n')) by {
        assert(seq![':'][0] == ':');
    }
    lemma_join_clean(fields, seq![':'], '\n');
}

/// A stored line is never empty: it holds at least the three separators.
pub proof fn lemma_encode_record_nonempty(m: TaskRecordModel)
    ensures
        spec_encode_record(m).len() >= 3,
{
    let fields = record_fields(m);
    reveal_with_fuel(join_sep, 5);
    assert(fields.drop_first() =~~= seq![
        escape(m.command),
        escape(m.frequency),
        escape(m.timer_options),
    ]);
    assert(fields.drop_first().drop_first() =~~= seq![
        escape(m.frequency),
        escape(m.timer_options),
    ]);
    assert(fields.drop_first().drop_first().drop_first() =~~= seq![escape(m.timer_options)]);
}

} // verus!
