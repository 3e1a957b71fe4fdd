//! The record store: the whole persisted database as one text, an ordered
//! list of stored record lines. Loading drops malformed lines and reports
//! how many were dropped, so an empty database and a corrupt one can be told
//! apart; a missing backing file loads as the empty database.
use vstd::prelude::*;

use crate::codec::lemma_encode_record_no_newline;
use crate::codec::lemma_encode_record_nonempty;
use crate::codec::lemma_record_round_trip;
use crate::codec::encode_record;
use crate::codec::parse_record;
use crate::codec::spec_encode_record;
use crate::codec::spec_parse_record;
use crate::record::TaskRecord;
use crate::record::TaskRecordModel;
use crate::text::char_seqs;
use crate::text::join_char;
use crate::text::join_sep;
use crate::text::lemma_split_join;
use crate::text::split_on;
use crate::text::split_str;
use crate::text::str_eq;

verus! {

/// The models of a sequence of records.
pub open spec fn models(s: Seq<TaskRecord>) -> Seq<TaskRecordModel> {
    s.map_values(|r: TaskRecord| r@)
}

/// The stored lines of a sequence of records, in order.
pub open spec fn encode_lines(rs: Seq<TaskRecordModel>) -> Seq<Seq<char>>
    decreases rs.len(),
{
    if rs.len() == 0 {
        Seq::empty()
    } else {
        encode_lines(rs.drop_last()).push(spec_encode_record(rs.last()))
    }
}

/// The records read from a sequence of lines: lines that parse, in order;
/// malformed lines are dropped.
pub open spec fn parse_lines(lines: Seq<Seq<char>>) -> Seq<TaskRecordModel>
    decreases lines.len(),
{
    if lines.len() == 0 {
        Seq::empty()
    } else {
        let rest = parse_lines(lines.drop_last());
        match spec_parse_record(lines.last()) {
            Some(m) => rest.push(m),
            None => rest,
        }
    }
}

/// The whole database as one text: the stored lines joined by the line
/// separator; no records give the empty text.
pub open spec fn spec_encode_store(rs: Seq<TaskRecordModel>) -> Seq<char> {
    if rs.len() == 0 {
        Seq::empty()
    } else {
        join_sep(encode_lines(rs), seq!['\n'])
    }
}

/// The records read from a database text.
pub open spec fn spec_parse_store(text: Seq<char>) -> Seq<TaskRecordModel> {
    if text.len() == 0 {
        Seq::empty()
    } else {
        parse_lines(split_on(text, '\n'))
    }
}

/// How many lines of a database text are malformed and dropped on load.
pub open spec fn spec_dropped_lines(text: Seq<char>) -> int {
    if text.len() == 0 {
        0
    } else {
        split_on(text, '\n').len() - parse_lines(split_on(text, '\n')).len()
    }
}

/// The records left when every record named `name` is removed, in order.
pub open spec fn remove_named(rs: Seq<TaskRecordModel>, name: Seq<char>) -> Seq<TaskRecordModel>
    decreases rs.len(),
{
    if rs.len() == 0 {
        Seq::empty()
    } else {
        let rest = remove_named(rs.drop_last(), name);
        if rs.last().name == name {
            rest
        } else {
            rest.push(rs.last())
        }
    }
}

/// What a load returned: the records of every well-formed line, and how many
/// malformed lines were dropped (`dropped > 0` distinguishes a corrupt
/// database from an empty one).
pub struct LoadResult {
    pub records: Vec<TaskRecord>,
    pub dropped: usize,
}

/// Serializes the full record list to the database text.
pub fn encode_store(records: &Vec<TaskRecord>) -> (r: String)
    ensures
        r@ == spec_encode_store(models(records@)),
{
    if records.len() == 0 {
        return String::new();
    }
    let mut lines: Vec<String> = Vec::new();
    let mut i: usize = 0;
    while i < records.len()
        invariant
            i <= records@.len(),
            char_seqs(lines@) =~~= encode_lines(models(records@).take(i as int)),
        decreases records@.len() - i,
    {
        let line = encode_record(&records[i]);
        proof {
            let ms = models(records@);
            assert(ms.take(i as int + 1).drop_last() =~~= ms.take(i as int));
            assert(ms.take(i as int + 1).last() == records@[i as int]@);
            assert(char_seqs(lines@.push(line)) =~~= char_seqs(lines@).push(line@));
        }
        lines.push(line);
        i = i + 1;
    }
    proof {
        assert(models(records@).take(records@.len() as int) =~~= models(records@));
    }
    join_char(&lines, '\n')
}

/// Reads the database text back: keeps every line that parses as a record,
/// drops the rest, and counts the dropped lines.
pub fn parse_store(text: &str) -> (r: LoadResult)
    ensures
        models(r.records@) == spec_parse_store(text@),
        r.dropped as int == spec_dropped_lines(text@),
{
    if text.is_empty() {
        return LoadResult { records: Vec::new(), dropped: 0 };
    }
    let lines = split_str(text, '\n');
    let mut records: Vec<TaskRecord> = Vec::new();
    let mut i: usize = 0;
    while i < lines.len()
        invariant
            i <= lines@.len(),
            records@.len() <= i,
            models(records@) =~~= parse_lines(char_seqs(lines@).take(i as int)),
        decreases lines@.len() - i,
    {
        proof {
            let ls = char_seqs(lines@);
            assert(ls.take(i as int + 1).drop_last() =~~= ls.take(i as int));
            assert(ls.take(i as int + 1).last() == lines@[i as int]@);
        }
        match parse_record(lines[i].as_str()) {
            Some(rec) => {
                proof {
                    assert(models(records@.push(rec)) =~~= models(records@).push(rec@));
                }
                records.push(rec);
            },
            None => {},
        }
        i = i + 1;
    }
    proof {
        assert(char_seqs(lines@).take(lines@.len() as int) =~~= char_seqs(lines@));
    }
    let dropped = lines.len() - records.len();
    LoadResult { records, dropped }
}

/// Loads the database from the backing file's content; a missing file
/// (`None`) is not an error and gives the empty database.
pub fn load_tasks(content: Option<&str>) -> (r: LoadResult)
    ensures
        match content {
            Some(text) => models(r.records@) == spec_parse_store(text@) && r.dropped as int
                == spec_dropped_lines(text@),
            None => r.records@.len() == 0 && r.dropped == 0,
        },
{
    match content {
        Some(text) => parse_store(text),
        None => LoadResult { records: Vec::new(), dropped: 0 },
    }
}

/// Removes every record whose name equals `name` exactly; all other records
/// stay, in order.
pub fn remove_by_name(records: &Vec<TaskRecord>, name: &str) -> (r: Vec<TaskRecord>)
    ensures
        models(r@) == remove_named(models(records@), name@),
{
    let mut out: Vec<TaskRecord> = Vec::new();
    let mut i: usize = 0;
    while i < records.len()
        invariant
            i <= records@.len(),
            models(out@) =~~= remove_named(models(records@).take(i as int), name@),
        decreases records@.len() - i,
    {
        proof {
            let ms = models(records@);
            assert(ms.take(i as int + 1).drop_last() =~~= ms.take(i as int));
            assert(ms.take(i as int + 1).last() == records@[i as int]@);
        }
        if !str_eq(records[i].name.as_str(), name) {
            let kept = records[i].duplicate();
            proof {
                assert(models(out@.push(kept)) =~~= models(out@).push(kept@));
            }
            out.push(kept);
        }
        i = i + 1;
    }
    proof {
        assert(models(records@).take(records@.len() as int) =~~= models(records@));
    }
    out
}

/// Replaces any stored record of the same name with `rec`: the store never
/// keeps two records under one name, and the freshest record stands last.
pub fn upsert_record(records: &Vec<TaskRecord>, rec: TaskRecord) -> (r: Vec<TaskRecord>)
    ensures
        models(r@) == remove_named(models(records@), rec@.name).push(rec@),
{
    let mut out = remove_by_name(records, rec.name.as_str());
    proof {
        assert(models(out@.push(rec)) =~~= models(out@).push(rec@));
    }
    out.push(rec);
    out
}

/// Load after save: parsing a saved database yields exactly the records that
/// were saved, in order, with no line dropped — for every record list.
pub proof fn lemma_store_round_trip(rs: Seq<TaskRecordModel>)
    ensures
        spec_parse_store(spec_encode_store(rs)) =~~= rs,
        spec_dropped_lines(spec_encode_store(rs)) == 0,
{
    if rs.len() == 0 {
    } else {
        let lines = encode_lines(rs);
        lemma_encode_lines_shape(rs);
        assert forall|i: int| 0 <= i < lines.len() implies !(#[trigger] lines[i]).contains('\n') by {
            lemma_encode_record_no_newline(rs[i]);
        }
        lemma_split_join(lines, '\n');
        let text = spec_encode_store(rs);
        assert(text.len() != 0) by {
            lemma_encode_record_nonempty(rs.last());
            lemma_join_contains_parts(lines, seq!['\n'], lines.len() - 1);
        }
        assert(split_on(text, '\n') == lines);
        lemma_parse_encode_lines(rs);
    }
}

/// Every stored line is the encoding of the record at its index.
proof fn lemma_encode_lines_shape(rs: Seq<TaskRecordModel>)
    ensures
        encode_lines(rs).len() == rs.len(),
        forall|i: int|
            0 <= i < rs.len() ==> #[trigger] encode_lines(rs)[i] == spec_encode_record(rs[i]),
    decreases rs.len(),
{
    if rs.len() == 0 {
    } else {
        lemma_encode_lines_shape(rs.drop_last());
    }
}

/// The joined text is at least as long as any one part.
proof fn lemma_join_contains_parts(parts: Seq<Seq<char>>, sep: Seq<char>, i: int)
    requires
        0 <= i < parts.len(),
    ensures
        join_sep(parts, sep).len() >= parts[i].len(),
    decreases parts.len(),
{
    if parts.len() == 1 {
    } else {
        if i == 0 {
        } else {
            lemma_join_contains_parts(parts.drop_first(), sep, i - 1);
        }
    }
}

/// Parsing the encoded lines of a record list yields that list.
proof fn lemma_parse_encode_lines(rs: Seq<TaskRecordModel>)
    ensures
        parse_lines(encode_lines(rs)) =~~= rs,
    decreases rs.len(),
{
    if rs.len() == 0 {
    } else {
        lemma_parse_encode_lines(rs.drop_last());
        let lines = encode_lines(rs);
        assert(lines.drop_last() =~~= encode_lines(rs.drop_last()));
        lemma_record_round_trip(rs.last());
        assert(rs.drop_last().push(rs.last()) =~~= rs);
    }
}

/// Whether a name identifies at most one record: no two records of the
/// store bear the same name.
pub open spec fn unique_names(rs: Seq<TaskRecordModel>) -> bool {
    forall|i: int, j: int| 0 <= i < j < rs.len() ==> rs[i].name != rs[j].name
}

/// Every surviving record after a removal stood in the store before it.
proof fn lemma_remove_named_subset(rs: Seq<TaskRecordModel>, name: Seq<char>)
    ensures
        forall|i: int|
            0 <= i < remove_named(rs, name).len() ==> exists|j: int|
                0 <= j < rs.len() && rs[j] == #[trigger] remove_named(rs, name)[i],
    decreases rs.len(),
{
    if rs.len() == 0 {
    } else {
        lemma_remove_named_subset(rs.drop_last(), name);
        let out = remove_named(rs, name);
        let rest = remove_named(rs.drop_last(), name);
        assert forall|i: int| 0 <= i < out.len() implies exists|j: int|
            0 <= j < rs.len() && rs[j] == #[trigger] out[i] by {
            if i < rest.len() {
                assert(out[i] == rest[i]);
                let j = choose|j: int|
                    0 <= j < rs.drop_last().len() && rs.drop_last()[j] == rest[i];
                assert(rs[j] == out[i]);
            } else {
                assert(out[i] == rs.last());
                assert(rs[rs.len() - 1] == out[i]);
            }
        }
    }
}

/// Removal keeps names unique.
proof fn lemma_remove_named_unique(rs: Seq<TaskRecordModel>, name: Seq<char>)
    requires
        unique_names(rs),
    ensures
        unique_names(remove_named(rs, name)),
    decreases rs.len(),
{
    if rs.len() == 0 {
    } else {
        assert(unique_names(rs.drop_last())) by {
            assert(forall|i: int|
                0 <= i < rs.drop_last().len() ==> rs.drop_last()[i] == rs[i]);
        }
        lemma_remove_named_unique(rs.drop_last(), name);
        let out = remove_named(rs, name);
        let rest = remove_named(rs.drop_last(), name);
        if rs.last().name == name {
        } else {
            lemma_remove_named_subset(rs.drop_last(), name);
            assert forall|i: int, j: int| 0 <= i < j < out.len() implies out[i].name
                != out[j].name by {
                if j < rest.len() {
                } else {
                    assert(out[j] == rs.last());
                    assert(out[i] == rest[i]);
                    let k = choose|k: int|
                        0 <= k < rs.drop_last().len() && rs.drop_last()[k] == rest[i];
                    assert(rs[k] == out[i]);
                    assert(rs[k].name != rs[rs.len() - 1].name);
                }
            }
        }
    }
}

/// The store invariant is preserved: replacing a record in a store whose
/// names are unique leaves the names unique.
pub proof fn lemma_upsert_preserves_unique_names(rs: Seq<TaskRecordModel>, rec: TaskRecordModel)
    requires
        unique_names(rs),
    ensures
        unique_names(remove_named(rs, rec.name).push(rec)),
{
    lemma_remove_named_unique(rs, rec.name);
    lemma_remove_named_exact(rs, rec.name);
    let cleaned = remove_named(rs, rec.name);
    let out = cleaned.push(rec);
    assert forall|i: int, j: int| 0 <= i < j < out.len() implies out[i].name != out[j].name by {
        if j < cleaned.len() {
        } else {
            assert(out[j] == rec);
            assert(out[i] == cleaned[i]);
            assert(cleaned[i].name != rec.name);
        }
    }
}

/// Removal is exact: no surviving record bears the removed name, and every
/// record under another name survives.
pub proof fn lemma_remove_named_exact(rs: Seq<TaskRecordModel>, name: Seq<char>)
    ensures
        forall|i: int|
            0 <= i < remove_named(rs, name).len() ==> (#[trigger] remove_named(rs, name)[i]).name
                != name,
        forall|i: int|
            0 <= i < rs.len() && (#[trigger] rs[i]).name != name ==> remove_named(
                rs,
                name,
            ).contains(rs[i]),
    decreases rs.len(),
{
    if rs.len() == 0 {
    } else {
        lemma_remove_named_exact(rs.drop_last(), name);
        let rest = remove_named(rs.drop_last(), name);
        assert forall|i: int| 0 <= i < rs.len() && (#[trigger] rs[i]).name != name implies
            remove_named(rs, name).contains(rs[i]) by {
            if i < rs.len() - 1 {
                assert(rs.drop_last()[i] == rs[i]);
                let j = choose|j: int| 0 <= j < rest.len() && rest[j] == rs[i];
                if rs.last().name == name {
                    assert(remove_named(rs, name)[j] == rs[i]);
                } else {
                    assert(remove_named(rs, name)[j] == rs[i]);
                }
            } else {
                assert(rs[i] == rs.last());
                assert(remove_named(rs, name).last() == rs.last());
            }
        }
    }
}

} // verus!
