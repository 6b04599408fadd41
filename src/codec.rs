//! The two file forms of a record collection: one JSON array, or one JSON
//! object per line; and which form a file name asks for.
use vstd::prelude::*;

use crate::errors::{LoadError, SaveError};
use crate::instruction::{Instruction, TaskState};
use crate::json::{
    array_items, json_array_items, json_object_members, json_quoted, json_string_value,
    key_input, key_instruction, key_output, object_members, pairs_view, quote, strings_view,
    unquote, escape_char, escaped, hex_digit,
};
use crate::text::{lemma_pieces_append, lines_of, pieces, split_lines, str_eq, strip_cr};

verus! {

/// The persisted fields of a record: instruction, input, output.
pub type Fields = (Seq<char>, Seq<char>, Seq<char>);

/// The two file forms.
#[derive(Debug, Clone, Copy, PartialEq, Eq, Structural)]
pub enum FileFormat {
    /// A single JSON array of record objects (`.json`).
    Json,
    /// One JSON record object per line (`.jsonl`).
    Jsonl,
}

/// The compact object text of one record, fields in the order
/// instruction, input, output.
pub open spec fn record_text(f: Fields) -> Seq<char> {
    "{\"instruction\":"@ + json_quoted(f.0) + ",\"input\":"@ + json_quoted(f.1) + ",\"output\":"@
        + json_quoted(f.2) + "}"@
}

/// The object texts of `rs`, one for each record.
pub open spec fn record_texts(rs: Seq<Fields>) -> Seq<Seq<char>> {
    rs.map_values(|f: Fields| record_text(f))
}

/// Line-delimited form: each record's object text followed by a line feed.
pub open spec fn jsonl_text(rs: Seq<Fields>) -> Seq<char>
    decreases rs.len(),
{
    if rs.len() == 0 {
        Seq::empty()
    } else {
        jsonl_text(rs.drop_last()) + record_text(rs.last()) + seq!['\n']
    }
}

/// The object texts of `rs`, separated by commas.
pub open spec fn joined(rs: Seq<Fields>) -> Seq<char>
    decreases rs.len(),
{
    if rs.len() == 0 {
        Seq::empty()
    } else if rs.len() == 1 {
        record_text(rs[0])
    } else {
        joined(rs.drop_last()) + ","@ + record_text(rs.last())
    }
}

/// Array form: the object texts in one compact JSON array.
pub open spec fn json_array_text(rs: Seq<Fields>) -> Seq<char> {
    "["@ + joined(rs) + "]"@
}

/// The text that `format` writes for `rs`.
pub open spec fn text_of(format: FileFormat, rs: Seq<Fields>) -> Seq<char> {
    match format {
        FileFormat::Json => json_array_text(rs),
        FileFormat::Jsonl => jsonl_text(rs),
    }
}

/// The value of the first member named `k`.
pub open spec fn lookup(m: Seq<(Seq<char>, Seq<char>)>, k: Seq<char>) -> Option<Seq<char>>
    decreases m.len(),
{
    if m.len() == 0 {
        None
    } else if m[0].0 == k {
        Some(m[0].1)
    } else {
        lookup(m.drop_first(), k)
    }
}

/// The fields that one object text holds: it must be an object whose
/// `instruction`, `input` and `output` members are strings; other members
/// are ignored.
pub open spec fn decode_record_spec(t: Seq<char>) -> Option<Fields> {
    match json_object_members(t) {
        None => None,
        Some(m) => match (
            lookup(m, key_instruction()),
            lookup(m, key_input()),
            lookup(m, key_output()),
        ) {
            (Some(a), Some(b), Some(c)) => match (
                json_string_value(a),
                json_string_value(b),
                json_string_value(c),
            ) {
                (Some(x), Some(y), Some(z)) => Some((x, y, z)),
                _ => None,
            },
            _ => None,
        },
    }
}

/// The fields of every object text, or nothing if any one fails.
pub open spec fn decode_all_spec(ts: Seq<Seq<char>>) -> Option<Seq<Fields>>
    decreases ts.len(),
{
    if ts.len() == 0 {
        Some(Seq::empty())
    } else {
        match (decode_all_spec(ts.drop_last()), decode_record_spec(ts.last())) {
            (Some(rs), Some(f)) => Some(rs.push(f)),
            _ => None,
        }
    }
}

/// The records that `text` holds in `format`, or nothing if it is malformed.
pub open spec fn decode_spec(format: FileFormat, text: Seq<char>) -> Option<Seq<Fields>> {
    match format {
        FileFormat::Json => match json_array_items(text) {
            None => None,
            Some(items) => decode_all_spec(items),
        },
        FileFormat::Jsonl => decode_all_spec(lines_of(text)),
    }
}

pub open spec fn fields_of(v: Seq<Instruction>) -> Seq<Fields> {
    v.map_values(|r: Instruction| r.fields())
}

pub open spec fn all_idle(v: Seq<Instruction>) -> bool {
    forall|i: int| 0 <= i < v.len() ==> (#[trigger] v[i]).state == TaskState::Idle
}

/// Index of the last `c` in `s`, or -1.
pub open spec fn last_index_of(s: Seq<char>, c: char) -> int
    decreases s.len(),
{
    if s.len() == 0 {
        -1
    } else if s.last() == c {
        s.len() - 1
    } else {
        last_index_of(s.drop_last(), c)
    }
}

/// The extension of a path: what follows the last dot of the file name
/// (the part after the last slash), unless that dot begins the file name.
pub open spec fn extension(path: Seq<char>) -> Option<Seq<char>> {
    let slash = last_index_of(path, '/');
    let dot = last_index_of(path, '.');
    if dot > slash + 1 {
        Some(path.subrange(dot + 1, path.len() as int))
    } else {
        None
    }
}

/// The form a path asks for: `json` or `jsonl` extension; none otherwise.
pub open spec fn format_of(path: Seq<char>) -> Option<FileFormat> {
    match extension(path) {
        Some(e) => if e == "json"@ {
            Some(FileFormat::Json)
        } else if e == "jsonl"@ {
            Some(FileFormat::Jsonl)
        } else {
            None
        },
        None => None,
    }
}

/// The three members of a record's object text, in key order.
pub open spec fn record_members(f: Fields) -> Seq<(Seq<char>, Seq<char>)> {
    seq![
        (key_input(), json_quoted(f.1)),
        (key_instruction(), json_quoted(f.0)),
        (key_output(), json_quoted(f.2)),
    ]
}

proof fn lemma_record_lookups(f: Fields)
    ensures
        lookup(record_members(f), key_instruction()) == Some(json_quoted(f.0)),
        lookup(record_members(f), key_input()) == Some(json_quoted(f.1)),
        lookup(record_members(f), key_output()) == Some(json_quoted(f.2)),
{
    let m = record_members(f);
    assert(key_input()[2] != key_instruction()[2]);
    assert(key_output()[0] != key_instruction()[0]);
    assert(key_output()[0] != key_input()[0]);
    assert(m.drop_first() =~= seq![(key_instruction(), json_quoted(f.0)), (key_output(), json_quoted(f.2))]);
    assert(m.drop_first().drop_first() =~= seq![(key_output(), json_quoted(f.2))]);
    assert(lookup(m.drop_first(), key_instruction()) == Some(json_quoted(f.0)));
    assert(lookup(m.drop_first().drop_first(), key_output()) == Some(json_quoted(f.2)));
    assert(lookup(m.drop_first(), key_output()) == Some(json_quoted(f.2)));
}

proof fn lemma_last_index_range(s: Seq<char>, c: char)
    ensures
        -1 <= last_index_of(s, c) < s.len(),
    decreases s.len(),
{
    if s.len() > 0 {
        lemma_last_index_range(s.drop_last(), c);
    }
}

/// Index of the last `c` in `s`.
fn find_last(s: &str, c: char) -> (r: Option<usize>)
    ensures
        match r {
            Some(i) => i as int == last_index_of(s@, c) && i < s@.len(),
            None => last_index_of(s@, c) == -1,
        },
{
    let n = s.unicode_len();
    let mut i: usize = n;
    assert(s@.subrange(0, n as int) =~= s@);
    while i > 0
        invariant
            n == s@.len(),
            i <= n,
            last_index_of(s@, c) == last_index_of(s@.subrange(0, i as int), c),
        decreases i,
    {
        assert(s@.subrange(0, i as int).drop_last() =~= s@.subrange(0, i - 1));
        if s.get_char(i - 1) == c {
            return Some(i - 1);
        }
        i = i - 1;
    }
    None
}

/// The form that `path` asks for by its extension: `.json` is the array
/// form, `.jsonl` the line-delimited form; any other path asks for none.
pub fn format_of_path(path: &str) -> (r: Option<FileFormat>)
    ensures
        r == format_of(path@),
{
    let n = path.unicode_len();
    proof {
        lemma_last_index_range(path@, '/');
    }
    let dot = match find_last(path, '.') {
        Some(d) => d,
        None => return None,
    };
    let inside_name = match find_last(path, '/') {
        Some(sl) => dot > sl + 1,
        None => dot > 0,
    };
    if !inside_name {
        return None;
    }
    let ext = path.substring_char(dot + 1, n);
    if str_eq(ext, "json") {
        Some(FileFormat::Json)
    } else if str_eq(ext, "jsonl") {
        Some(FileFormat::Jsonl)
    } else {
        None
    }
}

/// Position of the first member named `key`.
fn find_member(m: &Vec<(String, String)>, key: &str) -> (r: Option<usize>)
    ensures
        match r {
            Some(i) => i < m@.len() && lookup(pairs_view(m@), key@) == Some(m@[i as int].1@),
            None => lookup(pairs_view(m@), key@) is None,
        },
{
    let ghost pv = pairs_view(m@);
    let mut i: usize = 0;
    assert(pv.subrange(0, pv.len() as int) =~= pv);
    while i < m.len()
        invariant
            pv == pairs_view(m@),
            i <= m@.len(),
            lookup(pv, key@) == lookup(pv.subrange(i as int, pv.len() as int), key@),
        decreases m@.len() - i,
    {
        let ghost rest = pv.subrange(i as int, pv.len() as int);
        assert(rest[0] == pv[i as int]);
        assert(rest.drop_first() =~= pv.subrange(i + 1, pv.len() as int));
        if str_eq(m[i].0.as_str(), key) {
            return Some(i);
        }
        i = i + 1;
    }
    None
}

/// Reads one record from its object text.
fn decode_record(t: &str) -> (r: Result<Instruction, LoadError>)
    ensures
        match decode_record_spec(t@) {
            Some(f) => r matches Ok(x) && x.fields() == f && x.state == TaskState::Idle,
            None => r == Err::<Instruction, LoadError>(LoadError::Format),
        },
        forall|f: Fields| #[trigger] record_text(f) == t@ ==> (r matches Ok(x) && x.fields() == f),
{
    let members = match object_members(t) {
        Ok(m) => m,
        Err(_) => return Err(LoadError::Format),
    };
    let ghost pv = pairs_view(members@);
    proof {
        reveal_strlit("instruction");
        reveal_strlit("input");
        reveal_strlit("output");
        assert("instruction"@ =~= key_instruction());
        assert("input"@ =~= key_input());
        assert("output"@ =~= key_output());
        assert forall|f: Fields| #[trigger] record_text(f) == t@ implies pv == record_members(f) by {}
        assert forall|f: Fields| #[trigger] record_text(f) == t@ implies (lookup(pv, key_instruction())
            == Some(json_quoted(f.0)) && lookup(pv, key_input()) == Some(json_quoted(f.1))
            && lookup(pv, key_output()) == Some(json_quoted(f.2))) by {
            lemma_record_lookups(f);
        }
    }
    let ia = find_member(&members, "instruction");
    let ib = find_member(&members, "input");
    let ic = find_member(&members, "output");
    let (ia, ib, ic) = match (ia, ib, ic) {
        (Some(a), Some(b), Some(c)) => (a, b, c),
        _ => return Err(LoadError::Format),
    };
    let x = match unquote(members[ia].1.as_str()) {
        Ok(v) => v,
        Err(_) => return Err(LoadError::Format),
    };
    let y = match unquote(members[ib].1.as_str()) {
        Ok(v) => v,
        Err(_) => return Err(LoadError::Format),
    };
    let z = match unquote(members[ic].1.as_str()) {
        Ok(v) => v,
        Err(_) => return Err(LoadError::Format),
    };
    Ok(Instruction::new(x, y, z))
}

proof fn lemma_decode_all_prefix(ts: Seq<Seq<char>>, n: int)
    requires
        0 <= n <= ts.len(),
        decode_all_spec(ts.take(n)) is None,
    ensures
        decode_all_spec(ts) is None,
    decreases ts.len() - n,
{
    if n < ts.len() {
        assert(ts.take(n + 1).drop_last() =~= ts.take(n));
        lemma_decode_all_prefix(ts, n + 1);
    } else {
        assert(ts.take(n) =~= ts);
    }
}

/// Reads every object text, failing on the first that is malformed.
fn decode_all(ts: &Vec<String>) -> (r: Result<Vec<Instruction>, LoadError>)
    ensures
        match decode_all_spec(strings_view(ts@)) {
            Some(rs) => r matches Ok(v) && fields_of(v@) == rs && all_idle(v@),
            None => r == Err::<Vec<Instruction>, LoadError>(LoadError::Format),
        },
        forall|rs: Seq<Fields>|
            #[trigger] record_texts(rs) == strings_view(ts@) ==> (r matches Ok(v)
                && fields_of(v@) == rs),
{
    let ghost sv = strings_view(ts@);
    let mut out: Vec<Instruction> = Vec::new();
    let mut i: usize = 0;
    assert(sv.take(0) =~= Seq::<Seq<char>>::empty());
    assert(fields_of(out@) =~= Seq::<Fields>::empty());
    while i < ts.len()
        invariant
            sv == strings_view(ts@),
            i <= ts@.len(),
            out@.len() == i,
            decode_all_spec(sv.take(i as int)) == Some(fields_of(out@)),
            all_idle(out@),
            forall|k: int|
                #![trigger out@[k]]
                0 <= k < i ==> forall|f: Fields|
                    #[trigger] record_text(f) == ts@[k]@ ==> out@[k].fields() == f,
        decreases ts@.len() - i,
    {
        assert(sv.take(i + 1).drop_last() =~= sv.take(i as int));
        assert(sv.take(i + 1).last() == ts@[i as int]@);
        let ghost prev = out@;
        match decode_record(ts[i].as_str()) {
            Ok(rec) => {
                out.push(rec);
                assert(out@.drop_last() =~= prev);
                assert(fields_of(out@) =~= fields_of(prev).push(rec.fields()));
            },
            Err(e) => {
                proof {
                    lemma_decode_all_prefix(sv, i + 1);
                    assert forall|rs: Seq<Fields>|
                        #[trigger] record_texts(rs) == sv implies false by {
                        assert(sv[i as int] == record_text(rs[i as int]));
                    }
                }
                return Err(e);
            },
        }
        i = i + 1;
    }
    assert(sv.take(i as int) =~= sv);
    proof {
        assert forall|rs: Seq<Fields>|
            #[trigger] record_texts(rs) == sv implies fields_of(out@) == rs by {
            assert forall|k: int| 0 <= k < rs.len() implies fields_of(out@)[k] == rs[k] by {
                assert(sv[k] == record_text(rs[k]));
            }
            assert(fields_of(out@) =~= rs);
        }
    }
    Ok(out)
}

/// No line feed and no carriage return.
pub open spec fn no_break(s: Seq<char>) -> bool {
    forall|i: int| 0 <= i < s.len() ==> s[i] != '\n' && s[i] != '\r'
}

proof fn lemma_no_break_concat(a: Seq<char>, b: Seq<char>)
    requires
        no_break(a),
        no_break(b),
    ensures
        no_break(a + b),
{
    assert forall|i: int| 0 <= i < (a + b).len() implies (a + b)[i] != '\n' && (a + b)[i] != '\r' by {
        if i < a.len() {
            assert((a + b)[i] == a[i]);
        } else {
            assert((a + b)[i] == b[i - a.len()]);
        }
    }
}

proof fn lemma_hex_digit(n: int)
    requires
        0 <= n < 16,
    ensures
        hex_digit(n) != '\n' && hex_digit(n) != '\r',
{
    let d = seq!['0', '1', '2', '3', '4', '5', '6', '7', '8', '9', 'a', 'b', 'c', 'd', 'e', 'f'];
    assert(forall|i: int| 0 <= i < 16 ==> d[i] != '\n' && d[i] != '\r');
}

proof fn lemma_escaped_no_break(s: Seq<char>)
    ensures
        no_break(escaped(s)),
    decreases s.len(),
{
    if s.len() > 0 {
        lemma_escaped_no_break(s.drop_last());
        let c = s.last();
        let v = (c as u32) as int;
        if v < 0x20 {
            lemma_hex_digit(v / 16);
            lemma_hex_digit(v % 16);
        }
        assert(no_break(escape_char(c)));
        lemma_no_break_concat(escaped(s.drop_last()), escape_char(c));
    }
}

proof fn lemma_record_text_no_break(f: Fields)
    ensures
        no_break(record_text(f)),
        record_text(f).len() > 0,
        record_text(f).last() == '}',
{
    reveal_strlit("{\"instruction\":");
    reveal_strlit(",\"input\":");
    reveal_strlit(",\"output\":");
    reveal_strlit("}");
    lemma_escaped_no_break(f.0);
    lemma_escaped_no_break(f.1);
    lemma_escaped_no_break(f.2);
    let q = seq!['"'];
    assert(no_break(q));
    lemma_no_break_concat(q, escaped(f.0));
    lemma_no_break_concat(q + escaped(f.0), q);
    lemma_no_break_concat(q, escaped(f.1));
    lemma_no_break_concat(q + escaped(f.1), q);
    lemma_no_break_concat(q, escaped(f.2));
    lemma_no_break_concat(q + escaped(f.2), q);
    let a = "{\"instruction\":"@;
    let b = ",\"input\":"@;
    let c = ",\"output\":"@;
    let d = "}"@;
    assert(no_break(a));
    assert(no_break(b));
    assert(no_break(c));
    assert(no_break(d));
    lemma_no_break_concat(a, json_quoted(f.0));
    lemma_no_break_concat(a + json_quoted(f.0), b);
    lemma_no_break_concat(a + json_quoted(f.0) + b, json_quoted(f.1));
    lemma_no_break_concat(a + json_quoted(f.0) + b + json_quoted(f.1), c);
    lemma_no_break_concat(a + json_quoted(f.0) + b + json_quoted(f.1) + c, json_quoted(f.2));
    lemma_no_break_concat(a + json_quoted(f.0) + b + json_quoted(f.1) + c + json_quoted(f.2), d);
}

proof fn lemma_jsonl_pieces(rs: Seq<Fields>)
    ensures
        pieces(jsonl_text(rs)) == record_texts(rs).push(Seq::empty()),
    decreases rs.len(),
{
    if rs.len() == 0 {
        assert(record_texts(rs).push(Seq::empty()) =~= seq![Seq::<char>::empty()]);
    } else {
        let prev = rs.drop_last();
        let rt = record_text(rs.last());
        lemma_jsonl_pieces(prev);
        lemma_record_text_no_break(rs.last());
        assert(!rt.contains('\n'));
        let j = jsonl_text(prev);
        lemma_pieces_append(j, rt);
        let p = pieces(j);
        assert(p.last() + rt =~= rt);
        let t = j + rt + seq!['\n'];
        assert(t.drop_last() =~= j + rt);
        assert(t.last() == '\n');
        assert(pieces(t) == pieces(j + rt).push(Seq::empty()));
        assert(record_texts(rs) =~= record_texts(prev).push(rt));
        assert(pieces(j + rt) =~= record_texts(rs));
    }
}

/// The lines of a line-delimited text are its records' object texts, one
/// line per record, in order.
pub proof fn lemma_jsonl_lines(rs: Seq<Fields>)
    ensures
        lines_of(jsonl_text(rs)) == record_texts(rs),
{
    lemma_jsonl_pieces(rs);
    let p = pieces(jsonl_text(rs));
    assert(p.drop_last() =~= record_texts(rs));
    assert forall|k: int| 0 <= k < rs.len() implies strip_cr(#[trigger] record_texts(rs)[k])
        == record_texts(rs)[k] by {
        lemma_record_text_no_break(rs[k]);
    }
    assert(lines_of(jsonl_text(rs)) =~= record_texts(rs));
}

/// Reads a record collection from `text` in `format`. Every record comes
/// back `Idle`; a text that `encode` wrote for some records gives back
/// those records.
pub fn decode(text: &str, format: FileFormat) -> (r: Result<Vec<Instruction>, LoadError>)
    ensures
        match decode_spec(format, text@) {
            Some(rs) => r matches Ok(v) && fields_of(v@) == rs && all_idle(v@),
            None => r == Err::<Vec<Instruction>, LoadError>(LoadError::Format),
        },
        forall|rs: Seq<Fields>|
            #[trigger] text_of(format, rs) == text@ ==> (r matches Ok(v) && fields_of(v@) == rs),
{
    match format {
        FileFormat::Jsonl => {
            let lines = split_lines(text);
            proof {
                assert forall|rs: Seq<Fields>| #[trigger] text_of(format, rs) == text@ implies record_texts(rs)
                    == strings_view(lines@) by {
                    lemma_jsonl_lines(rs);
                }
            }
            decode_all(&lines)
        },
        FileFormat::Json => {
            let items = match array_items(text) {
                Ok(v) => v,
                Err(_) => return Err(LoadError::Format),
            };
            decode_all(&items)
        },
    }
}

/// Writes one record as its compact object text.
fn encode_record(rec: &Instruction) -> (r: Result<String, SaveError>)
    ensures
        r matches Ok(t) && t@ == record_text(rec.fields()),
{
    let qa = match quote(rec.instruction.as_str()) {
        Ok(q) => q,
        Err(_) => return Err(SaveError::Format),
    };
    let qb = match quote(rec.input.as_str()) {
        Ok(q) => q,
        Err(_) => return Err(SaveError::Format),
    };
    let qc = match quote(rec.output.as_str()) {
        Ok(q) => q,
        Err(_) => return Err(SaveError::Format),
    };
    let mut s = String::from_str("{\"instruction\":");
    s.append(qa.as_str());
    s.append(",\"input\":");
    s.append(qb.as_str());
    s.append(",\"output\":");
    s.append(qc.as_str());
    s.append("}");
    Ok(s)
}

/// Writes `records` in `format`; editing states are left out. Encoding a
/// record cannot fail, so the text is always returned.
pub fn encode(records: &Vec<Instruction>, format: FileFormat) -> (r: Result<String, SaveError>)
    ensures
        r matches Ok(t) && t@ == text_of(format, fields_of(records@)),
{
    let ghost rs = fields_of(records@);
    let mut s = String::new();
    if format == FileFormat::Json {
        s.append("[");
    }
    let mut i: usize = 0;
    assert(rs.take(0) =~= Seq::<Fields>::empty());
    assert(s@ =~= if format == FileFormat::Json { "["@ + joined(rs.take(0)) } else { jsonl_text(rs.take(0)) });
    while i < records.len()
        invariant
            rs == fields_of(records@),
            i <= records@.len(),
            s@ == if format == FileFormat::Json {
                "["@ + joined(rs.take(i as int))
            } else {
                jsonl_text(rs.take(i as int))
            },
        decreases records@.len() - i,
    {
        let t = encode_record(&records[i])?;
        let ghost before = s@;
        assert(rs.take(i + 1).drop_last() =~= rs.take(i as int));
        assert(rs.take(i + 1).last() == records@[i as int].fields());
        if format == FileFormat::Json {
            if i > 0 {
                s.append(",");
                s.append(t.as_str());
            } else {
                s.append(t.as_str());
                assert(rs.take(1) =~= seq![records@[0].fields()]);
                assert(s@ =~= "["@ + joined(rs.take(1)));
            }
        } else {
            s.append(t.as_str());
            s.append("\n");
            proof {
                reveal_strlit("\n");
                assert("\n"@ =~= seq!['\n']);
            }
        }
        i = i + 1;
    }
    assert(rs.take(i as int) =~= rs);
    if format == FileFormat::Json {
        s.append("]");
    }
    Ok(s)
}

} // verus!
