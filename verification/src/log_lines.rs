//! The lines that the logger writes for its cached entries, as text or as
//! JSON objects, and what it appends to the log file.

use crate::key_order::{keys_sorted, lemma_sorted_distinct, lookup, sorted_fields};
use crate::log_context::pairs_map;
use crate::log_format::{format_text_line, member_views, text_line};
use crate::log_level::{level_name, DMSCLogLevel};
use crate::text::{decimal, push_decimal};
use vstd::prelude::*;

verus! {

/// The JSON string literal that serde_json writes for the text `s`.
pub uninterp spec fn json_string_text(s: Seq<char>) -> Seq<char>;

/// The JSON text that serde_json writes for an object whose members, each
/// with a string value, are inserted in this order into its map.
pub uninterp spec fn json_object_text(members: Seq<(Seq<char>, Seq<char>)>) -> Seq<char>;

/// Writes `s` as a JSON string value with `serde_json`, quoted and escaped.
/// Trusted: the text is named `json_string_text` of `s`.
#[verifier::external_body]
fn json_string_of(s: &str) -> (t: String)
    ensures
        t@ == json_string_text(s@),
{
    serde_json::Value::String(s.to_owned()).to_string()
}

/// Writes, with `serde_json::to_string`, the JSON object whose members are
/// `members` with string values, inserted in order into a `serde_json`
/// map. Trusted: the text is named `json_object_text` of the members.
#[verifier::external_body]
fn json_object_of(members: &Vec<(String, String)>) -> (s: String)
    ensures
        s@ == json_object_text(member_views(members@)),
{
    let map: serde_json::Map<String, serde_json::Value> =
        members.iter().map(|(k, v)| (k.clone(), serde_json::Value::String(v.clone()))).collect();
    serde_json::to_string(&map).unwrap_or_default()
}

/// Writes a JSON object whose members are `fields`, in order.
pub fn format_json_line(fields: &Vec<(String, String)>) -> (line: String)
    ensures
        line@ == json_object_text(member_views(fields@)),
{
    json_object_of(fields)
}

/// A cached log entry: its level, target, message and timestamp, and its
/// fields, a later pair overriding an earlier one with the same key.
pub struct RiLogEntry {
    pub level: DMSCLogLevel,
    pub target: String,
    pub message: String,
    pub timestamp: String,
    pub fields: Vec<(String, String)>,
}

/// The members with each value written as a JSON string.
pub open spec fn quoted(ms: Seq<(Seq<char>, Seq<char>)>) -> Seq<(Seq<char>, Seq<char>)> {
    ms.map_values(|p: (Seq<char>, Seq<char>)| (p.0, json_string_text(p.1)))
}

/// The value of `k` in `m` written as a JSON string, if `k` is bound.
pub open spec fn quoted_value(m: Map<Seq<char>, Seq<char>>, k: Seq<char>) -> Option<Seq<char>> {
    if m.contains_key(k) {
        Some(json_string_text(m[k]))
    } else {
        None
    }
}

/// The text line of an entry whose fields form the map `m`, given the
/// fields once per key in increasing key order, `ms`: the event is the
/// "event" field, or the target; the trace and span identifiers and the
/// context values are written as JSON strings.
pub open spec fn entry_text_line(e: RiLogEntry, m: Map<Seq<char>, Seq<char>>, ms: Seq<(Seq<char>, Seq<char>)>) -> Seq<char> {
    text_line(
        e.timestamp@,
        e.level,
        e.target@,
        if m.contains_key("event"@) { m["event"@] } else { e.target@ },
        quoted_value(m, "trace_id"@),
        quoted_value(m, "span_id"@),
        e.message@,
        quoted(ms),
    )
}

/// Binds `k` to `v` unless `k` is bound already.
pub open spec fn with_default(m: Map<Seq<char>, Seq<char>>, k: Seq<char>, v: Seq<char>) -> Map<Seq<char>, Seq<char>> {
    if m.contains_key(k) {
        m
    } else {
        m.insert(k, v)
    }
}

/// The members of an entry's JSON object: its fields, with the level,
/// target, message and timestamp added where the fields lack them.
pub open spec fn json_members(e: RiLogEntry) -> Map<Seq<char>, Seq<char>> {
    with_default(
        with_default(
            with_default(with_default(pairs_map(e.fields@), "level"@, level_name(e.level)), "target"@, e.target@),
            "message"@,
            e.message@,
        ),
        "timestamp"@,
        e.timestamp@,
    )
}

/// Whether `line` is the line written for entry `e`: in JSON, the object
/// of its members in increasing key order; in text, its text line with the
/// context fields in increasing key order.
pub open spec fn is_entry_line(e: RiLogEntry, json: bool, line: Seq<char>) -> bool {
    if json {
        exists|ms: Seq<(String, String)>|
            keys_sorted(ms) && pairs_map(ms) == json_members(e) && line == json_object_text(#[trigger] member_views(ms))
    } else {
        exists|ms: Seq<(String, String)>|
            keys_sorted(ms) && pairs_map(ms) == pairs_map(e.fields@) && line == entry_text_line(
                e,
                pairs_map(e.fields@),
                #[trigger] member_views(ms),
            )
    }
}

/// The text line of an entry.
pub fn text_log_line(e: &RiLogEntry) -> (line: String)
    ensures
        is_entry_line(*e, false, line@),
{
    let ms = sorted_fields(&e.fields);
    proof {
        lemma_sorted_distinct(ms@);
    }
    let mut ctx: Vec<(String, String)> = Vec::new();
    let n = ms.len();
    let mut i: usize = 0;
    while i < n
        invariant
            n == ms@.len(),
            i <= n,
            ctx@.len() == i,
            forall|j: int| 0 <= j < i ==> #[trigger] member_views(ctx@)[j] == quoted(member_views(ms@))[j],
        decreases n - i,
    {
        let q = json_string_of(ms[i].1.as_str());
        let ghost before = ctx@;
        ctx.push((ms[i].0.clone(), q));
        proof {
            assert forall|j: int| 0 <= j < i + 1 implies #[trigger] member_views(ctx@)[j] == quoted(member_views(ms@))[j] by {
                if j < i {
                    assert(ctx@[j] == before[j]);
                    assert(member_views(before)[j] == quoted(member_views(ms@))[j]);
                }
            }
        }
        i = i + 1;
    }
    proof {
        assert(member_views(ctx@) =~= quoted(member_views(ms@)));
    }
    let event = match lookup(&ms, "event") {
        Some(ev) => ev,
        None => e.target.clone(),
    };
    let trace = match lookup(&ms, "trace_id") {
        Some(t) => Some(json_string_of(t.as_str())),
        None => None,
    };
    let span = match lookup(&ms, "span_id") {
        Some(s) => Some(json_string_of(s.as_str())),
        None => None,
    };
    let line = format_text_line(
        e.timestamp.as_str(),
        e.level,
        e.target.as_str(),
        event.as_str(),
        match &trace {
            Some(t) => Some(t.as_str()),
            None => None,
        },
        match &span {
            Some(s) => Some(s.as_str()),
            None => None,
        },
        e.message.as_str(),
        &ctx,
    );
    proof {
        assert(line@ == entry_text_line(*e, pairs_map(e.fields@), member_views(ms@)));
    }
    line
}

/// The JSON line of an entry.
pub fn json_log_line(e: &RiLogEntry) -> (line: String)
    ensures
        is_entry_line(*e, true, line@),
{
    let mut all = sorted_fields(&e.fields);
    proof {
        lemma_sorted_distinct(all@);
    }
    let has_level = lookup(&all, "level").is_some();
    let has_target = lookup(&all, "target").is_some();
    let has_message = lookup(&all, "message").is_some();
    let has_timestamp = lookup(&all, "timestamp").is_some();
    let ghost m0 = pairs_map(all@);
    proof {
        reveal_strlit("level");
        reveal_strlit("target");
        reveal_strlit("message");
        reveal_strlit("timestamp");
        assert("level"@.len() == 5 && "target"@.len() == 6 && "message"@.len() == 7 && "timestamp"@.len() == 9);
    }
    let ghost a0 = all@;
    if !has_level {
        all.push(("level".to_owned(), e.level.as_str().to_owned()));
        proof {
            assert(all@.drop_last() =~= a0);
        }
    }
    let ghost m1 = pairs_map(all@);
    proof {
        assert(m1 == with_default(m0, "level"@, level_name(e.level)));
    }
    let ghost a1 = all@;
    if !has_target {
        all.push(("target".to_owned(), e.target.clone()));
        proof {
            assert(all@.drop_last() =~= a1);
        }
    }
    let ghost m2 = pairs_map(all@);
    proof {
        assert(m2 == with_default(m1, "target"@, e.target@));
    }
    let ghost a2 = all@;
    if !has_message {
        all.push(("message".to_owned(), e.message.clone()));
        proof {
            assert(all@.drop_last() =~= a2);
        }
    }
    let ghost m3 = pairs_map(all@);
    proof {
        assert(m3 == with_default(m2, "message"@, e.message@));
    }
    let ghost a3 = all@;
    if !has_timestamp {
        all.push(("timestamp".to_owned(), e.timestamp.clone()));
        proof {
            assert(all@.drop_last() =~= a3);
        }
    }
    proof {
        assert(pairs_map(all@) == with_default(m3, "timestamp"@, e.timestamp@));
        assert(pairs_map(all@) == json_members(*e));
    }
    let ms = sorted_fields(&all);
    let line = format_json_line(&ms);
    proof {
        assert(keys_sorted(ms@) && pairs_map(ms@) == json_members(*e) && line@ == json_object_text(member_views(ms@)));
    }
    line
}

/// The line of an entry, as JSON or as text.
pub fn render_line(e: &RiLogEntry, json: bool) -> (line: String)
    ensures
        is_entry_line(*e, json, line@),
{
    if json {
        json_log_line(e)
    } else {
        text_log_line(e)
    }
}

/// The lines of the entries, in order.
pub fn render_lines(entries: &Vec<RiLogEntry>, json: bool) -> (lines: Vec<String>)
    ensures
        lines@.len() == entries@.len(),
        forall|i: int| 0 <= i < entries@.len() ==> is_entry_line(#[trigger] entries@[i], json, lines@[i]@),
{
    let mut lines: Vec<String> = Vec::new();
    let n = entries.len();
    let mut i: usize = 0;
    while i < n
        invariant
            n == entries@.len(),
            i <= n,
            lines@.len() == i,
            forall|j: int| 0 <= j < i ==> is_entry_line(#[trigger] entries@[j], json, lines@[j]@),
        decreases n - i,
    {
        let line = render_line(&entries[i], json);
        lines.push(line);
        i = i + 1;
    }
    lines
}

/// The lines that are not empty, in order.
pub open spec fn nonempty_lines(ls: Seq<Seq<char>>) -> Seq<Seq<char>>
    decreases ls.len(),
{
    if ls.len() == 0 {
        Seq::empty()
    } else if ls.last().len() > 0 {
        nonempty_lines(ls.drop_last()).push(ls.last())
    } else {
        nonempty_lines(ls.drop_last())
    }
}

/// The lines, each followed by a line break.
pub open spec fn lines_text(ls: Seq<Seq<char>>) -> Seq<char>
    decreases ls.len(),
{
    if ls.len() == 0 {
        Seq::empty()
    } else {
        lines_text(ls.drop_last()) + ls.last() + "\n"@
    }
}

/// The texts of a list of strings.
pub open spec fn string_views(ls: Seq<String>) -> Seq<Seq<char>> {
    ls.map_values(|s: String| s@)
}

/// What is appended to the log file for a batch of lines: the lines that
/// are not empty, each followed by a line break; nothing when every line is
/// empty.
pub fn file_content(lines: &Vec<String>) -> (content: Option<String>)
    ensures
        content is None <==> nonempty_lines(string_views(lines@)).len() == 0,
        content matches Some(c) ==> c@ == lines_text(nonempty_lines(string_views(lines@))),
{
    let mut c = String::new();
    let mut count: usize = 0;
    let n = lines.len();
    let mut i: usize = 0;
    while i < n
        invariant
            n == lines@.len(),
            i <= n,
            count <= i,
            count == nonempty_lines(string_views(lines@).take(i as int)).len(),
            c@ == lines_text(nonempty_lines(string_views(lines@).take(i as int))),
        decreases n - i,
    {
        proof {
            assert(string_views(lines@).take(i + 1).drop_last() =~= string_views(lines@).take(i as int));
            assert(string_views(lines@).take(i + 1).last() == lines@[i as int]@);
        }
        if lines[i].unicode_len() > 0 {
            let ghost before = nonempty_lines(string_views(lines@).take(i as int));
            c.append(lines[i].as_str());
            c.append("\n");
            count = count + 1;
            proof {
                let after = nonempty_lines(string_views(lines@).take(i + 1));
                assert(after == before.push(lines@[i as int]@));
                assert(after.drop_last() =~= before);
                assert(c@ =~= lines_text(after));
            }
        }
        i = i + 1;
    }
    proof {
        assert(string_views(lines@).take(n as int) =~= string_views(lines@));
    }
    if count == 0 {
        None
    } else {
        Some(c)
    }
}

/// The name a log file takes when it is rotated: its name, a dot, and the
/// time of the rotation in milliseconds since the epoch.
pub fn rotated_file_name(base: &str, millis: u64) -> (name: String)
    ensures
        name@ == base@ + "."@ + decimal(millis as nat),
{
    let mut name = base.to_owned();
    name.append(".");
    push_decimal(&mut name, millis);
    name
}

} // verus!
