//! The text form of a log line.

use crate::log_context::{pairs_map, RiLogContext};
use crate::log_level::{level_name, DMSCLogLevel};
use crate::text::{decimal, eq_ignore_ascii_case, eq_ignoring_ascii_case, push_decimal};
use vstd::prelude::*;

verus! {

/// The keys that the text form shows in fixed places rather than among the
/// context fields.
pub open spec fn is_standard_key(k: Seq<char>) -> bool {
    k == "timestamp"@ || k == "level"@ || k == "target"@ || k == "message"@ || k == "trace_id"@
        || k == "span_id"@
}

/// The key and value texts of a list of pairs.
pub open spec fn member_views(s: Seq<(String, String)>) -> Seq<(Seq<char>, Seq<char>)> {
    s.map_values(|p: (String, String)| (p.0@, p.1@))
}

/// The "key=value" parts of the context fields that are not standard keys,
/// in the order of the fields.
pub open spec fn ctx_parts(ctx: Seq<(Seq<char>, Seq<char>)>) -> Seq<Seq<char>>
    decreases ctx.len(),
{
    if ctx.len() == 0 {
        Seq::empty()
    } else {
        let rest = ctx_parts(ctx.drop_last());
        let (k, v) = ctx.last();
        if is_standard_key(k) {
            rest
        } else {
            rest.push(k + "="@ + v)
        }
    }
}

/// The parts joined with ", " between them.
pub open spec fn join_parts(parts: Seq<Seq<char>>) -> Seq<char>
    decreases parts.len(),
{
    if parts.len() == 0 {
        Seq::empty()
    } else if parts.len() == 1 {
        parts[0]
    } else {
        join_parts(parts.drop_last()) + ", "@ + parts.last()
    }
}

/// The context section: empty when no field is shown, else
/// " ctx={ k1=v1, k2=v2 }".
pub open spec fn ctx_section(ctx: Seq<(Seq<char>, Seq<char>)>) -> Seq<char> {
    let parts = ctx_parts(ctx);
    if parts.len() == 0 {
        Seq::empty()
    } else {
        " ctx={ "@ + join_parts(parts) + " }"@
    }
}

/// The tracing section: " trace_id=T", " span_id=S", both, or nothing.
pub open spec fn trace_section(trace: Option<Seq<char>>, span: Option<Seq<char>>) -> Seq<char> {
    match (trace, span) {
        (Some(t), Some(s)) => " trace_id="@ + t + " span_id="@ + s,
        (Some(t), None) => " trace_id="@ + t,
        (None, Some(s)) => " span_id="@ + s,
        (None, None) => Seq::empty(),
    }
}

/// The text form of a log line:
/// "<timestamp> [<LEVEL>] <target> event=<event><tracing> - <message><context>".
pub open spec fn text_line(
    timestamp: Seq<char>,
    level: DMSCLogLevel,
    target: Seq<char>,
    event: Seq<char>,
    trace: Option<Seq<char>>,
    span: Option<Seq<char>>,
    message: Seq<char>,
    ctx: Seq<(Seq<char>, Seq<char>)>,
) -> Seq<char> {
    timestamp + " ["@ + level_name(level) + "] "@ + target + " event="@ + event + trace_section(trace, span)
        + " - "@ + message + ctx_section(ctx)
}

fn standard_key(k: &String) -> (b: bool)
    ensures
        b == is_standard_key(k@),
{
    *k == "timestamp".to_owned() || *k == "level".to_owned() || *k == "target".to_owned()
        || *k == "message".to_owned() || *k == "trace_id".to_owned() || *k == "span_id".to_owned()
}

/// Writes a log line in text form. `ctx` holds the line's context fields,
/// each value already rendered, in the order they are shown; the standard
/// keys among them are left out of the context section. `trace` and `span`
/// are the rendered trace and span identifiers, where there are some.
pub fn format_text_line(
    timestamp: &str,
    level: DMSCLogLevel,
    target: &str,
    event: &str,
    trace: Option<&str>,
    span: Option<&str>,
    message: &str,
    ctx: &Vec<(String, String)>,
) -> (line: String)
    ensures
        line@ == text_line(
            timestamp@,
            level,
            target@,
            event@,
            match trace {
                Some(t) => Some(t@),
                None => None,
            },
            match span {
                Some(s) => Some(s@),
                None => None,
            },
            message@,
            member_views(ctx@),
        ),
{
    let mut line = timestamp.to_owned();
    line.append(" [");
    line.append(level.as_str());
    line.append("] ");
    line.append(target);
    line.append(" event=");
    line.append(event);
    match (trace, span) {
        (Some(t), Some(s)) => {
            line.append(" trace_id=");
            line.append(t);
            line.append(" span_id=");
            line.append(s);
        },
        (Some(t), None) => {
            line.append(" trace_id=");
            line.append(t);
        },
        (None, Some(s)) => {
            line.append(" span_id=");
            line.append(s);
        },
        (None, None) => {},
    }
    line.append(" - ");
    line.append(message);
    let mut joined = String::new();
    let mut count: usize = 0;
    let n = ctx.len();
    let ghost mv = member_views(ctx@);
    let mut i: usize = 0;
    while i < n
        invariant
            n == ctx@.len(),
            mv == member_views(ctx@),
            i <= n,
            count == ctx_parts(mv.take(i as int)).len(),
            joined@ == join_parts(ctx_parts(mv.take(i as int))),
            count <= i,
        decreases n - i,
    {
        proof {
            assert(mv.take(i + 1).drop_last() =~= mv.take(i as int));
            assert(mv.take(i + 1).last() == (ctx@[i as int].0@, ctx@[i as int].1@));
        }
        let k = &ctx[i].0;
        let v = &ctx[i].1;
        if !standard_key(k) {
            let ghost before = ctx_parts(mv.take(i as int));
            if count > 0 {
                joined.append(", ");
            }
            joined.append(k.as_str());
            joined.append("=");
            joined.append(v.as_str());
            count = count + 1;
            proof {
                let after = ctx_parts(mv.take(i + 1));
                assert(after == before.push(k@ + "="@ + v@));
                assert(after.drop_last() =~= before);
                if before.len() == 0 {
                    assert(joined@ =~= k@ + "="@ + v@);
                } else {
                    assert(joined@ =~= join_parts(before) + ", "@ + (k@ + "="@ + v@));
                }
            }
        }
        i = i + 1;
    }
    proof {
        assert(mv.take(n as int) =~= mv);
    }
    if count > 0 {
        line.append(" ctx={ ");
        line.append(joined.as_str());
        line.append(" }");
    }
    line
}

/// The fields of a log entry before the context: its timestamp, level,
/// target, event (the target) and message.
pub open spec fn standard_fields(
    timestamp: Seq<char>,
    level: DMSCLogLevel,
    target: Seq<char>,
    message: Seq<char>,
) -> Map<Seq<char>, Seq<char>> {
    Map::empty().insert("timestamp"@, timestamp).insert("level"@, level_name(level)).insert("target"@, target).insert(
        "event"@,
        target,
    ).insert("message"@, message)
}

proof fn lemma_pairs_map_concat(a: Seq<(String, String)>, b: Seq<(String, String)>)
    ensures
        pairs_map(a + b) == pairs_map(a).union_prefer_right(pairs_map(b)),
    decreases b.len(),
{
    if b.len() == 0 {
        assert(a + b =~= a);
        assert(pairs_map(a).union_prefer_right(pairs_map(b)) =~= pairs_map(a));
    } else {
        lemma_pairs_map_concat(a, b.drop_last());
        assert((a + b).drop_last() =~= a + b.drop_last());
        assert((a + b).last() == b.last());
        assert(pairs_map(a + b) =~= pairs_map(a).union_prefer_right(pairs_map(b)));
    }
}

/// The fields of a log entry, in the order they are set: the timestamp,
/// level, target, event (the target) and message, then every field of the
/// log context, which overrides a standard field of the same key.
pub fn log_entry_fields(
    timestamp: &str,
    level: DMSCLogLevel,
    target: &str,
    message: &str,
    ctx: &RiLogContext,
) -> (fields: Vec<(String, String)>)
    ensures
        pairs_map(fields@) == standard_fields(timestamp@, level, target@, message@).union_prefer_right(ctx@),
{
    let mut fields: Vec<(String, String)> = Vec::new();
    fields.push(("timestamp".to_owned(), timestamp.to_owned()));
    fields.push(("level".to_owned(), level.as_str().to_owned()));
    fields.push(("target".to_owned(), target.to_owned()));
    fields.push(("event".to_owned(), target.to_owned()));
    fields.push(("message".to_owned(), message.to_owned()));
    let ghost base = fields@;
    proof {
        reveal_with_fuel(pairs_map, 6);
        assert(pairs_map(base) =~= standard_fields(timestamp@, level, target@, message@));
    }
    let all = ctx.get_all();
    let n = all.len();
    let mut i: usize = 0;
    while i < n
        invariant
            n == all@.len(),
            i <= n,
            fields@ == base + all@.take(i as int),
        decreases n - i,
    {
        let k = all[i].0.clone();
        let v = all[i].1.clone();
        fields.push((k, v));
        i = i + 1;
        proof {
            assert(fields@ =~= base + all@.take(i as int));
        }
    }
    proof {
        assert(all@.take(n as int) =~= all@);
        lemma_pairs_map_concat(base, all@);
    }
    fields
}

/// A log entry names its event by its target: unless the log context binds
/// "event", the entry's "event" field is the target it was made with, the
/// same as its "target" field when the context binds neither; its "message"
/// field is the message unless the context binds "message".
pub proof fn law_event_is_target(
    timestamp: Seq<char>,
    level: DMSCLogLevel,
    target: Seq<char>,
    message: Seq<char>,
    ctx: Map<Seq<char>, Seq<char>>,
)
    ensures
        !ctx.contains_key("event"@) ==> standard_fields(timestamp, level, target, message).union_prefer_right(ctx).contains_key(
            "event"@,
        ) && standard_fields(timestamp, level, target, message).union_prefer_right(ctx)["event"@] == target,
        !ctx.contains_key("event"@) && !ctx.contains_key("target"@) ==> standard_fields(
            timestamp,
            level,
            target,
            message,
        ).union_prefer_right(ctx)["event"@] == standard_fields(timestamp, level, target, message).union_prefer_right(
            ctx,
        )["target"@],
        !ctx.contains_key("message"@) ==> standard_fields(timestamp, level, target, message).union_prefer_right(ctx)[
            "message"@] == message,
        !ctx.contains_key("timestamp"@) ==> standard_fields(timestamp, level, target, message).union_prefer_right(ctx)[
            "timestamp"@] == timestamp,
{
    reveal_strlit("timestamp");
    reveal_strlit("level");
    reveal_strlit("target");
    reveal_strlit("event");
    reveal_strlit("message");
    assert("event"@ != "message"@) by {
        assert("event"@.len() != "message"@.len());
    }
    assert("event"@ != "target"@) by {
        assert("event"@.len() != "target"@.len());
    }
    assert("event"@ != "timestamp"@) by {
        assert("event"@.len() != "timestamp"@.len());
    }
    assert("event"@ != "level"@) by {
        assert("event"@[0] != "level"@[0]);
    }
    assert("message"@ != "timestamp"@) by {
        assert("message"@.len() != "timestamp"@.len());
    }
    assert("message"@ != "target"@) by {
        assert("message"@.len() != "target"@.len());
    }
    assert("message"@ != "level"@) by {
        assert("message"@.len() != "level"@.len());
    }
    assert("timestamp"@ != "target"@) by {
        assert("timestamp"@.len() != "target"@.len());
    }
    assert("timestamp"@ != "level"@) by {
        assert("timestamp"@.len() != "level"@.len());
    }
    assert("target"@ != "level"@) by {
        assert("target"@.len() != "level"@.len());
    }
}

/// `d` padded with leading zeros to at least three characters.
pub open spec fn pad3(d: Seq<char>) -> Seq<char> {
    if d.len() >= 3 {
        d
    } else {
        Seq::new((3 - d.len()) as nat, |i: int| '0') + d
    }
}

/// The timestamp of a log line: whole seconds, a dot, the milliseconds on
/// at least three digits, and "Z".
pub open spec fn timestamp_text(secs: u64, millis: u32) -> Seq<char> {
    decimal(secs as nat) + "."@ + pad3(decimal(millis as nat)) + "Z"@
}

/// Writes the timestamp of a log line from the time since the epoch.
pub fn format_timestamp(secs: u64, millis: u32) -> (t: String)
    ensures
        t@ == timestamp_text(secs, millis),
{
    let mut t = String::new();
    push_decimal(&mut t, secs);
    t.append(".");
    let ghost before = t@;
    if millis < 10 {
        t.append("00");
    } else if millis < 100 {
        t.append("0");
    }
    push_decimal(&mut t, millis as u64);
    t.append("Z");
    proof {
        reveal_with_fuel(decimal, 3);
        reveal_strlit("00");
        reveal_strlit("0");
        let d = decimal(millis as nat);
        if millis < 10 {
            assert(d.len() == 1);
            assert(pad3(d) =~= "00"@ + d);
        } else if millis < 100 {
            assert(d.len() == 2);
            assert(pad3(d) =~= "0"@ + d);
        } else {
            lemma_decimal_len_at_least_3(millis as nat);
        }
        assert(t@ =~= timestamp_text(secs, millis));
    }
    t
}

proof fn lemma_decimal_len_at_least_3(n: nat)
    requires
        n >= 100,
    ensures
        decimal(n).len() >= 3,
    decreases n,
{
    if n >= 1000 {
        lemma_decimal_len_at_least_3(n / 10);
    } else {
        reveal_with_fuel(decimal, 3);
    }
}

/// Whether a log file of `file_len` bytes is rotated before more lines are
/// appended: rotation by size is configured (the word "size" in any ASCII
/// case), a size limit is set, and the file has reached it.
pub fn should_rotate(rotate_when: &str, max_bytes: u64, file_len: u64) -> (yes: bool)
    ensures
        yes == (eq_ignoring_ascii_case(rotate_when@, "size"@) && max_bytes > 0 && file_len >= max_bytes),
{
    eq_ignore_ascii_case(rotate_when, "size") && max_bytes > 0 && file_len >= max_bytes
}

/// Whether a configured file format asks for JSON lines: the word "json" in
/// any ASCII case.
pub fn is_json_format(format: &str) -> (yes: bool)
    ensures
        yes == eq_ignoring_ascii_case(format@, "json"@),
{
    eq_ignore_ascii_case(format, "json")
}

} // verus!
