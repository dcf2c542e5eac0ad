//! The response normalizer: one answer string out of whatever the upstream
//! service returned.
//!
//! The body may be a plain JSON object, a line-oriented event stream whose
//! `data:` lines each carry a JSON fragment, or bytes no parser accepts. The
//! normalizer never fails: it walks increasingly permissive extraction paths
//! and at worst wraps a bounded preview of the raw body in a diagnostic
//! string.

use vstd::prelude::*;
use crate::json::{
    JsonValue, parsed_json, parse_json, obj_get, as_text, first_elem, json_text, get_field,
    get_text, get_first, to_text,
};
use crate::text::{starts_with, has_prefix, string_to_chars, chars_to_string};

verus! {

/// The characters of `v` in a string field, for an object `v` holding `key`.
pub open spec fn field_string(v: JsonValue, key: Seq<char>) -> Option<Seq<char>> {
    match obj_get(v, key) {
        Some(c) => as_text(c),
        None => None,
    }
}

/// `message.content.parts[0]`, when that path exists and ends in a string.
pub open spec fn message_part_text(v: JsonValue) -> Option<Seq<char>> {
    match obj_get(v, "message"@) {
        Some(m) => match obj_get(m, "content"@) {
            Some(c) => match obj_get(c, "parts"@) {
                Some(p) => match first_elem(p) {
                    Some(e) => as_text(e),
                    None => None,
                },
                None => None,
            },
            None => None,
        },
        None => None,
    }
}

/// `message.content`, when it is itself a string.
pub open spec fn message_content_text(v: JsonValue) -> Option<Seq<char>> {
    match obj_get(v, "message"@) {
        Some(m) => match obj_get(m, "content"@) {
            Some(c) => as_text(c),
            None => None,
        },
        None => None,
    }
}

/// The answer taken from one parsed JSON object, in fixed precedence:
/// `message.content.parts[0]`, then `message.content` as a string, then
/// `content`, then `text`, and as a last resort the whole tree re-serialized.
pub open spec fn direct_answer(v: JsonValue) -> Seq<char> {
    if message_part_text(v) is Some {
        message_part_text(v)->Some_0
    } else if message_content_text(v) is Some {
        message_content_text(v)->Some_0
    } else if field_string(v, "content"@) is Some {
        field_string(v, "content"@)->Some_0
    } else if field_string(v, "text"@) is Some {
        field_string(v, "text"@)->Some_0
    } else {
        json_text(v)
    }
}

/// Index of the first newline in `s`, or `s.len()` when there is none.
pub open spec fn first_newline(s: Seq<char>) -> nat
    decreases s.len(),
{
    if s.len() == 0 {
        0
    } else if s[0] == '\n' {
        0
    } else {
        1 + first_newline(s.drop_first())
    }
}

/// One line with a trailing carriage return removed.
pub open spec fn strip_cr(l: Seq<char>) -> Seq<char> {
    if l.len() > 0 && l.last() == '\r' {
        l.drop_last()
    } else {
        l
    }
}

/// The lines of `s`, split at newlines, each without its line ending, and
/// without a last empty line after a trailing newline.
pub open spec fn lines_of(s: Seq<char>) -> Seq<Seq<char>>
    decreases s.len(),
{
    if s.len() == 0 {
        Seq::empty()
    } else {
        let i = first_newline(s);
        if i >= s.len() {
            seq![strip_cr(s)]
        } else {
            seq![strip_cr(s.take(i as int))] + lines_of(s.skip(i + 1 as int))
        }
    }
}

/// A line that carries an event: it bears the event-data prefix and is not
/// the stream terminator.
pub open spec fn data_line(line: Seq<char>) -> bool {
    starts_with(line, "data:"@) && line != "data: [DONE]"@
}

/// The payload of a data line: the text after the event-data prefix.
pub open spec fn event_payload(line: Seq<char>) -> Seq<char> {
    if starts_with(line, "data: "@) {
        line.skip("data: "@.len() as int)
    } else {
        line
    }
}

/// What one parsed event contributes to the accumulating answer.
pub open spec fn event_chunk(v: JsonValue) -> Seq<char> {
    match message_part_text(v) {
        Some(t) => t,
        None => Seq::empty(),
    }
}

/// The event-stream pass over the lines: the accumulated answer and the last
/// successfully parsed event. A parsed event appends its chunk and becomes
/// the last event; an unparseable payload is appended as it stands; any
/// other line contributes nothing.
pub open spec fn stream_fold(lines: Seq<Seq<char>>) -> (Seq<char>, Option<JsonValue>)
    decreases lines.len(),
{
    if lines.len() == 0 {
        (Seq::empty(), None::<JsonValue>)
    } else {
        let prev = stream_fold(lines.drop_last());
        let line = lines.last();
        if data_line(line) {
            let rest = event_payload(line);
            match parsed_json(rest) {
                Some(v) => (prev.0 + event_chunk(v), Some(v)),
                None => (prev.0 + rest, prev.1),
            }
        } else {
            prev
        }
    }
}

/// The raw body bounded to its first thousand characters.
pub open spec fn fallback_preview(s: Seq<char>) -> Seq<char> {
    if s.len() > 1000 {
        s.take(1000) + "... (truncated)"@
    } else {
        s
    }
}

/// The diagnostic string around a body nothing could parse.
pub open spec fn fallback_text(s: Seq<char>) -> Seq<char> {
    "Unparseable upstream response. Raw content: "@ + fallback_preview(s)
}

/// The normalized answer for a raw body: the direct extraction when the body
/// is a parseable JSON object, else the event-stream accumulation, else the
/// direct extraction from the last parsed event, else the diagnostic string.
pub open spec fn normalized(s: Seq<char>) -> Seq<char> {
    let direct = if starts_with(s, "{"@) {
        parsed_json(s)
    } else {
        None::<JsonValue>
    };
    match direct {
        Some(v) => direct_answer(v),
        None => {
            let folded = stream_fold(lines_of(s));
            if folded.0.len() > 0 {
                folded.0
            } else {
                match folded.1 {
                    Some(v) => direct_answer(v),
                    None => fallback_text(s),
                }
            }
        },
    }
}

/// The views of a vector of lines.
pub open spec fn lines_views(v: Seq<String>) -> Seq<Seq<char>> {
    v.map_values(|x: String| x@)
}

proof fn lemma_first_newline_at(s: Seq<char>, i: int)
    requires
        0 <= i <= s.len(),
        forall|k: int| 0 <= k < i ==> s[k] != '\n',
        i < s.len() ==> s[i] == '\n',
    ensures
        first_newline(s) == i,
    decreases i,
{
    if i > 0 {
        lemma_first_newline_at(s.drop_first(), i - 1);
    }
}

/// Splits a body into its lines, as `str::lines` does: at newlines, without
/// the line endings, and without a last empty line after a trailing newline.
pub fn split_lines(s: &str) -> (r: Vec<String>)
    ensures
        lines_views(r@) == lines_of(s@),
{
    let cs = string_to_chars(s);
    let mut lines: Vec<String> = Vec::new();
    let mut start: usize = 0;
    proof {
        assert(cs@.skip(0) =~= s@);
        assert(lines_views(lines@) + lines_of(s@) =~= lines_of(s@));
    }
    while start < cs.len()
        invariant
            start <= cs.len(),
            cs@ == s@,
            lines_of(s@) =~= lines_views(lines@) + lines_of(cs@.skip(start as int)),
        decreases cs.len() - start,
    {
        let ghost suffix = cs@.skip(start as int);
        let mut j = start;
        while j < cs.len() && cs[j] != '\n'
            invariant
                start <= j <= cs.len(),
                cs.len() == cs@.len(),
                forall|k: int| start <= k < j ==> cs@[k] != '\n',
            decreases cs.len() - j,
        {
            j = j + 1;
        }
        proof {
            assert forall|k: int| 0 <= k < j - start implies suffix[k] != '\n' by {
                assert(suffix[k] == cs@[start + k]);
            }
            if j < cs.len() {
                assert(suffix[j - start] == cs@[j as int]);
            }
            lemma_first_newline_at(suffix, j - start);
        }
        let mut endx = j;
        if endx > start && cs[endx - 1] == '\r' {
            endx = endx - 1;
        }
        proof {
            if j == cs.len() {
                assert(cs@.subrange(start as int, endx as int) =~= strip_cr(suffix));
            } else {
                assert(suffix.take(j - start) =~= cs@.subrange(start as int, j as int));
                assert(cs@.subrange(start as int, endx as int) =~= strip_cr(
                    suffix.take(j - start),
                ));
            }
        }
        let mut line: Vec<char> = Vec::new();
        let mut k = start;
        while k < endx
            invariant
                start <= k <= endx <= cs@.len(),
                cs.len() == cs@.len(),
                line@ =~= cs@.subrange(start as int, k as int),
            decreases endx - k,
        {
            proof {
                assert(cs@.subrange(start as int, k + 1 as int).drop_last() =~= cs@.subrange(
                    start as int,
                    k as int,
                ));
            }
            line.push(cs[k]);
            k = k + 1;
        }
        lines.push(chars_to_string(&line));
        proof {
            assert(lines_views(lines@) =~= lines_views(lines@.drop_last()) + seq![line@]);
        }
        if j < cs.len() {
            proof {
                assert(suffix.skip(j - start + 1) =~= cs@.skip(j + 1 as int));
                assert(lines_of(suffix) == seq![strip_cr(suffix.take(j - start))] + lines_of(
                    suffix.skip(j - start + 1),
                ));
            }
            start = j + 1;
        } else {
            proof {
                assert(lines_of(suffix) == seq![strip_cr(suffix)]);
                assert(cs@.skip(cs@.len() as int) =~= Seq::<char>::empty());
            }
            start = cs.len();
        }
    }
    proof {
        assert(cs@.skip(cs@.len() as int) =~= Seq::<char>::empty());
        assert(lines_views(lines@) + lines_of(Seq::<char>::empty()) =~= lines_views(lines@));
    }
    lines
}

/// `message.content.parts[0]` of one parsed event, when it is a string.
pub fn extract_stream_part(v: &JsonValue) -> (r: Option<String>)
    ensures
        match r {
            Some(t) => message_part_text(*v) == Some(t@),
            None => message_part_text(*v) is None,
        },
{
    if let Some(m) = get_field(v, "message") {
        if let Some(c) = get_field(m, "content") {
            if let Some(p) = get_field(c, "parts") {
                if let Some(e) = get_first(p) {
                    return get_text(e);
                }
            }
        }
    }
    None
}

/// The direct extraction from one parsed JSON object, in the precedence that
/// `direct_answer` states.
pub fn extract_direct(v: &JsonValue) -> (r: String)
    ensures
        r@ == direct_answer(*v),
{
    if let Some(m) = get_field(v, "message") {
        if let Some(c) = get_field(m, "content") {
            if let Some(p) = get_field(c, "parts") {
                if let Some(e) = get_first(p) {
                    if let Some(t) = get_text(e) {
                        return t;
                    }
                }
            }
            if let Some(t) = get_text(c) {
                return t;
            }
        }
    }
    if let Some(c) = get_field(v, "content") {
        if let Some(t) = get_text(c) {
            return t;
        }
    }
    if let Some(tf) = get_field(v, "text") {
        if let Some(t) = get_text(tf) {
            return t;
        }
    }
    to_text(v)
}

/// The diagnostic string around a body nothing could parse: a marked preview
/// of at most its first thousand characters.
fn fallback_string(raw: &str) -> (r: String)
    ensures
        r@ == fallback_text(raw@),
{
    let mut out = String::from_str("Unparseable upstream response. Raw content: ");
    let n = raw.unicode_len();
    if n > 1000 {
        let head = raw.substring_char(0, 1000);
        proof {
            assert(head@ =~= raw@.take(1000));
        }
        out.append(head);
        out.append("... (truncated)");
    } else {
        out.append(raw);
    }
    out
}

/// Normalizes a raw upstream body to one answer string. Never fails: a body
/// that is no JSON object and yields no event falls back to a marked preview
/// of the raw text.
pub fn normalize(raw: &str) -> (r: String)
    ensures
        r@ == normalized(raw@),
{
    if has_prefix(raw, "{") {
        if let Some(v) = parse_json(raw) {
            return extract_direct(&v);
        }
    }
    let lines = split_lines(raw);
    let done = String::from_str("data: [DONE]");
    let mut buffer = String::new();
    let mut last: Option<JsonValue> = None;
    let mut i: usize = 0;
    proof {
        assert(lines_views(lines@).take(0) =~= Seq::<Seq<char>>::empty());
    }
    while i < lines.len()
        invariant
            i <= lines.len(),
            lines_views(lines@) == lines_of(raw@),
            done@ == "data: [DONE]"@,
            (buffer@, last) == stream_fold(lines_views(lines@).take(i as int)),
        decreases lines.len() - i,
    {
        let ghost sofar = lines_views(lines@).take(i as int);
        let ghost cur = lines_views(lines@).take(i + 1 as int);
        proof {
            assert(cur.drop_last() =~= sofar);
            assert(cur.last() == lines@[i as int]@);
        }
        let line = &lines[i];
        if has_prefix(line.as_str(), "data:") && !(*line == done) {
            let rest = if has_prefix(line.as_str(), "data: ") {
                proof {
                    reveal_strlit("data: ");
                }
                let r = line.as_str().substring_char(6, line.as_str().unicode_len());
                proof {
                    assert(r@ =~= line@.skip("data: "@.len() as int));
                }
                r
            } else {
                line.as_str()
            };
            if let Some(v) = parse_json(rest) {
                if let Some(chunk) = extract_stream_part(&v) {
                    buffer.append(chunk.as_str());
                } else {
                    proof {
                        assert(buffer@ + event_chunk(v) =~= buffer@);
                    }
                }
                last = Some(v);
            } else {
                buffer.append(rest);
            }
        }
        i = i + 1;
    }
    proof {
        assert(lines_views(lines@).take(lines@.len() as int) =~= lines_of(raw@));
    }
    if buffer.as_str().unicode_len() > 0 {
        return buffer;
    }
    match last {
        Some(v) => extract_direct(&v),
        None => fallback_string(raw),
    }
}

/// Fallback never throws: a body that is no parseable JSON object, whose
/// lines accumulate nothing and parse to no event, is answered with the
/// diagnostic string, which is never empty. (That `normalize` returns at all
/// on every input is part of its verification; this pins the shape of what
/// it returns on such bodies.)
pub proof fn lemma_fallback_nonempty(s: Seq<char>)
    requires
        starts_with(s, "{"@) ==> parsed_json(s) is None,
        stream_fold(lines_of(s)).0.len() == 0,
        stream_fold(lines_of(s)).1 is None,
    ensures
        normalized(s) == fallback_text(s),
        normalized(s).len() > 0,
{
    reveal_strlit("Unparseable upstream response. Raw content: ");
}

} // verus!
