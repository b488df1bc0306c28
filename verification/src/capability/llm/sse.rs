//! SSE response reading for browser-router turns: the frames of an event
//! stream, the chat chunks and turn metadata they carry, the completion and
//! retry verdicts drawn from them, and HTTP/1.1 chunked bodies.
use vstd::prelude::*;
use crate::capability::llm::openai::{find_char, find_text, skip_ws};
use crate::capability::llm::provider_common::{
    blank_line, find_blank_line, find_from, spec_split_http_response, split_http_response,
};
use crate::capability::llm::openai::{IoFailure, IoFailureKind, OpenAiError};
use crate::capability::execution::action::canon_diagnostics::{contains_lower, lower_contains};
use crate::capability::llm::transport::first_index_of;
use crate::codec::{line_bounds, split_lines, trim, trim_bounds, trim_start};
use crate::text::{push_bool, spec_bool_text};
use crate::capability::execution::shell::{lossy_text, utf8_lossy};
use crate::text::{chars_of, new_string, owned, push_char, push_str, str_eq, string_from_chars};

verus! {

/// What an escaped character stands for in a frame's JSON string; an
/// unknown escape keeps its backslash.
pub open spec fn sse_unescape(c: char) -> Seq<char> {
    if c == '"' {
        seq!['"']
    } else if c == '\\' {
        seq!['\\']
    } else if c == '/' {
        seq!['/']
    } else if c == 'n' {
        seq!['\n']
    } else if c == 'r' {
        seq!['\r']
    } else if c == 't' {
        seq!['\t']
    } else {
        seq!['\\', c]
    }
}

/// The text of a JSON string body up to its closing quote (`None` when it
/// never closes), reading from just after the opening quote.
pub open spec fn decode_string_body(s: Seq<char>, escaped: bool) -> Option<Seq<char>>
    decreases s.len(),
{
    if s.len() == 0 {
        None
    } else if escaped {
        match decode_string_body(s.drop_first(), false) {
            Some(r) => Some(sse_unescape(s[0]) + r),
            None => None,
        }
    } else if s[0] == '\\' {
        decode_string_body(s.drop_first(), true)
    } else if s[0] == '"' {
        Some(Seq::empty())
    } else {
        match decode_string_body(s.drop_first(), false) {
            Some(r) => Some(seq![s[0]] + r),
            None => None,
        }
    }
}

/// The JSON string that `raw` starts with, decoded.
pub open spec fn spec_decode_json_string(raw: Seq<char>) -> Option<Seq<char>> {
    if raw.len() == 0 || raw[0] != '"' {
        None
    } else {
        decode_string_body(raw.drop_first(), false)
    }
}

fn push_unescaped(out: &mut String, c: char)
    ensures
        final(out)@ == old(out)@ + sse_unescape(c),
{
    if c == '"' {
        push_char(out, '"');
    } else if c == '\\' {
        push_char(out, '\\');
    } else if c == '/' {
        push_char(out, '/');
    } else if c == 'n' {
        push_char(out, '\n');
    } else if c == 'r' {
        push_char(out, '\r');
    } else if c == 't' {
        push_char(out, '\t');
    } else {
        push_char(out, '\\');
        push_char(out, c);
    }
}

/// Decodes the JSON string starting at `v[from]`.
pub fn decode_json_string_at(v: &Vec<char>, from: usize) -> (r: Option<String>)
    requires
        from <= v@.len(),
    ensures
        match (r, spec_decode_json_string(v@.skip(from as int))) {
            (Some(s), Some(t)) => s@ == t,
            (None, None) => true,
            _ => false,
        },
{
    let ghost raw = v@.skip(from as int);
    if from >= v.len() || v[from] != '"' {
        return None;
    }
    let ghost body = raw.drop_first();
    assert(raw[0] == '"');
    let mut out = new_string();
    let mut escaped = false;
    let mut i = from + 1;
    assert(body =~= v@.skip(i as int));
    while i < v.len()
        invariant
            from < i <= v@.len(),
            body == v@.skip(from + 1),
            raw == v@.skip(from as int),
            raw[0] == '"',
            body == raw.drop_first(),
            decode_string_body(body, false) == match decode_string_body(v@.skip(i as int), escaped) {
                Some(rest) => Some(out@ + rest),
                None => None,
            },
        decreases v@.len() - i,
    {
        let c = v[i];
        let ghost s = v@.skip(i as int);
        assert(s[0] == c);
        assert(s.drop_first() =~= v@.skip(i + 1));
        if escaped {
            let ghost before = out@;
            push_unescaped(&mut out, c);
            escaped = false;
            proof {
                match decode_string_body(v@.skip(i + 1), false) {
                    Some(rest) => {
                        assert(before + (sse_unescape(c) + rest) =~= out@ + rest);
                    },
                    None => {},
                }
            }
        } else if c == '\\' {
            escaped = true;
        } else if c == '"' {
            assert(out@ + Seq::<char>::empty() =~= out@);
            return Some(out);
        } else {
            let ghost before = out@;
            push_char(&mut out, c);
            proof {
                match decode_string_body(v@.skip(i + 1), false) {
                    Some(rest) => {
                        assert(before + (seq![c] + rest) =~= out@ + rest);
                    },
                    None => {},
                }
            }
        }
        i = i + 1;
    }
    assert(v@.skip(i as int).len() == 0);
    None
}

/// The decoded JSON string that `raw` starts with.
pub fn decode_json_string(raw: &str) -> (r: Option<String>)
    ensures
        match (r, spec_decode_json_string(raw@)) {
            (Some(s), Some(t)) => s@ == t,
            (None, None) => true,
            _ => false,
        },
{
    let v = chars_of(raw);
    assert(v@.skip(0) =~= v@);
    decode_json_string_at(&v, 0)
}

/// The text after the `:` that follows the first `pat` at or after `from`,
/// without leading white space.
pub open spec fn value_after(json: Seq<char>, pat: Seq<char>, from: int) -> Option<Seq<char>> {
    match find_from(json, pat, from) {
        Some(idx) => {
            let after = json.skip(idx + pat.len());
            match first_index_of(after, ':') {
                Some(colon) => Some(trim_start(after.skip(colon + 1))),
                None => None,
            }
        },
        None => None,
    }
}

/// Where the value after `pat` starts in `v`, as `value_after` finds it.
fn value_start(v: &Vec<char>, pat: &str, from: usize) -> (r: Option<usize>)
    requires
        from <= v@.len(),
        pat@.len() > 0,
    ensures
        match (r, value_after(v@, pat@, from as int)) {
            (Some(k), Some(t)) => k <= v@.len() && v@.skip(k as int) == t,
            (None, None) => true,
            _ => false,
        },
{
    let idx = match find_text(v, pat, from) {
        Some(i) => i,
        None => {
            return None;
        },
    };
    proof {
        crate::capability::llm::provider_common::lemma_find_from_found(v@, pat@, from as int, idx as int);
    }
    assert(v@.len() == v.len());
    let start = idx + pat.unicode_len();
    let colon = match find_char(v, ':', start) {
        Some(c) => c,
        None => {
            return None;
        },
    };
    let k = skip_ws(v, colon + 1);
    assert(v@.skip(start as int).skip(colon - start + 1) =~= v@.skip(colon + 1));
    Some(k)
}

pub open spec fn quoted_key(key: Seq<char>) -> Seq<char> {
    seq!['"'] + key + seq!['"']
}

/// The string value of `key` in a frame's JSON text: the first string after
/// the first quoted occurrence of the key and a colon.
pub open spec fn spec_extract_sse_string(json: Seq<char>, key: Seq<char>) -> Option<Seq<char>> {
    match value_after(json, quoted_key(key), 0) {
        Some(v) => spec_decode_json_string(v),
        None => None,
    }
}

pub fn extract_sse_string(json: &Vec<char>, key: &str) -> (r: Option<String>)
    ensures
        match (r, spec_extract_sse_string(json@, key@)) {
            (Some(s), Some(t)) => s@ == t,
            (None, None) => true,
            _ => false,
        },
{
    proof {
        reveal_strlit("\"");
    }
    let mut search = owned("\"");
    push_str(&mut search, key);
    push_char(&mut search, '"');
    assert(search@ =~= quoted_key(key@));
    match value_start(json, search.as_str(), 0) {
        Some(k) => decode_json_string_at(json, k),
        None => None,
    }
}

/// The `content` of a chat chunk's `delta`: the first string after the
/// first `"content"` key following the first `"delta"` key; none when it is
/// `null`.
pub open spec fn spec_extract_delta_content(json: Seq<char>) -> Option<Seq<char>> {
    match find_from(json, "\"delta\""@, 0) {
        Some(d) => match value_after(json, "\"content\""@, d) {
            Some(v) => if v.len() >= 4 && v.subrange(0, 4) == "null"@ {
                None
            } else {
                spec_decode_json_string(v)
            },
            None => None,
        },
        None => None,
    }
}

pub fn extract_delta_content(json: &Vec<char>) -> (r: Option<String>)
    ensures
        match (r, spec_extract_delta_content(json@)) {
            (Some(s), Some(t)) => s@ == t,
            (None, None) => true,
            _ => false,
        },
{
    proof {
        reveal_strlit("\"delta\"");
        reveal_strlit("\"content\"");
        reveal_strlit("null");
    }
    let d = match find_text(json, "\"delta\"", 0) {
        Some(d) => d,
        None => {
            return None;
        },
    };
    let k = match value_start(json, "\"content\"", d) {
        Some(k) => k,
        None => {
            return None;
        },
    };
    let ghost v = json@.skip(k as int);
    if json.len() - k >= 4 && crate::text::chars_start_with(json, k, "null") {
        assert(v.subrange(0, 4) =~= json@.subrange(k as int, k + 4));
        return None;
    }
    proof {
        if v.len() >= 4 && v.subrange(0, 4) == "null"@ {
            assert(v.subrange(0, 4) =~= json@.subrange(k as int, k + 4));
        }
    }
    decode_json_string_at(json, k)
}


/// A turn's outcome as read from its event stream.
pub struct SseResult {
    pub content: String,
    pub target_id: Option<String>,
    pub target_url: Option<String>,
    pub message_stream_complete: bool,
    pub done: bool,
    pub finish_reason: Option<String>,
}

pub open spec fn opt_seq(o: Option<String>) -> Option<Seq<char>> {
    match o {
        Some(s) => Some(s@),
        None => None,
    }
}

pub open spec fn is_length(finish_reason: Option<String>) -> bool {
    match finish_reason {
        Some(f) => f@ == "length"@,
        None => false,
    }
}

fn finished_for_length(finish_reason: &Option<String>) -> (r: bool)
    ensures
        r == is_length(*finish_reason),
{
    match finish_reason {
        Some(f) => str_eq(f.as_str(), "length"),
        None => false,
    }
}

impl SseResult {
    /// Complete: the `[DONE]` frame and the turn's end both arrived, and the
    /// output was not cut off for length.
    pub fn is_complete(&self) -> (r: bool)
        ensures
            r == (self.done && self.message_stream_complete && !is_length(self.finish_reason)),
    {
        self.done && self.message_stream_complete && !finished_for_length(&self.finish_reason)
    }

    /// Why the turn is or is not complete, the first reason that applies.
    pub fn completion_reason(&self) -> (r: &'static str)
        ensures
            r@ == if is_length(self.finish_reason) {
                "length_finished"@
            } else if !self.done {
                "missing_done_frame"@
            } else if !self.message_stream_complete {
                "missing_message_stream_complete"@
            } else {
                "ok"@
            },
    {
        if finished_for_length(&self.finish_reason) {
            "length_finished"
        } else if !self.done {
            "missing_done_frame"
        } else if !self.message_stream_complete {
            "missing_message_stream_complete"
        } else {
            "ok"
        }
    }

    /// Whether retrying the turn cannot duplicate work: never once a tab is
    /// bound (before or by this turn), never after a length cut-off, never
    /// once the turn's message stream completed.
    pub fn retry_is_safe(&self, has_target_url: bool) -> (r: bool)
        ensures
            r == (!has_target_url && !is_length(self.finish_reason) && self.target_url is None
                && !self.message_stream_complete),
    {
        if has_target_url {
            return false;
        }
        if finished_for_length(&self.finish_reason) {
            return false;
        }
        if self.target_url.is_some() {
            return false;
        }
        !self.message_stream_complete
    }
}

/// Line `i` of a frame as `str::lines` gives it: a line that ended at a
/// `\n` loses a trailing `\r`.
pub open spec fn frame_line(pieces: Seq<Seq<char>>, i: int) -> Seq<char> {
    let p = pieces[i];
    if i < pieces.len() - 1 && p.len() > 0 && p.last() == '\r' {
        p.drop_last()
    } else {
        p
    }
}

/// What a `data:` line contributes to its frame's data.
pub open spec fn data_of_line(q: Seq<char>) -> Seq<char> {
    if q.len() >= 5 && q.subrange(0, 5) == "data:"@ {
        trim_start(q.skip(5))
    } else {
        Seq::empty()
    }
}

pub open spec fn frame_data_upto(pieces: Seq<Seq<char>>, n: int) -> Seq<char>
    decreases n,
{
    if n <= 0 {
        Seq::empty()
    } else {
        frame_data_upto(pieces, n - 1) + data_of_line(frame_line(pieces, n - 1))
    }
}

/// The data of a frame: its `data:` lines' payloads, joined.
pub open spec fn spec_frame_data(raw: Seq<char>) -> Seq<char> {
    frame_data_upto(split_lines(raw), split_lines(raw).len() as int)
}

fn frame_data(raw: &Vec<char>) -> (r: Vec<char>)
    ensures
        r@ == spec_frame_data(raw@),
{
    proof {
        reveal_strlit("data:");
    }
    let bounds = line_bounds(raw);
    let ghost pieces = split_lines(raw@);
    let mut out: Vec<char> = Vec::new();
    let mut i: usize = 0;
    while i < bounds.len()
        invariant
            i <= bounds@.len(),
            bounds@.len() == pieces.len(),
            pieces == split_lines(raw@),
            "data:"@.len() == 5,
            forall|k: int|
                0 <= k < bounds@.len() ==> {
                    &&& (#[trigger] bounds@[k]).0 <= bounds@[k].1 <= raw@.len()
                    &&& raw@.subrange(bounds@[k].0 as int, bounds@[k].1 as int) == pieces[k]
                },
            out@ == frame_data_upto(pieces, i as int),
        decreases bounds@.len() - i,
    {
        let (lo, hi0) = bounds[i];
        let hi = if i + 1 < bounds.len() && hi0 > lo && raw[hi0 - 1] == '\r' {
            hi0 - 1
        } else {
            hi0
        };
        let ghost q = raw@.subrange(lo as int, hi as int);
        assert(q =~= frame_line(pieces, i as int));
        if hi - lo >= 5 && crate::text::chars_start_with(raw, lo, "data:") {
            assert(q.subrange(0, 5) =~= raw@.subrange(lo as int, lo + 5));
            let mut k = lo + 5;
            assert(q.skip(5) =~= raw@.subrange(k as int, hi as int));
            while k < hi && crate::codec::is_ws_char(raw[k])
                invariant
                    lo + 5 <= k <= hi <= raw@.len(),
                    q == raw@.subrange(lo as int, hi as int),
                    trim_start(q.skip(5)) == trim_start(raw@.subrange(k as int, hi as int)),
                decreases hi - k,
            {
                assert(raw@.subrange(k as int, hi as int).drop_first() =~= raw@.subrange(
                    k + 1,
                    hi as int,
                ));
                k = k + 1;
            }
            let ghost before = out@;
            let mut j = k;
            while j < hi
                invariant
                    k <= j <= hi <= raw@.len(),
                    out@ == before + raw@.subrange(k as int, j as int),
                decreases hi - j,
            {
                out.push(raw[j]);
                assert(out@ =~= before + raw@.subrange(k as int, j + 1));
                j = j + 1;
            }
            assert(q.skip(5) =~= raw@.subrange(lo + 5, hi as int));
            assert(trim_start(raw@.subrange(k as int, hi as int)) == raw@.subrange(k as int, hi as int));
        } else {
            proof {
                if q.len() >= 5 && q.subrange(0, 5) == "data:"@ {
                    assert(q.subrange(0, 5) =~= raw@.subrange(lo as int, lo + 5));
                }
            }
            assert(out@ =~= out@ + data_of_line(q));
        }
        i = i + 1;
    }
    assert(out@ == spec_frame_data(raw@));
    out
}


/// The reading of a stream so far: content, target id, target url, whether
/// the message stream completed, whether `[DONE]` arrived, finish reason.
pub open spec fn sse_state(r: SseResult) -> (
    Seq<char>,
    Option<Seq<char>>,
    Option<Seq<char>>,
    bool,
    bool,
    Option<Seq<char>>,
) {
    (r.content@, opt_seq(r.target_id), opt_seq(r.target_url), r.message_stream_complete, r.done, opt_seq(r.finish_reason))
}

pub open spec fn contains_text(s: Seq<char>, p: Seq<char>) -> bool {
    find_from(s, p, 0) is Some
}

/// One frame read into the state, with the log entry it leaves: `[DONE]`
/// marks the stream done; a chat chunk adds its delta content and keeps a
/// non-empty finish reason; an `x-turn` frame records the target id and url
/// it names and whether its message stream completed.
pub open spec fn spec_process_frame(
    st: (Seq<char>, Option<Seq<char>>, Option<Seq<char>>, bool, bool, Option<Seq<char>>),
    raw: Seq<char>,
) -> ((Seq<char>, Option<Seq<char>>, Option<Seq<char>>, bool, bool, Option<Seq<char>>), Option<
    Seq<char>,
>) {
    let data = spec_frame_data(raw);
    if data.len() == 0 {
        (st, None)
    } else if data == "[DONE]"@ {
        ((st.0, st.1, st.2, st.3, true, st.5), Some("\"done\":true"@))
    } else if contains_text(data, "\"chat.completion.chunk\""@) {
        let content = match spec_extract_delta_content(data) {
            Some(d) => st.0 + d,
            None => st.0,
        };
        let finish = match spec_extract_sse_string(data, "finish_reason"@) {
            Some(f) => if f.len() > 0 {
                Some(f)
            } else {
                st.5
            },
            None => st.5,
        };
        ((content, st.1, st.2, st.3, st.4, finish), Some("\"parsed_type\":\"chunk\""@))
    } else if contains_text(data, "\"x-turn\""@) {
        let id = match spec_extract_sse_string(data, "target_id"@) {
            Some(t) => Some(t),
            None => st.1,
        };
        let url = match spec_extract_sse_string(data, "target_url"@) {
            Some(t) => Some(t),
            None => st.2,
        };
        let complete = st.3 || contains_text(data, "\"message_stream_complete\":true"@);
        (
            (st.0, id, url, complete, st.4, st.5),
            Some(
                "\"parsed_type\":\"x-turn\",\"message_stream_complete\":"@ + spec_bool_text(
                    complete,
                ),
            ),
        )
    } else {
        (st, None)
    }
}

pub open spec fn log_views(logs: Seq<String>) -> Seq<Seq<char>> {
    Seq::new(logs.len(), |i: int| logs[i]@)
}

fn has_text(v: &Vec<char>, pat: &str) -> (r: bool)
    requires
        pat@.len() > 0,
    ensures
        r == contains_text(v@, pat@),
{
    find_text(v, pat, 0).is_some()
}

fn process_sse_frame(raw: &Vec<char>, result: &mut SseResult, logs: &mut Vec<String>)
    ensures
        sse_state(*final(result)) == spec_process_frame(sse_state(*old(result)), raw@).0,
        log_views(final(logs)@) == match spec_process_frame(sse_state(*old(result)), raw@).1 {
            Some(entry) => log_views(old(logs)@).push(entry),
            None => log_views(old(logs)@),
        },
{
    proof {
        reveal_strlit("\"chat.completion.chunk\"");
        reveal_strlit("\"x-turn\"");
        reveal_strlit("\"message_stream_complete\":true");
    }
    let data = frame_data(raw);
    if data.len() == 0 {
        return;
    }
    let ghost before = log_views(logs@);
    if chars_equal_all(&data, "[DONE]") {
        result.done = true;
        logs.push(owned("\"done\":true"));
        assert(log_views(logs@) =~= before.push("\"done\":true"@));
        return;
    }
    if has_text(&data, "\"chat.completion.chunk\"") {
        match extract_delta_content(&data) {
            Some(delta) => push_str(&mut result.content, delta.as_str()),
            None => {},
        }
        match extract_sse_string(&data, "finish_reason") {
            Some(fr) => {
                if fr.unicode_len() != 0 {
                    result.finish_reason = Some(fr);
                }
            },
            None => {},
        }
        logs.push(owned("\"parsed_type\":\"chunk\""));
        assert(log_views(logs@) =~= before.push("\"parsed_type\":\"chunk\""@));
    } else if has_text(&data, "\"x-turn\"") {
        match extract_sse_string(&data, "target_id") {
            Some(id) => {
                result.target_id = Some(id);
            },
            None => {},
        }
        match extract_sse_string(&data, "target_url") {
            Some(url) => {
                result.target_url = Some(url);
            },
            None => {},
        }
        if has_text(&data, "\"message_stream_complete\":true") {
            result.message_stream_complete = true;
        }
        let mut entry = owned("\"parsed_type\":\"x-turn\",\"message_stream_complete\":");
        push_bool(&mut entry, result.message_stream_complete);
        logs.push(entry);
        assert(log_views(logs@) =~= before.push(
            "\"parsed_type\":\"x-turn\",\"message_stream_complete\":"@ + spec_bool_text(
                result.message_stream_complete,
            ),
        ));
    }
}

fn chars_equal_all(v: &Vec<char>, s: &str) -> (r: bool)
    ensures
        r == (v@ == s@),
{
    assert(v@.subrange(0, v@.len() as int) =~= v@);
    crate::codec::chars_equal(v, 0, v.len(), s)
}

/// The frames of the rest of a stream read in order: frames end at a blank
/// line (`\n\n`); blank frames are skipped; a final frame without a blank
/// line after it is read when it is not blank.
pub open spec fn spec_sse_run(
    st: (Seq<char>, Option<Seq<char>>, Option<Seq<char>>, bool, bool, Option<Seq<char>>),
    logs: Seq<Seq<char>>,
    rest: Seq<char>,
) -> ((Seq<char>, Option<Seq<char>>, Option<Seq<char>>, bool, bool, Option<Seq<char>>), Seq<
    Seq<char>,
>)
    decreases rest.len(),
{
    match find_from(rest, seq!['\n', '\n'], 0) {
        Some(idx) => {
            if 0 <= idx && idx + 2 <= rest.len() {
                let raw = rest.take(idx);
                let step = if trim(raw).len() == 0 {
                    (st, None::<Seq<char>>)
                } else {
                    spec_process_frame(st, raw)
                };
                let logs2 = match step.1 {
                    Some(e) => logs.push(e),
                    None => logs,
                };
                spec_sse_run(step.0, logs2, rest.skip(idx + 2))
            } else {
                (st, logs)
            }
        },
        None => if trim(rest).len() > 0 {
            let step = spec_process_frame(st, rest);
            (step.0, match step.1 {
                Some(e) => logs.push(e),
                None => logs,
            })
        } else {
            (st, logs)
        },
    }
}

/// The reading of a whole stream, and the log entries of its frames.
pub open spec fn spec_parse_sse_body(body: Seq<char>) -> (
    (Seq<char>, Option<Seq<char>>, Option<Seq<char>>, bool, bool, Option<Seq<char>>),
    Seq<Seq<char>>,
) {
    spec_sse_run((Seq::empty(), None, None, false, false, None), Seq::empty(), body)
}

proof fn lemma_find_from_skip(s: Seq<char>, p: Seq<char>, pos: int, k: int)
    requires
        0 <= pos <= s.len(),
        0 <= k,
    ensures
        find_from(s, p, pos + k) == match find_from(s.skip(pos), p, k) {
            Some(i) => Some(i + pos),
            None => None,
        },
    decreases s.len() - pos - k,
{
    let t = s.skip(pos);
    if pos + k < s.len() && pos + k + p.len() <= s.len() {
        assert(s.subrange(pos + k, pos + k + p.len()) =~= t.subrange(k, k + p.len()));
        lemma_find_from_skip(s, p, pos, k + 1);
    }
}

/// Reads a whole event stream; the second part is the log entries of the
/// frames read, in order, for the turn's chunk log.
pub fn parse_sse_body(body: &str) -> (r: (SseResult, Vec<String>))
    ensures
        (sse_state(r.0), log_views(r.1@)) == spec_parse_sse_body(body@),
{
    let v = chars_of(body);
    let mut result = SseResult {
        content: new_string(),
        target_id: None,
        target_url: None,
        message_stream_complete: false,
        done: false,
        finish_reason: None,
    };
    let mut logs: Vec<String> = Vec::new();
    let mut pos: usize = 0;
    assert(v@.skip(0) =~= v@);
    assert(log_views(logs@) =~= Seq::<Seq<char>>::empty());
    proof {
        reveal_strlit("\n\n");
    }
    loop
        invariant_except_break
            spec_parse_sse_body(body@) == spec_sse_run(
                sse_state(result),
                log_views(logs@),
                v@.skip(pos as int),
            ),
        invariant
            pos <= v@.len(),
            v@.len() == v.len(),
            v@ == body@,
            "\n\n"@ == seq!['\n', '\n'],
        ensures
            (sse_state(result), log_views(logs@)) == spec_parse_sse_body(body@),
        decreases v@.len() - pos,
    {
        let ghost rest = v@.skip(pos as int);
        proof {
            lemma_find_from_skip(v@, seq!['\n', '\n'], pos as int, 0);
        }
        match find_text(&v, "\n\n", pos) {
            Some(idx) => {
                proof {
                    crate::capability::llm::provider_common::lemma_find_from_found(
                        v@,
                        seq!['\n', '\n'],
                        pos as int,
                        idx as int,
                    );
                }
                let ghost rel = idx - pos;
                assert(rest.take(rel) =~= v@.subrange(pos as int, idx as int));
                assert(rest.skip(rel + 2) =~= v@.skip(idx + 2));
                let raw = sub_vec(&v, pos, idx);
                let (lo, hi) = trim_bounds(&raw, 0, raw.len());
                assert(raw@.subrange(0, raw@.len() as int) =~= raw@);
                if lo < hi {
                    process_sse_frame(&raw, &mut result, &mut logs);
                }
                pos = idx + 2;
            },
            None => {
                let raw = sub_vec(&v, pos, v.len());
                assert(raw@ =~= rest);
                let (lo, hi) = trim_bounds(&raw, 0, raw.len());
                assert(raw@.subrange(0, raw@.len() as int) =~= raw@);
                if lo < hi {
                    process_sse_frame(&raw, &mut result, &mut logs);
                }
                break;
            },
        }
    }
    (result, logs)
}

fn sub_vec(v: &Vec<char>, lo: usize, hi: usize) -> (r: Vec<char>)
    requires
        lo <= hi <= v@.len(),
    ensures
        r@ == v@.subrange(lo as int, hi as int),
{
    let mut r: Vec<char> = Vec::new();
    let mut i = lo;
    while i < hi
        invariant
            lo <= i <= hi <= v@.len(),
            r@ == v@.subrange(lo as int, i as int),
        decreases hi - i,
    {
        r.push(v[i]);
        assert(r@ =~= v@.subrange(lo as int, i + 1));
        i = i + 1;
    }
    r
}


/// The UTF-8 length of a character.
pub open spec fn char_utf8_len(c: char) -> nat {
    if (c as u32) < 0x80 {
        1
    } else if (c as u32) < 0x800 {
        2
    } else if (c as u32) < 0x10000 {
        3
    } else {
        4
    }
}

/// The UTF-8 length of a text.
pub open spec fn utf8_len(s: Seq<char>) -> nat
    decreases s.len(),
{
    if s.len() == 0 {
        0
    } else {
        char_utf8_len(s[0]) + utf8_len(s.drop_first())
    }
}

/// How many leading characters of `s` make exactly `n` bytes; `None` when
/// `n` falls inside a character or past the end.
pub open spec fn chars_for_bytes(s: Seq<char>, n: nat) -> Option<nat>
    decreases s.len(),
{
    if n == 0 {
        Some(0)
    } else if s.len() == 0 || char_utf8_len(s[0]) > n {
        None
    } else {
        match chars_for_bytes(s.drop_first(), (n - char_utf8_len(s[0])) as nat) {
            Some(k) => Some(k + 1),
            None => None,
        }
    }
}

pub open spec fn hex_digit_value(c: char) -> Option<nat> {
    if '0' <= c && c <= '9' {
        Some((c as nat - '0' as nat) as nat)
    } else if 'a' <= c && c <= 'f' {
        Some((c as nat - 'a' as nat + 10) as nat)
    } else if 'A' <= c && c <= 'F' {
        Some((c as nat - 'A' as nat + 10) as nat)
    } else {
        None
    }
}

pub open spec fn hex_value(d: Seq<char>) -> Option<nat>
    decreases d.len(),
{
    if d.len() == 0 {
        Some(0)
    } else {
        match (hex_value(d.drop_last()), hex_digit_value(d.last())) {
            (Some(a), Some(b)) => Some(a * 16 + b),
            _ => None,
        }
    }
}

/// `usize::from_str_radix(t, 16)`: an optional `+`, then at least one hex
/// digit, the value fitting in a `usize`.
pub open spec fn parse_hex_usize(t: Seq<char>) -> Option<usize> {
    let d = if t.len() > 0 && t[0] == '+' {
        t.drop_first()
    } else {
        t
    };
    if d.len() == 0 {
        None
    } else {
        match hex_value(d) {
            Some(v) => if v <= usize::MAX {
                Some(v as usize)
            } else {
                None
            },
            None => None,
        }
    }
}

/// The part of `s` before its first `;`.
pub open spec fn before_semicolon(s: Seq<char>) -> Seq<char> {
    match first_index_of(s, ';') {
        Some(i) => s.take(i),
        None => s,
    }
}

/// The chunks of the rest of a chunked body appended to `out`. `None` marks
/// a chunk size that ends inside a character, where slicing the text at
/// that byte would panic; `Some(None)` a size line that is missing or not a
/// hexadecimal number; a last chunk shorter than its size keeps what there is.
pub open spec fn chunked_run(rest: Seq<char>, out: Seq<char>) -> Option<Option<Seq<char>>>
    decreases rest.len(),
{
    match find_from(rest, seq!['\r', '\n'], 0) {
        None => Some(None),
        Some(eos) => if eos < 0 || eos + 2 > rest.len() {
            Some(None)
        } else {
            match parse_hex_usize(before_semicolon(trim(rest.take(eos)))) {
                None => Some(None),
                Some(size) => {
                    let r2 = rest.skip(eos + 2);
                    if size == 0 {
                        Some(Some(out))
                    } else if utf8_len(r2) < size {
                        Some(Some(out + r2))
                    } else {
                        match chars_for_bytes(r2, size as nat) {
                            None => None,
                            Some(k) => if k <= r2.len() {
                                let r3 = r2.skip(k as int);
                                let r4 = if r3.len() >= 2 && r3[0] == '\r' && r3[1] == '\n' {
                                    r3.skip(2)
                                } else {
                                    r3
                                };
                                chunked_run(r4, out + r2.take(k as int))
                            } else {
                                None
                            },
                        }
                    }
                },
            }
        },
    }
}

fn char_len_utf8(c: char) -> (r: usize)
    ensures
        r == char_utf8_len(c),
{
    let u = c as u32;
    if u < 0x80 {
        1
    } else if u < 0x800 {
        2
    } else if u < 0x10000 {
        3
    } else {
        4
    }
}

proof fn lemma_utf8_len_skip(s: Seq<char>, k: int)
    requires
        0 <= k < s.len(),
    ensures
        utf8_len(s.skip(k)) == char_utf8_len(s[k]) + utf8_len(s.skip(k + 1)),
{
    assert(s.skip(k).drop_first() =~= s.skip(k + 1));
}

/// Whether the text from `pos` on is at least `n` bytes long.
fn bytes_at_least(v: &Vec<char>, pos: usize, n: usize) -> (r: bool)
    requires
        pos <= v@.len(),
    ensures
        r == (utf8_len(v@.skip(pos as int)) >= n),
{
    let mut acc: u128 = 0;
    let mut k = pos;
    while k < v.len() && acc < n as u128
        invariant
            pos <= k <= v@.len(),
            acc + utf8_len(v@.skip(k as int)) == utf8_len(v@.skip(pos as int)),
            acc <= n as u128 + 4,
        decreases v@.len() - k,
    {
        proof {
            lemma_utf8_len_skip(v@, k as int);
        }
        acc = acc + char_len_utf8(v[k]) as u128;
        k = k + 1;
    }
    if acc >= n as u128 {
        true
    } else {
        assert(v@.skip(k as int).len() == 0);
        false
    }
}

/// The number of characters from `pos` that make exactly `n` bytes.
fn chars_for_bytes_at(v: &Vec<char>, pos: usize, n: usize) -> (r: Option<usize>)
    requires
        pos <= v@.len(),
    ensures
        match (r, chars_for_bytes(v@.skip(pos as int), n as nat)) {
            (Some(k), Some(k2)) => k == k2 && pos + k <= v@.len(),
            (None, None) => true,
            _ => false,
        },
{
    let mut left: usize = n;
    let mut k = pos;
    while left > 0
        invariant
            pos <= k <= v@.len(),
            left <= n,
            chars_for_bytes(v@.skip(pos as int), n as nat) == match chars_for_bytes(
                v@.skip(k as int),
                left as nat,
            ) {
                Some(j) => Some((j + (k - pos)) as nat),
                None => None,
            },
        decreases left,
    {
        if k >= v.len() {
            assert(v@.skip(k as int).len() == 0);
            return None;
        }
        let w = char_len_utf8(v[k]);
        assert(v@.skip(k as int)[0] == v@[k as int]);
        assert(v@.skip(k as int).drop_first() =~= v@.skip(k + 1));
        if w > left {
            return None;
        }
        left = left - w;
        k = k + 1;
    }
    Some(k - pos)
}

/// Reads `t` as a chunk size: optional `+`, hexadecimal digits.
fn parse_hex_size(v: &Vec<char>, lo: usize, hi: usize) -> (r: Option<usize>)
    requires
        lo <= hi <= v@.len(),
    ensures
        r == parse_hex_usize(v@.subrange(lo as int, hi as int)),
{
    let ghost t = v@.subrange(lo as int, hi as int);
    let start = if lo < hi && v[lo] == '+' {
        lo + 1
    } else {
        lo
    };
    let ghost d = v@.subrange(start as int, hi as int);
    assert(d =~= if t.len() > 0 && t[0] == '+' {
        t.drop_first()
    } else {
        t
    });
    if start == hi {
        return None;
    }
    let mut acc: usize = 0;
    let mut k = start;
    while k < hi
        invariant
            start <= k <= hi <= v@.len(),
            start < hi,
            t == v@.subrange(lo as int, hi as int),
            d == v@.subrange(start as int, hi as int),
            d == if t.len() > 0 && t[0] == '+' {
                t.drop_first()
            } else {
                t
            },
            hex_value(v@.subrange(start as int, k as int)) == Some(acc as nat),
        decreases hi - k,
    {
        let c = v[k];
        assert(v@.subrange(start as int, k + 1).drop_last() =~= v@.subrange(start as int, k as int));
        let digit: usize = if '0' <= c && c <= '9' {
            (c as u32 - '0' as u32) as usize
        } else if 'a' <= c && c <= 'f' {
            (c as u32 - 'a' as u32 + 10) as usize
        } else if 'A' <= c && c <= 'F' {
            (c as u32 - 'A' as u32 + 10) as usize
        } else {
            proof {
                assert(d[k - start] == c);
                lemma_hex_fails(d, k - start);
            }
            return None;
        };
        assert(hex_digit_value(c) == Some(digit as nat));
        if acc > (usize::MAX - digit) / 16 {
            proof {
                assert(acc * 16 + digit > usize::MAX) by (nonlinear_arith)
                    requires
                        acc > (usize::MAX - digit) / 16,
                        digit < 16;
                assert(d.take(k - start + 1) =~= v@.subrange(start as int, k + 1));
                assert(v@.subrange(start as int, k + 1).last() == c);
                assert(hex_value(d.take(k - start + 1)) == Some((acc * 16 + digit) as nat));
                lemma_hex_grows(d, k - start + 1);
            }
            return None;
        }
        assert(acc * 16 + digit <= usize::MAX) by (nonlinear_arith)
            requires
                acc <= (usize::MAX - digit) / 16,
                digit < 16;
        acc = acc * 16 + digit;
        k = k + 1;
    }
    assert(v@.subrange(start as int, k as int) =~= d);
    Some(acc)
}

proof fn lemma_hex_fails(d: Seq<char>, j: int)
    requires
        0 <= j < d.len(),
        hex_digit_value(d[j]) is None,
    ensures
        hex_value(d) is None,
    decreases d.len(),
{
    if j < d.len() - 1 {
        lemma_hex_fails(d.drop_last(), j);
    }
}

proof fn lemma_hex_grows(d: Seq<char>, n: int)
    requires
        0 < n <= d.len(),
        hex_value(d.take(n)) is Some ==> hex_value(d.take(n))->0 > usize::MAX,
    ensures
        hex_value(d) is Some ==> hex_value(d)->0 > usize::MAX,
    decreases d.len() - n,
{
    if n < d.len() {
        assert(d.take(n + 1).drop_last() =~= d.take(n));
        lemma_hex_grows(d, n + 1);
    } else {
        assert(d.take(n) =~= d);
    }
}


/// The end of the part of `v[a..b]` before its first `;`.
fn semicolon_cut(v: &Vec<char>, a: usize, b: usize) -> (r: usize)
    requires
        a <= b <= v@.len(),
    ensures
        a <= r <= b,
        v@.subrange(a as int, r as int) == before_semicolon(v@.subrange(a as int, b as int)),
{
    let ghost t = v@.subrange(a as int, b as int);
    let mut k = a;
    while k < b && v[k] != ';'
        invariant
            a <= k <= b <= v@.len(),
            t == v@.subrange(a as int, b as int),
            forall|j: int| 0 <= j < k - a ==> t[j] != ';',
        decreases b - k,
    {
        k = k + 1;
    }
    proof {
        crate::capability::llm::provider_common::lemma_first_index_at(t, ';', k - a);
        if k < b {
            assert(t.take(k - a) =~= v@.subrange(a as int, k as int));
        } else {
            assert(t =~= v@.subrange(a as int, k as int));
        }
    }
    k
}

fn chunked_decode(v: &Vec<char>) -> (r: (bool, Option<String>))
    ensures
        match chunked_run(v@, Seq::empty()) {
            None => !r.0,
            Some(x) => r.0 && match (r.1, x) {
                (Some(s), Some(t)) => s@ == t,
                (None, None) => true,
                _ => false,
            },
        },
{
    proof {
        reveal_strlit("\r\n");
    }
    let mut out = new_string();
    let mut pos: usize = 0;
    assert(v@.skip(0) =~= v@);
    loop
        invariant
            pos <= v@.len(),
            v@.len() == v.len(),
            "\r\n"@ == seq!['\r', '\n'],
            chunked_run(v@, Seq::empty()) == chunked_run(v@.skip(pos as int), out@),
        decreases v@.len() - pos,
    {
        let ghost rest = v@.skip(pos as int);
        proof {
            lemma_find_from_skip(v@, seq!['\r', '\n'], pos as int, 0);
        }
        let e = match find_text(v, "\r\n", pos) {
            Some(e) => e,
            None => {
                return (true, None);
            },
        };
        proof {
            crate::capability::llm::provider_common::lemma_find_from_found(
                v@,
                seq!['\r', '\n'],
                pos as int,
                e as int,
            );
        }
        let ghost rel = e - pos;
        assert(rest.take(rel) =~= v@.subrange(pos as int, e as int));
        let (a, b) = trim_bounds(v, pos, e);
        let cut = semicolon_cut(v, a, b);
        let size = match parse_hex_size(v, a, cut) {
            Some(n) => n,
            None => {
                return (true, None);
            },
        };
        let body_start = e + 2;
        let ghost r2 = rest.skip(rel + 2);
        assert(r2 =~= v@.skip(body_start as int));
        if size == 0 {
            return (true, Some(out));
        }
        if !bytes_at_least(v, body_start, size) {
            let tail = string_from_chars(v, body_start, v.len());
            assert(tail@ =~= r2);
            push_str(&mut out, tail.as_str());
            return (true, Some(out));
        }
        let k = match chars_for_bytes_at(v, body_start, size) {
            Some(k) => k,
            None => {
                return (false, None);
            },
        };
        let piece = string_from_chars(v, body_start, body_start + k);
        assert(piece@ =~= r2.take(k as int));
        push_str(&mut out, piece.as_str());
        let p3 = body_start + k;
        let ghost r3 = r2.skip(k as int);
        assert(r3 =~= v@.skip(p3 as int));
        if p3 < v.len() && v.len() - p3 >= 2 && v[p3] == '\r' && v[p3 + 1] == '\n' {
            assert(r3.skip(2) =~= v@.skip(p3 + 2));
            pos = p3 + 2;
        } else {
            pos = p3;
        }
    }
}

/// Whether decoding the chunked body never slices inside a character (a
/// chunk size that ends inside a multi-byte character would panic).
pub fn chunked_body_splits_on_char_boundaries(body: &str) -> (r: bool)
    ensures
        r == chunked_run(body@, Seq::empty()) is Some,
{
    let v = chars_of(body);
    chunked_decode(&v).0
}

/// Decodes an HTTP/1.1 chunked body: chunks up to the zero-size one, a
/// short last chunk kept as it is; `None` when a size line is missing or not
/// hexadecimal.
pub fn decode_chunked_body(body: &str) -> (r: Option<String>)
    requires
        chunked_run(body@, Seq::empty()) is Some,
    ensures
        match (r, chunked_run(body@, Seq::empty())->0) {
            (Some(s), Some(t)) => s@ == t,
            (None, None) => true,
            _ => false,
        },
{
    let v = chars_of(body);
    chunked_decode(&v).1
}


/// Whether some line of an HTTP head, in lower case, names both
/// `transfer-encoding` and `chunked`.
pub open spec fn head_is_chunked(head: Seq<char>) -> bool {
    exists|i: int|
        0 <= i < split_lines(head).len() && lower_contains(
            #[trigger] split_lines(head)[i],
            "transfer-encoding"@,
        ) && lower_contains(split_lines(head)[i], "chunked"@)
}

fn chunked_head(v: &Vec<char>, end: usize) -> (r: bool)
    requires
        end <= v@.len(),
    ensures
        r == head_is_chunked(v@.take(end as int)),
{
    let head = sub_vec(v, 0, end);
    assert(head@ =~= v@.take(end as int));
    let bounds = line_bounds(&head);
    let ghost lines = split_lines(head@);
    let mut i: usize = 0;
    while i < bounds.len()
        invariant
            i <= bounds@.len(),
            bounds@.len() == lines.len(),
            lines == split_lines(head@),
            head@ == v@.take(end as int),
            forall|k: int|
                0 <= k < bounds@.len() ==> {
                    &&& (#[trigger] bounds@[k]).0 <= bounds@[k].1 <= head@.len()
                    &&& head@.subrange(bounds@[k].0 as int, bounds@[k].1 as int) == lines[k]
                },
            forall|k: int|
                0 <= k < i ==> !(lower_contains(#[trigger] lines[k], "transfer-encoding"@)
                    && lower_contains(lines[k], "chunked"@)),
        decreases bounds@.len() - i,
    {
        let (lo, hi) = bounds[i];
        let line = sub_vec(&head, lo, hi);
        assert(line@ == lines[i as int]);
        if contains_lower(&line, "transfer-encoding") && contains_lower(&line, "chunked") {
            return true;
        }
        i = i + 1;
    }
    false
}

/// The status of a response head: the second word of its first line, 0
/// when there is none or it is not a number.
pub open spec fn head_status(response: Seq<char>) -> u16 {
    match spec_split_http_response(response) {
        Some((status, _)) => status,
        None => 0,
    }
}

/// The body text a finished stream is read from: a chunked body decoded
/// (kept raw when a size line is bad), any other body as it is.
pub open spec fn stream_body_text(response: Seq<char>, i: int) -> Seq<char> {
    let raw = response.skip(i + 4);
    if head_is_chunked(response.take(i)) {
        match chunked_run(raw, Seq::empty()) {
            Some(Some(t)) => t,
            _ => raw,
        }
    } else {
        raw
    }
}

/// Whether finishing the stream never slices a chunk inside a character.
pub open spec fn spec_finalize_is_safe(response: Seq<char>) -> bool {
    match find_from(response, blank_line(), 0) {
        Some(i) => head_status(response) != 200 || !response_has_done_line(response)
            || !head_is_chunked(response.take(i)) || chunked_run(response.skip(i + 4), Seq::empty()) is Some,
        None => true,
    }
}

pub open spec fn response_has_done_line(response: Seq<char>) -> bool {
    exists|i: int|
        0 <= i < split_lines(response).len() && trim(#[trigger] split_lines(response)[i])
            == "data: [DONE]"@
}

/// `std::io::Error::new(ErrorKind::UnexpectedEof, message)`.
#[verifier::external_body]
fn unexpected_eof_error(message: &str) -> std::io::Error {
    std::io::Error::new(std::io::ErrorKind::UnexpectedEof, message.to_owned())
}

/// Whether `finalize_streaming_response` can read the response without
/// slicing a chunk inside a character.
pub fn finalize_streaming_is_safe(response: &str) -> (r: bool)
    ensures
        r == spec_finalize_is_safe(response@),
{
    let v = chars_of(response);
    let i = match find_blank_line(&v) {
        Some(i) => i,
        None => {
            return true;
        },
    };
    let status = match split_http_response(response) {
        Some((s, _)) => s,
        None => 0,
    };
    if status != 200 || !crate::capability::llm::browser_router::response_text_has_done_frame(
        response,
    ) {
        return true;
    }
    if !chunked_head(&v, i) {
        return true;
    }
    let raw = string_from_chars(&v, i + 4, v.len());
    assert(raw@ =~= v@.skip(i + 4));
    chunked_body_splits_on_char_boundaries(raw.as_str())
}

/// A finished stream read: `InvalidResponse` without a blank line after the
/// head, the status as an error unless it is 200, an unexpected end when no
/// line is `data: [DONE]`; otherwise the frames of the (de-chunked) body and
/// their log entries.
pub fn finalize_streaming_response(response: &str) -> (r: Result<(SseResult, Vec<String>), OpenAiError>)
    requires
        spec_finalize_is_safe(response@),
    ensures
        match find_from(response@, blank_line(), 0) {
            None => r matches Err(OpenAiError::InvalidResponse),
            Some(i) => if head_status(response@) != 200 {
                r matches Err(OpenAiError::HttpStatus(s)) && s == head_status(response@)
            } else if !response_has_done_line(response@) {
                r matches Err(OpenAiError::Io(f)) && f.kind == IoFailureKind::UnexpectedEof
            } else {
                r matches Ok((result, logs)) && (sse_state(result), log_views(logs@))
                    == spec_parse_sse_body(stream_body_text(response@, i))
            },
        },
{
    let v = chars_of(response);
    let i = match find_blank_line(&v) {
        Some(i) => i,
        None => {
            return Err(OpenAiError::InvalidResponse);
        },
    };
    let status = match split_http_response(response) {
        Some((s, _)) => s,
        None => 0,
    };
    if status != 200 {
        return Err(OpenAiError::HttpStatus(status));
    }
    if !crate::capability::llm::browser_router::response_text_has_done_frame(response) {
        return Err(
            OpenAiError::Io(
                IoFailure {
                    kind: IoFailureKind::UnexpectedEof,
                    error: unexpected_eof_error("stream ended before router [DONE] frame"),
                },
            ),
        );
    }
    let raw = string_from_chars(&v, i + 4, v.len());
    assert(raw@ =~= v@.skip(i + 4));
    let body_text = if chunked_head(&v, i) {
        match decode_chunked_body(raw.as_str()) {
            Some(t) => t,
            None => raw,
        }
    } else {
        raw
    };
    Ok(parse_sse_body(body_text.as_str()))
}

/// Finishes a stream from its raw bytes: the bytes are read as text with
/// each invalid UTF-8 sequence replaced, then finished as a text stream.
/// `None` where finishing that text is not safe (a chunk would be cut
/// inside a character).
pub fn finalize_streaming_bytes(full_response: &[u8]) -> (r: Option<
    Result<(SseResult, Vec<String>), OpenAiError>,
>)
    ensures
        ({
            let response = utf8_lossy(full_response@);
            match r {
                None => !spec_finalize_is_safe(response),
                Some(r) => spec_finalize_is_safe(response) && match find_from(
                    response,
                    blank_line(),
                    0,
                ) {
                    None => r matches Err(OpenAiError::InvalidResponse),
                    Some(i) => if head_status(response) != 200 {
                        r matches Err(OpenAiError::HttpStatus(s)) && s == head_status(response)
                    } else if !response_has_done_line(response) {
                        r matches Err(OpenAiError::Io(f)) && f.kind == IoFailureKind::UnexpectedEof
                    } else {
                        r matches Ok((result, logs)) && (sse_state(result), log_views(logs@))
                            == spec_parse_sse_body(stream_body_text(response, i))
                    },
                },
            }
        }),
{
    let text = lossy_text(full_response);
    if !finalize_streaming_is_safe(text.as_str()) {
        return None;
    }
    Some(finalize_streaming_response(text.as_str()))
}

} // verus!
