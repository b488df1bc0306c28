//! Byte and text primitives shared by the local provider adapters: the JSON
//! string escape, the HTTP status line reader, the number-list record line,
//! and the length-prefixed text hash.
use vstd::prelude::*;
use vstd::string::StringSliceAdditionalSpecFns;
use crate::capability::llm::transport::{first_index_of, fold_bytes_mix, parse_port, parse_u16_text};
use crate::codec::{
    encode_u64_list, encode_u64_list_exec, is_ws, is_ws_char, parse_u64_list, parse_u64_list_exec,
    trim, trim_bounds,
};
use crate::kernel::{
    mix, nonzero, nz, spec_mix, Cause, ControlEvent, Decision, EventKind, Evidence, GateId,
    GateStatus, Phase, FNV_OFFSET_BASIS,
};
use crate::capability::context::record::ContextRecord;
use crate::capability::llm::record::spec_turn_policy_version;
use crate::capability::policy::store::{spec_fingerprint, PolicyStore};
use crate::text::{
    chars_of, new_string, owned, push_char, push_decimal, push_str, spec_decimal, string_from_chars,
};

verus! {

/// `char::is_control`: the Unicode `Cc` category.
pub open spec fn is_control(c: char) -> bool {
    c <= '\u{1f}' || ('\u{7f}' <= c && c <= '\u{9f}')
}

/// The escape of one character inside a JSON string; other control
/// characters become a space.
pub open spec fn escape_char(c: char) -> Seq<char> {
    if c == '"' {
        seq!['\\', '"']
    } else if c == '\\' {
        seq!['\\', '\\']
    } else if c == '\n' {
        seq!['\\', 'n']
    } else if c == '\r' {
        seq!['\\', 'r']
    } else if c == '\t' {
        seq!['\\', 't']
    } else if is_control(c) {
        seq![' ']
    } else {
        seq![c]
    }
}

pub open spec fn spec_json_escape(s: Seq<char>) -> Seq<char>
    decreases s.len(),
{
    if s.len() == 0 {
        Seq::<char>::empty()
    } else {
        spec_json_escape(s.drop_last()) + escape_char(s.last())
    }
}

/// Appends the escape of `value` to `out`.
pub fn push_json_escaped(out: &mut String, value: &str)
    ensures
        final(out)@ == old(out)@ + spec_json_escape(value@),
{
    let v = chars_of(value);
    let mut i: usize = 0;
    while i < v.len()
        invariant
            i <= v@.len(),
            v@ == value@,
            out@ == old(out)@ + spec_json_escape(v@.take(i as int)),
        decreases v@.len() - i,
    {
        let c = v[i];
        let ghost before = out@;
        assert(v@.take(i as int + 1).drop_last() =~= v@.take(i as int));
        assert(v@.take(i as int + 1).last() == c);
        if c == '"' {
            push_char(out, '\\');
            push_char(out, '"');
        } else if c == '\\' {
            push_char(out, '\\');
            push_char(out, '\\');
        } else if c == '\n' {
            push_char(out, '\\');
            push_char(out, 'n');
        } else if c == '\r' {
            push_char(out, '\\');
            push_char(out, 'r');
        } else if c == '\t' {
            push_char(out, '\\');
            push_char(out, 't');
        } else if c <= '\u{1f}' || ('\u{7f}' <= c && c <= '\u{9f}') {
            push_char(out, ' ');
        } else {
            push_char(out, c);
        }
        assert(out@ =~= before + escape_char(c));
        assert(out@ =~= old(out)@ + spec_json_escape(v@.take(i as int + 1)));
        i = i + 1;
    }
    assert(v@.take(i as int) =~= v@);
}

/// A string escaped for the inside of a JSON string literal.
pub fn json_escape(value: &str) -> (r: String)
    ensures
        r@ == spec_json_escape(value@),
{
    let mut out = new_string();
    push_json_escaped(&mut out, value);
    assert(out@ =~= spec_json_escape(value@));
    out
}

/// The first index at or after `i` where `pat` occurs in `s`.
pub open spec fn find_from(s: Seq<char>, pat: Seq<char>, i: int) -> Option<int>
    decreases s.len() - i,
{
    if i < 0 || i >= s.len() || i + pat.len() > s.len() {
        None
    } else if s.subrange(i, i + pat.len()) == pat {
        Some(i)
    } else {
        find_from(s, pat, i + 1)
    }
}

pub open spec fn blank_line() -> Seq<char> {
    seq!['\r', '\n', '\r', '\n']
}

/// The first line of a text, as `str::lines` yields it.
pub open spec fn first_line(head: Seq<char>) -> Seq<char> {
    let l = match first_index_of(head, '\n') {
        Some(i) => head.take(i),
        None => head,
    };
    if l.len() > 0 && l.last() == '\r' {
        l.drop_last()
    } else {
        l
    }
}

/// The white-space separated words of a text, as `str::split_whitespace` yields them.
pub open spec fn ws_tokens(s: Seq<char>) -> Seq<Seq<char>>
    decreases s.len(),
{
    if s.len() == 0 {
        Seq::<Seq<char>>::empty()
    } else {
        let t = ws_tokens(s.drop_last());
        let c = s.last();
        if is_ws(c) {
            t
        } else if s.len() >= 2 && !is_ws(s[s.len() - 2]) {
            t.update(t.len() - 1, t.last().push(c))
        } else {
            t.push(seq![c])
        }
    }
}

proof fn lemma_ws_tokens_nonempty(s: Seq<char>)
    requires
        s.len() >= 1,
        !is_ws(s.last()),
    ensures
        ws_tokens(s).len() >= 1,
    decreases s.len(),
{
    if s.len() >= 2 && !is_ws(s[s.len() - 2]) {
        lemma_ws_tokens_nonempty(s.drop_last());
    }
}

/// The status code and body of a raw HTTP/1.1 response: the head ends at
/// the first blank line, and the status is the second word of its first line.
pub open spec fn spec_split_http_response(r: Seq<char>) -> Option<(u16, Seq<char>)> {
    match find_from(r, blank_line(), 0) {
        None => None,
        Some(i) => {
            let head = r.take(i);
            let toks = ws_tokens(first_line(head));
            if head.len() == 0 || toks.len() < 2 {
                None
            } else {
                match parse_u16_text(toks[1]) {
                    Some(status) => Some((status, r.skip(i + 4))),
                    None => None,
                }
            }
        },
    }
}

pub(crate) fn find_blank_line(v: &Vec<char>) -> (r: Option<usize>)
    ensures
        match r {
            Some(i) => find_from(v@, blank_line(), 0) == Some(i as int) && i + 4 <= v@.len(),
            None => find_from(v@, blank_line(), 0) is None,
        },
{
    let n = v.len();
    let mut i: usize = 0;
    while n >= 4 && i <= n - 4
        invariant
            n == v@.len(),
            find_from(v@, blank_line(), 0) == find_from(v@, blank_line(), i as int),
        decreases n - i,
    {
        if v[i] == '\r' && v[i + 1] == '\n' && v[i + 2] == '\r' && v[i + 3] == '\n' {
            assert(v@.subrange(i as int, i + 4) =~= blank_line());
            return Some(i);
        }
        assert(v@.subrange(i as int, i + 4) != blank_line()) by {
            if v@.subrange(i as int, i + 4) == blank_line() {
                assert(v@.subrange(i as int, i + 4)[0] == v@[i as int]);
                assert(v@.subrange(i as int, i + 4)[1] == v@[i + 1]);
                assert(v@.subrange(i as int, i + 4)[2] == v@[i + 2]);
                assert(v@.subrange(i as int, i + 4)[3] == v@[i + 3]);
            }
        }
        i = i + 1;
    }
    None
}

/// The second white-space separated word of `v[lo..hi]`, as bounds.
fn second_word(v: &Vec<char>, lo: usize, hi: usize) -> (r: Option<(usize, usize)>)
    requires
        lo <= hi <= v@.len(),
    ensures
        ({
            let toks = ws_tokens(v@.subrange(lo as int, hi as int));
            match r {
                Some((a, b)) => toks.len() >= 2 && lo <= a <= b <= hi && v@.subrange(a as int, b as int)
                    == toks[1],
                None => toks.len() < 2,
            }
        }),
{
    let ghost s = v@.subrange(lo as int, hi as int);
    let mut count: usize = 0;
    let mut start: usize = lo;
    let mut end: usize = lo;
    let mut k = lo;
    while k < hi
        invariant
            lo <= k <= hi <= v@.len(),
            s == v@.subrange(lo as int, hi as int),
            count == if ws_tokens(s.take(k - lo)).len() < 3 {
                ws_tokens(s.take(k - lo)).len() as int
            } else {
                3
            },
            count >= 2 ==> lo <= start <= end <= k && v@.subrange(start as int, end as int)
                == ws_tokens(s.take(k - lo))[1],
            count == 2 ==> end == k || (k > lo && is_ws(v@[k - 1])),
            count == 2 && k > lo && !is_ws(v@[k - 1]) ==> end == k,
        decreases hi - k,
    {
        let c = v[k];
        let ghost p = s.take(k - lo);
        let ghost q = s.take(k - lo + 1);
        assert(q.drop_last() =~= p);
        assert(q.last() == c);
        let ws = is_ws_char(c);
        if ws {
            assert(ws_tokens(q) == ws_tokens(p));
        } else if k > lo && !is_ws_char(v[k - 1]) {
            assert(q[q.len() - 2] == v@[k - 1]);
            proof {
                lemma_ws_tokens_nonempty(p);
                assert(p.last() == v@[k - 1]);
            }
            if count == 2 {
                assert(v@.subrange(start as int, end as int + 1) =~= v@.subrange(
                    start as int,
                    end as int,
                ).push(c));
                end = k + 1;
            }
        } else {
            if k > lo {
                assert(q[q.len() - 2] == v@[k - 1]);
            }
            if count == 1 {
                start = k;
                end = k + 1;
                assert(v@.subrange(start as int, end as int) =~= seq![c]);
            }
            if count < 3 {
                count = count + 1;
            }
        }
        k = k + 1;
    }
    assert(s.take(hi - lo) =~= s);
    if count >= 2 {
        Some((start, end))
    } else {
        None
    }
}

/// The status code and body of a raw HTTP/1.1 response.
pub fn split_http_response(response: &str) -> (r: Option<(u16, String)>)
    ensures
        match (r, spec_split_http_response(response@)) {
            (Some((st, body)), Some((st2, body2))) => st == st2 && body@ == body2,
            (None, None) => true,
            _ => false,
        },
{
    let v = chars_of(response);
    let i = match find_blank_line(&v) {
        Some(i) => i,
        None => return None,
    };
    if i == 0 {
        return None;
    }
    let ghost head = v@.take(i as int);
    // The first line of the head.
    let mut nl: usize = 0;
    while nl < i && v[nl] != '\n'
        invariant
            nl <= i <= v@.len(),
            forall|k: int| 0 <= k < nl ==> head[k] != '\n',
            head == v@.take(i as int),
        decreases i - nl,
    {
        nl = nl + 1;
    }
    proof {
        lemma_first_index_at(head, '\n', nl as int);
    }
    let mut line_end = nl;
    if line_end > 0 && v[line_end - 1] == '\r' {
        line_end = line_end - 1;
    }
    assert(v@.subrange(0, line_end as int) =~= first_line(head));
    let (a, b) = match second_word(&v, 0, line_end) {
        Some(ab) => ab,
        None => return None,
    };
    match parse_port(&v, a, b) {
        Some(status) => {
            let body = string_from_chars(&v, i + 4, v.len());
            assert(body@ =~= response@.skip(i + 4));
            Some((status, body))
        },
        None => None,
    }
}

pub proof fn lemma_first_index_at(s: Seq<char>, c: char, i: int)
    requires
        0 <= i <= s.len(),
        forall|k: int| 0 <= k < i ==> s[k] != c,
        i < s.len() ==> s[i] == c,
    ensures
        i < s.len() ==> first_index_of(s, c) == Some(i),
        i == s.len() ==> first_index_of(s, c) is None,
    decreases i,
{
    if s.len() > 0 && i > 0 {
        lemma_first_index_at(s.drop_first(), c, i - 1);
    }
}

/// One record line of a list of fields.
pub fn encode_u64_fields_ndjson(fields: &[u64]) -> (r: String)
    ensures
        r@ == encode_u64_list(fields@),
{
    encode_u64_list_exec(fields)
}

/// The fields of a record line; an empty list for a blank body.
pub open spec fn spec_parse_u64_fields(line: Seq<char>) -> Option<Seq<u64>> {
    let t = trim(line);
    if t.len() >= 2 && t[0] == '[' && t.last() == ']' && trim(t.subrange(1, t.len() - 1)).len()
        == 0 {
        Some(Seq::<u64>::empty())
    } else {
        parse_u64_list(line)
    }
}

pub fn parse_u64_fields(line: &str) -> (r: Option<Vec<u64>>)
    ensures
        match r {
            Some(v) => spec_parse_u64_fields(line@) == Some(v@),
            None => spec_parse_u64_fields(line@) is None,
        },
{
    let chars = chars_of(line);
    let (lo, hi) = trim_bounds(&chars, 0, chars.len());
    assert(chars@.subrange(0, chars@.len() as int) =~= chars@);
    if hi - lo >= 2 && chars[lo] == '[' && chars[hi - 1] == ']' {
        let (blo, bhi) = trim_bounds(&chars, lo + 1, hi - 1);
        let ghost t = chars@.subrange(lo as int, hi as int);
        assert(t.subrange(1, t.len() - 1) =~= chars@.subrange(lo + 1, hi - 1));
        if blo == bhi {
            return Some(Vec::new());
        }
    }
    parse_u64_list_exec(line)
}

/// Hash of a text: its byte length, then each byte, folded into the
/// FNV offset basis; never zero.
pub open spec fn spec_hash_text(bytes: Seq<u8>) -> u64 {
    nz(fold_bytes_mix(spec_mix(FNV_OFFSET_BASIS, bytes.len() as u64), bytes))
}

pub fn hash_text(value: &str) -> (r: u64)
    ensures
        r == spec_hash_text(value.spec_bytes()),
        r != 0,
{
    let bytes = value.as_bytes();
    let seed = mix(FNV_OFFSET_BASIS, bytes.len() as u64);
    let mut h = seed;
    let mut i: usize = 0;
    while i < bytes.len()
        invariant
            i <= bytes@.len(),
            h == fold_bytes_mix(seed, bytes@.take(i as int)),
        decreases bytes@.len() - i,
    {
        assert(bytes@.take(i as int + 1).drop_last() =~= bytes@.take(i as int));
        h = mix(h, bytes[i] as u64);
        i = i + 1;
    }
    assert(bytes@.take(i as int) =~= bytes@);
    nonzero(h)
}


pub open spec fn b2u(b: bool) -> u64 {
    if b {
        1
    } else {
        0
    }
}

/// A flag as the number a record line holds.
pub fn bool_u64(b: bool) -> (r: u64)
    ensures
        r == b2u(b),
{
    if b {
        1
    } else {
        0
    }
}

/// `u64::saturating_add(x, 1)`.
pub open spec fn sat_succ(x: u64) -> u64 {
    if x == u64::MAX {
        u64::MAX
    } else {
        (x + 1) as u64
    }
}

/// The event that persists an accepted judgment record: judgment to
/// judgment, submitted evidence, continuing, no failure, the judgment gate passed.
pub open spec fn is_persisted_judgment(event: ControlEvent) -> bool {
    &&& event.from == Phase::Judgment
    &&& event.to == Phase::Judgment
    &&& event.kind == EventKind::Persisted
    &&& event.cause == Cause::EvidenceSubmitted
    &&& event.evidence == Evidence::JudgmentRecord
    &&& event.decision == Decision::Continue
    &&& event.failure is None
    &&& event.recovery_action is None
    &&& event.affected_gate == Some(GateId::Judgment)
    &&& event.state_after.judgment.status == GateStatus::Pass
    &&& event.state_after.judgment.evidence == Evidence::JudgmentRecord
}

pub fn persisted_judgment(event: &ControlEvent) -> (r: bool)
    ensures
        r == is_persisted_judgment(*event),
{
    event.from == Phase::Judgment && event.to == Phase::Judgment && event.kind
        == EventKind::Persisted && event.cause == Cause::EvidenceSubmitted && event.evidence
        == Evidence::JudgmentRecord && event.decision == Decision::Continue
        && event.failure.is_none() && event.recovery_action.is_none() && event.affected_gate
        == Some(GateId::Judgment) && event.state_after.judgment.status == GateStatus::Pass
        && event.state_after.judgment.evidence == Evidence::JudgmentRecord
}
/// The system prompt of a judgment turn.
pub const JUDGMENT_SYSTEM_PROMPT: &'static str =
    "You are the canon agent judgment capability. Return one concise judgment.";

/// The user prompt of a judgment turn.
pub open spec fn spec_judgment_prompt(
    context: ContextRecord,
    entries: Seq<crate::capability::policy::store::PolicyEntry>,
) -> Seq<char> {
    "objective_id="@ + spec_decimal(context.objective_id as nat) + "; observation_hash="@
        + spec_decimal(context.observation_hash as nat) + "; memory_hash="@ + spec_decimal(
        context.memory_aggregate_hash as nat,
    ) + "; context_hash="@ + spec_decimal(context.context_hash as nat) + "; prior_count="@
        + spec_decimal(context.prior_count as nat) + "; policy_version="@ + spec_decimal(
        spec_turn_policy_version(entries) as nat,
    ) + "; policy_hash="@ + spec_decimal(spec_fingerprint(entries) as nat)
        + ". Produce a safe next judgment."@
}

pub fn judgment_prompt(context: &ContextRecord, policy: &PolicyStore) -> (r: String)
    ensures
        r@ == spec_judgment_prompt(*context, policy@),
{
    let latest = policy.latest_version();
    let policy_version = if latest == 0 {
        1
    } else {
        latest
    };
    let mut s = owned("objective_id=");
    push_decimal(&mut s, context.objective_id);
    push_str(&mut s, "; observation_hash=");
    push_decimal(&mut s, context.observation_hash);
    push_str(&mut s, "; memory_hash=");
    push_decimal(&mut s, context.memory_aggregate_hash);
    push_str(&mut s, "; context_hash=");
    push_decimal(&mut s, context.context_hash);
    push_str(&mut s, "; prior_count=");
    push_decimal(&mut s, context.prior_count as u64);
    push_str(&mut s, "; policy_version=");
    push_decimal(&mut s, policy_version);
    push_str(&mut s, "; policy_hash=");
    push_decimal(&mut s, policy.fingerprint());
    push_str(&mut s, ". Produce a safe next judgment.");
    assert(s@ =~= spec_judgment_prompt(*context, policy@));
    s
}

/// The verification flags a proof event can assert.
pub const PROOF_FLAG_RECEIPT_VERIFIED: u64 = 1;

pub const PROOF_FLAG_TAMPER_REJECTED: u64 = 2;

pub const PROOF_FLAG_PROVENANCE_VERIFIED: u64 = 4;

pub const PROOF_FLAG_PHASE_VERIFIED: u64 = 8;


/// Where `find_from` finds the pattern, the pattern is there.
pub proof fn lemma_find_from_found(s: Seq<char>, pat: Seq<char>, start: int, i: int)
    requires
        find_from(s, pat, start) == Some(i),
    ensures
        start <= i,
        i + pat.len() <= s.len(),
        s.subrange(i, i + pat.len()) == pat,
    decreases s.len() - start,
{
    if start >= 0 && start < s.len() && start + pat.len() <= s.len() && s.subrange(
        start,
        start + pat.len(),
    ) != pat {
        lemma_find_from_found(s, pat, start + 1, i);
    }
}

} // verus!
