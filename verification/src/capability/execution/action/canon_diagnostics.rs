//! Bounded runtime diagnostics for planner self-review: which log lines
//! count as diagnostics, how many are kept, and how secrets in them are
//! redacted before anything is reported.
use vstd::prelude::*;
use crate::codec::is_ws;
use crate::text::{chars_of, new_string, owned, push_char, push_str, string_from_chars};

verus! {

pub const CANON_DIAGNOSTICS_READ_TOOL: &'static str = "canon_diagnostics_read";

pub const DEFAULT_MAX_LINES: usize = 200;

pub const MAX_LINES_LIMIT: usize = 1_000;

pub const DEFAULT_ERROR_LIMIT: usize = 100;

pub const MAX_ERROR_LIMIT: usize = 500;

/// The code of a character after `to_ascii_lowercase`.
pub open spec fn ascii_lower_code(c: char) -> u32 {
    if 'A' <= c && c <= 'Z' {
        ((c as u32) + 32) as u32
    } else {
        c as u32
    }
}

fn lower_code(c: char) -> (r: u32)
    ensures
        r == ascii_lower_code(c),
{
    if 'A' <= c && c <= 'Z' {
        (c as u32) + 32
    } else {
        c as u32
    }
}

/// `s`, lower-cased in ASCII, holds `p` at `i`.
pub open spec fn lower_matches_at(s: Seq<char>, p: Seq<char>, i: int) -> bool {
    &&& 0 <= i
    &&& i + p.len() <= s.len()
    &&& forall|k: int| 0 <= k < p.len() ==> ascii_lower_code(#[trigger] s[i + k]) == p[k] as u32
}

/// `s.to_ascii_lowercase().contains(p)`, for a lower-case pattern `p`.
pub open spec fn lower_contains(s: Seq<char>, p: Seq<char>) -> bool {
    exists|i: int| lower_matches_at(s, p, i)
}

fn lower_matches(s: &Vec<char>, p: &Vec<char>, i: usize) -> (r: bool)
    requires
        i + p@.len() <= s@.len(),
    ensures
        r == lower_matches_at(s@, p@, i as int),
{
    let mut k: usize = 0;
    while k < p.len()
        invariant
            k <= p@.len(),
            i + p@.len() <= s@.len(),
            s@.len() == s.len(),
            forall|j: int| 0 <= j < k ==> ascii_lower_code(#[trigger] s@[i + j]) == p@[j] as u32,
        decreases p@.len() - k,
    {
        if lower_code(s[i + k]) != p[k] as u32 {
            return false;
        }
        k = k + 1;
    }
    true
}

/// Whether `s`, lower-cased in ASCII, contains the lower-case `pattern`.
pub fn contains_lower(s: &Vec<char>, pattern: &str) -> (r: bool)
    ensures
        r == lower_contains(s@, pattern@),
{
    let p = chars_of(pattern);
    if p.len() > s.len() {
        assert forall|i: int| !lower_matches_at(s@, p@, i) by {}
        return false;
    }
    let mut i: usize = 0;
    while i <= s.len() - p.len()
        invariant
            p@ == pattern@,
            p@.len() <= s@.len(),
            i <= s@.len() - p@.len() + 1,
            forall|j: int| 0 <= j < i ==> !lower_matches_at(s@, p@, j),
        decreases s@.len() - i,
    {
        if lower_matches(s, &p, i) {
            return true;
        }
        i = i + 1;
    }
    assert forall|j: int| !lower_matches_at(s@, p@, j) by {
        if 0 <= j < i {
        }
    }
    false
}

/// A log line is a diagnostic when, in lower case, it mentions an error, a
/// failure, a 5xx status, a refused connection, a temporary outage, or a
/// payload tag.
pub open spec fn spec_diagnostic_line(line: Seq<char>) -> bool {
    ||| lower_contains(line, "error"@)
    ||| lower_contains(line, "failed"@)
    ||| lower_contains(line, "failure"@)
    ||| lower_contains(line, "status=5"@)
    ||| lower_contains(line, "\"status\":5"@)
    ||| lower_contains(line, "connection refused"@)
    ||| lower_contains(line, "temporarily unavailable"@)
    ||| lower_contains(line, "payload_tag"@)
}

pub fn diagnostic_line(line: &str) -> (r: bool)
    ensures
        r == spec_diagnostic_line(line@),
        lower_contains(line@, "error"@) ==> r,
        lower_contains(line@, "failed"@) ==> r,
        lower_contains(line@, "failure"@) ==> r,
        lower_contains(line@, "status=5"@) ==> r,
        lower_contains(line@, "connection refused"@) ==> r,
        lower_contains(line@, "temporarily unavailable"@) ==> r,
{
    proof {
        lemma_failure_words_are_diagnostic(line@);
    }
    let s = chars_of(line);
    contains_lower(&s, "error") || contains_lower(&s, "failed") || contains_lower(&s, "failure")
        || contains_lower(&s, "status=5") || contains_lower(&s, "\"status\":5") || contains_lower(
        &s,
        "connection refused",
    ) || contains_lower(&s, "temporarily unavailable") || contains_lower(&s, "payload_tag")
}

/// A requested bound clamped into `1..=max`, or the default when none was
/// given.
pub open spec fn spec_bounded_usize(value: Option<u64>, default: usize, max: usize) -> usize {
    match value {
        Some(v) => {
            let n = v as usize;
            if n < 1 {
                1
            } else if n > max {
                max
            } else {
                n
            }
        },
        None => default,
    }
}

pub fn bounded_usize(value: Option<u64>, default: usize, max: usize) -> (r: usize)
    requires
        max >= 1,
    ensures
        r == spec_bounded_usize(value, default, max),
{
    match value {
        Some(v) => {
            let n = v as usize;
            if n < 1 {
                1
            } else if n > max {
                max
            } else {
                n
            }
        },
        None => default,
    }
}

/// The index of the first `c` in `s`, if any.
pub open spec fn first_index_of(s: Seq<char>, c: char) -> Option<int> {
    if exists|i: int| 0 <= i < s.len() && s[i] == c {
        Some(choose|i: int| 0 <= i < s.len() && s[i] == c && forall|j: int| 0 <= j < i ==> s[j] != c)
    } else {
        None
    }
}

fn find_char(s: &Vec<char>, c: char) -> (r: Option<usize>)
    ensures
        match r {
            Some(i) => i < s@.len() && s@[i as int] == c && forall|j: int|
                0 <= j < i ==> s@[j] != c,
            None => forall|j: int| 0 <= j < s@.len() ==> s@[j] != c,
        },
{
    let mut i: usize = 0;
    while i < s.len()
        invariant
            i <= s@.len(),
            forall|j: int| 0 <= j < i ==> s@[j] != c,
        decreases s@.len() - i,
    {
        if s[i] == c {
            return Some(i);
        }
        i = i + 1;
    }
    None
}

pub open spec fn is_ascii_graphic(c: char) -> bool {
    '!' <= c && c <= '~'
}

pub open spec fn sensitive_token(t: Seq<char>) -> bool {
    ||| lower_contains(t, "key"@)
    ||| lower_contains(t, "token"@)
    ||| lower_contains(t, "secret"@)
    ||| lower_contains(t, "authorization"@)
    ||| lower_contains(t, "password"@)
}

/// One whitespace-free token, redacted: a token that names a key, token,
/// secret, authorization or password keeps only what precedes its first
/// `=` (or else its first `:`); a token that looks like an API key (`sk-`)
/// or is a long run of visible ASCII (more than 80 characters, which for
/// ASCII are also bytes) is replaced whole.
pub open spec fn spec_redact_token(t: Seq<char>) -> Seq<char> {
    if sensitive_token(t) {
        if exists|i: int| 0 <= i < t.len() && t[i] == '=' {
            let i = choose|i: int|
                0 <= i < t.len() && t[i] == '=' && forall|j: int| 0 <= j < i ==> t[j] != '=';
            t.subrange(0, i) + "=<redacted>"@
        } else if exists|i: int| 0 <= i < t.len() && t[i] == ':' {
            let i = choose|i: int|
                0 <= i < t.len() && t[i] == ':' && forall|j: int| 0 <= j < i ==> t[j] != ':';
            t.subrange(0, i) + ":<redacted>"@
        } else {
            "<redacted>"@
        }
    } else if (t.len() >= 3 && t.subrange(0, 3) == "sk-"@) || (t.len() > 80 && forall|i: int|
        0 <= i < t.len() ==> is_ascii_graphic(#[trigger] t[i])) {
        "<redacted>"@
    } else {
        t
    }
}

proof fn lemma_first_index_unique(t: Seq<char>, c: char, i: int, k: int)
    requires
        0 <= i < t.len() && t[i] == c && forall|j: int| 0 <= j < i ==> t[j] != c,
        0 <= k < t.len() && t[k] == c && forall|j: int| 0 <= j < k ==> t[j] != c,
    ensures
        i == k,
{
    if i < k {
        assert(t[i] != c);
    } else if k < i {
        assert(t[k] != c);
    }
}

pub fn redact_token(token: &Vec<char>) -> (r: String)
    ensures
        r@ == spec_redact_token(token@),
{
    let t = token;
    let sensitive = contains_lower(t, "key") || contains_lower(t, "token") || contains_lower(
        t,
        "secret",
    ) || contains_lower(t, "authorization") || contains_lower(t, "password");
    if sensitive {
        match find_char(t, '=') {
            Some(i) => {
                let mut s = string_from_chars(t, 0, i);
                push_str(&mut s, "=<redacted>");
                proof {
                    let k = choose|k: int|
                        0 <= k < t@.len() && t@[k] == '=' && forall|j: int|
                            0 <= j < k ==> t@[j] != '=';
                    lemma_first_index_unique(t@, '=', i as int, k);
                }
                return s;
            },
            None => {},
        }
        match find_char(t, ':') {
            Some(i) => {
                let mut s = string_from_chars(t, 0, i);
                push_str(&mut s, ":<redacted>");
                proof {
                    let k = choose|k: int|
                        0 <= k < t@.len() && t@[k] == ':' && forall|j: int|
                            0 <= j < k ==> t@[j] != ':';
                    lemma_first_index_unique(t@, ':', i as int, k);
                }
                return s;
            },
            None => {},
        }
        return owned("<redacted>");
    }
    proof {
        reveal_strlit("sk-");
    }
    let api_key = t.len() >= 3 && crate::text::chars_start_with(t, 0, "sk-");
    let mut graphic = t.len() > 80;
    let mut i: usize = 0;
    while graphic && i < t.len()
        invariant
            i <= t@.len(),
            graphic ==> t@.len() > 80,
            graphic ==> forall|j: int| 0 <= j < i ==> is_ascii_graphic(#[trigger] t@[j]),
            !graphic ==> !(t@.len() > 80 && forall|j: int|
                0 <= j < t@.len() ==> is_ascii_graphic(#[trigger] t@[j])),
        decreases t@.len() - i,
    {
        if !('!' <= t[i] && t[i] <= '~') {
            graphic = false;
        }
        i = i + 1;
    }
    if api_key || graphic {
        proof {
            if !api_key {
                assert(t@.len() >= 3 && t@.subrange(0, 3) == "sk-"@ ==> api_key);
            }
        }
        owned("<redacted>")
    } else {
        let s = string_from_chars(t, 0, t.len());
        assert(t@.subrange(0, t@.len() as int) =~= t@);
        s
    }
}


/// `str::split(char::is_whitespace)`, built one character at a time.
pub open spec fn ws_split(s: Seq<char>) -> Seq<Seq<char>>
    decreases s.len(),
{
    if s.len() == 0 {
        seq![Seq::<char>::empty()]
    } else {
        let p = ws_split(s.drop_last());
        if is_ws(s.last()) {
            p.push(Seq::<char>::empty())
        } else {
            p.update(p.len() - 1, p.last().push(s.last()))
        }
    }
}

pub open spec fn nonempty_pieces(ps: Seq<Seq<char>>) -> Seq<Seq<char>>
    decreases ps.len(),
{
    if ps.len() == 0 {
        Seq::empty()
    } else if ps.last().len() > 0 {
        nonempty_pieces(ps.drop_last()).push(ps.last())
    } else {
        nonempty_pieces(ps.drop_last())
    }
}

/// `str::split_whitespace`.
pub open spec fn split_whitespace(s: Seq<char>) -> Seq<Seq<char>> {
    nonempty_pieces(ws_split(s))
}

/// The pieces joined with single spaces.
pub open spec fn join_space(ts: Seq<Seq<char>>) -> Seq<char>
    decreases ts.len(),
{
    if ts.len() == 0 {
        Seq::empty()
    } else if ts.len() == 1 {
        ts[0]
    } else {
        join_space(ts.drop_last()) + seq![' '] + ts.last()
    }
}

pub open spec fn redact_all(ts: Seq<Seq<char>>) -> Seq<Seq<char>> {
    Seq::new(ts.len(), |i: int| spec_redact_token(ts[i]))
}

/// Every whitespace-separated token redacted, joined with single spaces.
pub open spec fn spec_redact(s: Seq<char>) -> Seq<char> {
    join_space(redact_all(split_whitespace(s)))
}

fn sub_chars(v: &Vec<char>, lo: usize, hi: usize) -> (r: Vec<char>)
    requires
        lo <= hi <= v@.len(),
    ensures
        r@ == v@.subrange(lo as int, hi as int),
{
    let mut r: Vec<char> = Vec::new();
    let mut i = lo;
    while i < hi
        invariant
            lo <= i <= hi <= v@.len(),
            r@ == v@.subrange(lo as int, i as int),
        decreases hi - i,
    {
        r.push(v[i]);
        assert(r@ =~= v@.subrange(lo as int, i + 1));
        i = i + 1;
    }
    r
}

fn push_redacted_piece(
    out: &mut String,
    v: &Vec<char>,
    lo: usize,
    hi: usize,
    Ghost(done): Ghost<Seq<Seq<char>>>,
)
    requires
        lo <= hi <= v@.len(),
        old(out)@ == join_space(redact_all(nonempty_pieces(done))),
    ensures
        final(out)@ == join_space(
            redact_all(nonempty_pieces(done.push(v@.subrange(lo as int, hi as int)))),
        ),
{
    let ghost seg = v@.subrange(lo as int, hi as int);
    assert(done.push(seg).drop_last() =~= done);
    if lo < hi {
        let token = sub_chars(v, lo, hi);
        let red = redact_token(&token);
        let ghost before = nonempty_pieces(done);
        let ghost after = before.push(seg);
        assert(redact_all(after).drop_last() =~= redact_all(before));
        if out.unicode_len() != 0 {
            push_char(out, ' ');
        } else {
            proof {
                if before.len() > 0 {
                    lemma_nonempty_pieces(done);
                    assert forall|i: int| 0 <= i < redact_all(before).len() implies (
                    #[trigger] redact_all(before)[i]).len() > 0 by {
                        lemma_redact_token_nonempty(before[i]);
                    }
                    lemma_join_nonempty(redact_all(before));
                }
            }
        }
        push_str(out, red.as_str());
        proof {
            if before.len() == 0 {
                assert(redact_all(after) =~= seq![spec_redact_token(seg)]);
            }
        }
    }
}

proof fn lemma_nonempty_pieces(ps: Seq<Seq<char>>)
    ensures
        forall|i: int|
            0 <= i < nonempty_pieces(ps).len() ==> (#[trigger] nonempty_pieces(ps)[i]).len() > 0,
    decreases ps.len(),
{
    if ps.len() > 0 {
        lemma_nonempty_pieces(ps.drop_last());
        let q = nonempty_pieces(ps.drop_last());
        assert forall|i: int| 0 <= i < nonempty_pieces(ps).len() implies (
        #[trigger] nonempty_pieces(ps)[i]).len() > 0 by {
            if i < q.len() {
                assert(nonempty_pieces(ps)[i] == q[i]);
            }
        }
    }
}

proof fn lemma_redact_token_nonempty(t: Seq<char>)
    requires
        t.len() > 0,
    ensures
        spec_redact_token(t).len() > 0,
{
    reveal_strlit("=<redacted>");
    reveal_strlit(":<redacted>");
    reveal_strlit("<redacted>");
}

proof fn lemma_join_nonempty(ts: Seq<Seq<char>>)
    requires
        ts.len() > 0,
        forall|i: int| 0 <= i < ts.len() ==> (#[trigger] ts[i]).len() > 0,
    ensures
        join_space(ts).len() > 0,
    decreases ts.len(),
{
    if ts.len() > 1 {
        lemma_join_nonempty(ts.drop_last());
    }
}

/// Redacts every whitespace-separated token of `input`, joined with single
/// spaces.
pub fn redact(input: &str) -> (r: String)
    ensures
        r@ == spec_redact(input@),
{
    let chars = chars_of(input);
    let ghost s = chars@;
    let mut out = new_string();
    let mut start: usize = 0;
    let mut k: usize = 0;
    let ghost mut gp: Seq<Seq<char>> = Seq::empty();
    assert(s.subrange(0, 0) =~= Seq::<char>::empty());
    assert(s.take(0) =~= Seq::<char>::empty());
    assert(ws_split(s.take(0)) =~~= gp.push(s.subrange(0, 0)));
    while k < chars.len()
        invariant
            s == chars@,
            start <= k <= s.len(),
            ws_split(s.take(k as int)) == gp.push(s.subrange(start as int, k as int)),
            out@ == join_space(redact_all(nonempty_pieces(gp))),
        decreases s.len() - k,
    {
        assert(s.take(k + 1).drop_last() =~= s.take(k as int));
        assert(s.take(k + 1).last() == s[k as int]);
        if crate::codec::is_ws_char(chars[k]) {
            let ghost seg = s.subrange(start as int, k as int);
            push_redacted_piece(&mut out, &chars, start, k, Ghost(gp));
            proof {
                gp = gp.push(seg);
            }
            start = k + 1;
            assert(s.subrange(start as int, k + 1) =~= Seq::<char>::empty());
            assert(ws_split(s.take(k + 1)) =~~= gp.push(s.subrange(start as int, k + 1)));
        } else {
            assert(s.subrange(start as int, k + 1) =~= s.subrange(start as int, k as int).push(
                s[k as int],
            ));
            let ghost p = gp.push(s.subrange(start as int, k as int));
            assert(p.last() == s.subrange(start as int, k as int));
            assert(ws_split(s.take(k + 1)) == p.update(p.len() - 1, p.last().push(s[k as int])));
            assert(ws_split(s.take(k + 1)) =~~= gp.push(s.subrange(start as int, k + 1)));
        }
        k = k + 1;
    }
    assert(s.take(k as int) =~= s);
    push_redacted_piece(&mut out, &chars, start, k, Ghost(gp));
    out
}


pub open spec fn views_of(lines: Seq<String>) -> Seq<Seq<char>> {
    Seq::new(lines.len(), |i: int| lines[i]@)
}

pub open spec fn redact_lines(lines: Seq<Seq<char>>) -> Seq<Seq<char>> {
    Seq::new(lines.len(), |i: int| spec_redact(lines[i]))
}

/// The last `max_lines` lines (all of them when there are fewer).
pub open spec fn last_lines(lines: Seq<Seq<char>>, max_lines: usize) -> Seq<Seq<char>> {
    let start = if lines.len() > max_lines {
        lines.len() - max_lines
    } else {
        0
    };
    lines.subrange(start, lines.len() as int)
}

fn redact_range(lines: &[String], start: usize) -> (r: Vec<String>)
    requires
        start <= lines@.len(),
    ensures
        views_of(r@) == redact_lines(views_of(lines@).subrange(start as int, lines@.len() as int)),
{
    let mut out: Vec<String> = Vec::new();
    let mut i = start;
    while i < lines.len()
        invariant
            start <= i <= lines@.len(),
            views_of(out@) == redact_lines(views_of(lines@).subrange(start as int, i as int)),
        decreases lines@.len() - i,
    {
        let r = redact(lines[i].as_str());
        let ghost before = views_of(out@);
        assert(r@ == spec_redact(views_of(lines@)[i as int]));
        out.push(r);
        assert(views_of(out@) =~= before.push(r@));
        assert(views_of(lines@).subrange(start as int, i + 1) =~= views_of(lines@).subrange(
            start as int,
            i as int,
        ).push(views_of(lines@)[i as int]));
        assert(views_of(out@) =~= redact_lines(views_of(lines@).subrange(start as int, i + 1)));
        i = i + 1;
    }
    out
}

/// The last `max_lines` lines of a log, redacted.
pub fn tail_lines(lines: &[String], max_lines: usize) -> (r: Vec<String>)
    ensures
        views_of(r@) == redact_lines(last_lines(views_of(lines@), max_lines)),
{
    let start = if lines.len() > max_lines {
        lines.len() - max_lines
    } else {
        0
    };
    redact_range(lines, start)
}

pub open spec fn diagnostic_lines(lines: Seq<Seq<char>>) -> Seq<Seq<char>>
    decreases lines.len(),
{
    if lines.len() == 0 {
        Seq::empty()
    } else if spec_diagnostic_line(lines.last()) {
        diagnostic_lines(lines.drop_last()).push(lines.last())
    } else {
        diagnostic_lines(lines.drop_last())
    }
}

/// The last `max_lines` diagnostic lines of a log, redacted.
pub fn matching_tail_lines(lines: &[String], max_lines: usize) -> (r: Vec<String>)
    ensures
        views_of(r@) == redact_lines(last_lines(diagnostic_lines(views_of(lines@)), max_lines)),
{
    let ghost all = views_of(lines@);
    let mut matches: Vec<String> = Vec::new();
    let mut i: usize = 0;
    while i < lines.len()
        invariant
            i <= lines@.len(),
            all == views_of(lines@),
            views_of(matches@) == diagnostic_lines(all.take(i as int)),
        decreases lines@.len() - i,
    {
        assert(all.take(i + 1).drop_last() =~= all.take(i as int));
        assert(all.take(i + 1).last() == lines@[i as int]@);
        if diagnostic_line(lines[i].as_str()) {
            let ghost before = views_of(matches@);
            let line = lines[i].clone();
            assert(line@ == all[i as int]);
            matches.push(line);
            assert(views_of(matches@) =~= before.push(all[i as int]));
            assert(views_of(matches@) =~= diagnostic_lines(all.take(i + 1)));
        }
        i = i + 1;
    }
    assert(all.take(i as int) =~= all);
    let start = if matches.len() > max_lines {
        matches.len() - max_lines
    } else {
        0
    };
    redact_range(matches.as_slice(), start)
}

/// A line that mentions an error, a failure (`failed`, `failure`), a 5xx
/// status, a refused connection or an unavailable service, in any letter
/// case, is a diagnostic line, and the log's diagnostic lines keep it.
pub proof fn lemma_failure_words_are_diagnostic(line: Seq<char>)
    ensures
        lower_contains(line, "error"@) ==> spec_diagnostic_line(line),
        lower_contains(line, "failed"@) ==> spec_diagnostic_line(line),
        lower_contains(line, "failure"@) ==> spec_diagnostic_line(line),
        lower_contains(line, "status=5"@) ==> spec_diagnostic_line(line),
        lower_contains(line, "connection refused"@) ==> spec_diagnostic_line(line),
        lower_contains(line, "temporarily unavailable"@) ==> spec_diagnostic_line(line),
{
}

/// Every line of a log that mentions a failure, in any letter case, is
/// among the log's diagnostic lines.
pub proof fn lemma_failure_lines_kept(lines: Seq<Seq<char>>, k: int)
    requires
        0 <= k < lines.len(),
        lower_contains(lines[k], "failure"@) || lower_contains(lines[k], "failed"@)
            || lower_contains(lines[k], "error"@),
    ensures
        diagnostic_lines(lines).contains(lines[k]),
    decreases lines.len(),
{
    let d = diagnostic_lines(lines.drop_last());
    if k == lines.len() - 1 {
        assert(spec_diagnostic_line(lines.last()));
        assert(diagnostic_lines(lines) == d.push(lines.last()));
        assert(d.push(lines.last())[d.len() as int] == lines[k]);
    } else {
        assert(lines.drop_last()[k] == lines[k]);
        lemma_failure_lines_kept(lines.drop_last(), k);
        let j = choose|j: int| 0 <= j < d.len() && d[j] == lines[k];
        if spec_diagnostic_line(lines.last()) {
            assert(diagnostic_lines(lines) == d.push(lines.last()));
            assert(d.push(lines.last())[j] == lines[k]);
        } else {
            assert(diagnostic_lines(lines) == d);
        }
    }
}

} // verus!
