//! Browser-router turn adapter: the retry policy for transient router
//! failures, the requests the router is sent, and what its responses are
//! read for (tab targets, stream completion).
use vstd::prelude::*;
use crate::capability::llm::openai::{
    IoFailureKind, OpenAiBrowserOptions, OpenAiChatRequest, OpenAiConfig, OpenAiError, OpenAiMessage,
};
use crate::capability::llm::provider_common::{json_escape, push_json_escaped, spec_json_escape};
use crate::capability::llm::transport::{parse_local_http_endpoint, spec_parse_endpoint};
use crate::codec::{chars_equal, line_bounds, split_lines, trim, trim_bounds};
use crate::text::{push_bool, spec_bool_text};
use vstd::string::StringSliceAdditionalSpecFns;
use crate::capability::llm::provider_common::{spec_split_http_response, split_http_response};
use crate::text::{chars_of, new_string, owned, push_char, push_decimal, push_str, spec_decimal, str_eq, string_from_chars};

verus! {

pub const DEFAULT_TRANSIENT_ROUTER_ATTEMPTS: u32 = 8;

pub const DEFAULT_TRANSIENT_ROUTER_BACKOFF_MS: u64 = 500;

pub const DEFAULT_TRANSIENT_ROUTER_MAX_BACKOFF_MS: u64 = 4_000;

/// How often, and how patiently, a transient router failure is retried.
#[derive(Clone, Copy, Debug, PartialEq, Eq, Structural)]
pub struct RouterRetryPolicy {
    pub attempts: u32,
    pub base_backoff_ms: u64,
    pub max_backoff_ms: u64,
}

pub open spec fn pow2(n: nat) -> nat
    decreases n,
{
    if n == 0 {
        1
    } else {
        2 * pow2((n - 1) as nat)
    }
}

proof fn lemma_pow2_le(n: nat, m: nat)
    requires
        n <= m,
    ensures
        pow2(n) <= pow2(m),
        pow2(n) >= 1,
    decreases m,
{
    if m > n {
        lemma_pow2_le(n, (m - 1) as nat);
    } else if n > 0 {
        lemma_pow2_le((n - 1) as nat, (n - 1) as nat);
    }
}

impl RouterRetryPolicy {
    /// The wait before retry number `retry_attempt` (counted from 1): the
    /// base doubled for each earlier retry, at most ten times, saturating,
    /// and capped at the maximum; no wait for a zero base or attempt.
    pub open spec fn spec_backoff_ms(self, retry_attempt: u32) -> u64 {
        if self.base_backoff_ms == 0 || retry_attempt == 0 {
            0
        } else {
            let shift: nat = if retry_attempt - 1 > 10 {
                10
            } else {
                (retry_attempt - 1) as nat
            };
            let grown = crate::kernel::spec_sat_u64(self.base_backoff_ms * pow2(shift));
            if grown <= self.max_backoff_ms {
                grown
            } else {
                self.max_backoff_ms
            }
        }
    }

    pub fn backoff_ms(self, retry_attempt: u32) -> (r: u64)
        ensures
            r == self.spec_backoff_ms(retry_attempt),
    {
        if self.base_backoff_ms == 0 || retry_attempt == 0 {
            return 0;
        }
        let shift: u32 = if retry_attempt - 1 > 10 {
            10
        } else {
            retry_attempt - 1
        };
        let mut multiplier: u64 = 1;
        let mut k: u32 = 0;
        while k < shift
            invariant
                k <= shift <= 10,
                multiplier == pow2(k as nat),
                multiplier <= 1024,
            decreases shift - k,
        {
            assert(pow2((k + 1) as nat) == 2 * pow2(k as nat));
            proof {
                lemma_pow2_le((k + 1) as nat, 10);
                reveal_with_fuel(pow2, 11);
            }
            multiplier = multiplier * 2;
            k = k + 1;
        }
        let grown = match self.base_backoff_ms.checked_mul(multiplier) {
            Some(v) => v,
            None => u64::MAX,
        };
        if grown <= self.max_backoff_ms {
            grown
        } else {
            self.max_backoff_ms
        }
    }
}

/// The policy from configured values, each falling back to its default; at
/// least one attempt.
pub fn router_retry_policy_from(
    attempts: Option<u32>,
    base_backoff_ms: Option<u64>,
    max_backoff_ms: Option<u64>,
) -> (r: RouterRetryPolicy)
    ensures
        r.attempts == ({
            let a = attempts.unwrap_or(DEFAULT_TRANSIENT_ROUTER_ATTEMPTS);
            if a < 1 {
                1
            } else {
                a
            }
        }),
        r.base_backoff_ms == base_backoff_ms.unwrap_or(DEFAULT_TRANSIENT_ROUTER_BACKOFF_MS),
        r.max_backoff_ms == max_backoff_ms.unwrap_or(DEFAULT_TRANSIENT_ROUTER_MAX_BACKOFF_MS),
{
    let a = match attempts {
        Some(a) => a,
        None => DEFAULT_TRANSIENT_ROUTER_ATTEMPTS,
    };
    RouterRetryPolicy {
        attempts: if a < 1 {
            1
        } else {
            a
        },
        base_backoff_ms: match base_backoff_ms {
            Some(b) => b,
            None => DEFAULT_TRANSIENT_ROUTER_BACKOFF_MS,
        },
        max_backoff_ms: match max_backoff_ms {
            Some(m) => m,
            None => DEFAULT_TRANSIENT_ROUTER_MAX_BACKOFF_MS,
        },
    }
}

/// After failed attempt number `attempt` (counted from 0): the next attempt
/// and the wait before it, when the failure is transient and attempts are
/// left; `None` when the failure is final.
pub open spec fn spec_router_retry_step(policy: RouterRetryPolicy, attempt: u32, transient: bool) -> Option<(u32, u64)> {
    if transient && attempt + 1 < policy.attempts {
        Some(((attempt + 1) as u32, policy.spec_backoff_ms((attempt + 1) as u32)))
    } else {
        None
    }
}

pub fn router_retry_step(policy: RouterRetryPolicy, attempt: u32, transient: bool) -> (r: Option<
    (u32, u64),
>)
    ensures
        r == spec_router_retry_step(policy, attempt, transient),
{
    if transient && (attempt as u64) + 1 < policy.attempts as u64 {
        let next = attempt + 1;
        Some((next, policy.backoff_ms(next)))
    } else {
        None
    }
}

/// How many times a retry loop driven by `spec_router_retry_step` calls its
/// operation, starting at attempt number `attempt`, when the calls fail with
/// the transient flags `failures`, in order, and the call after them
/// succeeds.
pub open spec fn retry_calls(policy: RouterRetryPolicy, attempt: u32, failures: Seq<bool>) -> nat
    decreases failures.len(),
{
    if failures.len() == 0 {
        1
    } else {
        match spec_router_retry_step(policy, attempt, failures[0]) {
            None => 1,
            Some((next, _)) => 1 + retry_calls(policy, next, failures.drop_first()),
        }
    }
}

proof fn lemma_retry_calls_from(policy: RouterRetryPolicy, attempt: u32, failures: Seq<bool>)
    requires
        attempt < policy.attempts,
    ensures
        retry_calls(policy, attempt, failures) <= policy.attempts - attempt,
        (forall|i: int| 0 <= i < failures.len() ==> #[trigger] failures[i]) ==> retry_calls(
            policy,
            attempt,
            failures,
        ) == if failures.len() + 1 <= policy.attempts - attempt {
            failures.len() + 1
        } else {
            (policy.attempts - attempt) as nat
        },
    decreases failures.len(),
{
    if failures.len() > 0 {
        if failures[0] && attempt + 1 < policy.attempts {
            let rest = failures.drop_first();
            lemma_retry_calls_from(policy, (attempt + 1) as u32, rest);
            if forall|i: int| 0 <= i < failures.len() ==> #[trigger] failures[i] {
                assert forall|i: int| 0 <= i < rest.len() implies #[trigger] rest[i] by {
                    assert(rest[i] == failures[i + 1]);
                }
            }
        }
    }
}

/// Retries stop at the attempt limit: a loop driven by the retry step calls
/// its operation at most `policy.attempts` times; a failure that is not
/// transient ends it after that one call; and transient failures are
/// retried until the call succeeds or the attempts run out.
pub proof fn lemma_router_retry_bounded(policy: RouterRetryPolicy, failures: Seq<bool>)
    requires
        policy.attempts >= 1,
    ensures
        retry_calls(policy, 0, failures) <= policy.attempts,
        failures.len() > 0 && !failures[0] ==> retry_calls(policy, 0, failures) == 1,
        (forall|i: int| 0 <= i < failures.len() ==> #[trigger] failures[i]) ==> retry_calls(
            policy,
            0,
            failures,
        ) == if failures.len() + 1 <= policy.attempts {
            failures.len() + 1
        } else {
            policy.attempts as nat
        },
{
    lemma_retry_calls_from(policy, 0, failures);
}

pub open spec fn transient_status(status: u16) -> bool {
    status == 408 || status == 409 || status == 425 || status == 429 || status == 500 || status
        == 502 || status == 503 || status == 504
}

/// An I/O failure of one of the kinds the router retries.
pub open spec fn transient_io(kind: IoFailureKind) -> bool {
    kind == IoFailureKind::WouldBlock || kind == IoFailureKind::TimedOut || kind
        == IoFailureKind::Interrupted
}

/// Whether a router failure is worth retrying: an I/O error that would
/// block, timed out or was interrupted, or one of the HTTP statuses 408,
/// 409, 425, 429, 500, 502, 503, 504.
pub fn is_transient_router_error(err: &OpenAiError) -> (r: bool)
    ensures
        match err {
            OpenAiError::HttpStatus(status) => r == transient_status(*status),
            OpenAiError::Io(failure) => r == transient_io(failure.kind),
            _ => !r,
        },
{
    match err {
        OpenAiError::Io(failure) => match failure.kind {
            IoFailureKind::WouldBlock | IoFailureKind::TimedOut | IoFailureKind::Interrupted => true,
            _ => false,
        },
        OpenAiError::HttpStatus(status) => *status == 408 || *status == 409 || *status == 425
            || *status == 429 || *status == 500 || *status == 502 || *status == 503 || *status
            == 504,
        _ => false,
    }
}

pub fn target_url_changed(previous_url: &str, next_url: &str) -> (r: bool)
    ensures
        r == (previous_url@ != next_url@),
{
    !str_eq(previous_url, next_url)
}

/// The outcome of closing a router tab.
#[derive(Clone, Copy, Debug, PartialEq, Eq, Structural)]
pub enum RouterTabCloseOutcome {
    NoTarget,
    NoCdpEndpoint,
    NoMatchingTarget,
    Closed,
    CloseHttpStatus(u16),
}

/// A tab delete answered 200 closed the tab; any other status is reported.
pub fn tab_close_outcome(status: u16) -> (r: RouterTabCloseOutcome)
    ensures
        r == if status == 200 {
            RouterTabCloseOutcome::Closed
        } else {
            RouterTabCloseOutcome::CloseHttpStatus(status)
        },
{
    if status == 200 {
        RouterTabCloseOutcome::Closed
    } else {
        RouterTabCloseOutcome::CloseHttpStatus(status)
    }
}

/// `s.trim_end_matches(c)`.
pub open spec fn trim_end_char(s: Seq<char>, c: char) -> Seq<char>
    decreases s.len(),
{
    if s.len() > 0 && s.last() == c {
        trim_end_char(s.drop_last(), c)
    } else {
        s
    }
}

/// `s.trim_start_matches(c)`.
pub open spec fn trim_start_char(s: Seq<char>, c: char) -> Seq<char>
    decreases s.len(),
{
    if s.len() > 0 && s[0] == c {
        trim_start_char(s.drop_first(), c)
    } else {
        s
    }
}

/// The router's own path for `path`: the prefix without trailing slashes
/// and without a final `/v1`, then `/`, then the path without leading
/// slashes.
pub open spec fn spec_browser_router_path(path_prefix: Seq<char>, path: Seq<char>) -> Seq<char> {
    let prefix = trim_end_char(path_prefix, '/');
    let v1 = "/v1"@;
    let router_prefix = if prefix.len() >= 3 && prefix.subrange(prefix.len() - 3, prefix.len() as int)
        == v1 {
        prefix.subrange(0, prefix.len() - 3)
    } else {
        prefix
    };
    let p = trim_start_char(path, '/');
    if router_prefix.len() == 0 {
        seq!['/'] + p
    } else {
        router_prefix + seq!['/'] + p
    }
}

pub fn browser_router_path(path_prefix: &str, path: &str) -> (r: String)
    ensures
        r@ == spec_browser_router_path(path_prefix@, path@),
{
    proof {
        reveal_strlit("/v1");
    }
    let pv = chars_of(path_prefix);
    let mut end = pv.len();
    assert(pv@.subrange(0, pv@.len() as int) =~= pv@);
    while end > 0 && pv[end - 1] == '/'
        invariant
            end <= pv@.len(),
            trim_end_char(pv@, '/') == trim_end_char(pv@.subrange(0, end as int), '/'),
        decreases end,
    {
        assert(pv@.subrange(0, end as int).drop_last() =~= pv@.subrange(0, end - 1));
        end = end - 1;
    }
    assert(pv@.subrange(0, pv@.len() as int) =~= pv@);
    let ghost prefix = pv@.subrange(0, end as int);
    assert(trim_end_char(prefix, '/') == prefix);
    let cut = if end >= 3 && pv[end - 3] == '/' && pv[end - 2] == 'v' && pv[end - 1] == '1' {
        assert(prefix.subrange(prefix.len() - 3, prefix.len() as int) =~= "/v1"@);
        end - 3
    } else {
        proof {
            if prefix.len() >= 3 && prefix.subrange(prefix.len() - 3, prefix.len() as int)
                == "/v1"@ {
                assert(prefix.subrange(prefix.len() - 3, prefix.len() as int)[0] == pv@[end - 3]);
                assert(prefix.subrange(prefix.len() - 3, prefix.len() as int)[1] == pv@[end - 2]);
                assert(prefix.subrange(prefix.len() - 3, prefix.len() as int)[2] == pv@[end - 1]);
            }
        }
        end
    };
    assert(prefix.subrange(0, cut as int) =~= pv@.subrange(0, cut as int));
    let tv = chars_of(path);
    let mut start: usize = 0;
    assert(tv@.subrange(0, tv@.len() as int) =~= tv@);
    while start < tv.len() && tv[start] == '/'
        invariant
            start <= tv@.len(),
            trim_start_char(tv@, '/') == trim_start_char(
                tv@.subrange(start as int, tv@.len() as int),
                '/',
            ),
        decreases tv@.len() - start,
    {
        assert(tv@.subrange(start as int, tv@.len() as int).drop_first() =~= tv@.subrange(
            start + 1,
            tv@.len() as int,
        ));
        start = start + 1;
    }
    let ghost p = tv@.subrange(start as int, tv@.len() as int);
    assert(trim_start_char(p, '/') == p);
    let mut out = if cut == 0 {
        new_string()
    } else {
        string_from_chars(&pv, 0, cut)
    };
    push_char(&mut out, '/');
    let rest = string_from_chars(&tv, start, tv.len());
    push_str(&mut out, rest.as_str());
    proof {
        if cut == 0 {
            assert(out@ =~= seq!['/'] + p);
        }
    }
    out
}

pub open spec fn spec_build_router_request(
    method: Seq<char>,
    host: Seq<char>,
    port: u16,
    path: Seq<char>,
) -> Seq<char> {
    method + seq![' '] + path + " HTTP/1.1\r\nHost: "@ + host + seq![':'] + spec_decimal(
        port as nat,
    ) + "\r\nAccept: application/json\r\nConnection: close\r\n\r\n"@
}

/// The HTTP/1.1 request line and headers of a router call without a body.
pub fn build_router_request(method: &str, host: &str, port: u16, path: &str) -> (r: String)
    ensures
        r@ == spec_build_router_request(method@, host@, port, path@),
{
    let mut s = owned(method);
    push_char(&mut s, ' ');
    push_str(&mut s, path);
    push_str(&mut s, " HTTP/1.1\r\nHost: ");
    push_str(&mut s, host);
    push_char(&mut s, ':');
    push_decimal(&mut s, port as u64);
    push_str(&mut s, "\r\nAccept: application/json\r\nConnection: close\r\n\r\n");
    s
}

/// The status and body of a router response; `InvalidResponse` when it has
/// no blank line after its head or no numeric status.
pub fn parse_router_response(response: &str) -> (r: Result<(u16, String), OpenAiError>)
    ensures
        match (r, spec_split_http_response(response@)) {
            (Ok((status, body)), Some((s, b))) => status == s && body@ == b,
            (Err(OpenAiError::InvalidResponse), None) => true,
            _ => false,
        },
{
    match split_http_response(response) {
        Some((status, body)) => Ok((status, body)),
        None => Err(OpenAiError::InvalidResponse),
    }
}

/// Result of a streaming turn.
pub struct RouterStreamingResult {
    pub content: String,
    pub target_url: Option<String>,
    /// true when the `done` frame and `message_stream_complete` both arrived.
    pub complete: bool,
    /// Human-readable explanation when complete is false.
    pub reason: String,
    pub finish_reason: Option<String>,
}

impl RouterStreamingResult {
    /// Whether an incomplete turn may be retried: never when a tab was
    /// already bound before it, when it stopped for length, or when it bound
    /// a tab; otherwise exactly when it is incomplete.
    pub fn retry_is_safe(&self, had_target_url_before: bool) -> (r: bool)
        ensures
            r == (!had_target_url_before && !(match self.finish_reason {
                Some(f) => f@ == "length"@,
                None => false,
            }) && self.target_url is None && !self.complete),
    {
        if had_target_url_before {
            return false;
        }
        let length = match &self.finish_reason {
            Some(f) => str_eq(f.as_str(), "length"),
            None => false,
        };
        if length {
            return false;
        }
        if self.target_url.is_some() {
            return false;
        }
        !self.complete
    }
}


/// The host, port and page id of a local DevTools page URL
/// (`http://host:port/devtools/page/<id>`), if it is one.
pub open spec fn spec_devtools_page_target(target_url: Seq<char>) -> Option<
    (Seq<char>, u16, Seq<char>),
> {
    let marker = "/devtools/page/"@;
    match spec_parse_endpoint(target_url) {
        Ok((host, port, prefix)) => if prefix.len() >= marker.len() && prefix.subrange(
            0,
            marker.len() as int,
        ) == marker {
            let id = trim_end_char(
                trim_start_char(prefix.subrange(marker.len() as int, prefix.len() as int), '/'),
                '/',
            );
            if id.len() == 0 {
                None
            } else {
                Some((host, port, id))
            }
        } else {
            None
        },
        Err(_) => None,
    }
}

pub fn devtools_page_target(target_url: &str) -> (r: Option<(String, u16, String)>)
    ensures
        match (r, spec_devtools_page_target(target_url@)) {
            (Some((h, p, id)), Some((h2, p2, id2))) => h@ == h2 && p == p2 && id@ == id2,
            (None, None) => true,
            _ => false,
        },
{
    let endpoint = match parse_local_http_endpoint(target_url) {
        Ok(e) => e,
        Err(_) => {
            return None;
        },
    };
    let v = chars_of(endpoint.path_prefix.as_str());
    let marker = "/devtools/page/";
    let m = marker.unicode_len();
    if !(v.len() >= m && crate::text::chars_start_with(&v, 0, marker)) {
        return None;
    }
    let mut lo = m;
    let mut hi = v.len();
    assert(v@.subrange(m as int, v@.len() as int) =~= v@.subrange(lo as int, hi as int));
    while lo < hi && v[lo] == '/'
        invariant
            m <= lo <= hi <= v@.len(),
            hi == v@.len(),
            trim_start_char(v@.subrange(m as int, v@.len() as int), '/') == trim_start_char(
                v@.subrange(lo as int, hi as int),
                '/',
            ),
        decreases hi - lo,
    {
        assert(v@.subrange(lo as int, hi as int).drop_first() =~= v@.subrange(lo + 1, hi as int));
        lo = lo + 1;
    }
    let ghost t = v@.subrange(lo as int, hi as int);
    assert(trim_start_char(t, '/') == t);
    while hi > lo && v[hi - 1] == '/'
        invariant
            lo <= hi <= v@.len(),
            trim_end_char(t, '/') == trim_end_char(v@.subrange(lo as int, hi as int), '/'),
        decreases hi,
    {
        assert(v@.subrange(lo as int, hi as int).drop_last() =~= v@.subrange(lo as int, hi - 1));
        hi = hi - 1;
    }
    if lo == hi {
        assert(v@.subrange(lo as int, hi as int).len() == 0);
        return None;
    }
    let id = string_from_chars(&v, lo, hi);
    Some((endpoint.host, endpoint.port, id))
}

/// What `serde_json` reads from a router's tab listing: `None` when the body
/// is not JSON or has no `targets` array; else, per target, its `id` (when
/// the target is an object whose `id` is a string) and its `url` (when a
/// string). A function of the body alone.
pub uninterp spec fn router_tab_entries(body: Seq<char>) -> Option<
    Seq<(Option<Seq<char>>, Option<Seq<char>>)>,
>;

pub open spec fn tab_entry_view(e: (Option<String>, Option<String>)) -> (
    Option<Seq<char>>,
    Option<Seq<char>>,
) {
    (
        match e.0 {
            Some(s) => Some(s@),
            None => None,
        },
        match e.1 {
            Some(s) => Some(s@),
            None => None,
        },
    )
}

/// Parses the tab listing with `serde_json::from_str::<serde_json::Value>`
/// and reads each target's `id` and `url` strings.
#[verifier::external_body]
fn read_router_tab_entries(body: &str) -> (r: Option<Vec<(Option<String>, Option<String>)>>)
    ensures
        router_tab_entries(body@) == match r {
            Some(v) => Some(Seq::new(v@.len(), |i: int| tab_entry_view(v@[i]))),
            None => None,
        },
{
    let value: serde_json::Value = serde_json::from_str(body).ok()?;
    let entries = value.get("targets")?.as_array()?;
    Some(entries.iter().map(|entry| (
        entry.as_object().and_then(|o| o.get("id")).and_then(serde_json::Value::as_str).map(str::to_owned),
        entry.as_object().and_then(|o| o.get("url")).and_then(serde_json::Value::as_str).map(str::to_owned),
    )).collect())
}

/// The id of the first listed target whose url is `target_url`.
pub open spec fn first_matching_tab(
    entries: Seq<(Option<Seq<char>>, Option<Seq<char>>)>,
    target_url: Seq<char>,
) -> Option<Seq<char>>
    decreases entries.len(),
{
    if entries.len() == 0 {
        None
    } else {
        match first_matching_tab(entries.drop_last(), target_url) {
            Some(id) => Some(id),
            None => match entries.last() {
                (Some(id), Some(url)) => if url == target_url {
                    Some(id)
                } else {
                    None
                },
                _ => None,
            },
        }
    }
}

pub fn browser_router_target_id_for_url(tabs_body: &str, target_url: &str) -> (r: Option<String>)
    ensures
        match router_tab_entries(tabs_body@) {
            Some(entries) => match (r, first_matching_tab(entries, target_url@)) {
                (Some(id), Some(id2)) => id@ == id2,
                (None, None) => true,
                _ => false,
            },
            None => r is None,
        },
{
    let entries = match read_router_tab_entries(tabs_body) {
        Some(e) => e,
        None => {
            return None;
        },
    };
    let ghost views = Seq::new(entries@.len(), |i: int| tab_entry_view(entries@[i]));
    let mut i: usize = 0;
    while i < entries.len()
        invariant
            i <= entries@.len(),
            views == Seq::new(entries@.len(), |i: int| tab_entry_view(entries@[i])),
            router_tab_entries(tabs_body@) == Some(views),
            first_matching_tab(views.take(i as int), target_url@) is None,
        decreases entries@.len() - i,
    {
        assert(views.take(i + 1).drop_last() =~= views.take(i as int));
        assert(views.take(i + 1).last() == tab_entry_view(entries@[i as int]));
        let (id, url) = &entries[i];
        let matched = match url {
            Some(u) => str_eq(u.as_str(), target_url),
            None => false,
        };
        if matched {
            match id {
                Some(found) => {
                    let out = found.clone();
                    assert(views[i as int] == (Some(found@), Some(target_url@)));
                    assert(first_matching_tab(views.take(i + 1), target_url@) == Some(found@));
                    proof {
                        lemma_first_match_prefix(views, (i + 1) as int, target_url@);
                    }
                    return Some(out);
                },
                None => {},
            }
        }
        i = i + 1;
    }
    assert(views.take(i as int) =~= views);
    None
}

proof fn lemma_first_match_prefix(
    entries: Seq<(Option<Seq<char>>, Option<Seq<char>>)>,
    n: int,
    target_url: Seq<char>,
)
    requires
        0 <= n <= entries.len(),
        first_matching_tab(entries.take(n), target_url) is Some,
    ensures
        first_matching_tab(entries, target_url) == first_matching_tab(entries.take(n), target_url),
    decreases entries.len() - n,
{
    if n < entries.len() {
        assert(entries.take(n + 1).drop_last() =~= entries.take(n));
        lemma_first_match_prefix(entries, n + 1, target_url);
    } else {
        assert(entries.take(n) =~= entries);
    }
}

/// The JSON string escape of the streaming request.
pub fn sse_json_escape(value: &str) -> (r: String)
    ensures
        r@ == spec_json_escape(value@),
{
    json_escape(value)
}

pub open spec fn spec_msg_json(role: Seq<char>, content: Option<Seq<char>>) -> Seq<char> {
    "{\"role\":\""@ + spec_json_escape(role) + seq!['"'] + match content {
        Some(c) => ",\"content\":\""@ + spec_json_escape(c) + seq!['"'],
        None => Seq::<char>::empty(),
    } + seq!['}']
}

/// Appends one message object of the streaming request.
pub fn push_msg_json(out: &mut String, role: &str, content: Option<&str>)
    ensures
        final(out)@ == old(out)@ + spec_msg_json(
            role@,
            match content {
                Some(c) => Some(c@),
                None => None,
            },
        ),
{
    let ghost start = out@;
    push_str(out, "{\"role\":\"");
    push_json_escaped(out, role);
    push_char(out, '"');
    let ghost mid = out@;
    match content {
        Some(c) => {
            push_str(out, ",\"content\":\"");
            push_json_escaped(out, c);
            push_char(out, '"');
        },
        None => {},
    }
    push_char(out, '}');
    assert(out@ =~= start + spec_msg_json(
        role@,
        match content {
            Some(c) => Some(c@),
            None => None,
        },
    ));
}

pub open spec fn message_json_parts(messages: Seq<OpenAiMessage>) -> Seq<char>
    decreases messages.len(),
{
    if messages.len() == 0 {
        Seq::empty()
    } else {
        let m = messages.last();
        let one = spec_msg_json(
            m.role@,
            match m.content {
                Some(c) => Some(c@),
                None => None,
            },
        );
        if messages.len() == 1 {
            one
        } else {
            message_json_parts(messages.drop_last()) + seq![','] + one
        }
    }
}

pub open spec fn spec_streaming_request_json(
    model: Seq<char>,
    messages: Seq<OpenAiMessage>,
    browser: OpenAiBrowserOptions,
    max_ms: u64,
    first_capture_ms: u64,
    idle_ms: u64,
) -> Seq<char> {
    "{\"model\":\""@ + spec_json_escape(model) + "\",\"messages\":["@ + message_json_parts(messages)
        + "],\"stream\":true,\"browser\":{"@ + "\"new_chat\":"@ + spec_bool_text(browser.new_chat)
        + ",\"max_ms\":"@ + spec_decimal(max_ms as nat) + ",\"first_capture_ms\":"@
        + spec_decimal(first_capture_ms as nat) + ",\"idle_ms\":"@ + spec_decimal(idle_ms as nat)
        + match browser.target_url {
        Some(u) => ",\"target_url\":\""@ + spec_json_escape(u@) + seq!['"'],
        None => Seq::<char>::empty(),
    } + "}}"@
}

/// The JSON body of a streaming turn; an empty message list is refused.
pub fn build_streaming_request_json(
    config: &OpenAiConfig,
    request: &OpenAiChatRequest,
    browser: &OpenAiBrowserOptions,
    max_ms: u64,
    first_capture_ms: u64,
    idle_ms: u64,
) -> (r: Result<String, OpenAiError>)
    ensures
        request.messages@.len() == 0 ==> (r matches Err(OpenAiError::InvalidConfig(m)) && m@
            == "empty message list"@),
        request.messages@.len() > 0 ==> (r matches Ok(json) && json@
            == spec_streaming_request_json(
            config.model@,
            request.messages@,
            *browser,
            max_ms,
            first_capture_ms,
            idle_ms,
        )),
{
    if request.messages.len() == 0 {
        return Err(OpenAiError::InvalidConfig("empty message list"));
    }
    let mut json = owned("{\"model\":\"");
    push_json_escaped(&mut json, config.model.as_str());
    push_str(&mut json, "\",\"messages\":[");
    let ghost head = json@;
    let mut idx: usize = 0;
    while idx < request.messages.len()
        invariant
            idx <= request.messages@.len(),
            json@ == head + message_json_parts(request.messages@.take(idx as int)),
        decreases request.messages@.len() - idx,
    {
        let msg = &request.messages[idx];
        assert(request.messages@.take(idx + 1).drop_last() =~= request.messages@.take(idx as int));
        assert(request.messages@.take(idx + 1).last() == *msg);
        if idx != 0 {
            push_char(&mut json, ',');
        }
        let content: Option<&str> = match &msg.content {
            Some(c) => Some(c.as_str()),
            None => None,
        };
        push_msg_json(&mut json, msg.role.as_str(), content);
        proof {
            if idx == 0 {
                assert(request.messages@.take(1).len() == 1);
            }
        }
        assert(json@ =~= head + message_json_parts(request.messages@.take(idx + 1)));
        idx = idx + 1;
    }
    assert(request.messages@.take(idx as int) =~= request.messages@);
    push_str(&mut json, "],\"stream\":true,\"browser\":{");
    push_str(&mut json, "\"new_chat\":");
    push_bool(&mut json, browser.new_chat);
    push_str(&mut json, ",\"max_ms\":");
    push_decimal(&mut json, max_ms);
    push_str(&mut json, ",\"first_capture_ms\":");
    push_decimal(&mut json, first_capture_ms);
    push_str(&mut json, ",\"idle_ms\":");
    push_decimal(&mut json, idle_ms);
    let ghost before_url = json@;
    match &browser.target_url {
        Some(url) => {
            push_str(&mut json, ",\"target_url\":\"");
            push_json_escaped(&mut json, url.as_str());
            push_char(&mut json, '"');
        },
        None => {},
    }
    push_str(&mut json, "}}");
    assert(json@ =~= spec_streaming_request_json(
        config.model@,
        request.messages@,
        *browser,
        max_ms,
        first_capture_ms,
        idle_ms,
    ));
    Ok(json)
}

pub open spec fn spec_streaming_http_request(
    path: Seq<char>,
    host: Seq<char>,
    port: u16,
    body: Seq<char>,
    body_bytes: usize,
) -> Seq<char> {
    "POST "@ + path + " HTTP/1.1\r\nHost: "@ + host + seq![':'] + spec_decimal(port as nat)
        + "\r\nContent-Type: application/json\r\nAccept: text/event-stream\r\nConnection: close\r\nContent-Length: "@
        + spec_decimal(body_bytes as nat) + "\r\n\r\n"@ + body
}

/// The POST of a streaming turn, its `Content-Length` the body's UTF-8 length.
pub fn build_streaming_http_request(path: &str, host: &str, port: u16, body: &str) -> (r: String)
    ensures
        r@ == spec_streaming_http_request(
            path@,
            host@,
            port,
            body@,
            body.spec_bytes().len() as usize,
        ),
{
    let mut s = owned("POST ");
    push_str(&mut s, path);
    push_str(&mut s, " HTTP/1.1\r\nHost: ");
    push_str(&mut s, host);
    push_char(&mut s, ':');
    push_decimal(&mut s, port as u64);
    push_str(
        &mut s,
        "\r\nContent-Type: application/json\r\nAccept: text/event-stream\r\nConnection: close\r\nContent-Length: ",
    );
    push_decimal(&mut s, body.len() as u64);
    push_str(&mut s, "\r\n\r\n");
    push_str(&mut s, body);
    s
}

/// The bytes of `data: [DONE]`.
pub open spec fn done_frame_bytes() -> Seq<u8> {
    seq![100u8, 97u8, 116u8, 97u8, 58u8, 32u8, 91u8, 68u8, 79u8, 78u8, 69u8, 93u8]
}

/// Whether the raw response holds the router's `data: [DONE]` frame anywhere.
pub fn response_bytes_have_done_frame(response: &[u8]) -> (r: bool)
    ensures
        r == exists|i: int|
            0 <= i && i + 12 <= response@.len() && #[trigger] response@.subrange(i, i + 12)
                == done_frame_bytes(),
{
    let frame: [u8; 12] = [100, 97, 116, 97, 58, 32, 91, 68, 79, 78, 69, 93];
    assert(frame@ =~= done_frame_bytes());
    if response.len() < 12 {
        return false;
    }
    let mut i: usize = 0;
    while i <= response.len() - 12
        invariant
            response@.len() >= 12,
            frame@ == done_frame_bytes(),
            i <= response@.len() - 11,
            forall|j: int|
                0 <= j < i ==> #[trigger] response@.subrange(j, j + 12) != done_frame_bytes(),
        decreases response@.len() - i,
    {
        let mut k: usize = 0;
        let mut same = true;
        while k < 12
            invariant
                k <= 12,
                i + 12 <= response@.len(),
                i + 12 <= response.len(),
                frame@ == done_frame_bytes(),
                same == forall|t: int| 0 <= t < k ==> response@[i + t] == frame@[t],
            decreases 12 - k,
        {
            if response[i + k] != frame[k] {
                same = false;
            }
            k = k + 1;
        }
        if same {
            assert(response@.subrange(i as int, i + 12) =~= done_frame_bytes());
            return true;
        }
        assert(response@.subrange(i as int, i + 12) != done_frame_bytes()) by {
            let t = choose|t: int| 0 <= t < 12 && response@[i + t] != frame@[t];
            assert(response@.subrange(i as int, i + 12)[t] == response@[i + t]);
        }
        i = i + 1;
    }
    false
}

/// Whether some line of the response, trimmed, is exactly `data: [DONE]`.
pub fn response_text_has_done_frame(response: &str) -> (r: bool)
    ensures
        r == exists|i: int|
            0 <= i < split_lines(response@).len() && trim(#[trigger] split_lines(response@)[i])
                == "data: [DONE]"@,
{
    let chars = chars_of(response);
    let bounds = line_bounds(&chars);
    let ghost lines = split_lines(chars@);
    let mut i: usize = 0;
    while i < bounds.len()
        invariant
            i <= bounds@.len(),
            bounds@.len() == lines.len(),
            lines == split_lines(response@),
            forall|k: int|
                0 <= k < bounds@.len() ==> {
                    &&& (#[trigger] bounds@[k]).0 <= bounds@[k].1 <= chars@.len()
                    &&& chars@.subrange(bounds@[k].0 as int, bounds@[k].1 as int) == lines[k]
                },
            forall|k: int| 0 <= k < i ==> trim(#[trigger] lines[k]) != "data: [DONE]"@,
        decreases bounds@.len() - i,
    {
        let (lo, hi) = bounds[i];
        let (a, b) = trim_bounds(&chars, lo, hi);
        if chars_equal(&chars, a, b, "data: [DONE]") {
            assert(trim(lines[i as int]) == "data: [DONE]"@);
            return true;
        }
        i = i + 1;
    }
    false
}

} // verus!
