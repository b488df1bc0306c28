//! Shared deterministic transport rules for OpenAI-compatible providers:
//! the local endpoint grammar and the identity hashes of providers and
//! requests.
use vstd::prelude::*;
use vstd::string::StringSliceAdditionalSpecFns;
use crate::codec::{all_digits, digits_value, parse_digits, trim, trim_bounds};
use crate::kernel::{fold_mix, mix, nonzero, nz, spec_fold_mix, spec_mix};
use crate::text::{chars_of, chars_start_with, new_string, push_char, push_str, string_from_chars, str_eq};

verus! {

#[derive(Clone, Debug, PartialEq, Eq)]
pub struct LocalLlmEndpoint {
    pub host: String,
    pub port: u16,
    pub path_prefix: String,
}

#[derive(Clone, Copy, Debug, PartialEq, Eq, Structural)]
pub enum LocalEndpointError {
    InvalidUrl,
    NonLocalHost,
}

/// Index of the first `c` in `s`.
pub open spec fn first_index_of(s: Seq<char>, c: char) -> Option<int>
    decreases s.len(),
{
    if s.len() == 0 {
        None
    } else if s[0] == c {
        Some(0)
    } else {
        match first_index_of(s.drop_first(), c) {
            Some(i) => Some(i + 1),
            None => None,
        }
    }
}

/// Index of the last `c` in `s`.
pub open spec fn last_index_of(s: Seq<char>, c: char) -> Option<int>
    decreases s.len(),
{
    if s.len() == 0 {
        None
    } else if s.last() == c {
        Some(s.len() - 1)
    } else {
        last_index_of(s.drop_last(), c)
    }
}

proof fn lemma_first_index(s: Seq<char>, c: char, i: int)
    requires
        0 <= i <= s.len(),
        forall|k: int| 0 <= k < i ==> s[k] != c,
    ensures
        i < s.len() && s[i] == c ==> first_index_of(s, c) == Some(i),
        i == s.len() ==> first_index_of(s, c) is None,
    decreases i,
{
    if i > 0 {
        assert forall|k: int| 0 <= k < i - 1 implies s.drop_first()[k] != c by {
            assert(s.drop_first()[k] == s[k + 1]);
        }
        lemma_first_index(s.drop_first(), c, i - 1);
    } else if s.len() > 0 {
    }
}

proof fn lemma_last_index(s: Seq<char>, c: char, j: int)
    requires
        0 <= j <= s.len(),
        forall|k: int| j <= k < s.len() ==> s[k] != c,
    ensures
        j > 0 && s[j - 1] == c ==> last_index_of(s, c) == Some(j - 1),
        j == 0 ==> last_index_of(s, c) is None,
    decreases s.len() - j,
{
    if j < s.len() {
        assert forall|k: int| j <= k < s.len() - 1 implies s.drop_last()[k] != c by {}
        lemma_last_index(s.drop_last(), c, j);
    } else if s.len() > 0 {
        assert(s.drop_last() =~= s.take(s.len() - 1));
    }
}

/// Drops every leading `/`.
pub open spec fn strip_leading_slashes(s: Seq<char>) -> Seq<char>
    decreases s.len(),
{
    if s.len() > 0 && s[0] == '/' {
        strip_leading_slashes(s.drop_first())
    } else {
        s
    }
}

/// Drops every trailing `/`.
pub open spec fn strip_trailing_slashes(s: Seq<char>) -> Seq<char>
    decreases s.len(),
{
    if s.len() > 0 && s.last() == '/' {
        strip_trailing_slashes(s.drop_last())
    } else {
        s
    }
}

/// `u16::from_str`: optional `+`, then at least one digit, at most 65535.
pub open spec fn parse_u16_text(p: Seq<char>) -> Option<u16> {
    let r = if p.len() > 0 && p[0] == '+' {
        p.drop_first()
    } else {
        p
    };
    if r.len() > 0 && all_digits(r) && digits_value(r) <= 65535 {
        Some(digits_value(r) as u16)
    } else {
        None
    }
}

/// The local endpoint a base URL names: `http://` then `host:port`, then an
/// optional path; only `127.0.0.1` and `localhost` are local, and port zero
/// is refused.
pub open spec fn spec_parse_endpoint(base_url: Seq<char>) -> Result<
    (Seq<char>, u16, Seq<char>),
    LocalEndpointError,
> {
    let t = trim(base_url);
    if !(t.len() >= 7 && t.take(7) == "http://"@) {
        Err(LocalEndpointError::InvalidUrl)
    } else {
        let w = t.skip(7);
        let (host_port, path) = match first_index_of(w, '/') {
            Some(i) => (w.take(i), w.skip(i + 1)),
            None => (w, Seq::<char>::empty()),
        };
        match last_index_of(host_port, ':') {
            None => Err(LocalEndpointError::InvalidUrl),
            Some(j) => {
                let host = host_port.take(j);
                let port = host_port.skip(j + 1);
                if host != "127.0.0.1"@ && host != "localhost"@ {
                    Err(LocalEndpointError::NonLocalHost)
                } else {
                    match parse_u16_text(port) {
                        None => Err(LocalEndpointError::InvalidUrl),
                        Some(p) => if p == 0 {
                            Err(LocalEndpointError::InvalidUrl)
                        } else {
                            let prefix = if trim(path).len() == 0 {
                                Seq::<char>::empty()
                            } else {
                                seq!['/'] + strip_trailing_slashes(strip_leading_slashes(path))
                            };
                            Ok((host, p, prefix))
                        },
                    }
                }
            },
        }
    }
}

fn strip_slash_bounds(v: &Vec<char>, from: usize, to: usize) -> (r: (usize, usize))
    requires
        from <= to <= v@.len(),
    ensures
        from <= r.0 <= r.1 <= to,
        v@.subrange(r.0 as int, r.1 as int) == strip_trailing_slashes(
            strip_leading_slashes(v@.subrange(from as int, to as int)),
        ),
{
    let mut lo = from;
    while lo < to && v[lo] == '/'
        invariant
            from <= lo <= to <= v@.len(),
            strip_leading_slashes(v@.subrange(from as int, to as int)) == strip_leading_slashes(
                v@.subrange(lo as int, to as int),
            ),
        decreases to - lo,
    {
        assert(v@.subrange(lo as int, to as int).drop_first() =~= v@.subrange(
            lo as int + 1,
            to as int,
        ));
        lo = lo + 1;
    }
    let mut hi = to;
    while hi > lo && v[hi - 1] == '/'
        invariant
            from <= lo <= hi <= to <= v@.len(),
            strip_leading_slashes(v@.subrange(from as int, to as int)) == v@.subrange(
                lo as int,
                to as int,
            ),
            strip_trailing_slashes(v@.subrange(lo as int, to as int)) == strip_trailing_slashes(
                v@.subrange(lo as int, hi as int),
            ),
        decreases hi - lo,
    {
        assert(v@.subrange(lo as int, hi as int).drop_last() =~= v@.subrange(
            lo as int,
            hi as int - 1,
        ));
        hi = hi - 1;
    }
    (lo, hi)
}

pub(crate) fn parse_port(v: &Vec<char>, lo: usize, hi: usize) -> (r: Option<u16>)
    requires
        lo <= hi <= v@.len(),
    ensures
        r == parse_u16_text(v@.subrange(lo as int, hi as int)),
{
    let ghost p = v@.subrange(lo as int, hi as int);
    let mut start = lo;
    if start < hi && v[start] == '+' {
        start = start + 1;
    }
    assert(v@.subrange(start as int, hi as int) =~= (if p.len() > 0 && p[0] == '+' {
        p.drop_first()
    } else {
        p
    }));
    if start >= hi {
        return None;
    }
    match parse_digits(v, start, hi) {
        Some(n) => if n <= 65535 {
            Some(n as u16)
        } else {
            None
        },
        None => None,
    }
}

#[verifier::rlimit(100)]
#[verifier::spinoff_prover]
pub fn parse_local_http_endpoint(base_url: &str) -> (r: Result<LocalLlmEndpoint, LocalEndpointError>)
    ensures
        match (r, spec_parse_endpoint(base_url@)) {
            (Ok(e), Ok((host, port, prefix))) => e.host@ == host && e.port == port && e.path_prefix@
                == prefix,
            (Err(a), Err(b)) => a == b,
            _ => false,
        },
{
    let v = chars_of(base_url);
    let (lo, hi) = trim_bounds(&v, 0, v.len());
    assert(v@.subrange(0, v@.len() as int) =~= v@);
    let ghost t = v@.subrange(lo as int, hi as int);
    if !(chars_start_with(&v, lo, "http://") && hi - lo >= 7) {
        proof {
            reveal_strlit("http://");
            if t.len() >= 7 {
                assert(t.take(7) =~= v@.subrange(lo as int, lo + 7));
            }
        }
        return Err(LocalEndpointError::InvalidUrl);
    }
    proof {
        reveal_strlit("http://");
        assert(t.take(7) =~= v@.subrange(lo as int, lo + 7));
    }
    let ws = lo + 7;
    let ghost w = t.skip(7);
    assert(w =~= v@.subrange(ws as int, hi as int));
    // First '/' splits host:port from the path.
    let mut i = ws;
    while i < hi && v[i] != '/'
        invariant
            ws <= i <= hi <= v@.len(),
            w == v@.subrange(ws as int, hi as int),
            forall|k: int| 0 <= k < i - ws ==> w[k] != '/',
        decreases hi - i,
    {
        i = i + 1;
    }
    proof {
        lemma_first_index(w, '/', i - ws);
    }
    let hp_end = i;
    let path_start: usize = if i < hi {
        i + 1
    } else {
        hi
    };
    let ghost host_port = v@.subrange(ws as int, hp_end as int);
    let ghost path = v@.subrange(path_start as int, hi as int);
    assert(host_port =~= (match first_index_of(w, '/') {
        Some(i) => w.take(i),
        None => w,
    }));
    assert(path =~= (match first_index_of(w, '/') {
        Some(i) => w.skip(i + 1),
        None => Seq::<char>::empty(),
    }));
    // Last ':' splits host from port.
    let mut j = hp_end;
    while j > ws && v[j - 1] != ':'
        invariant
            ws <= j <= hp_end <= v@.len(),
            host_port == v@.subrange(ws as int, hp_end as int),
            forall|k: int| j - ws <= k < host_port.len() ==> host_port[k] != ':',
        decreases j - ws,
    {
        j = j - 1;
    }
    proof {
        lemma_last_index(host_port, ':', j - ws);
    }
    if j == ws {
        return Err(LocalEndpointError::InvalidUrl);
    }
    let colon = j - 1;
    assert(v@.subrange(ws as int, colon as int) =~= host_port.take(colon - ws));
    assert(v@.subrange(colon + 1, hp_end as int) =~= host_port.skip(colon - ws + 1));
    let host = string_from_chars(&v, ws, colon);
    if !str_eq(host.as_str(), "127.0.0.1") && !str_eq(host.as_str(), "localhost") {
        return Err(LocalEndpointError::NonLocalHost);
    }
    let port = match parse_port(&v, colon + 1, hp_end) {
        Some(p) => p,
        None => {
            return Err(LocalEndpointError::InvalidUrl);
        },
    };
    if port == 0 {
        return Err(LocalEndpointError::InvalidUrl);
    }
    let (plo, phi) = trim_bounds(&v, path_start, hi);
    let path_prefix = if plo == phi {
        new_string()
    } else {
        let (slo, shi) = strip_slash_bounds(&v, path_start, hi);
        let mut s = new_string();
        push_char(&mut s, '/');
        let rest = string_from_chars(&v, slo, shi);
        push_str(&mut s, rest.as_str());
        s
    };
    Ok(LocalLlmEndpoint { host, port, path_prefix })
}

/// The chat completions path under a path prefix.
pub open spec fn spec_chat_completions_path(prefix: Seq<char>) -> Seq<char> {
    let p = strip_trailing_slashes(prefix);
    if p.len() == 0 {
        "/v1/chat/completions"@
    } else {
        p + "/chat/completions"@
    }
}

pub fn chat_completions_path(path_prefix: &str) -> (r: String)
    ensures
        r@ == spec_chat_completions_path(path_prefix@),
{
    let v = chars_of(path_prefix);
    let mut hi = v.len();
    assert(v@.subrange(0, v@.len() as int) =~= v@);
    while hi > 0 && v[hi - 1] == '/'
        invariant
            hi <= v@.len(),
            strip_trailing_slashes(v@) == strip_trailing_slashes(v@.subrange(0, hi as int)),
        decreases hi,
    {
        assert(v@.subrange(0, hi as int).drop_last() =~= v@.subrange(0, hi as int - 1));
        hi = hi - 1;
    }
    if hi == 0 {
        return crate::text::owned("/v1/chat/completions");
    }
    let mut s = string_from_chars(&v, 0, hi);
    push_str(&mut s, "/chat/completions");
    s
}

pub open spec fn fold_bytes_mix(h: u64, bytes: Seq<u8>) -> u64
    decreases bytes.len(),
{
    if bytes.len() == 0 {
        h
    } else {
        spec_mix(fold_bytes_mix(h, bytes.drop_last()), bytes.last() as u64)
    }
}

pub open spec fn spec_provider_text_hash(bytes: Seq<u8>) -> u64 {
    nz(fold_bytes_mix(0x6c6c_6d5f_7472_616eu64, bytes))
}

/// Hash of a text, one mixing step per UTF-8 byte.
pub fn provider_text_hash(text: &str) -> (r: u64)
    ensures
        r == spec_provider_text_hash(text.spec_bytes()),
{
    let bytes = text.as_bytes();
    let mut h: u64 = 0x6c6c_6d5f_7472_616eu64;
    let mut i: usize = 0;
    while i < bytes.len()
        invariant
            i <= bytes@.len(),
            h == fold_bytes_mix(0x6c6c_6d5f_7472_616eu64, bytes@.take(i as int)),
        decreases bytes@.len() - i,
    {
        assert(bytes@.take(i as int + 1).drop_last() =~= bytes@.take(i as int));
        h = mix(h, bytes[i] as u64);
        i = i + 1;
    }
    assert(bytes@.take(i as int) =~= bytes@);
    nonzero(h)
}

pub open spec fn spec_provider_config_hash(provider: Seq<u8>, base_url: Seq<u8>, model: Seq<u8>) -> u64 {
    let h = spec_mix(0x6c6c_6d5f_636f_6e66u64, spec_provider_text_hash(provider));
    let h = spec_mix(h, spec_provider_text_hash(base_url));
    let h = spec_mix(h, spec_provider_text_hash(model));
    nz(h)
}

/// Identity of a provider configuration.
pub fn provider_config_hash(provider: &str, base_url: &str, model: &str) -> (r: u64)
    ensures
        r == spec_provider_config_hash(provider.spec_bytes(), base_url.spec_bytes(), model.spec_bytes()),
{
    let mut h = mix(0x6c6c_6d5f_636f_6e66u64, provider_text_hash(provider));
    h = mix(h, provider_text_hash(base_url));
    h = mix(h, provider_text_hash(model));
    nonzero(h)
}

/// Identity of a retry policy.
pub fn retry_policy_hash(seed: u64, timeout_ms: u64, max_retries: u32, attempt_budget: u32) -> (r: u64)
    ensures
        r == nz(spec_fold_mix(seed, seq![timeout_ms, max_retries as u64, attempt_budget as u64])),
{
    let fields = [timeout_ms, max_retries as u64, attempt_budget as u64];
    assert(fields@ =~= seq![timeout_ms, max_retries as u64, attempt_budget as u64]);
    nonzero(fold_mix(seed, &fields))
}

/// Identity of one request to one provider and model.
pub fn request_identity_hash(
    seed: u64,
    provider_hash: u64,
    base_url_hash: u64,
    model_id: u64,
    request_hash: u64,
) -> (r: u64)
    ensures
        r == nz(spec_fold_mix(seed, seq![provider_hash, base_url_hash, model_id, request_hash])),
{
    let fields = [provider_hash, base_url_hash, model_id, request_hash];
    assert(fields@ =~= seq![provider_hash, base_url_hash, model_id, request_hash]);
    nonzero(fold_mix(seed, &fields))
}

} // verus!
