//! The chat-completion client's decision logic: the error taxonomy, the
//! classification of non-2xx responses, and the retry policy with
//! exponential backoff and jitter.
//!
//! The HTTP transport itself lives outside the library; it hands in the
//! status code, the response body and the `Retry-After` header, and takes
//! back a classified error and retry instructions.

use vstd::prelude::*;

use crate::chars::chars_contain;
use crate::chars::spec_contains;
use crate::chars::spec_is_whitespace;
use crate::chars::is_whitespace_char;
use crate::chars::str_to_chars;
use crate::digits::spec_decimal;
use crate::digits::u32_to_string;
use crate::digits::u64_to_string;
use crate::llm::api_types::ErrorDetail;
use vstd::arithmetic::power2::pow2;
use vstd::arithmetic::power2::lemma_pow2_strictly_increases;
use vstd::arithmetic::power2::lemma2_to64;

verus! {

/// Everything that can go wrong with one chat-completion call.
#[derive(Debug, Clone)]
pub enum LlmError {
    /// The HTTP transport failed; carries the transport's own message.
    RequestError(String),
    /// The endpoint answered with an error object that fits no finer class.
    ApiError { message: String, code: Option<String> },
    /// Status 429; the wait the endpoint asked for, in milliseconds, if any.
    RateLimited { retry_after_ms: Option<u64> },
    /// The call exceeded its own timeout, in seconds.
    Timeout(u64),
    /// The caller cancelled the request.
    Cancelled,
    /// Status 401: the credential is bad. Never retried.
    InvalidApiKey,
    /// Status 404 with a model-related message. Never retried.
    ModelNotFound(String),
    /// Status 413: the input is too large; the token count if reported.
    RequestTooLarge(u32),
    /// Status 507.
    InsufficientQuota,
    /// Status 503 or 502. Retried.
    ServiceUnavailable,
    /// A 2xx body that did not parse as a completion.
    DeserializationError(String),
}

/// The human-readable description of an error.
pub open spec fn spec_message(e: LlmError) -> Seq<char> {
    match e {
        LlmError::RequestError(m) => "HTTP request failed: "@ + m@,
        LlmError::ApiError { message, code: _ } => "API error: "@ + message@,
        LlmError::RateLimited { retry_after_ms } => match retry_after_ms {
            Some(d) => "Rate limit exceeded, retry after "@ + spec_decimal(d as nat) + "ms"@,
            None => "Rate limit exceeded, retry after unspecified delay"@,
        },
        LlmError::Timeout(secs) => "Request timeout after "@ + spec_decimal(secs as nat)
            + " seconds"@,
        LlmError::Cancelled => "Request cancelled"@,
        LlmError::InvalidApiKey => "Invalid API key"@,
        LlmError::ModelNotFound(m) => "Model not found: "@ + m@,
        LlmError::RequestTooLarge(t) => "Request too large: "@ + spec_decimal(t as nat)
            + " tokens"@,
        LlmError::InsufficientQuota => "Insufficient quota"@,
        LlmError::ServiceUnavailable => "Service unavailable"@,
        LlmError::DeserializationError(m) => "Deserialization error: "@ + m@,
    }
}

impl LlmError {
    /// The description of this error, as the failure events carry it.
    pub fn message(&self) -> (s: String)
        ensures
            s@ == spec_message(*self),
    {
        match self {
            LlmError::RequestError(m) => {
                let mut s = "HTTP request failed: ".to_owned();
                s.append(m.as_str());
                s
            },
            LlmError::ApiError { message, code: _ } => {
                let mut s = "API error: ".to_owned();
                s.append(message.as_str());
                s
            },
            LlmError::RateLimited { retry_after_ms } => match retry_after_ms {
                Some(d) => {
                    let mut s = "Rate limit exceeded, retry after ".to_owned();
                    s.append(u64_to_string(*d).as_str());
                    s.append("ms");
                    s
                },
                None => "Rate limit exceeded, retry after unspecified delay".to_owned(),
            },
            LlmError::Timeout(secs) => {
                let mut s = "Request timeout after ".to_owned();
                s.append(u64_to_string(*secs).as_str());
                s.append(" seconds");
                s
            },
            LlmError::Cancelled => "Request cancelled".to_owned(),
            LlmError::InvalidApiKey => "Invalid API key".to_owned(),
            LlmError::ModelNotFound(m) => {
                let mut s = "Model not found: ".to_owned();
                s.append(m.as_str());
                s
            },
            LlmError::RequestTooLarge(t) => {
                let mut s = "Request too large: ".to_owned();
                s.append(u32_to_string(*t).as_str());
                s.append(" tokens");
                s
            },
            LlmError::InsufficientQuota => "Insufficient quota".to_owned(),
            LlmError::ServiceUnavailable => "Service unavailable".to_owned(),
            LlmError::DeserializationError(m) => {
                let mut s = "Deserialization error: ".to_owned();
                s.append(m.as_str());
                s
            },
        }
    }
}

/// Decimal digit test.
pub open spec fn spec_is_digit(c: char) -> bool {
    '0' <= c && c <= '9'
}

/// Every character of `s` is a decimal digit.
pub open spec fn all_digits(s: Seq<char>) -> bool {
    forall|i: int| 0 <= i < s.len() ==> spec_is_digit(s[i])
}

/// The numeric value of the digits of `s`, folded onto `acc` left to right.
pub open spec fn digits_value_from(acc: nat, s: Seq<char>) -> nat
    decreases s.len(),
{
    if s.len() == 0 {
        acc
    } else {
        digits_value_from(((acc * 10 + (s[0] as int - 48)) as nat), s.drop_first())
    }
}

/// What remains of a numeral after an optional leading `+`.
pub open spec fn spec_uint_digits(s: Seq<char>) -> Seq<char> {
    if s.len() > 0 && s[0] == '+' {
        s.drop_first()
    } else {
        s
    }
}

/// What `str::parse::<u64>` accepts and returns: an optional `+`, then at
/// least one digit, valuing within the type's range.
pub open spec fn spec_parse_u64(s: Seq<char>) -> Option<u64> {
    let d = spec_uint_digits(s);
    if d.len() > 0 && all_digits(d) && digits_value_from(0, d) <= u64::MAX {
        Some(digits_value_from(0, d) as u64)
    } else {
        None
    }
}

/// What `str::parse::<u32>` accepts and returns.
pub open spec fn spec_parse_u32(s: Seq<char>) -> Option<u32> {
    let d = spec_uint_digits(s);
    if d.len() > 0 && all_digits(d) && digits_value_from(0, d) <= u32::MAX {
        Some(digits_value_from(0, d) as u32)
    } else {
        None
    }
}

proof fn lemma_digits_value_push(acc: nat, s: Seq<char>, c: char)
    ensures
        digits_value_from(acc, s.push(c)) == ((digits_value_from(acc, s) * 10 + (c as int - 48))
            as nat),
    decreases s.len(),
{
    assert(s.push(c)[0] == if s.len() == 0 {
        c
    } else {
        s[0]
    });
    if s.len() == 0 {
        assert(s.push(c).drop_first() =~= Seq::<char>::empty());
        assert(digits_value_from(acc, s.push(c)) == digits_value_from(
            ((acc * 10 + (c as int - 48)) as nat),
            Seq::<char>::empty(),
        )) by {
            reveal_with_fuel(digits_value_from, 2);
        }
    } else {
        assert(s.push(c).drop_first() =~= s.drop_first().push(c));
        lemma_digits_value_push(((acc * 10 + (s[0] as int - 48)) as nat), s.drop_first(), c);
    }
}

proof fn lemma_digits_value_ge(acc: nat, s: Seq<char>)
    requires
        all_digits(s),
    ensures
        digits_value_from(acc, s) >= acc,
    decreases s.len(),
{
    if s.len() > 0 {
        assert(spec_is_digit(s[0]));
        assert(all_digits(s.drop_first())) by {
            assert(forall|i: int|
                0 <= i < s.drop_first().len() ==> #[trigger] s.drop_first()[i] == s[i + 1]);
        }
        lemma_digits_value_ge(((acc * 10 + (s[0] as int - 48)) as nat), s.drop_first());
    }
}

proof fn lemma_digits_value_concat(acc: nat, s: Seq<char>, t: Seq<char>)
    ensures
        digits_value_from(acc, s + t) == digits_value_from(digits_value_from(acc, s), t),
    decreases s.len(),
{
    if s.len() == 0 {
        assert(s + t =~= t);
    } else {
        assert((s + t)[0] == s[0]);
        assert((s + t).drop_first() =~= s.drop_first() + t);
        lemma_digits_value_concat(((acc * 10 + (s[0] as int - 48)) as nat), s.drop_first(), t);
    }
}

/// Parse the characters `v[lo..hi]` exactly as `str::parse::<u64>` would.
pub fn parse_u64_range(v: &Vec<char>, lo: usize, hi: usize) -> (r: Option<u64>)
    requires
        lo <= hi <= v@.len(),
    ensures
        r == spec_parse_u64(v@.subrange(lo as int, hi as int)),
{
    let ghost whole = v@.subrange(lo as int, hi as int);
    let mut i: usize = lo;
    if i < hi && v[i] == '+' {
        i = i + 1;
    }
    proof {
        assert(spec_uint_digits(whole) =~= v@.subrange(i as int, hi as int));
    }
    let ghost digits = v@.subrange(i as int, hi as int);
    if i == hi {
        return None;
    }
    let mut acc: u64 = 0;
    let mut j: usize = i;
    while j < hi
        invariant
            lo <= i <= j <= hi <= v@.len(),
            digits == v@.subrange(i as int, hi as int),
            digits == spec_uint_digits(v@.subrange(lo as int, hi as int)),
            digits.len() > 0,
            all_digits(v@.subrange(i as int, j as int)),
            acc == digits_value_from(0, v@.subrange(i as int, j as int)),
        decreases hi - j,
    {
        let c: char = v[j];
        proof {
            assert(v@.subrange(i as int, j + 1 as int) =~= v@.subrange(i as int, j as int).push(c));
        }
        if !(c >= '0' && c <= '9') {
            proof {
                assert(digits[j - i] == c);
                assert(!all_digits(digits));
            }
            return None;
        }
        let d: u64 = (c as u32 - 48) as u64;
        proof {
            lemma_digits_value_push(0, v@.subrange(i as int, j as int), c);
        }
        let stepped: Option<u64> = acc.checked_mul(10);
        let next: Option<u64> = match stepped {
            Some(m) => m.checked_add(d),
            None => None,
        };
        match next {
            Some(n) => {
                acc = n;
            },
            None => {
                proof {
                    let pre = v@.subrange(i as int, j + 1 as int);
                    let rest = v@.subrange(j + 1 as int, hi as int);
                    assert(pre + rest =~= digits);
                    if all_digits(digits) {
                        assert(all_digits(pre)) by {
                            assert(forall|t: int|
                                0 <= t < pre.len() ==> pre[t] == #[trigger] digits[t]);
                        }
                        assert(all_digits(rest)) by {
                            assert(forall|t: int|
                                0 <= t < rest.len() ==> #[trigger] rest[t] == digits[t + (j + 1
                                    - i)]);
                        }
                        lemma_digits_value_concat(0, pre, rest);
                        lemma_digits_value_ge(digits_value_from(0, pre), rest);
                        assert(digits_value_from(0, digits) > u64::MAX);
                    }
                }
                return None;
            },
        }
        j = j + 1;
    }
    proof {
        assert(v@.subrange(i as int, hi as int) =~= digits);
    }
    Some(acc)
}

/// Parse the characters `v[lo..hi]` exactly as `str::parse::<u32>` would.
pub fn parse_u32_range(v: &Vec<char>, lo: usize, hi: usize) -> (r: Option<u32>)
    requires
        lo <= hi <= v@.len(),
    ensures
        r == spec_parse_u32(v@.subrange(lo as int, hi as int)),
{
    match parse_u64_range(v, lo, hi) {
        Some(n) => {
            if n <= 0xffff_ffff {
                Some(n as u32)
            } else {
                None
            }
        },
        None => {
            proof {
                let d = spec_uint_digits(v@.subrange(lo as int, hi as int));
                if d.len() > 0 && all_digits(d) {
                    assert(digits_value_from(0, d) > u64::MAX);
                }
            }
            None
        },
    }
}

/// The length of the leading run of non-whitespace characters.
pub open spec fn run_len(s: Seq<char>) -> nat
    decreases s.len(),
{
    if s.len() == 0 || spec_is_whitespace(s[0]) {
        0
    } else {
        1 + run_len(s.drop_first())
    }
}

proof fn lemma_run_len_bounds(s: Seq<char>)
    ensures
        run_len(s) <= s.len(),
        s.len() > 0 && !spec_is_whitespace(s[0]) ==> run_len(s) >= 1,
    decreases s.len(),
{
    if s.len() > 0 && !spec_is_whitespace(s[0]) {
        lemma_run_len_bounds(s.drop_first());
    }
}

/// The first whitespace-separated word of `s` that parses as a `u32`, if
/// any: how a token count is dug out of an oversize-request message.
pub open spec fn spec_first_u32_token(s: Seq<char>) -> Option<u32>
    decreases s.len(),
    when true
    via spec_first_u32_token_decreases
{
    if s.len() == 0 {
        None
    } else if spec_is_whitespace(s[0]) {
        spec_first_u32_token(s.drop_first())
    } else {
        let n = run_len(s) as int;
        match spec_parse_u32(s.subrange(0, n)) {
            Some(v) => Some(v),
            None => spec_first_u32_token(s.skip(n)),
        }
    }
}

#[via_fn]
proof fn spec_first_u32_token_decreases(s: Seq<char>) {
    lemma_run_len_bounds(s);
}

proof fn lemma_run_len_step(s: Seq<char>, p: int)
    requires
        0 <= p < s.len(),
        !spec_is_whitespace(s[p]),
    ensures
        run_len(s.skip(p)) == 1 + run_len(s.skip(p + 1)),
{
    assert(s.skip(p)[0] == s[p]);
    assert(s.skip(p).drop_first() =~= s.skip(p + 1));
}

/// Scan `v` for the first whitespace-separated word that parses as a `u32`.
pub fn first_u32_token(v: &Vec<char>) -> (r: Option<u32>)
    ensures
        r == spec_first_u32_token(v@),
{
    let n: usize = v.len();
    let mut p: usize = 0;
    proof {
        assert(v@.skip(0) =~= v@);
    }
    while p < n
        invariant
            p <= n,
            n == v@.len(),
            spec_first_u32_token(v@) == spec_first_u32_token(v@.skip(p as int)),
        decreases n - p,
    {
        if is_whitespace_char(v[p]) {
            proof {
                assert(v@.skip(p as int)[0] == v@[p as int]);
                assert(v@.skip(p as int).drop_first() =~= v@.skip(p + 1 as int));
            }
            p = p + 1;
        } else {
            let mut q: usize = p;
            while q < n && !is_whitespace_char(v[q])
                invariant
                    p <= q <= n,
                    n == v@.len(),
                    run_len(v@.skip(p as int)) == (q - p) + run_len(v@.skip(q as int)),
                decreases n - q,
            {
                proof {
                    lemma_run_len_step(v@, q as int);
                }
                q = q + 1;
            }
            proof {
                if q == n {
                    assert(v@.skip(q as int) =~= Seq::<char>::empty());
                }
                assert(run_len(v@.skip(q as int)) == 0);
                assert(run_len(v@.skip(p as int)) == q - p);
                assert(v@.skip(p as int).subrange(0, q - p) =~= v@.subrange(p as int, q as int));
            }
            let parsed: Option<u32> = parse_u32_range(v, p, q);
            match parsed {
                Some(t) => {
                    return Some(t);
                },
                None => {
                    proof {
                        assert(v@.skip(p as int).skip(q - p) =~= v@.skip(q as int));
                    }
                    p = q;
                },
            }
        }
    }
    proof {
        assert(v@.skip(n as int) =~= Seq::<char>::empty());
    }
    None
}

/// The message and code of a parsed error body, as the classification
/// reads them.
pub open spec fn detail_view(d: Option<ErrorDetail>) -> Option<(Seq<char>, Option<Seq<char>>)> {
    match d {
        Some(detail) => Some((detail.message@, opt_string_view(detail.code))),
        None => None,
    }
}

/// The view of an optional owned string.
pub open spec fn opt_string_view(o: Option<String>) -> Option<Seq<char>> {
    match o {
        Some(s) => Some(s@),
        None => None,
    }
}

/// The view of an optional borrowed string.
pub open spec fn opt_str_view(o: Option<&str>) -> Option<Seq<char>> {
    match o {
        Some(s) => Some(s@),
        None => None,
    }
}

/// The retry wait in milliseconds that a `Retry-After` header asks for:
/// the header parsed as whole seconds, scaled to milliseconds (saturating).
pub open spec fn spec_retry_after_ms(header: Option<Seq<char>>) -> Option<u64> {
    match header {
        Some(h) => match spec_parse_u64(h) {
            Some(secs) => Some(
                if secs <= u64::MAX / 1000 {
                    (secs * 1000) as u64
                } else {
                    u64::MAX
                },
            ),
            None => None,
        },
        None => None,
    }
}

/// Exactly which error each non-2xx response maps to.
///
/// `detail` is the parsed error body (message and code), `retry_after` the
/// raw `Retry-After` header, `body` the raw response body.
pub open spec fn classify_matches(
    status: u16,
    detail: Option<(Seq<char>, Option<Seq<char>>)>,
    retry_after: Option<Seq<char>>,
    body: Seq<char>,
    e: LlmError,
) -> bool {
    if status == 401 {
        e is InvalidApiKey
    } else if status == 404 {
        match detail {
            Some((m, c)) => {
                if spec_contains(m, "model"@) {
                    e matches LlmError::ModelNotFound(s) && s@ == m
                } else {
                    e matches LlmError::ApiError { message, code } && message@ == m
                        && opt_string_view(code) == c
                }
            },
            None => e matches LlmError::ApiError { message, code } && message@ == "Not found"@
                && code is None,
        }
    } else if status == 429 {
        e matches LlmError::RateLimited { retry_after_ms } && retry_after_ms
            == spec_retry_after_ms(retry_after)
    } else if status == 413 {
        match detail {
            Some((m, c)) => e matches LlmError::RequestTooLarge(t) && t == match spec_first_u32_token(
                m,
            ) {
                Some(v) => v,
                None => 0u32,
            },
            None => e matches LlmError::RequestTooLarge(t) && t == 0,
        }
    } else if status == 507 {
        e is InsufficientQuota
    } else if status == 503 || status == 502 {
        e is ServiceUnavailable
    } else {
        match detail {
            Some((m, c)) => e matches LlmError::ApiError { message, code } && message@ == m
                && opt_string_view(code) == c,
            None => e matches LlmError::ApiError { message, code } && message@ == "HTTP "@
                + spec_decimal(status as nat) + ": "@ + body && code is None,
        }
    }
}

/// Map a non-2xx response to its error, from the already-parsed error body.
pub fn classify_with_detail(
    status: u16,
    detail: Option<ErrorDetail>,
    retry_after: Option<&str>,
    body: &str,
) -> (e: LlmError)
    ensures
        classify_matches(status, detail_view(detail), opt_str_view(retry_after), body@, e),
{
    let ghost dview = detail_view(detail);
    if status == 401 {
        LlmError::InvalidApiKey
    } else if status == 404 {
        match detail {
            Some(d) => {
                let msg_chars: Vec<char> = str_to_chars(d.message.as_str());
                let needle: Vec<char> = str_to_chars("model");
                if chars_contain(&msg_chars, &needle) {
                    LlmError::ModelNotFound(d.message)
                } else {
                    LlmError::ApiError { message: d.message, code: d.code }
                }
            },
            None => LlmError::ApiError { message: "Not found".to_owned(), code: None },
        }
    } else if status == 429 {
        let retry_after_ms: Option<u64> = match retry_after {
            Some(h) => {
                let hc: Vec<char> = str_to_chars(h);
                proof {
                    assert(hc@.subrange(0, hc@.len() as int) =~= h@);
                }
                match parse_u64_range(&hc, 0, hc.len()) {
                    Some(secs) => {
                        if secs <= u64::MAX / 1000 {
                            Some(secs * 1000)
                        } else {
                            Some(u64::MAX)
                        }
                    },
                    None => None,
                }
            },
            None => None,
        };
        LlmError::RateLimited { retry_after_ms }
    } else if status == 413 {
        match detail {
            Some(d) => {
                let msg_chars: Vec<char> = str_to_chars(d.message.as_str());
                let tokens: u32 = match first_u32_token(&msg_chars) {
                    Some(v) => v,
                    None => 0,
                };
                LlmError::RequestTooLarge(tokens)
            },
            None => LlmError::RequestTooLarge(0),
        }
    } else if status == 507 {
        LlmError::InsufficientQuota
    } else if status == 503 || status == 502 {
        LlmError::ServiceUnavailable
    } else {
        match detail {
            Some(d) => LlmError::ApiError { message: d.message, code: d.code },
            None => {
                let mut m = "HTTP ".to_owned();
                m.append(u64_to_string(status as u64).as_str());
                m.append(": ");
                m.append(body);
                LlmError::ApiError { message: m, code: None }
            },
        }
    }
}

/// What the error body of a non-2xx response parses to: message, type,
/// optional param, optional code — or nothing, when the body is not that
/// shape of JSON.
pub uninterp spec fn parsed_error_of(body: Seq<char>) -> Option<
    (Seq<char>, Seq<char>, Option<Seq<char>>, Option<Seq<char>>),
>;

/// The (message, code) pair of a parsed error body.
pub open spec fn parsed_error_view(
    p: Option<(Seq<char>, Seq<char>, Option<Seq<char>>, Option<Seq<char>>)>,
) -> Option<(Seq<char>, Option<Seq<char>>)> {
    match p {
        Some(q) => Some((q.0, q.3)),
        None => None,
    }
}

/// Relies on serde_json: parsing the error envelope `{"error": {"message",
/// "type", "param"?, "code"?}}` out of a response body. The result is a
/// function of the body alone.
#[verifier::external_body]
fn parse_error_body(body: &str) -> (r: Option<ErrorDetail>)
    ensures
        r is Some <==> parsed_error_of(body@) is Some,
        r matches Some(d) ==> parsed_error_of(body@) matches Some(p) && d.message@ == p.0
            && d.error_type@ == p.1 && opt_string_view(d.param) == p.2 && opt_string_view(d.code)
            == p.3,
{
    let v: serde_json::Value = serde_json::from_str(body).ok()?;
    let err = v.get("error")?;
    let message = err.get("message")?.as_str()?.to_owned();
    let error_type = err.get("type")?.as_str()?.to_owned();
    let param = err.get("param").and_then(|p| p.as_str()).map(|s| s.to_owned());
    let code = err.get("code").and_then(|c| c.as_str()).map(|s| s.to_owned());
    Some(ErrorDetail { message, error_type, param, code })
}

/// Map a non-2xx response to its error: parse the error body, then
/// classify by status, message and headers.
pub fn classify_error_response(status: u16, body: &str, retry_after: Option<&str>) -> (e: LlmError)
    ensures
        classify_matches(
            status,
            parsed_error_view(parsed_error_of(body@)),
            opt_str_view(retry_after),
            body@,
            e,
        ),
{
    let detail = parse_error_body(body);
    let e = classify_with_detail(status, detail, retry_after, body);
    proof {
        assert(parsed_error_view(parsed_error_of(body@)) == detail_view(detail));
    }
    e
}

/// Errors worth retrying: transport failures, throttling, and unavailable
/// or timed-out service. Credential, model, size and parse errors are
/// terminal.
pub open spec fn spec_is_retryable(e: LlmError) -> bool {
    ||| e is RequestError
    ||| e is RateLimited
    ||| e is ServiceUnavailable
    ||| e is Timeout
}

/// Whether a failed attempt is retried, given how many retries happened.
pub open spec fn spec_should_retry(e: LlmError, retry_count: u32, max_retries: u32) -> bool {
    retry_count < max_retries && spec_is_retryable(e)
}

/// Relies on fastrand::u64: a random value in `0..100`, used as backoff
/// jitter. Nothing but the range is promised.
#[verifier::external_body]
fn jitter_ms() -> (r: u64)
    ensures
        r < 100,
{
    fastrand::u64(0..100)
}

/// The backoff before retry number `retry_count`: an explicit server wait
/// when the error carries one, otherwise `100ms * 2^(retry_count-1)` plus
/// the given jitter.
pub open spec fn spec_retry_delay_ms(e: LlmError, retry_count: u32, jitter: u64) -> int {
    match e {
        LlmError::RateLimited { retry_after_ms: Some(d) } => d as int,
        _ => 100 * pow2((retry_count - 1) as nat) + jitter,
    }
}

/// The configuration of the chat client that its retry decisions depend
/// on. The HTTP transport holding the live connection sits outside the
/// library and consults this.
pub struct LlmClient {
    endpoint: String,
    api_key: String,
    max_retries: u32,
    timeout_seconds: u64,
}

impl LlmClient {
    pub closed spec fn spec_endpoint(&self) -> Seq<char> {
        self.endpoint@
    }

    pub closed spec fn spec_api_key(&self) -> Seq<char> {
        self.api_key@
    }

    pub closed spec fn spec_max_retries(&self) -> u32 {
        self.max_retries
    }

    pub closed spec fn spec_timeout_seconds(&self) -> u64 {
        self.timeout_seconds
    }

    pub fn new(endpoint: &str, api_key: String, max_retries: u32, timeout_seconds: u64) -> (r:
        LlmClient)
        ensures
            r.spec_endpoint() == endpoint@,
            r.spec_api_key() == api_key@,
            r.spec_max_retries() == max_retries,
            r.spec_timeout_seconds() == timeout_seconds,
    {
        LlmClient { endpoint: endpoint.to_owned(), api_key, max_retries, timeout_seconds }
    }

    /// The configured endpoint URL.
    pub fn endpoint(&self) -> (r: &str)
        ensures
            r@ == self.spec_endpoint(),
    {
        self.endpoint.as_str()
    }

    /// The configured bearer token.
    pub fn api_key(&self) -> (r: &str)
        ensures
            r@ == self.spec_api_key(),
    {
        self.api_key.as_str()
    }

    /// The configured retry bound.
    pub fn max_retries(&self) -> (r: u32)
        ensures
            r == self.spec_max_retries(),
    {
        self.max_retries
    }

    /// The configured per-call timeout, in seconds.
    pub fn timeout_seconds(&self) -> (r: u64)
        ensures
            r == self.spec_timeout_seconds(),
    {
        self.timeout_seconds
    }

    /// Whether a failed attempt is retried: only transient errors, and only
    /// while fewer than `max_retries` retries have happened.
    pub fn should_retry(&self, error: &LlmError, retry_count: u32) -> (r: bool)
        ensures
            r == spec_should_retry(*error, retry_count, self.spec_max_retries()),
    {
        if retry_count >= self.max_retries {
            return false;
        }
        match error {
            LlmError::RequestError(_) => true,
            LlmError::RateLimited { .. } => true,
            LlmError::ServiceUnavailable => true,
            LlmError::Timeout(_) => true,
            _ => false,
        }
    }

    /// The backoff before retry number `retry_count`: the server's explicit
    /// wait when the error names one, otherwise exponential backoff from
    /// 100ms with fresh random jitter below 100ms.
    pub fn calculate_retry_delay(&self, retry_count: u32, error: &LlmError) -> (r: u64)
        requires
            1 <= retry_count <= 32,
        ensures
            exists|jitter: u64| jitter < 100 && r == spec_retry_delay_ms(*error, retry_count, jitter),
    {
        let jitter: u64 = jitter_ms();
        let r = self.retry_delay_with(retry_count, error, jitter);
        proof {
            assert(jitter < 100 && r == spec_retry_delay_ms(*error, retry_count, jitter));
        }
        r
    }

    /// The backoff before retry number `retry_count`, with the jitter given
    /// explicitly.
    pub fn retry_delay_with(&self, retry_count: u32, error: &LlmError, jitter: u64) -> (r: u64)
        requires
            1 <= retry_count <= 32,
            jitter < 100,
        ensures
            r == spec_retry_delay_ms(*error, retry_count, jitter),
    {
        match error {
            LlmError::RateLimited { retry_after_ms: Some(d) } => *d,
            _ => {
                let k: u32 = retry_count - 1;
                let mut p: u64 = 1;
                let mut i: u32 = 0;
                proof {
                    lemma2_to64();
                }
                while i < k
                    invariant
                        i <= k <= 31,
                        p == pow2(i as nat),
                        p <= 0x8000_0000,
                    decreases k - i,
                {
                    proof {
                        if (i as nat) < 31 {
                            lemma_pow2_strictly_increases(i as nat, 31);
                            lemma2_to64();
                        }
                    }
                    p = p * 2;
                    i = i + 1;
                }
                100 * p + jitter
            },
        }
    }

    /// Decide what happens after a failed attempt: `None` to give up and
    /// surface the error, or the next retry count and the backoff to sleep
    /// (interruptibly) before retrying.
    pub fn next_retry(&self, error: &LlmError, retry_count: u32) -> (r: Option<(u32, u64)>)
        requires
            self.spec_max_retries() <= 32,
        ensures
            r is Some <==> spec_should_retry(*error, retry_count, self.spec_max_retries()),
            r matches Some((c, d)) ==> c == retry_count + 1 && exists|jitter: u64|
                jitter < 100 && d == spec_retry_delay_ms(*error, c, jitter),
    {
        if !self.should_retry(error, retry_count) {
            return None;
        }
        let next_count: u32 = retry_count + 1;
        let delay: u64 = self.calculate_retry_delay(next_count, error);
        Some((next_count, delay))
    }
}

/// On `ServiceUnavailable` the client retries after every one of the first
/// `max_retries` failures and gives up on the next, so it retries exactly
/// `max_retries` times before surfacing the error; on `InvalidApiKey` it
/// never retries at all.
pub proof fn lemma_retry_policy(max_retries: u32)
    ensures
        forall|c: u32|
            c < max_retries ==> spec_should_retry(LlmError::ServiceUnavailable, c, max_retries),
        !spec_should_retry(LlmError::ServiceUnavailable, max_retries, max_retries),
        forall|c: u32| !spec_should_retry(LlmError::InvalidApiKey, c, max_retries),
{
}

} // verus!
