//! The local HTTP API: request targets, query parameters, percent-decoding,
//! the routing of a request to what the server does, and the JSON envelopes
//! of its answers.

use vstd::prelude::*;
use vstd::utf8::{
    char_is_scalar, char_u32_cast, decode_utf8, encode_scalar, encode_utf8, encode_utf8_decode_utf8, encode_utf8_valid_utf8,
    valid_utf8,
};
use crate::error::AppError;
use crate::json::{
    entry, json_get, obj_model, object, str_entry, u64_entry, Json, JsonValue, Num,
};
use crate::text::{
    chars_of, ends_with_lit, eq_lit, find_char, find_char_pos, free_of, lemma_find_char,
    lemma_find_char_after, lemma_find_char_none,
    parse_uint, split_on, starts_with_lit, string_of, sub_vec, uint_of,
};

verus! {

// ---------------------------------------------------------------------------
// Request target and query string
// ---------------------------------------------------------------------------

/// The path of a request target: what comes before the first `?`.
pub open spec fn path_part(url: Seq<char>) -> Seq<char> {
    match find_char(url, '?') {
        Some(i) => url.take(i),
        None => url,
    }
}

/// The query of a request target: what comes after the first `?`, or nothing.
pub open spec fn query_part(url: Seq<char>) -> Seq<char> {
    match find_char(url, '?') {
        Some(i) => url.skip(i + 1),
        None => Seq::empty(),
    }
}

/// Splits a request target at its first `?` into path and query.
pub fn split_query(url: &str) -> (r: (String, String))
    ensures
        r.0@ == path_part(url@),
        r.1@ == query_part(url@),
{
    let u = chars_of(url);
    proof {
        lemma_find_char(url@, '?');
    }
    match find_char_pos(u.as_slice(), '?') {
        Some(i) => {
            let p = sub_vec(u.as_slice(), 0, i);
            let q = sub_vec(u.as_slice(), i + 1, u.len());
            (string_of(p.as_slice()), string_of(q.as_slice()))
        },
        None => (string_of(u.as_slice()), String::new()),
    }
}

/// The value of the pair `p` (`key=value`, split at its first `=`) when its
/// key is `key`.
pub open spec fn pair_value(p: Seq<char>, key: Seq<char>) -> Option<Seq<char>> {
    match find_char(p, '=') {
        Some(j) => if p.take(j) == key {
            Some(p.skip(j + 1))
        } else {
            None
        },
        None => None,
    }
}

/// The value of the first pair of `ps` whose key is `key`.
pub open spec fn first_value(ps: Seq<Seq<char>>, key: Seq<char>) -> Option<Seq<char>>
    decreases ps.len(),
{
    if ps.len() == 0 {
        None
    } else {
        match pair_value(ps[0], key) {
            Some(v) => Some(v),
            None => first_value(ps.drop_first(), key),
        }
    }
}

/// The still encoded value of parameter `key` in a query string: the value
/// of the first `&`-separated pair with that key.
pub open spec fn raw_param(query: Seq<char>, key: Seq<char>) -> Option<Seq<char>> {
    first_value(split_on(query, '&'), key)
}

/// The decoded value of parameter `key` in a query string.
pub open spec fn param(query: Seq<char>, key: Seq<char>) -> Option<Seq<char>> {
    match raw_param(query, key) {
        Some(v) => Some(percent_decoded(v)),
        None => None,
    }
}

proof fn lemma_first_value_step(p: Seq<char>, rest: Seq<Seq<char>>, key: Seq<char>)
    ensures
        first_value(seq![p] + rest, key) == match pair_value(p, key) {
            Some(v) => Some(v),
            None => first_value(rest, key),
        },
{
    assert((seq![p] + rest).drop_first() =~= rest);
    assert((seq![p] + rest)[0] == p);
}

fn pair_value_of(p: &[char], key: &[char]) -> (r: Option<Vec<char>>)
    ensures
        r matches Some(v) ==> pair_value(p@, key@) == Some(v@),
        r is None ==> pair_value(p@, key@) is None,
{
    proof {
        lemma_find_char(p@, '=');
    }
    match find_char_pos(p, '=') {
        Some(j) => {
            let n = p.len();
            assert(j < n);
            let k = sub_vec(p, 0, j);
            if crate::text::eq_chars(k.as_slice(), key) {
                Some(sub_vec(p, j + 1, n))
            } else {
                None
            }
        },
        None => None,
    }
}

/// The still encoded value of parameter `key` in a query string.
pub fn raw_query_value(query: &[char], key: &[char]) -> (r: Option<Vec<char>>)
    ensures
        r matches Some(v) ==> raw_param(query@, key@) == Some(v@),
        r is None ==> raw_param(query@, key@) is None,
{
    let mut rest: Vec<char> = sub_vec(query, 0, query.len());
    assert(query@.subrange(0, query@.len() as int) =~= query@);
    loop
        invariant
            raw_param(query@, key@) == first_value(split_on(rest@, '&'), key@),
        decreases rest.len(),
    {
        proof {
            lemma_find_char(rest@, '&');
        }
        match find_char_pos(rest.as_slice(), '&') {
            Some(i) => {
                let pair = sub_vec(rest.as_slice(), 0, i);
                proof {
                    lemma_first_value_step(
                        rest@.take(i as int),
                        split_on(rest@.skip(i + 1), '&'),
                        key@,
                    );
                }
                match pair_value_of(pair.as_slice(), key) {
                    Some(v) => {
                        return Some(v);
                    },
                    None => {},
                }
                let next = sub_vec(rest.as_slice(), i + 1, rest.len());
                rest = next;
            },
            None => {
                proof {
                    assert(split_on(rest@, '&') == seq![rest@]);
                    lemma_first_value_step(rest@, Seq::empty(), key@);
                    assert(seq![rest@] + Seq::<Seq<char>>::empty() =~= seq![rest@]);
                }
                return pair_value_of(rest.as_slice(), key);
            },
        }
    }
}

/// The decoded value of parameter `key` in a query string (the first pair
/// with that key; a pair without `=` has no value).
pub fn qparam(query: &str, key: &str) -> (r: Option<String>)
    ensures
        r matches Some(v) ==> param(query@, key@) == Some(v@),
        r is None ==> param(query@, key@) is None,
{
    let q = chars_of(query);
    let k = chars_of(key);
    match raw_query_value(q.as_slice(), k.as_slice()) {
        Some(v) => {
            let s = string_of(v.as_slice());
            Some(percent_decode(s.as_str()))
        },
        None => None,
    }
}

// ---------------------------------------------------------------------------
// Percent-decoding
// ---------------------------------------------------------------------------

/// The value of an ASCII hex digit.
pub open spec fn hex_digit(b: u8) -> Option<u8> {
    if 48 <= b && b <= 57 {
        Some((b - 48) as u8)
    } else if 97 <= b && b <= 102 {
        Some((b - 87) as u8)
    } else if 65 <= b && b <= 70 {
        Some((b - 55) as u8)
    } else {
        None
    }
}

/// The byte that the two bytes `a b` after a `%` stand for, as
/// `u8::from_str_radix(.., 16)` reads them: two hex digits, or a `+` sign
/// and one hex digit.
pub open spec fn hex_pair(a: u8, b: u8) -> Option<u8> {
    match (hex_digit(a), hex_digit(b)) {
        (Some(x), Some(y)) => Some((16 * x + y) as u8),
        (None, Some(y)) => if a == 43 {
            Some(y)
        } else {
            None
        },
        _ => None,
    }
}

/// Percent-decoding of bytes: `%` followed by two more bytes that read as a
/// hex byte stands for that byte, `+` stands for a space, and every other
/// byte stands for itself.
pub open spec fn pct_decode(b: Seq<u8>) -> Seq<u8>
    decreases b.len(),
{
    if b.len() == 0 {
        Seq::empty()
    } else if b[0] == 37 && 2 < b.len() && hex_pair(b[1], b[2]) is Some {
        seq![hex_pair(b[1], b[2])->0] + pct_decode(b.skip(3))
    } else if b[0] == 43 {
        seq![32u8] + pct_decode(b.skip(1))
    } else {
        seq![b[0]] + pct_decode(b.skip(1))
    }
}

/// What `String::from_utf8_lossy` makes of a byte string.
pub uninterp spec fn utf8_lossy(b: Seq<u8>) -> Seq<char>;

/// `String::from_utf8_lossy`, made owned: the bytes read as UTF-8, each
/// invalid sequence replaced by U+FFFD. Claimed: the result is `utf8_lossy`
/// of the bytes, and bytes that are valid UTF-8 are decoded as they are.
#[verifier::external_body]
fn lossy_string(b: &[u8]) -> (s: String)
    ensures
        s@ == utf8_lossy(b@),
        valid_utf8(b@) ==> s@ == decode_utf8(b@),
{
    String::from_utf8_lossy(b).into_owned()
}

/// The text that percent-decoding `s` gives.
pub open spec fn percent_decoded(s: Seq<char>) -> Seq<char> {
    utf8_lossy(pct_decode(encode_utf8(s)))
}

fn hex_digit_of(b: u8) -> (r: Option<u8>)
    ensures
        r == hex_digit(b),
{
    if 48 <= b && b <= 57 {
        Some(b - 48)
    } else if 97 <= b && b <= 102 {
        Some(b - 87)
    } else if 65 <= b && b <= 70 {
        Some(b - 55)
    } else {
        None
    }
}

fn hex_pair_of(a: u8, b: u8) -> (r: Option<u8>)
    ensures
        r == hex_pair(a, b),
{
    match (hex_digit_of(a), hex_digit_of(b)) {
        (Some(x), Some(y)) => Some(16 * x + y),
        (None, Some(y)) => if a == 43 {
            Some(y)
        } else {
            None
        },
        _ => None,
    }
}

/// Percent-decodes a byte string.
pub fn percent_decode_bytes(b: &[u8]) -> (r: Vec<u8>)
    ensures
        r@ == pct_decode(b@),
{
    let mut out: Vec<u8> = Vec::new();
    let mut i: usize = 0;
    assert(b@.skip(0) =~= b@);
    while i < b.len()
        invariant
            0 <= i <= b.len(),
            pct_decode(b@) == out@ + pct_decode(b@.skip(i as int)),
        decreases b.len() - i,
    {
        let ghost rest = b@.skip(i as int);
        let c = b[i];
        if c == 37 && b.len() - i > 2 && hex_pair_of(b[i + 1], b[i + 2]).is_some() {
            let v = hex_pair_of(b[i + 1], b[i + 2]).unwrap();
            proof {
                assert(rest[0] == c && rest[1] == b@[i + 1] && rest[2] == b@[i + 2]);
                assert(rest.skip(3) =~= b@.skip(i + 3));
                assert(out@.push(v) + pct_decode(b@.skip(i + 3)) =~= out@ + (seq![v]
                    + pct_decode(rest.skip(3))));
            }
            out.push(v);
            i += 3;
        } else {
            let d: u8 = if c == 43 {
                32
            } else {
                c
            };
            proof {
                assert(rest[0] == c);
                if c == 37 && i + 2 < b.len() {
                    assert(rest[1] == b@[i + 1] && rest[2] == b@[i + 2]);
                }
                assert(rest.skip(1) =~= b@.skip(i + 1));
                assert(out@.push(d) + pct_decode(b@.skip(i + 1)) =~= out@ + (seq![d]
                    + pct_decode(rest.skip(1))));
            }
            out.push(d);
            i += 1;
        }
    }
    assert(pct_decode(b@.skip(i as int)) =~= Seq::<u8>::empty());
    assert(out@ + Seq::<u8>::empty() =~= out@);
    out
}

/// No `%` and no `+` in `s`.
pub open spec fn no_escapes(s: Seq<char>) -> bool {
    forall|i: int| 0 <= i < s.len() ==> s[i] != '%' && s[i] != '+'
}

proof fn lemma_pct_decode_plain(b: Seq<u8>)
    requires
        forall|i: int| 0 <= i < b.len() ==> b[i] != 37 && b[i] != 43,
    ensures
        pct_decode(b) == b,
    decreases b.len(),
{
    if b.len() > 0 {
        assert(b[0] != 37 && b[0] != 43);
        let t = b.skip(1);
        assert forall|i: int| 0 <= i < t.len() implies t[i] != 37 && t[i] != 43 by {
            assert(t[i] == b[i + 1]);
        }
        lemma_pct_decode_plain(t);
        assert(seq![b[0]] + t =~= b);
    }
}

proof fn lemma_scalar_bytes(v: u32)
    by (bit_vector)
    ensures
        v <= 0x7F ==> ((v & 0x7F) as u8) == v,
        (0xC0u8 | ((v >> 6) & 0x1F) as u8) >= 0x80,
        (0xE0u8 | ((v >> 12) & 0x0F) as u8) >= 0x80,
        (0xF0u8 | ((v >> 18) & 0x7) as u8) >= 0x80,
        (0x80u8 | (v & 0x3F) as u8) >= 0x80,
        (0x80u8 | ((v >> 6) & 0x3F) as u8) >= 0x80,
        (0x80u8 | ((v >> 12) & 0x3F) as u8) >= 0x80,
{
}

proof fn lemma_encode_plain(s: Seq<char>)
    requires
        no_escapes(s),
    ensures
        forall|i: int|
            0 <= i < encode_utf8(s).len() ==> encode_utf8(s)[i] != 37 && encode_utf8(s)[i] != 43,
    decreases s.len(),
{
    if s.len() > 0 {
        let c = s[0];
        let v = c as u32;
        let h = encode_scalar(v);
        let t = s.drop_first();
        assert(no_escapes(t)) by {
            assert forall|i: int| 0 <= i < t.len() implies t[i] != '%' && t[i] != '+' by {
                assert(t[i] == s[i + 1]);
            }
        }
        lemma_encode_plain(t);
        lemma_scalar_bytes(v);
        assert(c != '%' && c != '+');
        char_is_scalar(c);
        char_u32_cast(c, v);
        assert(v != 37 && v != 43) by {
            assert((37u32 as char) == '%');
            assert((43u32 as char) == '+');
        }
        assert forall|i: int| 0 <= i < h.len() implies h[i] != 37 && h[i] != 43 by {}
        let e = encode_utf8(s);
        assert(e == h + encode_utf8(t));
        assert forall|i: int| 0 <= i < e.len() implies e[i] != 37 && e[i] != 43 by {
            if i < h.len() {
                assert(e[i] == h[i]);
            } else {
                assert(e[i] == encode_utf8(t)[i - h.len()]);
            }
        }
    }
}

/// Percent-decodes a query value: `%XX` escapes and `+` for a space, then the
/// bytes read as UTF-8 with invalid sequences replaced. A text with no `%`
/// and no `+` comes back unchanged.
pub fn percent_decode(s: &str) -> (r: String)
    ensures
        r@ == percent_decoded(s@),
        valid_utf8(pct_decode(encode_utf8(s@))) ==> r@ == decode_utf8(pct_decode(encode_utf8(s@))),
        no_escapes(s@) ==> r@ == s@,
{
    let out = percent_decode_bytes(s.as_bytes());
    proof {
        if no_escapes(s@) {
            lemma_encode_plain(s@);
            lemma_pct_decode_plain(encode_utf8(s@));
            encode_utf8_valid_utf8(s@);
            encode_utf8_decode_utf8(s@);
        }
    }
    lossy_string(out.as_slice())
}

// ---------------------------------------------------------------------------
// Routing
// ---------------------------------------------------------------------------

/// The request methods that the server tells apart.
#[derive(PartialEq, Eq, Structural, Clone, Copy, Debug)]
pub enum HttpMethod {
    Get,
    Post,
    Options,
    Other,
}

/// The static files of the workstation.
#[derive(PartialEq, Eq, Structural, Clone, Copy, Debug)]
pub enum Asset {
    Index,
    Css,
    Js,
    Icon,
}

/// What the server does with a request.
#[derive(Debug)]
pub enum Route {
    /// Serve a static file.
    Asset(Asset),
    /// Answer `/v1/health`.
    Health,
    /// Answer `/v1/capabilities`.
    Capabilities,
    /// Invoke a method with parameters.
    Dispatch(String, JsonValue),
    /// Read the body and invoke what it names.
    Invoke,
    /// Open the event stream.
    Events,
    /// Answer a CORS preflight.
    Preflight,
    /// A stock path without `{market}/{symbol}` (400).
    BadStockPath,
    /// Nothing at this path (404).
    NotFound(String),
}

/// A route as a mathematical value.
pub enum RouteModel {
    Asset(Asset),
    Health,
    Capabilities,
    Dispatch(Seq<char>, Json),
    Invoke,
    Events,
    Preflight,
    BadStockPath,
    NotFound(Seq<char>),
}

impl View for Route {
    type V = RouteModel;

    open spec fn view(&self) -> RouteModel {
        match self {
            Route::Asset(a) => RouteModel::Asset(*a),
            Route::Health => RouteModel::Health,
            Route::Capabilities => RouteModel::Capabilities,
            Route::Dispatch(m, p) => RouteModel::Dispatch(m@, p@),
            Route::Invoke => RouteModel::Invoke,
            Route::Events => RouteModel::Events,
            Route::Preflight => RouteModel::Preflight,
            Route::BadStockPath => RouteModel::BadStockPath,
            Route::NotFound(p) => RouteModel::NotFound(p@),
        }
    }
}

pub open spec fn starts_with(s: Seq<char>, p: Seq<char>) -> bool {
    s.len() >= p.len() && s.subrange(0, p.len() as int) == p
}

pub open spec fn ends_with(s: Seq<char>, p: Seq<char>) -> bool {
    s.len() >= p.len() && s.subrange(s.len() - p.len(), s.len() as int) == p
}

/// `s` with every leading repetition of a non-empty `p` removed
/// (`str::trim_start_matches`).
pub open spec fn strip_prefix_all(s: Seq<char>, p: Seq<char>) -> Seq<char>
    decreases s.len(),
{
    if p.len() > 0 && starts_with(s, p) {
        strip_prefix_all(s.skip(p.len() as int), p)
    } else {
        s
    }
}

/// The last position of `c` in `s`, if any.
pub open spec fn rfind_char(s: Seq<char>, c: char) -> Option<int>
    decreases s.len(),
{
    if s.len() == 0 {
        None
    } else if s.last() == c {
        Some(s.len() - 1)
    } else {
        rfind_char(s.drop_last(), c)
    }
}

/// The decoded value of `key`, or `dflt` where the query has none.
pub open spec fn param_or(q: Seq<char>, key: Seq<char>, dflt: Seq<char>) -> Seq<char> {
    match param(q, key) {
        Some(v) => v,
        None => dflt,
    }
}

/// The value of `key` read as a `u64`, or `dflt` where it is absent or is
/// not a `u64`.
pub open spec fn u64_param_or(q: Seq<char>, key: Seq<char>, dflt: u64) -> u64 {
    match param(q, key) {
        Some(v) => match uint_of(v, 0xffff_ffff_ffff_ffff) {
            Some(n) => n as u64,
            None => dflt,
        },
        None => dflt,
    }
}

/// The parameters of `stock.list` that `GET /v1/quotes` passes on.
pub open spec fn quotes_params(q: Seq<char>) -> Json {
    Json::Obj(
        seq![
            ("board"@, Json::Str(param_or(q, "board"@, "ALL"@))),
            ("query"@, Json::Str(match param(q, "q"@) {
                Some(v) => v,
                None => param_or(q, "query"@, Seq::empty()),
            })),
            ("sort"@, Json::Str(param_or(q, "sort"@, "symbol"@))),
            ("limit"@, Json::Num(Num::PosInt(u64_param_or(q, "limit"@, 200)))),
            ("offset"@, Json::Num(Num::PosInt(u64_param_or(q, "offset"@, 0)))),
        ],
    )
}

/// The route of `GET /v1/stocks/{market}/{symbol}[/bars]`.
pub open spec fn stock_route(path: Seq<char>, q: Seq<char>) -> RouteModel {
    let rest = strip_prefix_all(path, "/v1/stocks/"@);
    let bars = ends_with(rest, "/bars"@);
    let target = if bars {
        rest.subrange(0, rest.len() - "/bars"@.len())
    } else {
        rest
    };
    match rfind_char(target, '/') {
        None => RouteModel::BadStockPath,
        Some(k) => {
            let market = target.take(k);
            let symbol = target.skip(k + 1);
            if bars {
                RouteModel::Dispatch(
                    "stock.bars"@,
                    Json::Obj(
                        seq![
                            ("market"@, Json::Str(market)),
                            ("symbol"@, Json::Str(symbol)),
                            ("timeframe"@, Json::Str(param_or(q, "timeframe"@, "1d"@))),
                            ("from"@, Json::Str(param_or(q, "from"@, Seq::empty()))),
                            ("to"@, Json::Str(param_or(q, "to"@, Seq::empty()))),
                            ("limit"@, Json::Num(Num::PosInt(u64_param_or(q, "limit"@, 500)))),
                        ],
                    ),
                )
            } else {
                RouteModel::Dispatch(
                    "stock.show"@,
                    Json::Obj(
                        seq![("market"@, Json::Str(market)), ("symbol"@, Json::Str(symbol))],
                    ),
                )
            }
        },
    }
}

/// What the server does with a request with method `m` and target `url`.
pub open spec fn route_of(m: HttpMethod, url: Seq<char>) -> RouteModel {
    let path = path_part(url);
    let q = query_part(url);
    if m == HttpMethod::Get {
        if path == "/"@ || path == "/index.html"@ {
            RouteModel::Asset(Asset::Index)
        } else if path == "/app.css"@ {
            RouteModel::Asset(Asset::Css)
        } else if path == "/app.js"@ {
            RouteModel::Asset(Asset::Js)
        } else if path == "/favicon.ico"@ || path == "/GetRich.ico"@ {
            RouteModel::Asset(Asset::Icon)
        } else if path == "/v1/health"@ {
            RouteModel::Health
        } else if path == "/v1/capabilities"@ {
            RouteModel::Capabilities
        } else if path == "/v1/stats"@ {
            RouteModel::Dispatch("store.stats"@, Json::Obj(Seq::empty()))
        } else if path == "/v1/quotes"@ {
            RouteModel::Dispatch("stock.list"@, quotes_params(q))
        } else if starts_with(path, "/v1/stocks/"@) {
            stock_route(path, q)
        } else if path == "/v1/events"@ {
            RouteModel::Events
        } else {
            RouteModel::NotFound(path)
        }
    } else if m == HttpMethod::Post && path == "/v1/invoke"@ {
        RouteModel::Invoke
    } else if m == HttpMethod::Options {
        RouteModel::Preflight
    } else {
        RouteModel::NotFound(path)
    }
}

fn qparam_or(query: &str, key: &str, dflt: &str) -> (r: String)
    ensures
        r@ == param_or(query@, key@, dflt@),
{
    match qparam(query, key) {
        Some(v) => v,
        None => String::from_str(dflt),
    }
}

fn qparam_u64_or(query: &str, key: &str, dflt: u64) -> (r: u64)
    ensures
        r == u64_param_or(query@, key@, dflt),
{
    match qparam(query, key) {
        Some(v) => {
            let c = chars_of(v.as_str());
            match parse_uint(c.as_slice(), 0xffff_ffff_ffff_ffffu64) {
                Some(n) => n,
                None => dflt,
            }
        },
        None => dflt,
    }
}

fn quotes_route(query: &str) -> (r: JsonValue)
    ensures
        r@ == quotes_params(query@),
{
    proof {
        reveal_strlit("");
    }
    let board = qparam_or(query, "board", "ALL");
    let text = match qparam(query, "q") {
        Some(v) => v,
        None => qparam_or(query, "query", ""),
    };
    let sort = qparam_or(query, "sort", "symbol");
    let limit = qparam_u64_or(query, "limit", 200);
    let offset = qparam_u64_or(query, "offset", 0);
    let mut e: Vec<(String, JsonValue)> = Vec::new();
    e.push(str_entry("board", board));
    e.push(str_entry("query", text));
    e.push(str_entry("sort", sort));
    e.push(u64_entry("limit", limit));
    e.push(u64_entry("offset", offset));
    assert(board@ == param_or(query@, "board"@, "ALL"@));
    assert(sort@ == param_or(query@, "sort"@, "symbol"@));
    assert(limit == u64_param_or(query@, "limit"@, 200));
    assert(offset == u64_param_or(query@, "offset"@, 0));
    assert(text@ == match param(query@, "q"@) {
        Some(v) => v,
        None => param_or(query@, "query"@, Seq::empty()),
    });
    let ghost es = e@;
    let r = object(e);
    assert(quotes_params(query@)->Obj_0 =~= obj_model(es));
    r
}

fn strip_prefix_all_of(s: &[char], p: &str) -> (r: Vec<char>)
    ensures
        r@ == strip_prefix_all(s@, p@),
{
    let pc = chars_of(p);
    let mut rest = sub_vec(s, 0, s.len());
    assert(s@.subrange(0, s@.len() as int) =~= s@);
    if pc.len() == 0 {
        return rest;
    }
    while starts_with_lit(rest.as_slice(), p)
        invariant
            pc@ == p@,
            pc@.len() > 0,
            strip_prefix_all(s@, p@) == strip_prefix_all(rest@, p@),
        decreases rest.len(),
    {
        let next = sub_vec(rest.as_slice(), pc.len(), rest.len());
        rest = next;
    }
    rest
}

fn rfind_char_pos(s: &[char], c: char) -> (r: Option<usize>)
    ensures
        r matches Some(k) ==> rfind_char(s@, c) == Some(k as int),
        r is None ==> rfind_char(s@, c) is None,
{
    let mut n: usize = s.len();
    assert(s@.subrange(0, n as int) =~= s@);
    while n > 0
        invariant
            0 <= n <= s.len(),
            rfind_char(s@, c) == rfind_char(s@.subrange(0, n as int), c),
        decreases n,
    {
        if s[n - 1] == c {
            return Some(n - 1);
        }
        assert(s@.subrange(0, n as int).drop_last() =~= s@.subrange(0, n - 1));
        n -= 1;
    }
    None
}

proof fn lemma_rfind_char(s: Seq<char>, c: char)
    ensures
        rfind_char(s, c) matches Some(k) ==> 0 <= k < s.len(),
    decreases s.len(),
{
    if s.len() > 0 && s.last() != c {
        lemma_rfind_char(s.drop_last(), c);
    }
}

fn stock_route_of(path: &[char], query: &str) -> (r: Route)
    ensures
        r@ == stock_route(path@, query@),
{
    let rest = strip_prefix_all_of(path, "/v1/stocks/");
    let bars = ends_with_lit(rest.as_slice(), "/bars");
    proof {
        reveal_strlit("/bars");
    }
    let target = if bars {
        sub_vec(rest.as_slice(), 0, rest.len() - 5)
    } else {
        sub_vec(rest.as_slice(), 0, rest.len())
    };
    assert(rest@.subrange(0, rest@.len() as int) =~= rest@);
    proof {
        lemma_rfind_char(target@, '/');
    }
    match rfind_char_pos(target.as_slice(), '/') {
        None => Route::BadStockPath,
        Some(k) => {
            let market = string_of(sub_vec(target.as_slice(), 0, k).as_slice());
            let symbol = string_of(sub_vec(target.as_slice(), k + 1, target.len()).as_slice());
            if bars {
                proof {
                    reveal_strlit("");
                }
                let tf = qparam_or(query, "timeframe", "1d");
                let from = qparam_or(query, "from", "");
                let to = qparam_or(query, "to", "");
                let limit = qparam_u64_or(query, "limit", 500);
                let mut e: Vec<(String, JsonValue)> = Vec::new();
                e.push(str_entry("market", market));
                e.push(str_entry("symbol", symbol));
                e.push(str_entry("timeframe", tf));
                e.push(str_entry("from", from));
                e.push(str_entry("to", to));
                e.push(u64_entry("limit", limit));
                let ghost es = e@;
                let params = object(e);
                assert(obj_model(es) =~= seq![
                    ("market"@, Json::Str(market@)),
                    ("symbol"@, Json::Str(symbol@)),
                    ("timeframe"@, Json::Str(tf@)),
                    ("from"@, Json::Str(from@)),
                    ("to"@, Json::Str(to@)),
                    ("limit"@, Json::Num(Num::PosInt(limit))),
                ]);
                let r = Route::Dispatch(String::from_str("stock.bars"), params);
                assert(tf@ == param_or(query@, "timeframe"@, "1d"@));
                assert(from@ == param_or(query@, "from"@, Seq::empty()));
                assert(to@ == param_or(query@, "to"@, Seq::empty()));
                assert(limit == u64_param_or(query@, "limit"@, 500));
                assert(stock_route(path@, query@)->Dispatch_1->Obj_0 =~= obj_model(es));
                assert(r@ == stock_route(path@, query@));
                r
            } else {
                let mut e: Vec<(String, JsonValue)> = Vec::new();
                e.push(str_entry("market", market));
                e.push(str_entry("symbol", symbol));
                let ghost es = e@;
                let params = object(e);
                assert(obj_model(es) =~= seq![
                    ("market"@, Json::Str(market@)),
                    ("symbol"@, Json::Str(symbol@)),
                ]);
                let r = Route::Dispatch(String::from_str("stock.show"), params);
                assert(stock_route(path@, query@)->Dispatch_1->Obj_0 =~= obj_model(es));
                assert(r@ == stock_route(path@, query@));
                r
            }
        },
    }
}

/// Decides what the server does with a request.
pub fn route(method: HttpMethod, url: &str) -> (r: Route)
    ensures
        r@ == route_of(method, url@),
{
    let (path, query) = split_query(url);
    let p = chars_of(path.as_str());
    let ps = p.as_slice();
    if method == HttpMethod::Get {
        if eq_lit(ps, "/") || eq_lit(ps, "/index.html") {
            Route::Asset(Asset::Index)
        } else if eq_lit(ps, "/app.css") {
            Route::Asset(Asset::Css)
        } else if eq_lit(ps, "/app.js") {
            Route::Asset(Asset::Js)
        } else if eq_lit(ps, "/favicon.ico") || eq_lit(ps, "/GetRich.ico") {
            Route::Asset(Asset::Icon)
        } else if eq_lit(ps, "/v1/health") {
            Route::Health
        } else if eq_lit(ps, "/v1/capabilities") {
            Route::Capabilities
        } else if eq_lit(ps, "/v1/stats") {
            let params = object(Vec::new());
            assert(obj_model_empty(params@));
            Route::Dispatch(String::from_str("store.stats"), params)
        } else if eq_lit(ps, "/v1/quotes") {
            Route::Dispatch(String::from_str("stock.list"), quotes_route(query.as_str()))
        } else if starts_with_lit(ps, "/v1/stocks/") {
            stock_route_of(ps, query.as_str())
        } else if eq_lit(ps, "/v1/events") {
            Route::Events
        } else {
            Route::NotFound(path)
        }
    } else if method == HttpMethod::Post && eq_lit(ps, "/v1/invoke") {
        Route::Invoke
    } else if method == HttpMethod::Options {
        Route::Preflight
    } else {
        Route::NotFound(path)
    }
}

spec fn obj_model_empty(v: Json) -> bool {
    v == Json::Obj(Seq::empty())
}

// ---------------------------------------------------------------------------
// Invoke requests and answers
// ---------------------------------------------------------------------------

/// What a `POST /v1/invoke` body asks for: the method and its parameters
/// (an empty object where it gives none), or the message of a 400 answer.
/// A body that carries an `_error` string is answered with that string.
pub open spec fn invoke_target(body: Json) -> Result<(Seq<char>, Json), Seq<char>> {
    match json_get(body, "_error"@) {
        Some(Json::Str(m)) => Err(m),
        _ => match json_get(body, "method"@) {
            Some(Json::Str(m)) => Ok(
                (
                    m,
                    match json_get(body, "params"@) {
                        Some(p) => p,
                        None => Json::Obj(Seq::empty()),
                    },
                ),
            ),
            _ => Err("missing method"@),
        },
    }
}

/// Reads the method and parameters out of a `POST /v1/invoke` body.
pub fn invoke_body(body: &JsonValue) -> (r: Result<(String, JsonValue), String>)
    ensures
        match (r, invoke_target(body@)) {
            (Ok((m, p)), Ok((m2, p2))) => m@ == m2 && p@ == p2,
            (Err(e), Err(e2)) => e@ == e2,
            _ => false,
        },
{
    match body.get("_error") {
        Some(JsonValue::Str(m)) => {
            return Err(m.clone());
        },
        _ => {},
    }
    let method = match body.get("method") {
        Some(JsonValue::Str(m)) => m.clone(),
        _ => {
            return Err(String::from_str("missing method"));
        },
    };
    let params = match body.get("params") {
        Some(p) => p.copy(),
        None => object(Vec::new()),
    };
    Ok((method, params))
}

/// The HTTP status of a failed invocation: 404 for what was not found,
/// 400 for anything else.
pub fn error_status(e: &AppError) -> (r: u16)
    ensures
        r == if e is NotFound {
            404u16
        } else {
            400u16
        },
{
    match e {
        AppError::NotFound(_) => 404,
        _ => 400,
    }
}

/// The envelope of a successful answer.
pub open spec fn ok_envelope(cmd: Seq<char>, ts: Seq<char>, data: Json) -> Json {
    Json::Obj(
        seq![
            ("ok"@, Json::Bool(true)),
            ("cmd"@, Json::Str(cmd)),
            ("ts"@, Json::Str(ts)),
            ("data"@, data),
        ],
    )
}

/// `{"code": .., "message": ..}`.
pub open spec fn error_body(code: Seq<char>, message: Seq<char>) -> Json {
    Json::Obj(seq![("code"@, Json::Str(code)), ("message"@, Json::Str(message))])
}

/// The envelope of a failed answer.
pub open spec fn err_envelope(cmd: Seq<char>, ts: Seq<char>, code: Seq<char>, message: Seq<char>) -> Json {
    Json::Obj(
        seq![
            ("ok"@, Json::Bool(false)),
            ("cmd"@, Json::Str(cmd)),
            ("ts"@, Json::Str(ts)),
            ("error"@, error_body(code, message)),
        ],
    )
}

/// `{"ok": true, "cmd": .., "ts": .., "data": ..}`.
pub fn envelope_ok(cmd: &str, ts: &str, data: JsonValue) -> (r: JsonValue)
    ensures
        r@ == ok_envelope(cmd@, ts@, data@),
{
    let mut e: Vec<(String, JsonValue)> = Vec::new();
    e.push(entry("ok", JsonValue::Bool(true)));
    e.push(str_entry("cmd", String::from_str(cmd)));
    e.push(str_entry("ts", String::from_str(ts)));
    e.push(entry("data", data));
    let ghost es = e@;
    let ghost d = data@;
    let r = object(e);
    assert(obj_model(es) =~= seq![
        ("ok"@, Json::Bool(true)),
        ("cmd"@, Json::Str(cmd@)),
        ("ts"@, Json::Str(ts@)),
        ("data"@, d),
    ]);
    r
}

/// `{"ok": false, "cmd": .., "ts": .., "error": {"code": .., "message": ..}}`.
pub fn envelope_err_code(cmd: &str, ts: &str, code: &str, message: &str) -> (r: JsonValue)
    ensures
        r@ == err_envelope(cmd@, ts@, code@, message@),
{
    let mut inner: Vec<(String, JsonValue)> = Vec::new();
    inner.push(str_entry("code", String::from_str(code)));
    inner.push(str_entry("message", String::from_str(message)));
    let ghost is = inner@;
    let err = object(inner);
    assert(obj_model(is) =~= seq![("code"@, Json::Str(code@)), ("message"@, Json::Str(message@))]);
    let mut e: Vec<(String, JsonValue)> = Vec::new();
    e.push(entry("ok", JsonValue::Bool(false)));
    e.push(str_entry("cmd", String::from_str(cmd)));
    e.push(str_entry("ts", String::from_str(ts)));
    e.push(entry("error", err));
    let ghost es = e@;
    let ghost ev = err@;
    let r = object(e);
    assert(obj_model(es) =~= seq![
        ("ok"@, Json::Bool(false)),
        ("cmd"@, Json::Str(cmd@)),
        ("ts"@, Json::Str(ts@)),
        ("error"@, ev),
    ]);
    r
}

/// A failed answer with the code `ERROR`.
pub fn envelope_err(cmd: &str, ts: &str, message: &str) -> (r: JsonValue)
    ensures
        r@ == err_envelope(cmd@, ts@, "ERROR"@, message@),
{
    envelope_err_code(cmd, ts, "ERROR", message)
}

proof fn lemma_rfind_last(a: Seq<char>, b: Seq<char>, c: char)
    requires
        free_of(b, c),
    ensures
        rfind_char(a + seq![c] + b, c) == Some(a.len() as int),
    decreases b.len(),
{
    let s = a + seq![c] + b;
    if b.len() == 0 {
        assert(s.last() == c);
    } else {
        assert(s.last() == b.last());
        assert(s.drop_last() =~= a + seq![c] + b.drop_last());
        lemma_rfind_last(a, b.drop_last(), c);
    }
}

/// `GET /v1/stocks/{market}/{symbol}` asks for `stock.show` of that market
/// and symbol, for every market and symbol free of `/` and `?` (a symbol
/// `bars` makes the path a bars path instead).
pub proof fn law_stock_show_route(market: Seq<char>, symbol: Seq<char>)
    requires
        free_of(market, '/'),
        free_of(market, '?'),
        free_of(symbol, '/'),
        free_of(symbol, '?'),
        symbol != "bars"@,
    ensures
        route_of(HttpMethod::Get, "/v1/stocks/"@ + market + "/"@ + symbol) == RouteModel::Dispatch(
            "stock.show"@,
            Json::Obj(seq![("market"@, Json::Str(market)), ("symbol"@, Json::Str(symbol))]),
        ),
{
    reveal_strlit("/v1/stocks/");
    reveal_strlit("/");
    reveal_strlit("/bars");
    reveal_strlit("/index.html");
    reveal_strlit("/app.css");
    reveal_strlit("/app.js");
    reveal_strlit("/favicon.ico");
    reveal_strlit("/GetRich.ico");
    reveal_strlit("/v1/health");
    reveal_strlit("/v1/capabilities");
    reveal_strlit("/v1/stats");
    reveal_strlit("/v1/quotes");
    let pre = "/v1/stocks/"@;
    let rest = market + "/"@ + symbol;
    let url = pre + rest;
    assert(url =~= "/v1/stocks/"@ + market + "/"@ + symbol);
    // no query
    assert(free_of(url, '?')) by {
        assert forall|i: int| 0 <= i < url.len() implies url[i] != '?' by {
            if i < 11 {
                assert(url[i] == pre[i]);
            } else if i < 11 + market.len() {
                assert(url[i] == market[i - 11]);
            } else if i == 11 + market.len() {
                assert(url[i] == '/');
            } else {
                assert(url[i] == symbol[i - 12 - market.len()]);
            }
        }
    }
    lemma_find_char_none(url, '?');
    assert(path_part(url) == url);
    // the prefix is there once
    assert(starts_with(url, pre)) by {
        assert(url.subrange(0, 11) =~= pre);
    }
    assert(url.skip(11) =~= rest);
    assert(!starts_with(rest, pre)) by {
        if starts_with(rest, pre) {
            assert(rest.subrange(0, 11)[0] == '/');
            assert(rest.subrange(0, 11)[3] == '/');
            if market.len() > 0 {
                assert(rest[0] == market[0]);
            } else {
                assert(rest[3] == symbol[2]);
            }
        }
    }
    assert(strip_prefix_all(rest, pre) == rest);
    assert(strip_prefix_all(url, pre) == rest);
    // not a bars path
    assert(!ends_with(rest, "/bars"@)) by {
        if ends_with(rest, "/bars"@) {
            let w = rest.subrange(rest.len() - 5, rest.len() as int);
            assert(w[0] == '/');
            let k = rest.len() - 5;
            if k > market.len() {
                assert(rest[k] == symbol[k - market.len() - 1]);
            } else if k == market.len() {
                assert(symbol =~= w.subrange(1, 5));
                assert("/bars"@.subrange(1, 5) =~= "bars"@) by {
                    reveal_strlit("bars");
                }
            } else {
                assert(rest[k] == market[k]);
            }
        }
    }
    // the last '/' separates market and symbol
    lemma_rfind_last(market, symbol, '/');
    assert(market + seq!['/'] + symbol =~= rest);
    assert(rest.take(market.len() as int) =~= market);
    assert(rest.skip(market.len() as int + 1) =~= symbol);
    assert(url != "/"@ && url != "/index.html"@ && url != "/app.css"@ && url != "/app.js"@);
    assert(url != "/favicon.ico"@ && url != "/GetRich.ico"@ && url != "/v1/health"@);
    assert(url != "/v1/capabilities"@ && url != "/v1/stats"@) by {
        assert(url[1] == 'v' && url[4] == 's');
        assert(url.len() >= 12);
    }
    assert(url != "/v1/quotes"@) by {
        assert(url[4] == 's');
    }
}

proof fn lemma_no_param(key: Seq<char>)
    ensures
        param(Seq::<char>::empty(), key) is None,
{
    let e = Seq::<char>::empty();
    lemma_find_char_none(e, '&');
    assert(split_on(e, '&') == seq![e]);
    lemma_find_char_none(e, '=');
    lemma_first_value_step(e, Seq::empty(), key);
    assert(seq![e] + Seq::<Seq<char>>::empty() =~= seq![e]);
}

/// The path `/v1/stocks/{market}/{symbol}/bars` is none of the fixed paths,
/// and routes, whatever the query, to `stock.bars` of that market and symbol
/// with the query's timeframe, range and limit.
proof fn lemma_stock_bars_path(market: Seq<char>, symbol: Seq<char>, q: Seq<char>)
    requires
        free_of(market, '/'),
        free_of(market, '?'),
        free_of(symbol, '/'),
        free_of(symbol, '?'),
    ensures
        free_of("/v1/stocks/"@ + market + "/"@ + symbol + "/bars"@, '?'),
        ({
            let url = "/v1/stocks/"@ + market + "/"@ + symbol + "/bars"@;
            &&& url != "/"@ && url != "/index.html"@ && url != "/app.css"@ && url != "/app.js"@
            &&& url != "/favicon.ico"@ && url != "/GetRich.ico"@ && url != "/v1/health"@
            &&& url != "/v1/capabilities"@ && url != "/v1/stats"@ && url != "/v1/quotes"@
            &&& starts_with(url, "/v1/stocks/"@)
            &&& stock_route(url, q) == RouteModel::Dispatch(
                "stock.bars"@,
                Json::Obj(
                    seq![
                        ("market"@, Json::Str(market)),
                        ("symbol"@, Json::Str(symbol)),
                        ("timeframe"@, Json::Str(param_or(q, "timeframe"@, "1d"@))),
                        ("from"@, Json::Str(param_or(q, "from"@, Seq::empty()))),
                        ("to"@, Json::Str(param_or(q, "to"@, Seq::empty()))),
                        ("limit"@, Json::Num(Num::PosInt(u64_param_or(q, "limit"@, 500)))),
                    ],
                ),
            )
        }),
{
    reveal_strlit("/v1/stocks/");
    reveal_strlit("/");
    reveal_strlit("/bars");
    reveal_strlit("/index.html");
    reveal_strlit("/app.css");
    reveal_strlit("/app.js");
    reveal_strlit("/favicon.ico");
    reveal_strlit("/GetRich.ico");
    reveal_strlit("/v1/health");
    reveal_strlit("/v1/capabilities");
    reveal_strlit("/v1/stats");
    reveal_strlit("/v1/quotes");
    let pre = "/v1/stocks/"@;
    let target = market + "/"@ + symbol;
    let rest = target + "/bars"@;
    let url = pre + rest;
    assert(url =~= "/v1/stocks/"@ + market + "/"@ + symbol + "/bars"@);
    assert(free_of(url, '?')) by {
        assert forall|i: int| 0 <= i < url.len() implies url[i] != '?' by {
            let m = market.len() as int;
            let n = symbol.len() as int;
            if i < 11 {
                assert(url[i] == pre[i]);
            } else if i < 11 + m {
                assert(url[i] == market[i - 11]);
            } else if i == 11 + m {
                assert(url[i] == '/');
            } else if i < 12 + m + n {
                assert(url[i] == symbol[i - 12 - m]);
            } else {
                assert(url[i] == "/bars"@[i - 12 - m - n]);
            }
        }
    }
    assert(starts_with(url, pre)) by {
        assert(url.subrange(0, 11) =~= pre);
    }
    assert(url.skip(11) =~= rest);
    assert(!starts_with(rest, pre)) by {
        if starts_with(rest, pre) {
            assert(rest.subrange(0, 11)[0] == '/');
            assert(rest.subrange(0, 11)[3] == '/');
            if market.len() > 0 {
                assert(rest[0] == market[0]);
            } else if symbol.len() > 2 {
                assert(rest[3] == symbol[2]);
            } else {
                assert(rest.len() < 11);
            }
        }
    }
    assert(strip_prefix_all(rest, pre) == rest);
    assert(strip_prefix_all(url, pre) == rest);
    assert(ends_with(rest, "/bars"@)) by {
        assert(rest.subrange(rest.len() - 5, rest.len() as int) =~= "/bars"@);
    }
    assert(rest.subrange(0, rest.len() - "/bars"@.len()) =~= target);
    lemma_rfind_last(market, symbol, '/');
    assert(market + seq!['/'] + symbol =~= target);
    assert(target.take(market.len() as int) =~= market);
    assert(target.skip(market.len() as int + 1) =~= symbol);
    assert(url != "/"@ && url != "/index.html"@ && url != "/app.css"@ && url != "/app.js"@);
    assert(url != "/favicon.ico"@ && url != "/GetRich.ico"@ && url != "/v1/health"@);
    assert(url != "/v1/capabilities"@ && url != "/v1/stats"@) by {
        assert(url[1] == 'v' && url[4] == 's');
        assert(url.len() >= 17);
    }
    assert(url != "/v1/quotes"@) by {
        assert(url[4] == 's');
    }
}

/// `GET /v1/stocks/{market}/{symbol}/bars` without a query asks for
/// `stock.bars` of that market and symbol with the default timeframe (`1d`),
/// no range and 500 bars, for every market and symbol free of `/` and `?`.
pub proof fn law_stock_bars_route(market: Seq<char>, symbol: Seq<char>)
    requires
        free_of(market, '/'),
        free_of(market, '?'),
        free_of(symbol, '/'),
        free_of(symbol, '?'),
    ensures
        route_of(HttpMethod::Get, "/v1/stocks/"@ + market + "/"@ + symbol + "/bars"@)
            == RouteModel::Dispatch(
            "stock.bars"@,
            Json::Obj(
                seq![
                    ("market"@, Json::Str(market)),
                    ("symbol"@, Json::Str(symbol)),
                    ("timeframe"@, Json::Str("1d"@)),
                    ("from"@, Json::Str(Seq::empty())),
                    ("to"@, Json::Str(Seq::empty())),
                    ("limit"@, Json::Num(Num::PosInt(500))),
                ],
            ),
        ),
{
    let url = "/v1/stocks/"@ + market + "/"@ + symbol + "/bars"@;
    lemma_stock_bars_path(market, symbol, Seq::empty());
    lemma_find_char_none(url, '?');
    assert(path_part(url) == url);
    assert(query_part(url) == Seq::<char>::empty());
    lemma_no_param("timeframe"@);
    lemma_no_param("from"@);
    lemma_no_param("to"@);
    lemma_no_param("limit"@);
}

/// `GET /v1/stocks/{market}/{symbol}/bars?{query}` asks for `stock.bars` of
/// that market and symbol, passing on each parameter of the query under its
/// own name: the timeframe (`1d` where absent), the range start `from` and
/// end `to` (empty where absent), and the limit (500 where absent or not a
/// number).
pub proof fn law_stock_bars_query(market: Seq<char>, symbol: Seq<char>, q: Seq<char>)
    requires
        free_of(market, '/'),
        free_of(market, '?'),
        free_of(symbol, '/'),
        free_of(symbol, '?'),
    ensures
        route_of(HttpMethod::Get, "/v1/stocks/"@ + market + "/"@ + symbol + "/bars?"@ + q)
            == RouteModel::Dispatch(
            "stock.bars"@,
            Json::Obj(
                seq![
                    ("market"@, Json::Str(market)),
                    ("symbol"@, Json::Str(symbol)),
                    ("timeframe"@, Json::Str(param_or(q, "timeframe"@, "1d"@))),
                    ("from"@, Json::Str(param_or(q, "from"@, Seq::empty()))),
                    ("to"@, Json::Str(param_or(q, "to"@, Seq::empty()))),
                    ("limit"@, Json::Num(Num::PosInt(u64_param_or(q, "limit"@, 500)))),
                ],
            ),
        ),
{
    reveal_strlit("/bars?");
    reveal_strlit("/bars");
    let base = "/v1/stocks/"@ + market + "/"@ + symbol + "/bars"@;
    let url = "/v1/stocks/"@ + market + "/"@ + symbol + "/bars?"@ + q;
    lemma_stock_bars_path(market, symbol, q);
    assert(url =~= base + (seq!['?'] + q));
    lemma_find_char_after(base, seq!['?'] + q, '?');
    assert((seq!['?'] + q)[0] == '?');
    assert(find_char(seq!['?'] + q, '?') == Some(0int));
    assert(url.take(base.len() as int) =~= base);
    assert(url.skip(base.len() as int + 1) =~= q);
    assert(path_part(url) == base);
    assert(query_part(url) == q);
}

/// In the query `from=a&to=b` the range start is `a` and the range end is
/// `b`, each decoded, wherever neither holds `&`.
pub proof fn law_range_query(a: Seq<char>, b: Seq<char>)
    requires
        free_of(a, '&'),
        free_of(b, '&'),
    ensures
        param("from="@ + a + "&to="@ + b, "from"@) == Some(percent_decoded(a)),
        param("from="@ + a + "&to="@ + b, "to"@) == Some(percent_decoded(b)),
        param_or("from="@ + a + "&to="@ + b, "from"@, Seq::empty()) == percent_decoded(a),
        param_or("from="@ + a + "&to="@ + b, "to"@, Seq::empty()) == percent_decoded(b),
{
    reveal_strlit("from=");
    reveal_strlit("&to=");
    reveal_strlit("from");
    reveal_strlit("to");
    reveal_strlit("=");
    reveal_strlit("&");
    let k1 = "from"@;
    let k2 = "to"@;
    assert(free_of(k1, '=') && free_of(k1, '&') && free_of(k2, '=') && free_of(k2, '&'));
    let q = "from="@ + a + "&to="@ + b;
    assert(q =~= k1 + "="@ + a + "&"@ + (k2 + "="@ + b));
    law_first_pair_wins(k1, a, k2 + "="@ + b);
    lemma_second_pair(k1, a, k2, b);
}

/// `GET /v1/stocks/{market}/{symbol}/bars?from=a&to=b` asks for the bars of
/// that market and symbol from `a` to `b` (each decoded), never the other way
/// round.
pub proof fn law_stock_bars_range(market: Seq<char>, symbol: Seq<char>, a: Seq<char>, b: Seq<char>)
    requires
        free_of(market, '/'),
        free_of(market, '?'),
        free_of(symbol, '/'),
        free_of(symbol, '?'),
        free_of(a, '&'),
        free_of(b, '&'),
    ensures
        route_of(
            HttpMethod::Get,
            "/v1/stocks/"@ + market + "/"@ + symbol + "/bars?"@ + ("from="@ + a + "&to="@ + b),
        ) == RouteModel::Dispatch(
            "stock.bars"@,
            Json::Obj(
                seq![
                    ("market"@, Json::Str(market)),
                    ("symbol"@, Json::Str(symbol)),
                    ("timeframe"@, Json::Str(param_or("from="@ + a + "&to="@ + b, "timeframe"@, "1d"@))),
                    ("from"@, Json::Str(percent_decoded(a))),
                    ("to"@, Json::Str(percent_decoded(b))),
                    ("limit"@, Json::Num(Num::PosInt(u64_param_or("from="@ + a + "&to="@ + b, "limit"@, 500)))),
                ],
            ),
        ),
{
    law_stock_bars_query(market, symbol, "from="@ + a + "&to="@ + b);
    law_range_query(a, b);
}

/// In `k1=v1&k2=v2` with distinct keys, `k2` has the value `v2`.
proof fn lemma_second_pair(k1: Seq<char>, v1: Seq<char>, k2: Seq<char>, v2: Seq<char>)
    requires
        free_of(k1, '='),
        free_of(k1, '&'),
        free_of(k2, '='),
        free_of(k2, '&'),
        free_of(v1, '&'),
        free_of(v2, '&'),
        k1 != k2,
    ensures
        raw_param(k1 + "="@ + v1 + "&"@ + (k2 + "="@ + v2), k2) == Some(v2),
{
    reveal_strlit("=");
    reveal_strlit("&");
    let p1 = k1 + seq!['='] + v1;
    let p2 = k2 + seq!['='] + v2;
    assert(free_of(p1, '&')) by {
        assert forall|i: int| 0 <= i < p1.len() implies p1[i] != '&' by {
            if i < k1.len() {
                assert(p1[i] == k1[i]);
            } else if i > k1.len() {
                assert(p1[i] == v1[i - k1.len() - 1]);
            }
        }
    }
    assert(free_of(p2, '&')) by {
        assert forall|i: int| 0 <= i < p2.len() implies p2[i] != '&' by {
            if i < k2.len() {
                assert(p2[i] == k2[i]);
            } else if i > k2.len() {
                assert(p2[i] == v2[i - k2.len() - 1]);
            }
        }
    }
    let q = k1 + "="@ + v1 + "&"@ + (k2 + "="@ + v2);
    assert(q =~= p1 + (seq!['&'] + p2));
    lemma_find_char_after(p1, seq!['&'] + p2, '&');
    assert((seq!['&'] + p2)[0] == '&');
    assert(find_char(seq!['&'] + p2, '&') == Some(0int));
    assert(q.take(p1.len() as int) =~= p1);
    assert(q.skip(p1.len() as int + 1) =~= p2);
    lemma_find_char_none(p2, '&');
    assert(split_on(p2, '&') == seq![p2]);
    assert(split_on(q, '&') == seq![p1] + seq![p2]);
    // the first pair names another key
    lemma_find_char_after(k1, seq!['='] + v1, '=');
    assert((seq!['='] + v1)[0] == '=');
    assert(find_char(seq!['='] + v1, '=') == Some(0int));
    assert(p1 =~= k1 + (seq!['='] + v1));
    assert(p1.take(k1.len() as int) =~= k1);
    assert(pair_value(p1, k2) is None);
    lemma_first_value_step(p1, seq![p2], k2);
    lemma_pair_value_of(k2, v2);
    lemma_first_value_step(p2, Seq::empty(), k2);
    assert(seq![p2] + Seq::<Seq<char>>::empty() =~= seq![p2]);
}

proof fn lemma_pair_value_of(key: Seq<char>, v: Seq<char>)
    requires
        free_of(key, '='),
    ensures
        pair_value(key + seq!['='] + v, key) == Some(v),
{
    let p = key + seq!['='] + v;
    lemma_find_char_after(key, seq!['='] + v, '=');
    assert((seq!['='] + v)[0] == '=');
    assert(find_char(seq!['='] + v, '=') == Some(0int));
    assert(p =~= key + (seq!['='] + v));
    assert(p.take(key.len() as int) =~= key);
    assert(p.skip(key.len() as int + 1) =~= v);
}

/// The first pair of a query string decides the value of its key: in
/// `key=v&rest`, `key` has the value `v`, whatever follows.
pub proof fn law_first_pair_wins(key: Seq<char>, v: Seq<char>, rest: Seq<char>)
    requires
        free_of(key, '='),
        free_of(key, '&'),
        free_of(v, '&'),
    ensures
        raw_param(key + "="@ + v + "&"@ + rest, key) == Some(v),
        raw_param(key + "="@ + v, key) == Some(v),
{
    reveal_strlit("=");
    reveal_strlit("&");
    let pair = key + seq!['='] + v;
    assert(free_of(pair, '&')) by {
        assert forall|i: int| 0 <= i < pair.len() implies pair[i] != '&' by {
            if i < key.len() {
                assert(pair[i] == key[i]);
            } else if i > key.len() {
                assert(pair[i] == v[i - key.len() - 1]);
            }
        }
    }
    lemma_pair_value_of(key, v);
    // with more pairs after it
    let q = key + "="@ + v + "&"@ + rest;
    assert(q =~= pair + (seq!['&'] + rest));
    lemma_find_char_after(pair, seq!['&'] + rest, '&');
    assert((seq!['&'] + rest)[0] == '&');
    assert(find_char(seq!['&'] + rest, '&') == Some(0int));
    assert(q.take(pair.len() as int) =~= pair);
    lemma_first_value_step(pair, split_on(q.skip(pair.len() as int + 1), '&'), key);
    // alone
    let q2 = key + "="@ + v;
    assert(q2 =~= pair);
    lemma_find_char_none(pair, '&');
    assert(split_on(pair, '&') == seq![pair]);
    lemma_first_value_step(pair, Seq::empty(), key);
    assert(seq![pair] + Seq::<Seq<char>>::empty() =~= seq![pair]);
}

// ---------------------------------------------------------------------------
// Capabilities
// ---------------------------------------------------------------------------

/// A method of the interface with example parameters.
pub open spec fn method_doc(name: Seq<char>, params: Json) -> Json {
    Json::Obj(seq![("method"@, Json::Str(name)), ("params"@, params)])
}

/// The endpoints of the API.
pub open spec fn endpoints_doc() -> Json {
    Json::Arr(
        seq![
            Json::Str("GET /"@),
            Json::Str("GET /v1/health"@),
            Json::Str("GET /v1/capabilities"@),
            Json::Str("GET /v1/stats"@),
            Json::Str("GET /v1/quotes"@),
            Json::Str("GET /v1/stocks/{market}/{symbol}"@),
            Json::Str("GET /v1/stocks/{market}/{symbol}/bars"@),
            Json::Str("POST /v1/invoke"@),
            Json::Str("GET /v1/events?since_seq=0"@),
        ],
    )
}

/// The methods of the interface, each with example parameters.
pub open spec fn methods_doc() -> Json {
    Json::Arr(
        seq![
            method_doc("system.version"@, Json::Obj(Seq::empty())),
            method_doc("db.migrate"@, Json::Obj(Seq::empty())),
            method_doc("db.status"@, Json::Obj(Seq::empty())),
            method_doc("store.stats"@, Json::Obj(Seq::empty())),
            method_doc(
                "stock.list"@,
                Json::Obj(
                    seq![
                        ("board"@, Json::Str("ALL"@)),
                        ("query"@, Json::Str(Seq::empty())),
                        ("sort"@, Json::Str("symbol"@)),
                        ("limit"@, Json::Num(Num::PosInt(200))),
                    ],
                ),
            ),
            Json::Obj(
                seq![
                    ("method"@, Json::Str("quotes.list"@)),
                    ("params"@, Json::Obj(seq![("board"@, Json::Str("沪市"@))])),
                    ("alias_of"@, Json::Str("stock.list"@)),
                ],
            ),
            method_doc(
                "stock.show"@,
                Json::Obj(
                    seq![("symbol"@, Json::Str("600519"@)), ("market"@, Json::Str("CN.SH"@))],
                ),
            ),
            method_doc(
                "stock.bars"@,
                Json::Obj(
                    seq![
                        ("symbol"@, Json::Str("600519"@)),
                        ("market"@, Json::Str("CN.SH"@)),
                        ("timeframe"@, Json::Str("1d"@)),
                        ("limit"@, Json::Num(Num::PosInt(500))),
                    ],
                ),
            ),
            method_doc(
                "import.file"@,
                Json::Obj(
                    seq![("path"@, Json::Str("data/import.json"@)), ("kind"@, Json::Str("bundle"@))],
                ),
            ),
            method_doc(
                "import.json"@,
                Json::Obj(
                    seq![("kind"@, Json::Str("bundle"@)), ("data"@, Json::Obj(Seq::empty()))],
                ),
            ),
        ],
    )
}

/// What `/v1/capabilities` answers: the transport and its endpoints, the
/// workstation, the methods with example parameters, and the events.
pub open spec fn capabilities_doc() -> Json {
    Json::Obj(
        seq![
            ("transport"@, Json::Obj(
                seq![
                    ("bind"@, Json::Str("127.0.0.1:7878"@)),
                    ("env"@, Json::Str("GETRICH_API_BIND"@)),
                    ("endpoints"@, endpoints_doc()),
                ],
            )),
            ("ui"@, Json::Obj(
                seq![
                    ("workstation"@, Json::Str("/"@)),
                    ("style"@, Json::Str("tonghuashun-quote-board"@)),
                ],
            )),
            ("methods"@, methods_doc()),
            ("events"@, Json::Arr(seq![Json::Str("ingest.done"@), Json::Str("ping"@)])),
        ],
    )
}

fn str_value(s: &str) -> (r: JsonValue)
    ensures
        r@ == Json::Str(s@),
{
    JsonValue::Str(String::from_str(s))
}

fn array(items: Vec<JsonValue>) -> (r: JsonValue)
    ensures
        r@ == Json::Arr(crate::json::arr_model(items@)),
        crate::json::arr_model(items@).len() == items@.len(),
        forall|i: int|
            0 <= i < items@.len() ==> #[trigger] crate::json::arr_model(items@)[i] == items@[i]@,
{
    proof {
        crate::json::lemma_arr_model(items@);
    }
    JsonValue::Array(items)
}

fn method_doc_of(name: &str, params: JsonValue) -> (r: JsonValue)
    ensures
        r@ == method_doc(name@, params@),
{
    let ghost p = params@;
    let mut e: Vec<(String, JsonValue)> = Vec::new();
    e.push(str_entry("method", String::from_str(name)));
    e.push(entry("params", params));
    let ghost es = e@;
    let r = object(e);
    assert(obj_model(es) =~= method_doc(name@, p)->Obj_0);
    r
}

fn endpoints() -> (r: JsonValue)
    ensures
        r@ == endpoints_doc(),
{
    let mut a: Vec<JsonValue> = Vec::new();
    a.push(str_value("GET /"));
    a.push(str_value("GET /v1/health"));
    a.push(str_value("GET /v1/capabilities"));
    a.push(str_value("GET /v1/stats"));
    a.push(str_value("GET /v1/quotes"));
    a.push(str_value("GET /v1/stocks/{market}/{symbol}"));
    a.push(str_value("GET /v1/stocks/{market}/{symbol}/bars"));
    a.push(str_value("POST /v1/invoke"));
    a.push(str_value("GET /v1/events?since_seq=0"));
    let ghost az = a@;
    let r = array(a);
    assert(crate::json::arr_model(az) =~= endpoints_doc()->Arr_0);
    r
}

fn methods() -> (r: JsonValue)
    ensures
        r@ == methods_doc(),
{
    proof {
        reveal_strlit("");
    }
    let mut a: Vec<JsonValue> = Vec::new();
    a.push(method_doc_of("system.version", object(Vec::new())));
    a.push(method_doc_of("db.migrate", object(Vec::new())));
    a.push(method_doc_of("db.status", object(Vec::new())));
    a.push(method_doc_of("store.stats", object(Vec::new())));
    let mut list: Vec<(String, JsonValue)> = Vec::new();
    list.push(str_entry("board", String::from_str("ALL")));
    list.push(str_entry("query", String::new()));
    list.push(str_entry("sort", String::from_str("symbol")));
    list.push(u64_entry("limit", 200));
    let ghost ls = list@;
    let list = object(list);
    assert(obj_model(ls) =~= methods_doc()->Arr_0[4]->Obj_0[1].1->Obj_0);
    a.push(method_doc_of("stock.list", list));
    let mut alias_params: Vec<(String, JsonValue)> = Vec::new();
    alias_params.push(str_entry("board", String::from_str("沪市")));
    let ghost aps = alias_params@;
    let alias_params = object(alias_params);
    assert(obj_model(aps) =~= seq![("board"@, Json::Str("沪市"@))]);
    let mut alias: Vec<(String, JsonValue)> = Vec::new();
    alias.push(str_entry("method", String::from_str("quotes.list")));
    alias.push(entry("params", alias_params));
    alias.push(str_entry("alias_of", String::from_str("stock.list")));
    let ghost als = alias@;
    let alias = object(alias);
    assert(obj_model(als) =~= methods_doc()->Arr_0[5]->Obj_0);
    a.push(alias);
    let mut show: Vec<(String, JsonValue)> = Vec::new();
    show.push(str_entry("symbol", String::from_str("600519")));
    show.push(str_entry("market", String::from_str("CN.SH")));
    let ghost ss = show@;
    let show = object(show);
    assert(obj_model(ss) =~= methods_doc()->Arr_0[6]->Obj_0[1].1->Obj_0);
    a.push(method_doc_of("stock.show", show));
    let mut bars: Vec<(String, JsonValue)> = Vec::new();
    bars.push(str_entry("symbol", String::from_str("600519")));
    bars.push(str_entry("market", String::from_str("CN.SH")));
    bars.push(str_entry("timeframe", String::from_str("1d")));
    bars.push(u64_entry("limit", 500));
    let ghost bs = bars@;
    let bars = object(bars);
    assert(obj_model(bs) =~= methods_doc()->Arr_0[7]->Obj_0[1].1->Obj_0);
    a.push(method_doc_of("stock.bars", bars));
    let mut file: Vec<(String, JsonValue)> = Vec::new();
    file.push(str_entry("path", String::from_str("data/import.json")));
    file.push(str_entry("kind", String::from_str("bundle")));
    let ghost fs = file@;
    let file = object(file);
    assert(obj_model(fs) =~= methods_doc()->Arr_0[8]->Obj_0[1].1->Obj_0);
    a.push(method_doc_of("import.file", file));
    let mut json: Vec<(String, JsonValue)> = Vec::new();
    json.push(str_entry("kind", String::from_str("bundle")));
    json.push(entry("data", object(Vec::new())));
    let ghost js = json@;
    let json = object(json);
    assert(obj_model(js) =~= methods_doc()->Arr_0[9]->Obj_0[1].1->Obj_0);
    a.push(method_doc_of("import.json", json));
    let ghost az = a@;
    let r = array(a);
    assert(crate::json::arr_model(az) =~= methods_doc()->Arr_0);
    r
}

/// The answer of `/v1/capabilities`.
pub fn capabilities() -> (r: JsonValue)
    ensures
        r@ == capabilities_doc(),
{
    let mut transport: Vec<(String, JsonValue)> = Vec::new();
    transport.push(str_entry("bind", String::from_str("127.0.0.1:7878")));
    transport.push(str_entry("env", String::from_str("GETRICH_API_BIND")));
    transport.push(entry("endpoints", endpoints()));
    let ghost ts = transport@;
    let transport = object(transport);
    assert(obj_model(ts) =~= capabilities_doc()->Obj_0[0].1->Obj_0);
    let mut ui: Vec<(String, JsonValue)> = Vec::new();
    ui.push(str_entry("workstation", String::from_str("/")));
    ui.push(str_entry("style", String::from_str("tonghuashun-quote-board")));
    let ghost us = ui@;
    let ui = object(ui);
    assert(obj_model(us) =~= capabilities_doc()->Obj_0[1].1->Obj_0);
    let mut ev: Vec<JsonValue> = Vec::new();
    ev.push(str_value("ingest.done"));
    ev.push(str_value("ping"));
    let ghost evs = ev@;
    let events = array(ev);
    assert(crate::json::arr_model(evs) =~= capabilities_doc()->Obj_0[3].1->Arr_0);
    let mut top: Vec<(String, JsonValue)> = Vec::new();
    top.push(entry("transport", transport));
    top.push(entry("ui", ui));
    top.push(entry("methods", methods()));
    top.push(entry("events", events));
    let ghost tops = top@;
    let r = object(top);
    assert(obj_model(tops) =~= capabilities_doc()->Obj_0);
    r
}

} // verus!
