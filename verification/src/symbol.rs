//! Symbol and market normalization (US / HK / A-share / Beijing).

use vstd::prelude::*;
use crate::models::{
    key_display, law_market_code_roundtrip, market_code, market_label, market_parse, message_with,
    InstrumentKey, Market,
};
use crate::text::{
    is_digit, is_ws, lemma_digits_of_all_digits, lemma_digits_of_trim, lemma_digits_of_upper,
    lemma_find_char, lemma_no_ws_trim, lemma_upper_digits, lemma_upper_idempotent,
    lemma_upper_trim_normal, lemma_zero_pad_decimal, lemma_zero_pad_len, lower,
    dec_value, lemma_dec_value_bound, lemma_decimal_len_bound, lemma_digit_text, pow10,
    strip_plus,
    all_digit_chars, all_digits, chars_of, decimal, digits_of, ends_with_lit, eq_ignore_ascii_case,
    eq_ignore_case, eq_lit, filter_digits, find_char, find_char_pos, padded_decimal, parse_uint,
    starts_with_lit, string_of, sub_vec, to_upper, trim, trim_chars, trim_str, uint_of, upper,
    zero_pad,
};

verus! {

/// Characters a US ticker may hold (after upper-casing).
pub open spec fn us_symbol_char(c: char) -> bool {
    ('A' <= c && c <= 'Z') || ('a' <= c && c <= 'z') || ('0' <= c && c <= '9') || c == '.' || c
        == '-'
}

pub open spec fn seq_starts(s: Seq<char>, p: Seq<char>) -> bool {
    s.len() >= p.len() && s.subrange(0, p.len() as int) == p
}

pub open spec fn seq_ends(s: Seq<char>, p: Seq<char>) -> bool {
    s.len() >= p.len() && s.subrange(s.len() - p.len(), s.len() as int) == p
}

/// The canonical form of a symbol on a market, or the reason it has none.
pub open spec fn canonical(raw: Seq<char>, market: Market) -> Result<Seq<char>, Seq<char>> {
    let s = upper(trim(raw));
    if s.len() == 0 {
        Err("empty symbol"@)
    } else {
        match market {
            Market::Us => if forall|i: int| 0 <= i < s.len() ==> us_symbol_char(#[trigger] s[i]) {
                Ok(s)
            } else {
                Err("invalid US symbol: "@ + s)
            },
            Market::Hk => {
                let d = digits_of(s);
                if d.len() == 0 {
                    Err("invalid HK symbol: "@ + s)
                } else {
                    match uint_of(d, 0xffff_ffff) {
                        Some(n) => Ok(zero_pad(decimal(n), 5)),
                        None => Err("invalid HK symbol: "@ + s),
                    }
                }
            },
            _ => {
                let d = digits_of(s);
                if d.len() != 6 {
                    Err("A-share symbols must be 6 digits, got "@ + s)
                } else {
                    Ok(d)
                }
            },
        }
    }
}

pub open spec fn str_result(r: Result<String, String>, s: Result<Seq<char>, Seq<char>>) -> bool {
    match r {
        Ok(v) => s == Ok::<Seq<char>, Seq<char>>(v@),
        Err(e) => s == Err::<Seq<char>, Seq<char>>(e@),
    }
}

/// Relates a parsed key to the (symbol, market) pair that specifies it.
pub open spec fn key_result(
    r: Result<InstrumentKey, String>,
    s: Result<(Seq<char>, Market), Seq<char>>,
) -> bool {
    match r {
        Ok(k) => s == Ok::<(Seq<char>, Market), Seq<char>>((k.symbol@, k.market)),
        Err(e) => s == Err::<(Seq<char>, Market), Seq<char>>(e@),
    }
}

pub open spec fn key_option(r: Option<InstrumentKey>, s: Option<(Seq<char>, Market)>) -> bool {
    match r {
        Some(k) => s == Some((k.symbol@, k.market)),
        None => s is None,
    }
}

fn all_us_chars(s: &[char]) -> (r: bool)
    ensures
        r == forall|i: int| 0 <= i < s@.len() ==> us_symbol_char(#[trigger] s@[i]),
{
    let mut i: usize = 0;
    while i < s.len()
        invariant
            0 <= i <= s.len(),
            forall|j: int| 0 <= j < i ==> us_symbol_char(#[trigger] s@[j]),
        decreases s.len() - i,
    {
        let c = s[i];
        if !(('A' <= c && c <= 'Z') || ('a' <= c && c <= 'z') || ('0' <= c && c <= '9') || c
            == '.' || c == '-') {
            return false;
        }
        i += 1;
    }
    true
}

/// Canonical form of a symbol on a market: upper-cased, trimmed; HK codes as
/// five digits; A-share codes as their six digits.
pub fn canonicalize_symbol(raw: &str, market: Market) -> (r: Result<String, String>)
    ensures
        str_result(r, canonical(raw@, market)),
{
    let v = chars_of(raw);
    canonicalize_chars(v.as_slice(), market)
}

/// `canonicalize_symbol` on a character sequence.
pub fn canonicalize_chars(raw: &[char], market: Market) -> (r: Result<String, String>)
    ensures
        str_result(r, canonical(raw@, market)),
{
    let t = trim_chars(raw);
    let s = to_upper(t.as_slice());
    if s.len() == 0 {
        return Err(String::from_str("empty symbol"));
    }
    match market {
        Market::Us => {
            if !all_us_chars(s.as_slice()) {
                return Err(message_with("invalid US symbol: ", s.as_slice()));
            }
            Ok(string_of(s.as_slice()))
        },
        Market::Hk => {
            let d = filter_digits(s.as_slice());
            if d.len() == 0 {
                return Err(message_with("invalid HK symbol: ", s.as_slice()));
            }
            match parse_uint(d.as_slice(), 0xffff_ffffu64) {
                Some(n) => {
                    let p = padded_decimal(n, 5);
                    Ok(string_of(p.as_slice()))
                },
                None => Err(message_with("invalid HK symbol: ", s.as_slice())),
            }
        },
        Market::CnSh | Market::CnSz | Market::CnBj => {
            let d = filter_digits(s.as_slice());
            if d.len() != 6 {
                return Err(message_with("A-share symbols must be 6 digits, got ", s.as_slice()));
            }
            Ok(string_of(d.as_slice()))
        },
    }
}

/// The market named by a code suffix (`.SS`, `.SH`, `.SZ`, `.BJ`, `.HK`, `.US`).
pub open spec fn suffix_market(u: Seq<char>) -> Option<Market> {
    if seq_ends(u, ".SS"@) {
        Some(Market::CnSh)
    } else if seq_ends(u, ".SH"@) {
        Some(Market::CnSh)
    } else if seq_ends(u, ".SZ"@) {
        Some(Market::CnSz)
    } else if seq_ends(u, ".BJ"@) {
        Some(Market::CnBj)
    } else if seq_ends(u, ".HK"@) {
        Some(Market::Hk)
    } else if seq_ends(u, ".US"@) {
        Some(Market::Us)
    } else {
        None
    }
}

/// The key of an upper-cased symbol written with a market suffix, as `700.HK`.
pub open spec fn suffixed(u: Seq<char>) -> Option<(Seq<char>, Market)> {
    match suffix_market(u) {
        Some(m) => match canonical(u.subrange(0, u.len() - 3), m) {
            Ok(sym) => Some((sym, m)),
            Err(_) => None,
        },
        None => None,
    }
}

/// The key of an upper-cased symbol written with a market prefix, as `SH600519`.
pub open spec fn prefixed(u: Seq<char>) -> Option<(Seq<char>, Market)> {
    let m = if seq_starts(u, "SH"@) {
        Some(Market::CnSh)
    } else if seq_starts(u, "SZ"@) {
        Some(Market::CnSz)
    } else if seq_starts(u, "BJ"@) {
        Some(Market::CnBj)
    } else {
        None
    };
    match m {
        Some(m) => {
            let rest = u.subrange(2, u.len() as int);
            if all_digits(rest) && rest.len() == 6 {
                match canonical(rest, m) {
                    Ok(sym) => Some((sym, m)),
                    Err(_) => None,
                }
            } else {
                None
            }
        },
        None => None,
    }
}

/// The market a bare upper-cased symbol belongs to.
pub open spec fn inferred(u: Seq<char>) -> Result<Market, Seq<char>> {
    if all_digits(u) {
        if u.len() == 6 && (seq_starts(u, "6"@) || seq_starts(u, "900"@)) {
            Ok(Market::CnSh)
        } else if u.len() == 6 && (seq_starts(u, "8"@) || seq_starts(u, "4"@)) {
            Ok(Market::CnBj)
        } else if u.len() == 6 {
            Ok(Market::CnSz)
        } else if 1 <= u.len() <= 5 {
            Ok(Market::Hk)
        } else {
            Err("cannot infer market for numeric symbol "@ + u)
        }
    } else {
        Ok(Market::Us)
    }
}

/// What `parse_instrument` gives: the canonical (symbol, market), or the error.
pub open spec fn instrument(raw: Seq<char>, hint: Option<Seq<char>>) -> Result<
    (Seq<char>, Market),
    Seq<char>,
> {
    let r = trim(raw);
    if r.len() == 0 {
        Err("empty symbol"@)
    } else {
        match find_char(r, ':') {
            Some(i) => match market_parse(r.subrange(0, i)) {
                Ok(m) => match canonical(r.subrange(i + 1, r.len() as int), m) {
                    Ok(sym) => Ok((sym, m)),
                    Err(e) => Err(e),
                },
                Err(e) => Err(e),
            },
            None => {
                let u = upper(r);
                match suffixed(u) {
                    Some(k) => Ok(k),
                    None => match prefixed(u) {
                        Some(k) => Ok(k),
                        None => {
                            let m = match hint {
                                Some(h) => market_parse(h),
                                None => inferred(u),
                            };
                            match m {
                                Ok(m) => match canonical(u, m) {
                                    Ok(sym) => Ok((sym, m)),
                                    Err(e) => Err(e),
                                },
                                Err(e) => Err(e),
                            }
                        },
                    },
                }
            },
        }
    }
}

fn parse_suffixed(u: &[char]) -> (r: Option<InstrumentKey>)
    ensures
        key_option(r, suffixed(u@)),
{
    let m = if ends_with_lit(u, ".SS") {
        Market::CnSh
    } else if ends_with_lit(u, ".SH") {
        Market::CnSh
    } else if ends_with_lit(u, ".SZ") {
        Market::CnSz
    } else if ends_with_lit(u, ".BJ") {
        Market::CnBj
    } else if ends_with_lit(u, ".HK") {
        Market::Hk
    } else if ends_with_lit(u, ".US") {
        Market::Us
    } else {
        return None;
    };
    proof {
        reveal_strlit(".SS");
        reveal_strlit(".SH");
        reveal_strlit(".SZ");
        reveal_strlit(".BJ");
        reveal_strlit(".HK");
        reveal_strlit(".US");
    }
    let stem = sub_vec(u, 0, u.len() - 3);
    match canonicalize_chars(stem.as_slice(), m) {
        Ok(sym) => Some(InstrumentKey::new(sym, m)),
        Err(_) => None,
    }
}

fn parse_prefixed(u: &[char]) -> (r: Option<InstrumentKey>)
    ensures
        key_option(r, prefixed(u@)),
{
    let m = if starts_with_lit(u, "SH") {
        Market::CnSh
    } else if starts_with_lit(u, "SZ") {
        Market::CnSz
    } else if starts_with_lit(u, "BJ") {
        Market::CnBj
    } else {
        return None;
    };
    proof {
        reveal_strlit("SH");
        reveal_strlit("SZ");
        reveal_strlit("BJ");
    }
    let rest = sub_vec(u, 2, u.len());
    if !(all_digit_chars(rest.as_slice()) && rest.len() == 6) {
        return None;
    }
    match canonicalize_chars(rest.as_slice(), m) {
        Ok(sym) => Some(InstrumentKey::new(sym, m)),
        Err(_) => None,
    }
}

fn infer_market(u: &[char]) -> (r: Result<Market, String>)
    ensures
        match r {
            Ok(m) => inferred(u@) == Ok::<Market, Seq<char>>(m),
            Err(e) => inferred(u@) == Err::<Market, Seq<char>>(e@),
        },
{
    if all_digit_chars(u) {
        if u.len() == 6 && (starts_with_lit(u, "6") || starts_with_lit(u, "900")) {
            Ok(Market::CnSh)
        } else if u.len() == 6 && (starts_with_lit(u, "8") || starts_with_lit(u, "4")) {
            Ok(Market::CnBj)
        } else if u.len() == 6 {
            Ok(Market::CnSz)
        } else if 1 <= u.len() && u.len() <= 5 {
            Ok(Market::Hk)
        } else {
            Err(message_with("cannot infer market for numeric symbol ", u))
        }
    } else {
        Ok(Market::Us)
    }
}

/// Parses a user-supplied ticker into a canonical key.
///
/// Accepts `AAPL`, `US:AAPL`, `AAPL.US`, `600519`, `600519.SS`, `SH600519`,
/// `000001.SZ`, `0700.HK`, `00700`, `HK:700`, `830001.BJ`; `market_hint`
/// names the market of a bare symbol.
pub fn parse_instrument(raw: &str, market_hint: Option<&str>) -> (r: Result<InstrumentKey, String>)
    ensures
        key_result(
            r,
            instrument(
                raw@,
                match market_hint {
                    Some(h) => Some(h@),
                    None => None,
                },
            ),
        ),
{
    let t = trim_str(raw);
    if t.len() == 0 {
        return Err(String::from_str("empty symbol"));
    }
    match find_char_pos(t.as_slice(), ':') {
        Some(i) => {
            proof {
                crate::text::lemma_find_char(t@, ':');
            }
            let left = string_of(sub_vec(t.as_slice(), 0, i).as_slice());
            let market = match Market::parse(left.as_str()) {
                Ok(m) => m,
                Err(e) => return Err(e),
            };
            let right = sub_vec(t.as_slice(), i + 1, t.len());
            match canonicalize_chars(right.as_slice(), market) {
                Ok(sym) => Ok(InstrumentKey::new(sym, market)),
                Err(e) => Err(e),
            }
        },
        None => {
            let u = to_upper(t.as_slice());
            if let Some(k) = parse_suffixed(u.as_slice()) {
                return Ok(k);
            }
            if let Some(k) = parse_prefixed(u.as_slice()) {
                return Ok(k);
            }
            let market = match market_hint {
                Some(h) => match Market::parse(h) {
                    Ok(m) => m,
                    Err(e) => return Err(e),
                },
                None => match infer_market(u.as_slice()) {
                    Ok(m) => m,
                    Err(e) => return Err(e),
                },
            };
            match canonicalize_chars(u.as_slice(), market) {
                Ok(sym) => Ok(InstrumentKey::new(sym, market)),
                Err(e) => Err(e),
            }
        },
    }
}

/// Tonghuashun-style board of a key: `STAR` (688/689 on Shanghai), `CHINEXT`
/// (300/301/302 on Shenzhen), otherwise the market code.
pub open spec fn board_code(symbol: Seq<char>, market: Market) -> Seq<char> {
    match market {
        Market::Us => "US"@,
        Market::Hk => "HK"@,
        Market::CnBj => "CN.BJ"@,
        Market::CnSh => if seq_starts(symbol, "688"@) || seq_starts(symbol, "689"@) {
            "STAR"@
        } else {
            "CN.SH"@
        },
        Market::CnSz => if seq_starts(symbol, "300"@) || seq_starts(symbol, "301"@)
            || seq_starts(symbol, "302"@) {
            "CHINEXT"@
        } else {
            "CN.SZ"@
        },
    }
}

/// The board of a key.
pub open spec fn board_of(k: InstrumentKey) -> Seq<char> {
    board_code(k.symbol@, k.market)
}

pub fn board_id(key: &InstrumentKey) -> (r: &'static str)
    ensures
        r@ == board_of(*key),
{
    let sym = chars_of(key.symbol.as_str());
    match key.market {
        Market::Us => "US",
        Market::Hk => "HK",
        Market::CnBj => "CN.BJ",
        Market::CnSh => {
            if starts_with_lit(sym.as_slice(), "688") || starts_with_lit(sym.as_slice(), "689") {
                "STAR"
            } else {
                "CN.SH"
            }
        },
        Market::CnSz => {
            if starts_with_lit(sym.as_slice(), "300") || starts_with_lit(sym.as_slice(), "301")
                || starts_with_lit(sym.as_slice(), "302") {
                "CHINEXT"
            } else {
                "CN.SZ"
            }
        },
    }
}

/// The Chinese label of a board id; `全部` (all) for anything else.
pub open spec fn board_label(b: Seq<char>) -> Seq<char> {
    if b == "US"@ {
        "美股"@
    } else if b == "HK"@ {
        "港股"@
    } else if b == "CN.SH"@ {
        "沪市"@
    } else if b == "CN.SZ"@ {
        "深市"@
    } else if b == "CN.BJ"@ {
        "北证"@
    } else if b == "STAR"@ {
        "科创板"@
    } else if b == "CHINEXT"@ {
        "创业板"@
    } else if b == "WATCH"@ {
        "自选"@
    } else {
        "全部"@
    }
}

pub fn board_label_zh(board: &str) -> (r: &'static str)
    ensures
        r@ == board_label(board@),
{
    let b = chars_of(board);
    let b = b.as_slice();
    if eq_lit(b, "US") {
        "美股"
    } else if eq_lit(b, "HK") {
        "港股"
    } else if eq_lit(b, "CN.SH") {
        "沪市"
    } else if eq_lit(b, "CN.SZ") {
        "深市"
    } else if eq_lit(b, "CN.BJ") {
        "北证"
    } else if eq_lit(b, "STAR") {
        "科创板"
    } else if eq_lit(b, "CHINEXT") {
        "创业板"
    } else if eq_lit(b, "WATCH") {
        "自选"
    } else {
        "全部"
    }
}

/// Whether a key belongs on the board filter `board` (names in English or
/// Chinese, case-insensitive; empty or `ALL` matches everything).
pub open spec fn in_board(symbol: Seq<char>, market: Market, board: Seq<char>) -> bool {
    let b = upper(trim(board));
    if b.len() == 0 || b == "ALL"@ || b == "全部"@ {
        true
    } else if b == "US"@ || b == "美股"@ {
        market == Market::Us
    } else if b == "HK"@ || b == "港股"@ {
        market == Market::Hk
    } else if b == "CN.SH"@ || b == "SH"@ || b == "沪市"@ {
        market == Market::CnSh
    } else if b == "CN.SZ"@ || b == "SZ"@ || b == "深市"@ {
        market == Market::CnSz
    } else if b == "CN.BJ"@ || b == "BJ"@ || b == "北证"@ {
        market == Market::CnBj
    } else if b == "STAR"@ || b == "KCB"@ || b == "科创板"@ {
        board_code(symbol, market) == "STAR"@
    } else if b == "CHINEXT"@ || b == "CYB"@ || b == "创业板"@ {
        board_code(symbol, market) == "CHINEXT"@
    } else if b == "CN"@ || b == "A"@ || b == "沪深京"@ {
        market == Market::CnSh || market == Market::CnSz || market == Market::CnBj
    } else {
        eq_ignore_case(board_code(symbol, market), b)
    }
}

/// Whether a key belongs on the board filter `board`.
pub open spec fn on_board(k: InstrumentKey, board: Seq<char>) -> bool {
    in_board(k.symbol@, k.market, board)
}

pub fn board_matches(key: &InstrumentKey, board: &str) -> (r: bool)
    ensures
        r == on_board(*key, board@),
{
    let t = trim_str(board);
    let bv = to_upper(t.as_slice());
    let b = bv.as_slice();
    if b.len() == 0 || eq_lit(b, "ALL") || eq_lit(b, "全部") {
        return true;
    }
    if eq_lit(b, "US") || eq_lit(b, "美股") {
        key.market == Market::Us
    } else if eq_lit(b, "HK") || eq_lit(b, "港股") {
        key.market == Market::Hk
    } else if eq_lit(b, "CN.SH") || eq_lit(b, "SH") || eq_lit(b, "沪市") {
        key.market == Market::CnSh
    } else if eq_lit(b, "CN.SZ") || eq_lit(b, "SZ") || eq_lit(b, "深市") {
        key.market == Market::CnSz
    } else if eq_lit(b, "CN.BJ") || eq_lit(b, "BJ") || eq_lit(b, "北证") {
        key.market == Market::CnBj
    } else if eq_lit(b, "STAR") || eq_lit(b, "KCB") || eq_lit(b, "科创板") {
        let id = chars_of(board_id(key));
        eq_lit(id.as_slice(), "STAR")
    } else if eq_lit(b, "CHINEXT") || eq_lit(b, "CYB") || eq_lit(b, "创业板") {
        let id = chars_of(board_id(key));
        eq_lit(id.as_slice(), "CHINEXT")
    } else if eq_lit(b, "CN") || eq_lit(b, "A") || eq_lit(b, "沪深京") {
        key.market == Market::CnSh || key.market == Market::CnSz || key.market == Market::CnBj
    } else {
        let id = chars_of(board_id(key));
        eq_ignore_ascii_case(id.as_slice(), b)
    }
}

// ---------------------------------------------------------------------------
// Laws
// ---------------------------------------------------------------------------

pub proof fn lemma_all_digits_no_ws(s: Seq<char>)
    requires
        all_digits(s),
    ensures
        forall|i: int| 0 <= i < s.len() ==> !is_ws(#[trigger] s[i]),
{
    assert forall|i: int| 0 <= i < s.len() implies !is_ws(#[trigger] s[i]) by {
        assert(is_digit(s[i]));
    }
}

/// A canonical symbol holds no whitespace, is not empty, and canonicalizes to
/// itself: canonicalization is idempotent.
pub proof fn law_canonical_idempotent(raw: Seq<char>, market: Market)
    requires
        canonical(raw, market) is Ok,
    ensures
        canonical(canonical(raw, market)->Ok_0, market) == canonical(raw, market),
        canonical(raw, market)->Ok_0.len() > 0,
        forall|i: int|
            0 <= i < canonical(raw, market)->Ok_0.len() ==> !is_ws(
                #[trigger] canonical(raw, market)->Ok_0[i],
            ),
{
    let u = upper(trim(raw));
    let s = canonical(raw, market)->Ok_0;
    lemma_upper_idempotent(trim(raw));
    match market {
        Market::Us => {
            assert(s == u);
            assert forall|i: int| 0 <= i < s.len() implies !is_ws(#[trigger] s[i]) by {
                assert(us_symbol_char(s[i]));
            }
            lemma_no_ws_trim(s);
        },
        Market::Hk => {
            let d = digits_of(u);
            let n = uint_of(d, 0xffff_ffff)->0;
            lemma_digits_of_all_digits(u);
            assert(strip_plus(d) == d) by {
                assert(is_digit(d[0]));
            }
            lemma_zero_pad_decimal(n, 5);
            lemma_upper_digits(s);
            lemma_digits_of_all_digits(s);
            lemma_all_digits_no_ws(s);
            assert(is_digit(s[0]));
            assert(strip_plus(s) == s);
        },
        _ => {
            let d = digits_of(u);
            lemma_digits_of_all_digits(u);
            assert(s == d);
            lemma_upper_digits(s);
            lemma_digits_of_all_digits(s);
            lemma_all_digits_no_ws(s);
        },
    }
}

/// Every key that `parse_instrument` gives holds a canonical symbol.
pub proof fn law_parsed_symbol_canonical(raw: Seq<char>, hint: Option<Seq<char>>)
    requires
        instrument(raw, hint) is Ok,
    ensures
        canonical(instrument(raw, hint)->Ok_0.0, instrument(raw, hint)->Ok_0.1) == Ok::<
            Seq<char>,
            Seq<char>,
        >(instrument(raw, hint)->Ok_0.0),
{
    let r = trim(raw);
    match find_char(r, ':') {
        Some(i) => {
            let m = market_parse(r.subrange(0, i))->Ok_0;
            law_canonical_idempotent(r.subrange(i + 1, r.len() as int), m);
        },
        None => {
            let u = upper(r);
            if suffixed(u) is Some {
                let m = suffix_market(u)->0;
                law_canonical_idempotent(u.subrange(0, u.len() - 3), m);
            } else if prefixed(u) is Some {
                let m = (prefixed(u)->0).1;
                law_canonical_idempotent(u.subrange(2, u.len() as int), m);
            } else {
                let m = match hint {
                    Some(h) => market_parse(h),
                    None => inferred(u),
                }->Ok_0;
                law_canonical_idempotent(u, m);
            }
        },
    }
}

/// A key with a canonical symbol survives `display` and `parse_instrument`:
/// parsing `MARKET:SYMBOL` gives the key back, whatever the market hint.
pub proof fn law_display_parse_roundtrip(k: InstrumentKey, hint: Option<Seq<char>>)
    requires
        canonical(k.symbol@, k.market) == Ok::<Seq<char>, Seq<char>>(k.symbol@),
    ensures
        instrument(key_display(k), hint) == Ok::<(Seq<char>, Market), Seq<char>>(
            (k.symbol@, k.market),
        ),
{
    reveal_strlit(":");
    reveal_strlit("US");
    reveal_strlit("HK");
    reveal_strlit("CN.SH");
    reveal_strlit("CN.SZ");
    reveal_strlit("CN.BJ");
    law_canonical_idempotent(k.symbol@, k.market);
    let c = market_code(k.market);
    let sym = k.symbol@;
    let d = key_display(k);
    assert(d =~= c + seq![':'] + sym);
    assert forall|i: int| 0 <= i < d.len() implies !is_ws(#[trigger] d[i]) by {
        if i >= c.len() + 1 {
            assert(d[i] == sym[i - c.len() - 1]);
        }
    }
    lemma_no_ws_trim(d);
    lemma_find_char(d, ':');
    assert(d[c.len() as int] == ':');
    assert(forall|j: int| 0 <= j < c.len() ==> #[trigger] d[j] == c[j] && c[j] != ':');
    assert(find_char(d, ':') == Some(c.len() as int));
    assert(d.subrange(0, c.len() as int) =~= c);
    assert(d.subrange(c.len() as int + 1, d.len() as int) =~= sym);
    law_market_code_roundtrip(k.market);
}

/// Every key lies on its own board.
pub proof fn law_key_on_own_board(k: InstrumentKey)
    ensures
        on_board(k, board_of(k)),
{
    reveal_strlit("ALL");
    reveal_strlit("全部");
    reveal_strlit("US");
    reveal_strlit("美股");
    reveal_strlit("HK");
    reveal_strlit("港股");
    reveal_strlit("CN.SH");
    reveal_strlit("SH");
    reveal_strlit("沪市");
    reveal_strlit("CN.SZ");
    reveal_strlit("SZ");
    reveal_strlit("深市");
    reveal_strlit("CN.BJ");
    reveal_strlit("BJ");
    reveal_strlit("北证");
    reveal_strlit("STAR");
    reveal_strlit("KCB");
    reveal_strlit("科创板");
    reveal_strlit("CHINEXT");
    reveal_strlit("CYB");
    reveal_strlit("创业板");
    let b = board_of(k);
    assert forall|i: int| 0 <= i < b.len() implies !is_ws(#[trigger] b[i]) by {}
    lemma_no_ws_trim(b);
    assert(upper(b) =~= b);
}

/// What canonicalization promises on each market: a blank symbol is refused;
/// a US symbol is the trimmed input in upper case; an HK code is at least five
/// ASCII digits; an A-share symbol is accepted exactly when the input holds six
/// ASCII digits, and is those digits in order; and every canonical symbol is
/// its own canonical form.
pub proof fn law_canonical_forms(raw: Seq<char>, market: Market)
    ensures
        trim(raw).len() == 0 ==> canonical(raw, market) is Err,
        canonical(raw, market) is Ok ==> canonical(canonical(raw, market)->Ok_0, market)
            == canonical(raw, market),
        market == Market::Us && canonical(raw, market) is Ok ==> canonical(raw, market)->Ok_0
            == upper(trim(raw)),
        market == Market::Hk && canonical(raw, market) is Ok ==> canonical(raw, market)->Ok_0.len()
            >= 5 && all_digits(canonical(raw, market)->Ok_0),
        (market == Market::CnSh || market == Market::CnSz || market == Market::CnBj) ==> (
        canonical(raw, market) is Ok <==> digits_of(raw).len() == 6),
        (market == Market::CnSh || market == Market::CnSz || market == Market::CnBj) && canonical(
            raw,
            market,
        ) is Ok ==> canonical(raw, market)->Ok_0 == digits_of(raw),
{
    let s = upper(trim(raw));
    lemma_upper_idempotent(trim(raw));
    lemma_digits_of_trim(raw);
    lemma_digits_of_upper(trim(raw));
    assert(digits_of(s) == digits_of(raw));
    if canonical(raw, market) is Ok {
        law_canonical_idempotent(raw, market);
    }
    if s.len() == 0 {
        assert(s =~= Seq::<char>::empty());
        assert(digits_of(s) =~= Seq::<char>::empty()) by {
            reveal_with_fuel(Seq::filter, 1);
        }
    }
    if market == Market::Hk && canonical(raw, market) is Ok {
        let n = uint_of(digits_of(s), 0xffff_ffff)->0;
        lemma_zero_pad_len(decimal(n), 5);
        lemma_zero_pad_decimal(n, 5);
    }
}

/// How the board filter treats a key: the key lies on its own board, on `ALL`
/// and `全部`, on the code and on the Chinese label of its own market and on no
/// other market's, and on `CN` exactly when it is an A-share; and a filter
/// reads the same after trimming it and folding it to either ASCII case.
pub proof fn law_board_filters(k: InstrumentKey, board: Seq<char>)
    ensures
        on_board(k, board_of(k)),
        on_board(k, "ALL"@),
        on_board(k, "全部"@),
        forall|m: Market| #[trigger] on_board(k, market_code(m)) == (k.market == m),
        forall|m: Market| #[trigger] on_board(k, market_label(m)) == (k.market == m),
        on_board(k, "CN"@) == (k.market == Market::CnSh || k.market == Market::CnSz || k.market
            == Market::CnBj),
        on_board(k, board) == on_board(k, upper(trim(board))),
        on_board(k, board) == on_board(k, lower(trim(board))),
{
    law_key_on_own_board(k);
    reveal_strlit("ALL");
    reveal_strlit("全部");
    reveal_strlit("US");
    reveal_strlit("美股");
    reveal_strlit("HK");
    reveal_strlit("港股");
    reveal_strlit("CN.SH");
    reveal_strlit("SH");
    reveal_strlit("沪市");
    reveal_strlit("CN.SZ");
    reveal_strlit("SZ");
    reveal_strlit("深市");
    reveal_strlit("CN.BJ");
    reveal_strlit("BJ");
    reveal_strlit("北证");
    reveal_strlit("STAR");
    reveal_strlit("KCB");
    reveal_strlit("科创板");
    reveal_strlit("CHINEXT");
    reveal_strlit("CYB");
    reveal_strlit("创业板");
    reveal_strlit("CN");
    reveal_strlit("A");
    reveal_strlit("沪深京");
    lemma_upper_trim_normal(board);
    lemma_board_literal("ALL"@);
    lemma_board_literal("全部"@);
    lemma_board_literal("CN"@);
    assert forall|m: Market| #[trigger] on_board(k, market_code(m)) == (k.market == m) by {
        lemma_board_literal(market_code(m));
    }
    assert forall|m: Market| #[trigger] on_board(k, market_label(m)) == (k.market == m) by {
        lemma_board_literal(market_label(m));
    }
}

/// A filter written without whitespace and without ASCII lower-case letters
/// is read as written.
pub proof fn lemma_board_literal(b: Seq<char>)
    requires
        forall|i: int| 0 <= i < b.len() ==> !is_ws(#[trigger] b[i]) && !('a' <= b[i] && b[i]
            <= 'z'),
    ensures
        upper(trim(b)) == b,
{
    lemma_no_ws_trim(b);
    assert(upper(b) =~= b);
}

proof fn lemma_digits_not_ends(u: Seq<char>, p: Seq<char>)
    requires
        all_digits(u),
        p.len() > 0,
        !is_digit(p[0]),
    ensures
        !seq_ends(u, p),
{
    if seq_ends(u, p) {
        let i = u.len() - p.len();
        assert(u.subrange(i, u.len() as int)[0] == u[i]);
        assert(is_digit(u[i]));
    }
}

proof fn lemma_digits_not_starts(u: Seq<char>, p: Seq<char>)
    requires
        all_digits(u),
        p.len() > 0,
        !is_digit(p[0]),
    ensures
        !seq_starts(u, p),
{
    if seq_starts(u, p) {
        assert(u.subrange(0, p.len() as int)[0] == u[0]);
        assert(is_digit(u[0]));
    }
}

/// A text of digits carries neither a market suffix nor a market prefix.
proof fn lemma_digits_no_affix(u: Seq<char>)
    requires
        all_digits(u),
    ensures
        suffixed(u) is None,
        prefixed(u) is None,
{
    reveal_strlit(".SS");
    reveal_strlit(".SH");
    reveal_strlit(".SZ");
    reveal_strlit(".BJ");
    reveal_strlit(".HK");
    reveal_strlit(".US");
    reveal_strlit("SH");
    reveal_strlit("SZ");
    reveal_strlit("BJ");
    lemma_digits_not_ends(u, ".SS"@);
    lemma_digits_not_ends(u, ".SH"@);
    lemma_digits_not_ends(u, ".SZ"@);
    lemma_digits_not_ends(u, ".BJ"@);
    lemma_digits_not_ends(u, ".HK"@);
    lemma_digits_not_ends(u, ".US"@);
    lemma_digits_not_starts(u, "SH"@);
    lemma_digits_not_starts(u, "SZ"@);
    lemma_digits_not_starts(u, "BJ"@);
}

/// A bare code of one to five digits is a Hong Kong listing: it parses, with
/// no market hint, to the HK key whose symbol is the same number written with
/// exactly five digits.
pub proof fn law_short_code_is_hk(u: Seq<char>)
    requires
        all_digits(u),
        1 <= u.len() <= 5,
    ensures
        instrument(u, None) == Ok::<(Seq<char>, Market), Seq<char>>(
            (zero_pad(decimal(dec_value(u)), 5), Market::Hk),
        ),
        zero_pad(decimal(dec_value(u)), 5).len() == 5,
        all_digits(zero_pad(decimal(dec_value(u)), 5)),
        dec_value(zero_pad(decimal(dec_value(u)), 5)) == dec_value(u),
{
    lemma_digit_text(u);
    lemma_digits_no_affix(u);
    lemma_dec_value_bound(u);
    reveal_with_fuel(pow10, 6);
    let n = dec_value(u);
    assert(pow10(u.len()) <= 100000);
    assert(n < pow10(5));
    lemma_decimal_len_bound(n, 5);
    lemma_zero_pad_len(decimal(n), 5);
    lemma_zero_pad_decimal(n, 5);
    assert(uint_of(u, 0xffff_ffff) == Some(n));
    assert(inferred(u) == Ok::<Market, Seq<char>>(Market::Hk));
}

/// A bare code of six digits is an A-share listing kept as written: on
/// Shanghai when it begins with `6` or `900`, on Beijing when it begins with
/// `8` or `4`, and on Shenzhen otherwise.
pub proof fn law_six_digit_code_market(u: Seq<char>)
    requires
        all_digits(u),
        u.len() == 6,
    ensures
        instrument(u, None) == Ok::<(Seq<char>, Market), Seq<char>>(
            (
                u,
                if u[0] == '6' || (u[0] == '9' && u[1] == '0' && u[2] == '0') {
                    Market::CnSh
                } else if u[0] == '8' || u[0] == '4' {
                    Market::CnBj
                } else {
                    Market::CnSz
                },
            ),
        ),
{
    lemma_digit_text(u);
    lemma_digits_no_affix(u);
    reveal_strlit("6");
    reveal_strlit("900");
    reveal_strlit("8");
    reveal_strlit("4");
    assert(seq_starts(u, "6"@) == (u[0] == '6')) by {
        if u[0] == '6' {
            assert(u.subrange(0, 1) =~= "6"@);
        }
        assert(u.subrange(0, 1)[0] == u[0]);
    }
    assert(seq_starts(u, "8"@) == (u[0] == '8')) by {
        if u[0] == '8' {
            assert(u.subrange(0, 1) =~= "8"@);
        }
        assert(u.subrange(0, 1)[0] == u[0]);
    }
    assert(seq_starts(u, "4"@) == (u[0] == '4')) by {
        if u[0] == '4' {
            assert(u.subrange(0, 1) =~= "4"@);
        }
        assert(u.subrange(0, 1)[0] == u[0]);
    }
    assert(seq_starts(u, "900"@) == (u[0] == '9' && u[1] == '0' && u[2] == '0')) by {
        if u[0] == '9' && u[1] == '0' && u[2] == '0' {
            assert(u.subrange(0, 3) =~= "900"@);
        }
        assert(u.subrange(0, 3)[0] == u[0]);
        assert(u.subrange(0, 3)[1] == u[1]);
        assert(u.subrange(0, 3)[2] == u[2]);
    }
}

/// The board of a key: `CHINEXT` for a Shenzhen symbol beginning with `300`,
/// `301` or `302`, `STAR` for a Shanghai symbol beginning with `688` or `689`,
/// and otherwise the code of its market; the `创业板` and `科创板` filters hold
/// exactly those keys.
pub proof fn law_board_classes(k: InstrumentKey)
    ensures
        board_of(k) == if k.market == Market::CnSz && k.symbol@.len() >= 3 && (k.symbol@.take(3)
            == "300"@ || k.symbol@.take(3) == "301"@ || k.symbol@.take(3) == "302"@) {
            "CHINEXT"@
        } else if k.market == Market::CnSh && k.symbol@.len() >= 3 && (k.symbol@.take(3)
            == "688"@ || k.symbol@.take(3) == "689"@) {
            "STAR"@
        } else {
            market_code(k.market)
        },
        on_board(k, "创业板"@) == (k.market == Market::CnSz && k.symbol@.len() >= 3 && (
        k.symbol@.take(3) == "300"@ || k.symbol@.take(3) == "301"@ || k.symbol@.take(3)
            == "302"@)),
        on_board(k, "科创板"@) == (k.market == Market::CnSh && k.symbol@.len() >= 3 && (
        k.symbol@.take(3) == "688"@ || k.symbol@.take(3) == "689"@)),
{
    reveal_strlit("300");
    reveal_strlit("301");
    reveal_strlit("302");
    reveal_strlit("688");
    reveal_strlit("689");
    reveal_strlit("ALL");
    reveal_strlit("全部");
    reveal_strlit("US");
    reveal_strlit("美股");
    reveal_strlit("HK");
    reveal_strlit("港股");
    reveal_strlit("CN.SH");
    reveal_strlit("SH");
    reveal_strlit("沪市");
    reveal_strlit("CN.SZ");
    reveal_strlit("SZ");
    reveal_strlit("深市");
    reveal_strlit("CN.BJ");
    reveal_strlit("BJ");
    reveal_strlit("北证");
    reveal_strlit("STAR");
    reveal_strlit("KCB");
    reveal_strlit("科创板");
    reveal_strlit("CHINEXT");
    reveal_strlit("CYB");
    reveal_strlit("创业板");
    lemma_board_literal("创业板"@);
    lemma_board_literal("科创板"@);
    let c = "创业板"@;
    let t = "科创板"@;
    assert(c[0] != 'A' && c[0] != 'K' && c[0] != '科' && c[0] != '沪');
    assert(t[0] != 'A' && t[0] != 'K' && t[0] != '创' && t[0] != '沪');
    assert(c != "ALL"@ && c != "KCB"@ && c != "科创板"@ && c != "CYB"@);
    assert(t != "ALL"@ && t != "KCB"@ && t != "创业板"@ && t != "CYB"@);
    assert(in_board(k.symbol@, k.market, c) == (board_code(k.symbol@, k.market) == "CHINEXT"@));
    assert(in_board(k.symbol@, k.market, t) == (board_code(k.symbol@, k.market) == "STAR"@));
    assert(board_of(k) == board_code(k.symbol@, k.market));
    assert("CHINEXT"@.len() == 7 && "STAR"@.len() == 4 && "CN.SH"@.len() == 5);
    assert("CN.SZ"@.len() == 5 && "CN.BJ"@.len() == 5 && "US"@.len() == 2 && "HK"@.len() == 2);
}

} // verus!
