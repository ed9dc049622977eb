//! The CSV import format: lines, quoted fields, header lookup, listing rows.

use vstd::prelude::*;
use crate::error::AppError;
use crate::models::opt_view;
use crate::text::{
    chars_of, eq_ignore_ascii_case, eq_ignore_case, find_char, find_char_pos, free_of, i64_of,
    lemma_find_char, lemma_find_char_after, lemma_find_char_none, parse_i64, split_on, string_of, sub_vec, trim, trim_chars,
};

verus! {

/// A line without the carriage return that ends it, if any.
pub open spec fn strip_cr(l: Seq<char>) -> Seq<char> {
    if l.len() > 0 && l.last() == '\r' {
        l.drop_last()
    } else {
        l
    }
}

/// What `str::lines` gives: the text split at `\n`, a line ended by `\n`
/// without the `\r` before it, and no empty line after a final `\n`.
pub open spec fn lines(s: Seq<char>) -> Seq<Seq<char>>
    decreases s.len(),
{
    if s.len() == 0 {
        Seq::empty()
    } else {
        proof {
            lemma_find_char(s, '\n');
        }
        match find_char(s, '\n') {
            Some(i) => seq![strip_cr(s.subrange(0, i))] + lines(
                s.subrange(i + 1, s.len() as int),
            ),
            None => seq![s],
        }
    }
}

pub open spec fn blank(l: Seq<char>) -> bool {
    trim(l).len() == 0
}

/// The lines of a text that hold more than whitespace.
pub open spec fn content_lines(s: Seq<char>) -> Seq<Seq<char>> {
    lines(s).filter(|l: Seq<char>| !blank(l))
}

fn strip_cr_vec(l: Vec<char>) -> (r: Vec<char>)
    ensures
        r@ == strip_cr(l@),
{
    if l.len() > 0 && l[l.len() - 1] == '\r' {
        let mut l = l;
        l.pop();
        l
    } else {
        l
    }
}

/// The lines of `s` that hold more than whitespace (`str::lines` filtered).
pub fn content_lines_of(s: &[char]) -> (r: Vec<Vec<char>>)
    ensures
        r@.len() == content_lines(s@).len(),
        forall|i: int| 0 <= i < r@.len() ==> (#[trigger] r@[i])@ == content_lines(s@)[i],
{
    let mut r: Vec<Vec<char>> = Vec::new();
    let mut start: usize = 0;
    let ghost mut done: Seq<Seq<char>> = Seq::empty();
    assert(s@.subrange(0, s@.len() as int) =~= s@);
    while start < s.len()
        invariant
            0 <= start <= s.len(),
            lines(s@) == done + lines(s@.subrange(start as int, s@.len() as int)),
            r@.len() == done.filter(|l: Seq<char>| !blank(l)).len(),
            forall|i: int|
                0 <= i < r@.len() ==> (#[trigger] r@[i])@ == done.filter(
                    |l: Seq<char>| !blank(l),
                )[i],
        decreases s.len() - start,
    {
        let rest = sub_vec(s, start, s.len());
        let ghost rs = s@.subrange(start as int, s@.len() as int);
        assert(rest@ == rs);
        let (line, next) = match find_char_pos(rest.as_slice(), '\n') {
            Some(i) => {
                proof {
                    lemma_find_char(rs, '\n');
                    assert(rs.subrange(i + 1, rs.len() as int) =~= s@.subrange(
                        start + i + 1,
                        s@.len() as int,
                    ));
                }
                (strip_cr_vec(sub_vec(rest.as_slice(), 0, i)), start + i + 1)
            },
            None => {
                proof {
                    assert(s@.subrange(s@.len() as int, s@.len() as int) =~= Seq::<char>::empty());
                    assert(rs.subrange(0, rs.len() as int) =~= rs);
                }
                (sub_vec(rest.as_slice(), 0, rest.len()), s.len())
            },
        };
        proof {
            reveal_with_fuel(Seq::filter, 1);
            let nd = done.push(line@);
            assert(lines(rs) == seq![line@] + lines(s@.subrange(next as int, s@.len() as int)));
            assert(done + lines(rs) =~= nd + lines(s@.subrange(next as int, s@.len() as int)));
            assert(nd.drop_last() =~= done);
        }
        let tl = trim_chars(line.as_slice());
        if tl.len() > 0 {
            r.push(line);
        }
        proof {
            done = done.push(line@);
        }
        start = next;
    }
    proof {
        assert(s@.subrange(s@.len() as int, s@.len() as int) =~= Seq::<char>::empty());
        assert(done + Seq::<Seq<char>>::empty() =~= done);
    }
    r
}

/// The fields of a CSV line, from position `i` on, given the fields `out`
/// already read, the field `cur` being read, and whether a quote is open.
pub open spec fn fields_from(
    l: Seq<char>,
    i: int,
    out: Seq<Seq<char>>,
    cur: Seq<char>,
    quoted: bool,
) -> Seq<Seq<char>>
    decreases l.len() - i,
{
    if i < 0 || i >= l.len() {
        out.push(trim(cur))
    } else {
        let c = l[i];
        if quoted {
            if c == '"' {
                if i + 1 < l.len() && l[i + 1] == '"' {
                    fields_from(l, i + 2, out, cur.push('"'), true)
                } else {
                    fields_from(l, i + 1, out, cur, false)
                }
            } else {
                fields_from(l, i + 1, out, cur.push(c), true)
            }
        } else if c == '"' {
            fields_from(l, i + 1, out, cur, true)
        } else if c == ',' {
            fields_from(l, i + 1, out.push(trim(cur)), Seq::empty(), false)
        } else {
            fields_from(l, i + 1, out, cur.push(c), false)
        }
    }
}

/// The trimmed fields of a CSV line: fields split at commas outside double
/// quotes; a doubled quote inside quotes stands for one quote.
pub open spec fn csv_fields(l: Seq<char>) -> Seq<Seq<char>> {
    fields_from(l, 0, Seq::empty(), Seq::empty(), false)
}

pub open spec fn strings_view(v: Seq<String>) -> Seq<Seq<char>> {
    v.map_values(|s: String| s@)
}

/// Splits one CSV line into trimmed fields.
pub fn split_csv_line(line: &[char]) -> (r: Vec<String>)
    ensures
        strings_view(r@) == csv_fields(line@),
{
    let mut out: Vec<String> = Vec::new();
    let mut cur: Vec<char> = Vec::new();
    let mut in_quotes = false;
    let mut i: usize = 0;
    assert(strings_view(out@) =~= Seq::<Seq<char>>::empty());
    while i < line.len()
        invariant
            0 <= i <= line.len(),
            csv_fields(line@) == fields_from(line@, i as int, strings_view(out@), cur@, in_quotes),
        decreases line.len() - i,
    {
        let c = line[i];
        if in_quotes {
            if c == '"' {
                if i + 1 < line.len() && line[i + 1] == '"' {
                    cur.push('"');
                    i += 1;
                } else {
                    in_quotes = false;
                }
            } else {
                cur.push(c);
            }
        } else if c == '"' {
            in_quotes = true;
        } else if c == ',' {
            let t = trim_chars(cur.as_slice());
            let ghost before = strings_view(out@);
            out.push(string_of(t.as_slice()));
            assert(strings_view(out@) =~= before.push(trim(cur@)));
            cur = Vec::new();
        } else {
            cur.push(c);
        }
        i += 1;
    }
    let t = trim_chars(cur.as_slice());
    let ghost before = strings_view(out@);
    out.push(string_of(t.as_slice()));
    assert(strings_view(out@) =~= before.push(trim(cur@)));
    out
}

/// The header and the rows of a CSV text.
pub open spec fn csv_table(text: Seq<char>) -> Result<(Seq<Seq<char>>, Seq<Seq<Seq<char>>>), Seq<char>> {
    let ls = content_lines(text);
    if ls.len() == 0 {
        Err("CSV is empty"@)
    } else {
        let header = csv_fields(ls[0]);
        if forall|i: int| 0 <= i < header.len() ==> (#[trigger] header[i]).len() == 0 {
            Err("CSV header is empty"@)
        } else {
            Ok(
                (
                    header,
                    ls.subrange(1, ls.len() as int).map_values(|l: Seq<char>| csv_fields(l)),
                ),
            )
        }
    }
}

/// Splits a CSV text into its header and its rows; blank lines are skipped.
pub fn csv_rows(text: &str) -> (r: Result<(Vec<String>, Vec<Vec<String>>), AppError>)
    ensures
        match csv_table(text@) {
            Ok((h, rows)) => r matches Ok((rh, rr)) && strings_view(rh@) == h && rr@.len()
                == rows.len() && forall|i: int|
                0 <= i < rows.len() ==> strings_view(#[trigger] rr@[i]@) == rows[i],
            Err(e) => r matches Err(AppError::InvalidArg(m)) && m@ == e,
        },
{
    let chars = chars_of(text);
    let ls = content_lines_of(chars.as_slice());
    if ls.len() == 0 {
        return Err(AppError::InvalidArg(String::from_str("CSV is empty")));
    }
    let header = split_csv_line(ls[0].as_slice());
    let mut all_empty = true;
    let mut i: usize = 0;
    while i < header.len()
        invariant
            0 <= i <= header.len(),
            all_empty == forall|j: int| 0 <= j < i ==> (#[trigger] header@[j])@.len() == 0,
        decreases header.len() - i,
    {
        if !header[i].as_str().is_empty() {
            all_empty = false;
        }
        i += 1;
    }
    proof {
        assert forall|j: int| 0 <= j < header@.len() implies (#[trigger] header@[j])@
            == strings_view(header@)[j] by {}
    }
    if all_empty {
        return Err(AppError::InvalidArg(String::from_str("CSV header is empty")));
    }
    let ghost lsv = content_lines(text@);
    let mut rows: Vec<Vec<String>> = Vec::new();
    let mut k: usize = 1;
    while k < ls.len()
        invariant
            1 <= k <= ls.len(),
            ls@.len() == lsv.len(),
            forall|j: int| 0 <= j < ls@.len() ==> (#[trigger] ls@[j])@ == lsv[j],
            rows@.len() == k - 1,
            forall|j: int|
                0 <= j < rows@.len() ==> strings_view(#[trigger] rows@[j]@) == csv_fields(
                    lsv[j + 1],
                ),
        decreases ls.len() - k,
    {
        rows.push(split_csv_line(ls[k].as_slice()));
        k += 1;
    }
    Ok((header, rows))
}

/// `trim(s)` where it is not empty.
pub open spec fn nonempty_spec(s: Seq<char>) -> Option<Seq<char>> {
    if trim(s).len() == 0 {
        None
    } else {
        Some(trim(s))
    }
}

pub fn nonempty(s: &String) -> (r: Option<String>)
    ensures
        opt_view(r) == nonempty_spec(s@),
{
    let t = crate::text::trim_str(s.as_str());
    if t.len() == 0 {
        None
    } else {
        Some(string_of(t.as_slice()))
    }
}

/// The position of the first header equal to `name` ignoring ASCII case.
pub open spec fn header_pos(header: Seq<Seq<char>>, name: Seq<char>) -> Option<int>
    decreases header.len(),
{
    if header.len() == 0 {
        None
    } else if eq_ignore_case(header[0], name) {
        Some(0)
    } else {
        match header_pos(header.subrange(1, header.len() as int), name) {
            Some(i) => Some(i + 1),
            None => None,
        }
    }
}

/// The non-blank, trimmed value of column `name` in a row.
pub open spec fn field(header: Seq<Seq<char>>, cols: Seq<Seq<char>>, name: Seq<char>) -> Option<
    Seq<char>,
> {
    match header_pos(header, name) {
        Some(i) => if i < cols.len() {
            nonempty_spec(cols[i])
        } else {
            None
        },
        None => None,
    }
}

proof fn lemma_header_pos(header: Seq<Seq<char>>, name: Seq<char>)
    ensures
        header_pos(header, name) matches Some(i) ==> 0 <= i < header.len() && eq_ignore_case(
            header[i],
            name,
        ) && forall|j: int| 0 <= j < i ==> !eq_ignore_case(header[j], name),
        header_pos(header, name) is None ==> forall|j: int|
            0 <= j < header.len() ==> !eq_ignore_case(header[j], name),
    decreases header.len(),
{
    if header.len() > 0 && !eq_ignore_case(header[0], name) {
        let t = header.subrange(1, header.len() as int);
        lemma_header_pos(t, name);
        assert forall|j: int| 0 < j < header.len() implies header[j] == t[j - 1] by {}
    }
}

/// The value of column `name` in a row: trimmed, and only where not blank.
pub fn csv_get(header: &Vec<String>, cols: &Vec<String>, name: &str) -> (r: Option<String>)
    ensures
        opt_view(r) == field(strings_view(header@), strings_view(cols@), name@),
{
    let n = chars_of(name);
    let ghost hv = strings_view(header@);
    proof {
        lemma_header_pos(hv, name@);
    }
    let mut i: usize = 0;
    while i < header.len()
        invariant
            0 <= i <= header.len(),
            hv == strings_view(header@),
            n@ == name@,
            forall|j: int| 0 <= j < i ==> !eq_ignore_case(#[trigger] hv[j], name@),
            header_pos(hv, name@) matches Some(p) ==> 0 <= p < hv.len() && eq_ignore_case(
                hv[p],
                name@,
            ) && forall|j: int| 0 <= j < p ==> !eq_ignore_case(hv[j], name@),
            header_pos(hv, name@) is None ==> forall|j: int|
                0 <= j < hv.len() ==> !eq_ignore_case(hv[j], name@),
        decreases header.len() - i,
    {
        let h = chars_of(header[i].as_str());
        assert(h@ == hv[i as int]);
        if eq_ignore_ascii_case(h.as_slice(), n.as_slice()) {
            assert(header_pos(hv, name@) == Some(i as int));
            if i < cols.len() {
                assert(strings_view(cols@)[i as int] == cols@[i as int]@);
                return nonempty(&cols[i]);
            } else {
                return None;
            }
        }
        i += 1;
    }
    None
}

/// A listing row of an import file, before its symbol is normalized.
#[derive(Debug, Clone)]
pub struct ListingImport {
    pub symbol: String,
    pub market: Option<String>,
    pub exchange: Option<String>,
    pub name: Option<String>,
    pub name_en: Option<String>,
    pub currency: Option<String>,
    pub instrument_type: Option<String>,
    pub isin: Option<String>,
    pub listing_date: Option<String>,
    pub status: Option<String>,
    pub sector: Option<String>,
    pub industry: Option<String>,
    pub lot_size: Option<i64>,
    pub source: Option<String>,
    pub source_symbol: Option<String>,
    pub metadata: Vec<crate::models::MetadataEntry>,
}

/// The lot size a column holds, where it holds an `i64`.
pub open spec fn lot_size_of(f: Option<Seq<char>>) -> Option<int> {
    match f {
        Some(s) => i64_of(s),
        None => None,
    }
}

/// A listing row read from the CSV columns of `cols`.
pub open spec fn listing_row(l: ListingImport, h: Seq<Seq<char>>, cols: Seq<Seq<char>>) -> bool {
    &&& Some(l.symbol@) == field(h, cols, "symbol"@)
    &&& opt_view(l.market) == field(h, cols, "market"@)
    &&& opt_view(l.exchange) == field(h, cols, "exchange"@)
    &&& opt_view(l.name) == field(h, cols, "name"@)
    &&& opt_view(l.name_en) == field(h, cols, "name_en"@)
    &&& opt_view(l.currency) == field(h, cols, "currency"@)
    &&& opt_view(l.instrument_type) == field(h, cols, "instrument_type"@)
    &&& opt_view(l.isin) == field(h, cols, "isin"@)
    &&& opt_view(l.listing_date) == field(h, cols, "listing_date"@)
    &&& opt_view(l.status) == field(h, cols, "status"@)
    &&& opt_view(l.sector) == field(h, cols, "sector"@)
    &&& opt_view(l.industry) == field(h, cols, "industry"@)
    &&& match l.lot_size {
        Some(v) => lot_size_of(field(h, cols, "lot_size"@)) == Some(v as int),
        None => lot_size_of(field(h, cols, "lot_size"@)) is None,
    }
    &&& opt_view(l.source) == field(h, cols, "source"@)
    &&& opt_view(l.source_symbol) == field(h, cols, "source_symbol"@)
    &&& l.metadata@.len() == 0
}

/// The rows that name a symbol.
pub open spec fn symbol_rows(h: Seq<Seq<char>>, rows: Seq<Seq<Seq<char>>>) -> Seq<Seq<Seq<char>>> {
    rows.filter(|cols: Seq<Seq<char>>| field(h, cols, "symbol"@) is Some)
}

/// Reads the listing rows of a CSV text; rows without a symbol are skipped.
pub fn csv_listings(text: &str) -> (r: Result<Vec<ListingImport>, AppError>)
    ensures
        match csv_table(text@) {
            Ok((h, rows)) => r matches Ok(ls) && ls@.len() == symbol_rows(h, rows).len()
                && forall|i: int|
                0 <= i < ls@.len() ==> listing_row(#[trigger] ls@[i], h, symbol_rows(h, rows)[i]),
            Err(e) => r matches Err(AppError::InvalidArg(m)) && m@ == e,
        },
{
    let (header, rows) = match csv_rows(text) {
        Ok(t) => t,
        Err(e) => return Err(e),
    };
    let ghost h = strings_view(header@);
    let ghost rv = rows@.map_values(|c: Vec<String>| strings_view(c@));
    proof {
        let t = csv_table(text@)->Ok_0;
        assert(rv =~= t.1);
    }
    let mut out: Vec<ListingImport> = Vec::new();
    let mut k: usize = 0;
    while k < rows.len()
        invariant
            0 <= k <= rows.len(),
            h == strings_view(header@),
            rv == rows@.map_values(|c: Vec<String>| strings_view(c@)),
            out@.len() == symbol_rows(h, rv.take(k as int)).len(),
            forall|i: int|
                0 <= i < out@.len() ==> listing_row(
                    #[trigger] out@[i],
                    h,
                    symbol_rows(h, rv.take(k as int))[i],
                ),
        decreases rows.len() - k,
    {
        proof {
            reveal_with_fuel(Seq::filter, 1);
            assert(rv.take(k + 1).drop_last() =~= rv.take(k as int));
        }
        let cols = &rows[k];
        assert(strings_view(cols@) == rv[k as int]);
        match csv_get(&header, cols, "symbol") {
            Some(symbol) => {
                let lot = match csv_get(&header, cols, "lot_size") {
                    Some(s) => parse_i64(chars_of(s.as_str()).as_slice()),
                    None => None,
                };
                out.push(
                    ListingImport {
                        symbol,
                        market: csv_get(&header, cols, "market"),
                        exchange: csv_get(&header, cols, "exchange"),
                        name: csv_get(&header, cols, "name"),
                        name_en: csv_get(&header, cols, "name_en"),
                        currency: csv_get(&header, cols, "currency"),
                        instrument_type: csv_get(&header, cols, "instrument_type"),
                        isin: csv_get(&header, cols, "isin"),
                        listing_date: csv_get(&header, cols, "listing_date"),
                        status: csv_get(&header, cols, "status"),
                        sector: csv_get(&header, cols, "sector"),
                        industry: csv_get(&header, cols, "industry"),
                        lot_size: lot,
                        source: csv_get(&header, cols, "source"),
                        source_symbol: csv_get(&header, cols, "source_symbol"),
                        metadata: Vec::new(),
                    },
                );
            },
            None => {},
        }
        k += 1;
    }
    proof {
        assert(rv.take(rows@.len() as int) =~= rv);
    }
    Ok(out)
}

/// The pieces of a line between commas, each trimmed.
pub open spec fn plain_fields(l: Seq<char>) -> Seq<Seq<char>> {
    split_on(l, ',').map_values(|p: Seq<char>| trim(p))
}

proof fn lemma_fields_plain(l: Seq<char>, i: int, out: Seq<Seq<char>>, cur: Seq<char>)
    requires
        free_of(l, '"'),
        free_of(cur, ','),
        0 <= i <= l.len(),
    ensures
        fields_from(l, i, out, cur, false) == out + plain_fields(cur + l.skip(i)),
    decreases l.len() - i,
{
    let rest = cur + l.skip(i);
    if i >= l.len() {
        assert(rest =~= cur);
        lemma_find_char_none(cur, ',');
        assert(split_on(cur, ',') == seq![cur]);
        assert(plain_fields(cur) =~= seq![trim(cur)]);
    } else {
        let c = l[i];
        assert(c != '"');
        if c == ',' {
            lemma_fields_plain(l, i + 1, out.push(trim(cur)), Seq::empty());
            assert(Seq::<char>::empty() + l.skip(i + 1) =~= l.skip(i + 1));
            assert(l.skip(i) =~= seq![','] + l.skip(i + 1));
            lemma_find_char_after(cur, l.skip(i), ',');
            lemma_find_char(l.skip(i), ',');
            assert(find_char(l.skip(i), ',') == Some(0int));
            assert(find_char(rest, ',') == Some(cur.len() as int));
            assert(rest.take(cur.len() as int) =~= cur);
            assert(rest.skip(cur.len() as int + 1) =~= l.skip(i + 1));
            assert(split_on(rest, ',') == seq![cur] + split_on(l.skip(i + 1), ','));
            assert(plain_fields(rest) =~= seq![trim(cur)] + plain_fields(l.skip(i + 1)));
            assert(out.push(trim(cur)) + plain_fields(l.skip(i + 1)) =~= out + plain_fields(rest));
        } else {
            let nc = cur.push(c);
            assert(free_of(nc, ',')) by {
                assert forall|k: int| 0 <= k < nc.len() implies nc[k] != ',' by {
                    if k < cur.len() {
                        assert(nc[k] == cur[k]);
                    }
                }
            }
            lemma_fields_plain(l, i + 1, out, nc);
            assert(nc + l.skip(i + 1) =~= rest);
        }
    }
}

/// A line without double quotes splits at every comma, each field trimmed.
pub proof fn law_csv_plain_line(l: Seq<char>)
    requires
        free_of(l, '"'),
    ensures
        csv_fields(l) == plain_fields(l),
{
    lemma_fields_plain(l, 0, Seq::empty(), Seq::empty());
    assert(Seq::<char>::empty() + l.skip(0) =~= l);
    assert(Seq::<Seq<char>>::empty() + plain_fields(l) =~= plain_fields(l));
}

} // verus!
