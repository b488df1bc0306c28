//! The line format shared by every durable receipt: a bracketed,
//! comma-separated list of unsigned decimal numbers, e.g. `[1,2,3]`.
//!
//! Reading follows the rules the records were always read with: the line is
//! trimmed of Unicode white space, must start with `[` and end with `]`, the
//! body is split at every comma, and each piece, trimmed again, is an
//! unsigned decimal with an optional leading `+` that fits in 64 bits.
use vstd::prelude::*;
use crate::text::{chars_of, chars_start_with, digit_char, is_digit, digit_value, new_string, push_char, push_decimal, spec_decimal};

verus! {

/// Unicode `White_Space`, the set `char::is_whitespace` tests.
pub open spec fn is_ws(c: char) -> bool {
    ||| ('\u{9}' <= c && c <= '\u{d}')
    ||| c == ' '
    ||| c == '\u{85}'
    ||| c == '\u{a0}'
    ||| c == '\u{1680}'
    ||| ('\u{2000}' <= c && c <= '\u{200a}')
    ||| c == '\u{2028}'
    ||| c == '\u{2029}'
    ||| c == '\u{202f}'
    ||| c == '\u{205f}'
    ||| c == '\u{3000}'
}

pub fn is_ws_char(c: char) -> (r: bool)
    ensures
        r == is_ws(c),
{
    ('\u{9}' <= c && c <= '\u{d}') || c == ' ' || c == '\u{85}' || c == '\u{a0}' || c
        == '\u{1680}' || ('\u{2000}' <= c && c <= '\u{200a}') || c == '\u{2028}' || c
        == '\u{2029}' || c == '\u{202f}' || c == '\u{205f}' || c == '\u{3000}'
}

pub open spec fn trim_start(s: Seq<char>) -> Seq<char>
    decreases s.len(),
{
    if s.len() > 0 && is_ws(s[0]) {
        trim_start(s.drop_first())
    } else {
        s
    }
}

pub open spec fn trim_end(s: Seq<char>) -> Seq<char>
    decreases s.len(),
{
    if s.len() > 0 && is_ws(s.last()) {
        trim_end(s.drop_last())
    } else {
        s
    }
}

/// `str::trim`.
pub open spec fn trim(s: Seq<char>) -> Seq<char> {
    trim_end(trim_start(s))
}

pub proof fn lemma_trim_start_step(s: Seq<char>, i: int)
    requires
        0 <= i < s.len(),
        is_ws(s[i]),
    ensures
        trim_start(s.subrange(i, s.len() as int)) == trim_start(s.subrange(i + 1, s.len() as int)),
{
    assert(s.subrange(i, s.len() as int).drop_first() =~= s.subrange(i + 1, s.len() as int));
}

proof fn lemma_trim_end_step(s: Seq<char>, lo: int, j: int)
    requires
        0 <= lo < j <= s.len(),
        is_ws(s[j - 1]),
    ensures
        trim_end(s.subrange(lo, j)) == trim_end(s.subrange(lo, j - 1)),
{
    assert(s.subrange(lo, j).drop_last() =~= s.subrange(lo, j - 1));
}

/// The bounds of `trim(v@)` inside `v`.
pub fn trim_bounds(v: &Vec<char>, from: usize, to: usize) -> (r: (usize, usize))
    requires
        from <= to <= v@.len(),
    ensures
        from <= r.0 <= r.1 <= to,
        trim(v@.subrange(from as int, to as int)) == v@.subrange(r.0 as int, r.1 as int),
{
    let mut lo = from;
    while lo < to && is_ws_char(v[lo])
        invariant
            from <= lo <= to <= v@.len(),
            trim_start(v@.subrange(from as int, to as int)) == trim_start(
                v@.subrange(lo as int, to as int),
            ),
        decreases to - lo,
    {
        proof {
            lemma_trim_start_step(v@.subrange(0, to as int), lo as int);
            assert(v@.subrange(0, to as int).subrange(lo as int, to as int) =~= v@.subrange(
                lo as int,
                to as int,
            ));
            assert(v@.subrange(0, to as int).subrange(lo as int + 1, to as int) =~= v@.subrange(
                lo as int + 1,
                to as int,
            ));
        }
        lo = lo + 1;
    }
    assert(trim_start(v@.subrange(lo as int, to as int)) == v@.subrange(lo as int, to as int));
    let mut hi = to;
    while hi > lo && is_ws_char(v[hi - 1])
        invariant
            from <= lo <= hi <= to <= v@.len(),
            trim_end(v@.subrange(lo as int, to as int)) == trim_end(
                v@.subrange(lo as int, hi as int),
            ),
        decreases hi - lo,
    {
        proof {
            lemma_trim_end_step(v@, lo as int, hi as int);
        }
        hi = hi - 1;
    }
    (lo, hi)
}

/// `str::split(',')`, built one character at a time.
pub open spec fn split_commas(s: Seq<char>) -> Seq<Seq<char>>
    decreases s.len(),
{
    if s.len() == 0 {
        seq![Seq::<char>::empty()]
    } else {
        let p = split_commas(s.drop_last());
        if s.last() == ',' {
            p.push(Seq::<char>::empty())
        } else {
            p.update(p.len() - 1, p.last().push(s.last()))
        }
    }
}

proof fn lemma_split_nonempty(s: Seq<char>)
    ensures
        split_commas(s).len() >= 1,
    decreases s.len(),
{
    if s.len() > 0 {
        lemma_split_nonempty(s.drop_last());
    }
}

/// Value of a run of decimal digits.
pub open spec fn digits_value(d: Seq<char>) -> nat
    decreases d.len(),
{
    if d.len() == 0 {
        0
    } else {
        digits_value(d.drop_last()) * 10 + digit_value(d.last())
    }
}

pub open spec fn all_digits(d: Seq<char>) -> bool {
    forall|i: int| 0 <= i < d.len() ==> is_digit(#[trigger] d[i])
}

/// `u64::from_str` on a trimmed piece.
pub open spec fn parse_u64_piece(p: Seq<char>) -> Option<u64> {
    let q = trim(p);
    let r = if q.len() > 0 && q[0] == '+' {
        q.drop_first()
    } else {
        q
    };
    if r.len() > 0 && all_digits(r) && digits_value(r) <= u64::MAX {
        Some(digits_value(r) as u64)
    } else {
        None
    }
}

pub open spec fn parse_pieces(ps: Seq<Seq<char>>) -> Option<Seq<u64>>
    decreases ps.len(),
{
    if ps.len() == 0 {
        Some(Seq::<u64>::empty())
    } else {
        match (parse_pieces(ps.drop_last()), parse_u64_piece(ps.last())) {
            (Some(a), Some(v)) => Some(a.push(v)),
            _ => None,
        }
    }
}

/// The fields of a bracketed number list, or `None` when the line is not one.
pub open spec fn parse_u64_list(line: Seq<char>) -> Option<Seq<u64>> {
    let t = trim(line);
    if t.len() >= 2 && t[0] == '[' && t.last() == ']' {
        parse_pieces(split_commas(t.subrange(1, t.len() - 1)))
    } else {
        None
    }
}

/// Comma-joined decimal renderings.
pub open spec fn join_decimals(fs: Seq<u64>) -> Seq<char>
    decreases fs.len(),
{
    if fs.len() == 0 {
        Seq::<char>::empty()
    } else if fs.len() == 1 {
        spec_decimal(fs[0] as nat)
    } else {
        join_decimals(fs.drop_last()) + seq![','] + spec_decimal(fs.last() as nat)
    }
}

/// The line that holds a list of fields.
pub open spec fn encode_u64_list(fs: Seq<u64>) -> Seq<char> {
    seq!['['] + join_decimals(fs) + seq![']']
}

proof fn lemma_digits_value_prefix(d: Seq<char>, i: int)
    requires
        0 <= i <= d.len(),
        all_digits(d),
    ensures
        digits_value(d.take(i)) <= digits_value(d),
    decreases d.len() - i,
{
    if i < d.len() {
        lemma_digits_value_prefix(d, i + 1);
        assert(d.take(i + 1).drop_last() =~= d.take(i));
    } else {
        assert(d.take(i) =~= d);
    }
}

/// Digits `v[lo..hi]` as a number, when they are all digits and fit.
pub fn parse_digits(v: &Vec<char>, lo: usize, hi: usize) -> (res: Option<u64>)
    requires
        lo <= hi <= v@.len(),
    ensures
        ({
            let d = v@.subrange(lo as int, hi as int);
            res == (if all_digits(d) && digits_value(d) <= u64::MAX {
                Some(digits_value(d) as u64)
            } else {
                None
            })
        }),
{
    let ghost d = v@.subrange(lo as int, hi as int);
    let mut acc: u64 = 0;
    let mut i = lo;
    while i < hi
        invariant
            lo <= i <= hi <= v@.len(),
            d == v@.subrange(lo as int, hi as int),
            all_digits(d.take(i - lo)),
            acc as nat == digits_value(d.take(i - lo)),
        decreases hi - i,
    {
        let c = v[i];
        assert(c == d[i - lo]);
        if !(c >= '0' && c <= '9') {
            assert(!is_digit(d[i - lo]));
            assert(!all_digits(d));
            return None;
        }
        let dv: u64 = (c as u64) - ('0' as u64);
        assert(d.take(i - lo + 1).drop_last() =~= d.take(i - lo));
        assert(d.take(i - lo + 1).last() == c);
        assert(all_digits(d.take(i - lo + 1)));
        assert(digits_value(d.take(i - lo + 1)) == acc * 10 + dv);
        let m = acc.checked_mul(10);
        if m.is_none() {
            proof {
                if all_digits(d) {
                    lemma_digits_value_prefix(d, i - lo + 1);
                }
            }
            return None;
        }
        let n = m.unwrap().checked_add(dv);
        if n.is_none() {
            proof {
                if all_digits(d) {
                    lemma_digits_value_prefix(d, i - lo + 1);
                }
            }
            return None;
        }
        acc = n.unwrap();
        i = i + 1;
    }
    assert(d.take(i - lo) =~= d);
    Some(acc)
}

fn parse_piece(v: &Vec<char>) -> (res: Option<u64>)
    ensures
        res == parse_u64_piece(v@),
{
    let (lo0, hi) = trim_bounds(v, 0, v.len());
    assert(v@.subrange(0, v@.len() as int) =~= v@);
    let ghost q = v@.subrange(lo0 as int, hi as int);
    let mut lo = lo0;
    if lo < hi && v[lo] == '+' {
        lo = lo + 1;
    }
    assert(v@.subrange(lo as int, hi as int) =~= (if q.len() > 0 && q[0] == '+' {
        q.drop_first()
    } else {
        q
    }));
    if lo >= hi {
        return None;
    }
    parse_digits(v, lo, hi)
}

proof fn lemma_parse_pieces_fails(ps: Seq<Seq<char>>, j: int)
    requires
        0 <= j < ps.len(),
        parse_u64_piece(ps[j]) is None,
    ensures
        parse_pieces(ps) is None,
    decreases ps.len(),
{
    if j < ps.len() - 1 {
        lemma_parse_pieces_fails(ps.drop_last(), j);
    }
}

/// Reads a bracketed number list.
pub fn parse_u64_list_exec(line: &str) -> (r: Option<Vec<u64>>)
    ensures
        match r {
            Some(v) => parse_u64_list(line@) == Some(v@),
            None => parse_u64_list(line@) is None,
        },
{
    let chars = chars_of(line);
    let (lo, hi) = trim_bounds(&chars, 0, chars.len());
    assert(chars@.subrange(0, chars@.len() as int) =~= chars@);
    let ghost t = chars@.subrange(lo as int, hi as int);
    if !(hi - lo >= 2 && chars[lo] == '[' && chars[hi - 1] == ']') {
        return None;
    }
    let ghost body = t.subrange(1, t.len() - 1);
    assert(body =~= chars@.subrange(lo + 1, hi - 1));
    assert(t == trim(line@));
    assert(t.len() >= 2 && t[0] == '[' && t.last() == ']');
    assert(parse_u64_list(line@) == parse_pieces(split_commas(body)));
    // Split the body at every comma.
    let mut pieces: Vec<Vec<char>> = Vec::new();
    let mut cur: Vec<char> = Vec::new();
    let ghost mut gp: Seq<Seq<char>> = Seq::empty();
    let mut k = lo + 1;
    while k < hi - 1
        invariant
            lo + 1 <= k <= hi - 1,
            hi <= chars@.len(),
            body == chars@.subrange(lo + 1, hi - 1),
            gp.len() == pieces@.len(),
            forall|i: int| 0 <= i < gp.len() ==> #[trigger] pieces@[i]@ == gp[i],
            split_commas(body.take(k - lo - 1)) == gp.push(cur@),
        decreases hi - 1 - k,
    {
        let c = chars[k];
        assert(body.take(k - lo).drop_last() =~= body.take(k - lo - 1));
        assert(body.take(k - lo).last() == c);
        if c == ',' {
            let done = cur;
            proof {
                gp = gp.push(done@);
            }
            pieces.push(done);
            cur = Vec::new();
            assert(split_commas(body.take(k - lo)) =~= gp.push(cur@));
        } else {
            let ghost old_cur = cur@;
            cur.push(c);
            assert(split_commas(body.take(k - lo)) =~= gp.push(cur@));
        }
        k = k + 1;
    }
    assert(body.take(k - lo - 1) =~= body);
    proof {
        gp = gp.push(cur@);
    }
    pieces.push(cur);
    // Parse every piece.
    let mut out: Vec<u64> = Vec::new();
    let mut j: usize = 0;
    while j < pieces.len()
        invariant
            j <= pieces@.len(),
            gp.len() == pieces@.len(),
            forall|i: int| 0 <= i < gp.len() ==> #[trigger] pieces@[i]@ == gp[i],
            gp == split_commas(body),
            parse_u64_list(line@) == parse_pieces(gp),
            parse_pieces(gp.take(j as int)) == Some(out@),
        decreases pieces@.len() - j,
    {
        assert(gp.take(j as int + 1).drop_last() =~= gp.take(j as int));
        match parse_piece(&pieces[j]) {
            Some(x) => {
                out.push(x);
            },
            None => {
                proof {
                    assert(pieces@[j as int]@ == gp[j as int]);
                    lemma_parse_pieces_fails(gp, j as int);
                }
                return None;
            },
        }
        j = j + 1;
    }
    assert(gp.take(j as int) =~= gp);
    Some(out)
}

proof fn lemma_decimal_digits(n: nat)
    ensures
        spec_decimal(n).len() >= 1,
        all_digits(spec_decimal(n)),
        digits_value(spec_decimal(n)) == n,
    decreases n,
{
    if n >= 10 {
        lemma_decimal_digits(n / 10);
        let s = spec_decimal(n / 10);
        let c = digit_char(n % 10);
        assert(spec_decimal(n) == s.push(c));
        assert(s.push(c).drop_last() =~= s);
        lemma_digit_char(n % 10);
        assert(digit_value(c) == n % 10);
        vstd::arithmetic::div_mod::lemma_fundamental_div_mod(n as int, 10);
        assert(digits_value(s.push(c)) == digits_value(s) * 10 + digit_value(c));
        assert(digits_value(s) == n / 10);
        assert((n / 10) * 10 + n % 10 == n);
        assert forall|i: int| 0 <= i < s.push(c).len() implies is_digit(#[trigger] s.push(c)[i]) by {
            if i < s.len() {
                assert(s.push(c)[i] == s[i]);
            }
        }
    } else {
        lemma_digit_char(n);
        assert(spec_decimal(n) == seq![digit_char(n)]);
        assert(seq![digit_char(n)].drop_last() =~= Seq::<char>::empty());
        assert(digits_value(Seq::<char>::empty()) == 0);
        assert(digits_value(seq![digit_char(n)]) == digit_value(digit_char(n)));
    }
}

proof fn lemma_digit_char(d: nat)
    requires
        d < 10,
    ensures
        is_digit(digit_char(d)),
        digit_value(digit_char(d)) == d,
{
}

pub open spec fn no_commas(t: Seq<char>) -> bool {
    forall|i: int| 0 <= i < t.len() ==> t[i] != ','
}

proof fn lemma_split_append(s: Seq<char>, t: Seq<char>)
    requires
        no_commas(t),
    ensures
        split_commas(s + t) == split_commas(s).update(
            split_commas(s).len() - 1,
            split_commas(s).last() + t,
        ),
    decreases t.len(),
{
    lemma_split_nonempty(s);
    if t.len() == 0 {
        assert(s + t =~= s);
        assert(split_commas(s).last() + t =~= split_commas(s).last());
        assert(split_commas(s).update(split_commas(s).len() - 1, split_commas(s).last())
            =~= split_commas(s));
    } else {
        let u = t.drop_last();
        let c = t.last();
        lemma_split_append(s, u);
        assert(s + t =~= (s + u).push(c));
        assert((s + t).drop_last() =~= s + u);
        assert((s + t).last() == c);
        assert(c != ',');
        lemma_split_nonempty(s + u);
        let p = split_commas(s + u);
        assert(split_commas(s + t) == p.update(p.len() - 1, p.last().push(c)));
        assert(p.last() == split_commas(s).last() + u);
        assert(p.last().push(c) =~= split_commas(s).last() + t);
        assert(split_commas(s + t) =~= split_commas(s).update(
            split_commas(s).len() - 1,
            split_commas(s).last() + t,
        ));
    }
}

proof fn lemma_digits_no_commas(d: Seq<char>)
    requires
        all_digits(d),
    ensures
        no_commas(d),
{
    assert forall|i: int| 0 <= i < d.len() implies d[i] != ',' by {
        assert(is_digit(d[i]));
    }
}

proof fn lemma_split_join(fs: Seq<u64>)
    requires
        fs.len() >= 1,
    ensures
        split_commas(join_decimals(fs)) == Seq::new(fs.len(), |i: int| spec_decimal(fs[i] as nat)),
    decreases fs.len(),
{
    lemma_decimal_digits(fs.last() as nat);
    lemma_digits_no_commas(spec_decimal(fs.last() as nat));
    if fs.len() == 1 {
        let e = Seq::<char>::empty();
        lemma_split_append(e, spec_decimal(fs[0] as nat));
        assert(e + spec_decimal(fs[0] as nat) =~= spec_decimal(fs[0] as nat));
        assert(split_commas(e) == seq![e]);
        assert(split_commas(join_decimals(fs)) =~= Seq::new(
            fs.len(),
            |i: int| spec_decimal(fs[i] as nat),
        ));
    } else {
        let a = join_decimals(fs.drop_last());
        let b = spec_decimal(fs.last() as nat);
        lemma_split_join(fs.drop_last());
        let ac = a + seq![','];
        assert(ac.drop_last() =~= a);
        assert(split_commas(ac) == split_commas(a).push(Seq::<char>::empty()));
        lemma_split_append(ac, b);
        assert(join_decimals(fs) =~= ac + b);
        assert(Seq::<char>::empty() + b =~= b);
        assert(split_commas(join_decimals(fs)) =~= Seq::new(
            fs.len(),
            |i: int| spec_decimal(fs[i] as nat),
        ));
    }
}

proof fn lemma_trim_digits(d: Seq<char>)
    requires
        d.len() >= 1,
        all_digits(d),
    ensures
        trim(d) == d,
{
    assert(is_digit(d[0]));
    assert(is_digit(d.last()));
    assert(trim_start(d) == d);
    assert(trim_end(d) == d);
}

proof fn lemma_parse_decimals(fs: Seq<u64>)
    ensures
        parse_pieces(Seq::new(fs.len(), |i: int| spec_decimal(fs[i] as nat))) == Some(fs),
    decreases fs.len(),
{
    let ps = Seq::new(fs.len(), |i: int| spec_decimal(fs[i] as nat));
    if fs.len() == 0 {
        assert(fs =~= Seq::<u64>::empty());
    } else {
        lemma_parse_decimals(fs.drop_last());
        assert(ps.drop_last() =~= Seq::new(
            fs.drop_last().len(),
            |i: int| spec_decimal(fs.drop_last()[i] as nat),
        ));
        let d = spec_decimal(fs.last() as nat);
        lemma_decimal_digits(fs.last() as nat);
        lemma_trim_digits(d);
        assert(is_digit(d[0]));
        assert(ps.last() == d);
        assert(parse_u64_piece(d) == Some(fs.last()));
        assert(fs.drop_last().push(fs.last()) =~= fs);
    }
}

/// Reading back a written list of fields gives the same fields.
pub proof fn lemma_u64_list_round_trip(fs: Seq<u64>)
    requires
        fs.len() >= 1,
    ensures
        parse_u64_list(encode_u64_list(fs)) == Some(fs),
        trim(encode_u64_list(fs)) == encode_u64_list(fs),
        encode_u64_list(fs).subrange(1, encode_u64_list(fs).len() - 1) == join_decimals(fs),
        trim(join_decimals(fs)).len() > 0,
{
    let line = encode_u64_list(fs);
    let body = join_decimals(fs);
    assert(line[0] == '[');
    assert(line.last() == ']');
    assert(trim_start(line) == line);
    assert(trim_end(line) == line);
    assert(line.subrange(1, line.len() - 1) =~= body);
    lemma_split_join(fs);
    lemma_parse_decimals(fs);
    lemma_join_starts_with_digit(fs);
    assert(trim_start(body) == body);
}

proof fn lemma_join_starts_with_digit(fs: Seq<u64>)
    requires
        fs.len() >= 1,
    ensures
        join_decimals(fs).len() >= 1,
        is_digit(join_decimals(fs)[0]),
    decreases fs.len(),
{
    if fs.len() == 1 {
        lemma_decimal_digits(fs[0] as nat);
        assert(is_digit(spec_decimal(fs[0] as nat)[0]));
    } else {
        lemma_join_starts_with_digit(fs.drop_last());
        let a = join_decimals(fs.drop_last());
        assert((a + seq![','] + spec_decimal(fs.last() as nat))[0] == a[0]);
    }
}

/// Writes a list of fields as one line (without a line break).
pub fn encode_u64_list_exec(fields: &[u64]) -> (s: String)
    ensures
        s@ == encode_u64_list(fields@),
{
    let mut s = new_string();
    push_char(&mut s, '[');
    let mut i: usize = 0;
    while i < fields.len()
        invariant
            i <= fields@.len(),
            s@ == seq!['['] + join_decimals(fields@.take(i as int)),
        decreases fields@.len() - i,
    {
        let ghost before = s@;
        assert(fields@.take(i as int + 1).drop_last() =~= fields@.take(i as int));
        if i > 0 {
            push_char(&mut s, ',');
        }
        push_decimal(&mut s, fields[i]);
        proof {
            if i == 0 {
                assert(join_decimals(fields@.take(1)) == spec_decimal(fields@[0] as nat));
            }
        }
        assert(s@ =~= seq!['['] + join_decimals(fields@.take(i as int + 1)));
        i = i + 1;
    }
    push_char(&mut s, ']');
    assert(fields@.take(i as int) =~= fields@);
    assert(s@ =~= encode_u64_list(fields@));
    s
}

} // verus!

verus! {

/// Whether a text is empty once trimmed of white space.
pub fn is_blank(s: &str) -> (r: bool)
    ensures
        r == (trim(s@).len() == 0),
{
    let chars = chars_of(s);
    let (lo, hi) = trim_bounds(&chars, 0, chars.len());
    assert(chars@.subrange(0, chars@.len() as int) =~= chars@);
    lo == hi
}

/// `str::split('\n')`, built one character at a time.
pub open spec fn split_lines(s: Seq<char>) -> Seq<Seq<char>>
    decreases s.len(),
{
    if s.len() == 0 {
        seq![Seq::<char>::empty()]
    } else {
        let p = split_lines(s.drop_last());
        if s.last() == '\n' {
            p.push(Seq::<char>::empty())
        } else {
            p.update(p.len() - 1, p.last().push(s.last()))
        }
    }
}

/// The last line that holds more than white space.
pub open spec fn last_nonblank(lines: Seq<Seq<char>>) -> Option<Seq<char>>
    decreases lines.len(),
{
    if lines.len() == 0 {
        None
    } else if trim(lines.last()).len() > 0 {
        Some(lines.last())
    } else {
        last_nonblank(lines.drop_last())
    }
}

/// The bounds of the `'\n'`-separated lines of `chars`, one pair per
/// element of `split_lines`.
pub fn line_bounds(chars: &Vec<char>) -> (r: Vec<(usize, usize)>)
    ensures
        r@.len() == split_lines(chars@).len(),
        forall|k: int|
            0 <= k < r@.len() ==> {
                &&& (#[trigger] r@[k]).0 <= r@[k].1 <= chars@.len()
                &&& chars@.subrange(r@[k].0 as int, r@[k].1 as int) == split_lines(chars@)[k]
            },
{
    let ghost s = chars@;
    let mut out: Vec<(usize, usize)> = Vec::new();
    let mut start: usize = 0;
    let mut k: usize = 0;
    let ghost mut gp: Seq<Seq<char>> = Seq::empty();
    assert(s.subrange(0, 0) =~= Seq::<char>::empty());
    assert(s.take(0) =~= Seq::<char>::empty());
    assert(split_lines(s.take(0)) =~~= gp.push(s.subrange(0, 0)));
    while k < chars.len()
        invariant
            s == chars@,
            start <= k <= s.len(),
            split_lines(s.take(k as int)) == gp.push(s.subrange(start as int, k as int)),
            out@.len() == gp.len(),
            forall|j: int|
                0 <= j < out@.len() ==> {
                    &&& (#[trigger] out@[j]).0 <= out@[j].1 <= s.len()
                    &&& s.subrange(out@[j].0 as int, out@[j].1 as int) == gp[j]
                },
        decreases s.len() - k,
    {
        assert(s.take(k + 1).drop_last() =~= s.take(k as int));
        assert(s.take(k + 1).last() == s[k as int]);
        if chars[k] == '\n' {
            let ghost seg = s.subrange(start as int, k as int);
            out.push((start, k));
            proof {
                gp = gp.push(seg);
            }
            start = k + 1;
            assert(s.subrange(start as int, k + 1) =~= Seq::<char>::empty());
            assert(split_lines(s.take(k + 1)) =~~= gp.push(s.subrange(start as int, k + 1)));
        } else {
            assert(s.subrange(start as int, k + 1) =~= s.subrange(start as int, k as int).push(
                s[k as int],
            ));
            let ghost p = gp.push(s.subrange(start as int, k as int));
            assert(p.last() == s.subrange(start as int, k as int));
            assert(split_lines(s.take(k + 1)) == p.update(p.len() - 1, p.last().push(s[k as int])));
            assert(split_lines(s.take(k + 1)) =~~= gp.push(s.subrange(start as int, k + 1)));
        }
        k = k + 1;
    }
    assert(s.take(k as int) =~= s);
    out.push((start, k));
    proof {
        gp = gp.push(s.subrange(start as int, k as int));
    }
    out
}

} // verus!

verus! {

/// Code-point lexicographic order, the order `str`'s `Ord` gives (UTF-8
/// byte order agrees with it).
pub open spec fn lex_lt(a: Seq<char>, b: Seq<char>) -> bool
    decreases a.len(),
{
    if a.len() == 0 {
        b.len() > 0
    } else if b.len() == 0 {
        false
    } else if a[0] != b[0] {
        (a[0] as int) < (b[0] as int)
    } else {
        lex_lt(a.drop_first(), b.drop_first())
    }
}

pub proof fn lemma_lex_irreflexive(a: Seq<char>)
    ensures
        !lex_lt(a, a),
    decreases a.len(),
{
    if a.len() > 0 {
        lemma_lex_irreflexive(a.drop_first());
    }
}

pub proof fn lemma_lex_transitive(a: Seq<char>, b: Seq<char>, c: Seq<char>)
    requires
        lex_lt(a, b),
        lex_lt(b, c),
    ensures
        lex_lt(a, c),
    decreases a.len(),
{
    if a.len() > 0 && b.len() > 0 && c.len() > 0 {
        if a[0] == b[0] && b[0] == c[0] {
            lemma_lex_transitive(a.drop_first(), b.drop_first(), c.drop_first());
        }
    }
}

pub proof fn lemma_lex_total(a: Seq<char>, b: Seq<char>)
    ensures
        a == b || lex_lt(a, b) || lex_lt(b, a),
    decreases a.len(),
{
    if a.len() > 0 && b.len() > 0 {
        if a[0] == b[0] {
            lemma_lex_total(a.drop_first(), b.drop_first());
            if a.drop_first() == b.drop_first() {
                assert(a =~= seq![a[0]] + a.drop_first());
                assert(b =~= seq![b[0]] + b.drop_first());
            }
        } else {
            assert((a[0] as int) != (b[0] as int));
        }
    } else if a.len() == 0 && b.len() == 0 {
        assert(a =~= b);
    }
}

pub proof fn lemma_lex_asymmetric(a: Seq<char>, b: Seq<char>)
    requires
        lex_lt(a, b),
    ensures
        !lex_lt(b, a),
{
    if lex_lt(b, a) {
        lemma_lex_transitive(a, b, a);
        lemma_lex_irreflexive(a);
    }
}

/// Whether `a` sorts before `b`.
pub fn chars_lt(a: &Vec<char>, b: &Vec<char>) -> (r: bool)
    ensures
        r == lex_lt(a@, b@),
{
    let mut i: usize = 0;
    assert(a@.skip(0) =~= a@);
    assert(b@.skip(0) =~= b@);
    while i < a.len() && i < b.len()
        invariant
            i <= a@.len(),
            i <= b@.len(),
            a@.take(i as int) == b@.take(i as int),
            lex_lt(a@, b@) == lex_lt(a@.skip(i as int), b@.skip(i as int)),
        decreases a@.len() - i,
    {
        let x = a[i];
        let y = b[i];
        assert(a@.skip(i as int)[0] == x);
        assert(b@.skip(i as int)[0] == y);
        if x != y {
            let r = x < y;
            assert(r == ((x as int) < (y as int)));
            return r;
        }
        assert(a@.skip(i as int).drop_first() =~= a@.skip(i + 1));
        assert(b@.skip(i as int).drop_first() =~= b@.skip(i + 1));
        assert(a@.take(i + 1) =~= a@.take(i as int).push(x));
        assert(b@.take(i + 1) =~= b@.take(i as int).push(y));
        i = i + 1;
    }
    assert(a@.skip(i as int).len() == a@.len() - i);
    assert(b@.skip(i as int).len() == b@.len() - i);
    i == a.len() && i < b.len()
}

/// The character sequences of a list of strings.
pub open spec fn string_views(v: Seq<String>) -> Seq<Seq<char>> {
    Seq::new(v.len(), |i: int| v[i]@)
}

/// Strictly increasing in code-point order: sorted, without repeats.
pub open spec fn strictly_sorted(s: Seq<Seq<char>>) -> bool {
    forall|i: int, j: int| 0 <= i < j < s.len() ==> lex_lt(#[trigger] s[i], #[trigger] s[j])
}

/// Adds a string to a sorted list of distinct strings, keeping it sorted
/// and distinct.
pub fn insert_sorted_unique(v: &mut Vec<String>, s: String)
    requires
        strictly_sorted(string_views(old(v)@)),
    ensures
        strictly_sorted(string_views(final(v)@)),
        string_views(final(v)@).to_set() == string_views(old(v)@).to_set().insert(s@),
{
    let ghost old_views = string_views(v@);
    let sc = chars_of(s.as_str());
    let mut i: usize = 0;
    while i < v.len()
        invariant
            i <= v@.len(),
            old_views == string_views(v@),
            strictly_sorted(old_views),
            sc@ == s@,
            forall|k: int| 0 <= k < i ==> lex_lt(#[trigger] old_views[k], s@),
        ensures
            i <= v@.len(),
            i < v@.len() ==> !lex_lt(old_views[i as int], s@),
            forall|k: int| 0 <= k < i ==> lex_lt(#[trigger] old_views[k], s@),
        decreases v@.len() - i,
    {
        let vc = chars_of(v[i].as_str());
        assert(old_views[i as int] == vc@);
        if !chars_lt(&vc, &sc) {
            break;
        }
        i = i + 1;
    }
    if i < v.len() {
        let vc = chars_of(v[i].as_str());
        if !chars_lt(&sc, &vc) {
            proof {
                assert(old_views[i as int] == vc@);
                lemma_lex_total(vc@, sc@);
            }
            assert(old_views[i as int] == s@);
            assert(old_views.to_set().insert(s@) =~= old_views.to_set());
            return;
        }
        proof {
            lemma_lex_total(vc@, sc@);
            assert(old_views[i as int] == vc@);
            if vc@ == sc@ {
                lemma_lex_irreflexive(sc@);
            }
        }
        assert(lex_lt(s@, old_views[i as int]));
    }
    let ghost idx = i as int;
    v.insert(i, s);
    let ghost nv = string_views(v@);
    assert(nv =~= old_views.insert(idx, s@));
    assert forall|a: int, b: int| 0 <= a < b < nv.len() implies lex_lt(
        #[trigger] nv[a],
        #[trigger] nv[b],
    ) by {
        if b < idx {
            assert(nv[a] == old_views[a] && nv[b] == old_views[b]);
        } else if b == idx {
            assert(nv[a] == old_views[a]);
        } else if a < idx {
            assert(nv[a] == old_views[a] && nv[b] == old_views[b - 1]);
            lemma_lex_transitive(old_views[a], s@, old_views[idx]);
            if b - 1 > idx {
                lemma_lex_transitive(old_views[a], old_views[idx], old_views[b - 1]);
            }
        } else if a == idx {
            assert(nv[b] == old_views[b - 1]);
            if b - 1 > idx {
                lemma_lex_transitive(s@, old_views[idx], old_views[b - 1]);
            }
        } else {
            assert(nv[a] == old_views[a - 1] && nv[b] == old_views[b - 1]);
        }
    }
    assert(nv.to_set() =~= old_views.to_set().insert(s@)) by {
        assert forall|x: Seq<char>| nv.to_set().contains(x) implies old_views.to_set().insert(
            s@,
        ).contains(x) by {
            let k = choose|k: int| 0 <= k < nv.len() && nv[k] == x;
            if k < idx {
                assert(old_views[k] == x);
            } else if k > idx {
                assert(old_views[k - 1] == x);
            }
        }
        assert forall|x: Seq<char>| old_views.to_set().insert(s@).contains(x) implies nv.to_set().contains(
            x,
        ) by {
            if x == s@ {
                assert(nv[idx] == x);
            } else {
                let k = choose|k: int| 0 <= k < old_views.len() && old_views[k] == x;
                if k < idx {
                    assert(nv[k] == x);
                } else {
                    assert(nv[k + 1] == x);
                }
            }
        }
    }
}

} // verus!

verus! {

/// `str::split(sep)`, built one character at a time.
pub open spec fn split_on(s: Seq<char>, sep: char) -> Seq<Seq<char>>
    decreases s.len(),
{
    if s.len() == 0 {
        seq![Seq::<char>::empty()]
    } else {
        let p = split_on(s.drop_last(), sep);
        if s.last() == sep {
            p.push(Seq::<char>::empty())
        } else {
            p.update(p.len() - 1, p.last().push(s.last()))
        }
    }
}

/// The end of `trim_end(v[lo..hi])` inside `v`.
pub fn trim_end_bound(v: &Vec<char>, lo: usize, hi: usize) -> (r: usize)
    requires
        lo <= hi <= v@.len(),
    ensures
        lo <= r <= hi,
        trim_end(v@.subrange(lo as int, hi as int)) == v@.subrange(lo as int, r as int),
{
    let mut end = hi;
    while end > lo && is_ws_char(v[end - 1])
        invariant
            lo <= end <= hi <= v@.len(),
            trim_end(v@.subrange(lo as int, hi as int)) == trim_end(
                v@.subrange(lo as int, end as int),
            ),
        decreases end - lo,
    {
        proof {
            lemma_trim_end_step(v@, lo as int, end as int);
        }
        end = end - 1;
    }
    end
}

/// Whether `v[lo..hi]` is exactly `s`.
pub fn chars_equal(v: &Vec<char>, lo: usize, hi: usize, s: &str) -> (r: bool)
    requires
        lo <= hi <= v@.len(),
    ensures
        r == (v@.subrange(lo as int, hi as int) == s@),
{
    if hi - lo != s.unicode_len() {
        return false;
    }
    let r = crate::text::chars_start_with(v, lo, s);
    assert(r ==> v@.subrange(lo as int, hi as int) =~= s@);
    r
}

} // verus!

verus! {

/// `pat` occurs in `s` at `i`.
pub open spec fn found_at(s: Seq<char>, pat: Seq<char>, i: int) -> bool {
    0 <= i && i + pat.len() <= s.len() && s.subrange(i, i + pat.len()) == pat
}

/// `pat` occurs somewhere in `s` (`str::contains`).
pub open spec fn occurs_in(s: Seq<char>, pat: Seq<char>) -> bool {
    exists|i: int| #[trigger] found_at(s, pat, i)
}

/// Whether `pat` occurs in the characters `s`.
pub fn text_contains(s: &Vec<char>, pat: &str) -> (r: bool)
    ensures
        r == occurs_in(s@, pat@),
{
    let n = s.len();
    let m = pat.unicode_len();
    if m > n {
        assert forall|i: int| !#[trigger] found_at(s@, pat@, i) by {}
        return false;
    }
    let last = n - m;
    let mut i: usize = 0;
    loop
        invariant
            n == s@.len(),
            m == pat@.len(),
            last == n - m,
            i <= last,
            forall|j: int| 0 <= j < i ==> !#[trigger] found_at(s@, pat@, j),
        decreases last - i,
    {
        if chars_start_with(s, i, pat) {
            assert(found_at(s@, pat@, i as int));
            return true;
        }
        if i == last {
            assert forall|j: int| !#[trigger] found_at(s@, pat@, j) by {
                if 0 <= j && j + m <= n {
                    assert(j <= i);
                }
            }
            return false;
        }
        i = i + 1;
    }
}

} // verus!
