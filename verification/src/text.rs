//! Character-level text utilities: whitespace tokenization, line splitting,
//! unsigned-integer and fixed-point decimal parsing, and decimal rendering.
//!
//! All specifications are stated over `Seq<char>`, the view of `str` and
//! `String`.

use vstd::prelude::*;
use vstd::string::*;

verus! {

/// ASCII whitespace: the separators used by the kernel's counter tables.
pub open spec fn is_wsc(c: char) -> bool {
    c == ' ' || c == '\t' || c == '\n' || c == '\r' || c == '\u{b}' || c == '\u{c}'
}

/// ASCII decimal digit.
pub open spec fn is_digit_c(c: char) -> bool {
    48 <= (c as u32) && (c as u32) <= 57
}

/// Index of the first non-whitespace character at or after `i` (or `s.len()`).
pub open spec fn next_non_ws(s: Seq<char>, i: int) -> int
    decreases s.len() - i,
{
    if i >= s.len() || !is_wsc(s[i]) {
        i
    } else {
        next_non_ws(s, i + 1)
    }
}

/// Index of the first whitespace character at or after `i` (or `s.len()`).
pub open spec fn next_ws(s: Seq<char>, i: int) -> int
    decreases s.len() - i,
{
    if i >= s.len() || is_wsc(s[i]) {
        i
    } else {
        next_ws(s, i + 1)
    }
}

pub proof fn lemma_next_non_ws(s: Seq<char>, i: int)
    requires
        0 <= i <= s.len(),
    ensures
        i <= next_non_ws(s, i) <= s.len(),
        forall|k: int| i <= k < next_non_ws(s, i) ==> is_wsc(s[k]),
        next_non_ws(s, i) < s.len() ==> !is_wsc(s[next_non_ws(s, i)]),
    decreases s.len() - i,
{
    if i < s.len() && is_wsc(s[i]) {
        lemma_next_non_ws(s, i + 1);
    }
}

pub proof fn lemma_next_ws(s: Seq<char>, i: int)
    requires
        0 <= i <= s.len(),
    ensures
        i <= next_ws(s, i) <= s.len(),
        forall|k: int| i <= k < next_ws(s, i) ==> !is_wsc(s[k]),
        next_ws(s, i) < s.len() ==> is_wsc(s[next_ws(s, i)]),
    decreases s.len() - i,
{
    if i < s.len() && !is_wsc(s[i]) {
        lemma_next_ws(s, i + 1);
    }
}

/// The whitespace-separated tokens of `s`, from position `i` on.
pub open spec fn tokens_from(s: Seq<char>, i: int) -> Seq<Seq<char>>
    decreases s.len() - i,
    when 0 <= i
    via tokens_from_decreases
{
    if i < 0 {
        Seq::empty()
    } else {
        let j = next_non_ws(s, i);
        if j >= s.len() {
            Seq::empty()
        } else {
            let k = next_ws(s, j);
            seq![s.subrange(j, k)] + tokens_from(s, k)
        }
    }
}

#[via_fn]
proof fn tokens_from_decreases(s: Seq<char>, i: int) {
    if 0 <= i <= s.len() {
        lemma_next_non_ws(s, i);
        let j = next_non_ws(s, i);
        if j < s.len() {
            lemma_next_ws(s, j);
            assert(next_ws(s, j) == next_ws(s, j + 1));
        }
    }
}

/// The whitespace-separated tokens of `s`, as `str::split_whitespace`
/// yields them (restricted to ASCII whitespace).
pub open spec fn split_ws(s: Seq<char>) -> Seq<Seq<char>> {
    tokens_from(s, 0)
}

/// Converts a string slice to the vector of its characters.
pub fn str_chars(s: &str) -> (v: Vec<char>)
    ensures
        v@ == s@,
{
    let n = s.unicode_len();
    let mut v: Vec<char> = Vec::new();
    let mut i: usize = 0;
    while i < n
        invariant
            n == s@.len(),
            i <= n,
            v@ == s@.subrange(0, i as int),
        decreases n - i,
    {
        v.push(s.get_char(i));
        i = i + 1;
        proof {
            assert(v@ =~= s@.subrange(0, i as int));
        }
    }
    proof {
        assert(v@ =~= s@);
    }
    v
}

/// Tests a character for ASCII whitespace.
pub fn is_ws_char(c: char) -> (b: bool)
    ensures
        b == is_wsc(c),
{
    c == ' ' || c == '\t' || c == '\n' || c == '\r' || c == '\u{b}' || c == '\u{c}'
}

/// Splits a string into its whitespace-separated tokens.
pub fn split_ws_str(s: &str) -> (r: Vec<String>)
    ensures
        r.deep_view() == split_ws(s@),
{
    let cs = str_chars(s);
    let n = cs.len();
    let mut toks: Vec<String> = Vec::new();
    let mut i: usize = 0;
    while i < n
        invariant
            cs@ == s@,
            n == cs.len(),
            i <= n,
            toks.deep_view() + tokens_from(s@, i as int) =~= split_ws(s@),
        decreases n - i,
    {
        if is_ws_char(cs[i]) {
            proof {
                assert(next_non_ws(s@, i as int) == next_non_ws(s@, i + 1));
            }
            i = i + 1;
        } else {
            let start = i;
            let mut j = i + 1;
            proof {
                assert(next_ws(s@, start as int) == next_ws(s@, start + 1));
            }
            while j < n && !is_ws_char(cs[j])
                invariant
                    cs@ == s@,
                    n == cs.len(),
                    start < j <= n,
                    next_ws(s@, j as int) == next_ws(s@, start as int),
                decreases n - j,
            {
                proof {
                    assert(next_ws(s@, j as int) == next_ws(s@, j + 1));
                }
                j = j + 1;
            }
            proof {
                assert(next_ws(s@, j as int) == j as int);
                assert(next_non_ws(s@, start as int) == start as int);
            }
            let tok = s.substring_char(start, j);
            toks.push(tok.to_owned());
            proof {
                assert(toks.deep_view() =~= toks.deep_view().subrange(
                    0,
                    toks.deep_view().len() - 1,
                ) + seq![s@.subrange(start as int, j as int)]);
            }
            i = j;
        }
    }
    proof {
        assert(tokens_from(s@, n as int) =~= Seq::<Seq<char>>::empty());
        assert(toks.deep_view() =~= toks.deep_view() + Seq::<Seq<char>>::empty());
    }
    toks
}

/// Index of the first `'\n'` at or after `i` (or `s.len()`).
pub open spec fn next_nl(s: Seq<char>, i: int) -> int
    decreases s.len() - i,
{
    if i >= s.len() || s[i] == '\n' {
        i
    } else {
        next_nl(s, i + 1)
    }
}

pub proof fn lemma_next_nl(s: Seq<char>, i: int)
    requires
        0 <= i <= s.len(),
    ensures
        i <= next_nl(s, i) <= s.len(),
        forall|k: int| i <= k < next_nl(s, i) ==> s[k] != '\n',
        next_nl(s, i) < s.len() ==> s[next_nl(s, i)] == '\n',
    decreases s.len() - i,
{
    if i < s.len() && s[i] != '\n' {
        lemma_next_nl(s, i + 1);
    }
}

/// Drops one trailing `'\r'`, as `str::lines` does on a `"\r\n"` ending.
pub open spec fn strip_cr(l: Seq<char>) -> Seq<char> {
    if l.len() > 0 && l[l.len() - 1] == '\r' {
        l.drop_last()
    } else {
        l
    }
}

/// The lines of `s` from position `i` on, as `str::lines` yields them:
/// split at `'\n'`, a trailing `'\r'` stripped from each terminated line,
/// and no empty line after a final terminator.
pub open spec fn lines_from(s: Seq<char>, i: int) -> Seq<Seq<char>>
    decreases s.len() - i,
    when 0 <= i
    via lines_from_decreases
{
    if i < 0 || i >= s.len() {
        Seq::empty()
    } else {
        let j = next_nl(s, i);
        if j >= s.len() {
            seq![s.subrange(i, s.len() as int)]
        } else {
            seq![strip_cr(s.subrange(i, j))] + lines_from(s, j + 1)
        }
    }
}

#[via_fn]
proof fn lines_from_decreases(s: Seq<char>, i: int) {
    if 0 <= i < s.len() {
        lemma_next_nl(s, i);
    }
}

/// The lines of `s`, as `str::lines` yields them.
pub open spec fn lines_of(s: Seq<char>) -> Seq<Seq<char>> {
    lines_from(s, 0)
}

/// Splits a string into its lines, as `str::lines` does.
pub fn lines_str(s: &str) -> (r: Vec<String>)
    ensures
        r.deep_view() == lines_of(s@),
{
    let cs = str_chars(s);
    let n = cs.len();
    let mut out: Vec<String> = Vec::new();
    let mut i: usize = 0;
    while i < n
        invariant
            cs@ == s@,
            n == cs.len(),
            i <= n,
            out.deep_view() + lines_from(s@, i as int) =~= lines_of(s@),
        decreases n - i,
    {
        let start = i;
        let mut j = i;
        while j < n && cs[j] != '\n'
            invariant
                cs@ == s@,
                n == cs.len(),
                start <= j <= n,
                next_nl(s@, j as int) == next_nl(s@, start as int),
            decreases n - j,
        {
            proof {
                assert(next_nl(s@, j as int) == next_nl(s@, j + 1));
            }
            j = j + 1;
        }
        proof {
            assert(next_nl(s@, j as int) == j as int);
        }
        if j < n {
            let end = if j > start && cs[j - 1] == '\r' {
                j - 1
            } else {
                j
            };
            proof {
                assert(s@.subrange(start as int, end as int) =~= strip_cr(
                    s@.subrange(start as int, j as int),
                ));
            }
            let line = s.substring_char(start, end);
            out.push(line.to_owned());
            proof {
                assert(out.deep_view() =~= out.deep_view().subrange(
                    0,
                    out.deep_view().len() - 1,
                ) + seq![strip_cr(s@.subrange(start as int, j as int))]);
            }
            i = j + 1;
        } else {
            let line = s.substring_char(start, n);
            out.push(line.to_owned());
            proof {
                assert(out.deep_view() =~= out.deep_view().subrange(
                    0,
                    out.deep_view().len() - 1,
                ) + seq![s@.subrange(start as int, n as int)]);
                assert(lines_from(s@, n as int) =~= Seq::<Seq<char>>::empty());
                assert(out.deep_view() + lines_from(s@, n as int) =~= out.deep_view());
            }
            i = n;
        }
    }
    proof {
        assert(lines_from(s@, n as int) =~= Seq::<Seq<char>>::empty());
        assert(out.deep_view() =~= out.deep_view() + Seq::<Seq<char>>::empty());
    }
    out
}

/// Numeric value of a digit character.
pub open spec fn digit_val(c: char) -> int {
    (c as u32) - 48
}

/// Every character of `s` is an ASCII digit.
pub open spec fn all_digits(s: Seq<char>) -> bool {
    forall|k: int| 0 <= k < s.len() ==> is_digit_c(s[k])
}

/// The value of a digit string read in base 10 (0 for the empty string).
pub open spec fn dec_val(s: Seq<char>) -> int
    decreases s.len(),
{
    if s.len() == 0 {
        0
    } else {
        dec_val(s.drop_last()) * 10 + digit_val(s[s.len() - 1])
    }
}

pub proof fn lemma_dec_val_nonneg(s: Seq<char>)
    requires
        all_digits(s),
    ensures
        dec_val(s) >= 0,
    decreases s.len(),
{
    if s.len() > 0 {
        assert(all_digits(s.drop_last()));
        lemma_dec_val_nonneg(s.drop_last());
    }
}

/// A digit string is worth at least any of its prefixes.
pub proof fn lemma_dec_val_prefix(s: Seq<char>, m: int)
    requires
        all_digits(s),
        0 <= m <= s.len(),
    ensures
        dec_val(s) >= dec_val(s.subrange(0, m)),
    decreases s.len(),
{
    if m < s.len() {
        assert(all_digits(s.drop_last()));
        lemma_dec_val_prefix(s.drop_last(), m);
        assert(s.drop_last().subrange(0, m) =~= s.subrange(0, m));
        lemma_dec_val_nonneg(s.drop_last());
    } else {
        assert(s.subrange(0, m) =~= s);
    }
}

/// What `str::parse::<u64>` accepts: an optional `'+'`, then one or more
/// digits, with a value that fits in a `u64`.
pub open spec fn parse_u64_spec(s: Seq<char>) -> Option<u64> {
    let body = if s.len() > 0 && s[0] == '+' {
        s.drop_first()
    } else {
        s
    };
    if body.len() > 0 && all_digits(body) && dec_val(body) <= u64::MAX {
        Some(dec_val(body) as u64)
    } else {
        None
    }
}

/// Reads the digit range `[from, to)` of `cs` in base 10.
/// `None` when a non-digit occurs or the value exceeds `u64::MAX`.
fn parse_digits(cs: &Vec<char>, from: usize, to: usize) -> (r: Option<u64>)
    requires
        from <= to <= cs.len(),
    ensures
        ({
            let t = cs@.subrange(from as int, to as int);
            match r {
                Some(v) => all_digits(t) && dec_val(t) <= u64::MAX && v == dec_val(t),
                None => !(all_digits(t) && dec_val(t) <= u64::MAX),
            }
        }),
{
    let ghost t = cs@.subrange(from as int, to as int);
    let mut acc: u64 = 0;
    let mut i = from;
    while i < to
        invariant
            from <= i <= to <= cs.len(),
            t == cs@.subrange(from as int, to as int),
            all_digits(cs@.subrange(from as int, i as int)),
            acc == dec_val(cs@.subrange(from as int, i as int)),
        decreases to - i,
    {
        let c = cs[i];
        let u = c as u32;
        if u < 48 || u > 57 {
            proof {
                assert(t[i - from] == cs@[i as int]);
                assert(!is_digit_c(t[i - from]));
            }
            return None;
        }
        let d = (u - 48) as u64;
        proof {
            assert(cs@.subrange(from as int, i + 1).drop_last() =~= cs@.subrange(
                from as int,
                i as int,
            ));
            assert(all_digits(cs@.subrange(from as int, i + 1)));
        }
        let next = match acc.checked_mul(10) {
            Some(m) => m.checked_add(d),
            None => None,
        };
        match next {
            Some(a) => {
                acc = a;
            },
            None => {
                proof {
                    let p = cs@.subrange(from as int, i + 1);
                    assert(dec_val(p) == acc * 10 + d);
                    assert(dec_val(p) > u64::MAX);
                    if all_digits(t) {
                        assert(p =~= t.subrange(0, i + 1 - from));
                        lemma_dec_val_prefix(t, i + 1 - from);
                    }
                }
                return None;
            },
        }
        i = i + 1;
    }
    proof {
        assert(cs@.subrange(from as int, to as int) =~= cs@.subrange(from as int, i as int));
    }
    Some(acc)
}

/// Parses an unsigned integer exactly as `str::parse::<u64>` does.
pub fn parse_u64_str(s: &str) -> (r: Option<u64>)
    ensures
        r == parse_u64_spec(s@),
{
    let cs = str_chars(s);
    let n = cs.len();
    let start: usize = if n > 0 && cs[0] == '+' {
        1
    } else {
        0
    };
    if n == start {
        return None;
    }
    proof {
        if start == 1 {
            assert(s@.drop_first() =~= s@.subrange(1, n as int));
        } else {
            assert(s@ =~= s@.subrange(0, n as int));
        }
    }
    parse_digits(&cs, start, n)
}

/// Index of the first `'.'` at or after `i` (or `s.len()`).
pub open spec fn next_dot(s: Seq<char>, i: int) -> int
    decreases s.len() - i,
{
    if i >= s.len() || s[i] == '.' {
        i
    } else {
        next_dot(s, i + 1)
    }
}

/// Value of the first two fractional digits, in hundredths.
pub open spec fn frac2_val(fp: Seq<char>) -> int {
    (if fp.len() >= 1 {
        digit_val(fp[0]) * 10
    } else {
        0
    }) + (if fp.len() >= 2 {
        digit_val(fp[1])
    } else {
        0
    })
}

/// A non-negative decimal number read in hundredths, truncated after the
/// second fractional digit: the whole part before the first `'.'`, the
/// fraction after it.  Accepted are `digits`, `digits.digits`, `digits.`
/// and `.digits`; no sign, no exponent.  `None` when malformed or when the
/// hundredths value exceeds `u64::MAX`.
pub open spec fn parse_centi_spec(s: Seq<char>) -> Option<u64> {
    let di = next_dot(s, 0);
    let ip = s.subrange(0, di);
    let fp = if di < s.len() {
        s.subrange(di + 1, s.len() as int)
    } else {
        Seq::empty()
    };
    if ip.len() + fp.len() > 0 && all_digits(ip) && all_digits(fp) && dec_val(ip) * 100
        + frac2_val(fp) <= u64::MAX {
        Some((dec_val(ip) * 100 + frac2_val(fp)) as u64)
    } else {
        None
    }
}

/// Every character in `[from, to)` is a digit.
fn check_digits(cs: &Vec<char>, from: usize, to: usize) -> (b: bool)
    requires
        from <= to <= cs.len(),
    ensures
        b == all_digits(cs@.subrange(from as int, to as int)),
{
    let ghost t = cs@.subrange(from as int, to as int);
    let mut i = from;
    while i < to
        invariant
            from <= i <= to <= cs.len(),
            t == cs@.subrange(from as int, to as int),
            forall|k: int| 0 <= k < i - from ==> is_digit_c(t[k]),
        decreases to - i,
    {
        let u = cs[i] as u32;
        if u < 48 || u > 57 {
            proof {
                assert(t[i - from] == cs@[i as int]);
            }
            return false;
        }
        proof {
            assert(t[i - from] == cs@[i as int]);
        }
        i = i + 1;
    }
    true
}

/// Parses a decimal number into hundredths, per [`parse_centi_spec`].
pub fn parse_centi_str(s: &str) -> (r: Option<u64>)
    ensures
        r == parse_centi_spec(s@),
{
    let cs = str_chars(s);
    let n = cs.len();
    let mut di: usize = 0;
    while di < n && cs[di] != '.'
        invariant
            cs@ == s@,
            n == cs.len(),
            di <= n,
            next_dot(s@, di as int) == next_dot(s@, 0),
        decreases n - di,
    {
        proof {
            assert(next_dot(s@, di as int) == next_dot(s@, di + 1));
        }
        di = di + 1;
    }
    proof {
        assert(next_dot(s@, di as int) == di as int);
    }
    let ghost ip = s@.subrange(0, di as int);
    let ghost fp = if (di as int) < s@.len() {
        s@.subrange(di + 1, n as int)
    } else {
        Seq::<char>::empty()
    };
    if di == n && n == 0 {
        return None;
    }
    if di < n && n == di + 1 && di == 0 {
        // the string is just "."
        proof {
            assert(ip.len() == 0 && fp.len() == 0);
        }
        return None;
    }
    // fraction digits must all be digits
    if di < n {
        if !check_digits(&cs, di + 1, n) {
            return None;
        }
    }
    let ipv = match parse_digits(&cs, 0, di) {
        Some(v) => v,
        None => {
            proof {
                if all_digits(ip) {
                    // then the integer part alone exceeds u64::MAX
                    lemma_dec_val_nonneg(ip);
                    if di < n {
                        assert(all_digits(fp));
                        assert(frac2_val(fp) >= 0);
                    }
                }
            }
            return None;
        },
    };
    let f: u64 = if di < n {
        let d1: u64 = if n - di > 1 {
            proof {
                assert(fp[0] == cs@[di + 1]);
                assert(is_digit_c(cs@[di + 1]));
            }
            (cs[di + 1] as u32 - 48) as u64
        } else {
            0
        };
        let d2: u64 = if n - di > 2 {
            proof {
                assert(fp[1] == cs@[di + 2]);
                assert(is_digit_c(cs@[di + 2]));
            }
            (cs[di + 2] as u32 - 48) as u64
        } else {
            0
        };
        d1 * 10 + d2
    } else {
        0
    };
    proof {
        assert(f == frac2_val(fp));
    }
    match ipv.checked_mul(100) {
        Some(m) => match m.checked_add(f) {
            Some(v) => Some(v),
            None => None,
        },
        None => None,
    }
}

/// The character for the digit `d`.
pub open spec fn digit_char(d: int) -> char {
    if d == 0 {
        '0'
    } else if d == 1 {
        '1'
    } else if d == 2 {
        '2'
    } else if d == 3 {
        '3'
    } else if d == 4 {
        '4'
    } else if d == 5 {
        '5'
    } else if d == 6 {
        '6'
    } else if d == 7 {
        '7'
    } else if d == 8 {
        '8'
    } else {
        '9'
    }
}

/// The base-10 rendering of `n`, without sign or leading zeros.
pub open spec fn dec_str(n: int) -> Seq<char>
    decreases n,
{
    if n < 10 {
        seq![digit_char(n)]
    } else {
        dec_str(n / 10).push(digit_char(n % 10))
    }
}

/// The one-character string for the digit `d`.
pub fn digit_str(d: u64) -> (r: &'static str)
    requires
        d < 10,
    ensures
        r@ == seq![digit_char(d as int)],
{
    proof {
        reveal_strlit("0");
        reveal_strlit("1");
        reveal_strlit("2");
        reveal_strlit("3");
        reveal_strlit("4");
        reveal_strlit("5");
        reveal_strlit("6");
        reveal_strlit("7");
        reveal_strlit("8");
        reveal_strlit("9");
    }
    let r = match d {
        0 => "0",
        1 => "1",
        2 => "2",
        3 => "3",
        4 => "4",
        5 => "5",
        6 => "6",
        7 => "7",
        8 => "8",
        _ => "9",
    };
    proof {
        assert(r@ =~= seq![digit_char(d as int)]);
    }
    r
}

/// Renders `n` in base 10, as the `{}` format does for a `u64`.
pub fn u64_to_string(n: u64) -> (r: String)
    ensures
        r@ == dec_str(n as int),
    decreases n,
{
    if n < 10 {
        digit_str(n).to_owned()
    } else {
        let mut s = u64_to_string(n / 10);
        s.append(digit_str(n % 10));
        proof {
            assert(dec_str((n / 10) as int) + seq![digit_char((n % 10) as int)] =~= dec_str(
                n as int,
            ));
        }
        s
    }
}

/// The rendering of a hundredths value with one decimal place, truncated:
/// `1234` becomes `12.3`.
pub open spec fn pct1_str(x: int) -> Seq<char> {
    dec_str(x / 100) + seq!['.'] + seq![digit_char((x / 10) % 10)]
}

/// Renders a hundredths value with one decimal place, truncated.
pub fn pct1_string(x: u64) -> (r: String)
    ensures
        r@ == pct1_str(x as int),
{
    let mut s = u64_to_string(x / 100);
    proof {
        reveal_strlit(".");
    }
    s.append(".");
    s.append(digit_str((x / 10) % 10));
    proof {
        assert(s@ =~= pct1_str(x as int));
    }
    s
}

/// The rendering of a hundredths value with two decimal places:
/// `50` becomes `0.50`.
pub open spec fn centi2_str(x: int) -> Seq<char> {
    dec_str(x / 100) + seq!['.'] + seq![digit_char((x / 10) % 10)] + seq![digit_char(x % 10)]
}

/// Renders a hundredths value with two decimal places.
pub fn centi2_string(x: u64) -> (r: String)
    ensures
        r@ == centi2_str(x as int),
{
    let mut s = u64_to_string(x / 100);
    proof {
        reveal_strlit(".");
    }
    s.append(".");
    s.append(digit_str((x / 10) % 10));
    s.append(digit_str(x % 10));
    proof {
        assert(s@ =~= centi2_str(x as int));
    }
    s
}

} // verus!
