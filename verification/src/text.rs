//! Small string utilities: equality, character-level conversion, literal
//! substitution, and the exact decimal encoding used for 64-bit identifiers.

use vstd::prelude::*;

verus! {

/// Relies on `str`'s `PartialEq`: two string slices compare equal exactly
/// when their character sequences are equal.
#[verifier::external_body]
pub fn str_eq(a: &str, b: &str) -> (r: bool)
    ensures
        r == (a@ == b@),
{
    a == b
}

/// Relies on `str::chars`: the iterator yields exactly the string's
/// characters in order.
#[verifier::external_body]
pub fn str_chars(s: &str) -> (r: Vec<char>)
    ensures
        r@ == s@,
{
    s.chars().collect()
}

/// Relies on `String`'s `FromIterator` over `char`: the collected string
/// holds exactly the vector's characters in order.
#[verifier::external_body]
pub fn string_from_chars(v: Vec<char>) -> (r: String)
    ensures
        r@ == v@,
{
    v.into_iter().collect()
}

/// The instant (seconds since the Unix epoch) that an ISO-8601 timestamp
/// string denotes, if it parses; which strings parse, and to what instant,
/// is fixed by the parser below and only named here.
pub uninterp spec fn utc_timestamp_of(s: Seq<char>) -> Option<i64>;

/// Relies on chrono's `impl FromStr for DateTime<Utc>` (RFC 3339 parsing)
/// and `DateTime::timestamp`: both depend on the string alone.
#[verifier::external_body]
pub fn parse_utc_seconds(s: &str) -> (r: Option<i64>)
    ensures
        r == utc_timestamp_of(s@),
{
    match s.parse::<chrono::DateTime<chrono::Utc>>() {
        Ok(t) => Some(t.timestamp()),
        Err(_) => None,
    }
}

/// The decimal digit character for a value below ten.
pub open spec fn digit_char(d: int) -> char {
    if d == 0 {
        '0'
    } else if d == 1 {
        '1'
    } else if d == 2 {
        '2'
    } else if d == 3 {
        '3'
    } else if d == 4 {
        '4'
    } else if d == 5 {
        '5'
    } else if d == 6 {
        '6'
    } else if d == 7 {
        '7'
    } else if d == 8 {
        '8'
    } else {
        '9'
    }
}

/// The numeric value of a decimal digit character, if it is one.
pub open spec fn digit_val(c: char) -> Option<int> {
    if c == '0' {
        Some(0int)
    } else if c == '1' {
        Some(1int)
    } else if c == '2' {
        Some(2int)
    } else if c == '3' {
        Some(3int)
    } else if c == '4' {
        Some(4int)
    } else if c == '5' {
        Some(5int)
    } else if c == '6' {
        Some(6int)
    } else if c == '7' {
        Some(7int)
    } else if c == '8' {
        Some(8int)
    } else if c == '9' {
        Some(9int)
    } else {
        None
    }
}

/// The canonical decimal digits of `n`, most significant first: no sign, no
/// leading zero except for zero itself.
pub open spec fn dec_digits(n: nat) -> Seq<char>
    decreases n,
{
    if n < 10 {
        seq![digit_char(n as int)]
    } else {
        dec_digits(n / 10).push(digit_char((n % 10) as int))
    }
}

/// Whether every character is a decimal digit.
pub open spec fn all_digits(s: Seq<char>) -> bool {
    forall|i: int| 0 <= i < s.len() ==> digit_val(#[trigger] s[i]) is Some
}

/// The integer a digit string denotes, most significant digit first;
/// characters that are not digits contribute zero.
pub open spec fn digits_val(s: Seq<char>) -> int
    decreases s.len(),
{
    if s.len() == 0 {
        0
    } else {
        digits_val(s.drop_last()) * 10 + match digit_val(s.last()) {
            Some(d) => d,
            None => 0,
        }
    }
}

/// The value a string denotes as an unsigned 64-bit identifier: defined
/// exactly on nonempty digit strings whose value fits.
pub open spec fn spec_parse_u64(s: Seq<char>) -> Option<u64> {
    if s.len() > 0 && all_digits(s) && digits_val(s) <= u64::MAX {
        Some(digits_val(s) as u64)
    } else {
        None
    }
}

/// A digit string's value is never negative.
proof fn lemma_digits_val_nonneg(s: Seq<char>)
    ensures
        digits_val(s) >= 0,
    decreases s.len(),
{
    if s.len() > 0 {
        lemma_digits_val_nonneg(s.drop_last());
    }
}

/// Extending a digit string to the right never shrinks its value.
proof fn lemma_digits_val_prefix_le(s: Seq<char>, j: int)
    requires
        0 <= j <= s.len(),
    ensures
        digits_val(s.take(j)) <= digits_val(s),
    decreases s.len() - j,
{
    if j < s.len() {
        lemma_digits_val_prefix_le(s, j + 1);
        assert(s.take(j + 1).drop_last() =~= s.take(j));
        lemma_digits_val_nonneg(s.take(j));
    } else {
        assert(s.take(j) =~= s);
    }
}

/// A digit character decodes to the digit it was made from.
proof fn lemma_digit_round(d: int)
    requires
        0 <= d < 10,
    ensures
        digit_val(digit_char(d)) == Some(d),
{
    if d == 0 {
    } else if d == 1 {
    } else if d == 2 {
    } else if d == 3 {
    } else if d == 4 {
    } else if d == 5 {
    } else if d == 6 {
    } else if d == 7 {
    } else if d == 8 {
    } else {
    }
}

/// The canonical decimal digits of `n` form a digit string denoting `n`.
proof fn lemma_dec_digits_props(n: nat)
    ensures
        dec_digits(n).len() >= 1,
        all_digits(dec_digits(n)),
        digits_val(dec_digits(n)) == n,
    decreases n,
{
    if n < 10 {
        lemma_digit_round(n as int);
        assert(dec_digits(n) =~= seq![digit_char(n as int)]);
        assert(dec_digits(n).drop_last() =~= Seq::<char>::empty());
        assert(digits_val(Seq::<char>::empty()) == 0);
        assert(dec_digits(n).last() == digit_char(n as int));
    } else {
        lemma_dec_digits_props(n / 10);
        let d = (n % 10) as int;
        lemma_digit_round(d);
        let w = dec_digits(n / 10).push(digit_char(d));
        assert(w.drop_last() =~= dec_digits(n / 10));
        assert(w.last() == digit_char(d));
        vstd::arithmetic::div_mod::lemma_fundamental_div_mod(n as int, 10);
        assert(digits_val(w) == digits_val(dec_digits(n / 10)) * 10 + d);
        assert forall|i: int| 0 <= i < w.len() implies digit_val(#[trigger] w[i]) is Some by {
            if i < w.len() - 1 {
                assert(w[i] == dec_digits(n / 10)[i]);
            }
        }
    }
}

/// Round trip: the canonical decimal encoding of an identifier parses back
/// to the identifier.
pub proof fn lemma_u64_decimal_round_trip(n: u64)
    ensures
        spec_parse_u64(dec_digits(n as nat)) == Some(n),
{
    lemma_dec_digits_props(n as nat);
}

/// The decimal digit character of a value below ten.
fn digit_to_char(d: u64) -> (c: char)
    requires
        d < 10,
    ensures
        c == digit_char(d as int),
{
    match d {
        0 => '0',
        1 => '1',
        2 => '2',
        3 => '3',
        4 => '4',
        5 => '5',
        6 => '6',
        7 => '7',
        8 => '8',
        _ => '9',
    }
}

/// The numeric value of a decimal digit character, if it is one.
fn char_to_digit(c: char) -> (r: Option<u64>)
    ensures
        r is Some <==> digit_val(c) is Some,
        r matches Some(d) ==> digit_val(c) == Some(d as int),
{
    match c {
        '0' => Some(0),
        '1' => Some(1),
        '2' => Some(2),
        '3' => Some(3),
        '4' => Some(4),
        '5' => Some(5),
        '6' => Some(6),
        '7' => Some(7),
        '8' => Some(8),
        '9' => Some(9),
        _ => None,
    }
}

/// Render an identifier in its canonical decimal form.
pub fn u64_to_dec(n: u64) -> (r: String)
    ensures
        r@ == dec_digits(n as nat),
{
    let mut out: Vec<char> = Vec::new();
    if n == 0 {
        out.push('0');
        proof {
            assert(out@ =~= dec_digits(0));
        }
        return string_from_chars(out);
    }
    let mut m: u64 = n;
    while m > 0
        invariant
            m >= 0,
            if m > 0 {
                dec_digits(n as nat) == dec_digits(m as nat) + out@
            } else {
                dec_digits(n as nat) == out@
            },
        decreases m,
    {
        let d = m % 10;
        out.insert(0, digit_to_char(d));
        proof {
            if m >= 10 {
                assert(dec_digits(m as nat) =~= dec_digits((m / 10) as nat) + out@.take(1));
                assert(dec_digits((m / 10) as nat) + out@.take(1) + out@.skip(1) =~= dec_digits(
                    (m / 10) as nat,
                ) + out@);
            } else {
                assert(dec_digits(m as nat) =~= out@.take(1));
            }
        }
        m = m / 10;
    }
    string_from_chars(out)
}

/// Parse an identifier from its decimal text form; fails on anything but a
/// nonempty digit string whose value fits.
pub fn dec_to_u64(s: &str) -> (r: Option<u64>)
    ensures
        r == spec_parse_u64(s@),
{
    let v = str_chars(s);
    parse_digit_chars(&v)
}

pub(crate) fn parse_digit_chars(v: &Vec<char>) -> (r: Option<u64>)
    ensures
        r == spec_parse_u64(v@),
{
    let n = v.len();
    if n == 0 {
        return None;
    }
    let mut acc: u64 = 0;
    let mut i: usize = 0;
    proof {
        assert(v@.take(0) =~= Seq::<char>::empty());
    }
    while i < n
        invariant
            n == v@.len(),
            i <= n,
            all_digits(v@.take(i as int)),
            acc == digits_val(v@.take(i as int)),
        decreases n - i,
    {
        proof {
            assert(v@.take(i + 1).drop_last() =~= v@.take(i as int));
            assert(v@.take(i + 1).last() == v@[i as int]);
        }
        let c = v[i];
        let d = match char_to_digit(c) {
            Some(d) => d,
            None => {
                proof {
                    assert(digit_val(v@[i as int]) is None);
                }
                return None;
            },
        };
        let shifted = match acc.checked_mul(10) {
            Some(t) => t,
            None => {
                proof {
                    lemma_digits_val_prefix_le(v@, i + 1);
                    lemma_digits_val_nonneg(v@.take(i as int));
                }
                return None;
            },
        };
        let next = match shifted.checked_add(d) {
            Some(t) => t,
            None => {
                proof {
                    lemma_digits_val_prefix_le(v@, i + 1);
                    lemma_digits_val_nonneg(v@.take(i as int));
                }
                return None;
            },
        };
        acc = next;
        i = i + 1;
    }
    proof {
        assert(v@.take(n as int) =~= v@);
    }
    Some(acc)
}

/// `s` with every occurrence of `pat` replaced by `rep`, scanning left to
/// right without overlap.
pub open spec fn spec_replace(s: Seq<char>, pat: Seq<char>, rep: Seq<char>) -> Seq<char>
    recommends
        pat.len() > 0,
    decreases s.len(),
    when pat.len() > 0
{
    if s.len() == 0 {
        Seq::empty()
    } else if pat.len() <= s.len() && s.take(pat.len() as int) == pat {
        rep + spec_replace(s.skip(pat.len() as int), pat, rep)
    } else {
        seq![s[0]] + spec_replace(s.drop_first(), pat, rep)
    }
}

/// Whether `pat` occurs in `s` at position `i`.
fn matches_at(s: &Vec<char>, pat: &Vec<char>, i: usize) -> (b: bool)
    requires
        i <= s@.len(),
    ensures
        b == (i + pat@.len() <= s@.len() && s@.subrange(i as int, i + pat@.len()) == pat@),
{
    if pat.len() > s.len() - i {
        return false;
    }
    let m = pat.len();
    let mut k: usize = 0;
    while k < m
        invariant
            m == pat@.len(),
            i + m <= s@.len(),
            k <= m,
            s@.len() <= usize::MAX,
            forall|l: int| 0 <= l < k ==> s@[i + l] == pat@[l],
        decreases m - k,
    {
        proof {
            assert(i + k < s@.len());
        }
        let idx = i + k;
        if s[idx] != pat[k] {
            proof {
                assert(s@.subrange(i as int, i + pat@.len())[k as int] == s@[idx as int]);
            }
            return false;
        }
        k = k + 1;
    }
    proof {
        assert(s@.subrange(i as int, i + pat@.len()) =~= pat@);
    }
    true
}

/// Replace every occurrence of `pat` by `rep`, scanning left to right.
fn replace_chars(s: &Vec<char>, pat: &Vec<char>, rep: &Vec<char>) -> (r: Vec<char>)
    requires
        pat@.len() > 0,
    ensures
        r@ == spec_replace(s@, pat@, rep@),
{
    let mut out: Vec<char> = Vec::new();
    let mut i: usize = 0;
    proof {
        assert(s@.skip(0) =~= s@);
    }
    while i < s.len()
        invariant
            i <= s@.len(),
            pat@.len() > 0,
            spec_replace(s@, pat@, rep@) == out@ + spec_replace(s@.skip(i as int), pat@, rep@),
        decreases s@.len() - i,
    {
        let ghost pre = out@;
        if matches_at(s, pat, i) {
            let mut k: usize = 0;
            while k < rep.len()
                invariant
                    k <= rep@.len(),
                    out@ == pre + rep@.take(k as int),
                decreases rep@.len() - k,
            {
                out.push(rep[k]);
                proof {
                    assert(pre + rep@.take(k as int) + seq![rep@[k as int]] =~= pre + rep@.take(
                        k + 1,
                    ));
                }
                k = k + 1;
            }
            proof {
                assert(rep@.take(rep@.len() as int) =~= rep@);
                let tail = s@.skip(i as int);
                assert(tail.take(pat@.len() as int) =~= s@.subrange(i as int, i + pat@.len()));
                assert(tail.skip(pat@.len() as int) =~= s@.skip(i + pat@.len()));
                assert(spec_replace(tail, pat@, rep@) == rep@ + spec_replace(
                    s@.skip(i + pat@.len()),
                    pat@,
                    rep@,
                ));
                assert(pre + (rep@ + spec_replace(s@.skip(i + pat@.len()), pat@, rep@)) =~= (pre
                    + rep@) + spec_replace(s@.skip(i + pat@.len()), pat@, rep@));
            }
            i = i + pat.len();
        } else {
            out.push(s[i]);
            proof {
                let tail = s@.skip(i as int);
                assert(tail.len() > 0);
                assert(tail[0] == s@[i as int]);
                if pat@.len() <= tail.len() {
                    assert(tail.take(pat@.len() as int) =~= s@.subrange(
                        i as int,
                        i + pat@.len(),
                    ));
                }
                assert(tail.drop_first() =~= s@.skip(i + 1));
                assert(spec_replace(tail, pat@, rep@) == seq![s@[i as int]] + spec_replace(
                    s@.skip(i + 1),
                    pat@,
                    rep@,
                ));
                assert(pre + (seq![s@[i as int]] + spec_replace(s@.skip(i + 1), pat@, rep@)) =~= (
                pre + seq![s@[i as int]]) + spec_replace(s@.skip(i + 1), pat@, rep@));
            }
            i = i + 1;
        }
    }
    proof {
        assert(s@.skip(s@.len() as int) =~= Seq::<char>::empty());
    }
    out
}

/// The placeholder substitutions applied to free text coming from the game
/// platform: bracketed question-mark and ampersand tokens, with the spacing
/// variants the platform produces, become the characters they stand for.
pub open spec fn sl_subs(s: Seq<char>) -> Seq<char> {
    spec_replace(
        spec_replace(
            spec_replace(
                spec_replace(
                    spec_replace(spec_replace(s, " [QM] "@, "?"@), " [QM]"@, "?"@),
                    "[QM] "@,
                    "?"@,
                ),
                " [AMP] "@,
                "&"@,
            ),
            " [AMP]"@,
            "&"@,
        ),
        "[AMP] "@,
        "&"@,
    )
}

/// Apply the platform placeholder substitutions to a string.
pub fn do_sl_subs(input: &str) -> (r: String)
    ensures
        r@ == sl_subs(input@),
{
    proof {
        reveal_strlit(" [QM] ");
        reveal_strlit(" [QM]");
        reveal_strlit("[QM] ");
        reveal_strlit(" [AMP] ");
        reveal_strlit(" [AMP]");
        reveal_strlit("[AMP] ");
    }
    let cs = str_chars(input);
    let qm = str_chars("?");
    let amp = str_chars("&");
    let t1 = replace_chars(&cs, &str_chars(" [QM] "), &qm);
    let t2 = replace_chars(&t1, &str_chars(" [QM]"), &qm);
    let t3 = replace_chars(&t2, &str_chars("[QM] "), &qm);
    let t4 = replace_chars(&t3, &str_chars(" [AMP] "), &amp);
    let t5 = replace_chars(&t4, &str_chars(" [AMP]"), &amp);
    let t6 = replace_chars(&t5, &str_chars("[AMP] "), &amp);
    string_from_chars(t6)
}

} // verus!
