use vstd::prelude::*;

verus! {

// Verified text building.
//
// Announcement and response texts are built by token replacement inside
// configured templates, list joining, and decimal formatting.  All the
// logic here works on vectors of characters, whose view is the same
// `Seq<char>` that `String` views give, so the contracts of the public
// content functions can speak about the exact text produced.  Only the
// conversions between `String` and `Vec<char>` are trusted.

/// Relies on `str::chars`: iterating a string yields exactly the
/// characters of its view, in order.
#[verifier::external_body]
pub fn string_to_chars(s: &str) -> (r: Vec<char>)
    ensures
        r@ == s@,
{
    s.chars().collect()
}

/// Relies on `FromIterator for String`: collecting characters yields the
/// string of exactly those characters, in order.
#[verifier::external_body]
pub fn chars_to_string(v: &Vec<char>) -> (r: String)
    ensures
        r@ == v@,
{
    v.iter().collect()
}

/// The parts joined with `sep` between consecutive parts.
pub open spec fn join_sep(parts: Seq<Seq<char>>, sep: Seq<char>) -> Seq<char>
    decreases parts.len(),
{
    if parts.len() == 0 {
        Seq::empty()
    } else if parts.len() == 1 {
        parts[0]
    } else {
        join_sep(parts.drop_last(), sep) + sep + parts.last()
    }
}

/// Join the given strings with `sep` between consecutive entries.
pub fn join_strings(parts: &Vec<String>, sep: &str) -> (r: String)
    ensures
        r@ == join_sep(parts@.map_values(|p: String| p@), sep@),
{
    let ghost views = parts@.map_values(|p: String| p@);
    let mut out = String::new();
    let mut i: usize = 0;
    while i < parts.len()
        invariant
            i <= parts@.len(),
            views == parts@.map_values(|p: String| p@),
            out@ == join_sep(views.take(i as int), sep@),
        decreases parts@.len() - i,
    {
        if i > 0 {
            out.append(sep);
        }
        out.append(parts[i].as_str());
        proof {
            assert(views.take(i as int + 1).drop_last() =~= views.take(i as int));
            assert(views.take(i as int + 1).last() == views[i as int]);
        }
        i = i + 1;
    }
    proof {
        assert(views.take(parts@.len() as int) =~= views);
    }
    out
}

/// Whether `pat` occurs in `t` at position `i`.
pub open spec fn match_at(t: Seq<char>, pat: Seq<char>, i: int) -> bool {
    &&& 0 <= i
    &&& i + pat.len() <= t.len()
    &&& t.subrange(i, i + pat.len() as int) == pat
}

/// `t` with every occurrence of `pat` replaced by `v`, left to right and
/// without rescanning replacements; an empty pattern replaces nothing.
pub open spec fn replace_seq(t: Seq<char>, pat: Seq<char>, v: Seq<char>) -> Seq<char>
    decreases t.len(),
{
    if pat.len() == 0 || t.len() < pat.len() {
        t
    } else if match_at(t, pat, 0) {
        v + replace_seq(t.skip(pat.len() as int), pat, v)
    } else {
        seq![t[0]] + replace_seq(t.skip(1), pat, v)
    }
}

/// Whether `pat` occurs in `t` at position `i`.
fn is_match_at(t: &Vec<char>, pat: &Vec<char>, i: usize) -> (r: bool)
    requires
        i + pat@.len() <= t@.len(),
    ensures
        r == match_at(t@, pat@, i as int),
{
    let mut k: usize = 0;
    while k < pat.len()
        invariant
            k <= pat.len(),
            i + pat.len() <= t.len(),
            forall|j: int| 0 <= j < k ==> t@[i + j] == pat@[j],
        decreases pat@.len() - k,
    {
        if t[i + k] != pat[k] {
            proof {
                assert(t@.subrange(i as int, i + pat@.len() as int)[k as int] != pat@[k as int]);
            }
            return false;
        }
        k = k + 1;
    }
    proof {
        assert(t@.subrange(i as int, i + pat@.len() as int) =~= pat@);
    }
    true
}

/// `t` with every occurrence of `pat` replaced by `v`.
pub fn replace_chars(t: &Vec<char>, pat: &Vec<char>, v: &Vec<char>) -> (r: Vec<char>)
    ensures
        r@ == replace_seq(t@, pat@, v@),
{
    let mut out: Vec<char> = Vec::new();
    if pat.len() == 0 || pat.len() > t.len() {
        let mut i: usize = 0;
        while i < t.len()
            invariant
                i <= t.len(),
                out@ == t@.take(i as int),
            decreases t@.len() - i,
        {
            out.push(t[i]);
            proof {
                assert(t@.take(i as int + 1) =~= t@.take(i as int).push(t@[i as int]));
            }
            i = i + 1;
        }
        proof {
            assert(t@.take(t@.len() as int) =~= t@);
        }
        return out;
    }
    let bound: usize = t.len() - pat.len();
    let mut i: usize = 0;
    proof {
        assert(t@.skip(0) =~= t@);
        assert(Seq::<char>::empty() + replace_seq(t@, pat@, v@) =~= replace_seq(t@, pat@, v@));
    }
    while i <= bound
        invariant
            i <= t.len(),
            pat.len() >= 1,
            bound == t.len() - pat.len(),
            replace_seq(t@, pat@, v@) == out@ + replace_seq(t@.skip(i as int), pat@, v@),
        decreases t@.len() - i,
    {
        if is_match_at(t, pat, i) {
            proof {
                lemma_match_shift(t@, pat@, i as int);
                assert(t@.skip(i as int).skip(pat@.len() as int) =~= t@.skip(
                    i + pat@.len() as int,
                ));
            }
            let ghost out0 = out@;
            let mut k: usize = 0;
            while k < v.len()
                invariant
                    k <= v@.len(),
                    out@ == out0 + v@.take(k as int),
                decreases v@.len() - k,
            {
                out.push(v[k]);
                proof {
                    assert(v@.take(k as int + 1) =~= v@.take(k as int).push(v@[k as int]));
                    assert(out0 + v@.take(k as int + 1) =~= (out0 + v@.take(k as int)).push(
                        v@[k as int],
                    ));
                }
                k = k + 1;
            }
            proof {
                assert(v@.take(v@.len() as int) =~= v@);
                assert(out0 + (v@ + replace_seq(t@.skip(i + pat@.len() as int), pat@, v@)) =~= (
                out0 + v@) + replace_seq(t@.skip(i + pat@.len() as int), pat@, v@));
            }
            i = i + pat.len();
        } else {
            proof {
                lemma_match_shift(t@, pat@, i as int);
                assert(t@.skip(i as int).skip(1) =~= t@.skip(i as int + 1));
                assert(t@.skip(i as int)[0] == t@[i as int]);
                assert(out@ + (seq![t@[i as int]] + replace_seq(t@.skip(i as int + 1), pat@, v@))
                    =~= out@.push(t@[i as int]) + replace_seq(t@.skip(i as int + 1), pat@, v@));
            }
            out.push(t[i]);
            i = i + 1;
        }
    }
    while i < t.len()
        invariant
            i <= t@.len(),
            pat@.len() >= 1,
            t@.len() < i + pat@.len(),
            replace_seq(t@, pat@, v@) == out@ + replace_seq(t@.skip(i as int), pat@, v@),
        decreases t@.len() - i,
    {
        proof {
            assert(t@.skip(i as int).len() < pat@.len());
            assert(t@.skip(i as int).skip(1) =~= t@.skip(i as int + 1));
            assert(t@.skip(i as int) =~= seq![t@[i as int]] + t@.skip(i as int + 1));
            assert(out@ + (seq![t@[i as int]] + t@.skip(i as int + 1)) =~= out@.push(t@[i as int])
                + t@.skip(i as int + 1));
            assert(t@.skip(i as int + 1).len() < pat@.len());
        }
        out.push(t[i]);
        i = i + 1;
    }
    proof {
        assert(t@.skip(i as int) =~= Seq::<char>::empty());
        assert(out@ + Seq::<char>::empty() =~= out@);
    }
    out
}

/// `template` with every occurrence of `token` replaced by `value`.
pub fn replace_token(template: &str, token: &str, value: &str) -> (r: String)
    ensures
        r@ == replace_seq(template@, token@, value@),
{
    let t = string_to_chars(template);
    let pat = string_to_chars(token);
    let v = string_to_chars(value);
    chars_to_string(&replace_chars(&t, &pat, &v))
}

/// The character of a single decimal digit.
pub open spec fn digit_char(d: nat) -> char {
    if d == 0 {
        '0'
    } else if d == 1 {
        '1'
    } else if d == 2 {
        '2'
    } else if d == 3 {
        '3'
    } else if d == 4 {
        '4'
    } else if d == 5 {
        '5'
    } else if d == 6 {
        '6'
    } else if d == 7 {
        '7'
    } else if d == 8 {
        '8'
    } else {
        '9'
    }
}

/// The decimal digits of `n`, most significant first.
pub open spec fn dec_digits(n: nat) -> Seq<char>
    decreases n,
{
    if n < 10 {
        seq![digit_char(n)]
    } else {
        dec_digits(n / 10) + seq![digit_char(n % 10)]
    }
}

/// The decimal rendering of a signed number.
pub open spec fn dec_int(x: int) -> Seq<char> {
    if x < 0 {
        seq!['-'] + dec_digits((-x) as nat)
    } else {
        dec_digits(x as nat)
    }
}

/// The decimal digits of `n`, zero-padded to two places.
pub open spec fn dec_pad2(n: nat) -> Seq<char> {
    if n < 10 {
        seq!['0'] + dec_digits(n)
    } else {
        dec_digits(n)
    }
}

fn digit_char_x(d: u64) -> (r: char)
    requires
        d < 10,
    ensures
        r == digit_char(d as nat),
{
    if d == 0 {
        '0'
    } else if d == 1 {
        '1'
    } else if d == 2 {
        '2'
    } else if d == 3 {
        '3'
    } else if d == 4 {
        '4'
    } else if d == 5 {
        '5'
    } else if d == 6 {
        '6'
    } else if d == 7 {
        '7'
    } else if d == 8 {
        '8'
    } else {
        '9'
    }
}

/// Append the decimal digits of `n`.
pub fn push_digits(n: u64, out: &mut Vec<char>)
    ensures
        final(out)@ == old(out)@ + dec_digits(n as nat),
    decreases n,
{
    if n < 10 {
        out.push(digit_char_x(n));
        proof {
            assert(old(out)@ + dec_digits(n as nat) =~= old(out)@.push(digit_char(n as nat)));
        }
    } else {
        push_digits(n / 10, out);
        out.push(digit_char_x(n % 10));
        proof {
            assert(old(out)@ + dec_digits(n as nat) =~= (old(out)@ + dec_digits(
                n as nat / 10,
            )).push(digit_char(n as nat % 10)));
        }
    }
}

/// The decimal rendering of a signed number.
pub fn i64_to_string(x: i64) -> (r: String)
    requires
        i64::MIN < x,
    ensures
        r@ == dec_int(x as int),
{
    let mut out: Vec<char> = Vec::new();
    if x < 0 {
        out.push('-');
        push_digits((-x) as u64, &mut out);
        proof {
            assert(seq!['-'] + dec_digits((-x) as nat) =~= seq!['-'].push('-').drop_last()
                + dec_digits((-x) as nat));
            assert(Seq::<char>::empty().push('-') =~= seq!['-']);
        }
    } else {
        push_digits(x as u64, &mut out);
        proof {
            assert(Seq::<char>::empty() + dec_digits(x as nat) =~= dec_digits(x as nat));
        }
    }
    chars_to_string(&out)
}

/// The decimal rendering of `n`, zero-padded to two places.
pub fn push_pad2(n: u64, out: &mut Vec<char>)
    requires
        n < 100,
    ensures
        final(out)@ == old(out)@ + dec_pad2(n as nat),
{
    if n < 10 {
        out.push('0');
        push_digits(n, out);
        proof {
            assert(old(out)@ + (seq!['0'] + dec_digits(n as nat)) =~= old(out)@.push('0')
                + dec_digits(n as nat));
        }
    } else {
        push_digits(n, out);
    }
}

/// The decimal digits of `n`, zero-padded to four places.
pub open spec fn dec_pad4(n: nat) -> Seq<char> {
    if n < 10 {
        seq!['0', '0', '0'] + dec_digits(n)
    } else if n < 100 {
        seq!['0', '0'] + dec_digits(n)
    } else if n < 1000 {
        seq!['0'] + dec_digits(n)
    } else {
        dec_digits(n)
    }
}

/// The decimal rendering of `n`, zero-padded to four places.
pub fn push_pad4(n: u64, out: &mut Vec<char>)
    requires
        n < 10000,
    ensures
        final(out)@ == old(out)@ + dec_pad4(n as nat),
{
    if n < 10 {
        out.push('0');
        out.push('0');
        out.push('0');
        push_digits(n, out);
        proof {
            assert(old(out)@ + (seq!['0', '0', '0'] + dec_digits(n as nat)) =~= old(out)@.push(
                '0',
            ).push('0').push('0') + dec_digits(n as nat));
        }
    } else if n < 100 {
        out.push('0');
        out.push('0');
        push_digits(n, out);
        proof {
            assert(old(out)@ + (seq!['0', '0'] + dec_digits(n as nat)) =~= old(out)@.push(
                '0',
            ).push('0') + dec_digits(n as nat));
        }
    } else if n < 1000 {
        out.push('0');
        push_digits(n, out);
        proof {
            assert(old(out)@ + (seq!['0'] + dec_digits(n as nat)) =~= old(out)@.push('0')
                + dec_digits(n as nat));
        }
    } else {
        push_digits(n, out);
    }
}

/// Whether `c` is a decimal digit.
pub open spec fn is_digit(c: char) -> bool {
    '0' <= c && c <= '9'
}

/// The numeric value of one digit character.
pub open spec fn digit_val(c: char) -> int {
    c as int - '0' as int
}

/// The value of an unsigned digit string, most significant first.
pub open spec fn digits_value(s: Seq<char>) -> int
    decreases s.len(),
{
    if s.len() == 0 {
        0
    } else {
        digits_value(s.drop_last()) * 10 + digit_val(s.last())
    }
}

/// Whether every character of `s` is a decimal digit.
pub open spec fn all_digits(s: Seq<char>) -> bool {
    forall|i: int| 0 <= i < s.len() ==> is_digit(#[trigger] s[i])
}

/// The characters that trimming removes from the ends: the whitespace
/// set of the Unicode standard.
pub open spec fn is_space(c: char) -> bool {
    c == ' ' || c == '\t' || c == '\n' || c == '\r' || c == '\u{000B}' || c == '\u{000C}' || c
        == '\u{0085}' || c == '\u{00A0}' || c == '\u{1680}' || c == '\u{2000}' || c == '\u{2001}'
        || c == '\u{2002}' || c == '\u{2003}' || c == '\u{2004}' || c == '\u{2005}' || c
        == '\u{2006}' || c == '\u{2007}' || c == '\u{2008}' || c == '\u{2009}' || c == '\u{200A}'
        || c == '\u{2028}' || c == '\u{2029}' || c == '\u{202F}' || c == '\u{205F}' || c
        == '\u{3000}'
}

fn is_space_x(c: char) -> (r: bool)
    ensures
        r == is_space(c),
{
    c == ' ' || c == '\t' || c == '\n' || c == '\r' || c == '\u{000B}' || c == '\u{000C}' || c
        == '\u{0085}' || c == '\u{00A0}' || c == '\u{1680}' || c == '\u{2000}' || c == '\u{2001}'
        || c == '\u{2002}' || c == '\u{2003}' || c == '\u{2004}' || c == '\u{2005}' || c
        == '\u{2006}' || c == '\u{2007}' || c == '\u{2008}' || c == '\u{2009}' || c == '\u{200A}'
        || c == '\u{2028}' || c == '\u{2029}' || c == '\u{202F}' || c == '\u{205F}' || c
        == '\u{3000}'
}

/// `s` without its leading whitespace.
pub open spec fn trim_front(s: Seq<char>) -> Seq<char>
    decreases s.len(),
{
    if s.len() > 0 && is_space(s[0]) {
        trim_front(s.skip(1))
    } else {
        s
    }
}

/// `s` without its trailing whitespace.
pub open spec fn trim_back(s: Seq<char>) -> Seq<char>
    decreases s.len(),
{
    if s.len() > 0 && is_space(s.last()) {
        trim_back(s.drop_last())
    } else {
        s
    }
}

/// `s` without leading and trailing whitespace.
pub open spec fn trim_spec(s: Seq<char>) -> Seq<char> {
    trim_back(trim_front(s))
}

/// Remove leading and trailing whitespace.
pub fn trim_chars(v: &Vec<char>) -> (r: Vec<char>)
    ensures
        r@ == trim_spec(v@),
{
    let mut lo: usize = 0;
    proof {
        assert(v@.skip(0) =~= v@);
    }
    while lo < v.len() && is_space_x(v[lo])
        invariant
            lo <= v@.len(),
            trim_front(v@) == trim_front(v@.skip(lo as int)),
        decreases v@.len() - lo,
    {
        proof {
            assert(v@.skip(lo as int).skip(1) =~= v@.skip(lo as int + 1));
            assert(v@.skip(lo as int)[0] == v@[lo as int]);
        }
        lo = lo + 1;
    }
    let ghost t = v@.skip(lo as int);
    proof {
        if t.len() > 0 {
            assert(t[0] == v@[lo as int]);
        }
        assert(trim_front(v@) == t);
        assert(v@.subrange(lo as int, v@.len() as int) =~= t);
    }
    let mut hi: usize = v.len();
    while hi > lo && is_space_x(v[hi - 1])
        invariant
            lo <= hi <= v@.len(),
            t == v@.skip(lo as int),
            trim_back(t) == trim_back(v@.subrange(lo as int, hi as int)),
        decreases hi,
    {
        proof {
            let cur = v@.subrange(lo as int, hi as int);
            assert(cur.last() == v@[hi - 1]);
            assert(cur.drop_last() =~= v@.subrange(lo as int, hi as int - 1));
        }
        hi = hi - 1;
    }
    proof {
        let cur = v@.subrange(lo as int, hi as int);
        if cur.len() > 0 {
            assert(cur.last() == v@[hi - 1]);
        }
        assert(trim_back(t) == cur);
    }
    let mut out: Vec<char> = Vec::new();
    let mut k: usize = lo;
    while k < hi
        invariant
            lo <= k <= hi <= v@.len(),
            out@ == v@.subrange(lo as int, k as int),
        decreases hi - k,
    {
        proof {
            assert(v@.subrange(lo as int, k as int + 1) =~= v@.subrange(lo as int, k as int).push(
                v@[k as int],
            ));
        }
        out.push(v[k]);
        k = k + 1;
    }
    out
}

/// Whether `s` is a decimal integer in shape: an optional sign, then at
/// least one digit.
pub open spec fn int_shape_ok(s: Seq<char>) -> bool {
    let d = if s.len() >= 1 && (s[0] == '-' || s[0] == '+') {
        s.skip(1)
    } else {
        s
    };
    d.len() >= 1 && all_digits(d)
}

/// The signed value of a decimal integer string.
pub open spec fn parse_value(s: Seq<char>) -> int {
    if s.len() >= 1 && s[0] == '-' {
        -digits_value(s.skip(1))
    } else if s.len() >= 1 && s[0] == '+' {
        digits_value(s.skip(1))
    } else {
        digits_value(s)
    }
}

/// Whether `s` is an accepted decimal integer: the right shape, with a
/// value the target type can carry.
pub open spec fn parse_ok(s: Seq<char>) -> bool {
    int_shape_ok(s) && i64::MIN <= parse_value(s) <= i64::MAX
}

spec fn pow10(k: nat) -> int
    decreases k,
{
    if k == 0 {
        1
    } else {
        10 * pow10((k - 1) as nat)
    }
}

proof fn lemma_pow10_pos(k: nat)
    ensures
        pow10(k) >= 1,
    decreases k,
{
    if k > 0 {
        lemma_pow10_pos((k - 1) as nat);
    }
}

proof fn lemma_pow10_mono(a: nat, b: nat)
    requires
        a <= b,
    ensures
        pow10(a) <= pow10(b),
    decreases b - a,
{
    if a < b {
        lemma_pow10_mono(a, (b - 1) as nat);
        lemma_pow10_pos((b - 1) as nat);
    }
}

proof fn lemma_digits_bound(s: Seq<char>)
    requires
        all_digits(s),
    ensures
        0 <= digits_value(s) < pow10(s.len()),
    decreases s.len(),
{
    if s.len() > 0 {
        assert(all_digits(s.drop_last())) by {
            assert(forall|i: int| 0 <= i < s.len() - 1 ==> s.drop_last()[i] == s[i]);
        }
        lemma_digits_bound(s.drop_last());
        assert(is_digit(s.last()));
    }
}

/// A string of zero digits has value zero.
proof fn lemma_digits_zeros(s: Seq<char>)
    requires
        forall|i: int| 0 <= i < s.len() ==> s[i] == '0',
    ensures
        digits_value(s) == 0,
    decreases s.len(),
{
    if s.len() > 0 {
        assert(forall|i: int| 0 <= i < s.len() - 1 ==> s.drop_last()[i] == s[i]);
        lemma_digits_zeros(s.drop_last());
    }
}

/// Leading zeros do not change the value.
proof fn lemma_digits_leading_zeros(s: Seq<char>, k: int)
    requires
        0 <= k <= s.len(),
        forall|i: int| 0 <= i < k ==> s[i] == '0',
    ensures
        digits_value(s) == digits_value(s.skip(k)),
    decreases s.len(),
{
    if s.len() == k {
        lemma_digits_zeros(s);
        assert(s.skip(k) =~= Seq::<char>::empty());
    } else if s.len() > k {
        assert(forall|i: int| 0 <= i < s.len() - 1 ==> s.drop_last()[i] == s[i]);
        lemma_digits_leading_zeros(s.drop_last(), k);
        assert(s.skip(k).drop_last() =~= s.drop_last().skip(k));
        assert(s.skip(k).last() == s.last());
    }
}

/// A digit string with a leading significant digit reaches the power of
/// ten of its length.
proof fn lemma_digits_lower(s: Seq<char>)
    requires
        all_digits(s),
        s.len() >= 1,
        s[0] != '0',
    ensures
        digits_value(s) >= pow10((s.len() - 1) as nat),
    decreases s.len(),
{
    if s.len() == 1 {
        assert(is_digit(s[0]));
        assert(digit_val(s[0]) >= 1);
        assert(digits_value(s.drop_last()) == 0) by {
            assert(s.drop_last() =~= Seq::<char>::empty());
        }
    } else {
        let dl = s.drop_last();
        assert(all_digits(dl)) by {
            assert(forall|i: int| 0 <= i < s.len() - 1 ==> dl[i] == s[i]);
        }
        assert(dl[0] == s[0]);
        lemma_digits_lower(dl);
        assert(is_digit(s.last()));
        assert(digit_val(s.last()) >= 0);
        assert(digits_value(dl) >= pow10((dl.len() - 1) as nat));
        assert(pow10((s.len() - 1) as nat) == 10 * pow10((s.len() - 2) as nat));
        assert(digits_value(dl) * 10 >= pow10((s.len() - 2) as nat) * 10);
    }
}

/// Parse a decimal integer: an optional sign, then digits; `None` on any
/// other shape and on a value outside the target range.
pub fn parse_i64_chars(s: &Vec<char>) -> (r: Option<i64>)
    ensures
        (r is Some) <==> parse_ok(s@),
        (r matches Some(v) ==> v == parse_value(s@)),
{
    let signed: bool = s.len() >= 1 && (s[0] == '-' || s[0] == '+');
    let negative: bool = s.len() >= 1 && s[0] == '-';
    let start: usize = if signed {
        1
    } else {
        0
    };
    let ghost digits = if signed {
        s@.skip(1)
    } else {
        s@
    };
    if s.len() - start < 1 {
        return None;
    }
    let mut j: usize = start;
    proof {
        assert(digits.subrange(0, 0) =~= Seq::<char>::empty());
    }
    while j < s.len()
        invariant
            start <= j <= s@.len(),
            start <= 1,
            signed == (s@.len() >= 1 && (s@[0] == '-' || s@[0] == '+')),
            start == (if signed {
                1int
            } else {
                0int
            }),
            digits == (if signed {
                s@.skip(1)
            } else {
                s@
            }),
            1 <= s@.len() - start,
            forall|i: int| 0 <= i < j - start ==> is_digit(#[trigger] digits[i]),
        decreases s@.len() - j,
    {
        let c = s[j];
        if !('0' <= c && c <= '9') {
            proof {
                assert(digits[j - start] == c);
            }
            return None;
        }
        j = j + 1;
    }
    proof {
        assert(all_digits(digits));
    }
    // Skip any leading zeros: they do not change the value.
    let mut z: usize = start;
    while z < s.len() && s[z] == '0'
        invariant
            start <= z <= s@.len(),
            start <= 1,
            signed == (s@.len() >= 1 && (s@[0] == '-' || s@[0] == '+')),
            start == (if signed {
                1int
            } else {
                0int
            }),
            digits == (if signed {
                s@.skip(1)
            } else {
                s@
            }),
            forall|i: int| 0 <= i < z - start ==> digits[i] == '0',
        decreases s@.len() - z,
    {
        proof {
            assert(digits[z - start] == s@[z as int]);
        }
        z = z + 1;
    }
    let ghost sig = digits.skip(z - start);
    proof {
        lemma_digits_leading_zeros(digits, z - start);
        assert(forall|i: int| 0 <= i < sig.len() ==> sig[i] == digits[i + z - start]);
        assert(all_digits(sig));
    }
    if s.len() - z > 19 {
        // At least twenty significant digits: the value cannot fit.
        proof {
            reveal_with_fuel(pow10, 21);
            assert(sig[0] == s@[z as int]);
            lemma_digits_lower(sig);
            lemma_pow10_mono(19nat, (sig.len() - 1) as nat);
        }
        return None;
    }
    let mut acc: u64 = 0;
    let mut k: usize = z;
    proof {
        assert(sig.subrange(0, 0) =~= Seq::<char>::empty());
    }
    while k < s.len()
        invariant
            z <= k <= s@.len(),
            s@.len() - z <= 19,
            start <= z,
            start <= 1,
            digits == (if signed {
                s@.skip(1)
            } else {
                s@
            }),
            sig == digits.skip(z - start),
            all_digits(sig),
            sig.len() == s@.len() - z,
            acc == digits_value(sig.subrange(0, k - z)),
            0 <= acc < pow10((k - z) as nat),
        decreases s@.len() - k,
    {
        let c = s[k];
        proof {
            reveal_with_fuel(pow10, 21);
            lemma_pow10_mono((k - z) as nat, 18nat);
            let pre = sig.subrange(0, k - z);
            let cur = sig.subrange(0, k + 1 - z);
            assert(cur.drop_last() =~= pre);
            assert(cur.last() == sig[k - z]);
            assert(sig[k - z] == s@[k as int]);
            assert(is_digit(sig[k - z]));
            lemma_digits_bound(cur);
        }
        let d = c as u32 - 48;
        acc = acc * 10 + d as u64;
        k = k + 1;
    }
    proof {
        assert(sig.subrange(0, sig.len() as int) =~= sig);
        assert(digits_value(digits) == acc);
    }
    if negative {
        if acc > 9223372036854775808u64 {
            return None;
        }
        if acc == 9223372036854775808u64 {
            Some(i64::MIN)
        } else {
            Some(-(acc as i64))
        }
    } else {
        if acc > 9223372036854775807u64 {
            return None;
        }
        Some(acc as i64)
    }
}

/// A pattern matches inside the whole text exactly where it matches at
/// the front of the corresponding suffix.
proof fn lemma_match_shift(t: Seq<char>, pat: Seq<char>, i: int)
    requires
        0 <= i,
        i + pat.len() <= t.len(),
    ensures
        match_at(t, pat, i) == match_at(t.skip(i), pat, 0),
{
    assert(t.subrange(i, i + pat.len() as int) =~= t.skip(i).subrange(0, pat.len() as int));
}

} // verus!
