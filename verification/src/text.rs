//! Text utilities with exact specifications: decimal formatting and parsing,
//! Unicode white space trimming, substring search and character access.
use vstd::prelude::*;

verus! {

/// The character of a decimal digit `d` (0 to 9).
pub open spec fn digit_char(d: int) -> char {
    (('0' as int) + d) as char
}

/// The decimal digits of a natural number, most significant first, without leading zeros.
pub open spec fn nat_digits(n: nat) -> Seq<char>
    decreases n,
{
    if n < 10 {
        seq![digit_char(n as int)]
    } else {
        nat_digits(n / 10).push(digit_char((n % 10) as int))
    }
}

/// The decimal text of an integer, as Rust's `Display` writes it.
pub open spec fn decimal(i: int) -> Seq<char> {
    if i < 0 {
        seq!['-'] + nat_digits((-i) as nat)
    } else {
        nat_digits(i as nat)
    }
}

/// `n` written in decimal and padded on the left with zeros to at least `width` characters
/// (what `format!("{n:0width$}")` writes for a natural number).
pub open spec fn padded_decimal(n: nat, width: nat) -> Seq<char> {
    let digits = nat_digits(n);
    if digits.len() >= width {
        digits
    } else {
        Seq::new((width - digits.len()) as nat, |i: int| '0') + digits
    }
}

/// Appends a character to a string (`String::push`).
#[verifier::external_body]
pub(crate) fn push_char(s: &mut String, c: char)
    ensures
        final(s)@ == old(s)@.push(c),
{
    s.push(c);
}

/// Appends a string slice to a string.
pub fn push_str(s: &mut String, t: &str)
    ensures
        final(s)@ == old(s)@ + t@,
{
    s.append(t);
}

/// A new string with the contents of a string slice.
pub fn to_owned_string(t: &str) -> (s: String)
    ensures
        s@ == t@,
{
    String::from_str(t)
}

/// Concatenation of two string slices.
pub fn concat2(a: &str, b: &str) -> (s: String)
    ensures
        s@ == a@ + b@,
{
    let mut s = String::from_str(a);
    s.append(b);
    s
}

/// Concatenation of three string slices.
pub fn concat3(a: &str, b: &str, c: &str) -> (s: String)
    ensures
        s@ == a@ + b@ + c@,
{
    let mut s = String::from_str(a);
    s.append(b);
    s.append(c);
    s
}

fn digit_to_char(d: u64) -> (c: char)
    requires
        d < 10,
    ensures
        c == digit_char(d as int),
{
    if d == 0 {
        '0'
    } else if d == 1 {
        '1'
    } else if d == 2 {
        '2'
    } else if d == 3 {
        '3'
    } else if d == 4 {
        '4'
    } else if d == 5 {
        '5'
    } else if d == 6 {
        '6'
    } else if d == 7 {
        '7'
    } else if d == 8 {
        '8'
    } else {
        '9'
    }
}

/// A string holding the characters of a vector, in order.
pub fn string_of_chars(v: &Vec<char>) -> (s: String)
    ensures
        s@ == v@,
{
    let mut s = String::new();
    let mut i: usize = 0;
    while i < v.len()
        invariant
            i <= v.len(),
            s@ == v@.subrange(0, i as int),
        decreases v.len() - i,
    {
        push_char(&mut s, v[i]);
        assert(v@.subrange(0, i + 1) =~= v@.subrange(0, i as int).push(v@[i as int]));
        i = i + 1;
    }
    assert(v@.subrange(0, v.len() as int) =~= v@);
    s
}

/// The characters of a string slice, in order.
pub fn chars_of(s: &str) -> (v: Vec<char>)
    ensures
        v@ == s@,
{
    let n: usize = s.unicode_len();
    let mut v: Vec<char> = Vec::new();
    let mut i: usize = 0;
    while i < n
        invariant
            i <= n,
            n == s@.len(),
            v@ == s@.subrange(0, i as int),
        decreases n - i,
    {
        let c: char = s.get_char(i);
        v.push(c);
        assert(s@.subrange(0, i + 1) =~= s@.subrange(0, i as int).push(c));
        i = i + 1;
    }
    assert(s@.subrange(0, n as int) =~= s@);
    v
}

/// The decimal digits of `n`.
pub fn u128_to_decimal(n: u128) -> (s: String)
    ensures
        s@ == nat_digits(n as nat),
{
    let mut rev: Vec<char> = Vec::new();
    let mut m: u128 = n;
    loop
        invariant_except_break
            m <= n,
            nat_digits(n as nat) == nat_digits(m as nat) + rev@.reverse(),
        ensures
            nat_digits(n as nat) == rev@.reverse(),
        decreases m,
    {
        let d: u128 = m % 10;
        let c: char = digit_to_char(d as u64);
        if m < 10 {
            rev.push(c);
            assert(nat_digits(n as nat) == rev@.reverse()) by {
                assert(rev@.reverse() =~= seq![c] + rev@.drop_last().reverse());
            }
            break;
        }
        proof {
            assert(rev@.push(c).reverse() =~= seq![c] + rev@.reverse());
        }
        rev.push(c);
        m = m / 10;
    }
    let mut s = String::new();
    let mut i: usize = rev.len();
    while i > 0
        invariant
            i <= rev.len(),
            s@ == rev@.subrange(i as int, rev.len() as int).reverse(),
        decreases i,
    {
        i = i - 1;
        push_char(&mut s, rev[i]);
        assert(rev@.subrange(i as int, rev.len() as int).reverse() =~= rev@.subrange(
            i + 1,
            rev.len() as int,
        ).reverse().push(rev@[i as int]));
    }
    assert(rev@.subrange(0, rev.len() as int) =~= rev@);
    s
}

/// The decimal digits of `n`.
pub fn u64_to_decimal(n: u64) -> (s: String)
    ensures
        s@ == nat_digits(n as nat),
{
    u128_to_decimal(n as u128)
}

/// The decimal text of `i`, as `i.to_string()` writes it.
pub fn i64_to_decimal(i: i64) -> (s: String)
    ensures
        s@ == decimal(i as int),
{
    if i < 0 {
        let magnitude: u64 = if i == i64::MIN {
            9223372036854775808u64
        } else {
            (-i) as u64
        };
        let digits = u64_to_decimal(magnitude);
        let mut s = String::from_str("-");
        proof {
            reveal_strlit("-");
        }
        s.append(digits.as_str());
        assert(s@ =~= seq!['-'] + nat_digits((-i) as nat));
        s
    } else {
        u64_to_decimal(i as u64)
    }
}

/// The decimal text of `n`.
pub fn usize_to_decimal(n: usize) -> (s: String)
    ensures
        s@ == decimal(n as int),
{
    u64_to_decimal(n as u64)
}

/// `n` in decimal, padded on the left with zeros to at least `width` characters.
pub fn padded_decimal_string(n: u64, width: usize) -> (s: String)
    ensures
        s@ == padded_decimal(n as nat, width as nat),
{
    let digits = u64_to_decimal(n);
    let len: usize = digits.as_str().unicode_len();
    if len >= width {
        digits
    } else {
        let mut s = String::new();
        let mut k: usize = 0;
        while k < width - len
            invariant
                k <= width - len,
                len < width,
                s@ == Seq::new(k as nat, |i: int| '0'),
            decreases width - len - k,
        {
            push_char(&mut s, '0');
            assert(s@ =~= Seq::new((k + 1) as nat, |i: int| '0'));
            k = k + 1;
        }
        s.append(digits.as_str());
        s
    }
}

/// Whether a character is a decimal digit `0`..`9`.
pub open spec fn is_digit(c: char) -> bool {
    48 <= (c as u32) && (c as u32) <= 57
}

/// Whether every character of `s` is a decimal digit.
pub open spec fn all_digits(s: Seq<char>) -> bool {
    forall|i: int| 0 <= i < s.len() ==> is_digit(#[trigger] s[i])
}

/// The value of a sequence of decimal digits.
pub open spec fn digits_value(s: Seq<char>) -> nat
    decreases s.len(),
{
    if s.len() == 0 {
        0
    } else {
        digits_value(s.drop_last()) * 10 + ((s.last() as u32) - 48) as nat
    }
}

/// What `str::parse::<i64>` gives back for a text: an optional `+` or `-` sign followed by
/// one or more decimal digits, whose value lies in the range of `i64`; otherwise nothing.
pub open spec fn parse_i64_spec(s: Seq<char>) -> Option<i64> {
    if s.len() == 0 {
        None
    } else {
        let neg = s[0] == '-';
        let body = if s[0] == '-' || s[0] == '+' {
            s.drop_first()
        } else {
            s
        };
        if body.len() == 0 || !all_digits(body) {
            None
        } else {
            let v: int = if neg {
                -(digits_value(body) as int)
            } else {
                digits_value(body) as int
            };
            if i64::MIN <= v <= i64::MAX {
                Some(v as i64)
            } else {
                None
            }
        }
    }
}

proof fn lemma_nat_digits(n: nat)
    ensures
        nat_digits(n).len() >= 1,
        all_digits(nat_digits(n)),
        digits_value(nat_digits(n)) == n,
    decreases n,
{
    let c = digit_char((n % 10) as int);
    assert((c as u32) == 48 + n % 10);
    if n < 10 {
        let s = nat_digits(n);
        assert(s.drop_last() =~= Seq::<char>::empty());
        assert(n % 10 == n);
        assert(s.last() == c);
        assert(digits_value(s) == digits_value(s.drop_last()) * 10 + ((s.last() as u32) - 48) as nat);
    } else {
        lemma_nat_digits(n / 10);
        let s = nat_digits(n);
        assert(s.drop_last() =~= nat_digits(n / 10));
        assert(s.last() == c);
        assert((n / 10) * 10 + n % 10 == n);
        assert(digits_value(s) == digits_value(s.drop_last()) * 10 + ((s.last() as u32) - 48) as nat);
        assert(digits_value(s.drop_last()) == n / 10);
        assert(((s.last() as u32) - 48) as nat == n % 10);
        assert forall|i: int| 0 <= i < s.len() implies is_digit(#[trigger] s[i]) by {
            if i < s.len() - 1 {
                assert(s[i] == nat_digits(n / 10)[i]);
            }
        }
    }
}

/// The decimal text of an integer reads back as the same integer: an id the program
/// prints can be typed back to it.
pub proof fn lemma_decimal_parse(i: i64)
    ensures
        parse_i64_spec(decimal(i as int)) == Some(i),
{
    if i < 0 {
        let d = nat_digits((-i) as nat);
        lemma_nat_digits((-i) as nat);
        let s = decimal(i as int);
        assert(s.drop_first() =~= d);
    } else {
        lemma_nat_digits(i as nat);
        let d = nat_digits(i as nat);
        assert(is_digit(d[0]));
    }
}

proof fn lemma_digits_value_prefix_monotone(s: Seq<char>, k: int, j: int)
    requires
        0 <= k <= j <= s.len(),
    ensures
        digits_value(s.take(k)) <= digits_value(s.take(j)),
    decreases j - k,
{
    if k < j {
        lemma_digits_value_prefix_monotone(s, k, j - 1);
        assert(s.take(j).drop_last() =~= s.take(j - 1));
    }
}

fn all_digit_chars(cs: &Vec<char>, start: usize) -> (r: bool)
    requires
        start <= cs.len(),
    ensures
        r == all_digits(cs@.subrange(start as int, cs@.len() as int)),
{
    let ghost body = cs@.subrange(start as int, cs@.len() as int);
    let mut k: usize = start;
    while k < cs.len()
        invariant
            start <= k <= cs.len(),
            body == cs@.subrange(start as int, cs@.len() as int),
            forall|i: int| 0 <= i < k - start ==> is_digit(#[trigger] body[i]),
        decreases cs.len() - k,
    {
        let u: u32 = cs[k] as u32;
        if !(48 <= u && u <= 57) {
            assert(body[k - start] == cs@[k as int]);
            return false;
        }
        assert(body[k - start] == cs@[k as int]);
        k = k + 1;
    }
    true
}

/// The value of the digits `cs[start..]`, or a number above `2^63` when the value is larger.
fn digits_value_capped(cs: &Vec<char>, start: usize) -> (r: u128)
    requires
        start <= cs.len(),
        all_digits(cs@.subrange(start as int, cs@.len() as int)),
    ensures
        r <= 9223372036854775808u128 ==> r == digits_value(cs@.subrange(start as int, cs@.len() as int)),
        r > 9223372036854775808u128 ==> digits_value(cs@.subrange(start as int, cs@.len() as int)) > 9223372036854775808u128,
{
    let ghost body = cs@.subrange(start as int, cs@.len() as int);
    let mut acc: u128 = 0;
    let mut k: usize = start;
    while k < cs.len()
        invariant
            start <= k <= cs.len(),
            body == cs@.subrange(start as int, cs@.len() as int),
            all_digits(body),
            acc == digits_value(body.take(k - start)),
            acc <= 9223372036854775808u128,
        decreases cs.len() - k,
    {
        assert(body[k - start] == cs@[k as int]);
        assert(is_digit(body[k - start]));
        let d: u32 = (cs[k] as u32) - 48;
        assert(body.take(k - start + 1).drop_last() =~= body.take(k - start));
        let next: u128 = acc * 10 + (d as u128);
        if next > 9223372036854775808u128 {
            proof {
                lemma_digits_value_prefix_monotone(body, k - start + 1, body.len() as int);
                assert(body.take(body.len() as int) =~= body);
            }
            return next;
        }
        acc = next;
        k = k + 1;
    }
    assert(body.take(k - start) =~= body);
    acc
}

/// Parses a decimal `i64` as `str::parse::<i64>` does.
pub fn parse_i64(s: &str) -> (r: Option<i64>)
    ensures
        r == parse_i64_spec(s@),
{
    let cs = chars_of(s);
    if cs.len() == 0 {
        return None;
    }
    let neg: bool = cs[0] == '-';
    let start: usize = if cs[0] == '-' || cs[0] == '+' {
        1
    } else {
        0
    };
    let ghost body = if cs@[0] == '-' || cs@[0] == '+' {
        cs@.drop_first()
    } else {
        cs@
    };
    assert(body =~= cs@.subrange(start as int, cs@.len() as int));
    if start >= cs.len() {
        return None;
    }
    if !all_digit_chars(&cs, start) {
        return None;
    }
    let value: u128 = digits_value_capped(&cs, start);
    if neg {
        if value > 9223372036854775808u128 {
            None
        } else {
            let v: i128 = -(value as i128);
            Some(v as i64)
        }
    } else {
        if value > 9223372036854775807u128 {
            None
        } else {
            Some(value as i64)
        }
    }
}

/// Whether two string slices hold the same characters.
pub fn str_eq(a: &str, b: &str) -> (r: bool)
    ensures
        r == (a@ == b@),
{
    let x = chars_of(a);
    let y = chars_of(b);
    if x.len() != y.len() {
        return false;
    }
    let mut i: usize = 0;
    while i < x.len()
        invariant
            i <= x.len(),
            x.len() == y.len(),
            x@ == a@,
            y@ == b@,
            forall|j: int| 0 <= j < i ==> x@[j] == y@[j],
        decreases x.len() - i,
    {
        if x[i] != y[i] {
            return false;
        }
        i = i + 1;
    }
    assert(a@ =~= b@);
    true
}

/// Whether a character has the Unicode `White_Space` property, as `char::is_whitespace`
/// decides it.
pub open spec fn is_white_space(c: char) -> bool {
    let u = c as u32;
    ||| 0x09 <= u <= 0x0d
    ||| u == 0x20
    ||| u == 0x85
    ||| u == 0xa0
    ||| u == 0x1680
    ||| 0x2000 <= u <= 0x200a
    ||| u == 0x2028
    ||| u == 0x2029
    ||| u == 0x202f
    ||| u == 0x205f
    ||| u == 0x3000
}

/// Decides `is_white_space`.
pub fn white_space(c: char) -> (r: bool)
    ensures
        r == is_white_space(c),
{
    let u: u32 = c as u32;
    (0x09 <= u && u <= 0x0d) || u == 0x20 || u == 0x85 || u == 0xa0 || u == 0x1680 || (0x2000
        <= u && u <= 0x200a) || u == 0x2028 || u == 0x2029 || u == 0x202f || u == 0x205f || u
        == 0x3000
}

/// The index of the first character of `s` that is not white space (or `s.len()`).
pub open spec fn trim_start_index(s: Seq<char>) -> int
    decreases s.len(),
{
    if s.len() == 0 {
        0
    } else if is_white_space(s[0]) {
        1 + trim_start_index(s.drop_first())
    } else {
        0
    }
}

/// The index just past the last character of `s` that is not white space (or 0).
pub open spec fn trim_end_index(s: Seq<char>) -> int
    decreases s.len(),
{
    if s.len() == 0 {
        0
    } else if is_white_space(s.last()) {
        trim_end_index(s.drop_last())
    } else {
        s.len() as int
    }
}

/// `s` without leading and trailing white space, as `str::trim` gives it.
pub open spec fn trim_spec(s: Seq<char>) -> Seq<char> {
    let a = trim_start_index(s);
    let b = trim_end_index(s);
    if a >= b {
        Seq::empty()
    } else {
        s.subrange(a, b)
    }
}

proof fn lemma_trim_start(s: Seq<char>, k: int)
    requires
        0 <= k <= s.len(),
        forall|i: int| 0 <= i < k ==> is_white_space(#[trigger] s[i]),
    ensures
        k == s.len() || !is_white_space(s[k]) ==> trim_start_index(s) == k,
    decreases k,
{
    if k > 0 {
        let t = s.drop_first();
        assert forall|i: int| 0 <= i < k - 1 implies is_white_space(#[trigger] t[i]) by {
            assert(t[i] == s[i + 1]);
        }
        lemma_trim_start(t, k - 1);
        if k == s.len() || !is_white_space(s[k]) {
            if k - 1 < t.len() {
                assert(t[k - 1] == s[k]);
            }
        }
    }
}

proof fn lemma_trim_end(s: Seq<char>, k: int)
    requires
        0 <= k <= s.len(),
        forall|i: int| k <= i < s.len() ==> is_white_space(#[trigger] s[i]),
    ensures
        k == 0 || !is_white_space(s[k - 1]) ==> trim_end_index(s) == k,
    decreases s.len() - k,
{
    if k < s.len() {
        let t = s.drop_last();
        assert forall|i: int| k <= i < t.len() implies is_white_space(#[trigger] t[i]) by {
            assert(t[i] == s[i]);
        }
        lemma_trim_end(t, k);
        if k == 0 || !is_white_space(s[k - 1]) {
            if k > 0 {
                assert(t[k - 1] == s[k - 1]);
            }
        }
    }
}

/// `s` without leading and trailing white space (`str::trim`).
pub fn trim(s: &str) -> (r: String)
    ensures
        r@ == trim_spec(s@),
{
    let cs = chars_of(s);
    let n: usize = cs.len();
    let mut a: usize = 0;
    while a < n && white_space(cs[a])
        invariant
            a <= n,
            n == cs@.len(),
            cs@ == s@,
            forall|i: int| 0 <= i < a ==> is_white_space(#[trigger] cs@[i]),
        decreases n - a,
    {
        a = a + 1;
    }
    proof {
        lemma_trim_start(cs@, a as int);
    }
    let mut b: usize = n;
    while b > a && white_space(cs[b - 1])
        invariant
            a <= b <= n,
            n == cs@.len(),
            cs@ == s@,
            forall|i: int| b <= i < n ==> is_white_space(#[trigger] cs@[i]),
        decreases b,
    {
        b = b - 1;
    }
    proof {
        if b > a {
            lemma_trim_end(cs@, b as int);
        } else {
            // every character is white space: the end index falls at or below the start
            assert forall|i: int| 0 <= i < n implies is_white_space(#[trigger] cs@[i]) by {
                if i >= b {
                } else {
                    assert(i < a);
                }
            }
            lemma_trim_end_all(cs@);
        }
    }
    let mut out: Vec<char> = Vec::new();
    let mut k: usize = a;
    while k < b
        invariant
            a <= k <= b,
            b <= n,
            n == cs@.len(),
            out@ == cs@.subrange(a as int, k as int),
        decreases b - k,
    {
        out.push(cs[k]);
        assert(cs@.subrange(a as int, k + 1) =~= cs@.subrange(a as int, k as int).push(cs@[k as int]));
        k = k + 1;
    }
    if b <= a {
        assert(out@ =~= Seq::<char>::empty());
    }
    string_of_chars(&out)
}

proof fn lemma_trim_end_all(s: Seq<char>)
    requires
        forall|i: int| 0 <= i < s.len() ==> is_white_space(#[trigger] s[i]),
    ensures
        trim_end_index(s) == 0,
    decreases s.len(),
{
    if s.len() > 0 {
        let t = s.drop_last();
        assert forall|i: int| 0 <= i < t.len() implies is_white_space(#[trigger] t[i]) by {
            assert(t[i] == s[i]);
        }
        lemma_trim_end_all(t);
    }
}

/// Whether `needle` occurs in `hay` as a contiguous run of characters.
pub open spec fn contains_seq(hay: Seq<char>, needle: Seq<char>) -> bool {
    exists|i: int| 0 <= i && i + needle.len() <= hay.len() && #[trigger] hay.subrange(i, i + needle.len()) == needle
}

fn matches_at(h: &Vec<char>, n: &Vec<char>, i: usize) -> (r: bool)
    requires
        i + n.len() <= h.len(),
    ensures
        r == (h@.subrange(i as int, i + n@.len()) == n@),
{
    let mut k: usize = 0;
    while k < n.len()
        invariant
            i + n.len() <= h.len(),
            k <= n.len(),
            forall|t: int| 0 <= t < k ==> h@[i + t] == n@[t],
        decreases n.len() - k,
    {
        if h[i + k] != n[k] {
            assert(h@.subrange(i as int, i + n@.len())[k as int] == h@[i + k]);
            return false;
        }
        k = k + 1;
    }
    assert(h@.subrange(i as int, i + n@.len()) =~= n@);
    true
}

/// Whether `needle` occurs in `hay` (`str::contains` with a string pattern).
pub fn contains_str(hay: &str, needle: &str) -> (r: bool)
    ensures
        r == contains_seq(hay@, needle@),
{
    let h = chars_of(hay);
    let n = chars_of(needle);
    if n.len() > h.len() {
        assert forall|i: int| 0 <= i && i + n@.len() <= h@.len() implies #[trigger] h@.subrange(
            i,
            i + n@.len(),
        ) != n@ by {}
        return false;
    }
    if n.len() == 0 {
        assert(h@.subrange(0, 0 + n@.len() as int) =~= n@);
        return true;
    }
    let mut i: usize = 0;
    while i <= h.len() - n.len()
        invariant
            1 <= n.len() <= h.len(),
            h@ == hay@,
            n@ == needle@,
            i <= h.len() - n.len() + 1,
            forall|j: int| 0 <= j < i ==> #[trigger] h@.subrange(j, j + n@.len()) != n@,
        decreases h.len() - i,
    {
        if matches_at(&h, &n, i) {
            return true;
        }
        i = i + 1;
    }
    false
}

/// What `str::to_lowercase` gives back for a text. Its value is the Unicode
/// lowercase mapping; no contract here states it.
pub uninterp spec fn lowercase(s: Seq<char>) -> Seq<char>;

/// Calls `str::to_lowercase`. The contract says only that the result is the lowercase
/// mapping of the argument's characters (named `lowercase`); the mapping itself
/// is Unicode's and is not written out here.
#[verifier::external_body]
pub(crate) fn to_lowercase(s: &str) -> (r: String)
    ensures
        r@ == lowercase(s@),
{
    s.to_lowercase()
}

} // verus!
