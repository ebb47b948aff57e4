use vstd::prelude::*;

verus! {

/// What `str::to_lowercase` makes of a string: fixed by its characters alone.
pub uninterp spec fn lower_of(s: Seq<char>) -> Seq<char>;

/// Relies on `str::to_lowercase`, which maps each character to its Unicode
/// lower-case form; the result depends on the characters of `s` alone.
#[verifier::external_body]
pub(crate) fn lowercase(s: &str) -> (r: String)
    ensures
        r@ == lower_of(s@),
{
    s.to_lowercase()
}

/// Relies on `str::starts_with` with a string pattern: true exactly when
/// `prefix` is an initial segment of `s`.
#[verifier::external_body]
pub(crate) fn starts_with(s: &str, prefix: &str) -> (r: bool)
    ensures
        r == prefix@.is_prefix_of(s@),
{
    s.starts_with(prefix)
}

/// `s` with every occurrence of `pat` replaced by `rep`, matches taken from
/// the left and never overlapping.
pub open spec fn replaced(s: Seq<char>, pat: Seq<char>, rep: Seq<char>) -> Seq<char>
    decreases s.len(),
{
    if pat.len() == 0 || s.len() < pat.len() {
        s
    } else if pat.is_prefix_of(s) {
        rep + replaced(s.skip(pat.len() as int), pat, rep)
    } else {
        seq![s[0]] + replaced(s.skip(1), pat, rep)
    }
}

/// Relies on `str::replace` with a non-empty string pattern: each match,
/// found left to right without overlap, is replaced by `rep`.
#[verifier::external_body]
pub(crate) fn replace_all(s: &str, pat: &str, rep: &str) -> (r: String)
    requires
        pat@.len() > 0,
    ensures
        r@ == replaced(s@, pat@, rep@),
{
    s.replace(pat, rep)
}

pub open spec fn is_digit(c: char) -> bool {
    '0' <= c && c <= '9'
}

pub open spec fn is_sign(c: char) -> bool {
    c == '+' || c == '-'
}

pub open spec fn all_digits(s: Seq<char>) -> bool {
    forall|i: int| 0 <= i < s.len() ==> is_digit(#[trigger] s[i])
}

/// The number that a string of decimal digits writes.
pub open spec fn digits_value(s: Seq<char>) -> int
    decreases s.len(),
{
    if s.len() == 0 {
        0
    } else {
        digits_value(s.drop_last()) * 10 + (s.last() as u32 - '0' as u32)
    }
}

/// `s` without a leading `+` or `-`.
pub open spec fn unsigned_part(s: Seq<char>) -> Seq<char> {
    if s.len() > 0 && is_sign(s[0]) {
        s.skip(1)
    } else {
        s
    }
}

/// The integer that `s` writes in decimal, an optional sign and at least one
/// digit, if it lies in the range of `i64`.
pub open spec fn int_text(s: Seq<char>) -> Option<i64> {
    let body = unsigned_part(s);
    let v = if s.len() > 0 && s[0] == '-' {
        -digits_value(body)
    } else {
        digits_value(body)
    };
    if body.len() > 0 && all_digits(body) && i64::MIN <= v <= i64::MAX {
        Some(v as i64)
    } else {
        None
    }
}

/// Relies on `<i64 as FromStr>::from_str`: it accepts an optional `+` or `-`
/// followed by one or more decimal digits and nothing else, and fails when
/// the number does not fit in an `i64`.
#[verifier::external_body]
pub(crate) fn parse_i64(s: &str) -> (r: Option<i64>)
    ensures
        r == int_text(s@),
{
    s.parse::<i64>().ok()
}

/// How many decimal digits `s` starts with.
pub open spec fn leading_digits(s: Seq<char>) -> nat
    decreases s.len(),
{
    if s.len() > 0 && is_digit(s[0]) {
        1 + leading_digits(s.skip(1))
    } else {
        0
    }
}

/// An exponent, `e` or `E`, an optional sign and one or more digits; or nothing.
pub open spec fn exponent_text(s: Seq<char>) -> bool {
    s.len() == 0 || ((s[0] == 'e' || s[0] == 'E') && unsigned_part(s.skip(1)).len() > 0
        && all_digits(unsigned_part(s.skip(1))))
}

/// Digits with at most one `.` among or around them, at least one digit in
/// all, then an optional exponent.
pub open spec fn decimal_text(s: Seq<char>) -> bool {
    let a = leading_digits(s);
    let r = s.skip(a as int);
    if r.len() > 0 && r[0] == '.' {
        let b = leading_digits(r.skip(1));
        a + b > 0 && exponent_text(r.skip(1 + b as int))
    } else {
        a > 0 && exponent_text(r)
    }
}

/// `s` spells the word whose lower-case letters are `lower` and upper-case
/// letters are `upper`, each letter in either case.
pub open spec fn word_in_any_case(s: Seq<char>, lower: Seq<char>, upper: Seq<char>) -> bool {
    s.len() == lower.len() && forall|i: int|
        0 <= i < s.len() ==> #[trigger] s[i] == lower[i] || s[i] == upper[i]
}

/// The strings that `<f64 as FromStr>::from_str` accepts: an optional sign,
/// then `inf`, `infinity` or `nan` in any case, or a decimal number.
pub open spec fn float_text(s: Seq<char>) -> bool {
    let body = unsigned_part(s);
    word_in_any_case(body, seq!['i', 'n', 'f'], seq!['I', 'N', 'F'])
        || word_in_any_case(
        body,
        seq!['i', 'n', 'f', 'i', 'n', 'i', 't', 'y'],
        seq!['I', 'N', 'F', 'I', 'N', 'I', 'T', 'Y'],
    ) || word_in_any_case(body, seq!['n', 'a', 'n'], seq!['N', 'A', 'N']) || decimal_text(body)
}

proof fn lemma_leading_digits(s: Seq<char>)
    ensures
        leading_digits(s) <= s.len(),
        all_digits(s) <==> leading_digits(s) == s.len(),
    decreases s.len(),
{
    if s.len() > 0 {
        lemma_leading_digits(s.skip(1));
        if is_digit(s[0]) {
            if all_digits(s.skip(1)) {
                assert forall|i: int| 0 <= i < s.len() implies is_digit(#[trigger] s[i]) by {
                    if i > 0 {
                        assert(s[i] == s.skip(1)[i - 1]);
                    }
                }
            } else {
                let j = choose|j: int| 0 <= j < s.len() - 1 && !is_digit(#[trigger] s.skip(1)[j]);
                assert(!is_digit(s[j + 1]));
            }
        } else {
            assert(!is_digit(s[0]));
        }
    }
}

fn is_digit_char(c: char) -> (r: bool)
    ensures
        r == is_digit(c),
{
    '0' <= c && c <= '9'
}

/// The number of digits in `s` from character `from` on, up to the first
/// character that is not one.
fn count_digits(s: &str, len: usize, from: usize) -> (k: usize)
    requires
        len == s@.len(),
        from <= len,
    ensures
        from + k <= len,
        k == leading_digits(s@.skip(from as int)),
{
    let mut i: usize = from;
    while i < len && is_digit_char(s.get_char(i))
        invariant
            from <= i <= len,
            len == s@.len(),
            leading_digits(s@.skip(from as int)) == (i - from) + leading_digits(s@.skip(i as int)),
        decreases len - i,
    {
        assert(s@.skip(i as int).skip(1) =~= s@.skip(i + 1));
        i = i + 1;
    }
    i - from
}

/// Whether the characters of `s` from `from` on spell `word` in any case;
/// `word` is written in lower case.
fn word_at(s: &str, len: usize, from: usize, word: &str, upper: &str) -> (r: bool)
    requires
        len == s@.len(),
        from <= len,
        word@.len() == upper@.len(),
    ensures
        r == word_in_any_case(s@.skip(from as int), word@, upper@),
{
    let n = word.unicode_len();
    if len - from != n {
        return false;
    }
    let mut i: usize = 0;
    while i < n
        invariant
            i <= n,
            n == word@.len(),
            n == upper@.len(),
            from + n == len,
            len == s@.len(),
            forall|j: int|
                0 <= j < i ==> #[trigger] s@.skip(from as int)[j] == word@[j] || s@.skip(
                    from as int,
                )[j] == upper@[j],
        decreases n - i,
    {
        let c = s.get_char(from + i);
        if c != word.get_char(i) && c != upper.get_char(i) {
            assert(s@.skip(from as int)[i as int] == c);
            return false;
        }
        i = i + 1;
    }
    true
}

/// Whether the characters of `s` from `from` on form an exponent, or none.
fn exponent_at(s: &str, len: usize, from: usize) -> (r: bool)
    requires
        len == s@.len(),
        from <= len,
    ensures
        r == exponent_text(s@.skip(from as int)),
{
    if from == len {
        return true;
    }
    let c = s.get_char(from);
    if c != 'e' && c != 'E' {
        return false;
    }
    let mut k: usize = from + 1;
    proof {
        assert(s@.skip(from as int).skip(1) =~= s@.skip(k as int));
    }
    if k < len {
        let d = s.get_char(k);
        if d == '+' || d == '-' {
            k = k + 1;
        }
    }
    assert(unsigned_part(s@.skip(from as int).skip(1)) =~= s@.skip(k as int));
    let digits = count_digits(s, len, k);
    proof {
        lemma_leading_digits(s@.skip(k as int));
    }
    digits > 0 && k + digits == len
}

/// Whether the characters of `s` from `from` on form a decimal number.
fn decimal_at(s: &str, len: usize, from: usize) -> (r: bool)
    requires
        len == s@.len(),
        from <= len,
    ensures
        r == decimal_text(s@.skip(from as int)),
{
    let ghost body = s@.skip(from as int);
    let a = count_digits(s, len, from);
    let mut j: usize = from + a;
    assert(body.skip(a as int) =~= s@.skip(j as int));
    if j < len && s.get_char(j) == '.' {
        assert(body.skip(a as int).skip(1) =~= s@.skip(j + 1));
        let b = count_digits(s, len, j + 1);
        assert(body.skip(a as int).skip(1 + b as int) =~= s@.skip(j + 1 + b));
        if a + b == 0 {
            return false;
        }
        j = j + 1 + b;
    } else if a == 0 {
        return false;
    }
    exponent_at(s, len, j)
}

/// Whether `s` is a number in the syntax that `<f64 as FromStr>::from_str`
/// accepts; its grammar is part of that function's documentation.
pub fn float_syntax(s: &str) -> (r: bool)
    ensures
        r == float_text(s@),
{
    let len = s.unicode_len();
    let mut start: usize = 0;
    if len > 0 {
        let c = s.get_char(0);
        if c == '+' || c == '-' {
            start = 1;
        }
    }
    assert(unsigned_part(s@) =~= s@.skip(start as int));
    proof {
        reveal_strlit("inf");
        reveal_strlit("INF");
        reveal_strlit("infinity");
        reveal_strlit("INFINITY");
        reveal_strlit("nan");
        reveal_strlit("NAN");
    }
    let word = word_at(s, len, start, "inf", "INF") || word_at(s, len, start, "infinity", "INFINITY")
        || word_at(s, len, start, "nan", "NAN");
    word || decimal_at(s, len, start)
}

} // verus!
