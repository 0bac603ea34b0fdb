//! Small string utilities: the std calls that build strings, and verified
//! searches over the characters of a string.
use vstd::prelude::*;

verus! {

/// The decimal representation of a natural number, most significant digit first,
/// without leading zeros (zero is written `"0"`).
pub open spec fn decimal(n: nat) -> Seq<char>
    decreases n,
{
    if n < 10 {
        seq![digit_char(n)]
    } else {
        decimal(n / 10).push(digit_char(n % 10))
    }
}

/// The ASCII digit for a value below ten.
pub open spec fn digit_char(d: nat) -> char {
    ((d + 48) as u32) as char
}

/// Calls `String::push`, which appends the character to the end of the string.
#[verifier::external_body]
pub(crate) fn push_char(s: &mut String, c: char)
    ensures
        final(s)@ == old(s)@.push(c),
{
    s.push(c);
}

/// The decimal text of a number is a non-empty string of ASCII digits, without
/// a leading zero unless it is `0`, and it reads back as the number.
pub proof fn lemma_decimal_reads_back(n: nat)
    ensures
        decimal(n).len() >= 1,
        forall|i: int| 0 <= i < decimal(n).len() ==> 48 <= (#[trigger] decimal(n)[i] as u32) <= 57,
        digits_value(decimal(n)) == n,
        n > 0 ==> decimal(n)[0] != '0',
    decreases n,
{
    let d = n % 10;
    assert((digit_char(d) as u32) == d + 48);
    if n < 10 {
        assert(decimal(n).drop_last() =~= Seq::<char>::empty());
        assert(digits_value(Seq::<char>::empty()) == 0);
    } else {
        lemma_decimal_reads_back(n / 10);
        let s = decimal(n);
        let p = decimal(n / 10);
        assert(s.drop_last() == p);
        assert forall|i: int| 0 <= i < s.len() implies 48 <= (#[trigger] s[i] as u32) <= 57 by {
            if i < p.len() {
                assert(s[i] == p[i]);
            }
        }
        assert(s[0] == p[0]);
        assert(s.last() == digit_char(d));
        assert(digits_value(s) == digits_value(p) * 10 + d);
        assert((n / 10) * 10 + d == n);
    }
}

/// Calls `u16::to_string`: std formats an integer in decimal, without sign or
/// leading zeros.
#[verifier::external_body]
pub(crate) fn u16_to_string(n: u16) -> (r: String)
    ensures
        r@ == decimal(n as nat),
{
    n.to_string()
}

/// The index of the first occurrence of `c` in `s`, if any.
pub open spec fn first_index_of(s: Seq<char>, c: char) -> Option<int>
    decreases s.len(),
{
    if s.len() == 0 {
        None
    } else if s[0] == c {
        Some(0)
    } else {
        match first_index_of(s.drop_first(), c) {
            Some(i) => Some(i + 1),
            None => None,
        }
    }
}

/// What `first_index_of` returns: the index of a `c` with none before it, or
/// `None` when `c` does not occur.
pub proof fn lemma_first_index_of(s: Seq<char>, c: char)
    ensures
        match first_index_of(s, c) {
            Some(i) => 0 <= i < s.len() && s[i] == c && forall|j: int| 0 <= j < i ==> s[j] != c,
            None => forall|j: int| 0 <= j < s.len() ==> s[j] != c,
        },
    decreases s.len(),
{
    if s.len() > 0 {
        lemma_first_index_of(s.drop_first(), c);
        if s[0] != c {
            match first_index_of(s.drop_first(), c) {
                Some(i) => {
                    assert forall|j: int| 0 <= j < i + 1 implies s[j] != c by {
                        if j > 0 {
                            assert(s[j] == s.drop_first()[j - 1]);
                        }
                    }
                },
                None => {
                    assert forall|j: int| 0 <= j < s.len() implies s[j] != c by {
                        if j > 0 {
                            assert(s[j] == s.drop_first()[j - 1]);
                        }
                    }
                },
            }
        }
    }
}

/// Characterises `first_index_of` by its result: the first index holding `c`.
pub proof fn lemma_first_index_of_is(s: Seq<char>, c: char, i: int)
    requires
        0 <= i < s.len(),
        s[i] == c,
        forall|j: int| 0 <= j < i ==> s[j] != c,
    ensures
        first_index_of(s, c) == Some(i),
{
    lemma_first_index_of(s, c);
    match first_index_of(s, c) {
        Some(k) => {
            if k < i {
                assert(s[k] != c);
            } else if k > i {
            }
        },
        None => {
            assert(s[i] != c);
        },
    }
}

/// Finds the first `c` in `s`, counting in characters.
pub fn find_char(s: &str, c: char) -> (r: Option<usize>)
    ensures
        match r {
            Some(i) => first_index_of(s@, c) == Some(i as int),
            None => first_index_of(s@, c) is None,
        },
{
    let n = s.unicode_len();
    let mut i: usize = 0;
    while i < n
        invariant
            n == s@.len(),
            0 <= i <= n,
            forall|j: int| 0 <= j < i ==> s@[j] != c,
        decreases n - i,
    {
        if s.get_char(i) == c {
            proof {
                lemma_first_index_of_is(s@, c, i as int);
            }
            return Some(i);
        }
        i = i + 1;
    }
    proof {
        lemma_first_index_of(s@, c);
        match first_index_of(s@, c) {
            Some(k) => {
                assert(s@[k] != c);
            },
            None => {},
        }
    }
    None
}

/// Copies a `&str` into a new `String`.
pub fn to_owned_string(s: &str) -> (r: String)
    ensures
        r@ == s@,
{
    s.to_owned()
}


/// The index of the first character of `s` that is `a` or `b`, if any.
pub open spec fn first_index_of_either(s: Seq<char>, a: char, b: char) -> Option<int>
    decreases s.len(),
{
    if s.len() == 0 {
        None
    } else if s[0] == a || s[0] == b {
        Some(0)
    } else {
        match first_index_of_either(s.drop_first(), a, b) {
            Some(i) => Some(i + 1),
            None => None,
        }
    }
}

/// What `first_index_of_either` returns: the first index holding `a` or `b`.
pub proof fn lemma_first_index_of_either(s: Seq<char>, a: char, b: char)
    ensures
        match first_index_of_either(s, a, b) {
            Some(i) => 0 <= i < s.len() && (s[i] == a || s[i] == b) && forall|j: int|
                0 <= j < i ==> s[j] != a && s[j] != b,
            None => forall|j: int| 0 <= j < s.len() ==> s[j] != a && s[j] != b,
        },
    decreases s.len(),
{
    if s.len() > 0 {
        lemma_first_index_of_either(s.drop_first(), a, b);
        if s[0] != a && s[0] != b {
            assert forall|j: int| 0 < j < s.len() implies s[j] == s.drop_first()[j - 1] by {}
        }
    }
}

/// Finds the first character of `s`, counted in characters, that is `a` or `b`.
pub fn find_either_char(s: &str, a: char, b: char) -> (r: Option<usize>)
    ensures
        match r {
            Some(i) => first_index_of_either(s@, a, b) == Some(i as int),
            None => first_index_of_either(s@, a, b) is None,
        },
{
    let n = s.unicode_len();
    let mut i: usize = 0;
    while i < n
        invariant
            n == s@.len(),
            0 <= i <= n,
            forall|j: int| 0 <= j < i ==> s@[j] != a && s@[j] != b,
        decreases n - i,
    {
        let c = s.get_char(i);
        if c == a || c == b {
            proof {
                lemma_first_index_of_either(s@, a, b);
                match first_index_of_either(s@, a, b) {
                    Some(k) => {
                        if k < i {
                            assert(s@[k] != a && s@[k] != b);
                        } else if k > i {
                            assert(s@[i as int] != a && s@[i as int] != b);
                        }
                    },
                    None => {
                        assert(s@[i as int] != a && s@[i as int] != b);
                    },
                }
            }
            return Some(i);
        }
        i = i + 1;
    }
    proof {
        lemma_first_index_of_either(s@, a, b);
        match first_index_of_either(s@, a, b) {
            Some(k) => {
                assert(s@[k] != a && s@[k] != b);
            },
            None => {},
        }
    }
    None
}

/// The index of the first occurrence of `pat` in `s`, if any.
pub open spec fn first_occurrence(s: Seq<char>, pat: Seq<char>) -> Option<int>
    decreases s.len(),
{
    if s.len() < pat.len() {
        None
    } else if s.take(pat.len() as int) == pat {
        Some(0)
    } else if s.len() == 0 {
        None
    } else {
        match first_occurrence(s.drop_first(), pat) {
            Some(i) => Some(i + 1),
            None => None,
        }
    }
}

/// Whether `pat` occurs in `s` at index `i`.
pub open spec fn occurs_at(s: Seq<char>, pat: Seq<char>, i: int) -> bool {
    0 <= i && i + pat.len() <= s.len() && s.subrange(i, i + pat.len()) == pat
}

/// What `first_occurrence` returns: the first index where `pat` occurs.
pub proof fn lemma_first_occurrence(s: Seq<char>, pat: Seq<char>)
    ensures
        match first_occurrence(s, pat) {
            Some(i) => occurs_at(s, pat, i) && forall|j: int| 0 <= j < i ==> !occurs_at(s, pat, j),
            None => forall|j: int| 0 <= j ==> !occurs_at(s, pat, j),
        },
    decreases s.len(),
{
    if s.len() < pat.len() {
    } else if s.take(pat.len() as int) == pat {
        assert(s.subrange(0, pat.len() as int) == s.take(pat.len() as int));
    } else if s.len() == 0 {
    } else {
        let t = s.drop_first();
        lemma_first_occurrence(t, pat);
        assert(!occurs_at(s, pat, 0)) by {
            assert(s.subrange(0, pat.len() as int) == s.take(pat.len() as int));
        }
        assert forall|j: int| 1 <= j implies occurs_at(s, pat, j) == occurs_at(t, pat, j - 1) by {
            if j + pat.len() <= s.len() {
                assert(s.subrange(j, j + pat.len()) == t.subrange(j - 1, j - 1 + pat.len()));
            }
        }
    }
}

/// Characterises `first_occurrence` by its result.
pub proof fn lemma_first_occurrence_is(s: Seq<char>, pat: Seq<char>, i: int)
    requires
        occurs_at(s, pat, i),
        forall|j: int| 0 <= j < i ==> !occurs_at(s, pat, j),
    ensures
        first_occurrence(s, pat) == Some(i),
{
    lemma_first_occurrence(s, pat);
    match first_occurrence(s, pat) {
        Some(k) => {
            if k < i {
                assert(!occurs_at(s, pat, k));
            } else if k > i {
            }
        },
        None => {
            assert(!occurs_at(s, pat, i));
        },
    }
}

/// Whether `pat` occurs in `s` at character index `i`.
fn matches_at(s: &str, n: usize, pat: &str, m: usize, i: usize) -> (r: bool)
    requires
        n == s@.len(),
        m == pat@.len(),
        i + m <= n,
    ensures
        r == occurs_at(s@, pat@, i as int),
{
    let mut k: usize = 0;
    while k < m
        invariant
            n == s@.len(),
            m == pat@.len(),
            i + m <= n,
            0 <= k <= m,
            forall|j: int| 0 <= j < k ==> s@[i + j] == pat@[j],
        decreases m - k,
    {
        if s.get_char(i + k) != pat.get_char(k) {
            assert(s@.subrange(i as int, i + m)[k as int] != pat@[k as int]);
            return false;
        }
        k = k + 1;
    }
    assert(s@.subrange(i as int, i + m) =~= pat@);
    true
}

/// Finds the first occurrence of `pat` in `s`, as a character index.
pub fn find_str(s: &str, pat: &str) -> (r: Option<usize>)
    ensures
        match r {
            Some(i) => first_occurrence(s@, pat@) == Some(i as int),
            None => first_occurrence(s@, pat@) is None,
        },
{
    let n = s.unicode_len();
    let m = pat.unicode_len();
    if m > n {
        proof {
            lemma_first_occurrence(s@, pat@);
            match first_occurrence(s@, pat@) {
                Some(k) => {},
                None => {},
            }
        }
        return None;
    }
    if m == 0 {
        proof {
            assert(s@.subrange(0, 0) =~= pat@);
            lemma_first_occurrence_is(s@, pat@, 0);
        }
        return Some(0);
    }
    let mut i: usize = 0;
    while i <= n - m
        invariant
            n == s@.len(),
            m == pat@.len(),
            1 <= m <= n,
            0 <= i <= n - m + 1,
            forall|j: int| 0 <= j < i ==> !occurs_at(s@, pat@, j),
        decreases n - m + 1 - i,
    {
        if matches_at(s, n, pat, m, i) {
            proof {
                lemma_first_occurrence_is(s@, pat@, i as int);
            }
            return Some(i);
        }
        i = i + 1;
    }
    proof {
        lemma_first_occurrence(s@, pat@);
        match first_occurrence(s@, pat@) {
            Some(k) => {
                if k < i {
                    assert(!occurs_at(s@, pat@, k));
                }
            },
            None => {},
        }
    }
    None
}

/// The White_Space property of the Unicode Character Database.
pub open spec fn is_unicode_white_space(c: char) -> bool {
    let n = c as u32;
    ||| 9 <= n <= 13
    ||| n == 32 || n == 0x85 || n == 0xA0 || n == 0x1680
    ||| 0x2000 <= n <= 0x200A
    ||| n == 0x2028 || n == 0x2029 || n == 0x202F || n == 0x205F || n == 0x3000
}

/// Calls `char::is_whitespace`, which std documents as the White_Space property
/// of the Unicode Character Database.
#[verifier::external_body]
pub(crate) fn is_whitespace(c: char) -> (r: bool)
    ensures
        r == is_unicode_white_space(c),
{
    c.is_whitespace()
}

/// The number of white-space characters at the start of `s`.
pub open spec fn leading_white(s: Seq<char>) -> nat
    decreases s.len(),
{
    if s.len() > 0 && is_unicode_white_space(s[0]) {
        1 + leading_white(s.drop_first())
    } else {
        0
    }
}

/// The number of white-space characters at the end of `s`.
pub open spec fn trailing_white(s: Seq<char>) -> nat
    decreases s.len(),
{
    if s.len() > 0 && is_unicode_white_space(s.last()) {
        1 + trailing_white(s.drop_last())
    } else {
        0
    }
}

/// `str::trim`: `s` without its leading and trailing white space.
pub open spec fn trim(s: Seq<char>) -> Seq<char> {
    let t = s.skip(leading_white(s) as int);
    t.take(t.len() - trailing_white(t))
}

pub proof fn lemma_leading_white(s: Seq<char>, k: int)
    requires
        0 <= k <= s.len(),
        forall|j: int| 0 <= j < k ==> is_unicode_white_space(#[trigger] s[j]),
        k == s.len() || !is_unicode_white_space(s[k]),
    ensures
        leading_white(s) == k,
    decreases k,
{
    if k > 0 {
        assert forall|j: int| 0 <= j < k - 1 implies is_unicode_white_space(#[trigger] s.drop_first()[j]) by {
            assert(s.drop_first()[j] == s[j + 1]);
        }
        if k < s.len() {
            assert(s.drop_first()[k - 1] == s[k]);
        }
        lemma_leading_white(s.drop_first(), k - 1);
    }
}

proof fn lemma_trailing_white(s: Seq<char>, k: int)
    requires
        0 <= k <= s.len(),
        forall|j: int| s.len() - k <= j < s.len() ==> is_unicode_white_space(#[trigger] s[j]),
        k == s.len() || !is_unicode_white_space(s[s.len() - k - 1]),
    ensures
        trailing_white(s) == k,
    decreases k,
{
    if k > 0 {
        assert forall|j: int| s.drop_last().len() - (k - 1) <= j < s.drop_last().len() implies is_unicode_white_space(
            #[trigger] s.drop_last()[j],
        ) by {
            assert(s.drop_last()[j] == s[j]);
        }
        if k < s.len() {
            assert(s.drop_last()[s.drop_last().len() - (k - 1) - 1] == s[s.len() - k - 1]);
        }
        lemma_trailing_white(s.drop_last(), k - 1);
    }
}

/// `str::trim`, counted in characters.
pub fn trim_str(s: &str) -> (r: String)
    ensures
        r@ == trim(s@),
{
    let n = s.unicode_len();
    let mut a: usize = 0;
    while a < n && is_whitespace(s.get_char(a))
        invariant
            n == s@.len(),
            0 <= a <= n,
            forall|j: int| 0 <= j < a ==> is_unicode_white_space(#[trigger] s@[j]),
        decreases n - a,
    {
        a = a + 1;
    }
    proof {
        lemma_leading_white(s@, a as int);
    }
    let mut b: usize = n;
    while b > a && is_whitespace(s.get_char(b - 1))
        invariant
            n == s@.len(),
            0 <= a <= b <= n,
            forall|j: int| b <= j < n ==> is_unicode_white_space(#[trigger] s@[j]),
        decreases b,
    {
        b = b - 1;
    }
    let ghost t = s@.skip(a as int);
    proof {
        assert forall|j: int| t.len() - (n - b) <= j < t.len() implies is_unicode_white_space(#[trigger] t[j]) by {
            assert(t[j] == s@[j + a]);
        }
        if b > a {
            assert(t[t.len() - (n - b) - 1] == s@[b - 1]);
        }
        lemma_trailing_white(t, (n - b) as int);
        assert(t.take(t.len() - (n - b)) =~= s@.subrange(a as int, b as int));
    }
    to_owned_string(s.substring_char(a, b))
}

/// The value of a non-empty string of ASCII digits.
pub open spec fn digits_value(s: Seq<char>) -> nat
    decreases s.len(),
{
    if s.len() == 0 {
        0
    } else {
        digits_value(s.drop_last()) * 10 + ((s.last() as u32) - 48) as nat
    }
}

/// Whether every character of `s` is an ASCII digit.
pub open spec fn all_digits(s: Seq<char>) -> bool {
    forall|i: int| 0 <= i < s.len() ==> 48 <= (#[trigger] s[i] as u32) <= 57
}

/// std's parse of an unsigned integer: an optional `+`, then one or more ASCII
/// digits, whose value must not exceed `max`.
pub open spec fn parse_unsigned(s: Seq<char>, max: nat) -> Option<nat> {
    let d = if s.len() > 0 && s[0] == '+' {
        s.drop_first()
    } else {
        s
    };
    if d.len() > 0 && all_digits(d) && digits_value(d) <= max {
        Some(digits_value(d))
    } else {
        None
    }
}

/// Calls `str::parse::<u16>`.
#[verifier::external_body]
pub(crate) fn parse_u16(s: &str) -> (r: Option<u16>)
    ensures
        match r {
            Some(v) => parse_unsigned(s@, u16::MAX as nat) == Some(v as nat),
            None => parse_unsigned(s@, u16::MAX as nat) is None,
        },
{
    s.parse::<u16>().ok()
}

/// Calls `str::parse::<usize>`.
#[verifier::external_body]
pub(crate) fn parse_usize(s: &str) -> (r: Option<usize>)
    ensures
        match r {
            Some(v) => parse_unsigned(s@, usize::MAX as nat) == Some(v as nat),
            None => parse_unsigned(s@, usize::MAX as nat) is None,
        },
{
    s.parse::<usize>().ok()
}


/// Whether two strings hold the same characters.
pub fn str_equal(a: &str, b: &str) -> (r: bool)
    ensures
        r == (a@ == b@),
{
    let n = a.unicode_len();
    if n != b.unicode_len() {
        return false;
    }
    let mut i: usize = 0;
    while i < n
        invariant
            n == a@.len(),
            n == b@.len(),
            0 <= i <= n,
            forall|j: int| 0 <= j < i ==> a@[j] == b@[j],
        decreases n - i,
    {
        if a.get_char(i) != b.get_char(i) {
            return false;
        }
        i = i + 1;
    }
    assert(a@ =~= b@);
    true
}

} // verus!
