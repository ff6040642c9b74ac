//! Character-level text helpers shared by the control runtime and the
//! object-text resolver: whitespace trimming and splitting, prefix tests,
//! ASCII case folding and decimal rendering of integers.
use vstd::prelude::*;

verus! {

/// The Unicode `White_Space` property, the set that `char::is_whitespace`,
/// `str::trim` and `str::split_whitespace` use.
pub open spec fn is_white_space(c: char) -> bool {
    let v = c as u32;
    ||| 0x9 <= v <= 0xd
    ||| v == 0x20
    ||| v == 0x85
    ||| v == 0xa0
    ||| v == 0x1680
    ||| 0x2000 <= v <= 0x200a
    ||| v == 0x2028
    ||| v == 0x2029
    ||| v == 0x202f
    ||| v == 0x205f
    ||| v == 0x3000
}

/// First index at or after `from` that does not hold white space.
pub open spec fn skip_white_space(s: Seq<char>, from: int) -> int
    decreases s.len() - from,
{
    if 0 <= from < s.len() && is_white_space(s[from]) {
        skip_white_space(s, from + 1)
    } else {
        from
    }
}

/// End of the white-space suffix of `s[lo..to]`: the greatest `e <= to`
/// such that `s[lo..e]` ends in a non-white-space character (or `e == lo`).
pub open spec fn trim_end_index(s: Seq<char>, lo: int, to: int) -> int
    decreases to - lo,
{
    if lo < to && is_white_space(s[to - 1]) {
        trim_end_index(s, lo, to - 1)
    } else {
        to
    }
}

/// First index at or after `from` that holds white space (or the end).
pub open spec fn word_end(s: Seq<char>, from: int) -> int
    decreases s.len() - from,
{
    if 0 <= from < s.len() && !is_white_space(s[from]) {
        word_end(s, from + 1)
    } else {
        from
    }
}

/// `str::trim`: `s` without leading and trailing white space.
pub open spec fn trim(s: Seq<char>) -> Seq<char> {
    let a = skip_white_space(s, 0);
    s.subrange(a, trim_end_index(s, a, s.len() as int))
}

pub proof fn lemma_skip_white_space_bounds(s: Seq<char>, from: int)
    requires
        0 <= from <= s.len(),
    ensures
        from <= skip_white_space(s, from) <= s.len(),
        skip_white_space(s, from) < s.len() ==> !is_white_space(s[skip_white_space(s, from)]),
        forall|k: int| from <= k < skip_white_space(s, from) ==> is_white_space(s[k]),
    decreases s.len() - from,
{
    if from < s.len() && is_white_space(s[from]) {
        lemma_skip_white_space_bounds(s, from + 1);
    }
}

pub proof fn lemma_word_end_bounds(s: Seq<char>, from: int)
    requires
        0 <= from <= s.len(),
    ensures
        from <= word_end(s, from) <= s.len(),
        from < s.len() && !is_white_space(s[from]) ==> from < word_end(s, from),
        forall|k: int| from <= k < word_end(s, from) ==> !is_white_space(s[k]),
    decreases s.len() - from,
{
    if from < s.len() && !is_white_space(s[from]) {
        lemma_word_end_bounds(s, from + 1);
    }
}

pub proof fn lemma_trim_end_bounds(s: Seq<char>, lo: int, to: int)
    requires
        0 <= lo <= to <= s.len(),
    ensures
        lo <= trim_end_index(s, lo, to) <= to,
    decreases to - lo,
{
    if lo < to && is_white_space(s[to - 1]) {
        lemma_trim_end_bounds(s, lo, to - 1);
    }
}

/// `str::split_whitespace`, from position `from` on.
pub open spec fn tokens_from(s: Seq<char>, from: int) -> Seq<Seq<char>>
    decreases s.len() - from,
    when 0 <= from <= s.len()
{
    let a = skip_white_space(s, from);
    proof {
        lemma_skip_white_space_bounds(s, from);
    }
    if a >= s.len() {
        seq![]
    } else {
        let b = word_end(s, a);
        proof {
            lemma_word_end_bounds(s, a);
        }
        seq![s.subrange(a, b)] + tokens_from(s, b)
    }
}

/// `str::split_whitespace`: the maximal runs of non-white-space characters.
pub open spec fn tokens(s: Seq<char>) -> Seq<Seq<char>> {
    tokens_from(s, 0)
}

/// The views of a sequence of strings.
pub open spec fn string_views(v: Seq<String>) -> Seq<Seq<char>> {
    v.map_values(|t: String| t@)
}

/// `str::strip_prefix`.
pub open spec fn strip_prefix(s: Seq<char>, prefix: Seq<char>) -> Option<Seq<char>> {
    if prefix.len() <= s.len() && s.subrange(0, prefix.len() as int) == prefix {
        Some(s.subrange(prefix.len() as int, s.len() as int))
    } else {
        None
    }
}

/// `char::to_ascii_lowercase`.
pub open spec fn ascii_lower(c: char) -> char {
    if 'A' <= c <= 'Z' {
        ((c as u32) + 32) as char
    } else {
        c
    }
}

/// `str::to_ascii_lowercase`.
pub open spec fn ascii_lowercase(s: Seq<char>) -> Seq<char> {
    s.map_values(|c: char| ascii_lower(c))
}

/// The decimal digit character for `d < 10`.
pub open spec fn digit_char(d: nat) -> char {
    ((48 + d) as u32) as char
}

/// The decimal rendering of a natural number (no sign, no leading zeros).
pub open spec fn decimal(n: nat) -> Seq<char>
    decreases n,
{
    if n < 10 {
        seq![digit_char(n)]
    } else {
        decimal(n / 10) + seq![digit_char(n % 10)]
    }
}

/// The decimal rendering of an integer, as `Display` writes it.
pub open spec fn signed_decimal(n: int) -> Seq<char> {
    if n < 0 {
        seq!['-'] + decimal((-n) as nat)
    } else {
        decimal(n as nat)
    }
}

pub fn is_white_space_char(c: char) -> (r: bool)
    ensures
        r == is_white_space(c),
{
    let v = c as u32;
    (0x9 <= v && v <= 0xd) || v == 0x20 || v == 0x85 || v == 0xa0 || v == 0x1680 || (0x2000 <= v
        && v <= 0x200a) || v == 0x2028 || v == 0x2029 || v == 0x202f || v == 0x205f || v == 0x3000
}

/// The characters of `s`.
pub fn chars_of(s: &str) -> (r: Vec<char>)
    ensures
        r@ == s@,
{
    let n = s.unicode_len();
    let mut r: Vec<char> = Vec::new();
    let mut i: usize = 0;
    while i < n
        invariant
            n == s@.len(),
            i <= n,
            r@ == s@.subrange(0, i as int),
        decreases n - i,
    {
        r.push(s.get_char(i));
        i = i + 1;
    }
    r
}

/// Whether two strings hold the same characters.
pub fn str_eq(a: &str, b: &str) -> (r: bool)
    ensures
        r == (a@ == b@),
{
    a.to_owned() == b.to_owned()
}

/// A fresh `String` with the characters of `s`.
pub fn owned(s: &str) -> (r: String)
    ensures
        r@ == s@,
{
    s.to_owned()
}

/// `a` followed by `b`.
pub fn concat2(a: &str, b: &str) -> (r: String)
    ensures
        r@ == a@ + b@,
{
    let mut r = a.to_owned();
    r.append(b);
    r
}

/// `str::trim`.
pub fn trim_str(s: &str) -> (r: String)
    ensures
        r@ == trim(s@),
{
    let c = chars_of(s);
    let n = c.len();
    let mut a: usize = 0;
    while a < n && is_white_space_char(c[a])
        invariant
            c@ == s@,
            n == c@.len(),
            a <= n,
            skip_white_space(c@, 0) == skip_white_space(c@, a as int),
        decreases n - a,
    {
        a = a + 1;
    }
    let mut b: usize = n;
    while a < b && is_white_space_char(c[b - 1])
        invariant
            c@ == s@,
            n == c@.len(),
            a <= b <= n,
            skip_white_space(c@, 0) == a,
            trim_end_index(c@, a as int, n as int) == trim_end_index(c@, a as int, b as int),
        decreases b - a,
    {
        b = b - 1;
    }
    s.substring_char(a, b).to_owned()
}

/// `str::split_whitespace`, collected.
pub fn split_white_space(s: &str) -> (r: Vec<String>)
    ensures
        string_views(r@) == tokens(s@),
{
    let c = chars_of(s);
    let n = c.len();
    let mut r: Vec<String> = Vec::new();
    let mut i: usize = 0;
    while i < n
        invariant
            c@ == s@,
            n == c@.len(),
            i <= n,
            tokens(s@) == string_views(r@) + tokens_from(s@, i as int),
        decreases n - i,
    {
        let ghost i0 = i as int;
        proof {
            lemma_skip_white_space_bounds(s@, i0);
        }
        let mut a: usize = i;
        while a < n && is_white_space_char(c[a])
            invariant
                c@ == s@,
                n == c@.len(),
                i <= a <= n,
                skip_white_space(s@, i0) == skip_white_space(s@, a as int),
            decreases n - a,
        {
            a = a + 1;
        }
        if a >= n {
            assert(tokens_from(s@, i0) == Seq::<Seq<char>>::empty());
            assert(string_views(r@) + tokens_from(s@, i0) =~= string_views(r@));
            i = n;
            assert(tokens_from(s@, n as int) == Seq::<Seq<char>>::empty());
            assert(string_views(r@) + tokens_from(s@, n as int) =~= string_views(r@));
        } else {
            let mut b: usize = a;
            while b < n && !is_white_space_char(c[b])
                invariant
                    c@ == s@,
                    n == c@.len(),
                    a <= b <= n,
                    word_end(s@, a as int) == word_end(s@, b as int),
                decreases n - b,
            {
                b = b + 1;
            }
            proof {
                lemma_word_end_bounds(s@, a as int);
            }
            let word = s.substring_char(a, b).to_owned();
            let ghost before = r@;
            r.push(word);
            proof {
                assert(string_views(r@) =~= string_views(before) + seq![s@.subrange(
                    a as int,
                    b as int,
                )]);
                assert(tokens_from(s@, i0) == seq![s@.subrange(a as int, b as int)]
                    + tokens_from(s@, b as int));
                assert(string_views(before) + tokens_from(s@, i0) =~= string_views(r@)
                    + tokens_from(s@, b as int));
            }
            i = b;
        }
    }
    r
}

/// `str::strip_prefix` on character sequences held in a `String`.
pub fn strip_prefix_str(s: &str, prefix: &str) -> (r: Option<String>)
    ensures
        r matches Some(t) ==> strip_prefix(s@, prefix@) == Some(t@),
        r is None ==> strip_prefix(s@, prefix@) is None,
{
    let n = s.unicode_len();
    let m = prefix.unicode_len();
    if m > n {
        return None;
    }
    let head = s.substring_char(0, m);
    if str_eq(head, prefix) {
        Some(s.substring_char(m, n).to_owned())
    } else {
        None
    }
}

/// Whether `s` starts with `prefix`.
pub fn starts_with_str(s: &str, prefix: &str) -> (r: bool)
    ensures
        r == (strip_prefix(s@, prefix@) is Some),
{
    strip_prefix_str(s, prefix).is_some()
}

/// Whether `s`, lowered to ASCII lowercase, equals `lit`.
pub fn ascii_lower_eq(s: &Vec<char>, lit: &str) -> (r: bool)
    ensures
        r == (ascii_lowercase(s@) == lit@),
{
    let l = chars_of(lit);
    if s.len() != l.len() {
        proof {
            assert(ascii_lowercase(s@).len() == s@.len());
        }
        return false;
    }
    let mut i: usize = 0;
    while i < s.len()
        invariant
            l@ == lit@,
            s@.len() == l@.len(),
            i <= s@.len(),
            forall|k: int| 0 <= k < i ==> ascii_lower(s@[k]) == l@[k],
        decreases s.len() - i,
    {
        let c = s[i];
        let lower = if 'A' <= c && c <= 'Z' {
            ((c as u32) + 32) as u8 as char
        } else {
            c
        };
        if lower != l[i] {
            proof {
                assert(ascii_lowercase(s@)[i as int] != lit@[i as int]);
            }
            return false;
        }
        i = i + 1;
    }
    proof {
        assert(ascii_lowercase(s@) =~= lit@);
    }
    true
}

/// The one-character string for a decimal digit.
fn digit_str(d: u64) -> (r: &'static str)
    requires
        d < 10,
    ensures
        r@ == seq![digit_char(d as nat)],
{
    proof {
        reveal_strlit("0");
        reveal_strlit("1");
        reveal_strlit("2");
        reveal_strlit("3");
        reveal_strlit("4");
        reveal_strlit("5");
        reveal_strlit("6");
        reveal_strlit("7");
        reveal_strlit("8");
        reveal_strlit("9");
    }
    if d == 0 {
        "0"
    } else if d == 1 {
        "1"
    } else if d == 2 {
        "2"
    } else if d == 3 {
        "3"
    } else if d == 4 {
        "4"
    } else if d == 5 {
        "5"
    } else if d == 6 {
        "6"
    } else if d == 7 {
        "7"
    } else if d == 8 {
        "8"
    } else {
        "9"
    }
}

/// The decimal rendering of `n`, as `u64::to_string` gives it.
pub fn decimal_string(n: u64) -> (r: String)
    ensures
        r@ == decimal(n as nat),
    decreases n,
{
    if n < 10 {
        owned(digit_str(n))
    } else {
        let mut r = decimal_string(n / 10);
        r.append(digit_str(n % 10));
        r
    }
}

/// The decimal rendering of `n`, as `i64::to_string` gives it.
pub fn signed_decimal_string(n: i64) -> (r: String)
    ensures
        r@ == signed_decimal(n as int),
{
    if n < 0 {
        let magnitude: u64 = ((-(n + 1)) as u64) + 1;
        let digits = decimal_string(magnitude);
        let mut r = owned("-");
        proof {
            reveal_strlit("-");
        }
        r.append(digits.as_str());
        r
    } else {
        decimal_string(n as u64)
    }
}

} // verus!
