//! Character-level text helpers shared by the rest of the crate:
//! conversion between `str` and character vectors, lexicographic comparison,
//! whitespace trimming and decimal parsing of unsigned integers.

use vstd::prelude::*;

verus! {

/// Three-way result of comparing two texts.
#[derive(Clone, Copy, Debug, PartialEq, Eq)]
pub enum TextOrder {
    Less,
    Equal,
    Greater,
}

/// Strict lexicographic order on character sequences, by Unicode code point.
/// (For UTF-8 encoded text this is the same order as comparing the bytes.)
pub open spec fn text_lt(a: Seq<char>, b: Seq<char>) -> bool
    decreases a.len(),
{
    if a.len() == 0 {
        b.len() > 0
    } else if b.len() == 0 {
        false
    } else if a[0] != b[0] {
        a[0] < b[0]
    } else {
        text_lt(a.drop_first(), b.drop_first())
    }
}

/// The three-way comparison that `text_lt` induces.
pub open spec fn text_order(a: Seq<char>, b: Seq<char>) -> TextOrder {
    if a == b {
        TextOrder::Equal
    } else if text_lt(a, b) {
        TextOrder::Less
    } else {
        TextOrder::Greater
    }
}

/// `text_lt` is irreflexive.
pub proof fn lemma_text_lt_irreflexive(a: Seq<char>)
    ensures
        !text_lt(a, a),
    decreases a.len(),
{
    if a.len() > 0 {
        lemma_text_lt_irreflexive(a.drop_first());
    }
}

/// Any two distinct texts are ordered one way or the other, and never both ways.
pub proof fn lemma_text_lt_trichotomy(a: Seq<char>, b: Seq<char>)
    ensures
        a != b ==> (text_lt(a, b) || text_lt(b, a)),
        !(text_lt(a, b) && text_lt(b, a)),
        a == b ==> !text_lt(a, b),
    decreases a.len(),
{
    if a == b {
        lemma_text_lt_irreflexive(a);
    } else if a.len() == 0 || b.len() == 0 {
        if a.len() == 0 && b.len() == 0 {
            assert(a =~= b);
        }
    } else if a[0] != b[0] {
    } else {
        lemma_text_lt_trichotomy(a.drop_first(), b.drop_first());
        if a.drop_first() == b.drop_first() {
            assert forall|i: int| 0 <= i < a.len() implies a[i] == b[i] by {
                if i > 0 {
                    assert(a[i] == a.drop_first()[i - 1]);
                    assert(b[i] == b.drop_first()[i - 1]);
                }
            }
            assert(a =~= b);
        }
    }
}

/// `text_lt` is transitive.
pub proof fn lemma_text_lt_transitive(a: Seq<char>, b: Seq<char>, c: Seq<char>)
    requires
        text_lt(a, b),
        text_lt(b, c),
    ensures
        text_lt(a, c),
    decreases a.len(),
{
    if a.len() == 0 {
    } else if a[0] != b[0] || b[0] != c[0] {
        assert(c.len() > 0);
    } else {
        lemma_text_lt_transitive(a.drop_first(), b.drop_first(), c.drop_first());
    }
}

/// The characters of `s`, in order.
pub fn chars_of(s: &str) -> (v: Vec<char>)
    ensures
        v@ == s@,
{
    let mut v: Vec<char> = Vec::new();
    for c in it: s.chars()
        invariant
            it.seq() == s@,
            v@ == it.seq().take(it.index() as int),
    {
        v.push(c);
    }
    v
}

/// Appends one character to a `String` (calls `String::push`).
/// Trusted: `String::push` appends the character at the end of the string.
#[verifier::external_body]
pub(crate) fn push_char(s: &mut String, c: char)
    ensures
        final(s)@ == old(s)@.push(c),
{
    s.push(c)
}

/// A new `String` holding the characters of `v`.
pub fn string_from_chars(v: &[char]) -> (s: String)
    ensures
        s@ == v@,
{
    let mut s = String::new();
    let n = v.len();
    for i in 0..n
        invariant
            n == v@.len(),
            s@ == v@.take(i as int),
    {
        push_char(&mut s, v[i]);
        assert(v@.take(i + 1) == v@.take(i as int).push(v@[i as int]));
    }
    assert(v@.take(n as int) == v@);
    s
}

/// A new `String` holding the characters of `v` from position `start` up to (not including) `end`.
pub fn string_from_range(v: &[char], start: usize, end: usize) -> (s: String)
    requires
        start <= end <= v@.len(),
    ensures
        s@ == v@.subrange(start as int, end as int),
{
    let mut s = String::new();
    let mut i = start;
    while i < end
        invariant
            start <= i <= end <= v@.len(),
            s@ == v@.subrange(start as int, i as int),
        decreases end - i,
    {
        push_char(&mut s, v[i]);
        assert(v@.subrange(start as int, i + 1) == v@.subrange(start as int, i as int).push(v@[i as int]));
        i = i + 1;
    }
    s
}

/// The concatenation of two texts, as a new `String`.
pub fn concat_str(a: &str, b: &str) -> (s: String)
    ensures
        s@ == a@ + b@,
{
    let mut s = String::from_str(a);
    s.append(b);
    s
}

/// Compares two texts lexicographically by code point.
pub fn compare_text(a: &str, b: &str) -> (r: TextOrder)
    ensures
        r == text_order(a@, b@),
{
    let x = chars_of(a);
    let y = chars_of(b);
    let mut i: usize = 0;
    proof {
        lemma_text_lt_trichotomy(a@, b@);
        assert(x@.skip(0) =~= x@);
        assert(y@.skip(0) =~= y@);
    }
    while i < x.len() && i < y.len()
        invariant
            x@ == a@,
            y@ == b@,
            i <= x@.len(),
            i <= y@.len(),
            x@.take(i as int) == y@.take(i as int),
            text_lt(x@, y@) == text_lt(x@.skip(i as int), y@.skip(i as int)),
        decreases x@.len() - i,
    {
        if x[i] != y[i] {
            proof {
                assert(x@.skip(i as int)[0] == x@[i as int]);
                assert(y@.skip(i as int)[0] == y@[i as int]);
            }
            if char_lt(x[i], y[i]) {
                proof {
                    lemma_text_lt_trichotomy(a@, b@);
                }
                return TextOrder::Less;
            } else {
                proof {
                    lemma_text_lt_trichotomy(a@, b@);
                }
                return TextOrder::Greater;
            }
        }
        proof {
            assert(x@.skip(i as int).drop_first() == x@.skip(i + 1));
            assert(y@.skip(i as int).drop_first() == y@.skip(i + 1));
            assert(x@.take(i + 1) == x@.take(i as int).push(x@[i as int]));
            assert(y@.take(i + 1) == y@.take(i as int).push(y@[i as int]));
        }
        i = i + 1;
    }
    proof {
        lemma_text_lt_trichotomy(a@, b@);
    }
    if x.len() == y.len() {
        proof {
            assert(x@ == x@.take(i as int));
            assert(y@ == y@.take(i as int));
        }
        TextOrder::Equal
    } else if i == x.len() {
        proof {
            assert(x@.skip(i as int).len() == 0);
            assert(x@ != y@);
        }
        TextOrder::Less
    } else {
        proof {
            assert(y@.skip(i as int).len() == 0);
            assert(x@.skip(i as int).len() > 0);
            assert(x@ != y@) by {
                if x@ == y@ {
                    assert(x@.len() == y@.len());
                }
            }
        }
        TextOrder::Greater
    }
}

/// Whether `a` comes before `b` in code-point order.
pub fn char_lt(a: char, b: char) -> (r: bool)
    ensures
        r == (a < b),
{
    a < b
}

/// Whether two texts are equal.
pub fn text_eq(a: &str, b: &str) -> (r: bool)
    ensures
        r == (a@ == b@),
{
    let x = chars_of(a);
    let y = chars_of(b);
    if x.len() != y.len() {
        return false;
    }
    let n = x.len();
    for i in 0..n
        invariant
            x@ == a@,
            y@ == b@,
            n == x@.len(),
            n == y@.len(),
            forall|j: int| 0 <= j < i ==> x@[j] == y@[j],
    {
        if x[i] != y[i] {
            return false;
        }
    }
    assert(x@ =~= y@);
    true
}

/// Unicode `White_Space` property of a character (what `char::is_whitespace` answers):
/// U+0009 to U+000D, U+0020, U+0085, U+00A0, U+1680, U+2000 to U+200A, U+2028, U+2029,
/// U+202F, U+205F and U+3000.
pub open spec fn unicode_whitespace(c: char) -> bool {
    let v = c as u32;
    ||| 0x9 <= v <= 0xd
    ||| v == 0x20
    ||| v == 0x85
    ||| v == 0xa0
    ||| v == 0x1680
    ||| 0x2000 <= v <= 0x200a
    ||| v == 0x2028
    ||| v == 0x2029
    ||| v == 0x202f
    ||| v == 0x205f
    ||| v == 0x3000
}

/// Unicode `Alphabetic` property of a character (what `char::is_alphabetic` answers).
pub uninterp spec fn unicode_alphabetic(c: char) -> bool;

/// Whether `c` is whitespace (the Unicode `White_Space` property, as `char::is_whitespace`).
pub(crate) fn is_whitespace(c: char) -> (r: bool)
    ensures
        r == unicode_whitespace(c),
{
    let v = c as u32;
    (0x9 <= v && v <= 0xd) || v == 0x20 || v == 0x85 || v == 0xa0 || v == 0x1680 || (0x2000 <= v && v <= 0x200a)
        || v == 0x2028 || v == 0x2029 || v == 0x202f || v == 0x205f || v == 0x3000
}

/// Calls `char::is_alphabetic`. Trusted: its answer depends on the character alone,
/// and is named `unicode_alphabetic`; among ASCII characters exactly the letters `a`-`z`
/// and `A`-`Z` have the `Alphabetic` property (digits and the other ASCII characters do not).
#[verifier::external_body]
pub(crate) fn is_alphabetic(c: char) -> (r: bool)
    ensures
        r == unicode_alphabetic(c),
        (c as u32) < 128 ==> (r <==> (('a' <= c && c <= 'z') || ('A' <= c && c <= 'Z'))),
{
    c.is_alphabetic()
}

/// The text `s` with all leading and trailing Unicode whitespace removed (what `str::trim` gives).
pub open spec fn trimmed(s: Seq<char>) -> Seq<char> {
    let start = first_non_ws(s);
    let end = last_non_ws_end(s);
    if start >= end {
        Seq::empty()
    } else {
        s.subrange(start, end)
    }
}

/// Index of the first non-whitespace character of `s` (or `s.len()` if there is none).
pub open spec fn first_non_ws(s: Seq<char>) -> int
    decreases s.len(),
{
    if s.len() == 0 {
        0
    } else if unicode_whitespace(s[0]) {
        1 + first_non_ws(s.drop_first())
    } else {
        0
    }
}

/// One past the index of the last non-whitespace character of `s` (or 0 if there is none).
pub open spec fn last_non_ws_end(s: Seq<char>) -> int
    decreases s.len(),
{
    if s.len() == 0 {
        0
    } else if unicode_whitespace(s.last()) {
        last_non_ws_end(s.drop_last())
    } else {
        s.len() as int
    }
}

proof fn lemma_first_non_ws_bounds(s: Seq<char>)
    ensures
        0 <= first_non_ws(s) <= s.len(),
        forall|j: int| 0 <= j < first_non_ws(s) ==> unicode_whitespace(#[trigger] s[j]),
        first_non_ws(s) < s.len() ==> !unicode_whitespace(s[first_non_ws(s)]),
    decreases s.len(),
{
    if s.len() > 0 && unicode_whitespace(s[0]) {
        lemma_first_non_ws_bounds(s.drop_first());
        assert forall|j: int| 0 <= j < first_non_ws(s) implies unicode_whitespace(#[trigger] s[j]) by {
            if j > 0 {
                assert(s[j] == s.drop_first()[j - 1]);
            }
        }
    }
}

proof fn lemma_last_non_ws_end_bounds(s: Seq<char>)
    ensures
        0 <= last_non_ws_end(s) <= s.len(),
        forall|j: int| last_non_ws_end(s) <= j < s.len() ==> unicode_whitespace(#[trigger] s[j]),
        last_non_ws_end(s) > 0 ==> !unicode_whitespace(s[last_non_ws_end(s) - 1]),
    decreases s.len(),
{
    if s.len() > 0 && unicode_whitespace(s.last()) {
        lemma_last_non_ws_end_bounds(s.drop_last());
        assert forall|j: int| last_non_ws_end(s) <= j < s.len() implies unicode_whitespace(#[trigger] s[j]) by {
            if j < s.len() - 1 {
                assert(s[j] == s.drop_last()[j]);
            }
        }
    }
}

/// Characterises `first_non_ws` by its defining properties.
proof fn lemma_first_non_ws_unique(s: Seq<char>, k: int)
    requires
        0 <= k <= s.len(),
        forall|j: int| 0 <= j < k ==> unicode_whitespace(#[trigger] s[j]),
        k < s.len() ==> !unicode_whitespace(s[k]),
    ensures
        first_non_ws(s) == k,
{
    lemma_first_non_ws_bounds(s);
    let f = first_non_ws(s);
    if f < k {
        assert(unicode_whitespace(s[f]));
    } else if f > k {
        assert(unicode_whitespace(s[k]));
    }
}

proof fn lemma_last_non_ws_end_unique(s: Seq<char>, k: int)
    requires
        0 <= k <= s.len(),
        forall|j: int| k <= j < s.len() ==> unicode_whitespace(#[trigger] s[j]),
        k > 0 ==> !unicode_whitespace(s[k - 1]),
    ensures
        last_non_ws_end(s) == k,
{
    lemma_last_non_ws_end_bounds(s);
    let e = last_non_ws_end(s);
    if e < k {
        assert(unicode_whitespace(s[k - 1]));
    } else if e > k {
        assert(unicode_whitespace(s[e - 1]));
    }
}

/// The characters of `s` without leading and trailing whitespace (as `str::trim` does).
pub fn trim_chars(s: &str) -> (v: Vec<char>)
    ensures
        v@ == trimmed(s@),
{
    let c = chars_of(s);
    let n = c.len();
    let mut start: usize = 0;
    while start < n && is_whitespace(c[start])
        invariant
            c@ == s@,
            n == c@.len(),
            start <= n,
            forall|j: int| 0 <= j < start ==> unicode_whitespace(#[trigger] c@[j]),
        decreases n - start,
    {
        start = start + 1;
    }
    proof {
        lemma_first_non_ws_unique(c@, start as int);
    }
    let mut end: usize = n;
    while end > start && is_whitespace(c[end - 1])
        invariant
            c@ == s@,
            n == c@.len(),
            start <= end <= n,
            forall|j: int| end <= j < n ==> unicode_whitespace(#[trigger] c@[j]),
            start == first_non_ws(c@),
            start < n ==> !unicode_whitespace(c@[start as int]),
        decreases end,
    {
        end = end - 1;
    }
    proof {
        if end == start {
            if start < n {
                // the character at `start` is not whitespace, so the scan stopped past it:
                // impossible unless end > start; hence start == n here
                assert(false);
            }
            lemma_last_non_ws_end_bounds(c@);
            assert(last_non_ws_end(c@) <= start) by {
                let e = last_non_ws_end(c@);
                if e > start {
                    assert(unicode_whitespace(c@[e - 1]));
                }
            }
        } else {
            lemma_last_non_ws_end_unique(c@, end as int);
        }
    }
    let mut v: Vec<char> = Vec::new();
    let mut i = start;
    while i < end
        invariant
            c@ == s@,
            start <= i <= end <= n,
            n == c@.len(),
            v@ == c@.subrange(start as int, i as int),
        decreases end - i,
    {
        v.push(c[i]);
        proof {
            assert(c@.subrange(start as int, i + 1) == c@.subrange(start as int, i as int).push(c@[i as int]));
        }
        i = i + 1;
    }
    v
}

/// The position of the first `c` in `s` at or after `from`, or `s.len()` if there is none.
pub open spec fn find_from(s: Seq<char>, c: char, from: int) -> int
    decreases s.len() - from,
{
    if from >= s.len() {
        s.len() as int
    } else if s[from] == c {
        from
    } else {
        find_from(s, c, from + 1)
    }
}

/// `find_from` answers a position at or after `from` where `c` stands (or the end), with no `c` before it.
pub proof fn lemma_find_from_bounds(s: Seq<char>, c: char, from: int)
    requires
        0 <= from <= s.len(),
    ensures
        from <= find_from(s, c, from) <= s.len(),
        find_from(s, c, from) < s.len() ==> s[find_from(s, c, from)] == c,
        forall|j: int| from <= j < find_from(s, c, from) ==> s[j] != c,
    decreases s.len() - from,
{
    if from < s.len() && s[from] != c {
        lemma_find_from_bounds(s, c, from + 1);
    }
}

/// Finds the first `c` in `s` at or after `from`; returns `s.len()` if there is none.
pub fn find_char(s: &[char], c: char, from: usize) -> (r: usize)
    requires
        from <= s@.len(),
    ensures
        r == find_from(s@, c, from as int),
        from <= r <= s@.len(),
        r < s@.len() ==> s@[r as int] == c,
        forall|j: int| from <= j < r ==> s@[j] != c,
{
    proof {
        lemma_find_from_bounds(s@, c, from as int);
    }
    let mut i = from;
    while i < s.len() && s[i] != c
        invariant
            from <= i <= s@.len(),
            find_from(s@, c, i as int) == find_from(s@, c, from as int),
        decreases s@.len() - i,
    {
        i = i + 1;
    }
    i
}

/// The character of the digit `d` (0 to 15): `0`-`9`, then `a`-`f`, or `A`-`F` when `upper`.
pub open spec fn digit_char(d: nat, upper: bool) -> char {
    if d < 10 {
        (('0' as nat) + d) as char
    } else if upper {
        (('A' as nat) + d - 10) as char
    } else {
        (('a' as nat) + d - 10) as char
    }
}

/// The digits of `n` written in base `b` (2 to 16), most significant first, without leading zeros
/// (zero is written `0`). This is how `{}` (base 10), `{:b}`, `{:x}` and `{:X}` write unsigned integers.
pub open spec fn radix_text(n: nat, b: nat, upper: bool) -> Seq<char>
    decreases n,
{
    if b < 2 || n < b {
        seq![digit_char(n, upper)]
    } else {
        proof {
            vstd::arithmetic::div_mod::lemma_div_decreases(n as int, b as int);
        }
        radix_text(n / b, b, upper).push(digit_char(n % b, upper))
    }
}

proof fn lemma_digit_char_value(d: nat)
    requires
        d < 10,
    ensures
        is_digit(digit_char(d, false)),
        digit_value(digit_char(d, false)) == d,
        digit_char(d, false) != '+',
{
}

proof fn lemma_radix_text_decimal(n: nat)
    ensures
        radix_text(n, 10, false).len() > 0,
        forall|i: int| 0 <= i < radix_text(n, 10, false).len() ==> is_digit(#[trigger] radix_text(n, 10, false)[i]),
        digits_value(radix_text(n, 10, false)) == n,
        radix_text(n, 10, false)[0] != '+',
    decreases n,
{
    if n < 10 {
        lemma_digit_char_value(n);
        let t = radix_text(n, 10, false);
        assert(t == seq![digit_char(n, false)]);
        assert(t.drop_last() =~= Seq::<char>::empty());
        assert(digits_value(t) == digits_value(t.drop_last()) * 10 + digit_value(t.last()));
    } else {
        vstd::arithmetic::div_mod::lemma_div_decreases(n as int, 10);
        lemma_radix_text_decimal(n / 10);
        lemma_digit_char_value(n % 10);
        let t = radix_text(n, 10, false);
        assert(t.drop_last() == radix_text(n / 10, 10, false));
        assert(t.last() == digit_char(n % 10, false));
        vstd::arithmetic::div_mod::lemma_fundamental_div_mod(n as int, 10);
        assert(digits_value(t) == digits_value(t.drop_last()) * 10 + digit_value(t.last()));
        assert forall|i: int| 0 <= i < t.len() implies is_digit(#[trigger] t[i]) by {
            if i < t.len() - 1 {
                assert(t[i] == radix_text(n / 10, 10, false)[i]);
            }
        }
        assert(t[0] == radix_text(n / 10, 10, false)[0]);
    }
}

/// Writing a number in decimal and parsing the text gives the number back
/// (for numbers no larger than the parse's limit).
pub proof fn decimal_round_trip(n: nat, max: nat)
    requires
        n <= max,
    ensures
        parse_unsigned_spec(radix_text(n, 10, false), max) == Some(n),
{
    lemma_radix_text_decimal(n);
    let t = radix_text(n, 10, false);
    assert(unsigned_digits(t) == t);
}

/// The character for digit `d` (below 16).
pub fn digit_to_char(d: u64, upper: bool) -> (c: char)
    requires
        d < 16,
    ensures
        c == digit_char(d as nat, upper),
{
    if d < 10 {
        ((48 + d) as u8) as char
    } else if upper {
        ((65 + d - 10) as u8) as char
    } else {
        ((97 + d - 10) as u8) as char
    }
}

fn radix_chars(n: u64, b: u64, upper: bool) -> (v: Vec<char>)
    requires
        2 <= b <= 16,
    ensures
        v@ == radix_text(n as nat, b as nat, upper),
    decreases n,
{
    if n < b {
        let mut v = Vec::new();
        v.push(digit_to_char(n, upper));
        v
    } else {
        proof {
            vstd::arithmetic::div_mod::lemma_div_decreases(n as int, b as int);
        }
        let mut v = radix_chars(n / b, b, upper);
        v.push(digit_to_char(n % b, upper));
        v
    }
}

/// How a signed integer is written by `{}`: a `-` sign for negative values.
pub open spec fn signed_decimal(v: int) -> Seq<char> {
    if v < 0 {
        seq!['-'] + radix_text((-v) as nat, 10, false)
    } else {
        radix_text(v as nat, 10, false)
    }
}

/// Writes `v` in decimal, as `{}` does.
pub fn format_signed(v: i64) -> (s: String)
    ensures
        s@ == signed_decimal(v as int),
{
    if v < 0 {
        let mag: u64 = if v == i64::MIN {
            9223372036854775808u64
        } else {
            (0 - v) as u64
        };
        let mut s = String::new();
        push_char(&mut s, '-');
        let digits = format_radix(mag, 10, false);
        s.append(digits.as_str());
        s
    } else {
        format_radix(v as u64, 10, false)
    }
}

/// Writes `n` in base `b` (2 to 16), as `{}`, `{:b}`, `{:x}` or `{:X}` do.
pub fn format_radix(n: u64, b: u64, upper: bool) -> (s: String)
    requires
        2 <= b <= 16,
    ensures
        s@ == radix_text(n as nat, b as nat, upper),
{
    let v = radix_chars(n, b, upper);
    string_from_chars(v.as_slice())
}

/// Whether `c` is one of the ASCII digits `0`..`9`.
pub open spec fn is_digit(c: char) -> bool {
    '0' <= c && c <= '9'
}

/// The numeric value of an ASCII digit.
pub open spec fn digit_value(c: char) -> nat {
    ((c as u32) - ('0' as u32)) as nat
}

/// The value of a string of decimal digits, most significant first.
pub open spec fn digits_value(s: Seq<char>) -> nat
    decreases s.len(),
{
    if s.len() == 0 {
        0
    } else {
        digits_value(s.drop_last()) * 10 + digit_value(s.last())
    }
}

/// The digit part of an unsigned decimal literal: a leading `+` is dropped.
pub open spec fn unsigned_digits(s: Seq<char>) -> Seq<char> {
    if s.len() > 0 && s[0] == '+' {
        s.drop_first()
    } else {
        s
    }
}

/// What parsing `s` as an unsigned integer no larger than `max` gives
/// (as `u8::from_str`, `u64::from_str` and the like do): an optional `+`, then one
/// or more decimal digits and nothing else, whose value does not exceed `max`.
pub open spec fn parse_unsigned_spec(s: Seq<char>, max: nat) -> Option<nat> {
    let d = unsigned_digits(s);
    if d.len() > 0 && (forall|i: int| 0 <= i < d.len() ==> is_digit(#[trigger] d[i])) && digits_value(d) <= max {
        Some(digits_value(d))
    } else {
        None
    }
}

proof fn lemma_digits_value_prefix_monotone(d: Seq<char>, k: int)
    requires
        0 <= k <= d.len(),
    ensures
        digits_value(d.take(k)) <= digits_value(d),
    decreases d.len() - k,
{
    if k < d.len() {
        lemma_digits_value_prefix_monotone(d, k + 1);
        assert(d.take(k + 1).drop_last() == d.take(k));
    } else {
        assert(d.take(k) == d);
    }
}

proof fn lemma_accumulate_digit(acc: u64, dv: u64, max: u64)
    by (nonlinear_arith)
    requires
        dv <= 9,
        max >= 9,
    ensures
        acc > (max - dv) / 10 ==> acc * 10 + dv > max,
        acc <= (max - dv) / 10 ==> acc * 10 + dv <= max,
{
}

/// Parses `chars` as an unsigned decimal integer not larger than `max`.
pub fn parse_unsigned(chars: &[char], max: u64) -> (r: Option<u64>)
    requires
        max >= 9,
    ensures
        match parse_unsigned_spec(chars@, max as nat) {
            Some(v) => r == Some(v as u64),
            None => r is None,
        },
{
    let n = chars.len();
    let mut i: usize = 0;
    if n > 0 && chars[0] == '+' {
        i = 1;
    }
    let start = i;
    let ghost d = unsigned_digits(chars@);
    assert(d == chars@.skip(start as int));
    if start == n {
        return None;
    }
    let mut acc: u64 = 0;
    while i < n
        invariant
            start <= i <= n,
            n == chars@.len(),
            start < n,
            d == chars@.skip(start as int),
            d == unsigned_digits(chars@),
            max >= 9,
            forall|j: int| 0 <= j < i - start ==> is_digit(#[trigger] d[j]),
            acc as nat == digits_value(d.take(i - start)),
            acc <= max,
        decreases n - i,
    {
        let c = chars[i];
        if !('0' <= c && c <= '9') {
            assert(d[i - start] == c);
            assert(!is_digit(d[i - start]));
            return None;
        }
        let dv = (c as u32 - '0' as u32) as u64;
        assert(dv <= 9);
        assert(dv == digit_value(c));
        assert(d.take(i - start + 1).drop_last() == d.take(i - start));
        assert(d.take(i - start + 1).last() == c);
        proof {
            lemma_accumulate_digit(acc, dv, max);
        }
        if acc > (max - dv) / 10 {
            proof {
                lemma_digits_value_prefix_monotone(d, i - start + 1);
            }
            return None;
        }
        acc = acc * 10 + dv;
        i = i + 1;
    }
    assert(d.take(n - start) == d);
    Some(acc)
}

} // verus!
