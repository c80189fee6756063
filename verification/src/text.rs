//! Strings: comparison, searching, case and decimal numerals.
//!
//! A string is seen through its view, the sequence of its characters.

use vstd::prelude::*;

verus! {

/// `String::push` of the standard library: puts one character behind the text.
pub assume_specification[ String::push ](s: &mut String, c: char)
    ensures
        final(s)@ == old(s)@.push(c),
;

/// Equality of two string slices.
pub fn same(a: &str, b: &str) -> (r: bool)
    ensures
        r == (a@ == b@),
{
    a.to_owned() == b.to_owned()
}

/// The characters of a string, one by one.
pub fn chars_of(s: &str) -> (v: Vec<char>)
    ensures
        v@ == s@,
{
    let mut v: Vec<char> = Vec::new();
    for c in it: s.chars()
        invariant
            it.seq() == s@,
            v@ == s@.take(it.index()),
    {
        v.push(c);
    }
    proof {
        assert(s@.take(s@.len() as int) == s@);
    }
    v
}

/// The string that consists of the characters `v[from..to]`.
pub fn text_of(v: &Vec<char>, from: usize, to: usize) -> (s: String)
    requires
        from <= to <= v.len(),
    ensures
        s@ == v@.subrange(from as int, to as int),
{
    let mut s = String::new();
    for i in from..to
        invariant
            from <= to <= v.len(),
            s@ == v@.subrange(from as int, i as int),
    {
        s.push(v[i]);
        assert(v@.subrange(from as int, i + 1) == v@.subrange(from as int, i as int).push(v[i as int]));
    }
    s
}

/// `needle` stands in `hay` at position `at`.
pub open spec fn stands_at(hay: Seq<char>, needle: Seq<char>, at: int) -> bool {
    0 <= at && at + needle.len() <= hay.len() && hay.subrange(at, at + needle.len()) == needle
}

/// `needle` stands somewhere in `hay`.
pub open spec fn occurs(hay: Seq<char>, needle: Seq<char>) -> bool {
    exists|at: int| stands_at(hay, needle, at)
}

/// Whether the characters `needle` stand in `hay` at position `at`.
pub(crate) fn matches_at(hay: &Vec<char>, needle: &Vec<char>, at: usize) -> (r: bool)
    requires
        at <= hay.len(),
    ensures
        r == stands_at(hay@, needle@, at as int),
{
    if needle.len() > hay.len() - at {
        return false;
    }
    for i in 0..needle.len()
        invariant
            at + needle.len() <= hay.len(),
            forall|j: int| 0 <= j < i ==> hay@[at + j] == needle@[j],
    {
        if hay[at + i] != needle[i] {
            proof {
                let part = hay@.subrange(at as int, at + needle@.len());
                assert(part[i as int] == hay@[at + i]);
            }
            return false;
        }
    }
    assert(hay@.subrange(at as int, at + needle@.len()) =~= needle@);
    true
}

/// Whether `needle` is a part of `hay`.
pub fn contains(hay: &str, needle: &str) -> (r: bool)
    ensures
        r == occurs(hay@, needle@),
{
    let h = chars_of(hay);
    let n = chars_of(needle);
    for at in 0..h.len()
        invariant
            h@ == hay@,
            n@ == needle@,
            forall|k: int| 0 <= k < at ==> !stands_at(hay@, needle@, k),
    {
        if matches_at(&h, &n, at) {
            return true;
        }
    }
    matches_at(&h, &n, h.len())
}

/// `needle` stands at position `at` of `hay`, and not behind `prefix`.
pub open spec fn stands_not_behind(
    hay: Seq<char>,
    needle: Seq<char>,
    prefix: Seq<char>,
    at: int,
) -> bool {
    stands_at(hay, needle, at) && !stands_at(hay, prefix, at - prefix.len())
}

/// `needle` stands somewhere in `hay` where it is not behind `prefix`.
pub open spec fn occurs_not_behind(hay: Seq<char>, needle: Seq<char>, prefix: Seq<char>) -> bool {
    exists|at: int| stands_not_behind(hay, needle, prefix, at)
}

fn matches_not_behind(
    hay: &Vec<char>,
    needle: &Vec<char>,
    prefix: &Vec<char>,
    at: usize,
) -> (r: bool)
    requires
        at <= hay.len(),
    ensures
        r == stands_not_behind(hay@, needle@, prefix@, at as int),
{
    if !matches_at(hay, needle, at) {
        return false;
    }
    if prefix.len() <= at {
        !matches_at(hay, prefix, at - prefix.len())
    } else {
        true
    }
}

/// Whether `needle` stands in `hay` where it is not behind `prefix`.
pub fn contains_not_behind(hay: &str, needle: &str, prefix: &str) -> (r: bool)
    ensures
        r == occurs_not_behind(hay@, needle@, prefix@),
{
    let h = chars_of(hay);
    let n = chars_of(needle);
    let p = chars_of(prefix);
    for at in 0..h.len()
        invariant
            h@ == hay@,
            n@ == needle@,
            p@ == prefix@,
            forall|k: int| 0 <= k < at ==> !stands_not_behind(hay@, needle@, prefix@, k),
    {
        if matches_not_behind(&h, &n, &p, at) {
            return true;
        }
    }
    matches_not_behind(&h, &n, &p, h.len())
}

/// Whether `s` begins with `prefix`.
pub fn starts_with(s: &str, prefix: &str) -> (r: bool)
    ensures
        r == stands_at(s@, prefix@, 0),
{
    matches_at(&chars_of(s), &chars_of(prefix), 0)
}

/// `s` without the occurrences of `pat`, sought from left to right.
pub open spec fn without_spec(s: Seq<char>, pat: Seq<char>) -> Seq<char>
    decreases s.len(),
{
    if pat.len() == 0 || s.len() < pat.len() {
        s
    } else if s.take(pat.len() as int) == pat {
        without_spec(s.skip(pat.len() as int), pat)
    } else {
        seq![s[0]] + without_spec(s.skip(1), pat)
    }
}

/// Takes every occurrence of `pat` out of `s`, from left to right; an empty
/// `pat` takes nothing out.
pub fn without(s: &str, pat: &str) -> (r: String)
    ensures
        r@ == without_spec(s@, pat@),
{
    let t = chars_of(s);
    let p = chars_of(pat);
    let mut out = String::new();
    let mut i: usize = 0;
    if p.len() == 0 {
        return s.to_owned();
    }
    proof {
        assert(s@.skip(0) == s@);
        assert(out@ + without_spec(s@, pat@) == without_spec(s@, pat@));
    }
    while i < t.len()
        invariant
            t@ == s@,
            p@ == pat@,
            p.len() > 0,
            i <= t.len(),
            out@ + without_spec(s@.skip(i as int), pat@) == without_spec(s@, pat@),
        decreases t.len() - i,
    {
        let ghost rest = s@.skip(i as int);
        if matches_at(&t, &p, i) {
            proof {
                assert(rest.take(p@.len() as int) == s@.subrange(i as int, i + p@.len()));
                assert(rest.skip(p@.len() as int) == s@.skip(i + p@.len()));
            }
            i = i + p.len();
        } else {
            let ghost before = out@;
            proof {
                if rest.len() >= p@.len() {
                    assert(rest.take(p@.len() as int) == s@.subrange(i as int, i + p@.len()));
                    assert(rest.skip(1) == s@.skip(i + 1));
                    assert(before + (seq![rest[0]] + without_spec(rest.skip(1), pat@))
                        == before.push(rest[0]) + without_spec(rest.skip(1), pat@));
                } else {
                    assert(rest.skip(1) == s@.skip(i + 1));
                    assert(before + rest == before.push(rest[0]) + rest.skip(1));
                }
            }
            out.push(t[i]);
            i = i + 1;
        }
    }
    proof {
        assert(s@.skip(i as int) == Seq::<char>::empty());
        assert(out@ + Seq::<char>::empty() == out@);
    }
    out
}

/// The lower-case form of an ASCII letter; any other character is its own.
pub open spec fn ascii_lower(c: char) -> char {
    if 'A' <= c <= 'Z' {
        (c as u8 + 32) as char
    } else {
        c
    }
}

/// `ascii_lower` of every character.
pub open spec fn ascii_lower_all(s: Seq<char>) -> Seq<char> {
    s.map_values(|c: char| ascii_lower(c))
}

/// The upper-case form of an ASCII letter; any other character is its own.
pub open spec fn ascii_upper(c: char) -> char {
    if 'a' <= c <= 'z' {
        (c as u8 - 32) as char
    } else {
        c
    }
}

/// A text in upper case and the text itself are the same in lower case.
pub proof fn law_upper_case_changes_nothing(s: Seq<char>)
    ensures
        ascii_lower_all(s.map_values(|c: char| ascii_upper(c))) == ascii_lower_all(s),
        is_ascii_text(s) ==> is_ascii_text(s.map_values(|c: char| ascii_upper(c))),
{
    let t = s.map_values(|c: char| ascii_upper(c));
    assert(ascii_lower_all(t) =~= ascii_lower_all(s));
}

fn lower(c: char) -> (r: char)
    ensures
        r == ascii_lower(c),
{
    if 'A' <= c && c <= 'Z' {
        (c as u8 + 32) as char
    } else {
        c
    }
}

/// The text with its ASCII letters in lower case.
pub fn to_ascii_lower(s: &str) -> (r: String)
    ensures
        r@ == ascii_lower_all(s@),
{
    let v = chars_of(s);
    let mut out = String::new();
    for i in 0..v.len()
        invariant
            v@ == s@,
            out@ == ascii_lower_all(s@.take(i as int)),
    {
        out.push(lower(v[i]));
        assert(ascii_lower_all(s@.take(i + 1)) == ascii_lower_all(s@.take(i as int)).push(
            ascii_lower(v[i as int]),
        ));
    }
    assert(s@.take(s@.len() as int) == s@);
    out
}

/// Equality that takes no notice of the case of ASCII letters.
pub fn same_ignoring_case(a: &str, b: &str) -> (r: bool)
    ensures
        r == (ascii_lower_all(a@) == ascii_lower_all(b@)),
{
    to_ascii_lower(a) == to_ascii_lower(b)
}

/// What the standard library's Unicode lower-casing makes of a text.
pub uninterp spec fn lowercase(s: Seq<char>) -> Seq<char>;

/// A text of ASCII characters only.
pub open spec fn is_ascii_text(s: Seq<char>) -> bool {
    forall|i: int| 0 <= i < s.len() ==> #[trigger] s[i] < '\u{80}'
}

/// `str::to_lowercase` of the standard library, which follows the Unicode
/// tables; its result is named, not described, but for a text of ASCII
/// characters, in which the letters from A to Z become those from a to z.
#[verifier::external_body]
pub(crate) fn to_lowercase(s: &str) -> (r: String)
    ensures
        r@ == lowercase(s@),
        is_ascii_text(s@) ==> r@ == ascii_lower_all(s@),
{
    s.to_lowercase()
}

/// A character with the Unicode property White_Space.
pub open spec fn is_white_space(c: char) -> bool {
    ||| '\u{9}' <= c <= '\u{d}'
    ||| c == '\u{20}' || c == '\u{85}' || c == '\u{a0}' || c == '\u{1680}'
    ||| '\u{2000}' <= c <= '\u{200a}'
    ||| c == '\u{2028}' || c == '\u{2029}' || c == '\u{202f}' || c == '\u{205f}' || c == '\u{3000}'
}

/// What is left of a text without leading and trailing white space.
pub open spec fn trimmed(s: Seq<char>) -> Seq<char>
    decreases s.len(),
{
    if s.len() == 0 {
        s
    } else if is_white_space(s[0]) {
        trimmed(s.skip(1))
    } else if is_white_space(s.last()) {
        trimmed(s.drop_last())
    } else {
        s
    }
}

/// `str::trim` of the standard library, which takes the characters with the
/// Unicode property White_Space off both ends of a text.
#[verifier::external_body]
pub(crate) fn trim(s: &str) -> (r: String)
    ensures
        r@ == trimmed(s@),
{
    s.trim().to_string()
}

/// The decimal digit `d` as a character.
pub open spec fn digit_char(d: nat) -> char {
    (48 + d) as char
}

/// The decimal numeral of a natural number, without leading zeros.
pub open spec fn numeral(n: nat) -> Seq<char>
    decreases n,
{
    if n < 10 {
        seq![digit_char(n)]
    } else {
        numeral(n / 10).push(digit_char(n % 10))
    }
}

/// The decimal numeral of an integer.
pub open spec fn signed_numeral(i: int) -> Seq<char> {
    if i < 0 {
        seq!['-'] + numeral((-i) as nat)
    } else {
        numeral(i as nat)
    }
}

/// The decimal numeral of `n`.
pub fn decimal_u64(n: u64) -> (r: String)
    ensures
        r@ == numeral(n as nat),
    decreases n,
{
    let digit: u8 = 48 + (n % 10) as u8;
    let mut r = if n < 10 {
        String::new()
    } else {
        decimal_u64(n / 10)
    };
    r.push(digit as char);
    assert(n < 10 ==> r@ == seq![digit_char(n as nat)]);
    r
}

/// The decimal numeral of `i`.
pub fn decimal_i64(i: i64) -> (r: String)
    ensures
        r@ == signed_numeral(i as int),
{
    if i < 0 {
        let size: u64 = (-(i as i128)) as u64;
        let mut r = String::new();
        r.push('-');
        r.append(&decimal_u64(size));
        assert(r@ == seq!['-'] + numeral(size as nat));
        r
    } else {
        decimal_u64(i as u64)
    }
}

/// The value of a row of decimal digits; `None` if one is no digit.
pub open spec fn digits_value(s: Seq<char>) -> Option<nat>
    decreases s.len(),
{
    if s.len() == 0 {
        Some(0)
    } else {
        match digits_value(s.drop_last()) {
            Some(high) if '0' <= s.last() <= '9' => Some(
                high * 10 + (s.last() as nat - 48) as nat,
            ),
            _ => None,
        }
    }
}

/// The number that a text stands for: at least one decimal digit, behind an
/// optional `+` or, where `negative` allows it, `-`.
pub open spec fn number_in(s: Seq<char>, negative: bool) -> Option<int> {
    let signed = s.len() > 0 && (s[0] == '+' || (negative && s[0] == '-'));
    let digits = if signed {
        s.skip(1)
    } else {
        s
    };
    if digits.len() == 0 {
        None
    } else {
        match digits_value(digits) {
            Some(v) => Some(
                if signed && s[0] == '-' {
                    -(v as int)
                } else {
                    v as int
                },
            ),
            None => None,
        }
    }
}

/// The `i64` that a text stands for.
pub open spec fn i64_in(s: Seq<char>) -> Option<i64> {
    match number_in(s, true) {
        Some(v) if i64::MIN <= v <= i64::MAX => Some(v as i64),
        _ => None,
    }
}

/// The `u64` that a text stands for.
pub open spec fn u64_in(s: Seq<char>) -> Option<u64> {
    match number_in(s, false) {
        Some(v) if v <= u64::MAX => Some(v as u64),
        _ => None,
    }
}

/// Longer rows of digits do not stand for smaller numbers, and no digit is
/// found where a shorter row failed.
proof fn lemma_digits_grow(s: Seq<char>, k: int)
    requires
        0 <= k <= s.len(),
    ensures
        digits_value(s.take(k)) is None ==> digits_value(s) is None,
        digits_value(s) is Some ==> digits_value(s.take(k)) is Some && digits_value(
            s.take(k),
        )->0 <= digits_value(s)->0,
    decreases s.len() - k,
{
    if k == s.len() {
        assert(s.take(k) == s);
    } else {
        lemma_digits_grow(s, k + 1);
        assert(s.take(k + 1).drop_last() == s.take(k));
    }
}

/// The value of the digits `v[from..]` where it is at most `u64::MAX`.
fn digits_of(v: &Vec<char>, from: usize) -> (r: Option<u64>)
    requires
        from <= v.len(),
    ensures
        r matches Some(n) ==> digits_value(v@.skip(from as int)) == Some(n as nat),
        r is None ==> (digits_value(v@.skip(from as int)) matches Some(n) ==> n > u64::MAX),
{
    let ghost digits = v@.skip(from as int);
    let mut value: u64 = 0;
    let mut i: usize = from;
    assert(digits.take(0) == Seq::<char>::empty());
    while i < v.len()
        invariant
            from <= i <= v.len(),
            digits == v@.skip(from as int),
            digits_value(digits.take(i - from)) == Some(value as nat),
        decreases v.len() - i,
    {
        let c = v[i];
        proof {
            let longer = digits.take(i + 1 - from);
            assert(longer.drop_last() == digits.take(i - from));
            assert(longer.last() == c);
            lemma_digits_grow(digits, i + 1 - from);
        }
        if c < '0' || '9' < c {
            return None;
        }
        let d: u64 = (c as u8 - 48) as u64;
        if value > (u64::MAX - d) / 10 {
            return None;
        }
        value = value * 10 + d;
        i = i + 1;
    }
    assert(digits.take(i - from) == digits);
    Some(value)
}

/// Reads a `u64` from its decimal form, as `str::parse` does.
pub fn parse_u64(s: &str) -> (r: Option<u64>)
    ensures
        r == u64_in(s@),
{
    let v = chars_of(s);
    let from: usize = if v.len() > 0 && v[0] == '+' {
        1
    } else {
        0
    };
    assert(v@.skip(0) == v@);
    if v.len() == from {
        return None;
    }
    digits_of(&v, from)
}

/// Reads an `i64` from its decimal form, as `str::parse` does.
pub fn parse_i64(s: &str) -> (r: Option<i64>)
    ensures
        r == i64_in(s@),
{
    let v = chars_of(s);
    let signed = v.len() > 0 && (v[0] == '+' || v[0] == '-');
    let from: usize = if signed {
        1
    } else {
        0
    };
    assert(v@.skip(0) == v@);
    if v.len() == from {
        return None;
    }
    match digits_of(&v, from) {
        Some(size) => {
            if signed && v[0] == '-' {
                if size <= 0x8000_0000_0000_0000 {
                    Some((-(size as i128)) as i64)
                } else {
                    None
                }
            } else if size <= 0x7fff_ffff_ffff_ffff {
                Some(size as i64)
            } else {
                None
            }
        },
        None => None,
    }
}

/// The numeral of a number is never empty, and its digits stand for it.
pub proof fn lemma_numeral_value(n: nat)
    ensures
        numeral(n).len() > 0,
        digits_value(numeral(n)) == Some(n),
        forall|i: int| 0 <= i < numeral(n).len() ==> '0' <= #[trigger] numeral(n)[i] <= '9',
    decreases n,
{
    if n < 10 {
        assert(numeral(n).drop_last() == Seq::<char>::empty());
        assert(digits_value(Seq::<char>::empty()) == Some(0nat));
    } else {
        lemma_numeral_value(n / 10);
        assert(numeral(n).drop_last() == numeral(n / 10));
    }
}

/// Reading gives back every number that was written.
pub proof fn law_decimal_round_trip(i: i64)
    ensures
        i64_in(signed_numeral(i as int)) == Some(i),
{
    let size: nat = if i < 0 {
        (-(i as int)) as nat
    } else {
        i as nat
    };
    lemma_numeral_value(size);
    let s = signed_numeral(i as int);
    if i < 0 {
        assert(s.skip(1) == numeral(size));
    } else {
        assert(s[0] == numeral(size)[0]);
    }
}

/// The parts of `v`, with `sep` between them.
pub open spec fn joined(v: Seq<Seq<char>>, sep: Seq<char>) -> Seq<char>
    decreases v.len(),
{
    if v.len() == 0 {
        Seq::empty()
    } else if v.len() == 1 {
        v[0]
    } else {
        joined(v.drop_last(), sep) + sep + v.last()
    }
}

/// The texts of strings.
pub open spec fn texts(v: Seq<String>) -> Seq<Seq<char>> {
    v.map_values(|s: String| s@)
}

/// The parts of `v`, with `sep` between them.
pub fn join(v: &Vec<String>, sep: &str) -> (r: String)
    ensures
        r@ == joined(texts(v@), sep@),
{
    let mut r = String::new();
    for i in 0..v.len()
        invariant
            r@ == joined(texts(v@).take(i as int), sep@),
    {
        let ghost before = r@;
        if i > 0 {
            r.append(sep);
        }
        r.append(v[i].as_str());
        proof {
            let t = texts(v@).take(i + 1);
            assert(t.drop_last() =~= texts(v@).take(i as int));
            assert(t.last() == v@[i as int]@);
            if i == 0 {
                assert(before =~= Seq::<char>::empty());
                assert(r@ =~= t[0]);
            }
        }
    }
    assert(texts(v@).take(v.len() as int) =~= texts(v@));
    r
}

/// How often the character `c` stands in `s`.
pub open spec fn occurrences(s: Seq<char>, c: char) -> nat
    decreases s.len(),
{
    if s.len() == 0 {
        0
    } else {
        occurrences(s.drop_last(), c) + if s.last() == c {
            1nat
        } else {
            0nat
        }
    }
}

/// A character stands in two texts together as often as in each.
pub proof fn lemma_occurrences_sum(a: Seq<char>, b: Seq<char>, c: char)
    ensures
        occurrences(a + b, c) == occurrences(a, c) + occurrences(b, c),
    decreases b.len(),
{
    if b.len() == 0 {
        assert(a + b =~= a);
    } else {
        lemma_occurrences_sum(a, b.drop_last(), c);
        assert((a + b).drop_last() =~= a + b.drop_last());
    }
}

/// Two parts of a text that follow on each other are one part.
pub proof fn lemma_cuts_join(s: Seq<char>, a: int, b: int, c: int)
    requires
        0 <= a <= b <= c <= s.len(),
    ensures
        s.subrange(a, b) + s.subrange(b, c) == s.subrange(a, c),
{
    assert(s.subrange(a, b) + s.subrange(b, c) =~= s.subrange(a, c));
}

/// A text is left as it is where the pattern does not occur in it; a pattern at
/// its start is taken off.
pub proof fn law_only_the_pattern_is_taken_out(s: Seq<char>, pat: Seq<char>)
    requires
        pat.len() > 0,
    ensures
        !occurs(s, pat) ==> without_spec(s, pat) == s,
        without_spec(pat + s, pat) == without_spec(s, pat),
    decreases s.len(),
{
    assert((pat + s).take(pat.len() as int) =~= pat);
    assert((pat + s).skip(pat.len() as int) =~= s);
    if !occurs(s, pat) && s.len() >= pat.len() {
        assert(!stands_at(s, pat, 0));
        assert(s.take(pat.len() as int) =~= s.subrange(0, pat.len() as int));
        let t = s.skip(1);
        assert forall|at: int| !stands_at(t, pat, at) by {
            assert(!stands_at(s, pat, at + 1));
            if 0 <= at && at + pat.len() <= t.len() {
                assert(t.subrange(at, at + pat.len()) =~= s.subrange(at + 1, at + 1 + pat.len()));
            }
        }
        law_only_the_pattern_is_taken_out(t, pat);
        assert(seq![s[0]] + t =~= s);
    }
}

} // verus!
