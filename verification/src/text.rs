//! Character-level text primitives used by the STEP reader.
//!
//! Text is handled as slices of `char`; each operation is stated over
//! `Seq<char>` and mirrors the corresponding `str` method of the standard
//! library (`trim`, `trim_matches`, `find`, `contains`, `lines`, `parse::<u64>`).
use vstd::prelude::*;

verus! {

/// A class of characters that can be stripped from the ends of a text.
pub enum CharClass {
    /// Characters with the Unicode `White_Space` property.
    Whitespace,
    /// Exactly the given character.
    Exactly(char),
}

/// The Unicode `White_Space` property, as tested by `char::is_whitespace`.
pub open spec fn is_ws(c: char) -> bool {
    let u = c as u32;
    ||| 0x09 <= u <= 0x0d
    ||| u == 0x20
    ||| u == 0x85
    ||| u == 0xa0
    ||| u == 0x1680
    ||| 0x2000 <= u <= 0x200a
    ||| u == 0x2028
    ||| u == 0x2029
    ||| u == 0x202f
    ||| u == 0x205f
    ||| u == 0x3000
}

pub open spec fn in_class(cl: CharClass, c: char) -> bool {
    match cl {
        CharClass::Whitespace => is_ws(c),
        CharClass::Exactly(d) => c == d,
    }
}

/// Whether `c` is a whitespace character.
pub fn is_whitespace(c: char) -> (b: bool)
    ensures
        b == is_ws(c),
{
    let u = c as u32;
    (0x09 <= u && u <= 0x0d) || u == 0x20 || u == 0x85 || u == 0xa0 || u == 0x1680 || (0x2000 <= u
        && u <= 0x200a) || u == 0x2028 || u == 0x2029 || u == 0x202f || u == 0x205f || u == 0x3000
}

fn class_test(cl: &CharClass, c: char) -> (b: bool)
    ensures
        b == in_class(*cl, c),
{
    match cl {
        CharClass::Whitespace => is_whitespace(c),
        CharClass::Exactly(d) => c == *d,
    }
}

/// `s` without its leading characters of class `cl`.
pub open spec fn strip_start(s: Seq<char>, cl: CharClass) -> Seq<char>
    decreases s.len(),
{
    if s.len() > 0 && in_class(cl, s[0]) {
        strip_start(s.drop_first(), cl)
    } else {
        s
    }
}

/// `s` without its trailing characters of class `cl`.
pub open spec fn strip_end(s: Seq<char>, cl: CharClass) -> Seq<char>
    decreases s.len(),
{
    if s.len() > 0 && in_class(cl, s.last()) {
        strip_end(s.drop_last(), cl)
    } else {
        s
    }
}

/// `str::trim`.
pub open spec fn trim(s: Seq<char>) -> Seq<char> {
    strip_end(strip_start(s, CharClass::Whitespace), CharClass::Whitespace)
}

/// `str::trim_matches` with a single character.
pub open spec fn trim_matches(s: Seq<char>, c: char) -> Seq<char> {
    strip_end(strip_start(s, CharClass::Exactly(c)), CharClass::Exactly(c))
}

/// The index of the first character of `s` that is not of class `cl`.
pub fn strip_start_index(s: &[char], cl: &CharClass) -> (k: usize)
    ensures
        k <= s@.len(),
        s@.skip(k as int) == strip_start(s@, *cl),
{
    let mut k: usize = 0;
    assert(s@.skip(0) =~= s@);
    while k < s.len() && class_test(cl, s[k])
        invariant
            k <= s@.len(),
            strip_start(s@, *cl) == strip_start(s@.skip(k as int), *cl),
        decreases s@.len() - k,
    {
        assert(s@.skip(k as int).drop_first() =~= s@.skip(k + 1));
        k = k + 1;
    }
    k
}

/// The length of `s` without its trailing characters of class `cl`.
pub fn strip_end_index(s: &[char], cl: &CharClass) -> (k: usize)
    ensures
        k <= s@.len(),
        s@.take(k as int) == strip_end(s@, *cl),
{
    let mut k: usize = s.len();
    assert(s@.take(k as int) =~= s@);
    while k > 0 && class_test(cl, s[k - 1])
        invariant
            k <= s@.len(),
            strip_end(s@, *cl) == strip_end(s@.take(k as int), *cl),
        decreases k,
    {
        assert(s@.take(k as int).drop_last() =~= s@.take(k - 1));
        k = k - 1;
    }
    k
}

/// `s` without leading and trailing characters of class `cl`.
pub fn strip_both<'a>(s: &'a [char], cl: &CharClass) -> (r: &'a [char])
    ensures
        r@ == strip_end(strip_start(s@, *cl), *cl),
{
    let a = strip_start_index(s, cl);
    let rest = &s[a..s.len()];
    assert(rest@ =~= s@.skip(a as int));
    let b = strip_end_index(rest, cl);
    let r = &rest[0..b];
    assert(r@ =~= rest@.take(b as int));
    r
}

/// `str::trim` on characters.
pub fn trim_chars<'a>(s: &'a [char]) -> (r: &'a [char])
    ensures
        r@ == trim(s@),
{
    strip_both(s, &CharClass::Whitespace)
}

/// `str::trim_matches(c)` on characters.
pub fn trim_matches_chars<'a>(s: &'a [char], c: char) -> (r: &'a [char])
    ensures
        r@ == trim_matches(s@, c),
{
    strip_both(s, &CharClass::Exactly(c))
}

/// `str::trim_start_matches(c)` on characters.
pub fn trim_start_matches_chars<'a>(s: &'a [char], c: char) -> (r: &'a [char])
    ensures
        r@ == strip_start(s@, CharClass::Exactly(c)),
{
    let a = strip_start_index(s, &CharClass::Exactly(c));
    let r = &s[a..s.len()];
    assert(r@ =~= s@.skip(a as int));
    r
}

/// `str::trim_end_matches(c)` on characters.
pub fn trim_end_matches_chars<'a>(s: &'a [char], c: char) -> (r: &'a [char])
    ensures
        r@ == strip_end(s@, CharClass::Exactly(c)),
{
    let b = strip_end_index(s, &CharClass::Exactly(c));
    let r = &s[0..b];
    assert(r@ =~= s@.take(b as int));
    r
}

/// The first index at or after `i` where `c` occurs in `s`.
pub open spec fn find_from(s: Seq<char>, c: char, i: int) -> Option<int>
    decreases s.len() - i,
{
    if i < 0 || i >= s.len() {
        None
    } else if s[i] == c {
        Some(i)
    } else {
        find_from(s, c, i + 1)
    }
}

/// `str::find` with a single character, counted in characters.
pub open spec fn find_char(s: Seq<char>, c: char) -> Option<int> {
    find_from(s, c, 0)
}

/// The position of the first `c` in `s`.
pub fn find_char_index(s: &[char], c: char) -> (r: Option<usize>)
    ensures
        r matches Some(k) ==> find_char(s@, c) == Some(k as int) && k < s@.len() && s@[k as int] == c,
        r is None ==> find_char(s@, c) is None,
{
    let mut i: usize = 0;
    while i < s.len()
        invariant
            i <= s@.len(),
            find_char(s@, c) == find_from(s@, c, i as int),
        decreases s@.len() - i,
    {
        if s[i] == c {
            return Some(i);
        }
        i = i + 1;
    }
    None
}

/// `p` occurs in `s` at position `i`.
pub open spec fn occurs_at(s: Seq<char>, p: Seq<char>, i: int) -> bool {
    0 <= i && i + p.len() <= s.len() && s.subrange(i, i + p.len()) == p
}

/// `str::contains` with a text pattern.
pub open spec fn contains(s: Seq<char>, p: Seq<char>) -> bool {
    exists|i: int| occurs_at(s, p, i)
}

/// `str::starts_with` with a text pattern.
pub open spec fn starts_with(s: Seq<char>, p: Seq<char>) -> bool {
    occurs_at(s, p, 0)
}

/// Whether `p` occurs in `s` at position `i`.
pub fn occurs_at_index(s: &[char], p: &[char], i: usize) -> (b: bool)
    ensures
        b == occurs_at(s@, p@, i as int),
{
    if i > s.len() || p.len() > s.len() - i {
        return false;
    }
    let mut j: usize = 0;
    while j < p.len()
        invariant
            i + p@.len() <= s.len(),
            j <= p@.len(),
            forall|k: int| 0 <= k < j ==> s@[i + k] == p@[k],
        decreases p@.len() - j,
    {
        if s[i + j] != p[j] {
            assert(s@.subrange(i as int, i + p@.len())[j as int] != p@[j as int]);
            return false;
        }
        j = j + 1;
    }
    assert(s@.subrange(i as int, i + p@.len()) =~= p@);
    true
}

/// `str::contains` on characters.
pub fn contains_chars(s: &[char], p: &[char]) -> (b: bool)
    ensures
        b == contains(s@, p@),
{
    let mut i: usize = 0;
    while i < s.len()
        invariant
            i <= s@.len(),
            forall|k: int| 0 <= k < i ==> !occurs_at(s@, p@, k),
        decreases s@.len() - i,
    {
        if occurs_at_index(s, p, i) {
            return true;
        }
        i = i + 1;
    }
    if occurs_at_index(s, p, i) {
        return true;
    }
    assert forall|k: int| !occurs_at(s@, p@, k) by {
        if 0 <= k && k + p@.len() <= s@.len() {
            assert(k <= s@.len());
        }
    }
    false
}

/// `str::starts_with` on characters.
pub fn starts_with_chars(s: &[char], p: &[char]) -> (b: bool)
    ensures
        b == starts_with(s@, p@),
{
    occurs_at_index(s, p, 0)
}

/// Equality of two character sequences.
pub fn chars_equal(a: &[char], b: &[char]) -> (r: bool)
    ensures
        r == (a@ == b@),
{
    if a.len() != b.len() {
        return false;
    }
    let r = occurs_at_index(a, b, 0);
    proof {
        if r {
            assert(a@ =~= a@.subrange(0, b@.len() as int));
        } else {
            assert(a@.subrange(0, a@.len() as int) =~= a@);
        }
    }
    r
}

/// An ASCII decimal digit.
pub open spec fn is_digit(c: char) -> bool {
    0x30 <= (c as u32) <= 0x39
}

/// The value of an ASCII decimal digit.
pub open spec fn digit_value(c: char) -> nat {
    ((c as u32) - 0x30) as nat
}

/// The value of a sequence of decimal digits, most significant first.
pub open spec fn digits_value(s: Seq<char>) -> nat
    decreases s.len(),
{
    if s.len() == 0 {
        0
    } else {
        digits_value(s.drop_last()) * 10 + digit_value(s.last())
    }
}

pub open spec fn all_digits(s: Seq<char>) -> bool {
    forall|i: int| 0 <= i < s.len() ==> is_digit(#[trigger] s[i])
}

/// `str::parse::<u64>`: an optional `+`, then one or more decimal digits
/// whose value fits in a `u64`.
pub open spec fn parse_u64_spec(s: Seq<char>) -> Option<u64> {
    let d = if s.len() > 0 && s[0] == '+' {
        s.drop_first()
    } else {
        s
    };
    if d.len() > 0 && all_digits(d) && digits_value(d) <= u64::MAX {
        Some(digits_value(d) as u64)
    } else {
        None
    }
}

proof fn lemma_digits_prefix_le(s: Seq<char>, k: int)
    requires
        all_digits(s),
        0 <= k <= s.len(),
    ensures
        digits_value(s.take(k)) <= digits_value(s),
    decreases s.len(),
{
    if k < s.len() {
        let t = s.drop_last();
        assert(t.take(k) =~= s.take(k));
        assert(all_digits(t));
        lemma_digits_prefix_le(t, k);
    } else {
        assert(s.take(k) =~= s);
    }
}

/// `str::parse::<u64>` on characters.
pub fn parse_u64_chars(s: &[char]) -> (r: Option<u64>)
    ensures
        r == parse_u64_spec(s@),
{
    let d: &[char] = if s.len() > 0 && s[0] == '+' {
        &s[1..s.len()]
    } else {
        s
    };
    assert(s@.len() > 0 && s@[0] == '+' ==> d@ =~= s@.drop_first());
    if d.len() == 0 {
        return None;
    }
    let mut acc: u64 = 0;
    let mut i: usize = 0;
    assert(d@.take(0) =~= Seq::<char>::empty());
    while i < d.len()
        invariant
            i <= d@.len(),
            d@.len() > 0,
            acc == digits_value(d@.take(i as int)),
            forall|j: int| 0 <= j < i ==> is_digit(#[trigger] d@[j]),
            parse_u64_spec(s@) == (if d@.len() > 0 && all_digits(d@) && digits_value(d@) <= u64::MAX {
                Some(digits_value(d@) as u64)
            } else {
                None::<u64>
            }),
        decreases d@.len() - i,
    {
        let c = d[i];
        let u = c as u32;
        if u < 0x30 || u > 0x39 {
            assert(!is_digit(d@[i as int]));
            return None;
        }
        let dv = (u - 0x30) as u64;
        assert(d@.take(i + 1).drop_last() =~= d@.take(i as int));
        assert(digits_value(d@.take(i + 1)) == acc * 10 + dv);
        match acc.checked_mul(10) {
            None => {
                proof {
                    if all_digits(d@) {
                        lemma_digits_prefix_le(d@, i + 1);
                    }
                }
                return None;
            },
            Some(m) => match m.checked_add(dv) {
                None => {
                    proof {
                        if all_digits(d@) {
                            lemma_digits_prefix_le(d@, i + 1);
                        }
                    }
                    return None;
                },
                Some(v) => {
                    acc = v;
                },
            },
        }
        i = i + 1;
    }
    assert(d@.take(d@.len() as int) =~= d@);
    Some(acc)
}

/// The character of a decimal digit.
pub open spec fn digit_char(d: nat) -> char {
    ((0x30 + d) as u32) as char
}

/// The decimal representation of `n`, as written by `u64::to_string`.
pub open spec fn decimal(n: nat) -> Seq<char>
    decreases n,
{
    if n < 10 {
        seq![digit_char(n)]
    } else {
        decimal(n / 10).push(digit_char(n % 10))
    }
}

fn digit_to_char(d: u64) -> (c: char)
    requires
        d < 10,
    ensures
        c == digit_char(d as nat),
{
    let b: u8 = (0x30 + d) as u8;
    b as char
}

/// `u64::to_string` on characters.
pub fn u64_to_decimal(n: u64) -> (r: Vec<char>)
    ensures
        r@ == decimal(n as nat),
{
    let mut m = n;
    let mut tail: Vec<char> = Vec::new();
    while m >= 10
        invariant
            decimal(n as nat) == decimal(m as nat) + tail@,
        decreases m,
    {
        let d = m % 10;
        let c = digit_to_char(d);
        let ghost old_tail = tail@;
        tail.insert(0, c);
        assert(tail@ =~= seq![c] + old_tail);
        assert(decimal(m as nat) == decimal((m / 10) as nat).push(c));
        assert(decimal((m / 10) as nat).push(c) + old_tail =~= decimal((m / 10) as nat) + tail@);
        m = m / 10;
    }
    let c = digit_to_char(m);
    let ghost old_tail = tail@;
    tail.insert(0, c);
    assert(tail@ =~= seq![c] + old_tail);
    tail
}

pub proof fn lemma_decimal_digits(n: nat)
    ensures
        all_digits(decimal(n)),
        decimal(n).len() > 0,
        digits_value(decimal(n)) == n,
    decreases n,
{
    assert(digit_value(digit_char(n % 10)) == n % 10);
    let d = decimal(n);
    assert(d.last() == digit_char(n % 10));
    assert(digits_value(d) == digits_value(d.drop_last()) * 10 + digit_value(d.last()));
    if n < 10 {
        assert(decimal(n).drop_last() =~= Seq::<char>::empty());
    } else {
        lemma_decimal_digits(n / 10);
        let d = decimal(n);
        assert(d.drop_last() =~= decimal(n / 10));
        assert((n / 10) * 10 + n % 10 == n);
        assert forall|i: int| 0 <= i < d.len() implies is_digit(#[trigger] d[i]) by {
            if i < d.len() - 1 {
                assert(d[i] == decimal(n / 10)[i]);
            }
        }
    }
}

/// Reading a number back from its decimal representation gives the number.
pub proof fn decimal_round_trip(n: u64)
    ensures
        parse_u64_spec(decimal(n as nat)) == Some(n),
{
    lemma_decimal_digits(n as nat);
    let d = decimal(n as nat);
    assert(is_digit(d[0]));
}

/// A line with its final carriage return removed, if it has one.
pub open spec fn strip_cr(l: Seq<char>) -> Seq<char> {
    if l.len() > 0 && l.last() == '\r' {
        l.drop_last()
    } else {
        l
    }
}

/// The lines completed so far, and the line still open, after reading `s`.
pub open spec fn lines_acc(s: Seq<char>) -> (Seq<Seq<char>>, Seq<char>)
    decreases s.len(),
{
    if s.len() == 0 {
        (Seq::empty(), Seq::empty())
    } else {
        let (ls, cur) = lines_acc(s.drop_last());
        if s.last() == '\n' {
            (ls.push(strip_cr(cur)), Seq::empty())
        } else {
            (ls, cur.push(s.last()))
        }
    }
}

/// `str::lines`: the text split at `\n` and `\r\n`, with the line
/// terminators removed and no empty line after a final terminator.
pub open spec fn lines(s: Seq<char>) -> Seq<Seq<char>> {
    let (ls, cur) = lines_acc(s);
    if cur.len() > 0 {
        ls.push(cur)
    } else {
        ls
    }
}

fn strip_cr_vec(l: Vec<char>) -> (r: Vec<char>)
    ensures
        r@ == strip_cr(l@),
{
    let mut l = l;
    if l.len() > 0 && l[l.len() - 1] == '\r' {
        l.pop();
    }
    l
}

/// `str::lines` on characters.
pub fn lines_of(s: &[char]) -> (r: Vec<Vec<char>>)
    ensures
        r@.len() == lines(s@).len(),
        forall|i: int| 0 <= i < r@.len() ==> #[trigger] r@[i]@ == lines(s@)[i],
{
    let mut ls: Vec<Vec<char>> = Vec::new();
    let mut cur: Vec<char> = Vec::new();
    let mut i: usize = 0;
    assert(s@.take(0) =~= Seq::<char>::empty());
    while i < s.len()
        invariant
            i <= s@.len(),
            ls@.len() == lines_acc(s@.take(i as int)).0.len(),
            forall|k: int| 0 <= k < ls@.len() ==> #[trigger] ls@[k]@ == lines_acc(s@.take(i as int)).0[k],
            cur@ == lines_acc(s@.take(i as int)).1,
        decreases s@.len() - i,
    {
        assert(s@.take(i + 1).drop_last() =~= s@.take(i as int));
        let c = s[i];
        if c == '\n' {
            let done = strip_cr_vec(cur);
            ls.push(done);
            cur = Vec::new();
        } else {
            cur.push(c);
        }
        i = i + 1;
    }
    assert(s@.take(s@.len() as int) =~= s@);
    if cur.len() > 0 {
        ls.push(cur);
    }
    ls
}

/// What `str::to_uppercase` returns for the given characters.
pub uninterp spec fn uppercase_of(s: Seq<char>) -> Seq<char>;

/// Calls `str::to_uppercase`. Its result is a function of the text alone
/// (the Unicode case mapping); the contract names that result and says no
/// more of it.
#[verifier::external_body]
pub(crate) fn to_uppercase_chars(s: &[char]) -> (r: Vec<char>)
    ensures
        r@ == uppercase_of(s@),
{
    let text: String = s.iter().collect();
    text.to_uppercase().chars().collect()
}

/// A copy of the characters of a slice.
pub fn slice_to_chars(s: &[char]) -> (v: Vec<char>)
    ensures
        v@ == s@,
{
    vstd::slice::slice_to_vec(s)
}

/// The characters of `s`.
pub fn chars_of(s: &str) -> (v: Vec<char>)
    ensures
        v@ == s@,
{
    let mut v: Vec<char> = Vec::new();
    for c in it: s.chars()
        invariant
            v@ == it.seq().take(it.index() as int),
            it.seq() == s@,
    {
        v.push(c);
    }
    v
}

/// The text made of the characters `v`.
#[verifier::external_body]
pub(crate) fn string_of(v: &[char]) -> (s: String)
    ensures
        s@ == v@,
{
    v.iter().collect()
}

/// What `<str as Debug>::fmt` writes for the given characters: the text in
/// double quotes, with quotes, backslashes and the characters that are not
/// printable escaped.
pub uninterp spec fn debug_text(s: Seq<char>) -> Seq<char>;

/// Calls `<str as Debug>::fmt` (through `format!("{:?}", ..)`). Its result is
/// a function of the text alone; the contract names that result and says no
/// more of it.
#[verifier::external_body]
pub(crate) fn debug_quoted(s: &[char]) -> (r: Vec<char>)
    ensures
        r@ == debug_text(s@),
{
    let text: String = s.iter().collect();
    format!("{:?}", text).chars().collect()
}

} // verus!
