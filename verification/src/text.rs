//! Text helpers shared by the model, the scoring engine and the report
//! builder: transliteration to ASCII, decimal numbers, padding and trimming.
//!
//! Every contract here is stated over `Seq<char>`, the view of a string.

use vstd::prelude::*;
use vstd::string::*;

verus! {

/// The ASCII transliteration that `deunicode::deunicode` gives for a string.
pub uninterp spec fn deunicode_of(s: Seq<char>) -> Seq<char>;

/// Every character lies below U+007F.
pub open spec fn plain_ascii(s: Seq<char>) -> bool {
    forall|i: int| 0 <= i < s.len() ==> (#[trigger] s[i] as u32) < 0x7f
}

/// Calls `deunicode::deunicode`. Trusted: the result is the transliteration
/// of the argument, and a string made only of characters below U+007F comes
/// back unchanged (the crate returns such an input as it is).
#[verifier::external_body]
pub(crate) fn deunicode(s: &str) -> (r: String)
    ensures
        r@ == deunicode_of(s@),
        plain_ascii(s@) ==> r@ == s@,
{
    deunicode::deunicode(s)
}

/// Whether two string slices hold the same characters.
pub fn same_text(a: &str, b: &str) -> (r: bool)
    ensures
        r == (a@ == b@),
{
    a.to_owned() == b.to_owned()
}

/// The small letter of an ASCII capital; any other character as it is.
pub open spec fn fold_char(c: char) -> char {
    if 'A' <= c && c <= 'Z' {
        ((c as u8 + 32) as u8) as char
    } else {
        c
    }
}

/// The key under which a name is looked up: the name with its ASCII
/// capitals turned into small letters. Two spellings that differ only in
/// the case of such letters have one key.
pub open spec fn lookup_key(name: Seq<char>) -> Seq<char> {
    name.map_values(|c: char| fold_char(c))
}

/// A key is its own key.
pub proof fn lemma_lookup_key_settled(name: Seq<char>)
    ensures
        lookup_key(lookup_key(name)) == lookup_key(name),
{
    assert(lookup_key(lookup_key(name)) =~= lookup_key(name));
}

/// The small letter of an ASCII capital; any other character as it is.
pub fn fold(c: char) -> (r: char)
    ensures
        r == fold_char(c),
{
    if c >= 'A' && c <= 'Z' {
        ((c as u8) + 32) as char
    } else {
        c
    }
}

/// The characters of a string, in order.
pub fn chars_of(s: &str) -> (v: Vec<char>)
    ensures
        v@ == s@,
{
    let mut v: Vec<char> = Vec::new();
    for c in it: s.chars()
        invariant
            it.seq() == s@,
            v@ == s@.take(it.index() as int),
    {
        v.push(c);
    }
    v
}

/// The key under which a name is looked up.
pub fn lookup_key_of(name: &str) -> (key: Vec<char>)
    ensures
        key@ == lookup_key(name@),
{
    let chars = chars_of(name);
    let mut key: Vec<char> = Vec::new();
    let mut i: usize = 0;
    while i < chars.len()
        invariant
            chars@ == name@,
            i <= chars@.len(),
            key@ == lookup_key(name@).take(i as int),
        decreases chars@.len() - i,
    {
        key.push(fold(chars[i]));
        assert(key@ =~= lookup_key(name@).take(i + 1));
        i += 1;
    }
    assert(lookup_key(name@).take(i as int) =~= lookup_key(name@));
    key
}

/// Whether two lists hold the same characters.
pub fn same_chars(a: &Vec<char>, b: &Vec<char>) -> (r: bool)
    ensures
        r == (a@ == b@),
{
    if a.len() != b.len() {
        return false;
    }
    let mut i: usize = 0;
    while i < a.len()
        invariant
            a@.len() == b@.len(),
            i <= a@.len(),
            forall|j: int| 0 <= j < i ==> a@[j] == b@[j],
        decreases a@.len() - i,
    {
        if a[i] != b[i] {
            return false;
        }
        i += 1;
    }
    assert(a@ =~= b@);
    true
}

/// Whether a key is the key of the given name.
pub fn key_is(key: &Vec<char>, name: &str) -> (r: bool)
    ensures
        r == (key@ == lookup_key(name@)),
{
    let other = lookup_key_of(name);
    same_chars(key, &other)
}

/// Whether two names are looked up under one key: whether they are the
/// same but for the case of their ASCII letters.
pub fn same_key(a: &str, b: &str) -> (r: bool)
    ensures
        r == (lookup_key(a@) == lookup_key(b@)),
{
    let key = lookup_key_of(a);
    key_is(&key, b)
}

/// Whether the character is one of `0` to `9`.
pub open spec fn is_digit(c: char) -> bool {
    48 <= c as u32 <= 57
}

/// The number that a decimal digit stands for.
pub open spec fn digit_value(c: char) -> nat {
    (c as u32 - 48) as nat
}

/// Every character is a decimal digit.
pub open spec fn all_digits(s: Seq<char>) -> bool {
    forall|i: int| 0 <= i < s.len() ==> is_digit(#[trigger] s[i])
}

/// The number written by a sequence of decimal digits, most significant
/// digit first. Leading zeros change nothing.
pub open spec fn decimal_value(s: Seq<char>) -> nat
    decreases s.len(),
{
    if s.len() == 0 {
        0
    } else {
        10 * decimal_value(s.drop_last()) + digit_value(s.last())
    }
}

/// The text without one leading `+`, if it has one.
pub open spec fn without_plus(s: Seq<char>) -> Seq<char> {
    if s.len() > 0 && s[0] == '+' {
        s.drop_first()
    } else {
        s
    }
}

/// The unsigned 32-bit number that a text denotes: an optional `+`, then at
/// least one decimal digit and nothing else, with a value that fits.
pub open spec fn parse_u32(s: Seq<char>) -> Option<u32> {
    let digits = without_plus(s);
    if digits.len() > 0 && all_digits(digits) && decimal_value(digits) <= u32::MAX {
        Some(decimal_value(digits) as u32)
    } else {
        None
    }
}

/// A prefix of a digit sequence never denotes more than the whole sequence.
pub proof fn lemma_decimal_prefix(s: Seq<char>, i: int)
    requires
        0 <= i <= s.len(),
    ensures
        decimal_value(s.take(i)) <= decimal_value(s),
    decreases s.len() - i,
{
    if i == s.len() {
        assert(s.take(i) =~= s);
    } else {
        lemma_decimal_prefix(s, i + 1);
        assert(s.take(i + 1).drop_last() =~= s.take(i));
    }
}

/// Reads an unsigned 32-bit number from a text.
pub fn parse_unsigned(s: &str) -> (r: Option<u32>)
    ensures
        r == parse_u32(s@),
{
    let chars = chars_of(s);
    let n = chars.len();
    let start: usize = if n > 0 && chars[0] == '+' { 1 } else { 0 };
    let ghost digits = without_plus(s@);
    assert(digits =~= s@.skip(start as int));
    if start == n {
        return None;
    }
    let mut acc: u64 = 0;
    let mut i: usize = start;
    while i < n
        invariant
            chars@ == s@,
            n == chars@.len(),
            start <= i <= n,
            digits == without_plus(s@),
            digits == s@.skip(start as int),
            all_digits(digits.take(i - start)),
            acc == decimal_value(digits.take(i - start)),
            acc <= u32::MAX,
        decreases n - i,
    {
        let c = chars[i];
        let code: u32 = c as u32;
        let ghost before = digits.take(i - start);
        let ghost after = digits.take(i - start + 1);
        assert(digits[i - start] == c);
        assert(after.drop_last() =~= before);
        assert(after.last() == c);
        if code < 48 || code > 57 {
            assert(!is_digit(digits[i - start]));
            return None;
        }
        let next: u64 = acc * 10 + (code - 48) as u64;
        assert(next == decimal_value(after));
        if next > 0xffff_ffff {
            proof {
                lemma_decimal_prefix(digits, i - start + 1);
            }
            return None;
        }
        assert forall|j: int| 0 <= j < after.len() implies is_digit(#[trigger] after[j]) by {
            if j < before.len() {
                assert(after[j] == before[j]);
            }
        }
        acc = next;
        i += 1;
    }
    assert(digits.take(n - start) =~= digits);
    Some(acc as u32)
}

/// The character that writes a digit below ten.
pub open spec fn digit_char(d: nat) -> char {
    if d == 0 {
        '0'
    } else if d == 1 {
        '1'
    } else if d == 2 {
        '2'
    } else if d == 3 {
        '3'
    } else if d == 4 {
        '4'
    } else if d == 5 {
        '5'
    } else if d == 6 {
        '6'
    } else if d == 7 {
        '7'
    } else if d == 8 {
        '8'
    } else {
        '9'
    }
}

/// The decimal digits of a number, without leading zeros; `0` for zero.
pub open spec fn decimal(n: nat) -> Seq<char>
    decreases n,
{
    if n < 10 {
        seq![digit_char(n)]
    } else {
        decimal(n / 10).push(digit_char(n % 10))
    }
}

/// What is written in decimal reads back as the number that was written.
pub proof fn lemma_decimal_reads_back(n: nat)
    ensures
        decimal(n).len() > 0,
        all_digits(decimal(n)),
        decimal_value(decimal(n)) == n,
        n <= u32::MAX ==> parse_u32(decimal(n)) == Some(n as u32),
    decreases n,
{
    let s = decimal(n);
    if n < 10 {
        assert(s.drop_last() =~= Seq::<char>::empty());
        assert(decimal_value(s.drop_last()) == 0);
    } else {
        lemma_decimal_reads_back(n / 10);
        assert(s.drop_last() =~= decimal(n / 10));
        assert forall|i: int| 0 <= i < s.len() implies is_digit(#[trigger] s[i]) by {
            if i < s.len() - 1 {
                assert(s[i] == decimal(n / 10)[i]);
            }
        }
    }
    assert(is_digit(s[0]));
    assert(without_plus(s) == s);
}

fn digit_text(d: u32) -> (r: &'static str)
    requires
        d < 10,
    ensures
        r@ == seq![digit_char(d as nat)],
{
    proof {
        reveal_strlit("0");
        reveal_strlit("1");
        reveal_strlit("2");
        reveal_strlit("3");
        reveal_strlit("4");
        reveal_strlit("5");
        reveal_strlit("6");
        reveal_strlit("7");
        reveal_strlit("8");
        reveal_strlit("9");
    }
    let r = if d == 0 {
        "0"
    } else if d == 1 {
        "1"
    } else if d == 2 {
        "2"
    } else if d == 3 {
        "3"
    } else if d == 4 {
        "4"
    } else if d == 5 {
        "5"
    } else if d == 6 {
        "6"
    } else if d == 7 {
        "7"
    } else if d == 8 {
        "8"
    } else {
        "9"
    };
    assert(r@ =~= seq![digit_char(d as nat)]);
    r
}

/// Writes a number in decimal.
pub fn decimal_string(n: u32) -> (r: String)
    ensures
        r@ == decimal(n as nat),
    decreases n,
{
    if n < 10 {
        String::from_str(digit_text(n))
    } else {
        let mut r = decimal_string(n / 10);
        r.append(digit_text(n % 10));
        assert(r@ =~= decimal(n as nat));
        r
    }
}

/// The text followed by as many spaces as it takes to reach `width`
/// characters; unchanged when it is already that long.
pub open spec fn pad_right(s: Seq<char>, width: nat) -> Seq<char> {
    if s.len() >= width {
        s
    } else {
        s + Seq::new((width - s.len()) as nat, |i: int| ' ')
    }
}

/// Pads a text with spaces on the right to at least `width` characters.
pub fn pad_to(s: String, width: usize) -> (r: String)
    ensures
        r@ == pad_right(s@, width as nat),
{
    let len = s.as_str().unicode_len();
    if len >= width {
        return s;
    }
    let ghost start = s@;
    let mut r = s;
    let mut i: usize = len;
    while i < width
        invariant
            len == start.len(),
            len <= i <= width,
            r@ == start + Seq::new((i - len) as nat, |j: int| ' '),
        decreases width - i,
    {
        proof {
            reveal_strlit(" ");
        }
        r.append(" ");
        assert(r@ =~= start + Seq::new((i + 1 - len) as nat, |j: int| ' '));
        i += 1;
    }
    r
}

/// Whether `s` ends with the characters of `pat`.
pub open spec fn ends_with(s: Seq<char>, pat: Seq<char>) -> bool {
    pat.len() <= s.len() && s.skip(s.len() - pat.len()) == pat
}

/// The text with every trailing occurrence of a non-empty `pat` removed,
/// one after another, until it no longer ends with it.
pub open spec fn trim_end(s: Seq<char>, pat: Seq<char>) -> Seq<char>
    decreases s.len(),
{
    if pat.len() > 0 && ends_with(s, pat) {
        trim_end(s.take(s.len() - pat.len()), pat)
    } else {
        s
    }
}

/// Whether the first `len` characters of `s` end with `pat`.
fn prefix_ends_with(s: &Vec<char>, len: usize, pat: &Vec<char>) -> (r: bool)
    requires
        len <= s@.len(),
    ensures
        r == ends_with(s@.take(len as int), pat@),
{
    let m = pat.len();
    if m > len {
        return false;
    }
    let base = len - m;
    let ghost head = s@.take(len as int);
    let mut j: usize = 0;
    while j < m
        invariant
            m == pat@.len(),
            m <= len <= s@.len(),
            base == len - m,
            head == s@.take(len as int),
            j <= m,
            forall|k: int| 0 <= k < j ==> s@[base + k] == pat@[k],
        decreases m - j,
    {
        if s[base + j] != pat[j] {
            assert(head.skip(head.len() - m)[j as int] == s@[base + j]);
            return false;
        }
        j += 1;
    }
    assert(head.skip(head.len() - m) =~= pat@);
    true
}

/// Removes every trailing occurrence of `pat` from `s`.
pub fn trim_end_matches(s: &str, pat: &str) -> (r: String)
    ensures
        r@ == trim_end(s@, pat@),
{
    let chars = chars_of(s);
    let pattern = chars_of(pat);
    let m = pattern.len();
    let mut len: usize = chars.len();
    assert(s@.take(len as int) =~= s@);
    if m > 0 {
        while prefix_ends_with(&chars, len, &pattern)
            invariant
                chars@ == s@,
                pattern@ == pat@,
                m == pattern@.len(),
                m > 0,
                len <= chars@.len(),
                trim_end(s@, pat@) == trim_end(s@.take(len as int), pat@),
            decreases len,
        {
            assert(s@.take(len as int).take(len - m) =~= s@.take(len - m));
            len = len - m;
        }
    }
    String::from_str(s.substring_char(0, len))
}

} // verus!
