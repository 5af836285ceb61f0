//! Character-level helpers shared by the citation engine, the document
//! model and the find engine: conversions between `str`, `String` and
//! `Vec<char>`, and the Unicode character predicates the library relies on.

use vstd::prelude::*;

verus! {

/// The characters of `s`, in order.
pub fn chars_of(s: &str) -> (v: Vec<char>)
    ensures
        v@ == s@,
{
    let mut v: Vec<char> = Vec::new();
    for c in it: s.chars()
        invariant
            v@ == it.seq().subrange(0, it.index() as int),
    {
        v.push(c);
    }
    v
}

/// Collects a slice of characters into a `String` (`FromIterator<&char>`
/// for `String`); the string's characters are exactly the slice's.
#[verifier::external_body]
pub(crate) fn string_from_chars(v: &[char]) -> (s: String)
    ensures
        s@ == v@,
{
    v.iter().collect()
}

/// `true` iff the two strings hold the same characters.
pub fn str_eq(a: &str, b: &str) -> (r: bool)
    ensures
        r == (a@ == b@),
{
    let va = chars_of(a);
    let vb = chars_of(b);
    chars_eq(&va, &vb)
}

/// `true` iff the two character slices are equal.
pub fn chars_eq(a: &[char], b: &[char]) -> (r: bool)
    ensures
        r == (a@ == b@),
{
    if a.len() != b.len() {
        return false;
    }
    let mut i: usize = 0;
    while i < a.len()
        invariant
            a@.len() == b@.len(),
            i <= a@.len(),
            a@.subrange(0, i as int) == b@.subrange(0, i as int),
        decreases a@.len() - i,
    {
        if a[i] != b[i] {
            assert(a@[i as int] != b@[i as int]);
            return false;
        }
        assert(a@.subrange(0, i + 1) == a@.subrange(0, i as int).push(a@[i as int]));
        assert(b@.subrange(0, i + 1) == b@.subrange(0, i as int).push(b@[i as int]));
        i += 1;
    }
    assert(a@ == a@.subrange(0, a@.len() as int));
    assert(b@ == b@.subrange(0, b@.len() as int));
    true
}

/// The text that `Utf8Error`'s `Display` writes for a byte sequence
/// that `str::from_utf8` refuses (where and why decoding stopped).
pub uninterp spec fn utf8_error_text(bytes: Seq<u8>) -> Seq<char>;

/// `str::from_utf8`, owned: it accepts exactly the well-formed UTF-8
/// byte sequences (no overlong forms, no surrogates, nothing past
/// U+10FFFF) and gives back the characters they encode; a refusal
/// carries the error's display text.
#[verifier::external_body]
pub(crate) fn utf8_to_string(bytes: &[u8]) -> (r: Result<String, String>)
    ensures
        r is Ok <==> vstd::utf8::valid_utf8(bytes@),
        r matches Ok(s) ==> s@ == vstd::utf8::decode_utf8(bytes@),
        r matches Err(e) ==> e@ == utf8_error_text(bytes@),
{
    match std::str::from_utf8(bytes) {
        Ok(s) => Ok(s.to_owned()),
        Err(e) => Err(e.to_string()),
    }
}

/// Unicode `Alphabetic || Numeric` property of a character, as
/// `char::is_alphanumeric` computes it from the Unicode tables.
pub uninterp spec fn char_is_alphanumeric(c: char) -> bool;

/// `char::is_alphanumeric`.
#[verifier::external_body]
pub(crate) fn is_alphanumeric(c: char) -> (r: bool)
    ensures
        r == char_is_alphanumeric(c),
{
    c.is_alphanumeric()
}

/// The Unicode `White_Space` property, which `char::is_whitespace`
/// documents as its definition.
pub open spec fn spec_is_whitespace(c: char) -> bool {
    let u = c as u32;
    ||| (0x09 <= u && u <= 0x0D)
    ||| u == 0x20
    ||| u == 0x85
    ||| u == 0xA0
    ||| u == 0x1680
    ||| (0x2000 <= u && u <= 0x200A)
    ||| u == 0x2028
    ||| u == 0x2029
    ||| u == 0x202F
    ||| u == 0x205F
    ||| u == 0x3000
}

/// Whether `c` has the Unicode `White_Space` property, the set that
/// `char::is_whitespace` documents.
pub fn is_whitespace(c: char) -> (r: bool)
    ensures
        r == spec_is_whitespace(c),
{
    let u = c as u32;
    (0x09 <= u && u <= 0x0D) || u == 0x20 || u == 0x85 || u == 0xA0 || u == 0x1680 || (0x2000 <= u
        && u <= 0x200A) || u == 0x2028 || u == 0x2029 || u == 0x202F || u == 0x205F || u == 0x3000
}

/// The characters that `char::to_lowercase` yields for `c` (Unicode
/// default case conversion; one to three characters).
pub uninterp spec fn char_lowercase(c: char) -> Seq<char>;

/// The characters that `char::to_uppercase` yields for `c`.
pub uninterp spec fn char_uppercase(c: char) -> Seq<char>;

/// `char::to_lowercase`, collected.
#[verifier::external_body]
pub(crate) fn lowercase_of(c: char) -> (r: Vec<char>)
    ensures
        r@ == char_lowercase(c),
{
    c.to_lowercase().collect()
}

/// `char::to_uppercase`, collected.
#[verifier::external_body]
pub(crate) fn uppercase_of(c: char) -> (r: Vec<char>)
    ensures
        r@ == char_uppercase(c),
{
    c.to_uppercase().collect()
}

/// What `str::to_lowercase` returns for a string (it differs from the
/// per-character mapping at a word-final capital sigma).
pub uninterp spec fn str_lowercase(s: Seq<char>) -> Seq<char>;

/// What `str::to_uppercase` returns for a string.
pub uninterp spec fn str_uppercase(s: Seq<char>) -> Seq<char>;

/// `str::to_lowercase`.
#[verifier::external_body]
pub(crate) fn to_lowercase(s: &str) -> (r: String)
    ensures
        r@ == str_lowercase(s@),
{
    s.to_lowercase()
}

/// `str::to_uppercase`.
#[verifier::external_body]
pub(crate) fn to_uppercase(s: &str) -> (r: String)
    ensures
        r@ == str_uppercase(s@),
{
    s.to_uppercase()
}

/// Appends all of `src` to `dst`.
pub fn push_all(dst: &mut Vec<char>, src: &[char])
    ensures
        final(dst)@ == old(dst)@ + src@,
{
    let mut i: usize = 0;
    while i < src.len()
        invariant
            i <= src@.len(),
            dst@ == old(dst)@ + src@.subrange(0, i as int),
        decreases src@.len() - i,
    {
        dst.push(src[i]);
        assert(src@.subrange(0, i + 1) == src@.subrange(0, i as int).push(src@[i as int]));
        i += 1;
    }
    assert(src@.subrange(0, src@.len() as int) == src@);
}

} // verus!

verus! {

/// The ASCII digit character for `d` (`0 <= d < 10`).
pub open spec fn digit_char(d: nat) -> char {
    if d == 0 {
        '0'
    } else if d == 1 {
        '1'
    } else if d == 2 {
        '2'
    } else if d == 3 {
        '3'
    } else if d == 4 {
        '4'
    } else if d == 5 {
        '5'
    } else if d == 6 {
        '6'
    } else if d == 7 {
        '7'
    } else if d == 8 {
        '8'
    } else {
        '9'
    }
}

/// The value of an ASCII digit character.
pub open spec fn digit_value(c: char) -> nat {
    if c == '0' {
        0
    } else if c == '1' {
        1
    } else if c == '2' {
        2
    } else if c == '3' {
        3
    } else if c == '4' {
        4
    } else if c == '5' {
        5
    } else if c == '6' {
        6
    } else if c == '7' {
        7
    } else if c == '8' {
        8
    } else {
        9
    }
}

/// `c` is one of `'0'..='9'`.
pub open spec fn is_digit(c: char) -> bool {
    '0' <= c && c <= '9'
}

/// Base-ten rendering of a natural number, without leading zeros.
pub open spec fn spec_decimal(n: nat) -> Seq<char>
    decreases n,
{
    if n < 10 {
        seq![digit_char(n)]
    } else {
        spec_decimal(n / 10).push(digit_char(n % 10))
    }
}

/// Base-ten rendering of an integer: a `-` sign before the magnitude of
/// a negative number.
pub open spec fn spec_int_decimal(n: int) -> Seq<char> {
    if n < 0 {
        seq!['-'] + spec_decimal((-n) as nat)
    } else {
        spec_decimal(n as nat)
    }
}

/// The value of a string of digits (0 for the empty string).
pub open spec fn digits_value(s: Seq<char>) -> nat
    decreases s.len(),
{
    if s.len() == 0 {
        0
    } else {
        digits_value(s.drop_last()) * 10 + digit_value(s.last())
    }
}

/// Every character of `s` is a digit.
pub open spec fn all_digits(s: Seq<char>) -> bool {
    forall|i: int| 0 <= i < s.len() ==> is_digit(#[trigger] s[i])
}

/// What `str::parse` gives for an unsigned integer no larger than `max`:
/// an optional leading `+` followed by at least one digit, with a value
/// that fits; anything else is rejected.
pub open spec fn spec_parse_unsigned(s: Seq<char>, max: nat) -> Option<nat> {
    let body = if s.len() > 0 && s[0] == '+' {
        s.drop_first()
    } else {
        s
    };
    if body.len() > 0 && all_digits(body) && digits_value(body) <= max {
        Some(digits_value(body))
    } else {
        None
    }
}

/// Rendering then reading a number gives it back.
pub proof fn lemma_decimal_digits(n: nat)
    ensures
        all_digits(spec_decimal(n)),
        spec_decimal(n).len() > 0,
        digits_value(spec_decimal(n)) == n,
        spec_decimal(n)[0] != '+',
    decreases n,
{
    if n >= 10 {
        lemma_decimal_digits(n / 10);
        let s = spec_decimal(n / 10);
        let d = n % 10;
        assert(digit_value(digit_char(d)) == d);
        assert(n == (n / 10) * 10 + d);
        assert(spec_decimal(n).last() == digit_char(d));
        assert(spec_decimal(n).drop_last() == s);
        assert(digits_value(spec_decimal(n)) == digits_value(s) * 10 + digit_value(digit_char(d)));
        assert(spec_decimal(n).drop_last() == s);
        assert(spec_decimal(n)[0] == s[0]);
        assert forall|i: int| 0 <= i < spec_decimal(n).len() implies is_digit(
            #[trigger] spec_decimal(n)[i],
        ) by {
            if i < s.len() {
                assert(spec_decimal(n)[i] == s[i]);
            }
        }
    } else {
        assert(digit_value(digit_char(n)) == n);
        assert(spec_decimal(n).drop_last() =~= Seq::<char>::empty());
        assert(digits_value(Seq::<char>::empty()) == 0);
        assert(digits_value(spec_decimal(n)) == n);
    }
}

/// Reading the rendering of any `n <= max` succeeds with `n`.
pub proof fn lemma_parse_decimal(n: nat, max: nat)
    requires
        n <= max,
    ensures
        spec_parse_unsigned(spec_decimal(n), max) == Some(n),
{
    lemma_decimal_digits(n);
}

/// Base-ten rendering of an unsigned number.
pub fn decimal_string(n: u64) -> (r: String)
    ensures
        r@ == spec_decimal(n as nat),
{
    let mut digits: Vec<char> = Vec::new();
    let mut m: u64 = n;
    // digits are produced least significant first
    loop
        invariant
            spec_decimal(n as nat) == spec_decimal(m as nat) + digits@,
        decreases m,
    {
        let d = (m % 10) as u32;
        let c = char_from_digit(d);
        if m < 10 {
            let mut out: Vec<char> = Vec::new();
            out.push(c);
            push_all(&mut out, digits.as_slice());
            assert(spec_decimal(m as nat) == seq![c]);
            return string_from_chars(out.as_slice());
        }
        let mut next: Vec<char> = Vec::new();
        next.push(c);
        push_all(&mut next, digits.as_slice());
        assert(spec_decimal(m as nat) == spec_decimal((m / 10) as nat).push(c));
        assert(spec_decimal(n as nat) == spec_decimal((m / 10) as nat) + next@);
        digits = next;
        m = m / 10;
    }
}

/// The lowercase hexadecimal digit character for `d` (`0 <= d < 16`).
pub open spec fn hex_digit_char(d: nat) -> char {
    if d < 10 {
        digit_char(d)
    } else if d == 10 {
        'a'
    } else if d == 11 {
        'b'
    } else if d == 12 {
        'c'
    } else if d == 13 {
        'd'
    } else if d == 14 {
        'e'
    } else {
        'f'
    }
}

/// Lowercase base-sixteen rendering of a natural number, without
/// leading zeros (the `{:x}` format).
pub open spec fn spec_hex(n: nat) -> Seq<char>
    decreases n,
{
    if n < 16 {
        seq![hex_digit_char(n)]
    } else {
        spec_hex(n / 16).push(hex_digit_char(n % 16))
    }
}

/// The hexadecimal digit character for `d < 16`.
fn hex_char(d: u64) -> (c: char)
    requires
        d < 16,
    ensures
        c == hex_digit_char(d as nat),
{
    if d < 10 {
        char_from_digit(d as u32)
    } else if d == 10 {
        'a'
    } else if d == 11 {
        'b'
    } else if d == 12 {
        'c'
    } else if d == 13 {
        'd'
    } else if d == 14 {
        'e'
    } else {
        'f'
    }
}

/// Lowercase hexadecimal rendering of an unsigned number.
pub fn hex_string(n: u64) -> (r: String)
    ensures
        r@ == spec_hex(n as nat),
{
    let mut digits: Vec<char> = Vec::new();
    let mut m: u64 = n;
    loop
        invariant
            spec_hex(n as nat) == spec_hex(m as nat) + digits@,
        decreases m,
    {
        let c = hex_char(m % 16);
        let mut next: Vec<char> = Vec::new();
        next.push(c);
        push_all(&mut next, digits.as_slice());
        if m < 16 {
            assert(spec_hex(m as nat) == seq![c]);
            return string_from_chars(next.as_slice());
        }
        assert(spec_hex(m as nat) == spec_hex((m / 16) as nat).push(c));
        assert(spec_hex(n as nat) == spec_hex((m / 16) as nat) + next@);
        digits = next;
        m = m / 16;
    }
}

/// The digit character for `d < 10`.
pub fn char_from_digit(d: u32) -> (c: char)
    requires
        d < 10,
    ensures
        c == digit_char(d as nat),
{
    if d == 0 {
        '0'
    } else if d == 1 {
        '1'
    } else if d == 2 {
        '2'
    } else if d == 3 {
        '3'
    } else if d == 4 {
        '4'
    } else if d == 5 {
        '5'
    } else if d == 6 {
        '6'
    } else if d == 7 {
        '7'
    } else if d == 8 {
        '8'
    } else {
        '9'
    }
}

/// The value of `c` if it is an ASCII digit.
pub fn digit_of(c: char) -> (r: Option<u64>)
    ensures
        r is Some <==> is_digit(c),
        r matches Some(v) ==> v as nat == digit_value(c) && v < 10,
{
    if c == '0' {
        Some(0)
    } else if c == '1' {
        Some(1)
    } else if c == '2' {
        Some(2)
    } else if c == '3' {
        Some(3)
    } else if c == '4' {
        Some(4)
    } else if c == '5' {
        Some(5)
    } else if c == '6' {
        Some(6)
    } else if c == '7' {
        Some(7)
    } else if c == '8' {
        Some(8)
    } else if c == '9' {
        Some(9)
    } else {
        None
    }
}

/// Base-ten rendering of a signed number.
pub fn int_decimal_string(n: i64) -> (r: String)
    ensures
        r@ == spec_int_decimal(n as int),
{
    if n < 0 {
        let mag: u64 = if n == i64::MIN {
            9223372036854775808u64
        } else {
            (-n) as u64
        };
        let s = decimal_string(mag);
        let mut out: Vec<char> = Vec::new();
        out.push('-');
        let cs = chars_of(s.as_str());
        push_all(&mut out, cs.as_slice());
        string_from_chars(out.as_slice())
    } else {
        decimal_string(n as u64)
    }
}

/// Parses an unsigned decimal no larger than `max` the way `str::parse`
/// does for unsigned integers (optional leading `+`).
pub fn parse_unsigned(s: &[char], max: u64) -> (r: Option<u64>)
    ensures
        r is Some <==> spec_parse_unsigned(s@, max as nat) is Some,
        r matches Some(v) ==> spec_parse_unsigned(s@, max as nat) == Some(v as nat),
{
    let mut start: usize = 0;
    if s.len() > 0 && s[0] == '+' {
        start = 1;
    }
    let ghost body = if s@.len() > 0 && s@[0] == '+' {
        s@.drop_first()
    } else {
        s@
    };
    assert(body == s@.subrange(start as int, s@.len() as int));
    if start >= s.len() {
        return None;
    }
    let mut v: u64 = 0;
    let mut i: usize = start;
    while i < s.len()
        invariant
            start <= i <= s@.len(),
            body == s@.subrange(start as int, s@.len() as int),
            body == (if s@.len() > 0 && s@[0] == '+' {
                s@.drop_first()
            } else {
                s@
            }),
            all_digits(s@.subrange(start as int, i as int)),
            v as nat == digits_value(s@.subrange(start as int, i as int)),
            v <= max,
        decreases s@.len() - i,
    {
        let c = s[i];
        let ghost pre = s@.subrange(start as int, i as int);
        let ghost post = s@.subrange(start as int, i + 1);
        assert(post.drop_last() == pre);
        let dig = digit_of(c);
        if dig.is_none() {
            assert(!is_digit(body[i - start]));
            assert(!all_digits(body));
            assert(spec_parse_unsigned(s@, max as nat) is None);
            return None;
        }
        let d = dig.unwrap();
        let nv: u128 = v as u128 * 10 + d as u128;
        if nv > max as u128 {
            proof {
                if all_digits(body) {
                    lemma_digits_prefix_grows(body, (i - start + 1) as int);
                    assert(body.subrange(0, i - start + 1) == post);
                    assert(digits_value(post) == digits_value(pre) * 10 + digit_value(c));
                    assert(digits_value(body) > max);
                }
            }
            return None;
        }
        v = nv as u64;
        i += 1;
    }
    assert(s@.subrange(start as int, s@.len() as int) == body);
    Some(v)
}

/// Along a string of digits, the value of a prefix never exceeds the
/// value of the whole.
pub proof fn lemma_digits_prefix_grows(s: Seq<char>, k: int)
    requires
        0 <= k <= s.len(),
        all_digits(s),
    ensures
        digits_value(s.subrange(0, k)) <= digits_value(s),
    decreases s.len(),
{
    if k < s.len() {
        assert(s.drop_last() == s.subrange(0, s.len() - 1));
        lemma_digits_prefix_grows(s.drop_last(), k);
        assert(s.drop_last().subrange(0, k) == s.subrange(0, k));
        assert(digits_value(s.drop_last()) <= digits_value(s)) by (nonlinear_arith)
            requires
                digits_value(s) == digits_value(s.drop_last()) * 10 + digit_value(s.last()),
        ;
    } else {
        assert(s.subrange(0, k) == s);
    }
}

} // verus!

verus! {

/// `s` starts with `p`.
pub open spec fn has_prefix(s: Seq<char>, p: Seq<char>) -> bool {
    p.len() <= s.len() && s.subrange(0, p.len() as int) == p
}

/// Replaces every non-overlapping occurrence of the non-empty pattern
/// `pat` in `s`, scanning from the left, by `rep` (`str::replace`).
pub open spec fn seq_replace(s: Seq<char>, pat: Seq<char>, rep: Seq<char>) -> Seq<char>
    decreases s.len(),
{
    if s.len() == 0 || pat.len() == 0 {
        s
    } else if has_prefix(s, pat) {
        rep + seq_replace(s.subrange(pat.len() as int, s.len() as int), pat, rep)
    } else {
        seq![s[0]] + seq_replace(s.subrange(1, s.len() as int), pat, rep)
    }
}

/// `true` iff `p` occurs in `s` at position `i`.
fn occurs_at(s: &[char], p: &[char], i: usize) -> (r: bool)
    requires
        i <= s@.len(),
    ensures
        r == has_prefix(s@.subrange(i as int, s@.len() as int), p@),
{
    if p.len() > s.len() - i {
        return false;
    }
    let _sl = s.len();
    let mut k: usize = 0;
    while k < p.len()
        invariant
            i + p@.len() <= s@.len(),
            s@.len() <= usize::MAX,
            k <= p@.len(),
            forall|j: int| 0 <= j < k ==> s@[i + j] == p@[j],
        decreases p@.len() - k,
    {
        if s[i + k] != p[k] {
            assert(s@.subrange(i as int, s@.len() as int).subrange(0, p@.len() as int)[k as int]
                != p@[k as int]);
            return false;
        }
        k += 1;
    }
    assert(s@.subrange(i as int, s@.len() as int).subrange(0, p@.len() as int) =~= p@);
    true
}

/// Replaces every non-overlapping occurrence of `pat` (non-empty) in `s`
/// by `rep`, left to right.
pub fn replace_all(s: &[char], pat: &[char], rep: &[char]) -> (r: Vec<char>)
    requires
        pat@.len() > 0,
    ensures
        r@ == seq_replace(s@, pat@, rep@),
{
    let mut out: Vec<char> = Vec::new();
    let mut i: usize = 0;
    assert(s@.subrange(0, s@.len() as int) =~= s@);
    assert(out@ + seq_replace(s@, pat@, rep@) =~= seq_replace(s@, pat@, rep@));
    while i < s.len()
        invariant
            pat@.len() > 0,
            i <= s@.len(),
            out@ + seq_replace(s@.subrange(i as int, s@.len() as int), pat@, rep@) == seq_replace(
                s@,
                pat@,
                rep@,
            ),
        decreases s@.len() - i,
    {
        let ghost rest = s@.subrange(i as int, s@.len() as int);
        if occurs_at(s, pat, i) {
            let ghost old_out = out@;
            push_all(&mut out, rep);
            assert(rest.subrange(pat@.len() as int, rest.len() as int) == s@.subrange(
                i + pat@.len(),
                s@.len() as int,
            ));
            assert(old_out + (rep@ + seq_replace(
                rest.subrange(pat@.len() as int, rest.len() as int),
                pat@,
                rep@,
            )) =~= out@ + seq_replace(
                s@.subrange(i + pat@.len(), s@.len() as int),
                pat@,
                rep@,
            ));
            i = i + pat.len();
        } else {
            let ghost old_out = out@;
            out.push(s[i]);
            assert(rest.subrange(1, rest.len() as int) == s@.subrange(i + 1, s@.len() as int));
            assert(old_out + (seq![rest[0]] + seq_replace(
                rest.subrange(1, rest.len() as int),
                pat@,
                rep@,
            )) =~= out@ + seq_replace(s@.subrange(i + 1, s@.len() as int), pat@, rep@));
            i = i + 1;
        }
    }
    assert(seq_replace(s@.subrange(i as int, s@.len() as int), pat@, rep@) =~= Seq::<
        char,
    >::empty());
    assert(out@ =~= out@ + Seq::<char>::empty());
    out
}

/// `s` with every trailing `c` removed (`str::trim_end_matches` with a
/// character).
pub open spec fn trim_end_char(s: Seq<char>, c: char) -> Seq<char>
    decreases s.len(),
{
    if s.len() > 0 && s.last() == c {
        trim_end_char(s.drop_last(), c)
    } else {
        s
    }
}

/// Removes every trailing `c`.
pub fn trim_end(s: &[char], c: char) -> (r: Vec<char>)
    ensures
        r@ == trim_end_char(s@, c),
{
    let mut n: usize = s.len();
    assert(s@.subrange(0, n as int) =~= s@);
    while n > 0 && s[n - 1] == c
        invariant
            n <= s@.len(),
            trim_end_char(s@.subrange(0, n as int), c) == trim_end_char(s@, c),
        decreases n,
    {
        assert(s@.subrange(0, n as int).drop_last() == s@.subrange(0, n - 1));
        n -= 1;
    }
    let mut out: Vec<char> = Vec::new();
    let mut i: usize = 0;
    while i < n
        invariant
            i <= n <= s@.len(),
            out@ == s@.subrange(0, i as int),
        decreases n - i,
    {
        out.push(s[i]);
        assert(s@.subrange(0, i + 1) == s@.subrange(0, i as int).push(s@[i as int]));
        i += 1;
    }
    assert(s@ == s@.subrange(0, s@.len() as int));
    out
}

/// The words of `s` after `cur` (the word being read so far): maximal
/// runs of non-whitespace characters (`str::split_whitespace`).
pub open spec fn split_ws_from(s: Seq<char>, cur: Seq<char>) -> Seq<Seq<char>>
    decreases s.len(),
{
    if s.len() == 0 {
        if cur.len() > 0 {
            seq![cur]
        } else {
            Seq::empty()
        }
    } else if spec_is_whitespace(s[0]) {
        (if cur.len() > 0 {
            seq![cur]
        } else {
            Seq::empty()
        }) + split_ws_from(s.subrange(1, s.len() as int), Seq::empty())
    } else {
        split_ws_from(s.subrange(1, s.len() as int), cur.push(s[0]))
    }
}

/// The whitespace-separated words of `s`.
pub open spec fn split_whitespace(s: Seq<char>) -> Seq<Seq<char>> {
    split_ws_from(s, Seq::empty())
}

/// Splits `s` into its whitespace-separated words.
pub fn split_words(s: &[char]) -> (r: Vec<Vec<char>>)
    ensures
        r@.len() == split_whitespace(s@).len(),
        forall|k: int| 0 <= k < r@.len() ==> (#[trigger] r@[k])@ == split_whitespace(s@)[k],
{
    let mut out: Vec<Vec<char>> = Vec::new();
    let mut cur: Vec<char> = Vec::new();
    let mut i: usize = 0;
    let ghost total = split_whitespace(s@);
    assert(s@.subrange(0, s@.len() as int) =~= s@);
    assert(out@.map_values(|w: Vec<char>| w@) =~= Seq::<Seq<char>>::empty());
    assert(cur@ =~= Seq::<char>::empty());
    while i < s.len()
        invariant
            i <= s@.len(),
            total == split_whitespace(s@),
            out@.map_values(|w: Vec<char>| w@) + split_ws_from(
                s@.subrange(i as int, s@.len() as int),
                cur@,
            ) == total,
        decreases s@.len() - i,
    {
        let ghost rest = s@.subrange(i as int, s@.len() as int);
        let ghost before = out@.map_values(|w: Vec<char>| w@);
        assert(rest.subrange(1, rest.len() as int) == s@.subrange(i + 1, s@.len() as int));
        let c = s[i];
        if is_whitespace(c) {
            if cur.len() > 0 {
                let w = cur;
                cur = Vec::new();
                out.push(w);
                assert(out@.map_values(|w: Vec<char>| w@) =~= before.push(w@));
                assert(before + (seq![w@] + split_ws_from(
                    s@.subrange(i + 1, s@.len() as int),
                    Seq::empty(),
                )) =~= out@.map_values(|w: Vec<char>| w@) + split_ws_from(
                    s@.subrange(i + 1, s@.len() as int),
                    cur@,
                ));
            } else {
                assert(cur@ =~= Seq::<char>::empty());
                assert(Seq::<Seq<char>>::empty() + split_ws_from(
                    s@.subrange(i + 1, s@.len() as int),
                    Seq::empty(),
                ) =~= split_ws_from(s@.subrange(i + 1, s@.len() as int), cur@));
            }
        } else {
            cur.push(c);
        }
        i += 1;
    }
    let ghost before = out@.map_values(|w: Vec<char>| w@);
    assert(s@.subrange(i as int, s@.len() as int) =~= Seq::<char>::empty());
    if cur.len() > 0 {
        out.push(cur);
        assert(out@.map_values(|w: Vec<char>| w@) =~= total);
    } else {
        assert(before =~= total);
    }
    assert forall|k: int| 0 <= k < out@.len() implies (#[trigger] out@[k])@ == total[k] by {
        assert(out@.map_values(|w: Vec<char>| w@)[k] == out@[k]@);
    }
    out
}

} // verus!

verus! {

/// `s` without leading whitespace.
pub open spec fn trim_start_ws(s: Seq<char>) -> Seq<char>
    decreases s.len(),
{
    if s.len() > 0 && spec_is_whitespace(s[0]) {
        trim_start_ws(s.subrange(1, s.len() as int))
    } else {
        s
    }
}

/// `s` without trailing whitespace.
pub open spec fn trim_end_ws(s: Seq<char>) -> Seq<char>
    decreases s.len(),
{
    if s.len() > 0 && spec_is_whitespace(s.last()) {
        trim_end_ws(s.drop_last())
    } else {
        s
    }
}

/// `s` without leading and trailing whitespace (`str::trim`).
pub open spec fn spec_trim(s: Seq<char>) -> Seq<char> {
    trim_end_ws(trim_start_ws(s))
}

/// Removes leading and trailing whitespace.
pub fn trim(s: &[char]) -> (r: Vec<char>)
    ensures
        r@ == spec_trim(s@),
{
    let mut a: usize = 0;
    assert(s@.subrange(0, s@.len() as int) =~= s@);
    while a < s.len() && is_whitespace(s[a])
        invariant
            a <= s@.len(),
            trim_start_ws(s@.subrange(a as int, s@.len() as int)) == trim_start_ws(s@),
        decreases s@.len() - a,
    {
        assert(s@.subrange(a as int, s@.len() as int).subrange(1, s@.len() - a) =~= s@.subrange(
            a + 1,
            s@.len() as int,
        ));
        a += 1;
    }
    let ghost mid = s@.subrange(a as int, s@.len() as int);
    assert(trim_start_ws(mid) == mid);
    let mut b: usize = s.len();
    assert(s@.subrange(a as int, b as int) =~= mid);
    while b > a && is_whitespace(s[b - 1])
        invariant
            a <= b <= s@.len(),
            trim_end_ws(s@.subrange(a as int, b as int)) == trim_end_ws(mid),
        decreases b,
    {
        assert(s@.subrange(a as int, b as int).drop_last() =~= s@.subrange(a as int, b - 1));
        b -= 1;
    }
    let mut out: Vec<char> = Vec::new();
    let mut i: usize = a;
    while i < b
        invariant
            a <= i <= b <= s@.len(),
            out@ == s@.subrange(a as int, i as int),
        decreases b - i,
    {
        out.push(s[i]);
        assert(s@.subrange(a as int, i + 1) =~= s@.subrange(a as int, i as int).push(s@[i as int]));
        i += 1;
    }
    out
}

/// The characters of an optional string, none for `None`.
pub fn opt_chars(s: &Option<String>) -> (r: Vec<char>)
    ensures
        r@ == (match s {
            Some(v) => v@,
            None => Seq::empty(),
        }),
{
    match s {
        Some(v) => chars_of(v.as_str()),
        None => Vec::new(),
    }
}


/// Lexicographic order of codepoint sequences; it is the order of
/// `str`, since UTF-8 preserves the order of codepoints.
pub open spec fn seq_lt(a: Seq<char>, b: Seq<char>) -> bool
    decreases a.len(),
{
    if a.len() == 0 {
        b.len() > 0
    } else if b.len() == 0 {
        false
    } else if a[0] < b[0] {
        true
    } else if a[0] > b[0] {
        false
    } else {
        seq_lt(a.drop_first(), b.drop_first())
    }
}

/// The order is strict and total.
pub proof fn lemma_seq_lt_total(a: Seq<char>, b: Seq<char>)
    ensures
        !(seq_lt(a, b) && seq_lt(b, a)),
        !seq_lt(a, a),
        a != b ==> seq_lt(a, b) || seq_lt(b, a),
    decreases a.len(),
{
    if a.len() > 0 && b.len() > 0 {
        lemma_seq_lt_total(a.drop_first(), b.drop_first());
        lemma_seq_lt_total(a.drop_first(), a.drop_first());
        if a[0] == b[0] && a.drop_first() == b.drop_first() {
            assert(a.len() == b.len());
            assert forall|k: int| 0 <= k < a.len() implies a[k] == b[k] by {
                if k > 0 {
                    assert(a[k] == a.drop_first()[k - 1]);
                    assert(b[k] == b.drop_first()[k - 1]);
                }
            }
            assert(a =~= b);
        }
    } else if a.len() > 0 {
        lemma_seq_lt_total(a.drop_first(), a.drop_first());
    } else if b.len() == 0 {
        assert(a =~= b);
    }
}

/// The order is transitive.
pub proof fn lemma_seq_lt_trans(a: Seq<char>, b: Seq<char>, c: Seq<char>)
    requires
        seq_lt(a, b),
        seq_lt(b, c),
    ensures
        seq_lt(a, c),
    decreases a.len(),
{
    if a.len() > 0 && b.len() > 0 && c.len() > 0 && a[0] == b[0] && b[0] == c[0] {
        lemma_seq_lt_trans(a.drop_first(), b.drop_first(), c.drop_first());
    }
}

/// `seq_lt` on slices.
pub fn chars_lt(a: &[char], b: &[char]) -> (r: bool)
    ensures
        r == seq_lt(a@, b@),
{
    let mut i: usize = 0;
    proof {
        assert(a@.skip(0) =~= a@);
        assert(b@.skip(0) =~= b@);
    }
    while i < a.len() && i < b.len() && a[i] == b[i]
        invariant
            i <= a@.len(),
            i <= b@.len(),
            seq_lt(a@, b@) == seq_lt(a@.skip(i as int), b@.skip(i as int)),
        decreases a@.len() - i,
    {
        proof {
            assert(a@.skip(i as int + 1) =~= a@.skip(i as int).drop_first());
            assert(b@.skip(i as int + 1) =~= b@.skip(i as int).drop_first());
        }
        i = i + 1;
    }
    proof {
        if i < a@.len() {
            assert(a@.skip(i as int)[0] == a@[i as int]);
        }
        if i < b@.len() {
            assert(b@.skip(i as int)[0] == b@[i as int]);
        }
    }
    if i == a.len() {
        i < b.len()
    } else if i == b.len() {
        false
    } else {
        a[i] < b[i]
    }
}

/// The views of a vector of strings.
pub open spec fn str_views(v: Seq<String>) -> Seq<Seq<char>> {
    v.map_values(|s: String| s@)
}

/// No two entries are equal.
pub open spec fn all_distinct(v: Seq<Seq<char>>) -> bool {
    forall|i: int, j: int| 0 <= i < j < v.len() ==> v[i] != v[j]
}

/// Strictly increasing in [`seq_lt`].
pub open spec fn strictly_sorted(v: Seq<Seq<char>>) -> bool {
    forall|i: int, j: int| 0 <= i < j < v.len() ==> seq_lt(v[i], v[j])
}

/// Inserting an element between its neighbours keeps a sequence
/// sorted.
pub proof fn lemma_insert_sorted(s: Seq<Seq<char>>, j: int, x: Seq<char>)
    requires
        0 <= j <= s.len(),
        strictly_sorted(s),
        forall|k: int| 0 <= k < j ==> seq_lt(#[trigger] s[k], x),
        j < s.len() ==> seq_lt(x, s[j]),
    ensures
        strictly_sorted(s.insert(j, x)),
{
    let t = s.insert(j, x);
    assert forall|a: int, b: int| 0 <= a < b < t.len() implies seq_lt(t[a], t[b]) by {
        if b < j {
        } else if b == j {
        } else if a < j {
            // t[a] == s[a] < x < s[j] <= s[b - 1] == t[b]
            if b - 1 > j {
                lemma_seq_lt_trans(x, s[j], s[b - 1]);
            }
            lemma_seq_lt_trans(s[a], x, s[b - 1]);
        } else if a == j {
            if b - 1 > j {
                lemma_seq_lt_trans(x, s[j], s[b - 1]);
            }
        } else {
        }
    }
}

/// Sorts distinct strings into increasing order.
pub fn sort_strings(v: Vec<String>) -> (r: Vec<String>)
    requires
        all_distinct(str_views(v@)),
    ensures
        r@.len() == v@.len(),
        strictly_sorted(str_views(r@)),
        forall|x: Seq<char>| str_views(r@).contains(x) <==> str_views(v@).contains(x),
{
    let mut out: Vec<String> = Vec::new();
    let mut i: usize = 0;
    let n = v.len();
    while i < n
        invariant
            n == v@.len(),
            i <= n,
            all_distinct(str_views(v@)),
            out@.len() == i,
            strictly_sorted(str_views(out@)),
            forall|x: Seq<char>| str_views(out@).contains(x) <==> str_views(v@.subrange(0, i as int)).contains(x),
        decreases n - i,
    {
        let x = v[i].clone();
        let xc = chars_of(x.as_str());
        let mut j: usize = 0;
        while j < out.len()
            invariant_except_break
                j <= out@.len(),
                xc@ == x@,
                forall|k: int| 0 <= k < j ==> !seq_lt(x@, #[trigger] out@[k]@),
            ensures
                j <= out@.len(),
                forall|k: int| 0 <= k < j ==> !seq_lt(x@, #[trigger] out@[k]@),
                j < out@.len() ==> seq_lt(x@, out@[j as int]@),
            decreases out@.len() - j,
        {
            if chars_lt(xc.as_slice(), chars_of(out[j].as_str()).as_slice()) {
                break;
            }
            j = j + 1;
        }
        proof {
            assert(x@ == v@[i as int]@);
            assert(str_views(v@)[i as int] == x@);
            assert(!str_views(v@.subrange(0, i as int)).contains(x@)) by {
                if str_views(v@.subrange(0, i as int)).contains(x@) {
                    let k = choose|k: int| 0 <= k < i && str_views(v@.subrange(0, i as int))[k] == x@;
                    assert(str_views(v@)[k] == str_views(v@)[i as int]);
                }
            }
            assert forall|k: int| 0 <= k < j implies seq_lt(str_views(out@)[k], x@) by {
                assert(str_views(out@)[k] == out@[k]@);
                assert(str_views(out@).contains(out@[k]@));
                lemma_seq_lt_total(out@[k]@, x@);
            }
            if j < out@.len() {
                assert(str_views(out@)[j as int] == out@[j as int]@);
            }
            lemma_insert_sorted(str_views(out@), j as int, x@);
        }
        let ghost before = out@;
        out.insert(j, x);
        proof {
            assert(str_views(out@) =~= str_views(before).insert(j as int, x@));
            let ghost sv0 = str_views(v@.subrange(0, i as int));
            let ghost sv = str_views(v@.subrange(0, i as int + 1));
            assert(sv =~= sv0.push(x@));
            assert forall|y: Seq<char>| str_views(out@).contains(y) <==> sv.contains(y) by {
                if sv.contains(y) {
                    let k = choose|k: int| 0 <= k < sv.len() && sv[k] == y;
                    if k < i {
                        assert(sv0[k] == y);
                        assert(sv0.contains(y));
                        assert(str_views(before).contains(y));
                        let k2 = choose|k2: int| 0 <= k2 < before.len() && str_views(before)[k2] == y;
                        if k2 < j {
                            assert(str_views(out@)[k2] == y);
                        } else {
                            assert(str_views(out@)[k2 + 1] == y);
                        }
                    } else {
                        assert(str_views(out@)[j as int] == y);
                    }
                }
                if str_views(out@).contains(y) {
                    let k = choose|k: int| 0 <= k < out@.len() && str_views(out@)[k] == y;
                    if k != j {
                        let k2 = if k < j { k } else { k - 1 };
                        assert(str_views(before)[k2] == y);
                        assert(str_views(before).contains(y));
                        assert(sv0.contains(y));
                        let k3 = choose|k3: int| 0 <= k3 < sv0.len() && sv0[k3] == y;
                        assert(sv[k3] == y);
                    } else {
                        assert(sv[i as int] == y);
                    }
                }
            }
        }
        i = i + 1;
    }
    proof {
        assert(v@.subrange(0, n as int) =~= v@);
    }
    out
}

} // verus!
