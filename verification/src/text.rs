//! Small text routines: decimal numbers, searching and ASCII case folding.

use vstd::prelude::*;
use vstd::string::*;

verus! {

/// The character of a decimal digit.
pub open spec fn digit_char(d: int) -> char {
    if d == 0 {
        '0'
    } else if d == 1 {
        '1'
    } else if d == 2 {
        '2'
    } else if d == 3 {
        '3'
    } else if d == 4 {
        '4'
    } else if d == 5 {
        '5'
    } else if d == 6 {
        '6'
    } else if d == 7 {
        '7'
    } else if d == 8 {
        '8'
    } else {
        '9'
    }
}

/// The shortest decimal notation of `n`.
pub open spec fn decimal_digits(n: nat) -> Seq<char>
    decreases n,
{
    if n < 10 {
        seq![digit_char(n as int)]
    } else {
        decimal_digits(n / 10).push(digit_char((n % 10) as int))
    }
}

/// Whether `c` is an ASCII decimal digit.
pub open spec fn is_digit(c: char) -> bool {
    '0' <= c <= '9'
}

/// The number that a run of digits denotes.
pub open spec fn digits_value(s: Seq<char>) -> nat
    decreases s.len(),
{
    if s.len() == 0 {
        0
    } else {
        digits_value(s.drop_last()) * 10 + (s.last() as nat - '0' as nat) as nat
    }
}

/// `s` without a leading plus sign.
pub open spec fn unsigned_part(s: Seq<char>) -> Seq<char> {
    if s.len() > 0 && s[0] == '+' {
        s.skip(1)
    } else {
        s
    }
}

/// What reading `s` as a `u32` yields: an optional plus sign, then at least one
/// digit and nothing else, with a value that fits.
pub open spec fn parsed_u32(s: Seq<char>) -> Option<u32> {
    let digits = unsigned_part(s);
    if digits.len() > 0 && (forall|i: int| 0 <= i < digits.len() ==> is_digit(#[trigger] digits[i]))
        && digits_value(digits) <= u32::MAX {
        Some(digits_value(digits) as u32)
    } else {
        None
    }
}

fn digit_text(d: u64) -> (r: &'static str)
    requires
        d < 10,
    ensures
        r@ == seq![digit_char(d as int)],
{
    proof {
        reveal_strlit("0");
        reveal_strlit("1");
        reveal_strlit("2");
        reveal_strlit("3");
        reveal_strlit("4");
        reveal_strlit("5");
        reveal_strlit("6");
        reveal_strlit("7");
        reveal_strlit("8");
        reveal_strlit("9");
    }
    if d == 0 {
        "0"
    } else if d == 1 {
        "1"
    } else if d == 2 {
        "2"
    } else if d == 3 {
        "3"
    } else if d == 4 {
        "4"
    } else if d == 5 {
        "5"
    } else if d == 6 {
        "6"
    } else if d == 7 {
        "7"
    } else if d == 8 {
        "8"
    } else {
        "9"
    }
}

/// Decimal notation of `n`.
pub fn decimal(n: u64) -> (r: String)
    ensures
        r@ == decimal_digits(n as nat),
    decreases n,
{
    if n < 10 {
        digit_text(n).to_owned()
    } else {
        let mut r = decimal(n / 10);
        r.append(digit_text(n % 10));
        assert(r@ =~= decimal_digits((n / 10) as nat).push(digit_char((n % 10) as int)));
        r
    }
}

/// The shortest lower-case hexadecimal notation of `n`.
pub open spec fn hex_digits(n: nat) -> Seq<char>
    decreases n,
{
    if n < 16 {
        seq![crate::source_id::hex_char(n as u128)]
    } else {
        hex_digits(n / 16).push(crate::source_id::hex_char((n % 16) as u128))
    }
}

fn hex_digit_text(d: u64) -> (r: &'static str)
    requires
        d < 16,
    ensures
        r@ == seq![crate::source_id::hex_char(d as u128)],
{
    proof {
        reveal_strlit("a");
        reveal_strlit("b");
        reveal_strlit("c");
        reveal_strlit("d");
        reveal_strlit("e");
        reveal_strlit("f");
    }
    if d < 10 {
        digit_text(d)
    } else if d == 10 {
        "a"
    } else if d == 11 {
        "b"
    } else if d == 12 {
        "c"
    } else if d == 13 {
        "d"
    } else if d == 14 {
        "e"
    } else {
        "f"
    }
}

/// Lower-case hexadecimal notation of `n`.
pub fn hexadecimal(n: u64) -> (r: String)
    ensures
        r@ == hex_digits(n as nat),
    decreases n,
{
    if n < 16 {
        hex_digit_text(n).to_owned()
    } else {
        let mut r = hexadecimal(n / 16);
        r.append(hex_digit_text(n % 16));
        assert(r@ =~= hex_digits((n / 16) as nat).push(
            crate::source_id::hex_char((n % 16) as u128),
        ));
        r
    }
}

/// The shortest binary notation of `n`.
pub open spec fn binary_digits(n: nat) -> Seq<char>
    decreases n,
{
    if n < 2 {
        seq![digit_char(n as int)]
    } else {
        binary_digits(n / 2).push(digit_char((n % 2) as int))
    }
}

/// Binary notation of `n`.
pub fn binary(n: u64) -> (r: String)
    ensures
        r@ == binary_digits(n as nat),
    decreases n,
{
    if n < 2 {
        digit_text(n).to_owned()
    } else {
        let mut r = binary(n / 2);
        r.append(digit_text(n % 2));
        assert(r@ =~= binary_digits((n / 2) as nat).push(digit_char((n % 2) as int)));
        r
    }
}

/// The characters of `s`.
pub fn characters(s: &str) -> (r: Vec<char>)
    ensures
        r@ == s@,
{
    let mut r: Vec<char> = Vec::new();
    for c in it: s.chars()
        invariant
            it.seq() == s@,
            r@ == s@.take(it.index() as int),
    {
        r.push(c);
    }
    assert(r@ =~= s@);
    r
}

/// Reads `s` as a `u32`.
pub fn parse_u32(s: &str) -> (r: Option<u32>)
    ensures
        r == parsed_u32(s@),
{
    let chars = characters(s);
    let start: usize = if chars.len() > 0 && chars[0] == '+' { 1 } else { 0 };
    let ghost digits = unsigned_part(s@);
    if start == chars.len() {
        return None;
    }
    let mut value: u64 = 0;
    let mut overflow = false;
    let mut i: usize = start;
    assert(digits.take(0) =~= Seq::<char>::empty());
    while i < chars.len()
        invariant
            chars@ == s@,
            digits == unsigned_part(s@),
            start <= i <= chars@.len(),
            start == (if s@.len() > 0 && s@[0] == '+' { 1int } else { 0int }),
            digits =~= s@.skip(start as int),
            forall|j: int| 0 <= j < i - start ==> is_digit(#[trigger] digits[j]),
            overflow ==> digits_value(digits.take(i - start)) > u32::MAX,
            !overflow ==> value == digits_value(digits.take(i - start)) && value <= u32::MAX,
        decreases chars@.len() - i,
    {
        let c = chars[i];
        proof {
            assert(digits[i - start] == c);
            assert(digits.take(i + 1 - start).drop_last() =~= digits.take(i - start));
            assert(digits.take(i + 1 - start).last() == c);
        }
        if c < '0' || c > '9' {
            assert(!is_digit(digits[i - start]));
            return None;
        }
        if !overflow {
            value = value * 10 + (c as u64 - '0' as u64);
            if value > u32::MAX as u64 {
                overflow = true;
            }
        }
        i += 1;
    }
    assert(digits.take(i - start) =~= digits);
    if overflow {
        None
    } else {
        Some(value as u32)
    }
}

proof fn lemma_decimal_reads_back(n: nat)
    ensures
        decimal_digits(n).len() > 0,
        forall|i: int| 0 <= i < decimal_digits(n).len() ==> is_digit(#[trigger] decimal_digits(n)[i]),
        digits_value(decimal_digits(n)) == n,
    decreases n,
{
    reveal_with_fuel(digits_value, 2);
    if n < 10 {
        assert(decimal_digits(n).drop_last() =~= Seq::<char>::empty());
        assert(decimal_digits(n).last() as nat == '0' as nat + n);
    } else {
        lemma_decimal_reads_back(n / 10);
        let init = decimal_digits(n / 10);
        assert(decimal_digits(n) == init.push(digit_char((n % 10) as int)));
        assert(decimal_digits(n).drop_last() =~= init);
        assert(decimal_digits(n).last() as nat == '0' as nat + n % 10);
    }
}

/// Reading back the decimal notation of a `u32` yields that number.
pub proof fn law_decimal_round_trip(n: u32)
    ensures
        parsed_u32(decimal_digits(n as nat)) == Some(n),
{
    let s = decimal_digits(n as nat);
    lemma_decimal_reads_back(n as nat);
    assert(is_digit(s[0]));
    assert(unsigned_part(s) == s);
}

/// A number is read where it is made of digits alone, behind one plus sign at most, and
/// fits 32 bits; the sign changes nothing, and one digit more makes ten times the number
/// and the digit.
pub proof fn law_numbers_are_read_digit_by_digit(s: Seq<char>, c: char)
    ensures
        parsed_u32(Seq::empty()) is None,
        parsed_u32(seq!['+']) is None,
        s.len() > 0 && s[0] != '+' ==> parsed_u32(seq!['+'] + s) == parsed_u32(s),
        s.len() > 0 && s[0] != '+' && parsed_u32(s) is Some && '0' <= c <= '9' && parsed_u32(s)->0
            * 10 + (c as int - '0' as int) <= u32::MAX ==> parsed_u32(s.push(c)) == Some(
            (parsed_u32(s)->0 * 10 + (c as int - '0' as int)) as u32,
        ),
        !('0' <= c <= '9') && s.len() > 0 ==> parsed_u32(s.push(c)) is None,
{
    assert(seq!['+'].skip(1).len() == 0);
    if s.len() > 0 && s[0] != '+' {
        let signed = seq!['+'] + s;
        assert(signed[0] == '+');
        assert(signed.skip(1) =~= s);
        let longer = s.push(c);
        assert(longer[0] == s[0]);
        assert(longer.drop_last() =~= s);
        if parsed_u32(s) is Some && '0' <= c <= '9' {
            assert forall|i: int| 0 <= i < longer.len() implies is_digit(#[trigger] longer[i]) by {
                if i < s.len() {
                    assert(longer[i] == s[i]);
                    assert(is_digit(s[i]));
                }
            }
        }
    }
    if !('0' <= c <= '9') && s.len() > 0 {
        let longer = s.push(c);
        let digits = unsigned_part(longer);
        assert(digits[digits.len() - 1] == c);
    }
}

/// The digits of a number are those of what is left without the last, followed by that
/// one, in each of the three notations; a number below the base is one digit.
pub proof fn law_last_digit_stands_last(n: nat, d: nat)
    ensures
        n > 0 && d < 10 ==> decimal_digits(n * 10 + d) == decimal_digits(n).push(
            digit_char(d as int),
        ),
        n > 0 && d < 16 ==> hex_digits(n * 16 + d) == hex_digits(n).push(
            crate::source_id::hex_char(d as u128),
        ),
        n > 0 && d < 2 ==> binary_digits(n * 2 + d) == binary_digits(n).push(digit_char(d as int)),
        d < 10 ==> decimal_digits(d).len() == 1 && decimal_digits(d)[0] as int == '0' as int + d,
        d < 2 ==> binary_digits(d).len() == 1 && binary_digits(d)[0] as int == '0' as int + d,
        d < 10 ==> hex_digits(d).len() == 1 && hex_digits(d)[0] as int == '0' as int + d,
        10 <= d < 16 ==> hex_digits(d).len() == 1 && hex_digits(d)[0] as int == 'a' as int + d - 10,
{
    assert((n * 10 + d) / 10 == n && (n * 10 + d) % 10 == d || d >= 10);
    assert((n * 16 + d) / 16 == n && (n * 16 + d) % 16 == d || d >= 16);
    assert((n * 2 + d) / 2 == n && (n * 2 + d) % 2 == d || d >= 2);
}

/// Capitals and small letters count alike, and no other characters do.
pub proof fn law_only_letters_have_a_case(c: char, d: char)
    ensures
        'A' <= c <= 'Z' ==> ascii_lower(c) as int == c as int + 32,
        !('A' <= c <= 'Z') ==> ascii_lower(c) == c,
        ascii_lower(ascii_lower(c)) == ascii_lower(c),
        ascii_lower(c) == ascii_lower(d) ==> c == d || c as int == d as int + 32 || d as int
            == c as int + 32,
{
}

/// A text is found wherever it stands in another, and at the end where it ends it.
pub proof fn law_text_is_found_where_it_stands(before: Seq<char>, needle: Seq<char>, behind: Seq<char>)
    ensures
        occurs(before + needle + behind, needle),
        ends_with(before + needle, needle),
        needle.len() > before.len() ==> !occurs(before, needle),
{
    let hay = before + needle + behind;
    assert(hay.subrange(before.len() as int, (before.len() + needle.len()) as int) =~= needle);
    assert(occurs_at(hay, needle, before.len() as int));
    let short = before + needle;
    assert(short.subrange(before.len() as int, (before.len() + needle.len()) as int) =~= needle);
}

/// Whether `needle` stands in `hay` at position `at`.
pub open spec fn occurs_at(hay: Seq<char>, needle: Seq<char>, at: int) -> bool {
    0 <= at && at + needle.len() <= hay.len() && hay.subrange(at, at + needle.len()) == needle
}

/// Whether `needle` stands anywhere in `hay`.
pub open spec fn occurs(hay: Seq<char>, needle: Seq<char>) -> bool {
    exists|at: int| occurs_at(hay, needle, at)
}

fn matches_at(hay: &Vec<char>, needle: &Vec<char>, at: usize) -> (r: bool)
    ensures
        r == occurs_at(hay@, needle@, at as int),
{
    let total: usize = hay.len();
    if needle.len() > total || at > total - needle.len() {
        return false;
    }
    let mut i: usize = 0;
    while i < needle.len()
        invariant
            i <= needle@.len(),
            total == hay@.len(),
            at + needle@.len() <= hay@.len(),
            hay@.subrange(at as int, at + i) =~= needle@.take(i as int),
        decreases needle@.len() - i,
    {
        if hay[at + i] != needle[i] {
            assert(hay@.subrange(at as int, at + needle@.len())[i as int] != needle@[i as int]);
            return false;
        }
        i += 1;
    }
    assert(needle@.take(i as int) =~= needle@);
    true
}

/// Whether `hay` contains `needle`.
pub fn contains_chars(hay: &Vec<char>, needle: &str) -> (r: bool)
    ensures
        r == occurs(hay@, needle@),
{
    let needle_chars = characters(needle);
    let mut at: usize = 0;
    while at <= hay.len()
        invariant
            at <= hay@.len() + 1,
            needle_chars@ == needle@,
            forall|j: int| 0 <= j < at ==> !occurs_at(hay@, needle@, j),
        decreases hay@.len() + 1 - at,
    {
        if matches_at(hay, &needle_chars, at) {
            return true;
        }
        if at == hay.len() {
            return false;
        }
        at += 1;
    }
    false
}

/// Whether `hay` contains `needle`.
pub fn contains_text(hay: &str, needle: &str) -> (r: bool)
    ensures
        r == occurs(hay@, needle@),
{
    let hay_chars = characters(hay);
    contains_chars(&hay_chars, needle)
}

/// Whether `hay` ends with `needle`.
pub open spec fn ends_with(hay: Seq<char>, needle: Seq<char>) -> bool {
    occurs_at(hay, needle, hay.len() - needle.len())
}

/// Whether `hay` ends with `needle`.
pub fn ends_with_text(hay: &Vec<char>, needle: &str) -> (r: bool)
    ensures
        r == ends_with(hay@, needle@),
{
    let needle_chars = characters(needle);
    if needle_chars.len() > hay.len() {
        return false;
    }
    matches_at(hay, &needle_chars, hay.len() - needle_chars.len())
}

/// `c` with the letters A to Z turned into a to z.
pub open spec fn ascii_lower(c: char) -> char {
    if 'A' <= c <= 'Z' {
        ((c as int) + 32) as char
    } else {
        c
    }
}

/// Lower-cases one ASCII letter and leaves every other character alone.
pub fn lower_char(c: char) -> (r: char)
    ensures
        r == ascii_lower(c),
{
    if 'A' <= c && c <= 'Z' {
        let code: u8 = c as u8 + 32;
        code as char
    } else {
        c
    }
}

/// Lower-cases the ASCII letters of `s`.
pub fn lower_chars(s: &Vec<char>) -> (r: Vec<char>)
    ensures
        r@ == s@.map_values(|c: char| ascii_lower(c)),
{
    let mut r: Vec<char> = Vec::new();
    let mut i: usize = 0;
    while i < s.len()
        invariant
            i <= s@.len(),
            r@ =~= s@.map_values(|c: char| ascii_lower(c)).take(i as int),
        decreases s@.len() - i,
    {
        r.push(lower_char(s[i]));
        i += 1;
    }
    assert(r@ =~= s@.map_values(|c: char| ascii_lower(c)));
    r
}

/// Whether two texts are equal up to the case of ASCII letters.
pub open spec fn equal_ignoring_case(a: Seq<char>, b: Seq<char>) -> bool {
    a.map_values(|c: char| ascii_lower(c)) == b.map_values(|c: char| ascii_lower(c))
}

/// Compares two texts up to the case of ASCII letters.
pub fn same_ignoring_case(a: &Vec<char>, b: &Vec<char>) -> (r: bool)
    ensures
        r == equal_ignoring_case(a@, b@),
{
    let ghost la = a@.map_values(|c: char| ascii_lower(c));
    let ghost lb = b@.map_values(|c: char| ascii_lower(c));
    if a.len() != b.len() {
        assert(la.len() != lb.len());
        return false;
    }
    let mut i: usize = 0;
    while i < a.len()
        invariant
            i <= a@.len(),
            a@.len() == b@.len(),
            la == a@.map_values(|c: char| ascii_lower(c)),
            lb == b@.map_values(|c: char| ascii_lower(c)),
            la.take(i as int) =~= lb.take(i as int),
        decreases a@.len() - i,
    {
        if lower_char(a[i]) != lower_char(b[i]) {
            assert(la[i as int] != lb[i as int]);
            return false;
        }
        assert(la.take(i + 1) =~= la.take(i as int).push(la[i as int]));
        assert(lb.take(i + 1) =~= lb.take(i as int).push(lb[i as int]));
        i += 1;
    }
    assert(la.take(i as int) =~= la);
    assert(lb.take(i as int) =~= lb);
    true
}

/// Compares two texts character by character.
pub fn same_text(a: &str, b: &str) -> (r: bool)
    ensures
        r == (a@ == b@),
{
    let left = characters(a);
    let right = characters(b);
    same_chars(&left, &right)
}

/// Compares two character vectors.
pub fn same_chars(a: &Vec<char>, b: &Vec<char>) -> (r: bool)
    ensures
        r == (a@ == b@),
{
    if a.len() != b.len() {
        return false;
    }
    let mut i: usize = 0;
    while i < a.len()
        invariant
            i <= a@.len(),
            a@.len() == b@.len(),
            forall|j: int| 0 <= j < i ==> a@[j] == b@[j],
        decreases a@.len() - i,
    {
        if a[i] != b[i] {
            return false;
        }
        i += 1;
    }
    assert(a@ =~= b@);
    true
}

/// Compares two byte vectors.
pub fn same_bytes(a: &Vec<u8>, b: &Vec<u8>) -> (r: bool)
    ensures
        r == (a@ == b@),
{
    if a.len() != b.len() {
        return false;
    }
    let mut i: usize = 0;
    while i < a.len()
        invariant
            i <= a@.len(),
            a@.len() == b@.len(),
            forall|j: int| 0 <= j < i ==> a@[j] == b@[j],
        decreases a@.len() - i,
    {
        if a[i] != b[i] {
            return false;
        }
        i += 1;
    }
    assert(a@ =~= b@);
    true
}

/// The two texts one after the other.
pub fn joined(a: &str, b: &str) -> (r: String)
    ensures
        r@ == a@ + b@,
{
    let mut r = a.to_owned();
    r.append(b);
    r
}

} // verus!
