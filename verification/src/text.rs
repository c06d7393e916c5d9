//! Reading numbers and flags out of configured text.

use vstd::prelude::*;
use vstd::string::*;

verus! {

/// The value of `c` as a digit in base `radix`, if it is one. Letters count from ten upwards,
/// in either case.
pub open spec fn digit_value(c: char, radix: nat) -> Option<nat> {
    let value: nat = if '0' <= c <= '9' {
        (c as int - '0' as int) as nat
    } else if 'a' <= c <= 'z' {
        (c as int - 'a' as int + 10) as nat
    } else if 'A' <= c <= 'Z' {
        (c as int - 'A' as int + 10) as nat
    } else {
        radix
    };
    if value < radix {
        Some(value)
    } else {
        None
    }
}

/// Whether every character of `s` is a digit in base `radix`.
pub open spec fn all_digits(s: Seq<char>, radix: nat) -> bool {
    forall|i: int| 0 <= i < s.len() ==> digit_value(#[trigger] s[i], radix) is Some
}

/// The number that the digits `s` write in base `radix`, most significant digit first.
pub open spec fn positional_value(s: Seq<char>, radix: nat) -> nat
    decreases s.len(),
{
    if s.len() == 0 {
        0
    } else {
        positional_value(s.drop_last(), radix) * radix + digit_value(s.last(), radix)->0
    }
}

/// The digits of a number: `s` without its plus sign, where it has one.
pub open spec fn without_plus(s: Seq<char>) -> Seq<char> {
    if s.len() > 0 && s[0] == '+' {
        s.skip(1)
    } else {
        s
    }
}

/// The number that `s` writes in base `radix`: an optional plus sign and at least one digit,
/// nothing else, with a value of at most `max`.
pub open spec fn number_in(s: Seq<char>, radix: nat, max: nat) -> Option<nat> {
    let digits = without_plus(s);
    if digits.len() > 0 && all_digits(digits, radix) && positional_value(digits, radix) <= max {
        Some(positional_value(digits, radix))
    } else {
        None
    }
}

fn digit(c: char, radix: u32) -> (r: Option<u32>)
    requires
        2 <= radix <= 36,
    ensures
        match r {
            Some(d) => digit_value(c, radix as nat) == Some(d as nat),
            None => digit_value(c, radix as nat) is None,
        },
{
    let value: u32 = if '0' <= c && c <= '9' {
        c as u32 - '0' as u32
    } else if 'a' <= c && c <= 'z' {
        c as u32 - 'a' as u32 + 10
    } else if 'A' <= c && c <= 'Z' {
        c as u32 - 'A' as u32 + 10
    } else {
        radix
    };
    if value < radix {
        Some(value)
    } else {
        None
    }
}

/// Digits that follow a number never make it smaller.
proof fn lemma_value_of_prefix(s: Seq<char>, n: int, radix: nat)
    requires
        0 <= n <= s.len(),
        radix >= 1,
    ensures
        positional_value(s.take(n), radix) <= positional_value(s, radix),
    decreases s.len() - n,
{
    if n < s.len() {
        let longer = s.take(n + 1);
        assert(longer.drop_last() =~= s.take(n));
        let v = positional_value(s.take(n), radix);
        assert(v <= v * radix) by (nonlinear_arith)
            requires
                radix >= 1,
        ;
        lemma_value_of_prefix(s, n + 1, radix);
    } else {
        assert(s.take(n) =~= s);
    }
}

/// Reads the number that `s` writes in base `radix`, if it writes one that is at most `max`.
pub fn parse_number(s: &str, radix: u32, max: u64) -> (r: Option<u64>)
    requires
        2 <= radix <= 36,
    ensures
        match r {
            Some(n) => number_in(s@, radix as nat, max as nat) == Some(n as nat),
            None => number_in(s@, radix as nat, max as nat) is None,
        },
{
    let len: usize = s.unicode_len();
    let start: usize = if len > 0 && s.get_char(0) == '+' { 1 } else { 0 };
    let ghost digits = without_plus(s@);
    assert(digits == s@.subrange(start as int, len as int));
    if start == len {
        return None;
    }
    let body = s.substring_char(start, len);
    let mut value: u64 = 0;
    for c in it: body.chars()
        invariant
            2 <= radix <= 36,
            digits == without_plus(s@),
            it.seq() == digits,
            all_digits(digits.take(it.index()), radix as nat),
            value == positional_value(digits.take(it.index()), radix as nat),
            value <= max,
    {
        let ghost n = it.index();
        assert(digits[n] == c);
        assert(digits.take(n + 1).drop_last() =~= digits.take(n));
        match digit(c, radix) {
            None => {
                return None;
            },
            Some(d) => {
                assert(value * radix + d <= u64::MAX * 36 + 36) by (nonlinear_arith)
                    requires
                        value <= u64::MAX,
                        radix <= 36,
                        d < radix,
                ;
                let next: u128 = value as u128 * radix as u128 + d as u128;
                assert(next == positional_value(digits.take(n + 1), radix as nat));
                assert(all_digits(digits.take(n + 1), radix as nat)) by {
                    assert forall|k: int| 0 <= k < n + 1 implies digit_value(
                        #[trigger] digits.take(n + 1)[k],
                        radix as nat,
                    ) is Some by {
                        if k < n {
                            assert(digits.take(n)[k] == digits[k]);
                        }
                    }
                }
                if next > max as u128 {
                    proof {
                        lemma_value_of_prefix(digits, n + 1, radix as nat);
                    }
                    return None;
                }
                value = next as u64;
            },
        }
    }
    assert(digits.take(digits.len() as int) =~= digits);
    Some(value)
}


/// The code points with the Unicode property `White_Space`.
pub open spec fn is_white_space(c: char) -> bool {
    ||| '\u{9}' <= c <= '\u{d}'
    ||| c == '\u{20}'
    ||| c == '\u{85}'
    ||| c == '\u{a0}'
    ||| c == '\u{1680}'
    ||| '\u{2000}' <= c <= '\u{200a}'
    ||| c == '\u{2028}'
    ||| c == '\u{2029}'
    ||| c == '\u{202f}'
    ||| c == '\u{205f}'
    ||| c == '\u{3000}'
}

/// `s` without the white space that it starts with.
pub open spec fn trimmed_start(s: Seq<char>) -> Seq<char>
    decreases s.len(),
{
    if s.len() > 0 && is_white_space(s.first()) {
        trimmed_start(s.drop_first())
    } else {
        s
    }
}

/// `s` without the white space that it ends with.
pub open spec fn trimmed_end(s: Seq<char>) -> Seq<char>
    decreases s.len(),
{
    if s.len() > 0 && is_white_space(s.last()) {
        trimmed_end(s.drop_last())
    } else {
        s
    }
}

/// `s` without the white space at its two ends.
pub open spec fn trimmed(s: Seq<char>) -> Seq<char> {
    trimmed_end(trimmed_start(s))
}

/// `str::trim` removes the characters with the Unicode property `White_Space` from both ends of
/// a string and touches nothing in between.
pub assume_specification[ str::trim ](s: &str) -> (r: &str)
    ensures
        r@ == trimmed(s@),
;

/// The result of `str::to_lowercase`, which goes by the Unicode case tables.
pub uninterp spec fn lowercase(s: Seq<char>) -> Seq<char>;

/// The lower case of an ASCII character.
pub open spec fn ascii_lowercase(c: char) -> char {
    if 'A' <= c <= 'Z' {
        (c as int - 'A' as int + 'a' as int) as char
    } else {
        c
    }
}

/// `str::to_lowercase` is a function of the text alone. Of ASCII text it lowers the letters, one
/// for one, and keeps every other character. What it does to other characters is left to the
/// Unicode case tables.
pub assume_specification[ str::to_lowercase ](s: &str) -> (r: String)
    ensures
        r@ == lowercase(s@),
        vstd::utf8::is_ascii_chars(s@) ==> r@ == s@.map_values(|c: char| ascii_lowercase(c)),
;

/// `str` compares equal to another exactly when both hold the same characters.
pub assume_specification[ <str as PartialEq>::eq ](s: &str, other: &str) -> (r: bool)
    ensures
        r == (s@ == other@),
;

/// Whether two strings hold the same characters.
pub fn same_text(a: &str, b: &str) -> (r: bool)
    ensures
        r == (a@ == b@),
{
    *a == *b
}

/// The characters of an optional string.
pub open spec fn text_view(text: Option<String>) -> Option<Seq<char>> {
    match text {
        Some(s) => Some(s@),
        None => None,
    }
}

/// A copy of an optional string.
pub fn clone_text(text: &Option<String>) -> (r: Option<String>)
    ensures
        text_view(r) == text_view(*text),
{
    match text {
        Some(s) => Some(s.clone()),
        None => None,
    }
}

/// Whether the lower case of a flag is the word that turns it on.
pub fn is_true(lowered: &str) -> (r: bool)
    ensures
        r == (lowered@ == "true"@),
{
    same_text(lowered, "true")
}

/// Whether a configured flag is on: its lower case is the word `true`. The lower case of ASCII
/// text is spelled out, that of any other text goes by the Unicode case tables.
pub open spec fn flag_in(raw: Seq<char>) -> bool {
    if vstd::utf8::is_ascii_chars(raw) {
        raw.map_values(|c: char| ascii_lowercase(c)) == "true"@
    } else {
        lowercase(raw) == "true"@
    }
}

/// Reads a configured flag.
pub fn parse_flag(raw: &str) -> (r: bool)
    ensures
        r == flag_in(raw@),
{
    let lowered = raw.to_lowercase();
    is_true(lowered.as_str())
}

/// Whether `s` starts with the mark of a hexadecimal number, in either case.
pub open spec fn has_hex_prefix(s: Seq<char>) -> bool {
    s.len() >= 2 && s[0] == '0' && (s[1] == 'x' || s[1] == 'X')
}

/// The protocol version that a configured value stands for. White space around it does not
/// count. After `0x` the value is hexadecimal; a bare value is hexadecimal where it can be read
/// so, and decimal otherwise.
pub open spec fn protocol_version_in(raw: Seq<char>) -> Option<nat> {
    let s = trimmed(raw);
    if has_hex_prefix(s) {
        number_in(s.skip(2), 16, u32::MAX as nat)
    } else if number_in(s, 16, u32::MAX as nat) is Some {
        number_in(s, 16, u32::MAX as nat)
    } else {
        number_in(s, 10, u32::MAX as nat)
    }
}

fn parse_u32(s: &str, radix: u32) -> (r: Option<u32>)
    requires
        2 <= radix <= 36,
    ensures
        match r {
            Some(n) => number_in(s@, radix as nat, u32::MAX as nat) == Some(n as nat),
            None => number_in(s@, radix as nat, u32::MAX as nat) is None,
        },
{
    match parse_number(s, radix, u32::MAX as u64) {
        Some(n) => Some(n as u32),
        None => None,
    }
}

/// Parse a configured protocol version. Accepts either a hex value (with or
/// without a `0x` prefix, matching how the client encodes it on the query
/// string, e.g. `56`) or a plain decimal value.
pub fn parse_protocol_version(raw: &str) -> (r: Option<u32>)
    ensures
        match r {
            Some(n) => protocol_version_in(raw@) == Some(n as nat),
            None => protocol_version_in(raw@) is None,
        },
{
    let s = raw.trim();
    let len: usize = s.unicode_len();
    if len >= 2 && s.get_char(0) == '0' && (s.get_char(1) == 'x' || s.get_char(1) == 'X') {
        assert(s@.skip(2) =~= s@.subrange(2, len as int));
        return parse_u32(s.substring_char(2, len), 16);
    }
    // Bare value: try hex first (the client's on-wire encoding), then decimal.
    match parse_u32(s, 16) {
        Some(n) => Some(n),
        None => parse_u32(s, 10),
    }
}

/// What starts and ends with something other than white space is already trimmed.
proof fn lemma_already_trimmed(s: Seq<char>)
    requires
        s.len() > 0 ==> !is_white_space(s.first()) && !is_white_space(s.last()),
    ensures
        trimmed(s) == s,
{
}

/// A number starts and ends with something other than white space.
proof fn lemma_number_is_trimmed(s: Seq<char>, radix: nat, max: nat)
    requires
        2 <= radix <= 36,
        number_in(s, radix, max) is Some,
    ensures
        s.len() > 0,
        trimmed(s) == s,
        !has_hex_prefix(s) || radix > 33,
{
    let digits = without_plus(s);
    assert(digit_value(digits[0], radix) is Some);
    assert(digit_value(digits.last(), radix) is Some);
    assert(digits.last() == s.last());
    if s.len() >= 2 && s[0] != '+' {
        assert(digit_value(digits[1], radix) is Some);
    }
    lemma_already_trimmed(s);
}

/// The mark `0x` is optional, and may be written in either case: a value that can be read as
/// hexadecimal stands for the same version with it and without it.
pub proof fn law_hex_prefix_is_optional(s: Seq<char>)
    requires
        number_in(s, 16, u32::MAX as nat) is Some,
    ensures
        protocol_version_in(s) == number_in(s, 16, u32::MAX as nat),
        protocol_version_in(seq!['0', 'x'] + s) == protocol_version_in(s),
        protocol_version_in(seq!['0', 'X'] + s) == protocol_version_in(s),
{
    lemma_number_is_trimmed(s, 16, u32::MAX as nat);
    assert(!is_white_space(s.last())) by {
        let digits = without_plus(s);
        assert(digit_value(digits.last(), 16) is Some);
        assert(digits.last() == s.last());
    }
    let lower = seq!['0', 'x'] + s;
    let upper = seq!['0', 'X'] + s;
    assert(lower.last() == s.last() && upper.last() == s.last());
    lemma_already_trimmed(lower);
    lemma_already_trimmed(upper);
    assert(lower.skip(2) =~= s);
    assert(upper.skip(2) =~= s);
}

proof fn lemma_trimmed_start_of_blank(blank: Seq<char>, s: Seq<char>)
    requires
        forall|i: int| 0 <= i < blank.len() ==> is_white_space(#[trigger] blank[i]),
    ensures
        trimmed_start(blank + s) == trimmed_start(s),
    decreases blank.len(),
{
    if blank.len() > 0 {
        let rest = blank.drop_first();
        assert forall|i: int| 0 <= i < rest.len() implies is_white_space(#[trigger] rest[i]) by {
            assert(rest[i] == blank[i + 1]);
        }
        assert((blank + s).first() == blank[0]);
        assert((blank + s).drop_first() =~= rest + s);
        lemma_trimmed_start_of_blank(rest, s);
    } else {
        assert(blank + s =~= s);
    }
}

proof fn lemma_trimmed_end_of_blank(s: Seq<char>, blank: Seq<char>)
    requires
        forall|i: int| 0 <= i < blank.len() ==> is_white_space(#[trigger] blank[i]),
    ensures
        trimmed_end(s + blank) == trimmed_end(s),
    decreases blank.len(),
{
    if blank.len() > 0 {
        let rest = blank.drop_last();
        assert forall|i: int| 0 <= i < rest.len() implies is_white_space(#[trigger] rest[i]) by {
            assert(rest[i] == blank[i]);
        }
        assert((s + blank).last() == blank.last());
        assert(is_white_space(blank[blank.len() - 1]));
        assert((s + blank).drop_last() =~= s + rest);
        lemma_trimmed_end_of_blank(s, rest);
    } else {
        assert(s + blank =~= s);
    }
}

proof fn lemma_trimmed_start_before_blank(s: Seq<char>, blank: Seq<char>)
    requires
        forall|i: int| 0 <= i < blank.len() ==> is_white_space(#[trigger] blank[i]),
    ensures
        trimmed_start(s + blank) == if trimmed_start(s).len() > 0 {
            trimmed_start(s) + blank
        } else {
            Seq::empty()
        },
    decreases s.len(),
{
    if s.len() > 0 {
        assert((s + blank).first() == s[0]);
        if is_white_space(s[0]) {
            assert((s + blank).drop_first() =~= s.drop_first() + blank);
            lemma_trimmed_start_before_blank(s.drop_first(), blank);
        }
    } else {
        lemma_trimmed_start_of_blank(blank, Seq::empty());
        assert(s + blank =~= blank + Seq::<char>::empty());
    }
}

/// White space around a configured version does not count.
pub proof fn law_white_space_does_not_count(before: Seq<char>, s: Seq<char>, after: Seq<char>)
    requires
        forall|i: int| 0 <= i < before.len() ==> is_white_space(#[trigger] before[i]),
        forall|i: int| 0 <= i < after.len() ==> is_white_space(#[trigger] after[i]),
    ensures
        protocol_version_in(before + s + after) == protocol_version_in(s),
{
    assert(before + s + after =~= before + (s + after));
    lemma_trimmed_start_of_blank(before, s + after);
    lemma_trimmed_start_before_blank(s, after);
    if trimmed_start(s).len() > 0 {
        lemma_trimmed_end_of_blank(trimmed_start(s), after);
    } else {
        assert(trimmed_start(s) =~= Seq::empty());
    }
    assert(trimmed(before + s + after) == trimmed(s));
}

/// Hexadecimal digits write less than sixteen to the power of their number, and at least
/// sixteen to the power of one less where the first of them is not zero.
proof fn lemma_hex_size(s: Seq<char>)
    requires
        s.len() > 0,
        all_digits(s, 16),
    ensures
        positional_value(s, 16) < vstd::arithmetic::power::pow(16, s.len()),
        s[0] != '0' ==> positional_value(s, 16) >= vstd::arithmetic::power::pow(
            16,
            (s.len() - 1) as nat,
        ),
    decreases s.len(),
{
    broadcast use vstd::arithmetic::power::lemma_pow0;

    let rest = s.drop_last();
    assert(digit_value(s.last(), 16) is Some);
    assert(vstd::arithmetic::power::pow(16, s.len()) == 16 * vstd::arithmetic::power::pow(
        16,
        rest.len(),
    )) by {
        reveal(vstd::arithmetic::power::pow);
    }
    if rest.len() > 0 {
        assert forall|i: int| 0 <= i < rest.len() implies digit_value(
            #[trigger] rest[i],
            16,
        ) is Some by {
            assert(rest[i] == s[i]);
        }
        lemma_hex_size(rest);
        assert(vstd::arithmetic::power::pow(16, rest.len()) == 16 * vstd::arithmetic::power::pow(
            16,
            (rest.len() - 1) as nat,
        )) by {
            reveal(vstd::arithmetic::power::pow);
        }
    } else {
        assert(positional_value(rest, 16) == 0);
    }
}

/// A bare run of decimal digits without leading zeros is read as hexadecimal where it has at
/// most eight of them. With more it is too large for that, and is read as decimal.
pub proof fn law_eight_digits_are_hexadecimal(s: Seq<char>)
    requires
        s.len() > 0,
        all_digits(s, 10),
        s[0] != '0',
    ensures
        s.len() <= 8 ==> protocol_version_in(s) == Some(positional_value(s, 16)),
        s.len() > 8 ==> protocol_version_in(s) == number_in(s, 10, u32::MAX as nat),
{
    assert(digit_value(s[0], 10) is Some);
    assert(digit_value(s[s.len() - 1], 10) is Some);
    if s.len() >= 2 {
        assert(digit_value(s[1], 10) is Some);
    }
    lemma_already_trimmed(s);
    assert forall|i: int| 0 <= i < s.len() implies digit_value(#[trigger] s[i], 16) is Some by {
        assert(digit_value(s[i], 10) is Some);
    }
    lemma_hex_size(s);
    assert(vstd::arithmetic::power::pow(16, 8) == 0x1_0000_0000) by {
        reveal_with_fuel(vstd::arithmetic::power::pow, 9);
    }
    if s.len() <= 8 {
        vstd::arithmetic::power::lemma_pow_increases(16, s.len(), 8);
    } else {
        vstd::arithmetic::power::lemma_pow_increases(16, 8, (s.len() - 1) as nat);
    }
}

/// A single character is a number exactly where it is a digit of the base: the decimal digits,
/// then the letters, in either case.
pub proof fn law_digits(c: char, radix: nat, max: nat)
    requires
        2 <= radix <= 36,
        max >= 35,
    ensures
        '0' <= c <= '9' && c as int - ('0' as int) < radix ==> number_in(seq![c], radix, max)
            == Some((c as int - '0' as int) as nat),
        'a' <= c <= 'z' && c as int - 'a' as int + 10 < radix ==> number_in(seq![c], radix, max)
            == Some((c as int - 'a' as int + 10) as nat),
        'A' <= c <= 'Z' && c as int - 'A' as int + 10 < radix ==> number_in(seq![c], radix, max)
            == Some((c as int - 'A' as int + 10) as nat),
        !('0' <= c <= '9' && c as int - ('0' as int) < radix) && !('a' <= c <= 'z' && c as int
            - 'a' as int + 10 < radix) && !('A' <= c <= 'Z' && c as int - 'A' as int + 10 < radix)
            ==> number_in(seq![c], radix, max) is None,
{
    let s = seq![c];
    assert(s.drop_last() =~= Seq::empty());
    assert(s.last() == c);
    assert(positional_value(s.drop_last(), radix) == 0);
    if s[0] == '+' {
        assert(s.skip(1) =~= Seq::empty());
    } else {
        assert(without_plus(s) == s);
        if digit_value(c, radix) is None {
            assert(digit_value(s[0], radix) is None);
        }
    }
}

/// A digit more multiplies a number by the base and adds the digit; anything else that follows a
/// number makes it no number.
pub proof fn law_numbers_grow_by_digits(
    s: Seq<char>,
    c: char,
    radix: nat,
    n: nat,
    some_max: nat,
    max: nat,
)
    requires
        2 <= radix <= 36,
        number_in(s, radix, some_max) == Some(n),
    ensures
        '0' <= c <= '9' && c as int - ('0' as int) < radix ==> number_in(s.push(c), radix, max)
            == if n * radix + (c as int - '0' as int) <= max {
            Some((n * radix + (c as int - '0' as int)) as nat)
        } else {
            None
        },
        'a' <= c <= 'z' && c as int - 'a' as int + 10 < radix ==> number_in(
            s.push(c),
            radix,
            max,
        ) == if n * radix + (c as int - 'a' as int + 10) <= max {
            Some((n * radix + (c as int - 'a' as int + 10)) as nat)
        } else {
            None
        },
        'A' <= c <= 'Z' && c as int - 'A' as int + 10 < radix ==> number_in(
            s.push(c),
            radix,
            max,
        ) == if n * radix + (c as int - 'A' as int + 10) <= max {
            Some((n * radix + (c as int - 'A' as int + 10)) as nat)
        } else {
            None
        },
        !('0' <= c <= '9' && c as int - ('0' as int) < radix) && !('a' <= c <= 'z' && c as int
            - 'a' as int + 10 < radix) && !('A' <= c <= 'Z' && c as int - 'A' as int + 10 < radix)
            ==> number_in(s.push(c), radix, max) is None,
{
    let digits = without_plus(s);
    let longer = without_plus(s.push(c));
    assert(longer =~= digits.push(c));
    assert(longer.drop_last() =~= digits);
    assert(longer[digits.len() as int] == c);
    assert forall|i: int| 0 <= i < digits.len() implies digit_value(
        #[trigger] longer[i],
        radix,
    ) is Some by {
        assert(digit_value(digits[i], radix) is Some);
    }
    if digit_value(c, radix) is None {
        assert(!all_digits(longer, radix));
    } else {
        assert(all_digits(longer, radix));
    }
}

/// Nothing that holds a character other than a digit of the base is a number, but for a plus
/// sign at its start.
pub proof fn law_numbers_hold_only_digits(s: Seq<char>, i: int, radix: nat, max: nat)
    requires
        2 <= radix <= 36,
        0 <= i < s.len(),
        i > 0 || s[0] != '+',
        !('0' <= s[i] <= '9' && s[i] as int - ('0' as int) < radix),
        !('a' <= s[i] <= 'z' && s[i] as int - 'a' as int + 10 < radix),
        !('A' <= s[i] <= 'Z' && s[i] as int - 'A' as int + 10 < radix),
    ensures
        number_in(s, radix, max) is None,
{
    let digits = without_plus(s);
    if s[0] == '+' {
        assert(digits[i - 1] == s[i]);
    } else {
        assert(digits[i] == s[i]);
    }
}

/// One plus sign may stand before a number, and makes no difference; alone, or before another,
/// it is no number. Neither is the empty text.
pub proof fn law_plus_signs(s: Seq<char>, radix: nat, max: nat)
    requires
        2 <= radix <= 36,
    ensures
        s.len() > 0 && s[0] != '+' ==> number_in(seq!['+'] + s, radix, max) == number_in(
            s,
            radix,
            max,
        ),
        s.len() > 0 && s[0] == '+' ==> number_in(seq!['+'] + s, radix, max) is None,
        number_in(seq!['+'], radix, max) is None,
        number_in(Seq::empty(), radix, max) is None,
{
    let signed = seq!['+'] + s;
    assert(signed.skip(1) =~= s);
    assert(seq!['+'].skip(1) =~= Seq::empty());
    if s.len() > 0 && s[0] == '+' {
        assert(digit_value(s[0], radix) is None);
        assert(without_plus(signed)[0] == '+');
    }
}

/// The limit decides only whether a number is accepted, not which number it is.
pub proof fn law_limits_accept_or_reject(s: Seq<char>, radix: nat, max: nat, other: nat)
    ensures
        number_in(s, radix, max) matches Some(n) ==> {
            &&& n <= max
            &&& number_in(s, radix, other) == if n <= other {
                Some(n)
            } else {
                None
            }
        },
{
}

/// An ASCII flag is on exactly where its four letters spell `true`, each in either case.
pub proof fn law_flags_spell_true(raw: Seq<char>)
    requires
        vstd::utf8::is_ascii_chars(raw),
    ensures
        flag_in(raw) <==> {
            &&& raw.len() == 4
            &&& raw[0] == 't' || raw[0] == 'T'
            &&& raw[1] == 'r' || raw[1] == 'R'
            &&& raw[2] == 'u' || raw[2] == 'U'
            &&& raw[3] == 'e' || raw[3] == 'E'
        },
{
    reveal_strlit("true");
    let lowered = raw.map_values(|c: char| ascii_lowercase(c));
    assert("true"@ =~= seq!['t', 'r', 'u', 'e']);
    if lowered == "true"@ {
        assert(lowered[0] == 't' && lowered[1] == 'r' && lowered[2] == 'u' && lowered[3] == 'e');
    }
    if raw.len() == 4 && (raw[0] == 't' || raw[0] == 'T') && (raw[1] == 'r' || raw[1] == 'R') && (
    raw[2] == 'u' || raw[2] == 'U') && (raw[3] == 'e' || raw[3] == 'E') {
        assert(lowered =~= "true"@);
    }
}

/// A configured version without white space at its ends: after `0x` or `0X` it is read as
/// hexadecimal and in no other way; otherwise as hexadecimal where that can be, and else as
/// decimal.
pub proof fn law_versions_are_hexadecimal_before_decimal(raw: Seq<char>)
    requires
        raw.len() > 0,
        '!' <= raw[0] <= '~' || '\u{a1}' <= raw[0] < '\u{1680}' || raw[0] > '\u{3000}',
        '!' <= raw.last() <= '~' || '\u{a1}' <= raw.last() < '\u{1680}' || raw.last() > '\u{3000}',
    ensures
        protocol_version_in(raw) == if raw.len() >= 2 && raw[0] == '0' && (raw[1] == 'x' || raw[1]
            == 'X') {
            number_in(raw.skip(2), 16, 0xffff_ffff)
        } else if number_in(raw, 16, 0xffff_ffff) is Some {
            number_in(raw, 16, 0xffff_ffff)
        } else {
            number_in(raw, 10, 0xffff_ffff)
        },
        protocol_version_in(seq![' '] + raw) == protocol_version_in(raw),
        protocol_version_in(raw.push('\n')) == protocol_version_in(raw),
        protocol_version_in(Seq::empty()) is None,
{
    lemma_already_trimmed(raw);
    law_white_space_does_not_count(seq![' '], raw, Seq::empty());
    assert(seq![' '] + raw + Seq::<char>::empty() =~= seq![' '] + raw);
    law_white_space_does_not_count(Seq::empty(), raw, seq!['\n']);
    assert(Seq::<char>::empty() + raw + seq!['\n'] =~= raw.push('\n'));
}

} // verus!
