//! Text: characters, trimming, splitting, joining, decimal numbers.
//!
//! A text is modelled by the sequence of its characters.
use vstd::prelude::*;

verus! {

/// `String::push` appends one character.
pub assume_specification[ String::push ](s: &mut String, c: char)
    ensures
        final(s)@ == old(s)@.push(c),
;

/// `==` on `str` compares the two texts character by character.
pub assume_specification[ <str as PartialEq<str>>::eq ](a: &str, b: &str) -> (same: bool)
    ensures
        same == (a@ == b@),
;

// ---------------------------------------------------------------------------
// Outcomes
// ---------------------------------------------------------------------------

/// A result with its texts taken as sequences of characters.
pub open spec fn outcome<T: DeepView>(r: Result<T, String>) -> Result<T::V, Seq<char>> {
    match r {
        Ok(value) => Ok(value.deep_view()),
        Err(message) => Err(message@),
    }
}

/// An optional text taken as an optional sequence of characters.
pub open spec fn text_option(o: Option<&str>) -> Option<Seq<char>> {
    match o {
        Some(s) => Some(s@),
        None => None,
    }
}

// ---------------------------------------------------------------------------
// Characters
// ---------------------------------------------------------------------------

/// The characters with the Unicode property `White_Space`.
pub open spec fn is_white(c: char) -> bool {
    ||| '\u{9}' <= c <= '\u{d}'
    ||| c == ' '
    ||| c == '\u{85}'
    ||| c == '\u{a0}'
    ||| c == '\u{1680}'
    ||| '\u{2000}' <= c <= '\u{200a}'
    ||| c == '\u{2028}'
    ||| c == '\u{2029}'
    ||| c == '\u{202f}'
    ||| c == '\u{205f}'
    ||| c == '\u{3000}'
}

/// Whether a character is white space.
pub fn white(c: char) -> (b: bool)
    ensures
        b == is_white(c),
{
    ('\u{9}' <= c && c <= '\u{d}') || c == ' ' || c == '\u{85}' || c == '\u{a0}' || c == '\u{1680}'
        || ('\u{2000}' <= c && c <= '\u{200a}') || c == '\u{2028}' || c == '\u{2029}' || c
        == '\u{202f}' || c == '\u{205f}' || c == '\u{3000}'
}

/// The lower-case form of an ASCII letter; any other character is itself.
pub open spec fn lower_char(c: char) -> char {
    if 'A' <= c <= 'Z' {
        ((c as u32) + 32) as char
    } else {
        c
    }
}

/// A text with its ASCII letters in lower case.
pub open spec fn lower(s: Seq<char>) -> Seq<char> {
    s.map_values(|c: char| lower_char(c))
}

/// A text without the character `c`.
pub open spec fn without_char(s: Seq<char>, c: char) -> Seq<char>
    decreases s.len(),
{
    if s.len() == 0 {
        s
    } else if s.last() == c {
        without_char(s.drop_last(), c)
    } else {
        without_char(s.drop_last(), c).push(s.last())
    }
}

/// The characters of a text, one by one.
pub fn chars_of(s: &str) -> (chars: Vec<char>)
    ensures
        chars@ == s@,
{
    let mut chars: Vec<char> = Vec::new();
    for c in it: s.chars()
        invariant
            it.seq() == s@,
            chars@ == s@.take(it.index() as int),
    {
        chars.push(c);
    }
    chars
}

/// The text made of the given characters.
pub fn text_of(chars: &[char]) -> (s: String)
    ensures
        s@ == chars@,
{
    let mut s = String::new();
    for i in 0..chars.len()
        invariant
            s@ == chars@.take(i as int),
    {
        s.push(chars[i]);
        assert(chars@.take(i + 1) =~= chars@.take(i as int).push(chars@[i as int]));
    }
    assert(chars@.take(chars@.len() as int) =~= chars@);
    s
}

/// A text with its ASCII letters in lower case.
pub fn lower_text(s: &str) -> (r: String)
    ensures
        r@ == lower(s@),
{
    let mut r = String::new();
    for c in it: s.chars()
        invariant
            it.seq() == s@,
            r@ == lower(s@.take(it.index() as int)),
    {
        let d: char = if 'A' <= c && c <= 'Z' {
            ((c as u8) + 32) as char
        } else {
            c
        };
        r.push(d);
        assert(lower(s@.take(it.index() + 1)) =~= lower(s@.take(it.index() as int)).push(
            lower_char(c),
        ));
    }
    assert(s@.take(s@.len() as int) =~= s@);
    r
}

/// A text without the character `c`.
pub fn drop_char(s: &str, c: char) -> (r: String)
    ensures
        r@ == without_char(s@, c),
{
    let mut r = String::new();
    for d in it: s.chars()
        invariant
            it.seq() == s@,
            r@ == without_char(s@.take(it.index() as int), c),
    {
        assert(s@.take(it.index() + 1).drop_last() =~= s@.take(it.index() as int));
        if d != c {
            r.push(d);
        }
    }
    assert(s@.take(s@.len() as int) =~= s@);
    r
}

/// Whether a text holds the character `c`.
pub fn has_char(s: &str, c: char) -> (b: bool)
    ensures
        b == s@.contains(c),
{
    let chars = chars_of(s);
    for i in 0..chars.len()
        invariant
            chars@ == s@,
            forall|j: int| 0 <= j < i ==> chars@[j] != c,
    {
        if chars[i] == c {
            return true;
        }
    }
    false
}

/// Whether `s` starts with `prefix`.
pub open spec fn begins_with(s: Seq<char>, prefix: Seq<char>) -> bool {
    prefix.len() <= s.len() && s.take(prefix.len() as int) == prefix
}

/// Whether `s` starts with `prefix`.
pub fn starts_with(s: &str, prefix: &str) -> (b: bool)
    ensures
        b == begins_with(s@, prefix@),
{
    let chars = chars_of(s);
    let first = chars_of(prefix);
    if chars.len() < first.len() {
        return false;
    }
    for i in 0..first.len()
        invariant
            chars@ == s@,
            first@ == prefix@,
            first@.len() <= chars@.len(),
            forall|j: int| 0 <= j < i ==> chars@[j] == first@[j],
    {
        if chars[i] != first[i] {
            assert(s@.take(prefix@.len() as int)[i as int] != prefix@[i as int]);
            return false;
        }
    }
    assert(s@.take(prefix@.len() as int) =~= prefix@);
    true
}

// ---------------------------------------------------------------------------
// White space
// ---------------------------------------------------------------------------

/// A text without the white space at its end.
pub open spec fn trimmed_end(s: Seq<char>) -> Seq<char>
    decreases s.len(),
{
    if s.len() > 0 && is_white(s.last()) {
        trimmed_end(s.drop_last())
    } else {
        s
    }
}

/// A text without the white space at its start.
pub open spec fn trimmed_start(s: Seq<char>) -> Seq<char>
    decreases s.len(),
{
    if s.len() > 0 && is_white(s[0]) {
        trimmed_start(s.drop_first())
    } else {
        s
    }
}

/// A text without the white space at its start and at its end.
pub open spec fn trimmed(s: Seq<char>) -> Seq<char> {
    trimmed_end(trimmed_start(s))
}

/// The words of a text: its longest stretches without white space.
pub open spec fn words(s: Seq<char>) -> Seq<Seq<char>>
    decreases s.len(),
{
    if s.len() == 0 {
        seq![]
    } else if is_white(s.last()) {
        words(s.drop_last())
    } else if s.len() == 1 || is_white(s[s.len() - 2]) {
        words(s.drop_last()).push(seq![s.last()])
    } else {
        let front = words(s.drop_last());
        front.drop_last().push(front.last().push(s.last()))
    }
}

/// Removes the white space at the end of a text.
pub fn trim_end(chars: &mut Vec<char>)
    ensures
        final(chars)@ == trimmed_end(old(chars)@),
{
    let ghost all = chars@;
    while chars.len() > 0 && white(chars[chars.len() - 1])
        invariant
            trimmed_end(chars@) == trimmed_end(all),
        decreases chars.len(),
    {
        let ghost before = chars@;
        chars.pop();
        assert(chars@ =~= before.drop_last());
    }
}

/// A text without the white space at its start and at its end.
pub fn trim(chars: &[char]) -> (r: Vec<char>)
    ensures
        r@ == trimmed(chars@),
{
    let ghost all = chars@;
    let mut i: usize = 0;
    assert(all.skip(0) =~= all);
    while i < chars.len() && white(chars[i])
        invariant
            all == chars@,
            i <= chars.len(),
            trimmed_start(all.skip(i as int)) == trimmed_start(all),
        decreases chars.len() - i,
    {
        assert(all.skip(i as int).drop_first() =~= all.skip(i + 1));
        assert(all.skip(i as int)[0] == all[i as int]);
        i += 1;
    }
    let mut r: Vec<char> = Vec::new();
    let start: usize = i;
    assert(trimmed_start(all) == all.skip(start as int)) by {
        if start < all.len() {
            assert(all.skip(start as int)[0] == all[start as int]);
        }
    }
    while i < chars.len()
        invariant
            all == chars@,
            start <= i <= chars.len(),
            r@ == all.subrange(start as int, i as int),
        decreases chars.len() - i,
    {
        r.push(chars[i]);
        i += 1;
        assert(r@ =~= all.subrange(start as int, i as int));
    }
    assert(all.subrange(start as int, all.len() as int) =~= all.skip(start as int));
    trim_end(&mut r);
    r
}

proof fn words_not_empty(s: Seq<char>)
    requires
        s.len() > 0,
        !is_white(s.last()),
    ensures
        words(s).len() > 0,
{
}

/// The words of a text.
pub fn split_words(chars: &[char]) -> (r: Vec<String>)
    ensures
        r.deep_view() == words(chars@),
{
    let ghost all = chars@;
    let mut r: Vec<String> = Vec::new();
    for i in 0..chars.len()
        invariant
            all == chars@,
            r.deep_view() == words(all.take(i as int)),
    {
        let ghost before = r.deep_view();
        let ghost old_words = r@;
        assert(before.len() == r@.len());
        assert(all.take(i + 1).drop_last() =~= all.take(i as int));
        let c: char = chars[i];
        if !white(c) {
            if i == 0 || white(chars[i - 1]) {
                let mut word = String::new();
                word.push(c);
                assert(word@ =~= seq![c]);
                r.push(word);
                assert(r.deep_view() =~= before.push(seq![c]));
            } else {
                proof {
                    words_not_empty(all.take(i as int));
                }
                match r.pop() {
                    Some(mut word) => {
                        assert(before.last() == old_words.last()@);
                        word.push(c);
                        let ghost longer = word@;
                        assert(r.deep_view() =~= before.drop_last());
                        r.push(word);
                        assert(r.deep_view() =~= before.drop_last().push(longer));
                    },
                    None => {
                        assert(false);
                    },
                }
            }
        }
    }
    assert(all.take(all.len() as int) =~= all);
    r
}

// ---------------------------------------------------------------------------
// Joining
// ---------------------------------------------------------------------------

/// The texts of `parts` one after the other with `separator` between them.
pub open spec fn joined(parts: Seq<Seq<char>>, separator: Seq<char>) -> Seq<char>
    decreases parts.len(),
{
    if parts.len() == 0 {
        Seq::empty()
    } else if parts.len() == 1 {
        parts[0]
    } else {
        joined(parts.drop_last(), separator) + separator + parts.last()
    }
}

/// Joins texts with a separator between them.
pub fn join_texts(parts: &[String], separator: &str) -> (r: String)
    ensures
        r@ == joined(parts.deep_view(), separator@),
{
    let mut r = String::new();
    let ghost all = parts.deep_view();
    for i in 0..parts.len()
        invariant
            all == parts.deep_view(),
            r@ == joined(all.take(i as int), separator@),
    {
        assert(all.take(i + 1).drop_last() =~= all.take(i as int));
        assert(all[i as int] == parts@[i as int]@);
        if i > 0 {
            r.append(separator);
        }
        let ghost before = r@;
        r.append(parts[i].as_str());
        assert(i == 0 ==> Seq::<char>::empty() + parts@[i as int]@ =~= parts@[i as int]@);
    }
    assert(all.take(all.len() as int) =~= all);
    r
}

// ---------------------------------------------------------------------------
// Decimal numbers
// ---------------------------------------------------------------------------

/// The decimal digit of `d`.
pub open spec fn digit(d: nat) -> char {
    (48 + d) as char
}

/// A number in decimal digits, without leading zeros.
pub open spec fn decimal(n: nat) -> Seq<char>
    decreases n,
{
    if n < 10 {
        seq![digit(n)]
    } else {
        decimal(n / 10).push(digit(n % 10))
    }
}

/// A number in decimal digits, behind a `-` where it is negative.
pub open spec fn signed_decimal(n: int) -> Seq<char> {
    if n < 0 {
        seq!['-'] + decimal((-n) as nat)
    } else {
        decimal(n as nat)
    }
}

/// A number in decimal digits.
pub fn decimal_text(n: u128) -> (s: String)
    ensures
        s@ == decimal(n as nat),
    decreases n,
{
    let last: u8 = (n % 10) as u8;
    let c: char = (48u8 + last) as char;
    if n < 10 {
        let mut s = String::new();
        s.push(c);
        assert(s@ =~= seq![digit(n as nat)]);
        s
    } else {
        let mut s = decimal_text(n / 10);
        s.push(c);
        s
    }
}

/// A number in decimal digits, behind a `-` where it is negative.
pub fn signed_decimal_text(n: i128) -> (s: String)
    ensures
        s@ == signed_decimal(n as int),
{
    if n < 0 {
        let magnitude: u128 = (-(n + 1)) as u128 + 1;
        let mut s = "-".to_owned();
        s.append(decimal_text(magnitude).as_str());
        proof {
            reveal_strlit("-");
            assert("-"@ =~= seq!['-']);
        }
        s
    } else {
        decimal_text(n as u128)
    }
}

/// Whether a character is an ASCII decimal digit.
pub open spec fn is_digit(c: char) -> bool {
    '0' <= c <= '9'
}

/// The number that a text of decimal digits stands for.
pub open spec fn digits_value(s: Seq<char>) -> nat
    decreases s.len(),
{
    if s.len() == 0 {
        0
    } else {
        digits_value(s.drop_last()) * 10 + (s.last() as nat - 48) as nat
    }
}

/// Whether a text is made of decimal digits, at least one.
pub open spec fn all_digits(s: Seq<char>) -> bool {
    s.len() > 0 && forall|i: int| 0 <= i < s.len() ==> is_digit(#[trigger] s[i])
}

/// The integer that a text stands for: decimal digits, behind `+`, `-` or no sign.
pub open spec fn integer_value(s: Seq<char>) -> Option<int> {
    if all_digits(s) {
        Some(digits_value(s) as int)
    } else if s.len() > 0 && s[0] == '+' && all_digits(s.drop_first()) {
        Some(digits_value(s.drop_first()) as int)
    } else if s.len() > 0 && s[0] == '-' && all_digits(s.drop_first()) {
        Some(-(digits_value(s.drop_first()) as int))
    } else {
        None
    }
}

/// The `i64` that a text stands for, where there is one.
pub open spec fn i64_value(s: Seq<char>) -> Option<i64> {
    match integer_value(s) {
        Some(n) => if i64::MIN <= n <= i64::MAX {
            Some(n as i64)
        } else {
            None
        },
        None => None,
    }
}

proof fn digits_value_grows(s: Seq<char>, i: int)
    requires
        all_digits(s),
        0 <= i <= s.len(),
    ensures
        digits_value(s.take(i)) <= digits_value(s),
    decreases s.len() - i,
{
    if i < s.len() {
        digits_value_grows(s, i + 1);
        assert(s.take(i + 1).drop_last() =~= s.take(i));
    } else {
        assert(s.take(i) =~= s);
    }
}

/// The largest magnitude of an `i64`.
const MAX_MAGNITUDE: u64 = 9_223_372_036_854_775_808;

/// The number that the digits behind `start` stand for, up to the largest magnitude of an `i64`.
fn parse_magnitude(chars: &[char], start: usize) -> (r: Option<u64>)
    requires
        start <= chars.len(),
    ensures
        r is Some <==> all_digits(chars@.skip(start as int)) && digits_value(
            chars@.skip(start as int),
        ) <= MAX_MAGNITUDE,
        r matches Some(n) ==> n == digits_value(chars@.skip(start as int)),
{
    let ghost s = chars@.skip(start as int);
    if start == chars.len() {
        return None;
    }
    let mut value: u64 = 0;
    for i in start..chars.len()
        invariant
            start <= i <= chars.len(),
            s == chars@.skip(start as int),
            value <= MAX_MAGNITUDE,
            value == digits_value(s.take(i - start)),
            forall|j: int| 0 <= j < i - start ==> is_digit(#[trigger] s[j]),
    {
        let c: char = chars[i];
        assert(s[i - start] == c);
        if !('0' <= c && c <= '9') {
            return None;
        }
        assert(s.take(i - start + 1).drop_last() =~= s.take(i - start));
        let next: u128 = value as u128 * 10 + (c as u32 as u128 - 48);
        assert(next == digits_value(s.take(i - start + 1)));
        if next > MAX_MAGNITUDE as u128 {
            proof {
                if all_digits(s) {
                    digits_value_grows(s, i - start + 1);
                }
            }
            return None;
        }
        value = next as u64;
    }
    assert(s.take(s.len() as int) =~= s);
    Some(value)
}

/// The `i64` that a text stands for, where there is one: decimal digits, behind `+`, `-` or no
/// sign.
pub fn parse_i64(s: &str) -> (r: Option<i64>)
    ensures
        r == i64_value(s@),
{
    let chars = chars_of(s);
    if chars.len() == 0 {
        return None;
    }
    let signed: bool = chars[0] == '+' || chars[0] == '-';
    let negative: bool = chars[0] == '-';
    let start: usize = if signed {
        1
    } else {
        0
    };
    assert(s@.skip(0) =~= s@);
    assert(s@.skip(1) =~= s@.drop_first());
    assert(signed ==> !is_digit(s@[0]));
    let magnitude = parse_magnitude(chars.as_slice(), start);
    match magnitude {
        None => None,
        Some(n) => if negative {
            Some((-(n as i128)) as i64)
        } else if n < MAX_MAGNITUDE {
            Some(n as i64)
        } else {
            None
        },
    }
}

/// A number in decimal digits stands for that number.
pub proof fn decimal_reads_back(n: nat)
    ensures
        all_digits(decimal(n)),
        digits_value(decimal(n)) == n,
    decreases n,
{
    let last = digit(n % 10);
    assert(is_digit(last) && last as nat - 48 == n % 10);
    if n < 10 {
        assert(decimal(n).drop_last() =~= seq![]);
        assert(digits_value(seq![]) == 0);
    } else {
        decimal_reads_back(n / 10);
        assert(decimal(n).drop_last() =~= decimal(n / 10));
        assert forall|i: int| 0 <= i < decimal(n).len() implies is_digit(
            #[trigger] decimal(n)[i],
        ) by {
            if i < decimal(n / 10).len() {
                assert(decimal(n)[i] == decimal(n / 10)[i]);
            }
        }
    }
}

/// A number in decimal digits behind its sign stands for that number.
pub proof fn signed_decimal_reads_back(n: int)
    ensures
        integer_value(signed_decimal(n)) == Some(n),
{
    if n < 0 {
        decimal_reads_back((-n) as nat);
        let s = signed_decimal(n);
        assert(s[0] == '-');
        assert(!is_digit(s[0]));
        assert(s.drop_first() =~= decimal((-n) as nat));
    } else {
        decimal_reads_back(n as nat);
    }
}

// ---------------------------------------------------------------------------
// What holds of texts
// ---------------------------------------------------------------------------

/// A text begins with another exactly where it is that text and some more.
pub proof fn beginning_means_more_behind(s: Seq<char>, prefix: Seq<char>, rest: Seq<char>)
    ensures
        begins_with(prefix + rest, prefix),
        begins_with(s, prefix) ==> s == prefix + s.skip(prefix.len() as int),
{
    assert((prefix + rest).take(prefix.len() as int) =~= prefix);
    if begins_with(s, prefix) {
        assert(s =~= s.take(prefix.len() as int) + s.skip(prefix.len() as int));
    }
}

/// Lower case changes ASCII capitals alone, each to its own small letter.
pub proof fn lower_changes_capitals_alone(s: Seq<char>, i: int)
    requires
        0 <= i < s.len(),
    ensures
        lower(s).len() == s.len(),
        !('A' <= s[i] <= 'Z') ==> lower(s)[i] == s[i],
        'A' <= s[i] <= 'Z' ==> lower(s)[i] as int == s[i] as int + 32,
{
}

/// Dropping a character keeps all others, in order.
pub proof fn dropping_keeps_all_others(s: Seq<char>, c: char, d: char)
    ensures
        without_char(s.push(d), c) == (if d == c {
            without_char(s, c)
        } else {
            without_char(s, c).push(d)
        }),
        !without_char(s, c).contains(c),
        !s.contains(c) ==> without_char(s, c) == s,
{
    assert(s.push(d).drop_last() =~= s);
    dropped_is_gone(s, c);
}

proof fn dropped_is_gone(s: Seq<char>, c: char)
    ensures
        !without_char(s, c).contains(c),
        !s.contains(c) ==> without_char(s, c) == s,
    decreases s.len(),
{
    if s.len() > 0 {
        let front = s.drop_last();
        dropped_is_gone(front, c);
        let kept = without_char(s, c);
        if kept.contains(c) {
            let i = choose|i: int| 0 <= i < kept.len() && kept[i] == c;
            if i < without_char(front, c).len() {
                assert(without_char(front, c)[i] == c);
            }
            assert(false);
        }
        if !s.contains(c) {
            if front.contains(c) {
                let i = choose|i: int| 0 <= i < front.len() && front[i] == c;
                assert(s[i] == c);
            }
            assert(s[s.len() - 1] != c);
            assert(s =~= front.push(s.last()));
        }
    }
}

/// Texts are joined in order, with the separator between any two of them and nowhere else.
pub proof fn joining_keeps_the_parts(parts: Seq<Seq<char>>, separator: Seq<char>, part: Seq<char>)
    ensures
        joined(seq![], separator) == Seq::<char>::empty(),
        parts.len() == 0 ==> joined(parts.push(part), separator) == part,
        parts.len() > 0 ==> joined(parts.push(part), separator) == joined(parts, separator)
            + separator + part,
{
    assert(parts.push(part).drop_last() =~= parts);
}

/// Trimming takes white space from the ends and nothing else: what is left begins and ends in none.
pub proof fn trimming_takes_white_space_alone(s: Seq<char>)
    ensures
        trimmed(s).len() > 0 ==> !is_white(trimmed(s)[0]) && !is_white(trimmed(s).last()),
        exists|a: Seq<char>, b: Seq<char>| #[trigger]
            (a + trimmed(s) + b) == s && (forall|i: int|
                0 <= i < a.len() ==> is_white(#[trigger] a[i])) && (forall|i: int|
                0 <= i < b.len() ==> is_white(#[trigger] b[i])),
{
    let started = trimmed_start(s);
    start_takes_white_space(s);
    end_takes_white_space(started);
    let a = s.take(s.len() - started.len());
    let t = trimmed(s);
    let b = started.skip(t.len() as int);
    assert(started =~= t + b);
    assert(s =~= a + started);
    assert(a + t + b =~= s);
    if t.len() > 0 {
        assert(t[0] == started[0]);
    }
}

proof fn start_takes_white_space(s: Seq<char>)
    ensures
        trimmed_start(s).len() <= s.len(),
        trimmed_start(s) == s.skip(s.len() - trimmed_start(s).len()),
        trimmed_start(s).len() > 0 ==> !is_white(trimmed_start(s)[0]),
        forall|i: int| 0 <= i < s.len() - trimmed_start(s).len() ==> is_white(#[trigger] s[i]),
    decreases s.len(),
{
    if s.len() > 0 && is_white(s[0]) {
        let rest = s.drop_first();
        start_takes_white_space(rest);
        let n = trimmed_start(s).len();
        assert(rest.skip(s.len() - 1 - n) =~= s.skip(s.len() - n));
        assert forall|i: int| 0 <= i < s.len() - n implies is_white(#[trigger] s[i]) by {
            if i > 0 {
                assert(rest[i - 1] == s[i]);
            }
        }
    } else {
        assert(s.skip(0) =~= s);
    }
}

proof fn end_takes_white_space(s: Seq<char>)
    ensures
        trimmed_end(s).len() <= s.len(),
        trimmed_end(s) == s.take(trimmed_end(s).len() as int),
        trimmed_end(s).len() > 0 ==> !is_white(trimmed_end(s).last()),
        forall|i: int| trimmed_end(s).len() <= i < s.len() ==> is_white(#[trigger] s[i]),
    decreases s.len(),
{
    if s.len() > 0 && is_white(s.last()) {
        let front = s.drop_last();
        end_takes_white_space(front);
        let n = trimmed_end(s).len() as int;
        assert(front.take(n) =~= s.take(n));
        assert forall|i: int| n <= i < s.len() implies is_white(#[trigger] s[i]) by {
            if i < s.len() - 1 {
                assert(front[i] == s[i]);
            }
        }
    } else {
        assert(s.take(s.len() as int) =~= s);
    }
}

/// A number in decimal digits has no zero in front, unless it is zero.
pub proof fn decimal_has_no_zero_in_front(n: nat)
    requires
        n > 0,
    ensures
        decimal(n).len() > 0 && decimal(n)[0] != '0',
    decreases n,
{
    if n >= 10 {
        decimal_has_no_zero_in_front(n / 10);
        assert(decimal(n)[0] == decimal(n / 10)[0]);
    } else {
        assert(digit(n) as int == 48 + n);
    }
}

/// A text stands for an `i64` exactly where it stands for an integer that is one, and for that one.
pub proof fn integers_are_read_in_range(s: Seq<char>)
    ensures
        i64_value(s) matches Some(n) ==> integer_value(s) == Some(n as int),
        i64_value(s) is None ==> !(integer_value(s) matches Some(n) && i64::MIN <= n <= i64::MAX),
{
}

/// A text stands for an integer exactly where it is decimal digits, at least one, behind `+`, `-` or
/// no sign; a digit more makes it ten times as much and that digit, and only `-` turns the sign.
pub proof fn integers_are_read_digit_by_digit(s: Seq<char>, d: nat)
    requires
        d < 10,
    ensures
        all_digits(s) ==> integer_value(s) == Some(digits_value(s) as int),
        all_digits(s) ==> integer_value(seq!['+'] + s) == Some(digits_value(s) as int),
        all_digits(s) ==> integer_value(seq!['-'] + s) == Some(-(digits_value(s) as int)),
        integer_value(s) is Some ==> all_digits(s) || (s.len() > 0 && (s[0] == '+' || s[0] == '-')
            && all_digits(s.drop_first())),
        digits_value(s.push(digit(d))) == digits_value(s) * 10 + d,
        digits_value(seq![]) == 0,
{
    assert((seq!['+'] + s).drop_first() =~= s);
    assert((seq!['-'] + s).drop_first() =~= s);
    assert((seq!['+'] + s)[0] == '+' && !is_digit('+'));
    assert((seq!['-'] + s)[0] == '-' && !is_digit('-'));
    assert(s.push(digit(d)).drop_last() =~= s);
    assert(digit(d) as int == 48 + d);
}

/// The words of a text hold no white space and are not empty.
pub proof fn words_hold_no_white_space(s: Seq<char>, i: int, j: int)
    requires
        0 <= i < words(s).len(),
        0 <= j < words(s)[i].len(),
    ensures
        !is_white(words(s)[i][j]),
    decreases s.len(),
{
    let front = s.drop_last();
    let before = words(front);
    if is_white(s.last()) {
        words_hold_no_white_space(front, i, j);
    } else if s.len() == 1 || is_white(s[s.len() - 2]) {
        if i < before.len() {
            words_hold_no_white_space(front, i, j);
        }
    } else {
        assert(front.last() == s[s.len() - 2]);
        words_not_empty(front);
        if i < before.len() - 1 {
            words_hold_no_white_space(front, i, j);
        } else if j < before.last().len() {
            words_hold_no_white_space(front, before.len() - 1, j);
        }
    }
}

/// Two texts that stand between the same texts and make the same whole are the same.
pub proof fn parts_between_are_alike(
    front: Seq<char>,
    a: Seq<char>,
    b: Seq<char>,
    behind: Seq<char>,
)
    requires
        front + a + behind == front + b + behind,
    ensures
        a == b,
{
    let one = front + a + behind;
    let two = front + b + behind;
    assert(one.len() == two.len());
    assert(a.len() == b.len());
    assert forall|i: int| 0 <= i < a.len() implies a[i] == b[i] by {
        assert(one[front.len() + i] == a[i]);
        assert(two[front.len() + i] == b[i]);
    }
    assert(a =~= b);
}

/// What was given, and a message, are taken as they are.
pub proof fn outcomes_are_taken_as_they_are<T: DeepView>(value: T, message: String)
    ensures
        outcome(Ok(value)) == Ok::<T::V, Seq<char>>(value.deep_view()),
        outcome::<T>(Err(message)) == Err::<T::V, Seq<char>>(message@),
        text_option(None) is None,
        forall|s: &str| #[trigger] text_option(Some(s)) == Some(s@),
{
}

/// Different numbers have different digits.
pub proof fn decimals_differ(a: nat, b: nat)
    requires
        decimal(a) == decimal(b),
    ensures
        a == b,
{
    decimal_reads_back(a);
    decimal_reads_back(b);
}

/// White space is these characters, by their numbers, and no others.
pub proof fn white_space_is_these(c: char)
    ensures
        is_white(c) <==> {
            let n = c as int;
            9 <= n <= 13 || n == 32 || n == 133 || n == 160 || n == 5760 || 8192 <= n <= 8202 || n
                == 8232 || n == 8233 || n == 8239 || n == 8287 || n == 12288
        },
{
}

} // verus!
