//! Reading and writing the text the tool exchanges with people.

use vstd::prelude::*;
use vstd::string::*;

verus! {

/// `String::push` appends one character.
pub assume_specification[ String::push ](s: &mut String, c: char)
    ensures
        final(s)@ == old(s)@.push(c),
;

/// The text that `Debug` writes for a string: the string in double quotes, with
/// what cannot be printed as it is escaped.
pub uninterp spec fn quoted_text(text: Seq<char>) -> Seq<char>;

/// Quotes a piece of user input for a message, as the standard library's `Debug`
/// for `str` does. What it writes depends on the text alone and has a name here;
/// how it escapes is not stated.
#[verifier::external_body]
pub(crate) fn quoted(text: &str) -> (out: String)
    ensures
        out@ == quoted_text(text@),
{
    format!("{text:?}")
}

/// The characters of a string.
pub fn chars_of(text: &str) -> (chars: Vec<char>)
    ensures
        chars@ == text@,
{
    let mut chars: Vec<char> = Vec::new();
    for c in it: text.chars()
        invariant
            it.seq() == text@,
            chars@ == text@.take(it.index() as int),
    {
        chars.push(c);
        assert(text@.take(it.index() + 1) =~= text@.take(it.index() as int).push(c));
    }
    assert(text@.take(text@.len() as int) =~= text@);
    chars
}

/// The string of a run of characters.
pub fn string_of(chars: &[char]) -> (text: String)
    ensures
        text@ == chars@,
{
    let mut text = String::new();
    let mut i: usize = 0;
    while i < chars.len()
        invariant
            i <= chars@.len(),
            text@ == chars@.take(i as int),
        decreases chars@.len() - i,
    {
        text.push(chars[i]);
        i += 1;
        assert(chars@.take(i as int) =~= chars@.take(i - 1).push(chars@[i - 1]));
    }
    assert(chars@.take(i as int) =~= chars@);
    text
}

/// Several pieces of text as one.
pub fn joined(pieces: &[&str]) -> (text: String)
    ensures
        text@ == joined_text(pieces@),
{
    let mut text = String::new();
    let mut i: usize = 0;
    while i < pieces.len()
        invariant
            i <= pieces@.len(),
            text@ == joined_text(pieces@.take(i as int)),
        decreases pieces@.len() - i,
    {
        text.append(pieces[i]);
        i += 1;
        proof {
            let p = pieces@.take(i as int);
            assert(p.drop_last() =~= pieces@.take(i - 1));
        }
    }
    assert(pieces@.take(i as int) =~= pieces@);
    text
}

/// The text that pieces make, one after the other.
pub open spec fn joined_text(pieces: Seq<&str>) -> Seq<char>
    decreases pieces.len(),
{
    if pieces.len() == 0 {
        Seq::empty()
    } else {
        joined_text(pieces.drop_last()) + pieces.last()@
    }
}

/// The character of a decimal digit.
pub open spec fn digit(d: int) -> char {
    (d + 48) as char
}

/// A number in decimal, without leading zeros.
pub open spec fn decimal_text(n: nat) -> Seq<char>
    decreases n,
{
    if n < 10 {
        seq![digit(n as int)]
    } else {
        decimal_text(n / 10).push(digit(n as int % 10))
    }
}

fn digit_char(d: u64) -> (c: char)
    requires
        d < 10,
    ensures
        c == digit(d as int),
{
    (d as u8 + 48) as char
}

/// Writes a number in decimal.
pub fn decimal(n: u64) -> (text: String)
    ensures
        text@ == decimal_text(n as nat),
    decreases n,
{
    if n < 10 {
        let mut text = String::new();
        text.push(digit_char(n));
        assert(text@ =~= seq![digit(n as int)]);
        text
    } else {
        let mut text = decimal(n / 10);
        text.push(digit_char(n % 10));
        text
    }
}

/// A number in decimal, at least two digits wide.
pub open spec fn two_digit_text(n: nat) -> Seq<char> {
    if n < 10 {
        seq!['0'] + decimal_text(n)
    } else {
        decimal_text(n)
    }
}

/// Writes a number in decimal, at least two digits wide.
pub fn two_digits(n: u64) -> (text: String)
    ensures
        text@ == two_digit_text(n as nat),
{
    if n < 10 {
        let mut text = String::new();
        text.push('0');
        text.push(digit_char(n));
        assert(text@ =~= seq!['0'] + decimal_text(n as nat));
        text
    } else {
        decimal(n)
    }
}

/// Whether a character is a decimal digit.
pub open spec fn is_digit(c: char) -> bool {
    '0' <= c <= '9'
}

pub open spec fn all_digits(s: Seq<char>) -> bool {
    forall|i: int| 0 <= i < s.len() ==> is_digit(#[trigger] s[i])
}

/// The number that a run of digits stands for.
pub open spec fn digits_value(s: Seq<char>) -> nat
    decreases s.len(),
{
    if s.len() == 0 {
        0
    } else {
        digits_value(s.drop_last()) * 10 + (s.last() as nat - '0' as nat) as nat
    }
}

/// A number from its decimal text: digits, perhaps behind a plus sign, that stand
/// for no more than `max`.
pub open spec fn parsed_number(s: Seq<char>, max: nat) -> Option<nat> {
    let digits = if s.len() > 0 && s[0] == '+' {
        s.skip(1)
    } else {
        s
    };
    if digits.len() > 0 && all_digits(digits) && digits_value(digits) <= max {
        Some(digits_value(digits))
    } else {
        None
    }
}

/// A longer run of digits stands for no less.
proof fn lemma_digits_value_grows(s: Seq<char>, k: int)
    requires
        0 <= k <= s.len(),
        all_digits(s),
    ensures
        digits_value(s.take(k)) <= digits_value(s),
    decreases s.len() - k,
{
    if k < s.len() {
        lemma_digits_value_grows(s, k + 1);
        assert(s.take(k + 1).drop_last() =~= s.take(k));
        assert(is_digit(s[k]));
    } else {
        assert(s.take(k) =~= s);
    }
}

/// Reads a decimal number no greater than `max`.
pub fn parse_number(s: &[char], max: u64) -> (r: Option<u64>)
    ensures
        r matches Some(n) ==> parsed_number(s@, max as nat) == Some(n as nat),
        r is None ==> parsed_number(s@, max as nat) is None,
{
    let start: usize = if s.len() > 0 && s[0] == '+' {
        1
    } else {
        0
    };
    let ghost digits = if s@.len() > 0 && s@[0] == '+' {
        s@.skip(1)
    } else {
        s@
    };
    assert(digits =~= s@.skip(start as int));
    if start == s.len() {
        return None;
    }
    let mut value: u64 = 0;
    let mut i: usize = start;
    while i < s.len()
        invariant
            start <= i <= s@.len(),
            start < s@.len(),
            digits == s@.skip(start as int),
            digits == (if s@.len() > 0 && s@[0] == '+' {
                s@.skip(1)
            } else {
                s@
            }),
            value <= max,
            value == digits_value(digits.take(i - start)),
            forall|k: int| 0 <= k < i - start ==> is_digit(#[trigger] digits[k]),
        decreases s@.len() - i,
    {
        let c = s[i];
        assert(c == digits[i - start]);
        if c < '0' || c > '9' {
            return None;
        }
        let next: u128 = value as u128 * 10 + (c as u32 - '0' as u32) as u128;
        proof {
            assert(digits.take(i - start + 1).drop_last() =~= digits.take(i - start));
            if all_digits(digits) {
                lemma_digits_value_grows(digits, i - start + 1);
            }
        }
        if next > max as u128 {
            return None;
        }
        value = next as u64;
        i += 1;
    }
    assert(digits.take(i - start) =~= digits);
    Some(value)
}

/// A number survives being written down and read back.
pub proof fn law_decimal_round_trips(n: nat, max: nat)
    requires
        n <= max,
    ensures
        parsed_number(decimal_text(n), max) == Some(n),
{
    lemma_decimal_digits(n);
    assert(decimal_text(n)[0] != '+') by {
        assert(is_digit(decimal_text(n)[0]));
    }
}

/// What is written in decimal is digits, and they stand for the number.
pub proof fn lemma_decimal_digits(n: nat)
    ensures
        decimal_text(n).len() > 0,
        all_digits(decimal_text(n)),
        digits_value(decimal_text(n)) == n,
    decreases n,
{
    if n < 10 {
        let s = decimal_text(n);
        assert(s.drop_last() =~= Seq::<char>::empty());
        assert(digits_value(s.drop_last()) == 0);
    } else {
        lemma_decimal_digits(n / 10);
        let s = decimal_text(n);
        assert(s.drop_last() =~= decimal_text(n / 10));
        assert forall|i: int| 0 <= i < s.len() implies is_digit(#[trigger] s[i]) by {
            if i < s.len() - 1 {
                assert(s[i] == decimal_text(n / 10)[i]);
                assert(is_digit(decimal_text(n / 10)[i]));
            }
        }
    }
}

/// Whether a character is white space, as Unicode has it.
pub open spec fn is_space(c: char) -> bool {
    let n = c as int;
    ||| 9 <= n <= 13
    ||| n == 0x20
    ||| n == 0x85
    ||| n == 0xA0
    ||| n == 0x1680
    ||| 0x2000 <= n <= 0x200A
    ||| n == 0x2028
    ||| n == 0x2029
    ||| n == 0x202F
    ||| n == 0x205F
    ||| n == 0x3000
}

fn space(c: char) -> (r: bool)
    ensures
        r == is_space(c),
{
    let n: u32 = c as u32;
    (9 <= n && n <= 13) || n == 0x20 || n == 0x85 || n == 0xA0 || n == 0x1680 || (0x2000 <= n && n
        <= 0x200A) || n == 0x2028 || n == 0x2029 || n == 0x202F || n == 0x205F || n == 0x3000
}

/// Text without the white space in front of it.
pub open spec fn trimmed_front(s: Seq<char>) -> Seq<char>
    decreases s.len(),
{
    if s.len() > 0 && is_space(s[0]) {
        trimmed_front(s.skip(1))
    } else {
        s
    }
}

/// Text without the white space behind it.
pub open spec fn trimmed_back(s: Seq<char>) -> Seq<char>
    decreases s.len(),
{
    if s.len() > 0 && is_space(s.last()) {
        trimmed_back(s.drop_last())
    } else {
        s
    }
}

/// Text without the white space around it.
pub open spec fn trimmed(s: Seq<char>) -> Seq<char> {
    trimmed_back(trimmed_front(s))
}

/// Leaves off the white space around a piece of text.
pub fn trim(s: &[char]) -> (r: &[char])
    ensures
        r@ == trimmed(s@),
{
    let mut start: usize = 0;
    assert(s@.skip(0) =~= s@);
    while start < s.len() && space(s[start])
        invariant
            start <= s@.len(),
            trimmed_front(s@) == trimmed_front(s@.skip(start as int)),
        decreases s@.len() - start,
    {
        assert(s@.skip(start as int).skip(1) =~= s@.skip(start + 1));
        start += 1;
    }
    let ghost rest = s@.skip(start as int);
    assert(trimmed_front(s@) == rest);
    let mut end: usize = s.len();
    assert(s@.subrange(start as int, end as int) =~= rest);
    while end > start && space(s[end - 1])
        invariant
            start <= end <= s@.len(),
            trimmed_back(rest) == trimmed_back(s@.subrange(start as int, end as int)),
        decreases end - start,
    {
        assert(s@.subrange(start as int, end as int).drop_last() =~= s@.subrange(
            start as int,
            end - 1,
        ));
        end -= 1;
    }
    vstd::slice::slice_subrange(s, start, end)
}

/// The pieces of a text between the places where `sep` stands.
pub open spec fn split_text(s: Seq<char>, sep: char) -> Seq<Seq<char>>
    decreases s.len(),
{
    if s.len() == 0 {
        seq![Seq::empty()]
    } else {
        let before = split_text(s.drop_last(), sep);
        if s.last() == sep {
            before.push(Seq::empty())
        } else {
            before.drop_last().push(before.last().push(s.last()))
        }
    }
}

/// Splits a text at every `sep`.
pub fn split(s: &[char], sep: char) -> (parts: Vec<Vec<char>>)
    ensures
        parts@.len() == split_text(s@, sep).len(),
        parts@.len() > 0,
        forall|i: int| 0 <= i < parts@.len() ==> (#[trigger] parts@[i])@ == split_text(s@, sep)[i],
{
    let mut parts: Vec<Vec<char>> = Vec::new();
    let mut part: Vec<char> = Vec::new();
    let mut i: usize = 0;
    assert(s@.take(0) =~= Seq::empty());
    while i < s.len()
        invariant
            i <= s@.len(),
            parts@.len() + 1 == split_text(s@.take(i as int), sep).len(),
            forall|k: int|
                0 <= k < parts@.len() ==> (#[trigger] parts@[k])@ == split_text(
                    s@.take(i as int),
                    sep,
                )[k],
            part@ == split_text(s@.take(i as int), sep).last(),
        decreases s@.len() - i,
    {
        let c = s[i];
        assert(s@.take(i + 1).drop_last() =~= s@.take(i as int));
        if c == sep {
            parts.push(part);
            part = Vec::new();
        } else {
            part.push(c);
        }
        i += 1;
    }
    assert(s@.take(i as int) =~= s@);
    parts.push(part);
    parts
}

/// The piece behind the last `sep` of a text is the last of its pieces.
pub proof fn lemma_split_behind(front: Seq<char>, sep: char, piece: Seq<char>)
    requires
        !piece.contains(sep),
    ensures
        split_text(front.push(sep) + piece, sep) == split_text(front, sep).push(piece),
    decreases piece.len(),
{
    let whole = front.push(sep) + piece;
    if piece.len() == 0 {
        assert(whole.drop_last() =~= front);
        assert(piece =~= Seq::empty());
    } else {
        let shorter = piece.drop_last();
        assert forall|i: int| 0 <= i < shorter.len() implies shorter[i] != sep by {
            assert(piece[i] == shorter[i]);
        }
        lemma_split_behind(front, sep, shorter);
        assert(whole.drop_last() =~= front.push(sep) + shorter);
        assert(whole.last() == piece.last());
        assert(piece[piece.len() - 1] != sep);
        let before = split_text(front, sep).push(shorter);
        assert(before.drop_last() =~= split_text(front, sep));
        assert(shorter.push(piece.last()) =~= piece);
    }
}

/// A text that holds no `sep` is its only piece.
pub proof fn lemma_split_whole(piece: Seq<char>, sep: char)
    requires
        !piece.contains(sep),
    ensures
        split_text(piece, sep) == seq![piece],
    decreases piece.len(),
{
    if piece.len() == 0 {
        assert(piece =~= Seq::empty());
    } else {
        let shorter = piece.drop_last();
        assert forall|i: int| 0 <= i < shorter.len() implies shorter[i] != sep by {
            assert(piece[i] == shorter[i]);
        }
        lemma_split_whole(shorter, sep);
        assert(piece[piece.len() - 1] != sep);
        assert(seq![shorter].drop_last() =~= Seq::empty());
        assert(shorter.push(piece.last()) =~= piece);
        assert(split_text(piece, sep) =~= seq![piece]);
    }
}

/// A number written at least two digits wide is digits, and reads back.
pub proof fn lemma_two_digits(n: nat, max: nat)
    requires
        n <= max,
    ensures
        two_digit_text(n).len() > 0,
        all_digits(two_digit_text(n)),
        parsed_number(two_digit_text(n), max) == Some(n),
{
    lemma_decimal_digits(n);
    let s = two_digit_text(n);
    assert forall|i: int| 0 <= i < s.len() implies is_digit(#[trigger] s[i]) by {
        if n < 10 && i > 0 {
            assert(s[i] == decimal_text(n)[i - 1]);
            assert(is_digit(decimal_text(n)[i - 1]));
        }
    }
    assert(is_digit(s[0]));
    if n < 10 {
        assert(s =~= seq!['0', digit(n as int)]);
        assert(s.drop_last() =~= seq!['0']);
        assert(s.drop_last().drop_last() =~= Seq::empty());
        reveal_with_fuel(digits_value, 3);
    }
}

/// All of a text is white space.
pub open spec fn all_space(s: Seq<char>) -> bool {
    forall|i: int| 0 <= i < s.len() ==> is_space(#[trigger] s[i])
}

proof fn lemma_trimmed_front_drops(front: Seq<char>, s: Seq<char>)
    requires
        all_space(front),
    ensures
        trimmed_front(front + s) == trimmed_front(s),
    decreases front.len(),
{
    if front.len() == 0 {
        assert(front + s =~= s);
    } else {
        let rest = front.skip(1);
        assert forall|i: int| 0 <= i < rest.len() implies is_space(#[trigger] rest[i]) by {
            assert(rest[i] == front[i + 1]);
        }
        lemma_trimmed_front_drops(rest, s);
        assert((front + s).skip(1) =~= rest + s);
        assert(is_space(front[0]));
    }
}

proof fn lemma_trimmed_back_drops(s: Seq<char>, back: Seq<char>)
    requires
        all_space(back),
    ensures
        trimmed_back(s + back) == trimmed_back(s),
    decreases back.len(),
{
    if back.len() == 0 {
        assert(s + back =~= s);
    } else {
        let rest = back.drop_last();
        assert forall|i: int| 0 <= i < rest.len() implies is_space(#[trigger] rest[i]) by {
            assert(rest[i] == back[i]);
        }
        lemma_trimmed_back_drops(s, rest);
        assert((s + back).drop_last() =~= s + rest);
        assert(is_space(back[back.len() - 1]));
    }
}

proof fn lemma_trimmed_front_keeps(s: Seq<char>, back: Seq<char>)
    requires
        all_space(back),
    ensures
        trimmed_back(trimmed_front(s + back)) == trimmed_back(trimmed_front(s)),
    decreases s.len(),
{
    if s.len() == 0 {
        assert(s + back =~= back + Seq::empty());
        lemma_trimmed_front_drops(back, Seq::empty());
        assert(s =~= Seq::empty());
    } else if is_space(s[0]) {
        assert((s + back).skip(1) =~= s.skip(1) + back);
        lemma_trimmed_front_keeps(s.skip(1), back);
    } else {
        lemma_trimmed_back_drops(s, back);
    }
}

/// White space around a text is left off, however much there is.
pub proof fn law_white_space_around_is_left_off(front: Seq<char>, s: Seq<char>, back: Seq<char>)
    requires
        all_space(front),
        all_space(back),
    ensures
        trimmed(front + s + back) == trimmed(s),
{
    assert(front + s + back =~= front + (s + back));
    lemma_trimmed_front_drops(front, s + back);
    lemma_trimmed_front_keeps(s, back);
}

/// Decimal is written from the left, most significant digit first: what is in front of
/// the last digit is how many tens there are, and the last digit is what is left of
/// them. A single digit is the character that many behind `0`.
pub proof fn law_decimal_counts_tens(n: u64, text: String, wide: String)
    requires
        call_ensures(decimal, (n,), text),
        call_ensures(two_digits, (n,), wide),
    ensures
        text@.len() > 0,
        text@.last() as int == '0' as int + n % 10,
        n < 10 ==> text@.len() == 1,
        n >= 10 ==> text@.drop_last() == decimal_text((n / 10) as nat),
        n < 10 ==> wide@ == seq!['0'] + text@,
        n >= 10 ==> wide@ == text@,
{
    if n >= 10 {
        let t = decimal_text(n as nat);
        assert(t.drop_last() =~= decimal_text((n / 10) as nat));
    }
}

/// A number is read digit by digit, ten to a place, a plus sign in front of it ignored;
/// what is no digit, or too large, is no number.
pub proof fn law_a_number_is_read_in_tens(s: &[char], max: u64, r: Option<u64>, d: char, tens: nat)
    requires
        call_ensures(parse_number, (s, max), r),
        s@.len() > 1,
        parsed_number(s@.drop_last(), u64::MAX as nat) == Some(tens),
        s@.last() == d,
    ensures
        '0' <= d <= '9' && tens * 10 + (d as int - '0' as int) <= max ==> (r matches Some(n) && n == tens
            * 10 + (d as int - '0' as int)),
        '0' <= d <= '9' && tens * 10 + (d as int - '0' as int) > max ==> r is None,
        !('0' <= d <= '9') ==> r is None,
{
    let front = s@.drop_last();
    let plus = s@[0] == '+';
    assert(front[0] == s@[0]);
    let digits = if plus {
        s@.skip(1)
    } else {
        s@
    };
    let before = if plus {
        front.skip(1)
    } else {
        front
    };
    assert(digits.drop_last() =~= before);
    assert(digits.last() == d);
    if '0' <= d <= '9' {
        assert forall|i: int| 0 <= i < digits.len() implies is_digit(#[trigger] digits[i]) by {
            if i < before.len() {
                assert(digits[i] == before[i]);
                assert(is_digit(before[i]));
            }
        }
    } else {
        assert(!is_digit(digits[digits.len() - 1]));
    }
}

/// Trimming leaves a piece of the text with white space on neither end, and what it
/// leaves off on either side is white space alone.
pub proof fn law_trimming_leaves_off_white_space_alone(s: &[char], r: &[char])
    requires
        call_ensures(trim, (s,), r),
    ensures
        r@.len() > 0 ==> !is_space(r@[0]) && !is_space(r@.last()),
        exists|front: Seq<char>, back: Seq<char>| #[trigger]
            all_space(front) && #[trigger] all_space(back) && s@ == front + r@ + back,
        is_space(' ') && is_space('\t') && is_space('\n') && is_space('\r'),
        !is_space('0') && !is_space('a') && !is_space('-') && !is_space(':') && !is_space('.'),
{
    let front = lemma_trimmed_front_parts(s@);
    let mid = trimmed_front(s@);
    let back = lemma_trimmed_back_parts(mid);
    assert(s@ =~= front + r@ + back);
    if r@.len() > 0 {
        assert(r@[0] == mid[0]);
    }
    assert(all_space(front) && all_space(back));
}

proof fn lemma_trimmed_front_parts(s: Seq<char>) -> (front: Seq<char>)
    ensures
        all_space(front),
        s == front + trimmed_front(s),
        trimmed_front(s).len() > 0 ==> !is_space(trimmed_front(s)[0]),
    decreases s.len(),
{
    if s.len() > 0 && is_space(s[0]) {
        let rest = lemma_trimmed_front_parts(s.skip(1));
        let front = seq![s[0]] + rest;
        let tail = trimmed_front(s.skip(1));
        assert(s =~= seq![s[0]] + s.skip(1));
        assert(seq![s[0]] + (rest + tail) =~= front + tail);
        assert forall|i: int| 0 <= i < front.len() implies is_space(#[trigger] front[i]) by {
            if i > 0 {
                assert(front[i] == rest[i - 1]);
            }
        }
        front
    } else {
        assert(s =~= Seq::<char>::empty() + s);
        Seq::empty()
    }
}

proof fn lemma_trimmed_back_parts(s: Seq<char>) -> (back: Seq<char>)
    ensures
        all_space(back),
        s == trimmed_back(s) + back,
        trimmed_back(s).len() > 0 ==> !is_space(trimmed_back(s).last()),
    decreases s.len(),
{
    if s.len() > 0 && is_space(s.last()) {
        let rest = lemma_trimmed_back_parts(s.drop_last());
        let back = rest.push(s.last());
        let head = trimmed_back(s.drop_last());
        assert(s =~= s.drop_last().push(s.last()));
        assert((head + rest).push(s.last()) =~= head + back);
        back
    } else {
        assert(s =~= s + Seq::<char>::empty());
        Seq::empty()
    }
}

/// The pieces of a text hold no separator, and put together again with one separator
/// between each two they are the text.
pub proof fn law_the_pieces_of_a_text_make_it_up(s: Seq<char>, sep: char)
    ensures
        split_text(s, sep).len() > 0,
        forall|i: int, k: int|
            0 <= i < split_text(s, sep).len() && 0 <= k < split_text(s, sep)[i].len()
                ==> #[trigger] split_text(s, sep)[i][k] != sep,
        put_together(split_text(s, sep), sep) == s,
    decreases s.len(),
{
    let parts = split_text(s, sep);
    if s.len() == 0 {
        assert(put_together(parts, sep) =~= s);
    } else {
        let before = split_text(s.drop_last(), sep);
        law_the_pieces_of_a_text_make_it_up(s.drop_last(), sep);
        assert(s.drop_last().push(s.last()) =~= s);
        if s.last() == sep {
            assert(parts.drop_last() =~= before);
            assert(put_together(parts, sep) =~= s);
        } else {
            assert(parts.drop_last() =~= before.drop_last());
            assert(parts.last() == before.last().push(s.last()));
            assert(put_together(parts, sep) =~= s);
            assert forall|i: int, k: int|
                0 <= i < parts.len() && 0 <= k < parts[i].len() implies #[trigger] parts[i][k]
                != sep by {
                if i < parts.len() - 1 {
                    assert(parts[i] == before[i]);
                    assert(before[i][k] != sep);
                } else if k < before.last().len() {
                    assert(before[before.len() - 1][k] != sep);
                }
            }
        }
    }
}

/// Pieces of text with one separator between each two.
pub open spec fn put_together(pieces: Seq<Seq<char>>, sep: char) -> Seq<char>
    decreases pieces.len(),
{
    if pieces.len() == 0 {
        Seq::empty()
    } else if pieces.len() == 1 {
        pieces[0]
    } else {
        put_together(pieces.drop_last(), sep).push(sep) + pieces.last()
    }
}

/// A string and its characters are the same text, whichever way it is taken, and pieces
/// are joined in their order.
pub proof fn law_text_is_its_characters(
    text: &str,
    chars: Vec<char>,
    slice: &[char],
    back: String,
    pieces: &[&str],
    all: String,
)
    requires
        call_ensures(chars_of, (text,), chars),
        call_ensures(string_of, (slice,), back),
        call_ensures(joined, (pieces,), all),
    ensures
        chars@.len() == text@.len(),
        forall|i: int| 0 <= i < text@.len() ==> #[trigger] chars@[i] == text@[i],
        slice@ == chars@ ==> back@ == text@,
        back@ == slice@,
        pieces@.len() == 0 ==> all@.len() == 0,
        pieces@.len() == 1 ==> all@ == pieces@[0]@,
        pieces@.len() == 2 ==> all@ == pieces@[0]@ + pieces@[1]@,
        pieces@.len() > 0 ==> all@ == joined_text(pieces@.take(pieces@.len() - 1)) + pieces@[pieces@.len()
            - 1]@,
{
    reveal_with_fuel(joined_text, 3);
    if pieces@.len() > 0 {
        assert(pieces@.drop_last() =~= pieces@.take(pieces@.len() - 1));
    }
    if pieces@.len() == 1 {
        assert(all@ =~= pieces@[0]@);
    }
    if pieces@.len() == 2 {
        assert(all@ =~= pieces@[0]@ + pieces@[1]@);
    }
}

/// A text is split at every separator and nowhere else.
pub proof fn law_a_text_is_split_at_its_separators(s: &[char], sep: char, parts: Vec<Vec<char>>)
    requires
        call_ensures(split, (s, sep), parts),
    ensures
        parts@.len() > 0,
        forall|i: int, k: int|
            0 <= i < parts@.len() && 0 <= k < parts@[i]@.len() ==> #[trigger] parts@[i]@[k] != sep,
        put_together(parts@.map_values(|part: Vec<char>| part@), sep) == s@,
{
    law_the_pieces_of_a_text_make_it_up(s@, sep);
    let pieces = split_text(s@, sep);
    assert(parts@.map_values(|part: Vec<char>| part@) =~= pieces);
    assert forall|i: int, k: int|
        0 <= i < parts@.len() && 0 <= k < parts@[i]@.len() implies #[trigger] parts@[i]@[k]
        != sep by {
        assert(parts@[i]@ == pieces[i]);
        assert(pieces[i][k] != sep);
    }
}

} // verus!
