//! Text building and inspection over the character sequences of strings.
use vstd::prelude::*;
use vstd::utf8::{
    decode_utf8, encode_utf8, encode_utf8_decode_utf8, encode_utf8_valid_utf8, is_ascii_chars,
    is_ascii_chars_encode_utf8, valid_utf8,
};

verus! {

/// The character of a decimal digit.
pub open spec fn digit_char(d: nat) -> char {
    (48 + d) as char
}

/// The shortest decimal numeral of a number.
pub open spec fn decimal(n: nat) -> Seq<char>
    decreases n,
{
    if n < 10 {
        seq![digit_char(n)]
    } else {
        decimal(n / 10).push(digit_char(n % 10))
    }
}

/// Whether two texts hold the same characters.
pub fn same_text(a: &str, b: &str) -> (same: bool)
    ensures
        same == (a@ == b@),
{
    a.to_owned() == b.to_owned()
}

fn digit_text(d: u8) -> (text: &'static str)
    requires
        d < 10,
    ensures
        text@ == seq![digit_char(d as nat)],
{
    proof {
        reveal_strlit("0");
        reveal_strlit("1");
        reveal_strlit("2");
        reveal_strlit("3");
        reveal_strlit("4");
        reveal_strlit("5");
        reveal_strlit("6");
        reveal_strlit("7");
        reveal_strlit("8");
        reveal_strlit("9");
    }
    match d {
        0 => "0",
        1 => "1",
        2 => "2",
        3 => "3",
        4 => "4",
        5 => "5",
        6 => "6",
        7 => "7",
        8 => "8",
        _ => "9",
    }
}

/// Appends the decimal numeral of `n`.
pub fn append_decimal(out: &mut String, n: u64)
    ensures
        final(out)@ == old(out)@ + decimal(n as nat),
    decreases n,
{
    if n >= 10 {
        append_decimal(out, n / 10);
    }
    out.append(digit_text((n % 10) as u8));
}

/// The decimal numeral of a number that may be negative.
pub open spec fn signed_decimal(n: int) -> Seq<char> {
    if n < 0 {
        seq!['-'] + decimal((-n) as nat)
    } else {
        decimal(n as nat)
    }
}

/// Appends the decimal numeral of `n`.
pub fn append_signed(out: &mut String, n: i64)
    ensures
        final(out)@ == old(out)@ + signed_decimal(n as int),
{
    if n < 0 {
        proof {
            reveal_strlit("-");
        }
        out.append("-");
        append_decimal(out, (-(n as i128)) as u64);
        assert(out@ =~= old(out)@ + signed_decimal(n as int));
    } else {
        append_decimal(out, n as u64);
    }
}

/// Whether every character is an ASCII letter, an ASCII digit, a dash or an underscore.
pub open spec fn plain_chars(text: Seq<char>) -> bool {
    forall|i: int| 0 <= i < text.len() ==> plain_char(#[trigger] text[i])
}

/// Whether a character is an ASCII letter, an ASCII digit, a dash or an underscore.
pub open spec fn plain_char(c: char) -> bool {
    'a' <= c <= 'z' || 'A' <= c <= 'Z' || '0' <= c <= '9' || c == '-' || c == '_'
}

/// Whether every character is an ASCII letter, an ASCII digit, a dash or an underscore.
pub fn only_plain_chars(text: &str) -> (plain: bool)
    ensures
        plain == plain_chars(text@),
{
    for c in it: text.chars()
        invariant
            it.seq() == text@,
            forall|i: int| 0 <= i < it.index() ==> plain_char(#[trigger] text@[i]),
    {
        let letter = ('a' <= c && c <= 'z') || ('A' <= c && c <= 'Z');
        let plain = letter || ('0' <= c && c <= '9') || c == '-' || c == '_';
        if !plain {
            assert(text@[it.index() as int] == c);
            return false;
        }
    }
    true
}

/// Whether a byte is an ASCII digit.
pub open spec fn digit_byte(byte: u8) -> bool {
    48 <= byte <= 57
}

/// Whether every byte is an ASCII digit.
pub open spec fn all_digits(bytes: Seq<u8>) -> bool {
    forall|i: int| 0 <= i < bytes.len() ==> digit_byte(#[trigger] bytes[i])
}

/// The number that digits denote.
pub open spec fn digits_value(digits: Seq<u8>) -> nat
    decreases digits.len(),
{
    if digits.len() == 0 {
        0
    } else {
        (10 * digits_value(digits.drop_last()) + (digits.last() - 48)) as nat
    }
}

proof fn lemma_more_digits_denote_no_less(digits: Seq<u8>, count: int)
    requires
        all_digits(digits),
        0 <= count <= digits.len(),
    ensures
        digits_value(digits.take(count)) <= digits_value(digits),
    decreases digits.len(),
{
    if count == digits.len() {
        assert(digits.take(count) =~= digits);
    } else {
        let shorter = digits.drop_last();
        assert forall|i: int| 0 <= i < shorter.len() implies digit_byte(#[trigger] shorter[i]) by {
            assert(digit_byte(digits[i]));
        }
        lemma_more_digits_denote_no_less(shorter, count);
        assert(shorter.take(count) =~= digits.take(count));
        assert(digit_byte(digits.last()));
    }
}

/// The number that digits denote, where there are only digits and it is not too large.
pub fn parse_digits(digits: &[u8]) -> (number: Option<u64>)
    ensures
        number == if all_digits(digits@) && digits_value(digits@) <= u64::MAX {
            Some(digits_value(digits@) as u64)
        } else {
            None
        },
{
    if !only_digits(digits) {
        return None;
    }
    let mut number: u64 = 0;
    let mut i: usize = 0;
    while i < digits.len()
        invariant
            all_digits(digits@),
            i <= digits@.len(),
            number == digits_value(digits@.take(i as int)),
        decreases digits@.len() - i,
    {
        let digit = (digits[i] - 48) as u64;
        proof {
            assert(digits@.take(i + 1).drop_last() =~= digits@.take(i as int));
            lemma_more_digits_denote_no_less(digits@, i + 1);
        }
        match number.checked_mul(10) {
            Some(tens) => match tens.checked_add(digit) {
                Some(sum) => {
                    number = sum;
                },
                None => {
                    return None;
                },
            },
            None => {
                return None;
            },
        }
        i += 1;
    }
    assert(digits@.take(i as int) =~= digits@);
    Some(number)
}

/// Whether every byte is an ASCII digit.
pub fn only_digits(bytes: &[u8]) -> (only: bool)
    ensures
        only == all_digits(bytes@),
{
    let mut i: usize = 0;
    while i < bytes.len()
        invariant
            i <= bytes@.len(),
            forall|j: int| 0 <= j < i ==> digit_byte(#[trigger] bytes@[j]),
        decreases bytes@.len() - i,
    {
        if bytes[i] < 48 || bytes[i] > 57 {
            assert(!digit_byte(bytes@[i as int]));
            return false;
        }
        i += 1;
    }
    true
}

/// Whether a byte is a space or a tab.
pub open spec fn blank(byte: u8) -> bool {
    byte == 32 || byte == 9
}

/// Bytes without the spaces and tabs at their start.
pub open spec fn trimmed_start(bytes: Seq<u8>) -> Seq<u8>
    decreases bytes.len(),
{
    if bytes.len() > 0 && blank(bytes.first()) {
        trimmed_start(bytes.drop_first())
    } else {
        bytes
    }
}

/// Bytes without the spaces and tabs at their end.
pub open spec fn trimmed_end(bytes: Seq<u8>) -> Seq<u8>
    decreases bytes.len(),
{
    if bytes.len() > 0 && blank(bytes.last()) {
        trimmed_end(bytes.drop_last())
    } else {
        bytes
    }
}

/// Bytes without the spaces and tabs around them.
pub open spec fn trimmed(bytes: Seq<u8>) -> Seq<u8> {
    trimmed_end(trimmed_start(bytes))
}

/// Bytes without the spaces and tabs around them.
pub fn trim_blanks<'a>(bytes: &'a [u8]) -> (inner: &'a [u8])
    ensures
        inner@ == trimmed(bytes@),
        exists|start: int, end: int|
            0 <= start <= end <= bytes@.len() && inner@ == #[trigger] bytes@.subrange(start, end),
{
    let mut start: usize = 0;
    assert(bytes@.skip(0) =~= bytes@);
    while start < bytes.len() && (bytes[start] == 32 || bytes[start] == 9)
        invariant
            start <= bytes@.len(),
            trimmed_start(bytes@) == trimmed_start(bytes@.skip(start as int)),
        decreases bytes@.len() - start,
    {
        assert(bytes@.skip(start as int).drop_first() =~= bytes@.skip(start + 1));
        start += 1;
    }
    let ghost kept = bytes@.skip(start as int);
    assert(trimmed_start(bytes@) == kept);
    let mut end: usize = bytes.len();
    assert(bytes@.subrange(start as int, end as int) =~= kept);
    while end > start && (bytes[end - 1] == 32 || bytes[end - 1] == 9)
        invariant
            start <= end <= bytes@.len(),
            trimmed_end(kept) == trimmed_end(bytes@.subrange(start as int, end as int)),
        decreases end,
    {
        assert(bytes@.subrange(start as int, end as int).drop_last() =~= bytes@.subrange(
            start as int,
            end - 1,
        ));
        end -= 1;
    }
    vstd::slice::slice_subrange(bytes, start, end)
}

/// The characters of ASCII bytes.
pub open spec fn ascii_chars(bytes: Seq<u8>) -> Seq<char> {
    Seq::new(bytes.len(), |i: int| bytes[i] as char)
}

/// Whether every byte is an ASCII code.
pub open spec fn ascii_bytes(bytes: Seq<u8>) -> bool {
    forall|i: int| 0 <= i < bytes.len() ==> #[trigger] bytes[i] < 128
}

/// ASCII bytes are the encoding of their characters.
pub proof fn lemma_ascii_decodes(bytes: Seq<u8>)
    requires
        ascii_bytes(bytes),
    ensures
        valid_utf8(bytes),
        decode_utf8(bytes) == ascii_chars(bytes),
{
    let chars = ascii_chars(bytes);
    assert(is_ascii_chars(chars)) by {
        assert forall|i: int| 0 <= i < chars.len() implies '\0' <= #[trigger] chars[i]
            <= '\u{7f}' by {
            assert(bytes[i] < 128);
        }
    }
    is_ascii_chars_encode_utf8(chars);
    assert(encode_utf8(chars) =~= bytes) by {
        assert forall|i: int| 0 <= i < bytes.len() implies encode_utf8(chars)[i] == bytes[i] by {
            assert(bytes[i] < 128);
            assert(chars[i] as u8 == encode_utf8(chars)[i]);
        }
    }
    encode_utf8_valid_utf8(chars);
    encode_utf8_decode_utf8(chars);
}

/// What `core::str::Utf8Error` says of bytes that are not valid UTF-8.
pub uninterp spec fn utf8_fault(bytes: Seq<u8>) -> Seq<char>;

/// Decodes bytes with `core::str::from_utf8`: the text that they encode where they are valid
/// UTF-8, and else what is wrong with them, which depends on the bytes alone.
#[verifier::external_body]
pub(crate) fn decode_text<'a>(bytes: &'a [u8]) -> (text: Result<&'a str, String>)
    ensures
        match text {
            Ok(text) => valid_utf8(bytes@) && text@ == decode_utf8(bytes@),
            Err(message) => !valid_utf8(bytes@) && message@ == utf8_fault(bytes@),
        },
{
    core::str::from_utf8(bytes).map_err(|error| error.to_string())
}

/// Whether a text holds another as a part.
pub open spec fn holds(text: Seq<char>, part: Seq<char>) -> bool {
    exists|i: int|
        0 <= i <= text.len() - part.len() && #[trigger] text.subrange(i, i + part.len()) == part
}

/// The characters of a text.
fn characters(text: &str) -> (chars: Vec<char>)
    ensures
        chars@ == text@,
{
    let mut chars: Vec<char> = Vec::new();
    for c in it: text.chars()
        invariant
            it.seq() == text@,
            chars@ == text@.take(it.index() as int),
    {
        assert(text@.take(it.index() as int + 1) =~= chars@.push(c));
        chars.push(c);
    }
    assert(text@.take(text@.len() as int) =~= text@);
    chars
}

/// Whether a text holds another as a part.
pub(crate) fn contains_text(text: &str, part: &str) -> (found: bool)
    ensures
        found == holds(text@, part@),
{
    let whole = characters(text);
    let piece = characters(part);
    let length = whole.len();
    if piece.len() > length {
        return false;
    }
    let mut start: usize = 0;
    while start <= length - piece.len()
        invariant
            whole@ == text@,
            piece@ == part@,
            length == whole@.len(),
            piece@.len() <= length,
            start + piece@.len() <= length + 1,
            forall|i: int|
                0 <= i < start ==> #[trigger] text@.subrange(i, i + part@.len()) != part@,
        decreases length + 1 - start,
    {
        let ghost there = text@.subrange(start as int, start + part@.len());
        let mut matched: usize = 0;
        while matched < piece.len() && whole[start + matched] == piece[matched]
            invariant
                whole@ == text@,
                piece@ == part@,
                length == whole@.len(),
                start + piece@.len() <= length,
                matched <= piece@.len(),
                there == text@.subrange(start as int, start + part@.len()),
                forall|j: int| 0 <= j < matched ==> #[trigger] there[j] == part@[j],
            decreases piece@.len() - matched,
        {
            matched += 1;
        }
        if matched == piece.len() {
            assert(there =~= part@);
            return true;
        }
        assert(there[matched as int] != part@[matched as int]);
        start += 1;
    }
    false
}

/// An ASCII letter as a capital; any other character as it is.
pub open spec fn capital(c: char) -> char {
    if 'a' <= c <= 'z' {
        (c as u32 - 32) as char
    } else {
        c
    }
}

/// Whether two texts differ in the case of ASCII letters only.
pub open spec fn same_letters(a: Seq<char>, b: Seq<char>) -> bool {
    a.len() == b.len() && forall|i: int|
        0 <= i < a.len() ==> capital(#[trigger] a[i]) == capital(b[i])
}

/// Whether two texts differ in the case of ASCII letters only.
pub fn same_text_ignoring_case(a: &str, b: &str) -> (same: bool)
    ensures
        same == same_letters(a@, b@),
{
    let length = a.unicode_len();
    if length != b.unicode_len() {
        return false;
    }
    let mut i: usize = 0;
    while i < length
        invariant
            i <= length,
            length == a@.len(),
            length == b@.len(),
            forall|j: int| 0 <= j < i ==> capital(#[trigger] a@[j]) == capital(b@[j]),
        decreases length - i,
    {
        if capital_code(a.get_char(i)) != capital_code(b.get_char(i)) {
            assert(capital(a@[i as int]) != capital(b@[i as int]));
            return false;
        }
        i += 1;
    }
    true
}

fn capital_code(c: char) -> (code: u32)
    ensures
        code == capital(c) as u32,
{
    if 'a' <= c && c <= 'z' {
        c as u32 - 32
    } else {
        c as u32
    }
}

/// Whether a text stands before another in the order of their characters.
pub open spec fn text_before(a: Seq<char>, b: Seq<char>) -> bool
    decreases a.len(),
{
    if b.len() == 0 {
        false
    } else if a.len() == 0 {
        true
    } else if a[0] != b[0] {
        a[0] < b[0]
    } else {
        text_before(a.drop_first(), b.drop_first())
    }
}

/// Of two different texts one stands before the other, and not both.
pub proof fn lemma_texts_are_ordered(a: Seq<char>, b: Seq<char>)
    ensures
        a != b ==> (text_before(a, b) <==> !text_before(b, a)),
        a == b ==> !text_before(a, b),
    decreases a.len(),
{
    if a.len() > 0 && b.len() > 0 && a[0] == b[0] {
        lemma_texts_are_ordered(a.drop_first(), b.drop_first());
        assert(a =~= seq![a[0]] + a.drop_first());
        assert(b =~= seq![b[0]] + b.drop_first());
    } else if a.len() == 0 && b.len() == 0 {
        assert(a =~= b);
    }
}

/// The order of texts is transitive.
pub proof fn lemma_text_order_is_transitive(a: Seq<char>, b: Seq<char>, c: Seq<char>)
    requires
        text_before(a, b),
        text_before(b, c),
    ensures
        text_before(a, c),
    decreases a.len(),
{
    if a.len() > 0 && a[0] == b[0] && b[0] == c[0] {
        lemma_text_order_is_transitive(a.drop_first(), b.drop_first(), c.drop_first());
    }
}

/// Whether a text stands before another in the order of their characters.
pub fn is_text_before(a: &str, b: &str) -> (before: bool)
    ensures
        before == text_before(a@, b@),
{
    let a_length = a.unicode_len();
    let b_length = b.unicode_len();
    let mut i: usize = 0;
    assert(a@.skip(0) =~= a@);
    assert(b@.skip(0) =~= b@);
    while i < a_length && i < b_length
        invariant
            a_length == a@.len(),
            b_length == b@.len(),
            i <= a_length,
            i <= b_length,
            text_before(a@, b@) == text_before(a@.skip(i as int), b@.skip(i as int)),
        decreases a_length - i,
    {
        let x = a.get_char(i);
        let y = b.get_char(i);
        assert(a@.skip(i as int)[0] == x);
        assert(b@.skip(i as int)[0] == y);
        if x != y {
            return x < y;
        }
        assert(a@.skip(i as int).drop_first() =~= a@.skip(i + 1));
        assert(b@.skip(i as int).drop_first() =~= b@.skip(i + 1));
        i += 1;
    }
    i < b_length
}

/// Whether a text begins with another.
pub fn begins_with(text: &str, start: &str) -> (begins: bool)
    ensures
        begins == start@.is_prefix_of(text@),
{
    let length = start.unicode_len();
    if length > text.unicode_len() {
        return false;
    }
    let mut i: usize = 0;
    while i < length
        invariant
            i <= length,
            length == start@.len(),
            length <= text@.len(),
            forall|j: int| 0 <= j < i ==> #[trigger] start@[j] == text@[j],
        decreases length - i,
    {
        if start.get_char(i) != text.get_char(i) {
            assert(start@[i as int] != text@[i as int]);
            return false;
        }
        i += 1;
    }
    assert(start@ =~= text@.subrange(0, length as int));
    true
}

/// The bytes of an ASCII text.
pub open spec fn char_bytes(text: Seq<char>) -> Seq<u8> {
    Seq::new(text.len(), |i: int| text[i] as u8)
}

/// Digits count in tens: one more digit multiplies by ten and adds its own value.
pub proof fn law_digits_count_in_tens(digits: Seq<u8>, digit: u8)
    requires
        48 <= digit <= 57,
    ensures
        digits_value(Seq::empty()) == 0,
        digits_value(digits.push(digit)) == 10 * digits_value(digits) + (digit - 48),
{
    assert(digits.push(digit).drop_last() =~= digits);
}

/// Bytes are digits where each of them is one from `0` to `9`.
pub proof fn law_digits_are_ascii_digits(bytes: Seq<u8>)
    ensures
        all_digits(bytes) <==> forall|i: int| 0 <= i < bytes.len() ==> 48 <= #[trigger] bytes[i]
            <= 57,
{
    assert forall|i: int| 0 <= i < bytes.len() implies (digit_byte(#[trigger] bytes[i]) <==> 48
        <= bytes[i] <= 57) by {}
}

/// A numeral has digits only, none of them a leading zero, and reads back as its number.
pub proof fn law_numerals_read_back(n: nat)
    ensures
        all_digits(char_bytes(decimal(n))),
        digits_value(char_bytes(decimal(n))) == n,
        decimal(n).len() >= 1,
        n > 0 ==> decimal(n)[0] != '0',
        forall|i: int| 0 <= i < decimal(n).len() ==> '0' <= #[trigger] decimal(n)[i] <= '9',
    decreases n,
{
    let text = decimal(n);
    let bytes = char_bytes(text);
    if n < 10 {
        assert(bytes.drop_last() =~= Seq::empty());
        assert(digits_value(bytes.drop_last()) == 0);
    } else {
        law_numerals_read_back(n / 10);
        assert(bytes.drop_last() =~= char_bytes(decimal(n / 10)));
        assert forall|i: int| 0 <= i < bytes.len() implies digit_byte(#[trigger] bytes[i]) by {
            if i < bytes.len() - 1 {
                assert(bytes[i] == char_bytes(decimal(n / 10))[i]);
            }
        }
        assert(text[0] == decimal(n / 10)[0]);
    }
}

/// A negative number has a dash before the numeral of its amount.
pub proof fn law_negative_numerals_start_with_a_dash(n: int)
    ensures
        n >= 0 ==> signed_decimal(n) == decimal(n as nat),
        n < 0 ==> signed_decimal(n) == seq!['-'] + decimal((-n) as nat),
{
}

/// Trimming takes away spaces and tabs at both ends, and nothing else, until none stands there.
pub proof fn law_trimming_takes_blanks_at_the_ends(bytes: Seq<u8>)
    ensures
        exists|start: int, end: int| #[trigger] trims(bytes, start, end),
        forall|start: int, end: int| #[trigger]
            trims(bytes, start, end) ==> trimmed(bytes) == bytes.subrange(start, end),
{
    let start = bytes.len() - trimmed_start(bytes).len();
    lemma_trimmed_start(bytes);
    let kept = trimmed_start(bytes);
    lemma_trimmed_end(kept);
    let end = start + trimmed(bytes).len();
    assert(trimmed(bytes) =~= bytes.subrange(start, end)) by {
        assert(kept =~= bytes.skip(start));
        assert(trimmed(bytes) =~= kept.take(trimmed(bytes).len() as int));
    }
    assert(trims(bytes, start, end)) by {
        assert forall|i: int| end <= i < bytes.len() implies #[trigger] bytes[i] == 32 || bytes[i]
            == 9 by {
            assert(kept[i - start] == bytes[i]);
        }
        if start < end {
            assert(kept[0] == bytes[start]);
            assert(kept[end - start - 1] == bytes[end - 1]);
        }
    }
    assert forall|first: int, last: int| #[trigger] trims(bytes, first, last) implies trimmed(bytes)
        == bytes.subrange(first, last) by {
        if start == end {
            if first < last {
                assert(bytes[first] == 32 || bytes[first] == 9);
            }
            assert(bytes.subrange(first, last) =~= bytes.subrange(start, end));
        } else {
            assert(bytes[start] != 32 && bytes[start] != 9);
            assert(bytes[end - 1] != 32 && bytes[end - 1] != 9);
            if first == last {
                assert(bytes[start] == 32 || bytes[start] == 9);
            }
            assert(first == start && last == end);
        }
    }
}

/// Whether a part of some bytes is what is left where the spaces and tabs around it are taken away.
pub open spec fn trims(bytes: Seq<u8>, start: int, end: int) -> bool {
    &&& 0 <= start <= end <= bytes.len()
    &&& forall|i: int| 0 <= i < start ==> #[trigger] bytes[i] == 32 || bytes[i] == 9
    &&& forall|i: int| end <= i < bytes.len() ==> #[trigger] bytes[i] == 32 || bytes[i] == 9
    &&& start < end ==> {
        &&& bytes[start] != 32 && bytes[start] != 9
        &&& bytes[end - 1] != 32 && bytes[end - 1] != 9
    }
}

proof fn lemma_trimmed_start(bytes: Seq<u8>)
    ensures
        trimmed_start(bytes).len() <= bytes.len(),
        trimmed_start(bytes) == bytes.skip(bytes.len() - trimmed_start(bytes).len()),
        forall|i: int|
            0 <= i < bytes.len() - trimmed_start(bytes).len() ==> #[trigger] bytes[i] == 32
                || bytes[i] == 9,
        trimmed_start(bytes).len() > 0 ==> trimmed_start(bytes)[0] != 32 && trimmed_start(bytes)[0]
            != 9,
    decreases bytes.len(),
{
    if bytes.len() > 0 && blank(bytes.first()) {
        let rest = bytes.drop_first();
        lemma_trimmed_start(rest);
        let cut = bytes.len() - trimmed_start(bytes).len();
        assert(bytes.skip(cut) =~= rest.skip(cut - 1));
        assert forall|i: int| 0 <= i < cut implies #[trigger] bytes[i] == 32 || bytes[i] == 9 by {
            if i > 0 {
                assert(rest[i - 1] == bytes[i]);
            }
        }
    } else {
        assert(bytes.skip(0) =~= bytes);
    }
}

proof fn lemma_trimmed_end(bytes: Seq<u8>)
    ensures
        trimmed_end(bytes).len() <= bytes.len(),
        trimmed_end(bytes) == bytes.take(trimmed_end(bytes).len() as int),
        forall|i: int|
            trimmed_end(bytes).len() <= i < bytes.len() ==> #[trigger] bytes[i] == 32 || bytes[i]
                == 9,
        trimmed_end(bytes).len() > 0 ==> trimmed_end(bytes).last() != 32
            && trimmed_end(bytes).last() != 9,
    decreases bytes.len(),
{
    if bytes.len() > 0 && blank(bytes.last()) {
        let rest = bytes.drop_last();
        lemma_trimmed_end(rest);
        let kept = trimmed_end(bytes).len() as int;
        assert(bytes.take(kept) =~= rest.take(kept));
        assert forall|i: int| kept <= i < bytes.len() implies #[trigger] bytes[i] == 32 || bytes[i]
            == 9 by {
            if i < rest.len() {
                assert(rest[i] == bytes[i]);
            }
        }
    } else {
        assert(bytes.take(bytes.len() as int) =~= bytes);
    }
}

/// A text holds another where it is made up of something, the other, and something else.
pub proof fn law_parts_stand_within_their_text(
    before: Seq<char>,
    part: Seq<char>,
    after: Seq<char>,
    text: Seq<char>,
)
    ensures
        holds(before + part + after, part),
        holds(text, part) ==> exists|i: int|
            0 <= i <= text.len() - part.len() && text == #[trigger] text.take(i) + part
                + text.skip(i + part.len()),
{
    let whole = before + part + after;
    let i = before.len() as int;
    assert(whole.subrange(i, i + part.len()) =~= part);
    if holds(text, part) {
        let i = choose|i: int|
            0 <= i <= text.len() - part.len() && #[trigger] text.subrange(i, i + part.len())
                == part;
        assert(text =~= text.take(i) + part + text.skip(i + part.len()));
    }
}

/// A text stands before another where it is a shorter start of it, or where at the first place at
/// which they differ it has the smaller character.
pub proof fn law_texts_are_ordered_by_their_first_difference(
    a: Seq<char>,
    b: Seq<char>,
    same: int,
)
    requires
        0 <= same <= a.len(),
        same <= b.len(),
        forall|i: int| 0 <= i < same ==> #[trigger] a[i] == b[i],
    ensures
        same == a.len() ==> (text_before(a, b) <==> a.len() < b.len()),
        same == b.len() ==> !text_before(a, b),
        same < a.len() && same < b.len() && a[same] != b[same] ==> (text_before(a, b) <==> a[same]
            < b[same]),
    decreases same,
{
    if same > 0 {
        let shorter_a = a.drop_first();
        let shorter_b = b.drop_first();
        assert(a[0] == b[0]);
        assert forall|i: int| 0 <= i < same - 1 implies #[trigger] shorter_a[i] == shorter_b[i] by {
            assert(a[i + 1] == b[i + 1]);
        }
        law_texts_are_ordered_by_their_first_difference(shorter_a, shorter_b, same - 1);
    }
}

/// Texts have the same letters where at each place they have the same character, or the capital and
/// the small form of one ASCII letter.
pub proof fn law_letters_differ_in_case_only(a: Seq<char>, b: Seq<char>)
    ensures
        same_letters(a, b) <==> a.len() == b.len() && forall|i: int|
            0 <= i < a.len() ==> alike(#[trigger] a[i], b[i]),
{
    if a.len() == b.len() {
        assert forall|i: int| 0 <= i < a.len() implies (capital(#[trigger] a[i]) == capital(b[i])
            <==> alike(a[i], b[i])) by {}
    }
}

/// Whether two characters are the same, or the capital and the small form of one ASCII letter.
pub open spec fn alike(a: char, b: char) -> bool {
    ||| a == b
    ||| 'a' <= a <= 'z' && b as u32 + 32 == a as u32
    ||| 'a' <= b <= 'z' && a as u32 + 32 == b as u32
}

/// The characters of ASCII bytes have their codes.
pub proof fn law_ascii_characters_have_their_codes(bytes: Seq<u8>, i: int)
    requires
        0 <= i < bytes.len(),
    ensures
        ascii_chars(bytes).len() == bytes.len(),
        ascii_chars(bytes)[i] as u32 == bytes[i] as u32,
{
}

} // verus!
