//! Text as a sequence of characters: searching, splitting, trimming and the
//! plain decimal and hexadecimal notations that the rest of the crate reads
//! and writes.
use vstd::prelude::*;

verus! {

/// `<str as PartialEq>::eq`: two string slices are equal exactly when they
/// hold the same characters.
pub assume_specification[ <str as PartialEq>::eq ](a: &str, b: &str) -> (res: bool)
    ensures
        res == (a@ == b@),
;

/// `String::push`: appends the given character to the end of the string.
pub assume_specification[ String::push ](s: &mut String, c: char)
    ensures
        final(s)@ == old(s)@.push(c),
;

/// The characters with Unicode's `White_Space` property.
pub open spec fn white_space(c: char) -> bool {
    ||| '\t' <= c <= '\r'
    ||| c == ' '
    ||| c == '\u{85}'
    ||| c == '\u{a0}'
    ||| c == '\u{1680}'
    ||| '\u{2000}' <= c <= '\u{200a}'
    ||| c == '\u{2028}'
    ||| c == '\u{2029}'
    ||| c == '\u{202f}'
    ||| c == '\u{205f}'
    ||| c == '\u{3000}'
}

/// Some character of `s` is white space.
pub open spec fn contains_white_space(s: Seq<char>) -> bool {
    exists|i: int| 0 <= i < s.len() && white_space(#[trigger] s[i])
}

/// `s` without the white space it starts with.
pub open spec fn trim_start(s: Seq<char>) -> Seq<char>
    decreases s.len(),
{
    if s.len() > 0 && white_space(s[0]) {
        trim_start(s.skip(1))
    } else {
        s
    }
}

/// `s` without the white space it ends with.
pub open spec fn trim_end(s: Seq<char>) -> Seq<char>
    decreases s.len(),
{
    if s.len() > 0 && white_space(s.last()) {
        trim_end(s.drop_last())
    } else {
        s
    }
}

/// `s` without the white space at either end.
pub open spec fn trim(s: Seq<char>) -> Seq<char> {
    trim_end(trim_start(s))
}

/// The pieces of `s` between one occurrence of `sep` and the next: always one
/// more piece than there are separators.
pub open spec fn split(s: Seq<char>, sep: char) -> Seq<Seq<char>>
    decreases s.len(),
{
    if s.len() == 0 {
        seq![Seq::<char>::empty()]
    } else {
        let pieces = split(s.drop_last(), sep);
        if s.last() == sep {
            pieces.push(Seq::<char>::empty())
        } else {
            pieces.drop_last().push(pieces.last().push(s.last()))
        }
    }
}

/// What stands before and after the first `sep` in `s`.
pub open spec fn split_once(s: Seq<char>, sep: char) -> Option<(Seq<char>, Seq<char>)> {
    match s.index_of_first(sep) {
        Some(i) => Some((s.take(i), s.skip(i + 1))),
        None => None,
    }
}

/// `needle` stands somewhere in `s`.
pub open spec fn contains_text(s: Seq<char>, needle: Seq<char>) -> bool {
    exists|i: int|
        0 <= i <= s.len() - needle.len() && #[trigger] s.subrange(i, i + needle.len()) == needle
}

/// The strings of a list, as sequences of characters.
pub open spec fn words(list: Seq<String>) -> Seq<Seq<char>> {
    list.map_values(|word: String| word@)
}

/// An optional string, as a sequence of characters.
pub open spec fn optional(s: Option<String>) -> Option<Seq<char>> {
    match s {
        Some(s) => Some(s@),
        None => None,
    }
}

/// The lists of characters, as sequences.
pub open spec fn char_lists(lists: Seq<Vec<char>>) -> Seq<Seq<char>> {
    lists.map_values(|list: Vec<char>| list@)
}

/// The value of a decimal digit.
pub open spec fn decimal_digit(c: char) -> Option<nat> {
    if '0' <= c <= '9' {
        Some((c as nat - '0' as nat) as nat)
    } else {
        None
    }
}

/// Every character of `s` is a decimal digit.
pub open spec fn all_decimal(s: Seq<char>) -> bool {
    forall|i: int| 0 <= i < s.len() ==> decimal_digit(#[trigger] s[i]) is Some
}

/// The number that the decimal digits `s` write.
pub open spec fn decimal_value(s: Seq<char>) -> nat
    decreases s.len(),
{
    if s.len() == 0 {
        0
    } else {
        decimal_value(s.drop_last()) * 10 + decimal_digit(s.last()).unwrap_or(0)
    }
}

/// Unsigned decimal notation up to `max`: an optional plus sign, then at least
/// one digit and nothing else.
pub open spec fn unsigned_number(s: Seq<char>, max: nat) -> Option<nat> {
    let digits = if s.len() > 0 && s[0] == '+' {
        s.skip(1)
    } else {
        s
    };
    if digits.len() > 0 && all_decimal(digits) && decimal_value(digits) <= max {
        Some(decimal_value(digits))
    } else {
        None
    }
}

/// The character that writes the digit `d`.
pub open spec fn digit_char(d: nat) -> char {
    if d < 10 {
        ('0' as nat + d) as char
    } else {
        ('a' as nat + d - 10) as char
    }
}

/// Decimal notation without leading zeros.
pub open spec fn decimal(n: nat) -> Seq<char>
    decreases n,
{
    if n < 10 {
        seq![digit_char(n)]
    } else {
        decimal(n / 10).push(digit_char(n % 10))
    }
}

/// The value of a hexadecimal digit of either case.
pub open spec fn hex_digit(c: char) -> Option<nat> {
    if '0' <= c <= '9' {
        Some((c as nat - '0' as nat) as nat)
    } else if 'a' <= c <= 'f' {
        Some((c as nat - 'a' as nat + 10) as nat)
    } else if 'A' <= c <= 'F' {
        Some((c as nat - 'A' as nat + 10) as nat)
    } else {
        None
    }
}

/// Every character of `s` is a hexadecimal digit.
pub open spec fn all_hex(s: Seq<char>) -> bool {
    forall|i: int| 0 <= i < s.len() ==> hex_digit(#[trigger] s[i]) is Some
}

/// The number that the hexadecimal digits `s` write.
pub open spec fn hex_value(s: Seq<char>) -> nat
    decreases s.len(),
{
    if s.len() == 0 {
        0
    } else {
        hex_value(s.drop_last()) * 16 + hex_digit(s.last()).unwrap_or(0)
    }
}

/// The greatest number that `digits` hexadecimal digits write.
pub open spec fn hex_limit(digits: nat) -> nat
    decreases digits,
{
    if digits == 0 {
        0
    } else {
        hex_limit((digits - 1) as nat) * 16 + 15
    }
}

/// Two lower-case hexadecimal digits.
pub open spec fn hex_byte(b: u8) -> Seq<char> {
    seq![digit_char(b as nat / 16), digit_char(b as nat % 16)]
}

/// The characters of `s`.
pub fn chars_of(s: &str) -> (chars: Vec<char>)
    ensures
        chars@ == s@,
{
    let mut chars: Vec<char> = Vec::new();
    for c in iter: s.chars()
        invariant
            iter.seq() == s@,
            chars@ == s@.take(iter.index()),
    {
        chars.push(c);
    }
    chars
}

/// The string made of `chars`.
pub fn string_of(chars: &[char]) -> (s: String)
    ensures
        s@ == chars@,
{
    let mut s = String::new();
    let mut i: usize = 0;
    while i < chars.len()
        invariant
            i <= chars@.len(),
            s@ == chars@.take(i as int),
        decreases chars@.len() - i,
    {
        s.push(chars[i]);
        i = i + 1;
    }
    s
}

/// A copy of an optional string.
pub fn clone_optional(s: &Option<String>) -> (copy: Option<String>)
    ensures
        optional(copy) == optional(*s),
{
    match s {
        Some(s) => Some(s.clone()),
        None => None,
    }
}

/// Whether `c` has Unicode's `White_Space` property.
pub fn is_white_space(c: char) -> (b: bool)
    ensures
        b == white_space(c),
{
    ('\t' <= c && c <= '\r') || c == ' ' || c == '\u{85}' || c == '\u{a0}' || c == '\u{1680}' || (
    '\u{2000}' <= c && c <= '\u{200a}') || c == '\u{2028}' || c == '\u{2029}' || c == '\u{202f}'
        || c == '\u{205f}' || c == '\u{3000}'
}

/// Whether some character of `chars` is white space.
pub fn has_white_space(chars: &[char]) -> (b: bool)
    ensures
        b == contains_white_space(chars@),
{
    let mut i: usize = 0;
    while i < chars.len()
        invariant
            i <= chars@.len(),
            forall|j: int| 0 <= j < i ==> !white_space(#[trigger] chars@[j]),
        decreases chars@.len() - i,
    {
        if is_white_space(chars[i]) {
            return true;
        }
        i = i + 1;
    }
    false
}

/// `chars` without the white space at either end.
pub fn trimmed(chars: &[char]) -> (rest: &[char])
    ensures
        rest@ == trim(chars@),
{
    let mut start: usize = 0;
    assert(chars@.skip(0) == chars@);
    while start < chars.len() && is_white_space(chars[start])
        invariant
            start <= chars@.len(),
            trim_start(chars@.skip(start as int)) == trim_start(chars@),
        decreases chars@.len() - start,
    {
        assert(chars@.skip(start as int).skip(1) == chars@.skip(start + 1));
        start = start + 1;
    }
    let mut end: usize = chars.len();
    assert(trim_start(chars@) == chars@.subrange(start as int, end as int));
    while start < end && is_white_space(chars[end - 1])
        invariant
            start <= end <= chars@.len(),
            trim_end(chars@.subrange(start as int, end as int)) == trim(chars@),
        decreases end - start,
    {
        assert(chars@.subrange(start as int, end as int).drop_last() == chars@.subrange(
            start as int,
            end - 1,
        ));
        end = end - 1;
    }
    vstd::slice::slice_subrange(chars, start, end)
}

/// The first position of `c` in `chars`.
pub fn position(chars: &[char], c: char) -> (i: Option<usize>)
    ensures
        match i {
            Some(i) => chars@.index_of_first(c) == Some(i as int) && i < chars@.len(),
            None => chars@.index_of_first(c) is None,
        },
{
    proof {
        chars@.index_of_first_ensures(c);
    }
    let mut i: usize = 0;
    while i < chars.len()
        invariant
            i <= chars@.len(),
            forall|j: int| 0 <= j < i ==> chars@[j] != c,
            match chars@.index_of_first(c) {
                Some(k) => 0 <= k < chars@.len() && chars@[k] == c && forall|j: int|
                    0 <= j < k < chars@.len() ==> chars@[j] != c,
                None => !chars@.contains(c),
            },
        decreases chars@.len() - i,
    {
        if chars[i] == c {
            assert(chars@.contains(c));
            return Some(i);
        }
        i = i + 1;
    }
    None
}

/// Whether `c` occurs in `chars`.
pub fn has_char(chars: &[char], c: char) -> (b: bool)
    ensures
        b == chars@.contains(c),
{
    proof {
        chars@.index_of_first_ensures(c);
    }
    position(chars, c).is_some()
}

/// Whether `chars` starts with `prefix`.
pub fn starts_with(chars: &[char], prefix: &[char]) -> (b: bool)
    ensures
        b == prefix@.is_prefix_of(chars@),
{
    if chars.len() < prefix.len() {
        return false;
    }
    let mut i: usize = 0;
    while i < prefix.len()
        invariant
            i <= prefix@.len() <= chars@.len(),
            forall|j: int| 0 <= j < i ==> prefix@[j] == chars@[j],
        decreases prefix@.len() - i,
    {
        if prefix[i] != chars[i] {
            assert(chars@.subrange(0, prefix@.len() as int)[i as int] == chars@[i as int]);
            return false;
        }
        i = i + 1;
    }
    true
}

/// Whether `needle` stands somewhere in `chars`.
pub fn has_text(chars: &[char], needle: &[char]) -> (b: bool)
    ensures
        b == contains_text(chars@, needle@),
{
    let mut i: usize = 0;
    while i <= chars.len() && needle.len() <= chars.len() - i
        invariant
            i <= chars@.len() + 1,
            i <= usize::MAX,
            forall|j: int|
                0 <= j < i && j <= chars@.len() - needle@.len() ==> #[trigger] chars@.subrange(
                    j,
                    j + needle@.len(),
                ) != needle@,
        decreases chars@.len() + 1 - i,
    {
        let rest = vstd::slice::slice_subrange(chars, i, chars.len());
        assert(rest@.subrange(0, needle@.len() as int) == chars@.subrange(
            i as int,
            i + needle@.len(),
        ));
        if starts_with(rest, needle) {
            return true;
        }
        if i == chars.len() {
            return false;
        }
        i = i + 1;
    }
    false
}

/// Splitting always yields a piece.
pub proof fn lemma_split_not_empty(s: Seq<char>, sep: char)
    ensures
        split(s, sep).len() > 0,
    decreases s.len(),
{
    if s.len() > 0 {
        lemma_split_not_empty(s.drop_last(), sep);
    }
}

/// The pieces of `chars` between the separators.
pub fn split_chars(chars: &[char], sep: char) -> (pieces: Vec<Vec<char>>)
    ensures
        char_lists(pieces@) == split(chars@, sep),
{
    let mut pieces: Vec<Vec<char>> = Vec::new();
    let mut current: Vec<char> = Vec::new();
    let mut i: usize = 0;
    assert(chars@.take(0) == Seq::<char>::empty());
    while i < chars.len()
        invariant
            i <= chars@.len(),
            pieces@.len() + 1 == split(chars@.take(i as int), sep).len(),
            forall|j: int|
                0 <= j < pieces@.len() ==> (#[trigger] pieces@[j])@ == split(
                    chars@.take(i as int),
                    sep,
                )[j],
            current@ == split(chars@.take(i as int), sep).last(),
        decreases chars@.len() - i,
    {
        assert(chars@.take(i + 1).drop_last() == chars@.take(i as int));
        let c = chars[i];
        if c == sep {
            pieces.push(current);
            current = Vec::new();
        } else {
            current.push(c);
        }
        i = i + 1;
    }
    assert(chars@.take(i as int) == chars@);
    pieces.push(current);
    assert(char_lists(pieces@) =~= split(chars@, sep));
    pieces
}

proof fn lemma_decimal_value_grows(s: Seq<char>, i: int)
    requires
        0 <= i <= s.len(),
    ensures
        decimal_value(s.take(i)) <= decimal_value(s),
    decreases s.len() - i,
{
    if i < s.len() {
        lemma_decimal_value_grows(s, i + 1);
        assert(s.take(i + 1).drop_last() == s.take(i));
    } else {
        assert(s.take(i) == s);
    }
}

/// Reads an unsigned decimal number of at most `max`.
pub fn parse_unsigned(chars: &[char], max: u64) -> (value: Option<u64>)
    ensures
        match value {
            Some(v) => unsigned_number(chars@, max as nat) == Some(v as nat),
            None => unsigned_number(chars@, max as nat) is None,
        },
{
    let start: usize = if chars.len() > 0 && chars[0] == '+' {
        1
    } else {
        0
    };
    let ghost digits = chars@.skip(start as int);
    if chars.len() == start {
        return None;
    }
    assert(start == 0 ==> digits == chars@);
    let mut value: u64 = 0;
    let mut i: usize = start;
    while i < chars.len()
        invariant
            start <= i <= chars@.len(),
            start <= 1,
            digits == chars@.skip(start as int),
            digits.len() > 0,
            unsigned_number(chars@, max as nat) == if all_decimal(digits) && decimal_value(digits)
                <= max {
                Some(decimal_value(digits))
            } else {
                None
            },
            forall|j: int| 0 <= j < i - start ==> decimal_digit(#[trigger] digits[j]) is Some,
            value == decimal_value(digits.take(i - start)),
            value <= max,
        decreases chars@.len() - i,
    {
        let c = chars[i];
        assert(c == digits[i - start]);
        if c < '0' || '9' < c {
            return None;
        }
        let d: u64 = c as u64 - '0' as u64;
        assert(digits.take(i - start + 1).drop_last() == digits.take(i - start));
        proof {
            lemma_decimal_value_grows(digits, i - start + 1);
        }
        if d > max || value > (max - d) / 10 {
            return None;
        }
        value = value * 10 + d;
        i = i + 1;
    }
    assert(digits.take(i - start) == digits);
    Some(value)
}

/// Appends the decimal notation of `n`.
pub fn push_decimal(s: &mut String, n: u64)
    ensures
        final(s)@ == old(s)@ + decimal(n as nat),
    decreases n,
{
    if n >= 10 {
        push_decimal(s, n / 10);
    }
    push_digit(s, (n % 10) as u8);
    assert(s@ == old(s)@ + decimal(n as nat));
}

/// Appends the character that writes the digit `d`.
pub fn push_digit(s: &mut String, d: u8)
    requires
        d < 16,
    ensures
        final(s)@ == old(s)@.push(digit_char(d as nat)),
{
    let c: char = if d < 10 {
        ('0' as u8 + d) as char
    } else {
        ('a' as u8 + (d - 10)) as char
    };
    s.push(c);
}

/// Appends two lower-case hexadecimal digits.
pub fn push_hex_byte(s: &mut String, b: u8)
    ensures
        final(s)@ == old(s)@ + hex_byte(b),
{
    push_digit(s, b / 16);
    push_digit(s, b % 16);
    assert(s@ == old(s)@ + hex_byte(b));
}

/// The value of a hexadecimal digit of either case.
pub fn hex_digit_value(c: char) -> (value: Option<u32>)
    ensures
        match value {
            Some(v) => hex_digit(c) == Some(v as nat) && v < 16,
            None => hex_digit(c) is None,
        },
{
    if '0' <= c && c <= '9' {
        Some(c as u32 - '0' as u32)
    } else if 'a' <= c && c <= 'f' {
        Some(c as u32 - 'a' as u32 + 10)
    } else if 'A' <= c && c <= 'F' {
        Some(c as u32 - 'A' as u32 + 10)
    } else {
        None
    }
}

/// Text without separators is one piece.
pub proof fn lemma_split_whole(s: Seq<char>, sep: char)
    requires
        !s.contains(sep),
    ensures
        split(s, sep) == seq![s],
    decreases s.len(),
{
    if s.len() > 0 {
        assert forall|i: int| 0 <= i < s.len() implies s[i] != sep by {
            assert(s.contains(s[i]));
        }
        assert(!s.drop_last().contains(sep));
        lemma_split_whole(s.drop_last(), sep);
        assert(split(s, sep) =~= seq![s.drop_last().push(s.last())]);
        assert(s.drop_last().push(s.last()) =~= s);
    } else {
        assert(s =~= Seq::empty());
    }
}

/// Text is split at a separator as if what stands before and after it were
/// split alone.
pub proof fn lemma_split_at_separator(a: Seq<char>, sep: char, b: Seq<char>)
    ensures
        split(a + seq![sep] + b, sep) == split(a, sep) + split(b, sep),
    decreases b.len(),
{
    let whole = a + seq![sep] + b;
    lemma_split_not_empty(a, sep);
    if b.len() == 0 {
        assert(whole.drop_last() =~= a);
        assert(split(whole, sep) =~= split(a, sep) + split(b, sep));
    } else {
        lemma_split_at_separator(a, sep, b.drop_last());
        lemma_split_not_empty(b.drop_last(), sep);
        assert(whole.drop_last() =~= a + seq![sep] + b.drop_last());
        assert(whole.last() == b.last());
        assert(split(whole, sep) =~= split(a, sep) + split(b, sep));
    }
}

/// The pieces with a separator after each but the last.
pub open spec fn join_pieces(pieces: Seq<Seq<char>>, sep: char) -> Seq<char>
    decreases pieces.len(),
{
    if pieces.len() == 0 {
        Seq::empty()
    } else if pieces.len() == 1 {
        pieces[0]
    } else {
        join_pieces(pieces.drop_last(), sep) + seq![sep] + pieces.last()
    }
}

/// Splitting loses nothing: the pieces with the separators between them are the
/// text, and no piece holds a separator.
pub proof fn lemma_split_is_exact(s: Seq<char>, sep: char)
    ensures
        join_pieces(split(s, sep), sep) == s,
        forall|i: int| 0 <= i < split(s, sep).len() ==> !(#[trigger] split(s, sep)[i]).contains(sep),
    decreases s.len(),
{
    lemma_split_not_empty(s, sep);
    if s.len() > 0 {
        let shorter = split(s.drop_last(), sep);
        let pieces = split(s, sep);
        lemma_split_is_exact(s.drop_last(), sep);
        lemma_split_not_empty(s.drop_last(), sep);
        assert(s =~= s.drop_last().push(s.last()));
        if s.last() == sep {
            assert(pieces.drop_last() =~= shorter);
            assert(join_pieces(pieces, sep) =~= s);
        } else {
            assert(pieces.drop_last() =~= shorter.drop_last());
            assert(pieces.last() == shorter.last().push(s.last()));
            assert(join_pieces(pieces, sep) =~= s);
            assert forall|i: int| 0 <= i < pieces.len() implies !(#[trigger] pieces[i]).contains(
                sep,
            ) by {
                if i < pieces.len() - 1 {
                    assert(pieces[i] == shorter[i]);
                } else {
                    let kept = shorter[shorter.len() - 1];
                    assert(!kept.contains(sep));
                    assert forall|k: int| 0 <= k < pieces[i].len() implies pieces[i][k] != sep by {
                        if k < kept.len() {
                            assert(kept.contains(kept[k]));
                        }
                    }
                }
            }
        }
    }
}

/// Text that neither starts nor ends with white space stays as it is.
pub proof fn lemma_trim_keeps(s: Seq<char>)
    requires
        s.len() > 0 ==> !white_space(s[0]) && !white_space(s.last()),
    ensures
        trim(s) == s,
{
}

/// Trimmed text neither starts nor ends with white space.
pub proof fn lemma_trimmed_ends(s: Seq<char>)
    ensures
        trim(s).len() > 0 ==> !white_space(trim(s)[0]) && !white_space(trim(s).last()),
{
    lemma_trim_start_ends(s);
    lemma_trim_end_ends(trim_start(s));
}

proof fn lemma_trim_start_ends(s: Seq<char>)
    ensures
        trim_start(s).len() > 0 ==> !white_space(trim_start(s)[0]),
    decreases s.len(),
{
    if s.len() > 0 && white_space(s[0]) {
        lemma_trim_start_ends(s.skip(1));
    }
}

proof fn lemma_trim_end_ends(s: Seq<char>)
    ensures
        trim_end(s).len() > 0 ==> !white_space(trim_end(s).last()) && trim_end(s)[0] == s[0],
    decreases s.len(),
{
    if s.len() > 0 && white_space(s.last()) {
        lemma_trim_end_ends(s.drop_last());
    }
}

/// Trimmed text is a part of the text.
pub proof fn lemma_trim_is_part(s: Seq<char>, c: char)
    ensures
        trim(s).contains(c) ==> s.contains(c),
{
    lemma_trim_start_is_part(s, c);
    lemma_trim_end_is_part(trim_start(s), c);
}

proof fn lemma_trim_start_is_part(s: Seq<char>, c: char)
    ensures
        trim_start(s).contains(c) ==> s.contains(c),
    decreases s.len(),
{
    if s.len() > 0 && white_space(s[0]) {
        lemma_trim_start_is_part(s.skip(1), c);
        if s.skip(1).contains(c) {
            let i = choose|i: int| 0 <= i < s.skip(1).len() && s.skip(1)[i] == c;
            assert(s[i + 1] == c);
        }
    }
}

proof fn lemma_trim_end_is_part(s: Seq<char>, c: char)
    ensures
        trim_end(s).contains(c) ==> s.contains(c),
    decreases s.len(),
{
    if s.len() > 0 && white_space(s.last()) {
        lemma_trim_end_is_part(s.drop_last(), c);
        if s.drop_last().contains(c) {
            let i = choose|i: int| 0 <= i < s.drop_last().len() && s.drop_last()[i] == c;
            assert(s[i] == c);
        }
    }
}

/// The pieces hold only characters of the text.
pub proof fn lemma_piece_is_part(s: Seq<char>, sep: char, i: int, c: char)
    requires
        0 <= i < split(s, sep).len(),
        split(s, sep)[i].contains(c),
    ensures
        s.contains(c),
    decreases s.len(),
{
    if s.len() > 0 {
        let shorter = split(s.drop_last(), sep);
        let piece = split(s, sep)[i];
        lemma_split_not_empty(s.drop_last(), sep);
        if c == s.last() {
            assert(s[s.len() - 1] == c);
        } else {
            let k = choose|k: int| 0 <= k < piece.len() && piece[k] == c;
            if s.last() != sep && i == shorter.len() - 1 {
                assert(shorter[i][k] == c);
            }
            assert(shorter[i].contains(c));
            lemma_piece_is_part(s.drop_last(), sep, i, c);
            let j = choose|j: int| 0 <= j < s.drop_last().len() && s.drop_last()[j] == c;
            assert(s[j] == c);
        }
    }
}

/// White space alone is trimmed away.
pub proof fn lemma_blank_trims_away(s: Seq<char>)
    requires
        forall|i: int| 0 <= i < s.len() ==> white_space(#[trigger] s[i]),
    ensures
        trim(s).len() == 0,
    decreases s.len(),
{
    if s.len() > 0 {
        lemma_blank_trims_away(s.skip(1));
    }
}

proof fn lemma_decimal_digits(n: nat)
    ensures
        decimal(n).len() > 0,
        all_decimal(decimal(n)),
        decimal_value(decimal(n)) == n,
    decreases n,
{
    if n < 10 {
        assert(decimal(n).drop_last() =~= Seq::empty());
        reveal_with_fuel(decimal_value, 2);
    } else {
        lemma_decimal_digits(n / 10);
        assert(decimal(n).drop_last() =~= decimal(n / 10));
    }
}

/// Decimal notation reads back as the number it was written from.
pub proof fn lemma_decimal_reads_back(n: nat, max: nat)
    requires
        n <= max,
    ensures
        unsigned_number(decimal(n), max) == Some(n),
        all_decimal(decimal(n)),
        decimal(n).len() > 0,
{
    lemma_decimal_digits(n);
    assert(decimal_digit(decimal(n)[0]) is Some);
}

/// Two hexadecimal digits write the byte.
pub proof fn lemma_hex_byte(b: u8)
    ensures
        all_hex(hex_byte(b)),
        hex_value(hex_byte(b)) == b,
        !hex_byte(b).contains('/'),
{
    let s = hex_byte(b);
    reveal_with_fuel(hex_value, 3);
    assert(s.drop_last() =~= seq![digit_char(b as nat / 16)]);
    assert(s.drop_last().drop_last() =~= Seq::empty());
}

/// The strings of a list are taken one for one, in their order.
pub proof fn lemma_words_one_for_one(list: Seq<String>)
    ensures
        words(list).len() == list.len(),
        forall|i: int| 0 <= i < list.len() ==> #[trigger] words(list)[i] == list[i]@,
{
}

/// The lists of characters are taken one for one, in their order.
pub proof fn lemma_char_lists_one_for_one(lists: Seq<Vec<char>>)
    ensures
        char_lists(lists).len() == lists.len(),
        forall|i: int| 0 <= i < lists.len() ==> #[trigger] char_lists(lists)[i] == lists[i]@,
{
}

/// An optional string is there exactly where its characters are.
pub proof fn lemma_optional_keeps_characters(s: Option<String>)
    ensures
        s is None <==> optional(s) is None,
        s matches Some(text) ==> optional(s) == Some(text@),
{
}

/// What trimming takes away stands at the two ends, and is white space.
pub proof fn lemma_trim_takes_ends(s: Seq<char>) -> (ends: (Seq<char>, Seq<char>))
    ensures
        s == ends.0 + trim(s) + ends.1,
        forall|i: int| 0 <= i < ends.0.len() ==> white_space(#[trigger] ends.0[i]),
        forall|i: int| 0 <= i < ends.1.len() ==> white_space(#[trigger] ends.1[i]),
{
    let head = lemma_trim_start_takes(s);
    let tail = lemma_trim_end_takes(trim_start(s));
    assert(head + trim(s) + tail =~= head + (trim(s) + tail));
    (head, tail)
}

proof fn lemma_trim_start_takes(s: Seq<char>) -> (head: Seq<char>)
    ensures
        s == head + trim_start(s),
        forall|i: int| 0 <= i < head.len() ==> white_space(#[trigger] head[i]),
    decreases s.len(),
{
    if s.len() > 0 && white_space(s[0]) {
        let head = lemma_trim_start_takes(s.skip(1));
        assert(s =~= seq![s[0]] + s.skip(1));
        assert(seq![s[0]] + (head + trim_start(s)) =~= (seq![s[0]] + head) + trim_start(s));
        seq![s[0]] + head
    } else {
        assert(s =~= Seq::empty() + s);
        Seq::empty()
    }
}

proof fn lemma_trim_end_takes(s: Seq<char>) -> (tail: Seq<char>)
    ensures
        s == trim_end(s) + tail,
        forall|i: int| 0 <= i < tail.len() ==> white_space(#[trigger] tail[i]),
    decreases s.len(),
{
    if s.len() > 0 && white_space(s.last()) {
        let tail = lemma_trim_end_takes(s.drop_last());
        assert(s =~= s.drop_last().push(s.last()));
        assert((trim_end(s) + tail).push(s.last()) =~= trim_end(s) + tail.push(s.last()));
        tail.push(s.last())
    } else {
        assert(s =~= s + Seq::empty());
        Seq::empty()
    }
}

/// Text is cut once at its first separator, and only where it has one.
pub proof fn lemma_split_once_at_first(s: Seq<char>, sep: char, a: Seq<char>, b: Seq<char>)
    ensures
        split_once(s, sep) == Some((a, b)) <==> s == a + seq![sep] + b && !a.contains(sep),
        split_once(s, sep) is None <==> !s.contains(sep),
{
    s.index_of_first_ensures(sep);
    if s == a + seq![sep] + b && !a.contains(sep) {
        assert(s[a.len() as int] == sep);
        assert(s.contains(sep));
        assert forall|j: int| 0 <= j < a.len() implies s[j] != sep by {
            assert(a.contains(a[j]));
        }
        assert(s.index_of_first(sep) == Some(a.len() as int));
        assert(s.take(a.len() as int) =~= a);
        assert(s.skip(a.len() as int + 1) =~= b);
    }
    match s.index_of_first(sep) {
        Some(i) => {
            assert(s =~= s.take(i) + seq![sep] + s.skip(i + 1));
            assert(!s.take(i).contains(sep));
            assert(s.contains(s[i]));
        },
        None => {},
    }
}

/// A needle stands in a text exactly where the text is something, the needle and
/// something.
pub proof fn lemma_contained_text_is_part(s: Seq<char>, needle: Seq<char>)
    ensures
        contains_text(s, needle) <==> exists|a: Seq<char>, b: Seq<char>| s == #[trigger] (a + needle
            + b),
{
    if contains_text(s, needle) {
        let i = choose|i: int|
            0 <= i <= s.len() - needle.len() && #[trigger] s.subrange(i, i + needle.len())
                == needle;
        assert(s =~= s.take(i) + needle + s.skip(i + needle.len()));
    }
    if exists|a: Seq<char>, b: Seq<char>| s == #[trigger] (a + needle + b) {
        let (a, b) = choose|a: Seq<char>, b: Seq<char>| s == #[trigger] (a + needle + b);
        assert(s.subrange(a.len() as int, a.len() as int + needle.len()) =~= needle);
    }
}

/// White space around a text changes nothing of whether a needle that does not
/// itself start or end with white space stands in it.
pub proof fn lemma_trim_hides_no_text(s: Seq<char>, needle: Seq<char>)
    requires
        needle.len() > 0,
        !white_space(needle[0]),
        !white_space(needle.last()),
    ensures
        contains_text(trim(s), needle) <==> contains_text(s, needle),
{
    let (head, tail) = lemma_trim_takes_ends(s);
    let middle = trim(s);
    let n = needle.len() as int;
    if contains_text(middle, needle) {
        let i = choose|i: int|
            0 <= i <= middle.len() - n && #[trigger] middle.subrange(i, i + n) == needle;
        assert(s.subrange(head.len() + i, head.len() + i + n) =~= middle.subrange(i, i + n));
    }
    if contains_text(s, needle) {
        let i = choose|i: int| 0 <= i <= s.len() - n && #[trigger] s.subrange(i, i + n) == needle;
        let part = s.subrange(i, i + n);
        assert(part[0] == s[i] && part[n - 1] == s[i + n - 1]);
        if i < head.len() {
            assert(head[i] == s[i]);
        }
        if i + n > head.len() + middle.len() {
            assert(tail[i + n - 1 - head.len() - middle.len()] == s[i + n - 1]);
        }
        let k = i - head.len();
        assert(middle.subrange(k, k + n) =~= part);
    }
}

/// No text is no number. A number is read digit by digit: one more digit makes
/// it ten times as great and adds the digit, anything else makes it no number, a
/// plus sign counts only in front, and a number above the limit is none.
pub proof fn lemma_number_by_last_digit(s: Seq<char>, c: char, max: nat)
    ensures
        unsigned_number(Seq::empty(), max) is None,
        !('0' <= c <= '9') ==> unsigned_number(s.push(c), max) is None,
        '0' <= c <= '9' && (s.len() == 0 || s == seq!['+']) ==> unsigned_number(s.push(c), max)
            == (if c as nat - '0' as nat <= max {
            Some((c as nat - '0' as nat) as nat)
        } else {
            None
        }),
        '0' <= c <= '9' && s.len() > 0 && s != seq!['+'] ==> unsigned_number(s.push(c), max) == (
        match unsigned_number(s, max) {
            Some(n) => if n * 10 + (c as nat - '0' as nat) <= max {
                Some((n * 10 + (c as nat - '0' as nat)) as nat)
            } else {
                None
            },
            None => None,
        }),
{
    let longer = s.push(c);
    let signed = longer[0] == '+';
    let digits = if signed {
        longer.skip(1)
    } else {
        longer
    };
    reveal_with_fuel(decimal_value, 2);
    if digits.len() > 0 {
        assert(digits.last() == c);
        let before = digits.drop_last();
        if s.len() > 0 {
            assert(before =~= if s[0] == '+' {
                s.skip(1)
            } else {
                s
            });
            if s.len() == 1 && s[0] == '+' {
                assert(s =~= seq!['+']);
            }
            if all_decimal(digits) {
                assert forall|i: int| 0 <= i < before.len() implies decimal_digit(
                    #[trigger] before[i],
                ) is Some by {
                    assert(decimal_digit(digits[i]) is Some);
                }
                assert(decimal_digit(digits[digits.len() - 1]) is Some);
            }
            if all_decimal(before) && '0' <= c <= '9' {
                assert forall|i: int| 0 <= i < digits.len() implies decimal_digit(
                    #[trigger] digits[i],
                ) is Some by {
                    if i < before.len() {
                        assert(decimal_digit(before[i]) is Some);
                    }
                }
            }
        } else {
            assert(before =~= Seq::empty());
        }
        if !('0' <= c <= '9') {
            assert(decimal_digit(digits[digits.len() - 1]) is None);
        }
    }
}

/// Decimal notation has no leading zero.
pub proof fn lemma_decimal_is_shortest(n: nat)
    ensures
        decimal(n)[0] == '0' ==> n == 0 && decimal(n) == seq!['0'],
    decreases n,
{
    if n >= 10 {
        lemma_decimal_is_shortest(n / 10);
        lemma_decimal_digits(n / 10);
        assert(decimal(n)[0] == decimal(n / 10)[0]);
    }
}

/// Hexadecimal digits write a number digit by digit: one more makes it sixteen
/// times as great and adds the digit.
pub proof fn lemma_hex_by_last_digit(s: Seq<char>, c: char)
    requires
        hex_digit(c) is Some,
    ensures
        hex_value(Seq::empty()) == 0,
        hex_value(s.push(c)) == hex_value(s) * 16 + hex_digit(c)->0,
        all_hex(s.push(c)) <==> all_hex(s),
        '0' <= c <= '9' ==> hex_digit(c) == Some((c as nat - '0' as nat) as nat),
        'a' <= c <= 'f' ==> hex_digit(c) == Some((c as nat - 'a' as nat + 10) as nat),
        'A' <= c <= 'F' ==> hex_digit(c) == Some((c as nat - 'A' as nat + 10) as nat),
{
    let longer = s.push(c);
    assert(longer.drop_last() =~= s);
    if all_hex(longer) {
        assert forall|i: int| 0 <= i < s.len() implies hex_digit(#[trigger] s[i]) is Some by {
            assert(hex_digit(longer[i]) is Some);
        }
    }
    if all_hex(s) {
        assert forall|i: int| 0 <= i < longer.len() implies hex_digit(
            #[trigger] longer[i],
        ) is Some by {
            if i < s.len() {
                assert(hex_digit(s[i]) is Some);
            }
        }
    }
}

/// Only the decimal digits and the letters up to f, of either case, are
/// hexadecimal digits.
pub proof fn lemma_hex_digits(s: Seq<char>)
    ensures
        all_hex(s) <==> forall|i: int|
            0 <= i < s.len() ==> {
                ||| '0' <= #[trigger] s[i] <= '9'
                ||| 'a' <= s[i] <= 'f'
                ||| 'A' <= s[i] <= 'F'
            },
{
    if all_hex(s) {
        assert forall|i: int| 0 <= i < s.len() implies {
            ||| '0' <= #[trigger] s[i] <= '9'
            ||| 'a' <= s[i] <= 'f'
            ||| 'A' <= s[i] <= 'F'
        } by {
            assert(hex_digit(s[i]) is Some);
        }
    }
}

/// Pieces are joined one after the other, with a separator before each but the
/// first.
pub proof fn lemma_join_by_last_piece(pieces: Seq<Seq<char>>, piece: Seq<char>, sep: char)
    ensures
        join_pieces(Seq::empty(), sep) == Seq::<char>::empty(),
        join_pieces(seq![piece], sep) == piece,
        pieces.len() > 0 ==> join_pieces(pieces.push(piece), sep) == join_pieces(pieces, sep)
            + seq![sep] + piece,
{
    assert(pieces.push(piece).drop_last() =~= pieces);
}

/// Pieces without separators come back from their join.
pub proof fn lemma_join_splits_back(pieces: Seq<Seq<char>>, sep: char)
    requires
        pieces.len() > 0,
        forall|i: int| 0 <= i < pieces.len() ==> !(#[trigger] pieces[i]).contains(sep),
    ensures
        split(join_pieces(pieces, sep), sep) == pieces,
    decreases pieces.len(),
{
    assert(!pieces[pieces.len() - 1].contains(sep));
    lemma_split_whole(pieces.last(), sep);
    if pieces.len() == 1 {
        assert(pieces =~= seq![pieces[0]]);
    } else {
        let shorter = pieces.drop_last();
        assert forall|i: int| 0 <= i < shorter.len() implies !(#[trigger] shorter[i]).contains(
            sep,
        ) by {
            assert(!pieces[i].contains(sep));
        }
        lemma_join_splits_back(shorter, sep);
        lemma_split_at_separator(join_pieces(shorter, sep), sep, pieces.last());
        assert(shorter + seq![pieces.last()] =~= pieces);
    }
}

/// A byte is written by its two lower-case hexadecimal digits.
pub proof fn lemma_hex_byte_digits(b: u8)
    ensures
        hex_byte(b).len() == 2,
        hex_digit(hex_byte(b)[0]) == Some((b / 16) as nat),
        hex_digit(hex_byte(b)[1]) == Some((b % 16) as nat),
        forall|i: int| 0 <= i < 2 ==> !('A' <= #[trigger] hex_byte(b)[i] <= 'F'),
{
}

} // verus!
