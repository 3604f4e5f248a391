//! Characters and decimal numbers: the small amount of text handling that
//! error messages, kernel names and the tuning store need.

use vstd::prelude::*;

verus! {

/// `String::push`: appends one character.
pub assume_specification[ String::push ](text: &mut String, c: char)
    ensures
        final(text)@ == old(text)@.push(c),
;

/// The decimal digit that stands for `d`.
pub open spec fn digit_char(d: int) -> char {
    if d == 0 { '0' }
    else if d == 1 { '1' }
    else if d == 2 { '2' }
    else if d == 3 { '3' }
    else if d == 4 { '4' }
    else if d == 5 { '5' }
    else if d == 6 { '6' }
    else if d == 7 { '7' }
    else if d == 8 { '8' }
    else { '9' }
}

/// The decimal form of `n`, without leading zeros.
pub open spec fn decimal(n: nat) -> Seq<char>
    decreases n,
{
    if n < 10 {
        seq![digit_char(n as int)]
    } else {
        decimal(n / 10).push(digit_char((n % 10) as int))
    }
}

/// The value of a digit character, if it is one.
pub open spec fn digit_value(c: char) -> Option<int> {
    if c == '0' { Some(0int) }
    else if c == '1' { Some(1int) }
    else if c == '2' { Some(2int) }
    else if c == '3' { Some(3int) }
    else if c == '4' { Some(4int) }
    else if c == '5' { Some(5int) }
    else if c == '6' { Some(6int) }
    else if c == '7' { Some(7int) }
    else if c == '8' { Some(8int) }
    else if c == '9' { Some(9int) }
    else { None }
}

/// Whether every character of `s` is a decimal digit.
pub open spec fn all_digits(s: Seq<char>) -> bool {
    forall|i: int| 0 <= i < s.len() ==> (#[trigger] digit_value(s[i])) is Some
}

/// The number that a sequence of digits denotes, most significant first.
pub open spec fn digits_value(s: Seq<char>) -> nat
    decreases s.len(),
{
    if s.len() == 0 {
        0
    } else {
        (digits_value(s.drop_last()) * 10 + (match digit_value(s.last()) {
            Some(d) => d as nat,
            None => 0,
        })) as nat
    }
}

pub(crate) fn digit(d: u64) -> (c: char)
    requires
        d < 10,
    ensures
        c == digit_char(d as int),
{
    if d == 0 { '0' }
    else if d == 1 { '1' }
    else if d == 2 { '2' }
    else if d == 3 { '3' }
    else if d == 4 { '4' }
    else if d == 5 { '5' }
    else if d == 6 { '6' }
    else if d == 7 { '7' }
    else if d == 8 { '8' }
    else { '9' }
}

fn value_of_digit(c: char) -> (d: Option<u64>)
    ensures
        d is Some <==> digit_value(c) is Some,
        d is Some ==> d->0 as int == digit_value(c)->0 && d->0 < 10,
{
    if c == '0' { Some(0) }
    else if c == '1' { Some(1) }
    else if c == '2' { Some(2) }
    else if c == '3' { Some(3) }
    else if c == '4' { Some(4) }
    else if c == '5' { Some(5) }
    else if c == '6' { Some(6) }
    else if c == '7' { Some(7) }
    else if c == '8' { Some(8) }
    else if c == '9' { Some(9) }
    else { None }
}

/// Appends the decimal form of `n`.
pub fn push_decimal(text: &mut String, n: u64)
    ensures
        final(text)@ == old(text)@ + decimal(n as nat),
    decreases n,
{
    if n >= 10 {
        push_decimal(text, n / 10);
    }
    text.push(digit(n % 10));
    assert(text@ =~= old(text)@ + decimal(n as nat));
}

/// Appends a string.
pub fn push_text(text: &mut String, piece: &str)
    ensures
        final(text)@ == old(text)@ + piece@,
{
    text.append(piece);
}

/// The debug form of a list of numbers: `[1, 2, 3]`.
pub open spec fn list_text(s: Seq<u32>) -> Seq<char> {
    seq!['['] + list_items(s) + seq![']']
}

/// The items of [`list_text`], separated by a comma and a space.
pub open spec fn list_items(s: Seq<u32>) -> Seq<char>
    decreases s.len(),
{
    if s.len() == 0 {
        Seq::empty()
    } else if s.len() == 1 {
        decimal(s[0] as nat)
    } else {
        list_items(s.drop_last()) + seq![',', ' '] + decimal(s.last() as nat)
    }
}

/// Appends the debug form of a list of numbers.
pub fn push_list(text: &mut String, items: &[u32])
    ensures
        final(text)@ == old(text)@ + list_text(items@),
{
    text.push('[');
    let mut i: usize = 0;
    let ghost start = text@;
    while i < items.len()
        invariant
            i <= items@.len(),
            text@ =~= start + list_items(items@.take(i as int)),
        decreases items.len() - i,
    {
        if i > 0 {
            text.push(',');
            text.push(' ');
        }
        push_decimal(text, items[i] as u64);
        proof {
            let next = items@.take(i + 1);
            assert(next.drop_last() =~= items@.take(i as int));
            assert(next.last() == items@[i as int]);
            if i == 0 {
                assert(items@.take(0) =~= Seq::<u32>::empty());
            }
        }
        i = i + 1;
    }
    assert(items@.take(items@.len() as int) =~= items@);
    text.push(']');
    assert(text@ =~= old(text)@ + list_text(items@));
}

/// The characters of a string, by position.
pub fn to_chars(text: &str) -> (chars: Vec<char>)
    ensures
        chars@ == text@,
{
    let n: usize = text.unicode_len();
    let mut chars: Vec<char> = Vec::new();
    let mut i: usize = 0;
    while i < n
        invariant
            i <= n,
            n == text@.len(),
            chars@ =~= text@.take(i as int),
        decreases n - i,
    {
        let c: char = text.get_char(i);
        chars.push(c);
        proof {
            assert(text@.take(i + 1) =~= text@.take(i as int).push(text@[i as int]));
        }
        i = i + 1;
    }
    assert(chars@ =~= text@);
    chars
}

/// Appends the characters of `chars` from `from` up to, not with, `to`.
pub fn push_chars(text: &mut String, chars: &[char], from: usize, to: usize)
    requires
        from <= to <= chars@.len(),
    ensures
        final(text)@ == old(text)@ + chars@.subrange(from as int, to as int),
{
    let mut i: usize = from;
    while i < to
        invariant
            from <= i <= to <= chars@.len(),
            text@ =~= old(text)@ + chars@.subrange(from as int, i as int),
        decreases to - i,
    {
        text.push(chars[i]);
        i = i + 1;
    }
}

/// Whether two strings hold the same characters.
pub fn same_text(a: &str, b: &str) -> (r: bool)
    ensures
        r == (a@ == b@),
{
    let n: usize = a.unicode_len();
    if n != b.unicode_len() {
        return false;
    }
    let mut i: usize = 0;
    while i < n
        invariant
            i <= n,
            n == a@.len(),
            n == b@.len(),
            forall|j: int| 0 <= j < i ==> a@[j] == b@[j],
        decreases n - i,
    {
        if a.get_char(i) != b.get_char(i) {
            return false;
        }
        i = i + 1;
    }
    assert(a@ =~= b@);
    true
}

/// Whether `needle` stands in `hay` at position `at`.
pub open spec fn stands_at(hay: Seq<char>, needle: Seq<char>, at: int) -> bool {
    &&& 0 <= at
    &&& at + needle.len() <= hay.len()
    &&& hay.subrange(at, at + needle.len()) == needle
}

/// Whether `hay` begins with `needle`.
pub open spec fn starts_with(hay: Seq<char>, needle: Seq<char>) -> bool {
    stands_at(hay, needle, 0)
}

/// Whether `hay` ends with `needle`.
pub open spec fn ends_with(hay: Seq<char>, needle: Seq<char>) -> bool {
    stands_at(hay, needle, hay.len() - needle.len())
}

/// Whether `needle` stands anywhere in `hay`.
pub open spec fn contains(hay: Seq<char>, needle: Seq<char>) -> bool {
    exists|at: int| stands_at(hay, needle, at)
}

fn text_at(hay: &str, needle: &str, at: usize) -> (r: bool)
    requires
        at <= hay@.len(),
    ensures
        r == stands_at(hay@, needle@, at as int),
{
    let h: usize = hay.unicode_len();
    let n: usize = needle.unicode_len();
    if n > h - at {
        return false;
    }
    let mut i: usize = 0;
    while i < n
        invariant
            i <= n,
            at <= h,
            n <= h - at,
            h == hay@.len(),
            n == needle@.len(),
            forall|j: int| 0 <= j < i ==> hay@[at + j] == needle@[j],
        decreases n - i,
    {
        if hay.get_char(at + i) != needle.get_char(i) {
            assert(hay@.subrange(at as int, at + n)[i as int] != needle@[i as int]);
            return false;
        }
        i = i + 1;
    }
    assert(hay@.subrange(at as int, at + n) =~= needle@);
    true
}

/// Decides [`starts_with`].
pub fn text_starts_with(hay: &str, needle: &str) -> (r: bool)
    ensures
        r == starts_with(hay@, needle@),
{
    text_at(hay, needle, 0)
}

/// Decides [`ends_with`].
pub fn text_ends_with(hay: &str, needle: &str) -> (r: bool)
    ensures
        r == ends_with(hay@, needle@),
{
    let h: usize = hay.unicode_len();
    let n: usize = needle.unicode_len();
    if n > h {
        return false;
    }
    text_at(hay, needle, h - n)
}

/// Decides [`contains`].
pub fn text_contains(hay: &str, needle: &str) -> (r: bool)
    ensures
        r == contains(hay@, needle@),
{
    let h: usize = hay.unicode_len();
    let n: usize = needle.unicode_len();
    if n > h {
        return false;
    }
    let mut at: usize = 0;
    while at <= h - n
        invariant
            n <= h,
            at <= h - n + 1,
            h == hay@.len(),
            n == needle@.len(),
            forall|j: int| 0 <= j < at ==> !stands_at(hay@, needle@, j),
        decreases h - n + 1 - at,
    {
        if text_at(hay, needle, at) {
            return true;
        }
        if at == h - n {
            return false;
        }
        at = at + 1;
    }
    false
}

/// The characters of Unicode's White_Space property.
pub open spec fn is_white_space(c: char) -> bool {
    let v = c as u32;
    ||| 0x9 <= v <= 0xD
    ||| v == 0x20
    ||| v == 0x85
    ||| v == 0xA0
    ||| v == 0x1680
    ||| 0x2000 <= v <= 0x200A
    ||| v == 0x2028
    ||| v == 0x2029
    ||| v == 0x202F
    ||| v == 0x205F
    ||| v == 0x3000
}

/// Decides [`is_white_space`].
pub fn white_space(c: char) -> (r: bool)
    ensures
        r == is_white_space(c),
{
    let v: u32 = c as u32;
    (0x9 <= v && v <= 0xD) || v == 0x20 || v == 0x85 || v == 0xA0 || v == 0x1680
        || (0x2000 <= v && v <= 0x200A) || v == 0x2028 || v == 0x2029 || v == 0x202F
        || v == 0x205F || v == 0x3000
}

/// `s` without white space at either end.
pub open spec fn trimmed(s: Seq<char>) -> Seq<char>
    decreases s.len(),
{
    if s.len() == 0 {
        s
    } else if is_white_space(s.first()) {
        trimmed(s.drop_first())
    } else if is_white_space(s.last()) {
        trimmed(s.drop_last())
    } else {
        s
    }
}

/// `c` with an ASCII capital turned into its small letter.
pub open spec fn ascii_lower_char(c: char) -> char {
    let v = c as u32;
    if 65 <= v <= 90 {
        ((v + 32) as u8) as char
    } else {
        c
    }
}

/// `s` with every ASCII capital turned into its small letter.
pub open spec fn ascii_lower(s: Seq<char>) -> Seq<char> {
    Seq::new(s.len(), |i: int| ascii_lower_char(s[i]))
}

/// `text` without white space at either end and in ASCII lower case.
pub fn normalized(text: &str) -> (r: String)
    ensures
        r@ == ascii_lower(trimmed(text@)),
{
    let chars: Vec<char> = to_chars(text);
    let mut from: usize = 0;
    let mut to: usize = chars.len();
    assert(chars@.subrange(0, to as int) =~= chars@);
    while from < to && white_space(chars[from])
        invariant
            from <= to,
            to == chars@.len(),
            trimmed(chars@.subrange(from as int, to as int)) == trimmed(chars@),
        decreases to - from,
    {
        assert(chars@.subrange(from as int, to as int).drop_first() =~= chars@.subrange(from + 1, to as int));
        from = from + 1;
    }
    while from < to && white_space(chars[to - 1])
        invariant
            from <= to,
            to <= chars@.len(),
            from < to ==> !is_white_space(chars@[from as int]),
            trimmed(chars@.subrange(from as int, to as int)) == trimmed(chars@),
        decreases to - from,
    {
        assert(chars@.subrange(from as int, to as int).drop_last() =~= chars@.subrange(from as int, to - 1));
        to = to - 1;
    }
    assert(trimmed(chars@.subrange(from as int, to as int)) == chars@.subrange(from as int, to as int));
    lowered_chars(&chars, from, to)
}

fn lowered_chars(chars: &[char], from: usize, to: usize) -> (out: String)
    requires
        from <= to <= chars@.len(),
    ensures
        out@ == ascii_lower(chars@.subrange(from as int, to as int)),
{
    let ghost kept = chars@.subrange(from as int, to as int);
    let mut out: String = String::new();
    let mut i: usize = from;
    while i < to
        invariant
            from <= i <= to <= chars@.len(),
            kept == chars@.subrange(from as int, to as int),
            out@ =~= ascii_lower(kept.take(i - from)),
        decreases to - i,
    {
        let c: char = chars[i];
        let v: u32 = c as u32;
        let lower: char = if 65 <= v && v <= 90 { ((v + 32) as u8) as char } else { c };
        assert(lower == ascii_lower_char(c));
        out.push(lower);
        i = i + 1;
    }
    assert(kept.take(kept.len() as int) =~= kept);
    out
}

/// `text` in ASCII lower case.
pub fn lowered(text: &str) -> (r: String)
    ensures
        r@ == ascii_lower(text@),
{
    let chars: Vec<char> = to_chars(text);
    assert(chars@.subrange(0, chars@.len() as int) =~= chars@);
    lowered_chars(&chars, 0, chars.len())
}

/// White space at the ends does not survive trimming.
pub proof fn lemma_trimmed_padding(before: Seq<char>, s: Seq<char>, after: Seq<char>)
    requires
        forall|i: int| 0 <= i < before.len() ==> is_white_space(#[trigger] before[i]),
        forall|i: int| 0 <= i < after.len() ==> is_white_space(#[trigger] after[i]),
    ensures
        trimmed(before + s + after) == trimmed(s),
    decreases before.len() + after.len(),
{
    let whole = before + s + after;
    if before.len() > 0 {
        assert(whole.first() == before[0]);
        assert(whole.drop_first() =~= before.drop_first() + s + after);
        assert forall|i: int| 0 <= i < before.drop_first().len() implies is_white_space(
            #[trigger] before.drop_first()[i],
        ) by {
            assert(is_white_space(before[i + 1]));
        }
        lemma_trimmed_padding(before.drop_first(), s, after);
    } else if after.len() > 0 {
        assert(whole =~= s + after);
        let shorter = s + after.drop_last();
        assert(whole.last() == after.last());
        assert(is_white_space(after[after.len() - 1]));
        assert(whole.drop_last() =~= shorter);
        assert forall|i: int| 0 <= i < after.drop_last().len() implies is_white_space(
            #[trigger] after.drop_last()[i],
        ) by {
            assert(is_white_space(after[i]));
        }
        lemma_trimmed_padding(before, s, after.drop_last());
        assert(before + s + after.drop_last() =~= shorter);
        lemma_trimmed_suffix(whole);
    } else {
        assert(whole =~= s);
    }
}

/// White space at the end may go first or last.
proof fn lemma_trimmed_suffix(s: Seq<char>)
    requires
        s.len() > 0,
        is_white_space(s.last()),
    ensures
        trimmed(s) == trimmed(s.drop_last()),
    decreases s.len(),
{
    if is_white_space(s.first()) {
        if s.len() == 1 {
            assert(s.drop_first() =~= s.drop_last());
        } else {
            let t = s.drop_first();
            assert(t.last() == s.last());
            lemma_trimmed_suffix(t);
            assert(t.drop_last() =~= s.drop_last().drop_first());
            assert(s.drop_last().first() == s.first());
        }
    }
}

/// Trimming does not look at the case of letters.
pub proof fn lemma_trimmed_case(a: Seq<char>, b: Seq<char>)
    requires
        ascii_lower(a) == ascii_lower(b),
    ensures
        ascii_lower(trimmed(a)) == ascii_lower(trimmed(b)),
    decreases a.len(),
{
    assert(ascii_lower(a).len() == a.len() && ascii_lower(b).len() == b.len());
    assert forall|i: int| 0 <= i < a.len() implies is_white_space(a[i]) == is_white_space(b[i]) by {
        assert(ascii_lower(a)[i] == ascii_lower_char(a[i]));
        assert(ascii_lower(b)[i] == ascii_lower_char(b[i]));
        assert(ascii_lower_char(a[i]) == ascii_lower_char(b[i]));
    }
    if a.len() > 0 {
        assert(ascii_lower(a.drop_first()) =~= ascii_lower(a).drop_first());
        assert(ascii_lower(b.drop_first()) =~= ascii_lower(b).drop_first());
        assert(ascii_lower(a.drop_last()) =~= ascii_lower(a).drop_last());
        assert(ascii_lower(b.drop_last()) =~= ascii_lower(b).drop_last());
        assert(is_white_space(a[0]) == is_white_space(b[0]));
        assert(is_white_space(a[a.len() - 1]) == is_white_space(b[b.len() - 1]));
        if is_white_space(a.first()) {
            lemma_trimmed_case(a.drop_first(), b.drop_first());
        } else if is_white_space(a.last()) {
            lemma_trimmed_case(a.drop_last(), b.drop_last());
        }
    }
}

/// The number of characters before the first newline.
pub open spec fn line_len(s: Seq<char>) -> nat
    decreases s.len(),
{
    if s.len() == 0 || s[0] == '\n' {
        0
    } else {
        1 + line_len(s.skip(1))
    }
}

/// A terminated line without the carriage return that may end it.
pub open spec fn without_return(line: Seq<char>) -> Seq<char> {
    if line.len() > 0 && line.last() == '\r' {
        line.drop_last()
    } else {
        line
    }
}

/// The lines of a text, without their terminators (a newline, or a carriage
/// return and a newline). The last line need not be terminated.
pub open spec fn lines_of(s: Seq<char>) -> Seq<Seq<char>>
    decreases s.len(),
{
    if s.len() == 0 {
        Seq::empty()
    } else {
        let n = line_len(s);
        if n < s.len() {
            seq![without_return(s.take(n as int))] + lines_of(s.skip(n as int + 1))
        } else {
            seq![s]
        }
    }
}

/// The number of characters before the first white space.
pub open spec fn word_len(s: Seq<char>) -> nat
    decreases s.len(),
{
    if s.len() == 0 || is_white_space(s[0]) {
        0
    } else {
        1 + word_len(s.skip(1))
    }
}

/// The pieces of a text between stretches of white space.
pub open spec fn words_of(s: Seq<char>) -> Seq<Seq<char>>
    decreases s.len(),
{
    if s.len() == 0 {
        Seq::empty()
    } else if is_white_space(s[0]) {
        words_of(s.skip(1))
    } else {
        let n = word_len(s);
        if 0 < n <= s.len() {
            seq![s.take(n as int)] + words_of(s.skip(n as int))
        } else {
            Seq::empty()
        }
    }
}

/// Where a line ends.
pub proof fn lemma_line_len(s: Seq<char>)
    ensures
        line_len(s) <= s.len(),
        line_len(s) < s.len() ==> s[line_len(s) as int] == '\n',
        forall|i: int| 0 <= i < line_len(s) ==> #[trigger] s[i] != '\n',
    decreases s.len(),
{
    if s.len() > 0 && s[0] != '\n' {
        let t = s.skip(1);
        lemma_line_len(t);
        assert forall|i: int| 0 <= i < line_len(s) implies #[trigger] s[i] != '\n' by {
            if i > 0 {
                assert(t[i - 1] != '\n');
            }
        }
    }
}

/// Where a word ends.
pub proof fn lemma_word_len(s: Seq<char>)
    ensures
        word_len(s) <= s.len(),
        word_len(s) < s.len() ==> is_white_space(s[word_len(s) as int]),
        forall|i: int| 0 <= i < word_len(s) ==> !is_white_space(#[trigger] s[i]),
    decreases s.len(),
{
    if s.len() > 0 && !is_white_space(s[0]) {
        let t = s.skip(1);
        lemma_word_len(t);
        assert forall|i: int| 0 <= i < word_len(s) implies !is_white_space(#[trigger] s[i]) by {
            if i > 0 {
                assert(!is_white_space(t[i - 1]));
            }
        }
    }
}

/// A stretch without a newline before one is a line's length.
proof fn lemma_line_len_is(s: Seq<char>, n: int)
    requires
        0 <= n <= s.len(),
        forall|i: int| 0 <= i < n ==> #[trigger] s[i] != '\n',
        n == s.len() || s[n] == '\n',
    ensures
        line_len(s) == n,
{
    lemma_line_len(s);
    if line_len(s) < n {
        assert(s[line_len(s) as int] != '\n');
    }
    if n < line_len(s) {
        assert(s[n] != '\n');
    }
}

/// A stretch without white space before some is a word's length.
proof fn lemma_word_len_is(s: Seq<char>, n: int)
    requires
        0 <= n <= s.len(),
        forall|i: int| 0 <= i < n ==> !is_white_space(#[trigger] s[i]),
        n == s.len() || is_white_space(s[n]),
    ensures
        word_len(s) == n,
{
    lemma_word_len(s);
    if word_len(s) < n {
        assert(!is_white_space(s[word_len(s) as int]));
    }
    if n < word_len(s) {
        assert(!is_white_space(s[n]));
    }
}

/// What a vector of character vectors spells.
pub open spec fn spelled(pieces: Seq<Vec<char>>) -> Seq<Seq<char>> {
    Seq::new(pieces.len(), |i: int| pieces[i]@)
}

/// A vector with part of the characters of a slice.
pub fn piece(chars: &[char], from: usize, to: usize) -> (r: Vec<char>)
    requires
        from <= to <= chars@.len(),
    ensures
        r@ == chars@.subrange(from as int, to as int),
{
    let mut r: Vec<char> = Vec::new();
    let mut i: usize = from;
    while i < to
        invariant
            from <= i <= to <= chars@.len(),
            r@ =~= chars@.subrange(from as int, i as int),
        decreases to - i,
    {
        r.push(chars[i]);
        i = i + 1;
    }
    r
}

/// The lines of a text.
pub fn split_lines(chars: &[char]) -> (r: Vec<Vec<char>>)
    ensures
        spelled(r@) == lines_of(chars@),
{
    let mut r: Vec<Vec<char>> = Vec::new();
    let mut start: usize = 0;
    proof {
        assert(chars@.skip(0) =~= chars@);
        assert(spelled(r@) + lines_of(chars@) =~= lines_of(chars@));
    }
    while start < chars.len()
        invariant
            start <= chars@.len(),
            spelled(r@) + lines_of(chars@.skip(start as int)) == lines_of(chars@),
        decreases chars.len() - start,
    {
        let ghost rest = chars@.skip(start as int);
        let ghost before = r@;
        let mut end: usize = start;
        while end < chars.len() && chars[end] != '\n'
            invariant
                start <= end <= chars@.len(),
                rest == chars@.skip(start as int),
                forall|i: int| 0 <= i < end - start ==> #[trigger] rest[i] != '\n',
            decreases chars.len() - end,
        {
            end = end + 1;
        }
        proof {
            lemma_line_len_is(rest, end - start);
        }
        if end < chars.len() {
            let stop: usize = if end > start && chars[end - 1] == '\r' {
                end - 1
            } else {
                end
            };
            let line: Vec<char> = piece(chars, start, stop);
            proof {
                let n = end - start;
                let raw = rest.take(n);
                assert(raw =~= chars@.subrange(start as int, end as int));
                assert(line@ =~= without_return(raw));
                assert(rest.skip(n + 1) =~= chars@.skip(end + 1));
            }
            r.push(line);
            proof {
                assert(spelled(r@) =~= spelled(before) + seq![line@]);
                assert(spelled(before) + (seq![line@] + lines_of(chars@.skip(end + 1)))
                    =~= spelled(r@) + lines_of(chars@.skip(end + 1)));
            }
            start = end + 1;
        } else {
            let line: Vec<char> = piece(chars, start, end);
            proof {
                assert(line@ =~= rest);
            }
            r.push(line);
            proof {
                assert(spelled(r@) =~= spelled(before) + seq![line@]);
                assert(chars@.skip(end as int) =~= Seq::empty());
                assert(spelled(r@) + lines_of(chars@.skip(end as int)) =~= spelled(r@));
            }
            start = end;
        }
    }
    proof {
        assert(chars@.skip(start as int) =~= Seq::empty());
        assert(spelled(r@) + lines_of(chars@.skip(start as int)) =~= spelled(r@));
    }
    r
}

/// The pieces of a text between stretches of white space.
pub fn split_words(chars: &[char]) -> (r: Vec<Vec<char>>)
    ensures
        spelled(r@) == words_of(chars@),
{
    let mut r: Vec<Vec<char>> = Vec::new();
    let mut start: usize = 0;
    proof {
        assert(chars@.skip(0) =~= chars@);
        assert(spelled(r@) + words_of(chars@) =~= words_of(chars@));
    }
    while start < chars.len()
        invariant
            start <= chars@.len(),
            spelled(r@) + words_of(chars@.skip(start as int)) == words_of(chars@),
        decreases chars.len() - start,
    {
        let ghost rest = chars@.skip(start as int);
        let ghost before = r@;
        if white_space(chars[start]) {
            assert(rest.skip(1) =~= chars@.skip(start + 1));
            start = start + 1;
        } else {
            let mut end: usize = start;
            while end < chars.len() && !white_space(chars[end])
                invariant
                    start <= end <= chars@.len(),
                    rest == chars@.skip(start as int),
                    forall|i: int| 0 <= i < end - start ==> !is_white_space(#[trigger] rest[i]),
                decreases chars.len() - end,
            {
                end = end + 1;
            }
            let word: Vec<char> = piece(chars, start, end);
            proof {
                let n = end - start;
                lemma_word_len_is(rest, n);
                assert(rest[0] == chars@[start as int]);
                assert(n > 0) by {
                    if n == 0 {
                        assert(is_white_space(rest[0]));
                    }
                }
                assert(word@ =~= rest.take(n));
                assert(rest.skip(n) =~= chars@.skip(end as int));
            }
            r.push(word);
            proof {
                assert(spelled(r@) =~= spelled(before) + seq![word@]);
                assert(spelled(before) + (seq![word@] + words_of(chars@.skip(end as int)))
                    =~= spelled(r@) + words_of(chars@.skip(end as int)));
            }
            start = end;
        }
    }
    proof {
        assert(chars@.skip(start as int) =~= Seq::empty());
        assert(spelled(r@) + words_of(chars@.skip(start as int)) =~= spelled(r@));
    }
    r
}

/// The number that a text denotes: digits with an optional plus sign before
/// them, where it is at most `max`.
pub open spec fn number_upto(s: Seq<char>, max: u64) -> Option<u64> {
    let body = if s.len() > 1 && s[0] == '+' { s.skip(1) } else { s };
    if body.len() > 0 && all_digits(body) && digits_value(body) <= max {
        Some(digits_value(body) as u64)
    } else {
        None
    }
}

/// The 32-bit number that a text denotes.
pub open spec fn number_of(s: Seq<char>) -> Option<u32> {
    match number_upto(s, u32::MAX as u64) {
        Some(n) => Some(n as u32),
        None => None,
    }
}

/// The 32-bit number that a text denotes.
pub fn parse_number(chars: &[char]) -> (r: Option<u32>)
    ensures
        r == number_of(chars@),
{
    match parse_upto(chars, u32::MAX as u64) {
        Some(n) => Some(n as u32),
        None => None,
    }
}

/// The number that a text denotes, where it is at most `max`.
pub fn parse_upto(chars: &[char], max: u64) -> (r: Option<u64>)
    ensures
        r == number_upto(chars@, max),
        r matches Some(n) ==> n <= max,
{
    if chars.len() > 1 && chars[0] == '+' {
        parse_digits(chars, 1, max)
    } else {
        assert(chars@.skip(0) =~= chars@);
        parse_digits(chars, 0, max)
    }
}

fn parse_digits(chars: &[char], start: usize, max: u64) -> (r: Option<u64>)
    requires
        start <= chars@.len(),
    ensures
        ({
            let body = chars@.skip(start as int);
            r == (if body.len() > 0 && all_digits(body) && digits_value(body) <= max {
                Some(digits_value(body) as u64)
            } else {
                None
            })
        }),
{
    let ghost body = chars@.skip(start as int);
    if start == chars.len() {
        return None;
    }
    let mut value: u64 = 0;
    let mut i: usize = start;
    assert(body.take(0) =~= Seq::empty());
    while i < chars.len()
        invariant
            start <= i <= chars@.len(),
            body == chars@.skip(start as int),
            all_digits(body.take(i - start)),
            value == digits_value(body.take(i - start)),
            value <= max,
        decreases chars.len() - i,
    {
        let ghost j = i - start;
        assert(body[j] == chars@[i as int]);
        match value_of_digit(chars[i]) {
            None => {
                assert(!all_digits(body)) by {
                    assert(digit_value(body[j]) is None);
                }
                return None;
            }
            Some(d) => {
                let wider: u128 = value as u128 * 10 + d as u128;
                proof {
                    lemma_digits_step(body, j);
                }
                if wider > max as u128 {
                    proof {
                        lemma_digits_value_grows(body, j + 1, body.len() as int);
                        assert(body.take(body.len() as int) =~= body);
                    }
                    return None;
                }
                value = wider as u64;
            }
        }
        i = i + 1;
    }
    assert(body.take(i - start) =~= body);
    Some(value)
}

proof fn lemma_digits_step(s: Seq<char>, j: int)
    requires
        0 <= j < s.len(),
        digit_value(s[j]) is Some,
    ensures
        digits_value(s.take(j + 1)) == digits_value(s.take(j)) * 10 + digit_value(s[j])->0,
        all_digits(s.take(j)) ==> all_digits(s.take(j + 1)),
{
    let next = s.take(j + 1);
    assert(next.drop_last() =~= s.take(j));
    assert(next.last() == s[j]);
    if all_digits(s.take(j)) {
        assert forall|k: int| 0 <= k < next.len() implies (#[trigger] digit_value(next[k])) is Some by {
            if k < j {
                assert(digit_value(s.take(j)[k]) is Some);
            }
        }
    }
}

proof fn lemma_digits_value_grows(s: Seq<char>, i: int, j: int)
    requires
        0 <= i <= j <= s.len(),
    ensures
        digits_value(s.take(i)) <= digits_value(s.take(j)),
    decreases j - i,
{
    if i < j {
        lemma_digits_value_grows(s, i, j - 1);
        assert(s.take(j).drop_last() =~= s.take(j - 1));
    }
}

/// The decimal form of a number is made of digits and denotes the number.
pub proof fn lemma_decimal_digits(n: nat)
    ensures
        decimal(n).len() > 0,
        all_digits(decimal(n)),
        digits_value(decimal(n)) == n,
        forall|i: int| 0 <= i < decimal(n).len() ==> !is_white_space(#[trigger] decimal(n)[i]),
        forall|i: int| 0 <= i < decimal(n).len() ==> #[trigger] decimal(n)[i] != '+',
    decreases n,
{
    reveal_with_fuel(digits_value, 2);
    let s = decimal(n);
    if n < 10 {
        assert(s.drop_last() =~= Seq::empty());
        assert(s.last() == digit_char(n as int));
    } else {
        lemma_decimal_digits(n / 10);
        let front = decimal(n / 10);
        assert(s.drop_last() =~= front);
        assert(s.last() == digit_char((n % 10) as int));
        assert forall|i: int| 0 <= i < s.len() implies (#[trigger] digit_value(s[i])) is Some by {
            if i < front.len() {
                assert(digit_value(front[i]) is Some);
            }
        }
        assert forall|i: int| 0 <= i < s.len() implies !is_white_space(#[trigger] s[i]) && s[i]
            != '+' by {
            if i < front.len() {
                assert(!is_white_space(front[i]));
                assert(front[i] != '+');
            }
        }
    }
}

/// Reading back the decimal form of a number gives the number.
pub proof fn decimal_round_trip(n: u32)
    ensures
        number_of(decimal(n as nat)) == Some(n),
{
    lemma_decimal_digits(n as nat);
    let s = decimal(n as nat);
    assert(s[0] != '+');
}

/// Words joined by single spaces.
pub open spec fn joined(words: Seq<Seq<char>>) -> Seq<char>
    decreases words.len(),
{
    if words.len() == 0 {
        Seq::empty()
    } else if words.len() == 1 {
        words[0]
    } else {
        words[0] + seq![' '] + joined(words.skip(1))
    }
}

/// A non-empty text without white space.
pub open spec fn is_word(s: Seq<char>) -> bool {
    s.len() > 0 && forall|i: int| 0 <= i < s.len() ==> !is_white_space(#[trigger] s[i])
}

/// Words that are joined by spaces come apart again.
pub proof fn lemma_words_of_joined(words: Seq<Seq<char>>)
    requires
        forall|i: int| 0 <= i < words.len() ==> is_word(#[trigger] words[i]),
    ensures
        words_of(joined(words)) == words,
    decreases words.len(),
{
    if words.len() == 0 {
        assert(words_of(joined(words)) =~= words);
    } else {
        let w = words[0];
        let s = joined(words);
        let rest = words.skip(1);
        assert(is_word(w));
        assert forall|i: int| 0 <= i < rest.len() implies is_word(#[trigger] rest[i]) by {
            assert(is_word(words[i + 1]));
        }
        lemma_words_of_joined(rest);
        if words.len() == 1 {
            assert(s =~= w);
            assert(!is_white_space(s[0]));
            lemma_word_len_is(s, s.len() as int);
            assert(s.take(s.len() as int) =~= s);
            assert(s.skip(s.len() as int) =~= Seq::empty());
            assert(words_of(s) =~= words);
        } else {
            let n = w.len() as int;
            assert(s =~= w + seq![' '] + joined(rest));
            assert(s[n] == ' ');
            assert(s[0] == w[0]);
            assert(!is_white_space(w[0]));
            assert forall|i: int| 0 <= i < n implies !is_white_space(#[trigger] s[i]) by {
                assert(s[i] == w[i]);
            }
            lemma_word_len_is(s, n);
            assert(s.take(n) =~= w);
            let tail = s.skip(n);
            assert(tail =~= seq![' '] + joined(rest));
            assert(tail[0] == ' ');
            assert(tail.skip(1) =~= joined(rest));
            assert(words_of(tail) == words_of(joined(rest)));
            assert(words_of(s) =~= seq![w] + rest);
            assert(words =~= seq![w] + rest);
        }
    }
}

/// Lines, each ended by a newline.
pub open spec fn terminated(lines: Seq<Seq<char>>) -> Seq<char>
    decreases lines.len(),
{
    if lines.len() == 0 {
        Seq::empty()
    } else {
        lines[0] + seq!['\n'] + terminated(lines.skip(1))
    }
}

/// A text without a newline that does not end in a carriage return.
pub open spec fn is_line(s: Seq<char>) -> bool {
    &&& forall|i: int| 0 <= i < s.len() ==> #[trigger] s[i] != '\n'
    &&& s.len() > 0 ==> s.last() != '\r'
}

/// Lines that are each ended by a newline come apart again.
pub proof fn lemma_lines_of_terminated(lines: Seq<Seq<char>>)
    requires
        forall|i: int| 0 <= i < lines.len() ==> is_line(#[trigger] lines[i]),
    ensures
        lines_of(terminated(lines)) == lines,
    decreases lines.len(),
{
    if lines.len() == 0 {
        assert(lines_of(terminated(lines)) =~= lines);
    } else {
        let l = lines[0];
        let s = terminated(lines);
        let rest = lines.skip(1);
        assert(is_line(l));
        assert forall|i: int| 0 <= i < rest.len() implies is_line(#[trigger] rest[i]) by {
            assert(is_line(lines[i + 1]));
        }
        lemma_lines_of_terminated(rest);
        let n = l.len() as int;
        assert(s =~= l + seq!['\n'] + terminated(rest));
        assert forall|i: int| 0 <= i < n implies #[trigger] s[i] != '\n' by {
            assert(s[i] == l[i]);
        }
        lemma_line_len_is(s, n);
        assert(s.take(n) =~= l);
        assert(s.skip(n + 1) =~= terminated(rest));
        assert(lines_of(s) =~= seq![l] + rest);
        assert(lines =~= seq![l] + rest);
    }
}

/// Another line at the end.
pub proof fn lemma_terminated_push(lines: Seq<Seq<char>>, line: Seq<char>)
    ensures
        terminated(lines.push(line)) == terminated(lines) + line + seq!['\n'],
    decreases lines.len(),
{
    let all = lines.push(line);
    if lines.len() == 0 {
        assert(all.skip(1) =~= Seq::empty());
        reveal_with_fuel(terminated, 2);
        assert(terminated(all) =~= terminated(lines) + line + seq!['\n']);
    } else {
        assert(all.skip(1) =~= lines.skip(1).push(line));
        lemma_terminated_push(lines.skip(1), line);
        assert(terminated(all) =~= terminated(lines) + line + seq!['\n']);
    }
}

/// Another word at the end.
pub proof fn lemma_joined_push(words: Seq<Seq<char>>, word: Seq<char>)
    requires
        words.len() > 0,
    ensures
        joined(words.push(word)) == joined(words) + seq![' '] + word,
    decreases words.len(),
{
    let all = words.push(word);
    if words.len() == 1 {
        assert(all.skip(1) =~= seq![word]);
        assert(joined(seq![word]) == word);
        assert(joined(all) =~= joined(words) + seq![' '] + word);
    } else {
        assert(all.skip(1) =~= words.skip(1).push(word));
        lemma_joined_push(words.skip(1), word);
        assert(joined(all) =~= joined(words) + seq![' '] + word);
    }
}

/// The digits of `n` in base sixteen, without leading zeros.
pub open spec fn hexadecimal(n: nat) -> Seq<char>
    decreases n,
{
    if n < 16 {
        seq![hex_digit(n as int)]
    } else {
        hexadecimal(n / 16).push(hex_digit((n % 16) as int))
    }
}

/// The hexadecimal digit that stands for `d`.
pub open spec fn hex_digit(d: int) -> char {
    if d < 10 {
        digit_char(d)
    } else if d == 10 { 'a' }
    else if d == 11 { 'b' }
    else if d == 12 { 'c' }
    else if d == 13 { 'd' }
    else if d == 14 { 'e' }
    else { 'f' }
}

/// Appends the hexadecimal form of `n`.
pub fn push_hexadecimal(text: &mut String, n: u64)
    ensures
        final(text)@ == old(text)@ + hexadecimal(n as nat),
    decreases n,
{
    if n >= 16 {
        push_hexadecimal(text, n / 16);
    }
    let d: u64 = n % 16;
    if d < 10 {
        text.push(digit(d));
    } else if d == 10 {
        text.push('a');
    } else if d == 11 {
        text.push('b');
    } else if d == 12 {
        text.push('c');
    } else if d == 13 {
        text.push('d');
    } else if d == 14 {
        text.push('e');
    } else {
        text.push('f');
    }
    assert(text@ =~= old(text)@ + hexadecimal(n as nat));
}

/// The hexadecimal form of `n`, with zeros before it up to `width` digits.
pub open spec fn padded_hexadecimal(n: nat, width: nat) -> Seq<char> {
    let digits = hexadecimal(n);
    if digits.len() < width {
        Seq::new((width - digits.len()) as nat, |i: int| '0') + digits
    } else {
        digits
    }
}

/// Appends the hexadecimal form of `n`, with zeros before it up to `width`
/// digits.
pub fn push_padded_hexadecimal(text: &mut String, n: u64, width: usize)
    ensures
        final(text)@ == old(text)@ + padded_hexadecimal(n as nat, width as nat),
{
    let mut digits: String = String::new();
    push_hexadecimal(&mut digits, n);
    assert(digits@ =~= hexadecimal(n as nat));
    let len: usize = digits.as_str().unicode_len();
    let mut missing: usize = if len < width { width - len } else { 0 };
    let ghost total = missing;
    let ghost start = text@;
    while missing > 0
        invariant
            missing <= total,
            text@ =~= start + Seq::new((total - missing) as nat, |i: int| '0'),
        decreases missing,
    {
        text.push('0');
        missing = missing - 1;
    }
    push_text(text, digits.as_str());
    assert(text@ =~= old(text)@ + padded_hexadecimal(n as nat, width as nat));
}

/// The hexadecimal form of a number holds no white space.
pub proof fn lemma_hexadecimal_digits(n: nat)
    ensures
        hexadecimal(n).len() > 0,
        forall|i: int| 0 <= i < hexadecimal(n).len() ==> !is_white_space(#[trigger] hexadecimal(n)[i]),
    decreases n,
{
    if n >= 16 {
        lemma_hexadecimal_digits(n / 16);
        let front = hexadecimal(n / 16);
        let s = hexadecimal(n);
        assert forall|i: int| 0 <= i < s.len() implies !is_white_space(#[trigger] s[i]) by {
            if i < front.len() {
                assert(!is_white_space(front[i]));
            }
        }
    }
}

/// What a hexadecimal digit stands for.
pub open spec fn hex_value_of(c: char) -> int {
    match digit_value(c) {
        Some(d) => d,
        None => if c == 'a' { 10 }
            else if c == 'b' { 11 }
            else if c == 'c' { 12 }
            else if c == 'd' { 13 }
            else if c == 'e' { 14 }
            else { 15 },
    }
}

/// The number that hexadecimal digits denote, most significant first.
pub open spec fn hex_number(s: Seq<char>) -> int
    decreases s.len(),
{
    if s.len() == 0 {
        0
    } else {
        hex_number(s.drop_last()) * 16 + hex_value_of(s.last())
    }
}

proof fn lemma_hex_number(n: nat)
    ensures
        hex_number(hexadecimal(n)) == n,
    decreases n,
{
    let s = hexadecimal(n);
    if n < 16 {
        assert(s.drop_last() =~= Seq::empty());
        assert(hex_number(Seq::<char>::empty()) == 0);
        assert(s.last() == hex_digit(n as int));
    } else {
        lemma_hex_number(n / 16);
        assert(s.drop_last() =~= hexadecimal(n / 16));
        assert(s.last() == hex_digit((n % 16) as int));
    }
}

proof fn lemma_zeros_before(zeros: Seq<char>, s: Seq<char>)
    requires
        forall|i: int| 0 <= i < zeros.len() ==> #[trigger] zeros[i] == '0',
    ensures
        hex_number(zeros + s) == hex_number(s),
    decreases zeros.len() + s.len(),
{
    let all = zeros + s;
    if s.len() > 0 {
        lemma_zeros_before(zeros, s.drop_last());
        assert(all.drop_last() =~= zeros + s.drop_last());
    } else if zeros.len() > 0 {
        let front = zeros.drop_last();
        assert forall|i: int| 0 <= i < front.len() implies #[trigger] front[i] == '0' by {
            assert(zeros[i] == '0');
        }
        lemma_zeros_before(front, s);
        assert(all.drop_last() =~= front + s);
        assert(all.last() == zeros[zeros.len() - 1]);
    }
}

/// Reading back a hexadecimal form, zeros before it or not, gives the number.
pub proof fn hexadecimal_round_trip(n: nat, width: nat)
    ensures
        hex_number(padded_hexadecimal(n, width)) == n,
{
    let digits = hexadecimal(n);
    lemma_hex_number(n);
    if digits.len() < width {
        lemma_zeros_before(Seq::new((width - digits.len()) as nat, |i: int| '0'), digits);
    }
}

/// A number below the power of sixteen has no more digits than the exponent.
pub proof fn lemma_hexadecimal_len(n: nat, width: nat)
    requires
        width > 0,
        n < vstd::arithmetic::power::pow(16, width),
    ensures
        hexadecimal(n).len() <= width,
        padded_hexadecimal(n, width).len() == width,
    decreases width,
{
    vstd::arithmetic::power::lemma_pow0(16);
    if n >= 16 {
        vstd::arithmetic::power::lemma_pow1(16);
        assert(width > 1);
        assert(vstd::arithmetic::power::pow(16, width) == 16 * vstd::arithmetic::power::pow(
            16,
            (width - 1) as nat,
        )) by {
            reveal(vstd::arithmetic::power::pow);
        }
        lemma_hexadecimal_len(n / 16, (width - 1) as nat);
    }
}

} // verus!
