//! Building messages, character by character.
use vstd::prelude::*;

verus! {

/// [`String::push`]: the character goes to the end.
pub assume_specification[ String::push ](s: &mut String, c: char)
    ensures
        final(s)@ == old(s)@.push(c),
;

/// The decimal digit `d`.
pub open spec fn digit(d: nat) -> char {
    (48 + d) as char
}

/// The decimal numeral of `n`, without leading zeros.
pub open spec fn decimal(n: nat) -> Seq<char>
    decreases n,
{
    if n < 10 {
        seq![digit(n)]
    } else {
        decimal(n / 10).push(digit(n % 10))
    }
}

/// Appends the decimal numeral of `n`.
pub fn push_decimal(out: &mut String, n: u64)
    ensures
        final(out)@ == old(out)@ + decimal(n as nat),
    decreases n,
{
    if n >= 10 {
        push_decimal(out, n / 10);
    }
    let d: u8 = 48 + (n % 10) as u8;
    out.push(d as char);
    assert(out@ =~= old(out)@ + decimal(n as nat));
}

/// The decimal numeral of `n`.
pub fn decimal_string(n: u64) -> (s: String)
    ensures
        s@ == decimal(n as nat),
{
    let mut s = String::new();
    push_decimal(&mut s, n);
    assert(s@ =~= decimal(n as nat));
    s
}

/// The characters of a string.
pub fn chars_of(s: &str) -> (chars: Vec<char>)
    ensures
        chars@ == s@,
{
    let mut chars: Vec<char> = Vec::new();
    for c in it: s.chars()
        invariant
            it.seq() == s@,
            chars@ == s@.take(it.index()),
    {
        chars.push(c);
        assert(s@.take(it.index() + 1) =~= s@.take(it.index()).push(c));
    }
    assert(s@.take(s@.len() as int) =~= s@);
    chars
}

/// The string made of the characters from `start` up to `end`.
pub fn string_of(chars: &Vec<char>, start: usize, end: usize) -> (s: String)
    requires
        start <= end <= chars.len(),
    ensures
        s@ == chars@.subrange(start as int, end as int),
{
    let mut s = String::new();
    let mut i: usize = start;
    assert(s@ =~= chars@.subrange(start as int, start as int));
    while i < end
        invariant
            start <= i <= end <= chars.len(),
            s@ == chars@.subrange(start as int, i as int),
        decreases end - i,
    {
        s.push(chars[i]);
        i += 1;
        assert(s@ =~= chars@.subrange(start as int, i as int));
    }
    s
}

/// Whether two texts are the same.
pub fn same_text(a: &str, b: &str) -> (same: bool)
    ensures
        same == (a@ == b@),
{
    a.to_string() == b.to_string()
}

/// Whether a character is white space: the code points with the property `White_Space`.
pub open spec fn is_space(c: char) -> bool {
    let n = c as u32;
    ||| 9 <= n <= 13
    ||| n == 32
    ||| n == 0x85
    ||| n == 0xA0
    ||| n == 0x1680
    ||| 0x2000 <= n <= 0x200A
    ||| n == 0x2028
    ||| n == 0x2029
    ||| n == 0x202F
    ||| n == 0x205F
    ||| n == 0x3000
}

/// Whether a character is white space.
pub fn is_white_space(c: char) -> (space: bool)
    ensures
        space == is_space(c),
{
    let n: u32 = c as u32;
    (9 <= n && n <= 13) || n == 32 || n == 0x85 || n == 0xA0 || n == 0x1680 || (0x2000 <= n && n
        <= 0x200A) || n == 0x2028 || n == 0x2029 || n == 0x202F || n == 0x205F || n == 0x3000
}

/// `s` without leading white space.
pub open spec fn trim_start(s: Seq<char>) -> Seq<char>
    decreases s.len(),
{
    if s.len() > 0 && is_space(s[0]) {
        trim_start(s.drop_first())
    } else {
        s
    }
}

/// `s` without trailing white space.
pub open spec fn trim_end(s: Seq<char>) -> Seq<char>
    decreases s.len(),
{
    if s.len() > 0 && is_space(s.last()) {
        trim_end(s.drop_last())
    } else {
        s
    }
}

/// `s` without leading and trailing white space.
pub open spec fn trim(s: Seq<char>) -> Seq<char> {
    trim_end(trim_start(s))
}

/// The text without leading and trailing white space.
pub fn trimmed(s: &str) -> (t: String)
    ensures
        t@ == trim(s@),
{
    let chars = chars_of(s);
    let mut start: usize = 0;
    assert(s@.subrange(0, s@.len() as int) =~= s@);
    while start < chars.len() && is_white_space(chars[start])
        invariant
            start <= chars.len(),
            chars@ == s@,
            trim_start(s@) == trim_start(s@.subrange(start as int, s@.len() as int)),
        decreases chars.len() - start,
    {
        assert(s@.subrange(start as int, s@.len() as int).drop_first() =~= s@.subrange(
            start + 1,
            s@.len() as int,
        ));
        start += 1;
    }
    let ghost rest = s@.subrange(start as int, s@.len() as int);
    assert(trim_start(s@) == rest);
    let mut end: usize = chars.len();
    while end > start && is_white_space(chars[end - 1])
        invariant
            start <= end <= chars.len(),
            chars@ == s@,
            trim_end(rest) == trim_end(s@.subrange(start as int, end as int)),
        decreases end,
    {
        assert(s@.subrange(start as int, end as int).drop_last() =~= s@.subrange(
            start as int,
            end - 1,
        ));
        end -= 1;
    }
    string_of(&chars, start, end)
}

/// The lowercase form of an ASCII letter; any other character itself.
pub open spec fn lower(c: char) -> char {
    if 'A' <= c <= 'Z' {
        ((c as u32) + 32) as char
    } else {
        c
    }
}

/// `s` with every ASCII letter in lowercase.
pub open spec fn lowercase(s: Seq<char>) -> Seq<char> {
    Seq::new(s.len(), |i: int| lower(s[i]))
}

/// The text with every ASCII letter in lowercase.
pub fn to_lowercase(s: &str) -> (t: String)
    ensures
        t@ == lowercase(s@),
{
    let chars = chars_of(s);
    let mut t = String::new();
    let mut i: usize = 0;
    assert(t@ =~= lowercase(s@).take(0));
    while i < chars.len()
        invariant
            i <= chars.len(),
            chars@ == s@,
            t@ == lowercase(s@).take(i as int),
        decreases chars.len() - i,
    {
        let c: char = chars[i];
        if 'A' <= c && c <= 'Z' {
            let n: u8 = (c as u32) as u8 + 32;
            t.push(n as char);
        } else {
            t.push(c);
        }
        i += 1;
        assert(t@ =~= lowercase(s@).take(i as int));
    }
    assert(lowercase(s@).take(i as int) =~= lowercase(s@));
    t
}

/// The hexadecimal digit `d`, in lowercase.
pub open spec fn hex_digit(d: int) -> char {
    if d < 10 {
        (48 + d) as char
    } else {
        (87 + d) as char
    }
}

/// `n` in four hexadecimal digits.
pub open spec fn hex4(n: int) -> Seq<char> {
    seq![
        hex_digit(n / 4096),
        hex_digit(n / 256 % 16),
        hex_digit(n / 16 % 16),
        hex_digit(n % 16),
    ]
}

fn push_hex_digit(out: &mut String, d: u16)
    requires
        d < 16,
    ensures
        final(out)@ == old(out)@.push(hex_digit(d as int)),
{
    let n: u8 = if d < 10 {
        48 + d as u8
    } else {
        87 + d as u8
    };
    out.push(n as char);
}

/// Appends `n` in four hexadecimal digits.
pub fn push_hex4(out: &mut String, n: u16)
    ensures
        final(out)@ == old(out)@ + hex4(n as int),
{
    push_hex_digit(out, n / 4096);
    push_hex_digit(out, n / 256 % 16);
    push_hex_digit(out, n / 16 % 16);
    push_hex_digit(out, n % 16);
    assert(out@ =~= old(out)@ + hex4(n as int));
}

/// As many spaces as fill a text of `len` characters up to `width`.
pub open spec fn padding(len: int, width: int) -> Seq<char> {
    Seq::new(
        (if len < width {
            width - len
        } else {
            0
        }) as nat,
        |i: int| ' ',
    )
}

/// Appends a text and as many spaces as fill it up to `width`.
pub fn push_padded(out: &mut String, s: &str, width: usize)
    ensures
        final(out)@ == old(out)@ + s@ + padding(s@.len() as int, width as int),
{
    out.append(s);
    let ghost before = out@;
    let mut n: usize = s.unicode_len();
    let ghost len = n as int;
    assert(out@ =~= before + padding(len, len));
    while n < width
        invariant
            len <= n,
            n <= width || n == len,
            out@ == before + padding(len, n as int),
        decreases width - n,
    {
        out.push(' ');
        n += 1;
        assert(out@ =~= before + padding(len, n as int));
    }
    assert(padding(len, n as int) =~= padding(len, width as int));
}

/// The lines of a text: what ends in a newline (a carriage return before it belongs to the line
/// ending), and what follows the last one, unless that is empty.
pub open spec fn lines(s: Seq<char>) -> Seq<Seq<char>>
    decreases s.len(),
{
    if s.len() == 0 {
        Seq::empty()
    } else {
        let end = line_end(s);
        if 0 <= end < s.len() {
            seq![strip_return(s.take(end))] + lines(s.skip(end + 1))
        } else {
            seq![s]
        }
    }
}

/// The position of the first newline, or the length where there is none.
pub open spec fn line_end(s: Seq<char>) -> int
    decreases s.len(),
{
    if s.len() == 0 || s[0] == '\n' {
        0
    } else {
        1 + line_end(s.drop_first())
    }
}

/// `s` without a carriage return at its end.
pub open spec fn strip_return(s: Seq<char>) -> Seq<char> {
    if s.len() > 0 && s.last() == '\r' {
        s.drop_last()
    } else {
        s
    }
}

proof fn lemma_line_end(s: Seq<char>, end: int)
    requires
        0 <= end <= s.len(),
        forall|i: int| 0 <= i < end ==> s[i] != '\n',
        end < s.len() ==> s[end] == '\n',
    ensures
        line_end(s) == end,
    decreases s.len(),
{
    if s.len() > 0 && end > 0 {
        assert(s[0] != '\n');
        lemma_line_end(s.drop_first(), end - 1);
    }
}

/// The lines of a text.
pub fn lines_of(s: &str) -> (found: Vec<String>)
    ensures
        texts(found@) == lines(s@),
{
    let chars = chars_of(s);
    let mut found: Vec<String> = Vec::new();
    let mut start: usize = 0;
    assert(s@.skip(0) =~= s@);
    assert(texts(found@) + lines(s@.skip(0)) =~= lines(s@));
    while start < chars.len()
        invariant
            start <= chars.len(),
            chars@ == s@,
            texts(found@) + lines(s@.skip(start as int)) == lines(s@),
        decreases chars.len() - start,
    {
        let mut end: usize = start;
        while end < chars.len() && chars[end] != '\n'
            invariant
                start <= end <= chars.len(),
                chars@ == s@,
                forall|i: int| start <= i < end ==> s@[i] != '\n',
            decreases chars.len() - end,
        {
            end += 1;
        }
        let ghost rest = s@.skip(start as int);
        let ghost before = texts(found@);
        proof {
            lemma_line_end(rest, end - start);
        }
        if end == chars.len() {
            found.push(string_of(&chars, start, end));
            assert(found@.last()@ =~= rest);
            start = end;
            assert(lines(rest) =~= seq![rest]);
            assert(lines(s@.skip(start as int)) =~= Seq::empty());
            assert(texts(found@) =~= before.push(rest));
        } else {
            let stop: usize = if end > start && chars[end - 1] == '\r' {
                end - 1
            } else {
                end
            };
            found.push(string_of(&chars, start, stop));
            let ghost line = strip_return(rest.take(end - start));
            assert(found@.last()@ =~= line);
            assert(rest.skip(end - start + 1) =~= s@.skip(end + 1));
            assert(lines(rest) == seq![line] + lines(s@.skip(end + 1)));
            start = end + 1;
            assert(texts(found@) =~= before.push(line));
        }
        assert(texts(found@) + lines(s@.skip(start as int)) =~= before + lines(rest));
    }
    assert(lines(s@.skip(start as int)) =~= Seq::empty());
    assert(texts(found@) =~= lines(s@));
    found
}

/// The parts, with `separator` between each two.
pub open spec fn join(parts: Seq<Seq<char>>, separator: Seq<char>) -> Seq<char>
    decreases parts.len(),
{
    if parts.len() == 0 {
        Seq::empty()
    } else if parts.len() == 1 {
        parts[0]
    } else {
        join(parts.drop_last(), separator) + separator + parts.last()
    }
}

/// The views of a list of texts.
pub open spec fn texts(v: Seq<String>) -> Seq<Seq<char>> {
    Seq::new(v.len(), |i: int| v[i]@)
}

/// The parts, with `separator` between each two.
pub fn join_texts(parts: &Vec<String>, separator: &str) -> (s: String)
    ensures
        s@ == join(texts(parts@), separator@),
{
    let mut s = String::new();
    let mut i: usize = 0;
    let ghost all = texts(parts@);
    assert(s@ =~= join(all.take(0), separator@));
    while i < parts.len()
        invariant
            i <= parts.len(),
            all == texts(parts@),
            s@ == join(all.take(i as int), separator@),
        decreases parts.len() - i,
    {
        if i > 0 {
            s.append(separator);
        }
        s.append(parts[i].as_str());
        assert(all.take(i + 1).drop_last() =~= all.take(i as int));
        i += 1;
        assert(s@ =~= join(all.take(i as int), separator@));
    }
    assert(all.take(i as int) =~= all);
    s
}

/// A copy of a list of texts.
pub fn copy_texts(v: &Vec<String>) -> (copy: Vec<String>)
    ensures
        texts(copy@) == texts(v@),
{
    let mut copy: Vec<String> = Vec::new();
    let mut i: usize = 0;
    while i < v.len()
        invariant
            i <= v.len(),
            copy.len() == i,
            forall|k: int| 0 <= k < i ==> (#[trigger] copy@[k])@ == v@[k]@,
        decreases v.len() - i,
    {
        copy.push(v[i].clone());
        i += 1;
    }
    assert(texts(copy@) =~= texts(v@));
    copy
}

/// Whether `a` comes before `b`, character by character.
pub open spec fn before(a: Seq<char>, b: Seq<char>) -> bool
    decreases a.len(),
{
    if b.len() == 0 {
        false
    } else if a.len() == 0 {
        true
    } else if a[0] == b[0] {
        before(a.drop_first(), b.drop_first())
    } else {
        a[0] < b[0]
    }
}

/// Whether `a` comes before `b`, character by character.
pub fn comes_before(a: &str, b: &str) -> (earlier: bool)
    ensures
        earlier == before(a@, b@),
{
    let x = chars_of(a);
    let y = chars_of(b);
    let mut i: usize = 0;
    assert(a@.skip(0) =~= a@);
    assert(b@.skip(0) =~= b@);
    while i < x.len() && i < y.len() && x[i] == y[i]
        invariant
            i <= x.len(),
            i <= y.len(),
            x@ == a@,
            y@ == b@,
            before(a@, b@) == before(a@.skip(i as int), b@.skip(i as int)),
        decreases x.len() - i,
    {
        assert(a@.skip(i as int).drop_first() =~= a@.skip(i + 1));
        assert(b@.skip(i as int).drop_first() =~= b@.skip(i + 1));
        i += 1;
    }
    if i >= y.len() {
        false
    } else if i >= x.len() {
        true
    } else {
        x[i] < y[i]
    }
}

/// A numeral is made of digits, has no zero in front but that of zero itself, and is that of the tens
/// with the ones behind.
pub proof fn numerals_are_written_digit_by_digit(n: nat)
    ensures
        decimal(n).len() > 0,
        forall|i: int| 0 <= i < decimal(n).len() ==> '0' <= #[trigger] decimal(n)[i] <= '9',
        n > 0 ==> decimal(n)[0] != '0',
        decimal(n).last() as u32 == 48 + n % 10,
        n >= 10 ==> decimal(n).drop_last() == decimal(n / 10),
        n < 10 ==> decimal(n).len() == 1,
    decreases n,
{
    if n >= 10 {
        numerals_are_written_digit_by_digit(n / 10);
        let s = decimal(n);
        assert(s.drop_last() =~= decimal(n / 10));
        assert forall|i: int| 0 <= i < s.len() implies '0' <= #[trigger] s[i] <= '9' by {
            if i < s.len() - 1 {
                assert(s[i] == decimal(n / 10)[i]);
            }
        }
        assert(s[0] == decimal(n / 10)[0]);
    }
}

/// What a hexadecimal digit stands for.
pub open spec fn hex_value(c: char) -> int {
    if '0' <= c <= '9' {
        c as u32 - 48
    } else if 'a' <= c <= 'f' {
        c as u32 - 87
    } else {
        -1
    }
}

/// Four hexadecimal digits, in lowercase, stand for the number.
pub proof fn four_digits_stand_for_the_number(n: int)
    requires
        0 <= n < 65536,
    ensures
        hex4(n).len() == 4,
        forall|i: int| 0 <= i < 4 ==> 0 <= hex_value(#[trigger] hex4(n)[i]) < 16,
        hex_value(hex4(n)[0]) * 4096 + hex_value(hex4(n)[1]) * 256 + hex_value(hex4(n)[2]) * 16
            + hex_value(hex4(n)[3]) == n,
{
    let c = n / 16;
    let b = c / 16;
    let a = b / 16;
    vstd::arithmetic::div_mod::lemma_div_denominator(n, 16, 16);
    vstd::arithmetic::div_mod::lemma_div_denominator(n, 256, 16);
    assert(n / 256 == b && n / 4096 == a);
    assert(n == 16 * c + n % 16 && c == 16 * b + c % 16 && b == 16 * a + b % 16);
    assert(0 <= a < 16);
    lemma_hex_digit(a);
    lemma_hex_digit(b % 16);
    lemma_hex_digit(c % 16);
    lemma_hex_digit(n % 16);
}

proof fn lemma_hex_digit(d: int)
    requires
        0 <= d < 16,
    ensures
        hex_value(hex_digit(d)) == d,
{
}

proof fn lemma_trim_start(s: Seq<char>) -> (k: int)
    ensures
        0 <= k <= s.len(),
        trim_start(s) == s.skip(k),
        forall|i: int| 0 <= i < k ==> is_space(#[trigger] s[i]),
        k < s.len() ==> !is_space(s[k]),
    decreases s.len(),
{
    if s.len() > 0 && is_space(s[0]) {
        let rest = s.drop_first();
        let k = lemma_trim_start(rest);
        assert(rest.skip(k) =~= s.skip(k + 1));
        assert forall|i: int| 0 <= i < k + 1 implies is_space(#[trigger] s[i]) by {
            if i > 0 {
                assert(is_space(rest[i - 1]));
            }
        }
        k + 1
    } else {
        assert(s.skip(0) =~= s);
        0
    }
}

proof fn lemma_trim_end(s: Seq<char>) -> (k: int)
    ensures
        0 <= k <= s.len(),
        trim_end(s) == s.take(k),
        forall|i: int| k <= i < s.len() ==> is_space(#[trigger] s[i]),
        k > 0 ==> !is_space(s[k - 1]),
    decreases s.len(),
{
    if s.len() > 0 && is_space(s.last()) {
        let rest = s.drop_last();
        let k = lemma_trim_end(rest);
        assert(rest.take(k) =~= s.take(k));
        assert forall|i: int| k <= i < s.len() implies is_space(#[trigger] s[i]) by {
            if i < rest.len() {
                assert(is_space(rest[i]));
            }
        }
        k
    } else {
        assert(s.take(s.len() as int) =~= s);
        s.len() as int
    }
}

/// A trimmed text is what is left of it between the white space at its ends: nothing but white space
/// is cut off, and none is left at either end.
pub proof fn trimming_cuts_white_space_alone(s: Seq<char>) -> (ends: (int, int))
    ensures
        0 <= ends.0 <= ends.1 <= s.len(),
        trim(s) == s.subrange(ends.0, ends.1),
        forall|i: int| 0 <= i < ends.0 || ends.1 <= i < s.len() ==> is_space(#[trigger] s[i]),
        trim(s).len() > 0 ==> !is_space(trim(s)[0]) && !is_space(trim(s).last()),
        trim(trim(s)) == trim(s),
{
    let a = lemma_trim_start(s);
    let mid = s.skip(a);
    let k = lemma_trim_end(mid);
    assert(mid.take(k) =~= s.subrange(a, a + k));
    assert forall|i: int| 0 <= i < a || a + k <= i < s.len() implies is_space(#[trigger] s[i]) by {
        if i >= a + k {
            assert(is_space(mid[i - a]));
        }
    }
    if k > 0 {
        assert(trim(s)[0] == mid[0] && mid[0] == s[a]);
        assert(trim(s).last() == mid[k - 1]);
    }
    (a, a + k)
}

/// What white space is: the blanks, tabs and line breaks of ASCII, and no letter, digit or other sign
/// of it.
pub proof fn blanks_are_white_space(c: char)
    requires
        (c as u32) < 128,
    ensures
        is_space(c) <==> c == ' ' || c == '\t' || c == '\n' || c == '\r' || c as u32 == 11 || c as u32
            == 12,
{
}

/// Lowercasing keeps every character but the capital letters of ASCII, and these become the small ones
/// in the same place of the alphabet.
pub proof fn capitals_become_small_letters(s: Seq<char>, i: int)
    requires
        0 <= i < s.len(),
    ensures
        lowercase(s).len() == s.len(),
        !('A' <= s[i] <= 'Z') ==> lowercase(s)[i] == s[i],
        'A' <= s[i] <= 'Z' ==> 'a' <= lowercase(s)[i] <= 'z' && lowercase(s)[i] as u32 - 97 == s[i] as u32
            - 65,
{
}

/// Texts are ordered by the first character in which they differ, and a text comes before those that
/// go on after it.
pub proof fn texts_are_ordered_by_their_first_difference(a: Seq<char>, b: Seq<char>, k: int)
    requires
        0 <= k <= a.len(),
        k <= b.len(),
        forall|i: int| 0 <= i < k ==> a[i] == b[i],
        k < a.len() && k < b.len() ==> a[k] != b[k],
    ensures
        k < a.len() && k < b.len() ==> (before(a, b) <==> a[k] < b[k]),
        k == a.len() ==> (before(a, b) <==> a.len() < b.len()),
        k == b.len() ==> !before(a, b),
    decreases k,
{
    if k > 0 {
        let (x, y) = (a.drop_first(), b.drop_first());
        assert(a[0] == b[0]);
        assert forall|i: int| 0 <= i < k - 1 implies x[i] == y[i] by {
            assert(a[i + 1] == b[i + 1]);
        }
        texts_are_ordered_by_their_first_difference(x, y, k - 1);
    }
}

/// Joined texts are the texts with the separator between each two: one more goes behind the rest.
pub proof fn joining_puts_separators_between(
    parts: Seq<Seq<char>>,
    next: Seq<char>,
    separator: Seq<char>,
)
    ensures
        join(Seq::empty(), separator).len() == 0,
        join(seq![next], separator) == next,
        parts.len() > 0 ==> join(parts.push(next), separator) == join(parts, separator) + separator
            + next,
{
    assert(parts.push(next).drop_last() =~= parts);
}

/// The lines of a text: it ends a line at each newline, which is not part of the line, nor is a carriage
/// return in front of it; an empty text has no line, and what follows the last newline is one where
/// there is anything.
pub proof fn lines_end_at_newlines(line: Seq<char>, rest: Seq<char>)
    requires
        forall|i: int| 0 <= i < line.len() ==> #[trigger] line[i] != '\n',
    ensures
        lines(Seq::empty()).len() == 0,
        line.len() > 0 ==> lines(line) == seq![line],
        lines(line + seq!['\n'] + rest) == seq![
            if line.len() > 0 && line.last() == '\r' {
                line.drop_last()
            } else {
                line
            },
        ] + lines(rest),
{
    let all = line + seq!['\n'] + rest;
    let n = line.len() as int;
    assert forall|i: int| 0 <= i < n implies all[i] != '\n' by {
        assert(all[i] == line[i]);
    }
    assert(all[n] == '\n');
    lemma_line_end(all, n);
    assert(all.take(n) =~= line);
    assert(all.skip(n + 1) =~= rest);
    if line.len() > 0 {
        lemma_line_end(line, n);
    }
}

/// Padding fills a text up to the width with blanks, and adds nothing to one that is as wide.
pub proof fn padding_fills_up_to_the_width(len: int, width: int, i: int)
    requires
        0 <= len,
        0 <= width,
    ensures
        len <= width ==> len + padding(len, width).len() == width,
        len >= width ==> padding(len, width).len() == 0,
        0 <= i < padding(len, width).len() ==> padding(len, width)[i] == ' ',
{
}

/// Beyond ASCII, white space is the next-line character, the spaces of fixed and of no width to break
/// at, and the separators of lines and paragraphs; no letter or sign of any script is.
pub proof fn white_space_beyond_ascii_is_known(c: char)
    requires
        (c as u32) >= 128,
    ensures
        is_space(c) ==> c as u32 == 133 || c as u32 == 160 || c as u32 == 5760 || (8192 <= c as u32
            && c as u32 <= 8202) || c as u32 == 8232 || c as u32 == 8233 || c as u32 == 8239 || c as u32
            == 8287 || c as u32 == 12288,
        c as u32 == 133 || c as u32 == 160 || c as u32 == 5760 || c as u32 == 8232 || c as u32 == 8233
            || c as u32 == 8239 || c as u32 == 8287 || c as u32 == 12288 ==> is_space(c),
        8192 <= c as u32 && c as u32 <= 8202 ==> is_space(c),
{
}

} // verus!
