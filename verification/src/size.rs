//! Parses the byte sizes people type on the command line.
//!
//! Nobody wants to write `4294967296`. Suffixes are the usual binary ones (`K`, `M`, `G`, `T`, and
//! the `KiB`/`MiB` spellings); a bare number is bytes.
use crate::text::{
    chars_of, decimal, is_space, lowercase, push_decimal, same_text, string_of, to_lowercase, trim,
    trim_start, trimmed,
};
use vstd::prelude::*;

verus! {

pub const KIB: u64 = 1024;

pub const MIB: u64 = 1024 * 1024;

pub const GIB: u64 = 1024 * 1024 * 1024;

pub const TIB: u64 = 1024 * 1024 * 1024 * 1024;

/// Whether a character is a decimal digit.
pub open spec fn is_digit(c: char) -> bool {
    '0' <= c <= '9'
}

/// How many digits a text starts with.
pub open spec fn digit_count(s: Seq<char>) -> int
    decreases s.len(),
{
    if s.len() > 0 && is_digit(s[0]) {
        1 + digit_count(s.drop_first())
    } else {
        0
    }
}

/// The number that a row of digits stands for.
pub open spec fn decimal_value(s: Seq<char>) -> nat
    decreases s.len(),
{
    if s.len() == 0 {
        0
    } else {
        10 * decimal_value(s.drop_last()) + ((s.last() as u32) - 48) as nat
    }
}

/// How many bytes a unit is, by its name in lowercase.
pub open spec fn unit_bytes(unit: Seq<char>) -> Option<int> {
    if unit == ""@ || unit == "b"@ || unit == "byte"@ || unit == "bytes"@ {
        Some(1)
    } else if unit == "k"@ || unit == "kb"@ || unit == "kib"@ {
        Some(KIB as int)
    } else if unit == "m"@ || unit == "mb"@ || unit == "mib"@ {
        Some(MIB as int)
    } else if unit == "g"@ || unit == "gb"@ || unit == "gib"@ {
        Some(GIB as int)
    } else if unit == "t"@ || unit == "tb"@ || unit == "tib"@ {
        Some(TIB as int)
    } else {
        None
    }
}

/// What is said of an empty size.
pub open spec fn empty_size_text() -> Seq<char> {
    "expected a size like 4G, 512M, or a number of bytes"@
}

/// What is said of a size that does not start with a number.
pub open spec fn no_number_text(input: Seq<char>) -> Seq<char> {
    "'"@ + input + "' doesn't start with a number; try something like 4G or 512M"@
}

/// What is said of an unknown unit.
pub open spec fn unknown_unit_text(unit: Seq<char>) -> Seq<char> {
    "'"@ + unit
        + "' isn't a size suffix I know; use K, M, G, or T (or leave it off for bytes)"@
}

/// What is said of a number that does not fit in 64 bits.
pub open spec fn too_big_text(number: Seq<char>) -> Seq<char> {
    "'"@ + number + "' is too big to be a size in bytes"@
}

/// What is said of a size that does not fit in 64 bits.
pub open spec fn overflow_text(input: Seq<char>) -> Seq<char> {
    "'"@ + input + "' is larger than a 64-bit byte count can hold"@
}

/// What a size stands for, or what is wrong with it.
pub open spec fn size_of(input: Seq<char>) -> Result<u64, Seq<char>> {
    let text = trim(input);
    let n = digit_count(text);
    let number = text.take(n);
    let unit = lowercase(trim(text.skip(n)));
    if text.len() == 0 {
        Err(empty_size_text())
    } else if n == 0 {
        Err(no_number_text(text))
    } else {
        match unit_bytes(unit) {
            None => Err(unknown_unit_text(unit)),
            Some(bytes) => if decimal_value(number) > u64::MAX {
                Err(too_big_text(number))
            } else if decimal_value(number) * bytes > u64::MAX {
                Err(overflow_text(text))
            } else {
                Ok((decimal_value(number) * bytes) as u64)
            },
        }
    }
}

fn quoted(start: &str, middle: &str, end: &str) -> (s: String)
    ensures
        s@ == start@ + middle@ + end@,
{
    let mut s = start.to_string();
    s.append(middle);
    s.append(end);
    s
}

fn unit_multiplier(unit: &String) -> (bytes: Option<u64>)
    ensures
        match (bytes, unit_bytes(unit@)) {
            (Some(b), Some(n)) => b == n,
            (None, None) => true,
            _ => false,
        },
        bytes is Some ==> bytes->0 > 0,
{
    let u = unit.as_str();
    if same_text(u, "") || same_text(u, "b") || same_text(u, "byte") || same_text(u, "bytes") {
        Some(1)
    } else if same_text(u, "k") || same_text(u, "kb") || same_text(u, "kib") {
        Some(KIB)
    } else if same_text(u, "m") || same_text(u, "mb") || same_text(u, "mib") {
        Some(MIB)
    } else if same_text(u, "g") || same_text(u, "gb") || same_text(u, "gib") {
        Some(GIB)
    } else if same_text(u, "t") || same_text(u, "tb") || same_text(u, "tib") {
        Some(TIB)
    } else {
        None
    }
}

proof fn lemma_digit_count(s: Seq<char>, n: int)
    requires
        0 <= n <= s.len(),
        forall|i: int| 0 <= i < n ==> is_digit(#[trigger] s[i]),
        n < s.len() ==> !is_digit(s[n]),
    ensures
        digit_count(s) == n,
    decreases s.len(),
{
    if s.len() > 0 && n > 0 {
        assert(is_digit(s[0]));
        assert forall|i: int| 0 <= i < n - 1 implies is_digit(#[trigger] s.drop_first()[i]) by {
            assert(is_digit(s[i + 1]));
        }
        lemma_digit_count(s.drop_first(), n - 1);
    }
}

/// The number that the first `n` characters stand for, where it fits in 64 bits.
fn number_value(chars: &Vec<char>, n: usize) -> (value: Option<u64>)
    requires
        n <= chars.len(),
        forall|i: int| 0 <= i < n ==> is_digit(#[trigger] chars@[i]),
    ensures
        match value {
            Some(v) => v == decimal_value(chars@.take(n as int)),
            None => decimal_value(chars@.take(n as int)) > u64::MAX,
        },
{
    let mut value: u64 = 0;
    let mut i: usize = 0;
    while i < n
        invariant
            i <= n <= chars.len(),
            forall|k: int| 0 <= k < n ==> is_digit(#[trigger] chars@[k]),
            value == decimal_value(chars@.take(i as int)),
        decreases n - i,
    {
        assert(is_digit(chars@[i as int]));
        let d: u64 = (chars[i] as u32 - 48) as u64;
        assert(chars@.take(i + 1).drop_last() =~= chars@.take(i as int));
        let next: Option<u64> = match value.checked_mul(10) {
            Some(tens) => tens.checked_add(d),
            None => None,
        };
        match next {
            Some(v) => {
                value = v;
            },
            None => {
                proof {
                    lemma_value_grows(chars@, i + 1, n as int);
                }
                return None;
            },
        }
        i += 1;
    }
    Some(value)
}

proof fn lemma_value_grows(s: Seq<char>, i: int, n: int)
    requires
        0 <= i <= n <= s.len(),
        forall|k: int| 0 <= k < n ==> is_digit(#[trigger] s[k]),
    ensures
        decimal_value(s.take(i)) <= decimal_value(s.take(n)),
    decreases n - i,
{
    if i < n {
        lemma_value_grows(s, i, n - 1);
        assert(s.take(n).drop_last() =~= s.take(n - 1));
        assert(is_digit(s[n - 1]));
    }
}

/// Turn a size like `4G`, `512MiB`, or `1048576` into a byte count.
///
/// Case-insensitive. `0` is valid and means "no limit" to every caller here.
pub fn parse_size(input: &str) -> (size: Result<u64, String>)
    ensures
        match (size, size_of(input@)) {
            (Ok(n), Ok(m)) => n == m,
            (Err(message), Err(text)) => message@ == text,
            _ => false,
        },
{
    let text = trimmed(input);
    let chars = chars_of(text.as_str());
    if chars.len() == 0 {
        return Err("expected a size like 4G, 512M, or a number of bytes".to_string());
    }
    let mut n: usize = 0;
    while n < chars.len() && '0' <= chars[n] && chars[n] <= '9'
        invariant
            n <= chars.len(),
            forall|i: int| 0 <= i < n ==> is_digit(#[trigger] chars@[i]),
        decreases chars.len() - n,
    {
        n += 1;
    }
    proof {
        lemma_digit_count(chars@, n as int);
    }
    if n == 0 {
        return Err(
            quoted(
                "'",
                text.as_str(),
                "' doesn't start with a number; try something like 4G or 512M",
            ),
        );
    }
    let suffix = string_of(&chars, n, chars.len());
    assert(suffix@ =~= chars@.skip(n as int));
    let unit = to_lowercase(trimmed(suffix.as_str()).as_str());
    let bytes: u64 = match unit_multiplier(&unit) {
        Some(bytes) => bytes,
        None => {
            return Err(
                quoted(
                    "'",
                    unit.as_str(),
                    "' isn't a size suffix I know; use K, M, G, or T (or leave it off for bytes)",
                ),
            );
        },
    };
    let value: u64 = match number_value(&chars, n) {
        Some(value) => value,
        None => {
            let number = string_of(&chars, 0, n);
            assert(number@ =~= chars@.take(n as int));
            return Err(quoted("'", number.as_str(), "' is too big to be a size in bytes"));
        },
    };
    match value.checked_mul(bytes) {
        Some(total) => Ok(total),
        None => Err(
            quoted("'", text.as_str(), "' is larger than a 64-bit byte count can hold"),
        ),
    }
}

/// The unit that a byte count is shown in: the largest one that divides it.
pub open spec fn shown_unit(bytes: u64) -> (int, Seq<char>) {
    if bytes >= TIB && bytes % TIB == 0 {
        (TIB as int, " TiB"@)
    } else if bytes >= GIB && bytes % GIB == 0 {
        (GIB as int, " GiB"@)
    } else if bytes >= MIB && bytes % MIB == 0 {
        (MIB as int, " MiB"@)
    } else if bytes >= KIB && bytes % KIB == 0 {
        (KIB as int, " KiB"@)
    } else {
        (1, " bytes"@)
    }
}

/// How a byte count is shown.
pub open spec fn size_text(bytes: u64) -> Seq<char> {
    let (scale, unit) = shown_unit(bytes);
    decimal((bytes as int / scale) as nat) + unit
}

/// Render a byte count the way [`parse_size`] would accept it back.
pub fn format_size(bytes: u64) -> (s: String)
    ensures
        s@ == size_text(bytes),
{
    let mut s = String::new();
    let ghost empty = s@;
    assert(empty =~= Seq::empty());
    if bytes >= TIB && bytes % TIB == 0 {
        push_decimal(&mut s, bytes / TIB);
        s.append(" TiB");
    } else if bytes >= GIB && bytes % GIB == 0 {
        push_decimal(&mut s, bytes / GIB);
        s.append(" GiB");
    } else if bytes >= MIB && bytes % MIB == 0 {
        push_decimal(&mut s, bytes / MIB);
        s.append(" MiB");
    } else if bytes >= KIB && bytes % KIB == 0 {
        push_decimal(&mut s, bytes / KIB);
        s.append(" KiB");
    } else {
        push_decimal(&mut s, bytes);
        s.append(" bytes");
    }
    assert(s@ =~= size_text(bytes));
    s
}

pub(crate) proof fn lemma_numeral(n: nat)
    ensures
        decimal(n).len() > 0,
        forall|i: int| 0 <= i < decimal(n).len() ==> is_digit(#[trigger] decimal(n)[i]),
        decimal_value(decimal(n)) == n,
    decreases n,
{
    let s = decimal(n);
    if n < 10 {
        assert(s.drop_last() =~= Seq::empty());
        assert(decimal_value(s.drop_last()) == 0);
    } else {
        lemma_numeral(n / 10);
        assert(s.drop_last() =~= decimal(n / 10));
        assert forall|i: int| 0 <= i < s.len() implies is_digit(#[trigger] s[i]) by {
            if i < s.len() - 1 {
                assert(s[i] == decimal(n / 10)[i]);
            }
        }
    }
}

/// The units that sizes are shown in, as they are written and as they are read.
proof fn lemma_units()
    ensures
        unit_bytes("tib"@) == Some(TIB as int),
        unit_bytes("gib"@) == Some(GIB as int),
        unit_bytes("mib"@) == Some(MIB as int),
        unit_bytes("kib"@) == Some(KIB as int),
        unit_bytes("bytes"@) == Some(1int),
        lowercase(trim(" TiB"@)) == "tib"@,
        lowercase(trim(" GiB"@)) == "gib"@,
        lowercase(trim(" MiB"@)) == "mib"@,
        lowercase(trim(" KiB"@)) == "kib"@,
        lowercase(trim(" bytes"@)) == "bytes"@,
{
    reveal_strlit("");
    reveal_strlit("b");
    reveal_strlit("byte");
    reveal_strlit("bytes");
    reveal_strlit("k");
    reveal_strlit("kb");
    reveal_strlit("kib");
    reveal_strlit("m");
    reveal_strlit("mb");
    reveal_strlit("mib");
    reveal_strlit("g");
    reveal_strlit("gb");
    reveal_strlit("gib");
    reveal_strlit("t");
    reveal_strlit("tb");
    reveal_strlit("tib");
    reveal_strlit(" TiB");
    reveal_strlit(" GiB");
    reveal_strlit(" MiB");
    reveal_strlit(" KiB");
    reveal_strlit(" bytes");
    assert("tib"@[0] == 't' && "gib"@[0] == 'g' && "mib"@[0] == 'm' && "kib"@[0] == 'k');
    lemma_trim_one(" TiB"@);
    lemma_trim_one(" GiB"@);
    lemma_trim_one(" MiB"@);
    lemma_trim_one(" KiB"@);
    lemma_trim_one(" bytes"@);
    assert(lowercase(" TiB"@.drop_first()) =~= "tib"@);
    assert(lowercase(" GiB"@.drop_first()) =~= "gib"@);
    assert(lowercase(" MiB"@.drop_first()) =~= "mib"@);
    assert(lowercase(" KiB"@.drop_first()) =~= "kib"@);
    assert(lowercase(" bytes"@.drop_first()) =~= "bytes"@);
}

proof fn lemma_trim_one(s: Seq<char>)
    requires
        s.len() >= 2,
        s[0] == ' ',
        !is_space(s[1]),
        !is_space(s.last()),
    ensures
        trim(s) == s.drop_first(),
{
    let t = s.drop_first();
    assert(t[0] == s[1]);
    assert(trim_start(t) == t);
    assert(t.last() == s.last());
}

proof fn lemma_reads_back(n: nat, unit: Seq<char>, name: Seq<char>, bytes: int)
    requires
        unit.len() >= 2,
        unit[0] == ' ',
        !is_space(unit.last()),
        lowercase(trim(unit)) == name,
        unit_bytes(name) == Some(bytes),
        n <= u64::MAX,
        n * bytes <= u64::MAX,
    ensures
        size_of(decimal(n) + unit) == Ok::<u64, Seq<char>>((n * bytes) as u64),
{
    let number = decimal(n);
    let text = number + unit;
    lemma_numeral(n);
    assert(is_digit(number[0]));
    assert(text[0] == number[0]);
    assert(text.last() == unit.last());
    assert(trim(text) == text);
    assert(text[number.len() as int] == unit[0]);
    assert forall|i: int| 0 <= i < number.len() implies is_digit(#[trigger] text[i]) by {
        assert(text[i] == number[i]);
    }
    lemma_digit_count(text, number.len() as int);
    assert(text.take(number.len() as int) =~= number);
    assert(text.skip(number.len() as int) =~= unit);
}

proof fn lemma_whole_units(bytes: int, scale: int)
    requires
        bytes >= 0,
        scale > 0,
        bytes % scale == 0,
    ensures
        (bytes / scale) * scale == bytes,
        0 <= bytes / scale <= bytes,
{
    vstd::arithmetic::div_mod::lemma_fundamental_div_mod(bytes, scale);
    assert(scale * (bytes / scale) == (bytes / scale) * scale) by (nonlinear_arith);
    assert(0 <= bytes / scale <= bytes) by (nonlinear_arith)
        requires
            bytes >= 0,
            scale > 0,
    ;
}

/// What is shown for a byte count is read back as that byte count.
pub proof fn formatting_round_trips(bytes: u64)
    ensures
        size_of(size_text(bytes)) == Ok::<u64, Seq<char>>(bytes),
{
    lemma_units();
    reveal_strlit(" TiB");
    reveal_strlit(" GiB");
    reveal_strlit(" MiB");
    reveal_strlit(" KiB");
    reveal_strlit(" bytes");
    assert(" TiB"@[1] == 'T' && " GiB"@[1] == 'G' && " MiB"@[1] == 'M' && " KiB"@[1] == 'K');
    let (scale, unit) = shown_unit(bytes);
    lemma_whole_units(bytes as int, scale);
    let n = (bytes as int / scale) as nat;
    if unit == " TiB"@ {
        lemma_reads_back(n, " TiB"@, "tib"@, scale);
    } else if unit == " GiB"@ {
        lemma_reads_back(n, " GiB"@, "gib"@, scale);
    } else if unit == " MiB"@ {
        lemma_reads_back(n, " MiB"@, "mib"@, scale);
    } else if unit == " KiB"@ {
        lemma_reads_back(n, " KiB"@, "kib"@, scale);
    } else {
        lemma_reads_back(n, " bytes"@, "bytes"@, scale);
    }
}

/// What each unit counts, whatever else a unit may be.
proof fn lemma_all_units()
    ensures
        unit_bytes(""@) == Some(1int),
        unit_bytes("b"@) == Some(1int),
        unit_bytes("byte"@) == Some(1int),
        unit_bytes("bytes"@) == Some(1int),
        unit_bytes("k"@) == Some(1024int),
        unit_bytes("kb"@) == Some(1024int),
        unit_bytes("kib"@) == Some(1024int),
        unit_bytes("m"@) == Some(1048576int),
        unit_bytes("mb"@) == Some(1048576int),
        unit_bytes("mib"@) == Some(1048576int),
        unit_bytes("g"@) == Some(1073741824int),
        unit_bytes("gb"@) == Some(1073741824int),
        unit_bytes("gib"@) == Some(1073741824int),
        unit_bytes("t"@) == Some(1099511627776int),
        unit_bytes("tb"@) == Some(1099511627776int),
        unit_bytes("tib"@) == Some(1099511627776int),
{
    reveal_strlit("");
    reveal_strlit("b");
    reveal_strlit("byte");
    reveal_strlit("bytes");
    reveal_strlit("k");
    reveal_strlit("kb");
    reveal_strlit("kib");
    reveal_strlit("m");
    reveal_strlit("mb");
    reveal_strlit("mib");
    reveal_strlit("g");
    reveal_strlit("gb");
    reveal_strlit("gib");
    reveal_strlit("t");
    reveal_strlit("tb");
    reveal_strlit("tib");
    assert(""@.len() == 0);
    assert("b"@.len() == 1 && "b"@[0] == 'b');
    assert("byte"@.len() == 4 && "byte"@[0] == 'b');
    assert("bytes"@.len() == 5 && "bytes"@[0] == 'b');
    assert("k"@.len() == 1 && "k"@[0] == 'k');
    assert("kb"@.len() == 2 && "kb"@[0] == 'k');
    assert("kib"@.len() == 3 && "kib"@[0] == 'k');
    assert("m"@.len() == 1 && "m"@[0] == 'm');
    assert("mb"@.len() == 2 && "mb"@[0] == 'm');
    assert("mib"@.len() == 3 && "mib"@[0] == 'm');
    assert("g"@.len() == 1 && "g"@[0] == 'g');
    assert("gb"@.len() == 2 && "gb"@[0] == 'g');
    assert("gib"@.len() == 3 && "gib"@[0] == 'g');
    assert("t"@.len() == 1 && "t"@[0] == 't');
    assert("tb"@.len() == 2 && "tb"@[0] == 't');
    assert("tib"@.len() == 3 && "tib"@[0] == 't');
}

/// How many bytes a unit stands for, by what it is called in lowercase: powers of 1024, and none that is
/// called otherwise.
pub open spec fn is_unit(name: Seq<char>, bytes: int) -> bool {
    ||| (name == ""@ || name == "b"@ || name == "byte"@ || name == "bytes"@) && bytes == 1
    ||| (name == "k"@ || name == "kb"@ || name == "kib"@) && bytes == 1024
    ||| (name == "m"@ || name == "mb"@ || name == "mib"@) && bytes == 1048576
    ||| (name == "g"@ || name == "gb"@ || name == "gib"@) && bytes == 1073741824
    ||| (name == "t"@ || name == "tb"@ || name == "tib"@) && bytes == 1099511627776
}

proof fn lemma_size_of(n: nat, unit: Seq<char>)
    requires
        unit.len() == 0 || (!is_digit(unit[0]) && !is_space(unit.last())),
    ensures
        ({
            let text = decimal(n) + unit;
            &&& trim(text) == text
            &&& digit_count(text) == decimal(n).len()
            &&& text.take(decimal(n).len() as int) == decimal(n)
            &&& text.skip(decimal(n).len() as int) == unit
            &&& text.len() > 0
            &&& decimal(n).len() > 0
            &&& decimal_value(decimal(n)) == n
        }),
{
    let number = decimal(n);
    let text = number + unit;
    lemma_numeral(n);
    assert(is_digit(number[0]));
    assert(text[0] == number[0]);
    if unit.len() == 0 {
        assert(is_digit(number[number.len() - 1]));
        assert(text.last() == number[number.len() - 1]);
    } else {
        assert(text.last() == unit.last());
        assert(text[number.len() as int] == unit[0]);
    }
    assert(trim(text) == text);
    assert forall|i: int| 0 <= i < number.len() implies is_digit(#[trigger] text[i]) by {
        assert(text[i] == number[i]);
    }
    lemma_digit_count(text, number.len() as int);
    assert(text.take(number.len() as int) =~= number);
    assert(text.skip(number.len() as int) =~= unit);
}

/// A number with a unit behind it, in whatever case and with blanks before it or not, is that many of
/// the unit, where 64 bits can count them; otherwise, and with any other unit, it is refused.
pub proof fn sizes_are_counted_in_binary_units(n: nat, unit: Seq<char>, bytes: int)
    requires
        unit.len() == 0 || (!is_digit(unit[0]) && !is_space(unit.last())),
    ensures
        ({
            let size = size_of(decimal(n) + unit);
            let name = lowercase(trim(unit));
            &&& is_unit(name, bytes) && n * bytes <= u64::MAX ==> size == Ok::<u64, Seq<char>>(
                (n * bytes) as u64,
            )
            &&& is_unit(name, bytes) && n * bytes > u64::MAX ==> size is Err
            &&& !(is_unit(name, 1) || is_unit(name, 1024) || is_unit(name, 1048576) || is_unit(
                name,
                1073741824,
            ) || is_unit(name, 1099511627776)) ==> size is Err
        }),
{
    lemma_all_units();
    lemma_size_of(n, unit);
    let name = lowercase(trim(unit));
    if is_unit(name, bytes) {
        assert(unit_bytes(name) == Some(bytes));
        assert(n <= n * bytes) by (nonlinear_arith)
            requires
                bytes >= 1,
                n >= 0,
        ;
    }
}

/// Blanks around a size do not matter, and a text that does not start with a digit is none.
pub proof fn sizes_start_with_a_number(input: Seq<char>)
    ensures
        size_of(trim(input)) == size_of(input),
        trim(input).len() == 0 || !('0' <= trim(input)[0] <= '9') ==> size_of(input) is Err,
{
    crate::text::trimming_cuts_white_space_alone(input);
}

/// A size is shown in the largest unit that it is a whole number of, and in bytes where it is a whole
/// number of none.
pub proof fn sizes_are_shown_in_the_largest_unit(bytes: u64)
    ensures
        bytes >= 1099511627776 && bytes % 1099511627776 == 0 ==> size_text(bytes) == decimal(
            (bytes / 1099511627776) as nat,
        ) + " TiB"@,
        bytes >= 1073741824 && bytes % 1073741824 == 0 && bytes % 1099511627776 != 0 ==> size_text(
            bytes,
        ) == decimal((bytes / 1073741824) as nat) + " GiB"@,
        bytes >= 1048576 && bytes % 1048576 == 0 && bytes % 1073741824 != 0 ==> size_text(bytes)
            == decimal((bytes / 1048576) as nat) + " MiB"@,
        bytes >= 1024 && bytes % 1024 == 0 && bytes % 1048576 != 0 ==> size_text(bytes) == decimal(
            (bytes / 1024) as nat,
        ) + " KiB"@,
        bytes == 0 || bytes % 1024 != 0 ==> size_text(bytes) == decimal(bytes as nat) + " bytes"@,
{
    assert(bytes % 1099511627776 == 0 ==> bytes % 1073741824 == 0);
    assert(bytes % 1073741824 == 0 ==> bytes % 1048576 == 0);
    assert(bytes % 1048576 == 0 ==> bytes % 1024 == 0);
}

/// The digits of a number count by their places: each one more makes it ten times as large and adds
/// what it stands for, so zeros in front count for nothing. They end at the first character that is no
/// digit.
pub proof fn digits_count_by_their_places(s: Seq<char>, c: char, rest: Seq<char>)
    requires
        forall|i: int| 0 <= i < s.len() ==> '0' <= #[trigger] s[i] && s[i] <= '9',
    ensures
        '0' <= c <= '9' ==> decimal_value(s.push(c)) == 10 * decimal_value(s) + (c as u32 - 48),
        decimal_value(seq!['0'] + s) == decimal_value(s),
        decimal_value(Seq::empty()) == 0,
        !('0' <= c <= '9') ==> digit_count(s.push(c) + rest) == s.len(),
        digit_count(s) == s.len(),
    decreases s.len(),
{
    assert(s.push(c).drop_last() =~= s);
    if s.len() == 0 {
        assert(seq!['0'] + s =~= Seq::<char>::empty().push('0'));
        assert(s.push(c) + rest =~= seq![c] + rest);
        assert((s.push(c) + rest)[0] == c);
        assert(decimal_value(Seq::<char>::empty()) == 0);
        assert(decimal_value(Seq::<char>::empty().push('0')) == 0) by {
            assert(Seq::<char>::empty().push('0').drop_last() =~= Seq::<char>::empty());
        }
    } else {
        let init = s.drop_last();
        let tail = s.drop_first();
        digits_count_by_their_places(init, c, rest);
        digits_count_by_their_places(tail, c, rest);
        assert((seq!['0'] + s).drop_last() =~= seq!['0'] + init);
        assert((s.push(c) + rest).drop_first() =~= tail.push(c) + rest);
        assert((s.push(c) + rest)[0] == s[0]);
    }
}

/// What is said of a text that is no size: of nothing, what a size looks like; otherwise the part that
/// is wrong, in quotes.
pub proof fn refused_sizes_are_told_why(input: Seq<char>)
    ensures
        ({
            let text = trim(input);
            let n = digit_count(text);
            let unit = lowercase(trim(text.skip(n)));
            &&& text.len() == 0 ==> size_of(input) == Err::<u64, Seq<char>>(
                "expected a size like 4G, 512M, or a number of bytes"@,
            )
            &&& text.len() > 0 && !('0' <= text[0] <= '9') ==> size_of(input) == Err::<
                u64,
                Seq<char>,
            >("'"@ + text + "' doesn't start with a number; try something like 4G or 512M"@)
            &&& text.len() > 0 && '0' <= text[0] <= '9' && unit_bytes(unit) is None ==> size_of(input)
                == Err::<u64, Seq<char>>(
                "'"@ + unit
                    + "' isn't a size suffix I know; use K, M, G, or T (or leave it off for bytes)"@,
            )
            &&& text.len() > 0 && '0' <= text[0] <= '9' && unit_bytes(unit) is Some && decimal_value(
                text.take(n),
            ) > u64::MAX ==> size_of(input) == Err::<u64, Seq<char>>(
                "'"@ + text.take(n) + "' is too big to be a size in bytes"@,
            )
        }),
{
    let text = trim(input);
    if text.len() > 0 {
        assert(digit_count(text) > 0 <==> is_digit(text[0])) by {
            lemma_digit_count_positive(text);
        }
    }
}

proof fn lemma_digit_count_positive(s: Seq<char>)
    ensures
        digit_count(s) >= 0,
        s.len() > 0 ==> (digit_count(s) > 0 <==> is_digit(s[0])),
    decreases s.len(),
{
    if s.len() > 0 {
        lemma_digit_count_positive(s.drop_first());
    }
}

} // verus!
