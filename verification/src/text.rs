//! Building blocks for the texts that the tracker writes: decimal numerals
//! and application names quoted for a script.
//!
//! A name is free-form text, and the chart document puts it between single
//! quotes inside a script. To keep a name from ending the quotes or the
//! script, every character that is not plainly harmless is written as a code
//! point escape: a backslash, `u{`, six hexadecimal digits and `}`. The
//! script reads such an escape as the character it stands for, so the chart
//! shows the name as it was given.

use vstd::prelude::*;

verus! {

/// `String::push` appends one character to the end of the string and changes
/// nothing before it.
pub assume_specification[ String::push ](text: &mut String, ch: char)
    ensures
        final(text)@ == old(text)@.push(ch),
;

/// The character of the decimal digit `d`.
pub open spec fn digit_char(d: int) -> char {
    ('0' as int + d) as char
}

/// Whether `ch` is one of the ten decimal digits.
pub open spec fn is_decimal_digit(ch: char) -> bool {
    '0' as int <= ch as int <= '9' as int
}

/// The decimal numeral of `n`, most significant digit first and without
/// leading zeros.
pub open spec fn decimal_digits(n: nat) -> Seq<char>
    decreases n,
{
    if n < 10 {
        seq![digit_char(n as int)]
    } else {
        decimal_digits(n / 10).push(digit_char((n % 10) as int))
    }
}

/// The number that a string of decimal digits denotes.
pub open spec fn decimal_value(digits: Seq<char>) -> int
    decreases digits.len(),
{
    if digits.len() == 0 {
        0
    } else {
        decimal_value(digits.drop_last()) * 10 + (digits.last() as int - '0' as int)
    }
}

/// Whether `ch` stands for itself inside a quoted label: a printable ASCII
/// character other than the quotes, the backslash, the angle brackets and the
/// ampersand.
pub open spec fn is_plain(ch: char) -> bool {
    &&& 0x20 <= ch as int <= 0x7E
    &&& ch != '\''
    &&& ch != '"'
    &&& ch != '\\'
    &&& ch != '<'
    &&& ch != '>'
    &&& ch != '&'
}

/// Whether a character can stand between the quotes of a label without
/// ending them or the script around them.
pub open spec fn is_label_safe(ch: char) -> bool {
    is_plain(ch) || ch == '\\'
}

/// The character of the hexadecimal digit `d`, in upper case.
pub open spec fn hex_char(d: int) -> char {
    if d < 10 {
        ('0' as int + d) as char
    } else {
        ('A' as int + d - 10) as char
    }
}

/// The value of a hexadecimal digit in upper case; zero for another character.
pub open spec fn hex_value(ch: char) -> int {
    if '0' as int <= ch as int <= '9' as int {
        ch as int - '0' as int
    } else if 'A' as int <= ch as int <= 'F' as int {
        ch as int - 'A' as int + 10
    } else {
        0
    }
}

/// Length of a code point escape.
pub const ESCAPE_LEN: usize = 10;

/// The code point escape of `ch`: backslash, `u`, `{`, the code point in six
/// hexadecimal digits, `}`.
pub open spec fn code_point_escape(ch: char) -> Seq<char> {
    let cp = ch as int;
    seq![
        '\\',
        'u',
        '{',
        hex_char(cp / 0x100000 % 16),
        hex_char(cp / 0x10000 % 16),
        hex_char(cp / 0x1000 % 16),
        hex_char(cp / 0x100 % 16),
        hex_char(cp / 0x10 % 16),
        hex_char(cp % 16),
        '}',
    ]
}

/// What one character of a name becomes in a quoted label.
pub open spec fn escape_of(ch: char) -> Seq<char> {
    if is_plain(ch) {
        seq![ch]
    } else {
        code_point_escape(ch)
    }
}

/// A name as it is written between the quotes of a label: each character in
/// turn, plain or as its escape.
pub open spec fn escaped(name: Seq<char>) -> Seq<char>
    decreases name.len(),
{
    if name.len() == 0 {
        Seq::empty()
    } else {
        escape_of(name[0]) + escaped(name.drop_first())
    }
}

/// The character that a code point escape stands for.
pub open spec fn escape_meaning(escape: Seq<char>) -> char {
    (((((hex_value(escape[3]) * 16 + hex_value(escape[4])) * 16 + hex_value(escape[5])) * 16
        + hex_value(escape[6])) * 16 + hex_value(escape[7])) * 16 + hex_value(escape[8])) as char
}

/// What a script reads from the text between the quotes of a label: a
/// backslash opens an escape of `ESCAPE_LEN` characters, any other character
/// stands for itself.
pub open spec fn unescaped(label: Seq<char>) -> Seq<char>
    decreases label.len(),
{
    if label.len() == 0 {
        Seq::empty()
    } else if label[0] == '\\' && label.len() >= ESCAPE_LEN {
        seq![escape_meaning(label.take(ESCAPE_LEN as int))] + unescaped(
            label.skip(ESCAPE_LEN as int),
        )
    } else {
        seq![label[0]] + unescaped(label.skip(1))
    }
}

fn digit(d: u64) -> (ch: char)
    requires
        d < 10,
    ensures
        ch == digit_char(d as int),
{
    (48u8 + d as u8) as char
}

/// Appends the decimal numeral of `n` to `out`.
pub fn push_decimal(out: &mut String, n: u64)
    ensures
        final(out)@ == old(out)@ + decimal_digits(n as nat),
    decreases n,
{
    if n >= 10 {
        push_decimal(out, n / 10);
    }
    out.push(digit(n % 10));
}

/// The decimal numeral of `n`.
pub fn decimal(n: u64) -> (numeral: String)
    ensures
        numeral@ == decimal_digits(n as nat),
{
    let mut numeral = String::new();
    push_decimal(&mut numeral, n);
    numeral
}

fn hex_digit(d: u32) -> (ch: char)
    requires
        d < 16,
    ensures
        ch == hex_char(d as int),
{
    if d < 10 {
        (48u8 + d as u8) as char
    } else {
        (55u8 + d as u8) as char
    }
}

fn plain(ch: char) -> (yes: bool)
    ensures
        yes == is_plain(ch),
{
    let cp: u32 = ch as u32;
    0x20 <= cp && cp <= 0x7E && ch != '\'' && ch != '"' && ch != '\\' && ch != '<' && ch != '>'
        && ch != '&'
}

/// Appends to `out` what `ch` becomes in a quoted label.
fn push_escape_of(out: &mut String, ch: char)
    ensures
        final(out)@ == old(out)@ + escape_of(ch),
{
    if plain(ch) {
        out.push(ch);
        assert(out@ =~= old(out)@ + escape_of(ch));
    } else {
        let cp: u32 = ch as u32;
        out.push('\\');
        out.push('u');
        out.push('{');
        out.push(hex_digit(cp / 0x100000 % 16));
        out.push(hex_digit(cp / 0x10000 % 16));
        out.push(hex_digit(cp / 0x1000 % 16));
        out.push(hex_digit(cp / 0x100 % 16));
        out.push(hex_digit(cp / 0x10 % 16));
        out.push(hex_digit(cp % 16));
        out.push('}');
        assert(out@ =~= old(out)@ + escape_of(ch));
    }
}

/// Appends `name`, escaped for a quoted label, to `out`.
pub fn push_escaped(out: &mut String, name: &str)
    ensures
        final(out)@ == old(out)@ + escaped(name@),
{
    assert(name@.take(0) =~= Seq::<char>::empty());
    for ch in it: name.chars()
        invariant
            it.seq() == name@,
            out@ == old(out)@ + escaped(name@.take(it.index() as int)),
    {
        proof {
            let done = name@.take(it.index() as int);
            lemma_escaped_push(done, ch);
            assert(name@.take(it.index() + 1) =~= done.push(ch));
            assert(old(out)@ + (escaped(done) + escape_of(ch)) =~= (old(out)@ + escaped(done))
                + escape_of(ch));
        }
        push_escape_of(out, ch);
    }
    assert(name@.take(name@.len() as int) =~= name@);
}

/// `name` escaped for a quoted label.
pub fn escape_label(name: &str) -> (label: String)
    ensures
        label@ == escaped(name@),
{
    let mut label = String::new();
    push_escaped(&mut label, name);
    label
}

/// Escaping goes through a name from front to back.
pub proof fn lemma_escaped_push(name: Seq<char>, ch: char)
    ensures
        escaped(name.push(ch)) == escaped(name) + escape_of(ch),
    decreases name.len(),
{
    if name.len() == 0 {
        reveal_with_fuel(escaped, 2);
        assert(name.push(ch).drop_first() =~= Seq::<char>::empty());
        assert(escape_of(ch) + Seq::<char>::empty() =~= Seq::<char>::empty() + escape_of(ch));
    } else {
        lemma_escaped_push(name.drop_first(), ch);
        assert(name.push(ch).drop_first() =~= name.drop_first().push(ch));
        assert(escape_of(name[0]) + (escaped(name.drop_first()) + escape_of(ch)) =~= (escape_of(
            name[0],
        ) + escaped(name.drop_first())) + escape_of(ch));
    }
}

/// A hexadecimal digit reads back as its value.
proof fn lemma_hex_reads_back(d: int)
    requires
        0 <= d < 16,
    ensures
        hex_value(hex_char(d)) == d,
{
}

/// Six hexadecimal digits hold every code point.
proof fn lemma_six_hex_digits(cp: u32)
    requires
        cp <= 0x10FFFF,
    ensures
        (((((cp / 0x100000 % 16) * 16 + cp / 0x10000 % 16) * 16 + cp / 0x1000 % 16) * 16 + cp
            / 0x100 % 16) * 16 + cp / 0x10 % 16) * 16 + cp % 16 == cp,
{
    assert(cp <= 0x10FFFF ==> (((((cp / 0x100000 % 16) * 16 + cp / 0x10000 % 16) * 16 + cp
        / 0x1000 % 16) * 16 + cp / 0x100 % 16) * 16 + cp / 0x10 % 16) * 16 + cp % 16 == cp)
        by (bit_vector);
}

/// A code point escape stands for the character it was written for.
pub proof fn lemma_escape_meaning(ch: char)
    ensures
        code_point_escape(ch).len() == ESCAPE_LEN,
        escape_meaning(code_point_escape(ch)) == ch,
{
    let cp = ch as u32;
    lemma_six_hex_digits(cp);
    lemma_hex_reads_back(cp as int / 0x100000 % 16);
    lemma_hex_reads_back(cp as int / 0x10000 % 16);
    lemma_hex_reads_back(cp as int / 0x1000 % 16);
    lemma_hex_reads_back(cp as int / 0x100 % 16);
    lemma_hex_reads_back(cp as int / 0x10 % 16);
    lemma_hex_reads_back(cp as int % 16);
}

/// A decimal numeral is made of digits only and denotes the number it was
/// written for.
pub proof fn law_decimal_reads_back(n: nat)
    ensures
        decimal_digits(n).len() >= 1,
        forall|i: int|
            0 <= i < decimal_digits(n).len() ==> is_decimal_digit(#[trigger] decimal_digits(n)[i]),
        decimal_value(decimal_digits(n)) == n,
    decreases n,
{
    if n < 10 {
        assert(decimal_digits(n).drop_last() =~= Seq::<char>::empty());
        assert(decimal_value(decimal_digits(n).drop_last()) == 0);
    } else {
        law_decimal_reads_back(n / 10);
        assert(decimal_digits(n).drop_last() =~= decimal_digits(n / 10));
    }
}

/// Labels are rendered verbatim: what a script reads from an escaped name is
/// the name.
pub proof fn law_escape_keeps_the_name(name: Seq<char>)
    ensures
        unescaped(escaped(name)) == name,
    decreases name.len(),
{
    if name.len() > 0 {
        let head = name[0];
        let rest = name.drop_first();
        let label = escaped(name);
        law_escape_keeps_the_name(rest);
        if is_plain(head) {
            assert(label[0] == head);
            assert(label.skip(1) =~= escaped(rest));
        } else {
            lemma_escape_meaning(head);
            assert(label[0] == '\\');
            assert(label.take(ESCAPE_LEN as int) =~= code_point_escape(head));
            assert(label.skip(ESCAPE_LEN as int) =~= escaped(rest));
        }
        assert(seq![head] + rest =~= name);
    }
}

/// An escaped name holds no quote, no angle bracket, no ampersand, no control
/// character and nothing outside ASCII.
pub proof fn law_escape_is_safe(name: Seq<char>)
    ensures
        forall|i: int| 0 <= i < escaped(name).len() ==> is_label_safe(#[trigger] escaped(name)[i]),
    decreases name.len(),
{
    if name.len() > 0 {
        law_escape_is_safe(name.drop_first());
        let head = escape_of(name[0]);
        assert forall|i: int| 0 <= i < head.len() implies is_label_safe(#[trigger] head[i]) by {}
        assert forall|i: int| 0 <= i < escaped(name).len() implies is_label_safe(
            #[trigger] escaped(name)[i],
        ) by {
            if i >= head.len() {
                assert(escaped(name)[i] == escaped(name.drop_first())[i - head.len()]);
            } else {
                assert(escaped(name)[i] == head[i]);
            }
        }
    }
}

/// A name made of plain characters only is written as it is.
pub proof fn law_plain_name_is_unchanged(name: Seq<char>)
    requires
        forall|i: int| 0 <= i < name.len() ==> is_plain(#[trigger] name[i]),
    ensures
        escaped(name) == name,
    decreases name.len(),
{
    if name.len() > 0 {
        law_plain_name_is_unchanged(name.drop_first());
        assert(seq![name[0]] + name.drop_first() =~= name);
    }
}

} // verus!
