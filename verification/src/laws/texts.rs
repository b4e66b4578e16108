//! What becomes of texts and numbers on their way in and out.

use vstd::prelude::*;

use crate::laws::readings::digit;
use crate::netsh::{one_line, quoted_arg};
use crate::order::ordered;
use crate::text::{
    decimal, digits_value, equal_ignoring_case, hex_lower, hex_upper, is_numeral, joined, lines_of,
    lower, numeral_digits, pad_left, signed_decimal, trimmed, trimmed_end, trimmed_start,
    whitespace,
};
use crate::utf16::{decode_inverts_encode, decoded, encoded, terminated, terminator};
use crate::win::{doubled, quoted};
use crate::wlan::{guid_text, Guid};

verus! {

// ---------------------------------------------------------------------------
// Numerals
// ---------------------------------------------------------------------------

/// A decimal numeral has one digit more than the numeral of a tenth of its
/// number: the remainder.
pub proof fn decimals_go_digit_by_digit(n: nat, d: nat)
    requires
        d < 10,
    ensures
        decimal(d) == seq!["0123456789"@[d as int]],
        n > 0 ==> decimal(10 * n + d) == decimal(n).push("0123456789"@[d as int]),
{
    reveal_strlit("0123456789");
    let all = "0123456789"@;
    assert(all[0] == '0' && all[1] == '1' && all[2] == '2' && all[3] == '3' && all[4] == '4'
        && all[5] == '5' && all[6] == '6' && all[7] == '7' && all[8] == '8' && all[9] == '9');
    assert(d == 0 || d == 1 || d == 2 || d == 3 || d == 4 || d == 5 || d == 6 || d == 7 || d == 8
        || d == 9);
    assert((48 + d) as char == all[d as int]);
    if n > 0 {
        assert((10 * n + d) / 10 == n && (10 * n + d) % 10 == d);
    }
}

/// A negative number has a minus sign, and no other has one.
pub proof fn signs_are_shown(n: nat)
    ensures
        signed_decimal(n as int) == decimal(n),
        n > 0 ==> signed_decimal(-n) == "-"@ + decimal(n),
{
}

/// A hexadecimal numeral has one digit more than the numeral of a sixteenth of
/// its number: the remainder.
pub proof fn hexadecimals_go_digit_by_digit(n: nat, d: nat)
    requires
        d < 16,
    ensures
        hex_upper(d) == seq!["0123456789ABCDEF"@[d as int]],
        hex_lower(d) == seq!["0123456789abcdef"@[d as int]],
        n > 0 ==> hex_upper(16 * n + d) == hex_upper(n).push("0123456789ABCDEF"@[d as int]),
        n > 0 ==> hex_lower(16 * n + d) == hex_lower(n).push("0123456789abcdef"@[d as int]),
{
    reveal_strlit("0123456789ABCDEF");
    reveal_strlit("0123456789abcdef");
    let up = "0123456789ABCDEF"@;
    let low = "0123456789abcdef"@;
    assert(up[0] == '0' && up[1] == '1' && up[2] == '2' && up[3] == '3' && up[4] == '4' && up[5]
        == '5' && up[6] == '6' && up[7] == '7' && up[8] == '8' && up[9] == '9' && up[10] == 'A'
        && up[11] == 'B' && up[12] == 'C' && up[13] == 'D' && up[14] == 'E' && up[15] == 'F');
    assert(low[0] == '0' && low[1] == '1' && low[2] == '2' && low[3] == '3' && low[4] == '4'
        && low[5] == '5' && low[6] == '6' && low[7] == '7' && low[8] == '8' && low[9] == '9'
        && low[10] == 'a' && low[11] == 'b' && low[12] == 'c' && low[13] == 'd' && low[14] == 'e'
        && low[15] == 'f');
    assert(d == 0 || d == 1 || d == 2 || d == 3 || d == 4 || d == 5 || d == 6 || d == 7 || d == 8
        || d == 9 || d == 10 || d == 11 || d == 12 || d == 13 || d == 14 || d == 15);
    assert(crate::text::hex_digit(d, 65) == up[d as int]);
    assert(crate::text::hex_digit(d, 97) == low[d as int]);
    if n > 0 {
        assert((16 * n + d) / 16 == n && (16 * n + d) % 16 == d);
    }
}

/// A padded text keeps its end and is at least as long as its field; one that
/// fills its field is left as it is.
pub proof fn padding_comes_first(s: Seq<char>, width: nat, fill: char)
    ensures
        s.len() >= width ==> pad_left(s, width, fill) == s,
        s.len() < width ==> {
            let r = pad_left(s, width, fill);
            &&& r.len() == width
            &&& r.subrange(width - s.len(), width as int) == s
            &&& forall|i: int| 0 <= i < width - s.len() ==> #[trigger] r[i] == fill
        },
{
    if s.len() < width {
        let r = pad_left(s, width, fill);
        assert(r.subrange(width - s.len(), width as int) =~= s);
    }
}

/// The last `width` hexadecimal digits of a number.
pub open spec fn digits(n: nat, width: nat) -> Seq<char>
    decreases width,
{
    if width == 0 {
        Seq::empty()
    } else {
        digits(n / 16, (width - 1) as nat).push(digit((n % 16) as int))
    }
}

/// The number has at most `width` hexadecimal digits.
pub open spec fn fits(n: nat, width: nat) -> bool
    decreases width,
{
    if width == 0 {
        n == 0
    } else {
        fits(n / 16, (width - 1) as nat)
    }
}

proof fn padded_digits(n: nat, width: nat)
    requires
        fits(n, width),
        width >= 1,
    ensures
        pad_left(hex_upper(n), width, '0') == digits(n, width),
        hex_upper(n).len() <= width,
    decreases width,
{
    let d = n % 16;
    hexadecimals_go_digit_by_digit(n / 16, d);
    assert(n == 16 * (n / 16) + d);
    reveal_with_fuel(fits, 2);
    reveal_with_fuel(digits, 2);
    if width == 1 {
        assert(n / 16 == 0);
        assert(hex_upper(n) == seq![digit(d as int)]);
        assert(digits(n, 1) =~= seq![digit(d as int)]);
        assert(pad_left(hex_upper(n), 1, '0') =~= digits(n, 1));
    } else {
        let w = (width - 1) as nat;
        padded_digits(n / 16, w);
        if n / 16 > 0 {
            assert(hex_upper(n) == hex_upper(n / 16).push(digit(d as int)));
            assert(pad_left(hex_upper(n), width, '0') =~= pad_left(
                hex_upper(n / 16),
                w,
                '0',
            ).push(digit(d as int)));
        } else {
            hexadecimals_go_digit_by_digit(0, 0);
            reveal_strlit("0123456789ABCDEF");
            assert(digit(0) == '0');
            assert(hex_upper(0) == seq!['0']);
            assert(hex_upper(n) == seq![digit(d as int)]);
            assert(pad_left(hex_upper(n), width, '0') =~= pad_left(hex_upper(0), w, '0').push(
                digit(d as int),
            ));
        }
    }
}

/// A GUID is written in braces: eight, four, four, four and twelve digits with
/// dashes in between, the last eight bytes in their order.
pub proof fn guids_have_their_shape(g: Guid)
    ensures
        guid_text(g) == "{"@ + digits(g.data1 as nat, 8) + "-"@ + digits(g.data2 as nat, 4) + "-"@
            + digits(g.data3 as nat, 4) + "-"@ + digits(g.data4@[0] as nat, 2) + digits(
            g.data4@[1] as nat,
            2,
        ) + "-"@ + digits(g.data4@[2] as nat, 2) + digits(g.data4@[3] as nat, 2) + digits(
            g.data4@[4] as nat,
            2,
        ) + digits(g.data4@[5] as nat, 2) + digits(g.data4@[6] as nat, 2) + digits(
            g.data4@[7] as nat,
            2,
        ) + "}"@,
        guid_text(g).len() == 38,
{
    reveal_with_fuel(fits, 9);
    reveal_with_fuel(digits, 9);
    reveal_strlit("{");
    reveal_strlit("}");
    reveal_strlit("-");
    padded_digits(g.data1 as nat, 8);
    padded_digits(g.data2 as nat, 4);
    padded_digits(g.data3 as nat, 4);
    padded_digits(g.data4@[0] as nat, 2);
    padded_digits(g.data4@[1] as nat, 2);
    padded_digits(g.data4@[2] as nat, 2);
    padded_digits(g.data4@[3] as nat, 2);
    padded_digits(g.data4@[4] as nat, 2);
    padded_digits(g.data4@[5] as nat, 2);
    padded_digits(g.data4@[6] as nat, 2);
    padded_digits(g.data4@[7] as nat, 2);
}

// ---------------------------------------------------------------------------
// Characters
// ---------------------------------------------------------------------------

/// Lower-casing moves the 26 capital letters of ASCII to their small letters and
/// leaves every other character as it is.
pub proof fn lowering_is_ascii(c: char)
    ensures
        'A' <= c <= 'Z' ==> lower(c) as u32 == c as u32 + 32 && 'a' <= lower(c) <= 'z',
        !('A' <= c <= 'Z') ==> lower(c) == c,
        lower(lower(c)) == lower(c),
{
}

/// Two texts that are equal but for case have the same length, and texts without
/// capitals are equal exactly when they are the same.
pub proof fn case_is_all_that_is_ignored(a: Seq<char>, b: Seq<char>)
    requires
        forall|i: int| 0 <= i < a.len() ==> !('A' <= #[trigger] a[i] <= 'Z'),
        forall|i: int| 0 <= i < b.len() ==> !('A' <= #[trigger] b[i] <= 'Z'),
    ensures
        equal_ignoring_case(a, b) <==> a == b,
{
    if equal_ignoring_case(a, b) {
        assert forall|i: int| 0 <= i < a.len() implies a[i] == b[i] by {
            assert(lower(a[i]) == lower(b[i]));
        }
        assert(a =~= b);
    }
}

/// Trimming takes whitespace off both ends and nothing else: what is left neither
/// begins nor finishes with it.
pub proof fn trimming_takes_whitespace(s: Seq<char>)
    ensures
        ({
            let r = trimmed(s);
            &&& r.len() > 0 ==> !whitespace(r[0]) && !whitespace(r.last())
            &&& exists|i: int, j: int|
                0 <= i <= j <= s.len() && r == #[trigger] s.subrange(i, j) && (forall|k: int|
                    0 <= k < i ==> whitespace(#[trigger] s[k])) && (forall|k: int|
                    j <= k < s.len() ==> whitespace(#[trigger] s[k]))
        }),
{
    let front = trimmed_start(s);
    let i = start_of(s);
    assert(front == s.subrange(i, s.len() as int));
    let n = end_of(front);
    let r = trimmed(s);
    let j = i + n;
    assert(r =~= s.subrange(i, j));
    assert forall|k: int| j <= k < s.len() implies whitespace(#[trigger] s[k]) by {
        assert(front[k - i] == s[k]);
    }
    if r.len() > 0 {
        assert(r[0] == front[0]);
    }
}

proof fn start_of(s: Seq<char>) -> (i: int)
    ensures
        0 <= i <= s.len(),
        trimmed_start(s) == s.subrange(i, s.len() as int),
        forall|k: int| 0 <= k < i ==> whitespace(#[trigger] s[k]),
        i < s.len() ==> !whitespace(s[i]),
    decreases s.len(),
{
    if s.len() > 0 && whitespace(s[0]) {
        let rest = s.skip(1);
        let i = start_of(rest);
        assert(rest.subrange(i, rest.len() as int) =~= s.subrange(i + 1, s.len() as int));
        assert forall|k: int| 0 <= k < i + 1 implies whitespace(#[trigger] s[k]) by {
            if k > 0 {
                assert(rest[k - 1] == s[k]);
            }
        }
        if i + 1 < s.len() {
            assert(rest[i] == s[i + 1]);
        }
        i + 1
    } else {
        assert(s.subrange(0, s.len() as int) =~= s);
        0
    }
}

proof fn end_of(s: Seq<char>) -> (n: int)
    ensures
        0 <= n <= s.len(),
        trimmed_end(s) == s.subrange(0, n),
        forall|k: int| n <= k < s.len() ==> whitespace(#[trigger] s[k]),
        n > 0 ==> !whitespace(s[n - 1]),
    decreases s.len(),
{
    if s.len() > 0 && whitespace(s.last()) {
        let rest = s.drop_last();
        let n = end_of(rest);
        assert(rest.subrange(0, n) =~= s.subrange(0, n));
        assert forall|k: int| n <= k < s.len() implies whitespace(#[trigger] s[k]) by {
            if k < rest.len() {
                assert(rest[k] == s[k]);
            }
        }
        n
    } else {
        assert(s.subrange(0, s.len() as int) =~= s);
        s.len() as int
    }
}

/// A joined list grows by the separator and the new text; a list of one is that
/// text.
pub proof fn joining_puts_the_separator_between(
    list: Seq<Seq<char>>,
    text: Seq<char>,
    sep: Seq<char>,
)
    ensures
        joined(Seq::empty(), sep).len() == 0,
        list.len() == 0 ==> joined(list.push(text), sep) == text,
        list.len() > 0 ==> joined(list.push(text), sep) == joined(list, sep) + sep + text,
{
    assert(list.push(text).drop_last() =~= list);
}

/// A line that is put before a text is its first line; a carriage return before
/// the line feed belongs to the line end.
pub proof fn lines_end_at_line_feeds(line: Seq<char>, rest: Seq<char>)
    requires
        !line.contains('\n'),
        !line.contains('\r'),
    ensures
        lines_of(Seq::empty()).len() == 0,
        lines_of(line + "\n"@ + rest) == seq![line] + lines_of(rest),
        lines_of(line + "\r\n"@ + rest) == seq![line] + lines_of(rest),
        line.len() > 0 ==> lines_of(line) == seq![line],
{
    reveal_strlit("\n");
    reveal_strlit("\r\n");
    let a = line + "\n"@ + rest;
    let b = line + "\r\n"@ + rest;
    first_line_feed(a, line.len() as int);
    first_line_feed(b, line.len() as int + 1);
    assert(a[line.len() as int] == '\n' && b[line.len() as int + 1] == '\n');
    assert(a.take(line.len() as int) =~= line);
    assert(b.take(line.len() as int + 1) =~= line.push('\r'));
    assert(line.push('\r').drop_last() =~= line);
    assert(a.skip(line.len() as int + 1) =~= rest);
    assert(b.skip(line.len() as int + 2) =~= rest);
    if line.len() > 0 {
        assert(line.last() == line[line.len() - 1]);
        first_line_feed(line, line.len() as int);
    }
}

proof fn first_line_feed(s: Seq<char>, n: int)
    requires
        0 <= n <= s.len(),
        forall|i: int| 0 <= i < n ==> #[trigger] s[i] != '\n',
        n < s.len() ==> s[n] == '\n',
    ensures
        crate::text::line_length(s) == n,
    decreases n,
{
    if n > 0 {
        let rest = s.skip(1);
        assert(s[0] != '\n');
        assert forall|i: int| 0 <= i < n - 1 implies #[trigger] rest[i] != '\n' by {
            assert(rest[i] == s[i + 1]);
        }
        first_line_feed(rest, n - 1);
    }
}

/// A line break becomes one space, also one of two characters, and the text
/// around it stays.
pub proof fn folding_makes_spaces(a: Seq<char>, c: char)
    requires
        c != '\n',
        c != '\r',
    ensures
        one_line(a.push(c)) == one_line(a).push(c),
        one_line(a.push('\r')) == one_line(a).push(' '),
        one_line(a.push('\r').push('\n')) == one_line(a).push(' '),
        a.len() == 0 || a.last() != '\r' ==> one_line(a.push('\n')) == one_line(a).push(' '),
{
    assert(a.push(c).drop_last() =~= a);
    assert(a.push('\r').drop_last() =~= a);
    assert(a.push('\n').drop_last() =~= a);
    let b = a.push('\r').push('\n');
    assert(b.drop_last() =~= a.push('\r'));
    assert(b[b.len() - 2] == '\r');
    assert(one_line(a.push('\r')) == one_line(a).push(' '));
    assert(b.len() > 1 && b.last() == '\n');
    assert(one_line(b) == one_line(b.drop_last()));
    if a.len() > 0 {
        assert(a.push('\n')[a.len() - 1] == a.last());
    }
}

// ---------------------------------------------------------------------------
// The order of names
// ---------------------------------------------------------------------------

/// Names are in the order of the dictionary: the first difference decides, and a
/// name comes before its continuations.
pub proof fn names_are_in_dictionary_order(a: Seq<char>, b: Seq<char>, k: int)
    requires
        0 <= k <= a.len(),
        k <= b.len(),
        forall|i: int| 0 <= i < k ==> #[trigger] a[i] == b[i],
    ensures
        k < a.len() && k < b.len() && a[k] < b[k] ==> ordered(a, b) && !ordered(b, a),
        k == a.len() ==> ordered(a, b),
        k == a.len() && k < b.len() ==> !ordered(b, a),
    decreases k,
{
    if k > 0 {
        assert(a[0] == b[0]);
        assert forall|i: int| 0 <= i < k - 1 implies #[trigger] a.skip(1)[i] == b.skip(1)[i] by {
            assert(a[i + 1] == b[i + 1]);
        }
        names_are_in_dictionary_order(a.skip(1), b.skip(1), k - 1);
    }
}

// ---------------------------------------------------------------------------
// UTF-16
// ---------------------------------------------------------------------------

/// A character up to U+FFFF is one code unit, any other a pair of surrogates that
/// carries its ten high and its ten low bits.
pub proof fn characters_are_one_or_two_units(s: Seq<char>, c: char)
    ensures
        encoded(Seq::empty()).len() == 0,
        (c as u32) < 0x1_0000 ==> encoded(s.push(c)) == encoded(s).push(c as u16),
        (c as u32) >= 0x1_0000 ==> {
            let n = c as u32 - 0x1_0000;
            let high = encoded(s.push(c))[encoded(s).len() as int];
            let low = encoded(s.push(c))[encoded(s).len() as int + 1];
            &&& encoded(s.push(c)) == encoded(s).push(high).push(low)
            &&& 0xD800 <= high < 0xDC00
            &&& 0xDC00 <= low < 0xE000
            &&& (high - 0xD800) * 0x400 + (low - 0xDC00) == n
        },
{
    assert(s.push(c).drop_last() =~= s);
    if (c as u32) < 0x1_0000 {
        assert(encoded(s.push(c)) =~= encoded(s).push(c as u16));
    } else {
        let n = c as u32 - 0x1_0000;
        assert(0 <= n / 0x400 < 0x400 && 0 <= n % 0x400 < 0x400);
        let u = crate::utf16::units(c);
        assert(u[0] == 0xD800 + n / 0x400 && u[1] == 0xDC00 + n % 0x400);
        assert(encoded(s.push(c)) =~= encoded(s).push(u[0]).push(u[1]));
    }
}

/// A text that was put into a buffer with a terminator is read back from it,
/// whatever stands behind.
pub proof fn terminated_texts_are_read_back(s: Seq<char>, rest: Seq<u16>)
    requires
        forall|i: int| 0 <= i < encoded(s).len() ==> #[trigger] encoded(s)[i] != 0,
    ensures
        terminated(encoded(s).push(0) + rest) == s,
{
    let u = encoded(s);
    let buffer = u.push(0) + rest;
    assert forall|i: int| 0 <= i < u.len() implies #[trigger] buffer[i] != 0 by {
        assert(buffer[i] == u[i]);
    }
    first_zero(buffer, u.len() as int);
    assert(buffer.take(u.len() as int) =~= u);
    decode_inverts_encode(s);
}

proof fn first_zero(u: Seq<u16>, n: int)
    requires
        0 <= n < u.len(),
        u[n] == 0,
        forall|i: int| 0 <= i < n ==> #[trigger] u[i] != 0,
    ensures
        terminator(u) == n,
    decreases n,
{
    if n > 0 {
        assert(u[0] != 0);
        assert forall|i: int| 0 <= i < n - 1 implies #[trigger] u.skip(1)[i] != 0 by {
            assert(u[i + 1] != 0);
        }
        first_zero(u.skip(1), n - 1);
    }
}

// ---------------------------------------------------------------------------
// Arguments of other programs
// ---------------------------------------------------------------------------

/// A value is refused exactly when it is empty or holds a double quote, and
/// stands between double quotes behind its tag otherwise.
pub proof fn quoted_values_are_these(tag: Seq<char>, value: Seq<char>)
    ensures
        value.len() > 0 && !value.contains('"') ==> quoted_arg(tag, value) == Ok::<
            Seq<char>,
            Seq<char>,
        >(tag + "=\""@ + value + "\""@),
        value.len() == 0 ==> quoted_arg(tag, value) == Err::<Seq<char>, Seq<char>>(
            "empty "@ + tag + " value"@,
        ),
        value.contains('"') ==> quoted_arg(tag, value) == Err::<Seq<char>, Seq<char>>(
            tag + " value contains a quote: "@ + value,
        ),
{
}

/// On a command line an argument stands between double quotes; its own quotes
/// are doubled, and every other character is kept.
pub proof fn quotes_are_doubled(arg: Seq<char>, c: char)
    ensures
        quoted(arg) == "\""@ + doubled(arg) + "\""@,
        doubled(Seq::empty()).len() == 0,
        c == '"' ==> doubled(arg.push(c)) == doubled(arg) + "\"\""@,
        c != '"' ==> doubled(arg.push(c)) == doubled(arg).push(c),
        !arg.contains('"') ==> doubled(arg) == arg,
    decreases arg.len(),
{
    reveal_strlit("\"\"");
    assert(arg.push(c).drop_last() =~= arg);
    if c == '"' {
        assert(doubled(arg.push(c)) =~= doubled(arg) + "\"\""@);
    }
    if arg.len() > 0 && !arg.contains('"') {
        let front = arg.drop_last();
        assert(arg[arg.len() - 1] == arg.last());
        assert forall|i: int| 0 <= i < front.len() implies front[i] != '"' by {
            assert(front[i] == arg[i]);
        }
        quotes_are_doubled(front, c);
        assert(front.push(arg.last()) =~= arg);
    }
}

/// The scalar values are the code points but for the surrogates.
pub proof fn scalars_are_no_surrogates(n: u32)
    ensures
        crate::utf16::is_scalar(n) <==> n <= 0x10_FFFF && !(0xD800 <= n <= 0xDFFF),
{
}

/// A process that succeeded says what it wrote; one that failed says what it
/// wrote to the error stream, trimmed and in one line, or that it failed.
pub proof fn processes_say_what_they_wrote(stdout: Seq<u8>, stderr: Seq<u8>)
    ensures
        crate::netsh::run_outcome(true, stdout, stderr) == Ok::<Seq<char>, Seq<char>>(
            crate::text::utf8_lossy(stdout),
        ),
        ({
            let text = trimmed(crate::text::utf8_lossy(stderr));
            crate::netsh::run_outcome(false, stdout, stderr) == Err::<Seq<char>, Seq<char>>(
                if text.len() == 0 {
                    "netsh exited with an error"@
                } else {
                    "netsh: "@ + one_line(text)
                },
            )
        }),
{
}

/// On a command line every argument is quoted by itself.
pub proof fn arguments_are_quoted_one_by_one(args: Seq<Seq<char>>, i: int)
    requires
        0 <= i < args.len(),
    ensures
        crate::win::all_quoted(args).len() == args.len(),
        crate::win::all_quoted(args)[i] == "\""@ + doubled(args[i]) + "\""@,
{
}

/// A numeral may begin with a plus sign, which does not count; what follows are
/// one digit or more, and nothing else.
pub proof fn numerals_are_digits(s: Seq<char>)
    ensures
        s.len() > 0 && s[0] == '+' ==> numeral_digits(s) == s.skip(1),
        s.len() == 0 || s[0] != '+' ==> numeral_digits(s) == s,
        is_numeral(s) <==> numeral_digits(s).len() > 0 && forall|k: int|
            0 <= k < numeral_digits(s).len() ==> '0' <= #[trigger] numeral_digits(s)[k] <= '9',
{
    let digits = numeral_digits(s);
    if is_numeral(s) {
        assert forall|k: int| 0 <= k < digits.len() implies '0' <= #[trigger] digits[k] <= '9' by {
            assert(crate::text::is_digit(digits[k]));
        }
    }
}

/// A digit at the end of a number counts for itself, and everything before it
/// ten times.
pub proof fn digits_count_by_tens(s: Seq<char>, d: u32)
    requires
        d < 10,
    ensures
        digits_value(Seq::empty()) == 0,
        digits_value(s.push((48 + d) as char)) == 10 * digits_value(s) + d,
{
    assert(s.push((48 + d) as char).drop_last() =~= s);
}

/// The ASCII letters and digits are these.
pub proof fn letters_and_digits_are_these(c: char)
    ensures
        crate::text::ascii_alphanumeric(c) <==> ('0' <= c && c <= '9') || ('A' <= c && c <= 'Z')
            || ('a' <= c && c <= 'z'),
{
}

/// A code unit that is no surrogate is a character of its own, a high surrogate
/// before a low one makes one character, and any other surrogate reads as
/// U+FFFD.
pub proof fn unpaired_surrogates_are_replaced(u: Seq<u16>)
    requires
        u.len() > 0,
    ensures
        u[0] < 0xD800 || u[0] > 0xDFFF ==> decoded(u) == seq![u[0] as char] + decoded(u.skip(1)),
        0xD800 <= u[0] <= 0xDBFF && u.len() > 1 && 0xDC00 <= u[1] <= 0xDFFF ==> decoded(u) == seq![
            (0x10000 + (u[0] - 0xD800) * 0x400 + (u[1] - 0xDC00)) as char,
        ] + decoded(u.skip(2)),
        0xD800 <= u[0] <= 0xDBFF && (u.len() == 1 || u[1] < 0xDC00 || u[1] > 0xDFFF) || 0xDC00
            <= u[0] <= 0xDFFF ==> decoded(u) == seq!['\u{FFFD}'] + decoded(u.skip(1)),
        decoded(Seq::empty()).len() == 0,
{
}

} // verus!
