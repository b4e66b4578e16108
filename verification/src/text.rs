//! Text building blocks: numerals, padding, prefixes, joining and trimming.
//!
//! A piece of text is a `Seq<char>` in specifications. Everything the program
//! prints or hands to `netsh` is assembled from the functions of this module.

use vstd::prelude::*;

verus! {

// ---------------------------------------------------------------------------
// Functions of the standard library
// ---------------------------------------------------------------------------

/// `String::push` appends one character at the end.
pub assume_specification[ String::push ](s: &mut String, ch: char)
    ensures
        final(s)@ == old(s)@.push(ch),
;

/// What `char::is_alphanumeric` answers for a character.
pub uninterp spec fn alphanumeric(c: char) -> bool;

/// `char::is_alphanumeric` is a fixed table over all characters; within ASCII
/// it holds of the letters and the digits and of nothing else.
pub assume_specification[ char::is_alphanumeric ](c: char) -> (b: bool)
    ensures
        b == alphanumeric(c),
        (c as u32) < 128 ==> b == ascii_alphanumeric(c),
;

/// What `char::is_whitespace` answers for a character.
pub uninterp spec fn whitespace(c: char) -> bool;

/// `char::is_whitespace` is a fixed table over all characters; within ASCII it
/// holds of the space and of the control characters 9 to 13.
pub assume_specification[ char::is_whitespace ](c: char) -> (b: bool)
    ensures
        b == whitespace(c),
        (c as u32) < 128 ==> b == ((c as u32) == 32 || 9 <= (c as u32) <= 13),
;

/// What `String::from_utf8_lossy` makes of a byte sequence.
pub uninterp spec fn utf8_lossy(bytes: Seq<u8>) -> Seq<char>;

/// `String::from_utf8_lossy` depends on the bytes alone; valid UTF-8 is
/// decoded as it stands.
#[verifier::external_body]
pub(crate) fn from_utf8_lossy(bytes: &[u8]) -> (text: String)
    ensures
        text@ == utf8_lossy(bytes@),
        vstd::utf8::valid_utf8(bytes@) ==> vstd::utf8::encode_utf8(text@) == bytes@,
{
    String::from_utf8_lossy(bytes).into_owned()
}

/// The ASCII letters and digits.
pub open spec fn ascii_alphanumeric(c: char) -> bool {
    ||| '0' <= c <= '9'
    ||| 'A' <= c <= 'Z'
    ||| 'a' <= c <= 'z'
}

// ---------------------------------------------------------------------------
// Characters
// ---------------------------------------------------------------------------

/// The characters of `s` in order.
pub fn chars(s: &str) -> (v: Vec<char>)
    ensures
        v@ == s@,
{
    let mut v: Vec<char> = Vec::new();
    for c in it: s.chars()
        invariant
            it.seq() == s@,
            v@ == s@.take(it.index() as int),
    {
        v.push(c);
    }
    v
}

/// The text of the characters `from..to`.
pub fn slice(v: &Vec<char>, from: usize, to: usize) -> (s: String)
    requires
        from <= to <= v@.len(),
    ensures
        s@ == v@.subrange(from as int, to as int),
{
    let mut s = String::new();
    let mut i: usize = from;
    while i < to
        invariant
            from <= i <= to <= v@.len(),
            s@ == v@.subrange(from as int, i as int),
        decreases to - i,
    {
        s.push(v[i]);
        i = i + 1;
    }
    s
}

/// True when `c` occurs in `s`.
pub fn contains_char(s: &str, c: char) -> (found: bool)
    ensures
        found == s@.contains(c),
{
    let v = chars(s);
    let mut i: usize = 0;
    while i < v.len()
        invariant
            i <= v@.len(),
            v@ == s@,
            forall|k: int| 0 <= k < i ==> s@[k] != c,
        decreases v@.len() - i,
    {
        if v[i] == c {
            return true;
        }
        i = i + 1;
    }
    false
}

/// True when `s` begins with `prefix`.
pub open spec fn starts(s: Seq<char>, prefix: Seq<char>) -> bool {
    prefix.len() <= s.len() && s.take(prefix.len() as int) == prefix
}

/// True when `s` begins with `prefix`.
pub fn starts_with(s: &str, prefix: &str) -> (b: bool)
    ensures
        b == starts(s@, prefix@),
{
    strip_prefix(s, prefix).is_some()
}

/// What follows `prefix` in `s`, if `s` begins with it.
pub fn strip_prefix(s: &str, prefix: &str) -> (rest: Option<String>)
    ensures
        rest is Some <==> starts(s@, prefix@),
        rest matches Some(r) ==> r@ == s@.skip(prefix@.len() as int),
{
    let v = chars(s);
    let p = chars(prefix);
    if p.len() > v.len() {
        return None;
    }
    let mut i: usize = 0;
    while i < p.len()
        invariant
            i <= p@.len() <= v@.len(),
            v@ == s@,
            p@ == prefix@,
            forall|k: int| 0 <= k < i ==> s@[k] == prefix@[k],
        decreases p@.len() - i,
    {
        if v[i] != p[i] {
            proof {
                assert(s@.take(prefix@.len() as int)[i as int] != prefix@[i as int]);
            }
            return None;
        }
        i = i + 1;
    }
    assert(s@.take(prefix@.len() as int) =~= prefix@);
    Some(slice(&v, p.len(), v.len()))
}

/// True when `s` finishes with `suffix`.
pub open spec fn ends(s: Seq<char>, suffix: Seq<char>) -> bool {
    suffix.len() <= s.len() && s.skip(s.len() - suffix.len()) == suffix
}

/// What precedes `suffix` in `s`, if `s` finishes with it.
pub fn strip_suffix(s: &str, suffix: &str) -> (rest: Option<String>)
    ensures
        rest is Some <==> ends(s@, suffix@),
        rest matches Some(r) ==> r@ == s@.take(s@.len() - suffix@.len()),
{
    let v = chars(s);
    let p = chars(suffix);
    if p.len() > v.len() {
        return None;
    }
    let length: usize = v.len();
    let start: usize = length - p.len();
    let mut i: usize = 0;
    while i < p.len()
        invariant
            i <= p@.len() <= v@.len(),
            length == v@.len(),
            start == length - p@.len(),
            v@ == s@,
            p@ == suffix@,
            forall|k: int| 0 <= k < i ==> s@[start + k] == suffix@[k],
        decreases p@.len() - i,
    {
        if v[start + i] != p[i] {
            proof {
                assert(s@.skip(start as int)[i as int] != suffix@[i as int]);
            }
            return None;
        }
        i = i + 1;
    }
    assert(s@.skip(start as int) =~= suffix@);
    Some(slice(&v, 0, start))
}

/// True when `part` occurs somewhere in `s`.
pub open spec fn occurs(s: Seq<char>, part: Seq<char>) -> bool {
    exists|i: int|
        0 <= i <= s.len() - part.len() && #[trigger] s.subrange(i, i + part.len()) == part
}

/// True when `part` occurs somewhere in `s`.
pub fn contains_part(s: &str, part: &str) -> (found: bool)
    ensures
        found == occurs(s@, part@),
{
    let v = chars(s);
    let p = chars(part);
    if p.len() > v.len() {
        return false;
    }
    let length: usize = v.len();
    let last: usize = length - p.len();
    let mut i: usize = 0;
    while i <= last
        invariant
            i <= last + 1,
            length == v@.len(),
            last == v@.len() - p@.len(),
            v@ == s@,
            p@ == part@,
            forall|k: int| 0 <= k < i ==> #[trigger] s@.subrange(k, k + part@.len()) != part@,
        decreases last + 1 - i,
    {
        let mut k: usize = 0;
        while k < p.len() && v[i + k] == p[k]
            invariant
                i <= last,
                k <= p@.len(),
                length == v@.len(),
                last == v@.len() - p@.len(),
                v@ == s@,
                p@ == part@,
                forall|m: int| 0 <= m < k ==> s@[i + m] == part@[m],
            decreases p@.len() - k,
        {
            k = k + 1;
        }
        let ghost piece = s@.subrange(i as int, i + part@.len());
        if k == p.len() {
            assert(piece =~= part@);
            return true;
        }
        assert(piece[k as int] != part@[k as int]);
        if i == last {
            return false;
        }
        i = i + 1;
    }
    false
}

/// ASCII upper-case letters become lower case, everything else is kept.
pub open spec fn lower(c: char) -> char {
    if 'A' <= c <= 'Z' {
        ((c as u32) + 32) as char
    } else {
        c
    }
}

/// ASCII lower-casing of one character.
pub fn to_lower(c: char) -> (l: char)
    ensures
        l == lower(c),
{
    if 'A' <= c && c <= 'Z' {
        ((c as u8) + 32u8) as char
    } else {
        c
    }
}

/// True when the two texts are the same.
pub fn same(a: &str, b: &str) -> (equal: bool)
    ensures
        equal == (a@ == b@),
{
    let x = chars(a);
    let y = chars(b);
    if x.len() != y.len() {
        return false;
    }
    let mut i: usize = 0;
    while i < x.len()
        invariant
            i <= x@.len() == y@.len(),
            x@ == a@,
            y@ == b@,
            forall|k: int| 0 <= k < i ==> a@[k] == #[trigger] b@[k],
        decreases x@.len() - i,
    {
        if x[i] != y[i] {
            return false;
        }
        i = i + 1;
    }
    assert(a@ =~= b@);
    true
}

/// True when the two texts differ in ASCII case at most.
pub open spec fn equal_ignoring_case(a: Seq<char>, b: Seq<char>) -> bool {
    a.len() == b.len() && forall|k: int| 0 <= k < a.len() ==> lower(a[k]) == lower(#[trigger] b[k])
}

/// True when the two texts differ in ASCII case at most.
pub fn same_ignoring_case(a: &str, b: &str) -> (equal: bool)
    ensures
        equal == equal_ignoring_case(a@, b@),
{
    let x = chars(a);
    let y = chars(b);
    if x.len() != y.len() {
        return false;
    }
    let mut i: usize = 0;
    while i < x.len()
        invariant
            i <= x@.len() == y@.len(),
            x@ == a@,
            y@ == b@,
            forall|k: int| 0 <= k < i ==> lower(a@[k]) == lower(#[trigger] b@[k]),
        decreases x@.len() - i,
    {
        if to_lower(x[i]) != to_lower(y[i]) {
            return false;
        }
        i = i + 1;
    }
    true
}

// ---------------------------------------------------------------------------
// Numerals
// ---------------------------------------------------------------------------

/// The decimal numeral of `n`, without leading zeros.
pub open spec fn decimal(n: nat) -> Seq<char>
    decreases n,
{
    if n < 10 {
        seq![(48 + n) as char]
    } else {
        decimal(n / 10).push((48 + n % 10) as char)
    }
}

/// The decimal numeral of `n`.
pub fn dec(n: u64) -> (s: String)
    ensures
        s@ == decimal(n as nat),
    decreases n,
{
    if n < 10 {
        let mut s = String::new();
        s.push((48u8 + n as u8) as char);
        assert(s@ =~= decimal(n as nat));
        s
    } else {
        let mut s = dec(n / 10);
        s.push((48u8 + (n % 10) as u8) as char);
        s
    }
}

/// The decimal numeral of a signed number, with a minus sign when negative.
pub open spec fn signed_decimal(n: int) -> Seq<char> {
    if n < 0 {
        "-"@ + decimal((-n) as nat)
    } else {
        decimal(n as nat)
    }
}

/// The decimal numeral of `n` with its sign.
pub fn signed_dec(n: i32) -> (s: String)
    ensures
        s@ == signed_decimal(n as int),
{
    if n < 0 {
        let magnitude: u64 = (-(n as i64)) as u64;
        let digits = dec(magnitude);
        "-".to_owned().concat(digits.as_str())
    } else {
        dec(n as u64)
    }
}

/// The hexadecimal digit `d`; digits above nine start at the character `ten`.
pub open spec fn hex_digit(d: nat, ten: nat) -> char {
    if d < 10 {
        (48 + d) as char
    } else {
        (ten + d - 10) as char
    }
}

/// The hexadecimal numeral of `n`, without leading zeros.
pub open spec fn hexadecimal(n: nat, ten: nat) -> Seq<char>
    decreases n,
{
    if n < 16 {
        seq![hex_digit(n, ten)]
    } else {
        hexadecimal(n / 16, ten).push(hex_digit(n % 16, ten))
    }
}

fn hex_char(d: u8, ten: u8) -> (c: char)
    requires
        d < 16,
        ten <= 100,
    ensures
        c == hex_digit(d as nat, ten as nat),
{
    if d < 10 {
        (48u8 + d) as char
    } else {
        (ten + (d - 10u8)) as char
    }
}

fn hex(n: u64, ten: u8) -> (s: String)
    requires
        ten <= 100,
    ensures
        s@ == hexadecimal(n as nat, ten as nat),
    decreases n,
{
    if n < 16 {
        let mut s = String::new();
        s.push(hex_char(n as u8, ten));
        assert(s@ =~= hexadecimal(n as nat, ten as nat));
        s
    } else {
        let mut s = hex(n / 16, ten);
        s.push(hex_char((n % 16) as u8, ten));
        s
    }
}

/// The lower-case hexadecimal numeral of `n`.
pub open spec fn hex_lower(n: nat) -> Seq<char> {
    hexadecimal(n, 97)
}

/// The upper-case hexadecimal numeral of `n`.
pub open spec fn hex_upper(n: nat) -> Seq<char> {
    hexadecimal(n, 65)
}

/// The lower-case hexadecimal numeral of `n`.
pub fn hex_small(n: u64) -> (s: String)
    ensures
        s@ == hex_lower(n as nat),
{
    hex(n, 97)
}

/// The upper-case hexadecimal numeral of `n`, zero-padded to `width`.
pub fn hex_caps(n: u64, width: usize) -> (s: String)
    ensures
        s@ == pad_left(hex_upper(n as nat), width as nat, '0'),
{
    let digits = hex(n, 65);
    pad(digits.as_str(), width, '0')
}

/// `s` right-aligned in a field of `width` characters.
pub open spec fn pad_left(s: Seq<char>, width: nat, fill: char) -> Seq<char> {
    if s.len() < width {
        Seq::new((width - s.len()) as nat, |i: int| fill) + s
    } else {
        s
    }
}

/// `s` right-aligned in a field of `width` characters.
pub fn pad(s: &str, width: usize, fill: char) -> (r: String)
    ensures
        r@ == pad_left(s@, width as nat, fill),
{
    let length: usize = s.unicode_len();
    if length >= width {
        return s.to_owned();
    }
    let mut r = String::new();
    let mut i: usize = 0;
    while i < width - length
        invariant
            length < width,
            i <= width - length,
            r@ == Seq::new(i as nat, |k: int| fill),
        decreases width - length - i,
    {
        r.push(fill);
        proof {
            assert(r@ =~= Seq::new((i + 1) as nat, |k: int| fill));
        }
        i = i + 1;
    }
    r.concat(s)
}

/// `n` in decimal, zero-padded to `width`.
pub fn dec_zero(n: u64, width: usize) -> (s: String)
    ensures
        s@ == pad_left(decimal(n as nat), width as nat, '0'),
{
    let digits = dec(n);
    pad(digits.as_str(), width, '0')
}

/// A decimal digit.
pub open spec fn is_digit(c: char) -> bool {
    '0' <= c <= '9'
}

/// The number that a row of digits denotes.
pub open spec fn digits_value(s: Seq<char>) -> nat
    decreases s.len(),
{
    if s.len() == 0 {
        0
    } else {
        10 * digits_value(s.drop_last()) + ((s.last() as u32) - 48) as nat
    }
}

/// The digits of a numeral: an optional `+` sign does not count.
pub open spec fn numeral_digits(s: Seq<char>) -> Seq<char> {
    if s.len() > 0 && s[0] == '+' {
        s.skip(1)
    } else {
        s
    }
}

/// True when `s` is an optional `+` followed by at least one digit and by
/// digits only.
pub open spec fn is_numeral(s: Seq<char>) -> bool {
    let digits = numeral_digits(s);
    digits.len() > 0 && forall|k: int| 0 <= k < digits.len() ==> is_digit(#[trigger] digits[k])
}

proof fn digits_value_grows(s: Seq<char>, i: int)
    requires
        0 <= i <= s.len(),
        forall|k: int| 0 <= k < s.len() ==> is_digit(#[trigger] s[k]),
    ensures
        digits_value(s.take(i)) <= digits_value(s),
    decreases s.len() - i,
{
    if i < s.len() {
        digits_value_grows(s, i + 1);
        assert(s.take(i + 1).drop_last() =~= s.take(i));
        assert(s.take(i + 1).last() == s[i]);
    } else {
        assert(s.take(i) =~= s);
    }
}

/// Reads an unsigned 32-bit number.
pub fn parse_u32(s: &str) -> (n: Option<u32>)
    ensures
        n is Some <==> is_numeral(s@) && digits_value(numeral_digits(s@)) <= u32::MAX,
        n matches Some(v) ==> v == digits_value(numeral_digits(s@)),
{
    let v = chars(s);
    let start: usize = if v.len() > 0 && v[0] == '+' {
        1
    } else {
        0
    };
    let ghost digits = numeral_digits(s@);
    assert(digits =~= v@.skip(start as int));
    if start == v.len() {
        return None;
    }
    let mut value: u64 = 0;
    let mut i: usize = start;
    assert(digits.take(0) =~= Seq::<char>::empty());
    while i < v.len()
        invariant
            start <= i <= v@.len(),
            v@ == s@,
            digits == numeral_digits(s@),
            digits == v@.skip(start as int),
            digits.len() == v@.len() - start,
            forall|k: int| 0 <= k < i - start ==> is_digit(#[trigger] digits[k]),
            value == digits_value(digits.take(i - start)),
            value <= u32::MAX,
        decreases v@.len() - i,
    {
        let c: char = v[i];
        assert(digits[i - start] == c);
        if !('0' <= c && c <= '9') {
            return None;
        }
        proof {
            assert(digits.take(i - start + 1).drop_last() =~= digits.take(i - start));
            assert(digits.take(i - start + 1).last() == c);
        }
        value = value * 10 + (c as u64 - 48);
        if value > u32::MAX as u64 {
            proof {
                if is_numeral(s@) {
                    digits_value_grows(digits, i - start + 1);
                }
            }
            return None;
        }
        i = i + 1;
    }
    assert(digits.take(v@.len() - start) =~= digits);
    Some(value as u32)
}

/// A numeral without sign or leading zeros is read back as the number that it
/// was written from.
pub proof fn decimal_reads_back(n: nat)
    ensures
        digits_value(decimal(n)) == n,
        is_numeral(decimal(n)),
        numeral_digits(decimal(n)) == decimal(n),
        forall|k: int| 0 <= k < decimal(n).len() ==> is_digit(#[trigger] decimal(n)[k]),
        decimal(n).len() > 0,
    decreases n,
{
    if n < 10 {
        let s = decimal(n);
        assert(s.drop_last() =~= Seq::<char>::empty());
        assert(digits_value(s.drop_last()) == 0);
        assert(s.last() == (48 + n) as char);
    } else {
        decimal_reads_back(n / 10);
        let s = decimal(n);
        assert(s.drop_last() =~= decimal(n / 10));
        assert(s.last() == (48 + n % 10) as char);
        assert forall|k: int| 0 <= k < s.len() implies is_digit(#[trigger] s[k]) by {
            if k < s.len() - 1 {
                assert(s[k] == decimal(n / 10)[k]);
            }
        }
    }
    assert(is_digit(decimal(n)[0]));
}

// ---------------------------------------------------------------------------
// Lists of texts
// ---------------------------------------------------------------------------

/// The texts that a vector of strings holds.
pub open spec fn views(v: Seq<String>) -> Seq<Seq<char>> {
    Seq::new(v.len(), |i: int| v[i]@)
}

/// Lists of texts over texts.
pub open spec fn list_views(v: Seq<Vec<String>>) -> Seq<Seq<Seq<char>>> {
    Seq::new(v.len(), |i: int| views(v[i]@))
}

/// Appends copies of these texts.
pub fn extend(list: &mut Vec<String>, more: &Vec<String>)
    ensures
        views(final(list)@) == views(old(list)@) + views(more@),
{
    let ghost before = views(list@);
    let ghost all = views(more@);
    let mut i: usize = 0;
    assert(before + all.take(0) =~= before);
    while i < more.len()
        invariant
            i <= more@.len(),
            all == views(more@),
            views(list@) == before + all.take(i as int),
        decreases more@.len() - i,
    {
        let ghost so_far = list@;
        list.push(more[i].clone());
        assert(views(list@) =~= views(so_far).push(more@[i as int]@));
        assert(views(list@) =~= before + all.take(i + 1));
        i = i + 1;
    }
    assert(all.take(all.len() as int) =~= all);
}

/// A copy of a list of strings.
pub fn clone_all(v: &Vec<String>) -> (r: Vec<String>)
    ensures
        views(r@) == views(v@),
{
    let mut r: Vec<String> = Vec::new();
    let mut i: usize = 0;
    while i < v.len()
        invariant
            i <= v@.len(),
            r@.len() == i,
            forall|k: int| 0 <= k < i ==> (#[trigger] r@[k])@ == v@[k]@,
        decreases v@.len() - i,
    {
        r.push(v[i].clone());
        i = i + 1;
    }
    assert(views(r@) =~= views(v@));
    r
}

/// True when `s` is one of the strings.
pub fn contains_text(v: &Vec<String>, s: &str) -> (found: bool)
    ensures
        found == views(v@).contains(s@),
{
    let mut i: usize = 0;
    while i < v.len()
        invariant
            i <= v@.len(),
            forall|k: int| 0 <= k < i ==> (#[trigger] v@[k])@ != s@,
        decreases v@.len() - i,
    {
        if same(v[i].as_str(), s) {
            assert(views(v@)[i as int] == s@);
            return true;
        }
        i = i + 1;
    }
    assert forall|k: int| 0 <= k < views(v@).len() implies views(v@)[k] != s@ by {
        assert(views(v@)[k] == v@[k]@);
    }
    false
}

/// The texts one after the other with `sep` in between.
pub open spec fn joined(list: Seq<Seq<char>>, sep: Seq<char>) -> Seq<char>
    decreases list.len(),
{
    if list.len() == 0 {
        Seq::empty()
    } else if list.len() == 1 {
        list[0]
    } else {
        joined(list.drop_last(), sep) + sep + list.last()
    }
}

/// The texts one after the other with `sep` in between.
pub fn join(list: &Vec<String>, sep: &str) -> (r: String)
    ensures
        r@ == joined(views(list@), sep@),
{
    let mut r = String::new();
    let mut i: usize = 0;
    assert(views(list@).take(0) =~= Seq::<Seq<char>>::empty());
    while i < list.len()
        invariant
            i <= list@.len(),
            r@ == joined(views(list@).take(i as int), sep@),
        decreases list@.len() - i,
    {
        let ghost next = views(list@).take(i + 1);
        assert(next.drop_last() =~= views(list@).take(i as int));
        assert(next.last() == list@[i as int]@);
        if i > 0 {
            r.append(sep);
            r.append(list[i].as_str());
        } else {
            r.append(list[i].as_str());
            assert(r@ =~= list@[0]@);
            assert(next[0] == list@[0]@);
        }
        i = i + 1;
    }
    assert(views(list@).take(list@.len() as int) =~= views(list@));
    r
}

// ---------------------------------------------------------------------------
// Trimming and lines
// ---------------------------------------------------------------------------

/// `s` without the whitespace it begins with.
pub open spec fn trimmed_start(s: Seq<char>) -> Seq<char>
    decreases s.len(),
{
    if s.len() > 0 && whitespace(s[0]) {
        trimmed_start(s.skip(1))
    } else {
        s
    }
}

/// `s` without the whitespace it finishes with.
pub open spec fn trimmed_end(s: Seq<char>) -> Seq<char>
    decreases s.len(),
{
    if s.len() > 0 && whitespace(s.last()) {
        trimmed_end(s.drop_last())
    } else {
        s
    }
}

/// `s` without surrounding whitespace.
pub open spec fn trimmed(s: Seq<char>) -> Seq<char> {
    trimmed_end(trimmed_start(s))
}

/// `s` without the whitespace it finishes with.
pub fn trim_end(s: &str) -> (r: String)
    ensures
        r@ == trimmed_end(s@),
{
    let v = chars(s);
    let mut end: usize = v.len();
    assert(v@.take(end as int) =~= s@);
    while end > 0 && v[end - 1].is_whitespace()
        invariant
            end <= v@.len(),
            v@ == s@,
            trimmed_end(s@) == trimmed_end(v@.take(end as int)),
        decreases end,
    {
        assert(v@.take(end as int).drop_last() =~= v@.take(end - 1));
        end = end - 1;
    }
    let r = slice(&v, 0, end);
    assert(r@ =~= v@.take(end as int));
    r
}

/// `s` without surrounding whitespace.
pub fn trim(s: &str) -> (r: String)
    ensures
        r@ == trimmed(s@),
{
    let v = chars(s);
    let mut start: usize = 0;
    assert(v@.skip(0) =~= s@);
    while start < v.len() && v[start].is_whitespace()
        invariant
            start <= v@.len(),
            v@ == s@,
            trimmed_start(s@) == trimmed_start(v@.skip(start as int)),
        decreases v@.len() - start,
    {
        assert(v@.skip(start as int).skip(1) =~= v@.skip(start + 1));
        start = start + 1;
    }
    let rest = slice(&v, start, v.len());
    assert(rest@ =~= v@.skip(start as int));
    trim_end(rest.as_str())
}

/// The position of the first line feed, or the length of `s`.
pub open spec fn line_length(s: Seq<char>) -> nat
    decreases s.len(),
{
    if s.len() == 0 || s[0] == '\n' {
        0
    } else {
        1 + line_length(s.skip(1))
    }
}

/// One line without the carriage return that belongs to its line feed.
pub open spec fn without_return(line: Seq<char>) -> Seq<char> {
    if line.len() > 0 && line.last() == '\r' {
        line.drop_last()
    } else {
        line
    }
}

proof fn line_length_bound(s: Seq<char>)
    ensures
        line_length(s) <= s.len(),
    decreases s.len(),
{
    if s.len() > 0 && s[0] != '\n' {
        line_length_bound(s.skip(1));
    }
}

/// The lines of a text. A line ends at `\n` or at `\r\n`; the last line needs
/// no line end.
pub open spec fn lines_of(s: Seq<char>) -> Seq<Seq<char>>
    decreases s.len(),
    via lines_of_shrinks
{
    if s.len() == 0 {
        Seq::empty()
    } else {
        let n = line_length(s) as int;
        if n < s.len() {
            seq![without_return(s.take(n))] + lines_of(s.skip(n + 1))
        } else {
            seq![s]
        }
    }
}

#[via_fn]
proof fn lines_of_shrinks(s: Seq<char>) {
    line_length_bound(s);
}

/// The lines of a text.
pub fn lines(s: &str) -> (r: Vec<String>)
    ensures
        views(r@) == lines_of(s@),
{
    let v = chars(s);
    let mut r: Vec<String> = Vec::new();
    let mut start: usize = 0;
    assert(v@.skip(0) =~= s@);
    assert(views(r@) + lines_of(s@) =~= lines_of(s@));
    while start < v.len()
        invariant
            start <= v@.len(),
            v@ == s@,
            views(r@) + lines_of(v@.skip(start as int)) == lines_of(s@),
        decreases v@.len() - start,
    {
        let mut end: usize = start;
        assert(v@.skip(start as int).skip(0) =~= v@.skip(start as int));
        while end < v.len() && v[end] != '\n'
            invariant
                start <= end <= v@.len(),
                line_length(v@.skip(start as int)) == (end - start) + line_length(
                    v@.skip(end as int),
                ),
            decreases v@.len() - end,
        {
            assert(v@.skip(end as int).skip(1) =~= v@.skip(end + 1));
            assert(v@.skip(end as int)[0] == v@[end as int]);
            end = end + 1;
        }
        let ghost tail = v@.skip(start as int);
        let ghost before = views(r@);
        assert(end < v@.len() ==> v@.skip(end as int)[0] == '\n');
        assert(line_length(v@.skip(end as int)) == 0);
        assert(line_length(tail) == end - start);
        if end < v.len() {
            let stop: usize = if end > start && v[end - 1] == '\r' {
                end - 1
            } else {
                end
            };
            let line = slice(&v, start, stop);
            proof {
                assert(tail.take(end - start) =~= v@.subrange(start as int, end as int));
                assert(line@ =~= without_return(tail.take(end - start)));
                assert(tail.skip(end - start + 1) =~= v@.skip(end + 1));
            }
            let ghost text = line@;
            r.push(line);
            proof {
                assert(views(r@) =~= before.push(text));
                assert(before + (seq![text] + lines_of(v@.skip(end + 1))) =~= before.push(text)
                    + lines_of(v@.skip(end + 1)));
            }
            start = end + 1;
        } else {
            let line = slice(&v, start, end);
            let ghost text = line@;
            assert(text =~= tail);
            r.push(line);
            proof {
                assert(views(r@) =~= before.push(text));
                assert(v@.skip(end as int) =~= Seq::<char>::empty());
                assert(before + seq![tail] =~= before.push(text) + Seq::<Seq<char>>::empty());
            }
            start = end;
        }
    }
    assert(v@.skip(start as int) =~= Seq::<char>::empty());
    assert(views(r@) + Seq::<Seq<char>>::empty() =~= views(r@));
    r
}

} // verus!
