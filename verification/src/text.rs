//! Small verified building blocks for text: digits in and out, padding,
//! trimming and the replacement of path separators.

use vstd::prelude::*;
use vstd::std_specs::iter::IteratorSpec;

verus! {

/// Appends one character to a string, as `String::push` does: the string
/// afterwards is the string before followed by `c`.
#[verifier::external_body]
pub(crate) fn push_char(s: &mut String, c: char)
    ensures
        final(s)@ == old(s)@.push(c),
{
    s.push(c);
}

/// Whether `c` counts as white space for `char::is_whitespace`.
pub uninterp spec fn white_space(c: char) -> bool;

/// The ASCII characters that are white space: the space, the tab, the line
/// feed, the vertical tab, the form feed and the carriage return.
pub open spec fn ascii_white_space(c: char) -> bool {
    c == ' ' || c == '\t' || c == '\n' || c == '\u{b}' || c == '\u{c}' || c == '\r'
}

/// Whether `c` is white space. Of the ASCII characters these are the six of
/// `ascii_white_space`. Of any other character it is what
/// `char::is_whitespace` says.
pub open spec fn is_space(c: char) -> bool {
    if c <= '\u{7f}' {
        ascii_white_space(c)
    } else {
        white_space(c)
    }
}

/// Asks `char::is_whitespace` whether `c` is white space, which is whether
/// it has the Unicode property White_Space. The answer depends on the
/// character alone, so it is given the name `white_space(c)`. Of the ASCII
/// characters exactly six have the property: that much is stated, through
/// `is_space`. Nothing is stated of the others.
#[verifier::external_body]
pub(crate) fn is_whitespace(c: char) -> (r: bool)
    ensures
        r == white_space(c),
        r == is_space(c),
{
    c.is_whitespace()
}

/// The characters of a string, in order.
pub fn chars_of(s: &str) -> (v: Vec<char>)
    ensures
        v@ == s@,
{
    let mut v: Vec<char> = Vec::new();
    let mut it = s.chars();
    loop
        invariant
            v@ + it.remaining() == s@,
            it.decrease() is Some,
        decreases it.decrease()->0,
    {
        match it.next() {
            Some(c) => {
                v.push(c);
            },
            None => {
                return v;
            },
        }
    }
}

/// Appends the characters `v[from..to]` to `out`.
pub fn push_chars(out: &mut String, v: &Vec<char>, from: usize, to: usize)
    requires
        from <= to <= v@.len(),
    ensures
        final(out)@ == old(out)@ + v@.subrange(from as int, to as int),
{
    let mut i: usize = from;
    while i < to
        invariant
            from <= i <= to <= v@.len(),
            out@ == old(out)@ + v@.subrange(from as int, i as int),
        decreases to - i,
    {
        push_char(out, v[i]);
        i += 1;
        assert(out@ =~= old(out)@ + v@.subrange(from as int, i as int));
    }
}

/// A string made of the characters of `v`.
pub fn string_of(v: &Vec<char>) -> (s: String)
    ensures
        s@ == v@,
{
    let mut s = String::new();
    push_chars(&mut s, v, 0, v.len());
    assert(s@ =~= v@);
    s
}

/// The decimal digit that stands for `d`, for `d` from 0 to 9.
pub open spec fn digit_char(d: int) -> char {
    if d == 0 {
        '0'
    } else if d == 1 {
        '1'
    } else if d == 2 {
        '2'
    } else if d == 3 {
        '3'
    } else if d == 4 {
        '4'
    } else if d == 5 {
        '5'
    } else if d == 6 {
        '6'
    } else if d == 7 {
        '7'
    } else if d == 8 {
        '8'
    } else {
        '9'
    }
}

/// The lower-case hexadecimal digit that stands for `d`, for `d` from 0 to 15.
pub open spec fn hex_char(d: int) -> char {
    if d < 10 {
        digit_char(d)
    } else if d == 10 {
        'a'
    } else if d == 11 {
        'b'
    } else if d == 12 {
        'c'
    } else if d == 13 {
        'd'
    } else if d == 14 {
        'e'
    } else {
        'f'
    }
}

/// The value of an ASCII decimal digit, and `None` for any other character.
pub open spec fn digit_value(c: char) -> Option<int> {
    if c == '0' {
        Some(0)
    } else if c == '1' {
        Some(1)
    } else if c == '2' {
        Some(2)
    } else if c == '3' {
        Some(3)
    } else if c == '4' {
        Some(4)
    } else if c == '5' {
        Some(5)
    } else if c == '6' {
        Some(6)
    } else if c == '7' {
        Some(7)
    } else if c == '8' {
        Some(8)
    } else if c == '9' {
        Some(9)
    } else {
        None
    }
}

/// The shortest decimal notation of `n`.
pub open spec fn decimal_digits(n: nat) -> Seq<char>
    decreases n,
{
    if n < 10 {
        seq![digit_char(n as int)]
    } else {
        decimal_digits(n / 10).push(digit_char((n % 10) as int))
    }
}

/// The decimal notation of `n`, with zeros in front until it is `width`
/// characters long. A number that needs more digits keeps them all.
pub open spec fn zero_padded(n: nat, width: nat) -> Seq<char> {
    let digits = decimal_digits(n);
    if digits.len() >= width {
        digits
    } else {
        Seq::new((width - digits.len()) as nat, |i: int| '0') + digits
    }
}

/// The eight lower-case hexadecimal digits of `n`, most significant first.
pub open spec fn hex8(n: u32) -> Seq<char> {
    seq![
        hex_char((n / 0x1000_0000 % 16) as int),
        hex_char((n / 0x100_0000 % 16) as int),
        hex_char((n / 0x10_0000 % 16) as int),
        hex_char((n / 0x1_0000 % 16) as int),
        hex_char((n / 0x1000 % 16) as int),
        hex_char((n / 0x100 % 16) as int),
        hex_char((n / 0x10 % 16) as int),
        hex_char((n % 16) as int),
    ]
}

/// The text with every `/` replaced by `_`.
pub open spec fn without_slashes(s: Seq<char>) -> Seq<char> {
    Seq::new(s.len(), |i: int| if s[i] == '/' { '_' } else { s[i] })
}

/// Whether every character of `s` is an ASCII decimal digit.
pub open spec fn is_digits(s: Seq<char>) -> bool {
    forall|i: int| 0 <= i < s.len() ==> (#[trigger] digit_value(s[i])) is Some
}

/// The number that a run of decimal digits denotes, read from the left.
pub open spec fn decimal_value(s: Seq<char>) -> nat
    decreases s.len(),
{
    if s.len() == 0 {
        0
    } else {
        match digit_value(s.last()) {
            Some(d) => decimal_value(s.drop_last()) * 10 + d as nat,
            None => decimal_value(s.drop_last()) * 10,
        }
    }
}

/// What reading `s` as a decimal number of at most `max` gives: the number
/// where `s` is a non-empty run of ASCII digits whose value fits, else `None`.
pub open spec fn parsed_decimal(s: Seq<char>, max: nat) -> Option<nat> {
    if s.len() > 0 && is_digits(s) && decimal_value(s) <= max {
        Some(decimal_value(s))
    } else {
        None
    }
}

/// The index of the first character at or after `i` that is not white space,
/// or the length of `s` where there is none.
pub open spec fn text_start(s: Seq<char>, i: int) -> int
    decreases s.len() - i,
{
    if 0 <= i < s.len() && is_space(s[i]) {
        text_start(s, i + 1)
    } else {
        i
    }
}

/// The index just behind the last character before `j` that is not white
/// space, or 0 where there is none.
pub open spec fn text_end(s: Seq<char>, j: int) -> int
    decreases j,
{
    if 0 < j <= s.len() && is_space(s[j - 1]) {
        text_end(s, j - 1)
    } else {
        j
    }
}

/// The text without the white space at its two ends.
pub open spec fn trimmed(s: Seq<char>) -> Seq<char> {
    let a = text_start(s, 0);
    let b = text_end(s, s.len() as int);
    if a < b {
        s.subrange(a, b)
    } else {
        Seq::empty()
    }
}

fn digit(d: u8) -> (c: char)
    requires
        d < 10,
    ensures
        c == digit_char(d as int),
{
    match d {
        0 => '0',
        1 => '1',
        2 => '2',
        3 => '3',
        4 => '4',
        5 => '5',
        6 => '6',
        7 => '7',
        8 => '8',
        _ => '9',
    }
}

fn hex_digit(d: u32) -> (c: char)
    requires
        d < 16,
    ensures
        c == hex_char(d as int),
{
    match d {
        0 => '0',
        1 => '1',
        2 => '2',
        3 => '3',
        4 => '4',
        5 => '5',
        6 => '6',
        7 => '7',
        8 => '8',
        9 => '9',
        10 => 'a',
        11 => 'b',
        12 => 'c',
        13 => 'd',
        14 => 'e',
        _ => 'f',
    }
}

/// The value of a decimal digit.
pub fn value_of_digit(c: char) -> (r: Option<u8>)
    ensures
        match r {
            Some(d) => digit_value(c) == Some(d as int),
            None => digit_value(c) is None,
        },
{
    match c {
        '0' => Some(0),
        '1' => Some(1),
        '2' => Some(2),
        '3' => Some(3),
        '4' => Some(4),
        '5' => Some(5),
        '6' => Some(6),
        '7' => Some(7),
        '8' => Some(8),
        '9' => Some(9),
        _ => None,
    }
}

/// Appends the decimal notation of `n`.
pub fn push_decimal(out: &mut String, n: usize)
    ensures
        final(out)@ == old(out)@ + decimal_digits(n as nat),
    decreases n,
{
    if n >= 10 {
        push_decimal(out, n / 10);
    }
    let d: u8 = (n % 10) as u8;
    push_char(out, digit(d));
    assert(out@ =~= old(out)@ + decimal_digits(n as nat));
}

/// How many digits the decimal notation of `n` has.
pub fn digit_count(n: usize) -> (r: usize)
    ensures
        r == decimal_digits(n as nat).len(),
        r >= 1,
{
    let mut r: usize = 1;
    let mut rest: usize = n;
    while rest >= 10
        invariant
            r >= 1,
            r + rest <= n + 1,
            decimal_digits(n as nat).len() == decimal_digits(rest as nat).len() + r - 1,
        decreases rest,
    {
        rest = rest / 10;
        r += 1;
    }
    r
}

/// Appends the decimal notation of `n`, padded with zeros to `width`.
pub fn push_zero_padded(out: &mut String, n: usize, width: usize)
    ensures
        final(out)@ == old(out)@ + zero_padded(n as nat, width as nat),
{
    let len = digit_count(n);
    if len < width {
        let fill: usize = width - len;
        let mut i: usize = 0;
        while i < fill
            invariant
                i <= fill,
                out@ == old(out)@ + Seq::new(i as nat, |k: int| '0'),
            decreases fill - i,
        {
            push_char(out, '0');
            i += 1;
            assert(out@ =~= old(out)@ + Seq::new(i as nat, |k: int| '0'));
        }
    } else {
        assert(out@ =~= old(out)@ + Seq::<char>::empty());
    }
    push_decimal(out, n);
    assert(out@ =~= old(out)@ + zero_padded(n as nat, width as nat));
}

/// Appends the eight hexadecimal digits of `n`.
pub fn push_hex8(out: &mut String, n: u32)
    ensures
        final(out)@ == old(out)@ + hex8(n),
{
    push_char(out, hex_digit(n / 0x1000_0000 % 16));
    push_char(out, hex_digit(n / 0x100_0000 % 16));
    push_char(out, hex_digit(n / 0x10_0000 % 16));
    push_char(out, hex_digit(n / 0x1_0000 % 16));
    push_char(out, hex_digit(n / 0x1000 % 16));
    push_char(out, hex_digit(n / 0x100 % 16));
    push_char(out, hex_digit(n / 0x10 % 16));
    push_char(out, hex_digit(n % 16));
    assert(out@ =~= old(out)@ + hex8(n));
}

/// Appends `s` with every `/` replaced by `_`.
pub fn push_without_slashes(out: &mut String, s: &str)
    ensures
        final(out)@ == old(out)@ + without_slashes(s@),
{
    let v = chars_of(s);
    let mut i: usize = 0;
    while i < v.len()
        invariant
            i <= v@.len(),
            v@ == s@,
            out@ == old(out)@ + without_slashes(s@).subrange(0, i as int),
        decreases v@.len() - i,
    {
        let c = v[i];
        if c == '/' {
            push_char(out, '_');
        } else {
            push_char(out, c);
        }
        i += 1;
        assert(out@ =~= old(out)@ + without_slashes(s@).subrange(0, i as int));
    }
    assert(without_slashes(s@).subrange(0, i as int) =~= without_slashes(s@));
}

/// The text with every `/` replaced by `_`.
pub fn replace_slashes(s: &str) -> (r: String)
    ensures
        r@ == without_slashes(s@),
{
    let mut out = String::new();
    push_without_slashes(&mut out, s);
    assert(out@ =~= without_slashes(s@));
    out
}

proof fn lemma_decimal_value_grows(s: Seq<char>, i: int)
    requires
        0 <= i <= s.len(),
    ensures
        decimal_value(s.subrange(0, i)) <= decimal_value(s),
    decreases s.len() - i,
{
    if i < s.len() {
        let longer = s.subrange(0, i + 1);
        assert(longer.drop_last() =~= s.subrange(0, i));
        lemma_decimal_value_grows(s, i + 1);
    } else {
        assert(s.subrange(0, i) =~= s);
    }
}

/// Reads `s` as a decimal number of at most `max`.
pub fn parse_decimal(s: &Vec<char>, max: u64) -> (r: Option<u64>)
    ensures
        match r {
            Some(n) => parsed_decimal(s@, max as nat) == Some(n as nat),
            None => parsed_decimal(s@, max as nat) is None,
        },
{
    if s.len() == 0 {
        return None;
    }
    let mut acc: u64 = 0;
    let mut i: usize = 0;
    while i < s.len()
        invariant
            i <= s@.len(),
            acc <= max,
            acc == decimal_value(s@.subrange(0, i as int)),
            is_digits(s@.subrange(0, i as int)),
        decreases s@.len() - i,
    {
        let ghost longer = s@.subrange(0, i + 1);
        proof {
            assert(longer.drop_last() =~= s@.subrange(0, i as int));
            assert(longer.last() == s@[i as int]);
            lemma_decimal_value_grows(s@, i + 1);
        }
        match value_of_digit(s[i]) {
            None => {
                return None;
            },
            Some(d) => {
                if d as u64 > max || acc > (max - d as u64) / 10 {
                    assert(decimal_value(longer) > max);
                    return None;
                }
                acc = acc * 10 + d as u64;
                assert forall|k: int| 0 <= k < longer.len() implies (#[trigger] digit_value(
                    longer[k],
                )) is Some by {
                    if k < i {
                        assert(longer[k] == s@.subrange(0, i as int)[k]);
                    }
                }
            },
        }
        i += 1;
    }
    assert(s@.subrange(0, i as int) =~= s@);
    Some(acc)
}

/// The characters of `v` without the white space at the two ends.
pub fn trim(v: &Vec<char>) -> (r: Vec<char>)
    ensures
        r@ == trimmed(v@),
        r@.len() <= v@.len(),
        r@.len() == v@.len() <==> r@ == v@,
{
    let mut a: usize = 0;
    while a < v.len() && is_whitespace(v[a])
        invariant
            a <= v@.len(),
            text_start(v@, 0) == text_start(v@, a as int),
        decreases v@.len() - a,
    {
        a += 1;
    }
    let mut b: usize = v.len();
    while b > 0 && is_whitespace(v[b - 1])
        invariant
            b <= v@.len(),
            text_end(v@, v@.len() as int) == text_end(v@, b as int),
        decreases b,
    {
        b -= 1;
    }
    let mut r: Vec<char> = Vec::new();
    if a >= b {
        assert(v@.len() == 0 ==> r@ =~= v@);
        return r;
    }
    let mut i: usize = a;
    while i < b
        invariant
            a <= i <= b <= v@.len(),
            r@ == v@.subrange(a as int, i as int),
        decreases b - i,
    {
        r.push(v[i]);
        i += 1;
        assert(r@ =~= v@.subrange(a as int, i as int));
    }
    assert(r@.len() == v@.len() ==> r@ =~= v@);
    r
}

/// The text of an optional string slice.
pub open spec fn slice_view(s: Option<&str>) -> Option<Seq<char>> {
    match s {
        Some(t) => Some(t@),
        None => None,
    }
}

/// Whether two texts are the same.
pub fn same_text(a: &str, b: &str) -> (r: bool)
    ensures
        r == (a@ == b@),
{
    let x = chars_of(a);
    let y = chars_of(b);
    if x.len() != y.len() {
        return false;
    }
    let mut i: usize = 0;
    while i < x.len()
        invariant
            i <= x@.len(),
            x@ == a@,
            y@ == b@,
            x@.len() == y@.len(),
            forall|k: int| 0 <= k < i ==> x@[k] == y@[k],
        decreases x@.len() - i,
    {
        if x[i] != y[i] {
            assert(a@[i as int] != b@[i as int]);
            return false;
        }
        i += 1;
    }
    assert(x@ =~= y@);
    true
}

/// The texts of a list of strings.
pub open spec fn texts(list: Seq<String>) -> Seq<Seq<char>> {
    list.map_values(|s: String| s@)
}

/// Appends a string to a list.
pub fn push_text(list: &mut Vec<String>, s: String)
    ensures
        texts(final(list)@) == texts(old(list)@).push(s@),
{
    list.push(s);
    assert(texts(list@) =~= texts(old(list)@).push(s@));
}

} // verus!
