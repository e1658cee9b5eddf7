//! Character and string helpers shared by the layout and naming code.
use vstd::prelude::*;
use vstd::string::StringSliceAdditionalSpecFns;
use vstd::utf8::{decode_utf8, valid_utf8};

verus! {

/// Calls `core::str::from_utf8`, which accepts exactly the byte strings
/// that are UTF-8 and returns them unchanged as a string slice.
#[verifier::external_body]
pub(crate) fn utf8_text(data: &[u8]) -> (r: Option<&str>)
    ensures
        match r {
            Some(s) => valid_utf8(data@) && s.spec_bytes() == data@,
            None => !valid_utf8(data@),
        },
{
    core::str::from_utf8(data).ok()
}

/// The text that `data` encodes, if it is UTF-8.
pub fn decode_text(data: &[u8]) -> (r: Option<Vec<char>>)
    ensures
        match r {
            Some(chars) => valid_utf8(data@) && chars@ == decode_utf8(data@),
            None => !valid_utf8(data@),
        },
{
    match utf8_text(data) {
        Some(s) => {
            proof {
                vstd::utf8::encode_utf8_decode_utf8(s@);
            }
            Some(chars_of(s))
        },
        None => None,
    }
}

/// The index of the first character of `text` at or after `from` that is
/// not white space; the length of `text` if there is none.
pub open spec fn skip_spaces(text: Seq<char>, from: int) -> int
    decreases text.len() - from,
{
    if from < 0 || from >= text.len() {
        text.len() as int
    } else if is_space_spec(text[from]) {
        skip_spaces(text, from + 1)
    } else {
        from
    }
}

/// `text` without its leading white space.
pub open spec fn trim_start(text: Seq<char>) -> Seq<char> {
    text.skip(skip_spaces(text, 0))
}

/// The index of the first character of `chars` that is not white space.
pub fn leading_spaces(chars: &Vec<char>) -> (k: usize)
    ensures
        k == skip_spaces(chars@, 0),
        k <= chars.len(),
{
    let mut i: usize = 0;
    while i < chars.len() && is_space(chars[i])
        invariant
            i <= chars.len(),
            skip_spaces(chars@, 0) == skip_spaces(chars@, i as int),
        decreases chars.len() - i,
    {
        i += 1;
    }
    i
}

/// Whether `chars` from `at` on begins with `prefix`.
pub fn has_prefix_at(chars: &Vec<char>, at: usize, prefix: &str) -> (r: bool)
    requires
        at <= chars.len(),
    ensures
        r == prefix@.is_prefix_of(chars@.skip(at as int)),
{
    let p = chars_of(prefix);
    if p.len() > chars.len() - at {
        return false;
    }
    let mut i: usize = 0;
    while i < p.len()
        invariant
            i <= p.len(),
            p@ == prefix@,
            at <= chars.len(),
            p.len() <= chars.len() - at,
            forall|j: int| 0 <= j < i ==> p@[j] == chars@[at + j],
        decreases p.len() - i,
    {
        if p[i] != chars[at + i] {
            assert(chars@.skip(at as int)[i as int] == chars@[at + i]);
            assert(!(prefix@ =~= chars@.skip(at as int).subrange(0, prefix@.len() as int)));
            return false;
        }
        i += 1;
    }
    assert(prefix@ =~= chars@.skip(at as int).subrange(0, prefix@.len() as int));
    true
}

/// `String::push` appends one character.
pub assume_specification[ String::push ](s: &mut String, c: char)
    ensures
        final(s)@ == old(s)@.push(c),
;

/// Control characters: the code points of general category Cc.
pub open spec fn is_control_spec(c: char) -> bool {
    c as u32 <= 0x1f || 0x7f <= c as u32 <= 0x9f
}

/// Whether `c` is a control character (a line break, a tab and the like).
pub fn is_control(c: char) -> (r: bool)
    ensures
        r == is_control_spec(c),
{
    let n: u32 = c as u32;
    n <= 0x1f || (0x7f <= n && n <= 0x9f)
}

/// Characters that separate words: the code points with the Unicode
/// property White_Space.
pub open spec fn is_space_spec(c: char) -> bool {
    let n = c as u32;
    ||| 0x09 <= n <= 0x0d
    ||| n == 0x20
    ||| n == 0x85
    ||| n == 0xa0
    ||| n == 0x1680
    ||| 0x2000 <= n <= 0x200a
    ||| n == 0x2028
    ||| n == 0x2029
    ||| n == 0x202f
    ||| n == 0x205f
    ||| n == 0x3000
}

/// Whether `c` separates words.
pub fn is_space(c: char) -> (r: bool)
    ensures
        r == is_space_spec(c),
{
    let n: u32 = c as u32;
    (0x09 <= n && n <= 0x0d) || n == 0x20 || n == 0x85 || n == 0xa0 || n == 0x1680 || (0x2000 <= n
        && n <= 0x200a) || n == 0x2028 || n == 0x2029 || n == 0x202f || n == 0x205f || n == 0x3000
}

/// The characters of a string slice, in order.
pub fn chars_of(s: &str) -> (v: Vec<char>)
    ensures
        v@ == s@,
{
    let mut v: Vec<char> = Vec::new();
    for c in it: s.chars()
        invariant
            it.seq() == s@,
            v@ == it.seq().take(it.index()),
    {
        v.push(c);
    }
    v
}

/// The string made of the characters `v[from..to]`.
pub fn string_of(v: &Vec<char>, from: usize, to: usize) -> (s: String)
    requires
        from <= to <= v.len(),
    ensures
        s@ == v@.subrange(from as int, to as int),
{
    let mut s = String::new();
    let mut i: usize = from;
    while i < to
        invariant
            from <= i <= to <= v.len(),
            s@ == v@.subrange(from as int, i as int),
        decreases to - i,
    {
        s.push(v[i]);
        i += 1;
    }
    s
}

/// The decimal digit for `d`.
pub open spec fn digit_char(d: int) -> char
    recommends
        0 <= d < 10,
{
    (0x30 + d) as u8 as char
}

/// The decimal numeral of `n`, without leading zeros.
pub open spec fn decimal(n: nat) -> Seq<char>
    decreases n,
{
    if n < 10 {
        seq![digit_char(n as int)]
    } else {
        decimal(n / 10).push(digit_char((n % 10) as int))
    }
}

/// Appends the decimal numeral of `n` to `s`.
pub fn push_decimal(s: &mut String, n: u64)
    ensures
        final(s)@ == old(s)@ + decimal(n as nat),
    decreases n,
{
    if n >= 10 {
        push_decimal(s, n / 10);
    }
    let d: u8 = (n % 10) as u8;
    s.push((0x30 + d) as char);
    proof {
        if n >= 10 {
            assert(final(s)@ =~= old(s)@ + decimal(n as nat));
        } else {
            assert(final(s)@ =~= old(s)@ + decimal(n as nat));
        }
    }
}

/// The digits of `frac / 10^width`, a fraction below one written with
/// `width` places, without trailing zeros.
pub open spec fn fraction_digits(frac: nat, width: nat) -> Seq<char>
    decreases width,
{
    if width == 0 || frac == 0 {
        Seq::empty()
    } else {
        let unit = pow10((width - 1) as nat);
        seq![digit_char((frac / unit) as int)] + fraction_digits(frac % unit, (width - 1) as nat)
    }
}

/// Ten to the power `e`.
pub open spec fn pow10(e: nat) -> nat
    decreases e,
{
    if e == 0 {
        1
    } else {
        10 * pow10((e - 1) as nat)
    }
}

/// How a measure reads: an optional minus sign, the whole points, and, where
/// the measure is not whole, a decimal point and up to six places without
/// trailing zeros.
pub open spec fn measure_text(v: int) -> Seq<char> {
    let m: nat = if v < 0 {
        (-v) as nat
    } else {
        v as nat
    };
    let sign = if v < 0 {
        seq!['-']
    } else {
        Seq::<char>::empty()
    };
    let whole = decimal(m / 1_000_000);
    let frac = m % 1_000_000;
    if frac == 0 {
        sign + whole
    } else {
        sign + whole + seq!['.'] + fraction_digits(frac, 6)
    }
}

/// Appends `measure_text(v)` to `s`.
pub fn push_measure(s: &mut String, v: i64)
    ensures
        final(s)@ == old(s)@ + measure_text(v as int),
{
    let m: u64 = if v < 0 {
        s.push('-');
        ((-(v as i128)) as u64)
    } else {
        v as u64
    };
    let ghost after_sign = s@;
    push_decimal(s, m / 1_000_000);
    let mut frac: u64 = m % 1_000_000;
    if frac != 0 {
        s.push('.');
        let ghost before = s@;
        let ghost frac0 = frac as nat;
        let mut unit: u64 = 100_000;
        let mut width: u8 = 6;
        proof {
            reveal_with_fuel(pow10, 7);
        }
        while frac != 0 && width > 0
            invariant
                0 <= width <= 6,
                width > 0 ==> unit == pow10((width - 1) as nat),
                width > 0 ==> unit > 0,
                frac < pow10(width as nat),
                before + fraction_digits(frac0, 6) == s@ + fraction_digits(frac as nat, width as nat),
            decreases width,
        {
            proof {
                reveal_with_fuel(pow10, 7);
            }
            assert(pow10(width as nat) == 10 * pow10((width - 1) as nat));
            assert(frac / unit < 10) by (nonlinear_arith)
                requires
                    frac < 10 * unit,
                    unit > 0,
            ;
            let d: u8 = (frac / unit) as u8;
            let ghost prev = s@;
            s.push((0x30 + d) as char);
            assert(prev + fraction_digits(frac as nat, width as nat) =~= s@ + fraction_digits(
                (frac % unit) as nat,
                (width - 1) as nat,
            ));
            frac = frac % unit;
            width = width - 1;
            unit = unit / 10;
        }
        assert(fraction_digits(frac as nat, width as nat) =~= Seq::<char>::empty());
        assert(s@ =~= before + fraction_digits(frac0, 6));
        assert(s@ =~= old(s)@ + measure_text(v as int));
    } else {
        assert(s@ =~= old(s)@ + measure_text(v as int));
    }
}

} // verus!
