//! Text payloads of cells and the rendering of numbers as decimal text.

use vstd::prelude::*;

verus! {

/// The text payload of a cell as a trace records it.
#[derive(Clone, Debug)]
pub enum TextValue {
    /// A string.
    Text(String),
    /// A number, held as its decimal representation.
    Number(String),
    /// Null, or a value of any other kind.
    Absent,
}

/// Whether `c` has the Unicode property White_Space.
pub open spec fn is_whitespace(c: char) -> bool {
    let u = c as u32;
    ||| 0x09 <= u <= 0x0D
    ||| u == 0x20
    ||| u == 0x85
    ||| u == 0xA0
    ||| u == 0x1680
    ||| 0x2000 <= u <= 0x200A
    ||| u == 0x2028
    ||| u == 0x2029
    ||| u == 0x202F
    ||| u == 0x205F
    ||| u == 0x3000
}

/// Whether `s` is empty or holds white space only.
pub open spec fn is_blank(s: Seq<char>) -> bool {
    forall|i: int| 0 <= i < s.len() ==> is_whitespace(#[trigger] s[i])
}

/// The text that a string puts on the page: itself, unless it is blank.
pub open spec fn shown(s: Seq<char>) -> Option<Seq<char>> {
    if is_blank(s) {
        None
    } else {
        Some(s)
    }
}

/// The text that a payload puts on the page, if any: a string unless it is
/// blank, a number as its decimal representation, nothing otherwise.
pub open spec fn visible_text(value: TextValue) -> Option<Seq<char>> {
    match value {
        TextValue::Text(s) => shown(s@),
        TextValue::Number(n) => Some(n@),
        TextValue::Absent => None,
    }
}

/// The character of the decimal digit `d`.
pub open spec fn digit_char(d: int) -> char {
    if d == 0 {
        '0'
    } else if d == 1 {
        '1'
    } else if d == 2 {
        '2'
    } else if d == 3 {
        '3'
    } else if d == 4 {
        '4'
    } else if d == 5 {
        '5'
    } else if d == 6 {
        '6'
    } else if d == 7 {
        '7'
    } else if d == 8 {
        '8'
    } else {
        '9'
    }
}

/// Decimal representation of a natural number, without leading zeros.
pub open spec fn nat_text(n: nat) -> Seq<char>
    decreases n,
{
    if n < 10 {
        seq![digit_char(n as int)]
    } else {
        nat_text(n / 10).push(digit_char((n % 10) as int))
    }
}

/// Decimal representation of an integer, with a minus sign when negative.
pub open spec fn int_text(n: int) -> Seq<char> {
    if n < 0 {
        seq!['-'] + nat_text((-n) as nat)
    } else {
        nat_text(n as nat)
    }
}

/// Decimal representation of a natural number in at least two digits.
pub open spec fn two_digit_text(n: nat) -> Seq<char> {
    if n < 10 {
        seq!['0', digit_char(n as int)]
    } else {
        nat_text(n)
    }
}

/// Tests `is_whitespace`.
pub fn char_is_whitespace(c: char) -> (r: bool)
    ensures
        r == is_whitespace(c),
{
    let u: u32 = c as u32;
    (0x09 <= u && u <= 0x0D) || u == 0x20 || u == 0x85 || u == 0xA0 || u == 0x1680 || (0x2000 <= u
        && u <= 0x200A) || u == 0x2028 || u == 0x2029 || u == 0x202F || u == 0x205F || u == 0x3000
}

/// Tests `is_blank`.
pub fn str_is_blank(s: &str) -> (r: bool)
    ensures
        r == is_blank(s@),
{
    let mut blank: bool = true;
    for c in it: s.chars()
        invariant
            it.seq() == s@,
            blank == is_blank(s@.take(it.index() as int)),
    {
        proof {
            let k = it.index() as int;
            let before = s@.take(k);
            let after = s@.take(k + 1);
            assert(after[k] == c);
            assert(forall|i: int| 0 <= i < k ==> before[i] == after[i]);
            if is_blank(after) {
                assert forall|i: int| 0 <= i < before.len() implies is_whitespace(
                    #[trigger] before[i],
                ) by {
                    assert(is_whitespace(after[i]));
                }
            }
        }
        if !char_is_whitespace(c) {
            blank = false;
        }
    }
    proof {
        assert(s@.take(s@.len() as int) =~= s@);
    }
    blank
}

/// Whether two strings hold the same characters.
pub fn str_eq(a: &str, b: &str) -> (r: bool)
    ensures
        r == (a@ == b@),
{
    let x: String = String::from_str(a);
    let y: String = String::from_str(b);
    x == y
}

/// Extracts the text to draw from a payload.
pub fn get_text_from_value(value: &TextValue) -> (r: Option<String>)
    ensures
        match r {
            Some(t) => visible_text(*value) == Some(t@),
            None => visible_text(*value) is None,
        },
{
    match value {
        TextValue::Text(s) => {
            if str_is_blank(s.as_str()) {
                None
            } else {
                Some(s.clone())
            }
        },
        TextValue::Number(n) => Some(n.clone()),
        TextValue::Absent => None,
    }
}

/// The one-character string of the decimal digit `d`.
pub fn digit_str(d: u8) -> (s: &'static str)
    requires
        d < 10,
    ensures
        s@ == seq![digit_char(d as int)],
{
    proof {
        reveal_strlit("0");
        reveal_strlit("1");
        reveal_strlit("2");
        reveal_strlit("3");
        reveal_strlit("4");
        reveal_strlit("5");
        reveal_strlit("6");
        reveal_strlit("7");
        reveal_strlit("8");
        reveal_strlit("9");
    }
    let s: &'static str = if d == 0 {
        "0"
    } else if d == 1 {
        "1"
    } else if d == 2 {
        "2"
    } else if d == 3 {
        "3"
    } else if d == 4 {
        "4"
    } else if d == 5 {
        "5"
    } else if d == 6 {
        "6"
    } else if d == 7 {
        "7"
    } else if d == 8 {
        "8"
    } else {
        "9"
    };
    assert(s@ =~= seq![digit_char(d as int)]);
    s
}

/// Appends the decimal representation of `n` to `out`.
pub fn push_nat(out: &mut String, n: u64)
    ensures
        final(out)@ == old(out)@ + nat_text(n as nat),
    decreases n,
{
    if n >= 10 {
        push_nat(out, n / 10);
    }
    out.append(digit_str((n % 10) as u8));
    proof {
        if n >= 10 {
            assert(old(out)@ + nat_text((n / 10) as nat) + seq![digit_char((n % 10) as int)]
                =~= old(out)@ + nat_text((n / 10) as nat).push(digit_char((n % 10) as int)));
        }
    }
}

/// Appends the decimal representation of `n` to `out`.
pub fn push_int(out: &mut String, n: i64)
    ensures
        final(out)@ == old(out)@ + int_text(n as int),
{
    if n < 0 {
        proof {
            reveal_strlit("-");
        }
        out.append("-");
        let magnitude: u64 = (-(n + 1)) as u64 + 1;
        push_nat(out, magnitude);
        assert(old(out)@ + "-"@ + nat_text(magnitude as nat) =~= old(out)@ + (seq!['-']
            + nat_text((-n) as nat)));
    } else {
        push_nat(out, n as u64);
    }
}

/// Appends `n` in at least two decimal digits to `out`.
pub fn push_two_digits(out: &mut String, n: u64)
    ensures
        final(out)@ == old(out)@ + two_digit_text(n as nat),
{
    if n < 10 {
        out.append(digit_str(0));
        out.append(digit_str(n as u8));
        assert(old(out)@ + seq!['0'] + seq![digit_char(n as int)] =~= old(out)@ + seq![
            '0',
            digit_char(n as int),
        ]);
    } else {
        push_nat(out, n);
    }
}

/// The decimal representation of `n`.
pub fn format_int(n: i64) -> (r: String)
    ensures
        r@ == int_text(n as int),
{
    let mut out: String = String::new();
    push_int(&mut out, n);
    assert(Seq::<char>::empty() + int_text(n as int) =~= int_text(n as int));
    out
}

} // verus!
