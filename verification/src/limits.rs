//! What the JSON reader is given to read.
//!
//! The reader of the `rustc_serialize` crate does not return on every text.
//! It calls itself once for each level of nesting. It keeps the keys of the
//! members it is inside of in one buffer, which it addresses with 16 bits. It
//! adds up the digits of an exponent in a machine word, and counts the items
//! of an array in 32 bits. And where a comma stands right before the brace
//! that closes an object inside another value, it forgets one level too many
//! and may later stop with a panic.
//!
//! This module goes through a text once, character by character, the way the
//! reader does: it knows where string literals begin and end, how deep the
//! brackets are nested, which strings are keys, and where an exponent
//! stands. A text is readable if none of the limits is passed on the way.

use crate::text::chars_of;
use vstd::prelude::*;

verus! {

/// The deepest nesting of brackets and braces.
pub const MAX_DEPTH: usize = 128;

/// The most bytes of keys that may be held at once: the key of the member
/// that is being read, and those of the members around it.
pub const MAX_KEY_BYTES: usize = 0xFFFF;

/// The largest exponent of a number.
pub const MAX_EXPONENT: u64 = 0xFFFF_FFFF;

/// The most characters of a text.
pub const MAX_CHARS: usize = 0xFFFF_FFFF;

/// Where the scan stands with respect to string literals.
#[derive(Clone, Copy, Debug, PartialEq, Eq, Structural)]
pub enum Mode {
    /// Outside every string literal.
    Outside,
    /// Inside a string literal.
    Inside,
    /// Inside a string literal, right after a backslash.
    Escaped,
    /// Inside a string literal, among the four hexadecimal digits that
    /// follow a backslash and a `u`.
    Unicode,
}

/// How far the scan is into a number, as far as its exponent is concerned.
#[derive(Clone, Copy, Debug, PartialEq, Eq, Structural)]
pub enum Number {
    /// Not after a digit.
    Idle,
    /// After a digit that is not part of an exponent.
    Mantissa,
    /// After the `e` or `E` that follows a digit.
    Mark,
    /// After the sign that follows the mark.
    Sign,
    /// After a digit of the exponent.
    Exponent,
}

/// What the scan knows after some characters of a text.
pub ghost struct ScanView {
    /// Whether a string literal is open.
    pub mode: Mode,
    /// How far into a number the scan is.
    pub number: Number,
    /// The value of the exponent digits read so far.
    pub exponent: int,
    /// Outside strings, the last character that is no blank was a comma.
    pub comma: bool,
    /// For each bracket or brace that is open, the bytes of keys that were
    /// held when it was opened.
    pub outer: Seq<int>,
    /// The bytes of keys that are held now.
    pub held: int,
    /// The bytes that the string literal begun last stands for, as far as
    /// it has been read; one more than `MAX_KEY_BYTES` stands for every
    /// larger number.
    pub last: int,
    /// The hexadecimal digits read of the escape that is open.
    pub digits: int,
    /// The value of those digits.
    pub unit: int,
}

/// The characters that the reader skips between the parts of a text.
pub open spec fn is_blank(c: char) -> bool {
    c == ' ' || c == '\n' || c == '\t' || c == '\r'
}

/// A decimal digit.
pub open spec fn is_digit(c: char) -> bool {
    '0' <= c <= '9'
}

/// The number of bytes that `c` takes in UTF-8.
pub open spec fn width(c: char) -> int {
    let n = c as u32;
    if n < 0x80 {
        1
    } else if n < 0x800 {
        2
    } else if n < 0x10000 {
        3
    } else {
        4
    }
}

/// A hexadecimal digit.
pub open spec fn is_hex(c: char) -> bool {
    '0' <= c <= '9' || 'a' <= c <= 'f' || 'A' <= c <= 'F'
}

/// The value of a hexadecimal digit.
pub open spec fn hex_value(c: char) -> int {
    if '0' <= c <= '9' {
        c as u32 - '0' as u32
    } else if 'a' <= c <= 'f' {
        c as u32 - 'a' as u32 + 10
    } else {
        c as u32 - 'A' as u32 + 10
    }
}

/// The number of bytes that the escape of the 16-bit unit `n` adds to a
/// string. The two halves of a surrogate pair stand for one character of
/// four bytes, which is counted with the first half.
pub open spec fn unit_width(n: int) -> int {
    if n < 0x80 {
        1
    } else if n < 0x800 {
        2
    } else if 0xD800 <= n <= 0xDBFF {
        4
    } else if 0xDC00 <= n <= 0xDFFF {
        0
    } else {
        3
    }
}

/// `last` and `by` more bytes, counted no further than one past
/// `MAX_KEY_BYTES`.
pub open spec fn grown(last: int, by: int) -> int {
    if last + by > MAX_KEY_BYTES {
        MAX_KEY_BYTES + 1
    } else {
        last + by
    }
}

/// The bytes of keys held by the members around the innermost open bracket
/// or brace.
pub open spec fn base(s: ScanView) -> int {
    if s.outer.len() > 0 {
        s.outer.last()
    } else {
        0
    }
}

/// The scan before the first character.
pub open spec fn start() -> ScanView {
    ScanView {
        mode: Mode::Outside,
        number: Number::Idle,
        exponent: 0,
        comma: false,
        outer: Seq::empty(),
        held: 0,
        last: 0,
        digits: 0,
        unit: 0,
    }
}

/// The scan after a character `c` inside a string literal. The literal ends
/// at a quote that no backslash precedes. A character stands for itself, a
/// backslash and the character after it for one byte, and a backslash, a `u`
/// and four hexadecimal digits for the character with that number.
pub open spec fn step_inside(s: ScanView, c: char) -> ScanView {
    if s.mode == Mode::Escaped {
        if c == 'u' {
            ScanView { mode: Mode::Unicode, digits: 0, unit: 0, ..s }
        } else {
            ScanView { mode: Mode::Inside, last: grown(s.last, 1), ..s }
        }
    } else if s.mode == Mode::Unicode {
        if !is_hex(c) {
            ScanView { mode: Mode::Inside, ..s }
        } else if s.digits < 3 {
            ScanView { digits: s.digits + 1, unit: s.unit * 16 + hex_value(c), ..s }
        } else {
            ScanView {
                mode: Mode::Inside,
                last: grown(s.last, unit_width(s.unit * 16 + hex_value(c))),
                ..s
            }
        }
    } else if c == '"' {
        ScanView { mode: Mode::Outside, ..s }
    } else if c == '\\' {
        ScanView { mode: Mode::Escaped, ..s }
    } else {
        ScanView { last: grown(s.last, width(c)), ..s }
    }
}

/// The scan after a digit `c` outside string literals, or nothing if the
/// exponent that the digit belongs to passes `MAX_EXPONENT`.
pub open spec fn step_digit(s: ScanView, c: char) -> Option<ScanView> {
    let d = c as u32 - '0' as u32;
    if s.number == Number::Mark || s.number == Number::Sign {
        Some(ScanView { number: Number::Exponent, exponent: d, comma: false, ..s })
    } else if s.number == Number::Exponent {
        if s.exponent * 10 + d > MAX_EXPONENT {
            None
        } else {
            Some(ScanView { exponent: s.exponent * 10 + d, comma: false, ..s })
        }
    } else {
        Some(ScanView { number: Number::Mantissa, comma: false, ..s })
    }
}

/// The scan after a character `c` outside string literals, or nothing if a
/// limit is passed:
/// - a bracket or brace opens at depth `MAX_DEPTH`;
/// - a brace closes an object that is nested in another value, and the last
///   character before it that is no blank is a comma;
/// - a colon makes the string before it a key, and with the keys already
///   held it comes to more than `MAX_KEY_BYTES`;
/// - an exponent passes `MAX_EXPONENT`.
pub open spec fn step_outside(s: ScanView, c: char) -> Option<ScanView> {
    if c == '"' {
        Some(ScanView { mode: Mode::Inside, last: 0, number: Number::Idle, comma: false, ..s })
    } else if c == '[' || c == '{' {
        if s.outer.len() >= MAX_DEPTH {
            None
        } else {
            Some(ScanView { outer: s.outer.push(s.held), number: Number::Idle, comma: false, ..s })
        }
    } else if c == '}' && s.comma && s.outer.len() >= 2 {
        None
    } else if c == ']' || c == '}' {
        if s.outer.len() > 0 {
            Some(
                ScanView {
                    outer: s.outer.drop_last(),
                    held: s.outer.last(),
                    number: Number::Idle,
                    comma: false,
                    ..s
                },
            )
        } else {
            Some(ScanView { number: Number::Idle, comma: false, ..s })
        }
    } else if c == ':' {
        if base(s) + s.last > MAX_KEY_BYTES {
            None
        } else {
            Some(ScanView { held: base(s) + s.last, number: Number::Idle, comma: false, ..s })
        }
    } else if c == ',' {
        Some(ScanView { held: base(s), number: Number::Idle, comma: true, ..s })
    } else if is_blank(c) {
        Some(ScanView { number: Number::Idle, ..s })
    } else if is_digit(c) {
        step_digit(s, c)
    } else if c == 'e' || c == 'E' {
        Some(
            ScanView {
                number: if s.number == Number::Mantissa {
                    Number::Mark
                } else {
                    Number::Idle
                },
                comma: false,
                ..s
            },
        )
    } else if c == '+' || c == '-' {
        Some(
            ScanView {
                number: if s.number == Number::Mark {
                    Number::Sign
                } else {
                    Number::Idle
                },
                comma: false,
                ..s
            },
        )
    } else {
        Some(ScanView { number: Number::Idle, comma: false, ..s })
    }
}

/// The scan after one more character, or nothing if a limit is passed.
pub open spec fn step(s: ScanView, c: char) -> Option<ScanView> {
    if s.mode == Mode::Outside {
        step_outside(s, c)
    } else {
        Some(step_inside(s, c))
    }
}

/// The scan after the first `upto` characters of `text`, or nothing if a
/// limit is passed among them.
pub open spec fn run(text: Seq<char>, upto: int) -> Option<ScanView>
    decreases upto,
{
    if upto <= 0 {
        Some(start())
    } else {
        match run(text, upto - 1) {
            Some(s) => step(s, text[upto - 1]),
            None => None,
        }
    }
}

/// The texts that are handed to the JSON reader: those of at most
/// `MAX_CHARS` characters in which the scan passes no limit.
pub open spec fn readable(text: Seq<char>) -> bool {
    text.len() <= MAX_CHARS && run(text, text.len() as int).is_some()
}

/// Once a limit is passed, it stays passed.
pub proof fn lemma_run_fails_on(text: Seq<char>, at: int, upto: int)
    requires
        0 <= at <= upto,
        run(text, at).is_none(),
    ensures
        run(text, upto).is_none(),
    decreases upto - at,
{
    if at < upto {
        lemma_run_fails_on(text, at, upto - 1);
    }
}

/// The scan as it is computed.
struct Scan {
    mode: Mode,
    number: Number,
    exponent: u64,
    comma: bool,
    outer: Vec<usize>,
    held: usize,
    last: usize,
    digits: u8,
    unit: u32,
}

impl Scan {
    /// What the scan knows.
    spec fn view(&self) -> ScanView {
        ScanView {
            mode: self.mode,
            number: self.number,
            exponent: self.exponent as int,
            comma: self.comma,
            outer: self.outer@.map_values(|n: usize| n as int),
            held: self.held as int,
            last: self.last as int,
            digits: self.digits as int,
            unit: self.unit as int,
        }
    }

    /// The numbers of the scan are within the limits.
    spec fn bounded(&self) -> bool {
        &&& self.exponent <= MAX_EXPONENT
        &&& self.outer@.len() <= MAX_DEPTH
        &&& self.held <= MAX_KEY_BYTES
        &&& self.last <= MAX_KEY_BYTES + 1
        &&& self.digits <= 3
        &&& self.digits == 0 ==> self.unit == 0
        &&& self.digits == 1 ==> self.unit < 0x10
        &&& self.digits == 2 ==> self.unit < 0x100
        &&& self.digits == 3 ==> self.unit < 0x1000
        &&& forall|i: int| 0 <= i < self.outer@.len() ==> #[trigger] self.outer@[i] <= MAX_KEY_BYTES
    }

    /// The bytes of keys held around the innermost open bracket or brace.
    fn base(&self) -> (n: usize)
        requires
            self.bounded(),
        ensures
            n == base(self@),
            n <= MAX_KEY_BYTES,
    {
        let depth = self.outer.len();
        if depth > 0 {
            self.outer[depth - 1]
        } else {
            0
        }
    }
}

/// The number of bytes that `c` takes in UTF-8.
fn width_of(c: char) -> (n: usize)
    ensures
        n == width(c),
{
    let n: u32 = c as u32;
    if n < 0x80 {
        1
    } else if n < 0x800 {
        2
    } else if n < 0x10000 {
        3
    } else {
        4
    }
}

/// The value of the hexadecimal digit `c`, if it is one.
fn hex_of(c: char) -> (v: Option<u32>)
    ensures
        v.is_some() == is_hex(c),
        v matches Some(n) ==> n == hex_value(c) && n < 16,
{
    if '0' <= c && c <= '9' {
        Some(c as u32 - '0' as u32)
    } else if 'a' <= c && c <= 'f' {
        Some(c as u32 - 'a' as u32 + 10)
    } else if 'A' <= c && c <= 'F' {
        Some(c as u32 - 'A' as u32 + 10)
    } else {
        None
    }
}

/// The number of bytes that the escape of the unit `n` adds to a string.
fn unit_width_of(n: u32) -> (w: usize)
    ensures
        w == unit_width(n as int),
        w <= 4,
{
    if n < 0x80 {
        1
    } else if n < 0x800 {
        2
    } else if 0xD800 <= n && n <= 0xDBFF {
        4
    } else if 0xDC00 <= n && n <= 0xDFFF {
        0
    } else {
        3
    }
}

/// `last` and `by` more bytes, counted no further than one past
/// `MAX_KEY_BYTES`.
fn grow(last: usize, by: usize) -> (n: usize)
    requires
        last <= MAX_KEY_BYTES + 1,
        by <= 4,
    ensures
        n == grown(last as int, by as int),
        n <= MAX_KEY_BYTES + 1,
{
    if last + by > MAX_KEY_BYTES {
        MAX_KEY_BYTES + 1
    } else {
        last + by
    }
}

/// Takes the scan one character further.
fn advance(scan: Scan, c: char) -> (next: Option<Scan>)
    requires
        scan.bounded(),
    ensures
        match next {
            Some(n) => step(scan@, c) == Some(n@) && n.bounded(),
            None => step(scan@, c).is_none(),
        },
{
    let mut scan = scan;
    let ghost before = scan@;
    match scan.mode {
        Mode::Escaped => {
            if c == 'u' {
                scan.mode = Mode::Unicode;
                scan.digits = 0;
                scan.unit = 0;
            } else {
                scan.mode = Mode::Inside;
                scan.last = grow(scan.last, 1);
            }
        },
        Mode::Unicode => {
            match hex_of(c) {
                None => {
                    scan.mode = Mode::Inside;
                },
                Some(v) => {
                    let unit = scan.unit * 16 + v;
                    if scan.digits < 3 {
                        scan.digits = scan.digits + 1;
                        scan.unit = unit;
                    } else {
                        scan.mode = Mode::Inside;
                        scan.last = grow(scan.last, unit_width_of(unit));
                    }
                },
            }
        },
        Mode::Inside => {
            if c == '"' {
                scan.mode = Mode::Outside;
            } else if c == '\\' {
                scan.mode = Mode::Escaped;
            } else {
                scan.last = grow(scan.last, width_of(c));
            }
        },
        Mode::Outside => {
            let number = scan.number;
            let comma = scan.comma;
            scan.number = Number::Idle;
            scan.comma = false;
            if c == '"' {
                scan.mode = Mode::Inside;
                scan.last = 0;
            } else if c == '[' || c == '{' {
                if scan.outer.len() >= MAX_DEPTH {
                    return None;
                }
                scan.outer.push(scan.held);
                assert(scan@.outer =~= before.outer.push(before.held));
            } else if c == '}' && comma && scan.outer.len() >= 2 {
                return None;
            } else if c == ']' || c == '}' {
                if let Some(held) = scan.outer.pop() {
                    scan.held = held;
                    assert(scan@.outer =~= before.outer.drop_last());
                }
            } else if c == ':' {
                let held = scan.base() + scan.last;
                if held > MAX_KEY_BYTES {
                    return None;
                }
                scan.held = held;
            } else if c == ',' {
                scan.held = scan.base();
                scan.comma = true;
            } else if c == ' ' || c == '\n' || c == '\t' || c == '\r' {
                scan.comma = comma;
            } else if '0' <= c && c <= '9' {
                let d: u64 = (c as u32 - '0' as u32) as u64;
                match number {
                    Number::Mark | Number::Sign => {
                        scan.number = Number::Exponent;
                        scan.exponent = d;
                    },
                    Number::Exponent => {
                        let exponent = scan.exponent * 10 + d;
                        if exponent > MAX_EXPONENT {
                            return None;
                        }
                        scan.number = Number::Exponent;
                        scan.exponent = exponent;
                    },
                    _ => {
                        scan.number = Number::Mantissa;
                    },
                }
            } else if c == 'e' || c == 'E' {
                if number == Number::Mantissa {
                    scan.number = Number::Mark;
                }
            } else if c == '+' || c == '-' {
                if number == Number::Mark {
                    scan.number = Number::Sign;
                }
            }
        },
    }
    assert(scan@.outer =~= step(before, c).unwrap().outer);
    Some(scan)
}

/// Tells whether `text` is handed to the JSON reader.
pub fn is_readable(text: &str) -> (b: bool)
    ensures
        b == readable(text@),
{
    let chars = chars_of(text);
    if chars.len() > MAX_CHARS {
        return false;
    }
    let mut scan = Scan {
        mode: Mode::Outside,
        number: Number::Idle,
        exponent: 0,
        comma: false,
        outer: Vec::new(),
        held: 0,
        last: 0,
        digits: 0,
        unit: 0,
    };
    assert(scan@.outer =~= start().outer);
    let mut i: usize = 0;
    while i < chars.len()
        invariant
            chars@ == text@,
            chars@.len() <= MAX_CHARS,
            i <= chars@.len(),
            scan.bounded(),
            run(chars@, i as int) == Some(scan@),
        decreases chars@.len() - i,
    {
        match advance(scan, chars[i]) {
            Some(next) => {
                scan = next;
            },
            None => {
                proof {
                    lemma_run_fails_on(chars@, i + 1, chars@.len() as int);
                }
                return false;
            },
        }
        i += 1;
    }
    true
}

} // verus!
