//! Integer inspection: reading an integer in a radix, and the lines that show
//! one integer as 32- and 64-bit values, in decimal, hexadecimal and binary.

use vstd::prelude::*;
use vstd::string::*;

verus! {

/// The character for a digit value below 16.
pub open spec fn digit_char(d: nat) -> char {
    if d < 10 {
        ((48 + d) as u8) as char
    } else {
        ((87 + d) as u8) as char
    }
}

/// The digits of `v` in `radix`, most significant first, without leading zeros;
/// zero is the single digit `0`.
pub open spec fn digits_of(v: nat, radix: nat) -> Seq<char>
    decreases v via digits_of_decreases
{
    if radix < 2 || v < radix {
        seq![digit_char(v)]
    } else {
        digits_of(v / radix, radix).push(digit_char(v % radix))
    }
}

#[via_fn]
proof fn digits_of_decreases(v: nat, radix: nat) {
    if !(radix < 2 || v < radix) {
        assert(v / radix < v) by (nonlinear_arith)
            requires
                radix >= 2,
                v >= radix,
        ;
    }
}

/// Relies on `String::push`: appends one character.
#[verifier::external_body]
fn push_char(s: &mut String, c: char)
    ensures
        final(s)@ == old(s)@.push(c),
{
    s.push(c)
}

fn digit_char_exec(d: u64) -> (c: char)
    requires
        d < 16,
    ensures
        c == digit_char(d as nat),
{
    if d < 10 {
        (48 + d as u8) as char
    } else {
        (87 + d as u8) as char
    }
}

/// Appends the digits of `v` in `radix`.
fn push_digits(out: &mut String, v: u64, radix: u64)
    requires
        2 <= radix <= 16,
    ensures
        final(out)@ == old(out)@ + digits_of(v as nat, radix as nat),
    decreases v,
{
    let ghost start = out@;
    if v >= radix {
        proof {
            assert(v / radix < v) by (nonlinear_arith)
                requires
                    radix >= 2,
                    v >= radix,
            ;
        }
        push_digits(out, v / radix, radix);
    }
    push_char(out, digit_char_exec(v % radix));
    proof {
        if v >= radix {
            assert(digits_of(v as nat, radix as nat) == digits_of((v / radix) as nat, radix as nat).push(
                digit_char((v % radix) as nat),
            ));
        } else {
            assert(v % radix == v) by (nonlinear_arith)
                requires
                    v < radix,
            ;
        }
        assert(out@ =~= start + digits_of(v as nat, radix as nat));
    }
}

/// The characters in groups of `n` from the left, separated by single spaces;
/// only the last group may be shorter.
pub open spec fn chunks_joined(p: Seq<char>, n: nat) -> Seq<char>
    decreases p.len(),
{
    if n == 0 || p.len() <= n {
        p
    } else {
        p.subrange(0, n as int) + seq![' '] + chunks_joined(p.subrange(n as int, p.len() as int), n)
    }
}

/// `s` with zeros in front, up to a multiple of `n` characters.
pub open spec fn zero_padded(s: Seq<char>, n: nat) -> Seq<char> {
    Seq::new((((n as int) - (s.len() as int) % (n as int)) % (n as int)) as nat, |_i: int| '0') + s
}

/// `s` padded with zeros in front and split into groups of `n` characters.
pub open spec fn grouped(s: Seq<char>, n: nat) -> Seq<char> {
    chunks_joined(zero_padded(s, n), n)
}

/// Pads `s` with zeros in front to a multiple of `n` characters and splits it
/// into groups of `n`, separated by single spaces.
pub fn group(s: &str, n: usize) -> (r: String)
    requires
        n > 0,
    ensures
        r@ == grouped(s@, n as nat),
{
    let len = s.unicode_len();
    let pad = (n - len % n) % n;
    let mut padded: Vec<char> = Vec::new();
    let mut i: usize = 0;
    while i < pad
        invariant
            i <= pad,
            padded@ == Seq::new(i as nat, |_i: int| '0'),
        decreases pad - i,
    {
        padded.push('0');
        i = i + 1;
        assert(padded@ =~= Seq::new(i as nat, |_i: int| '0'));
    }
    let ghost zeros = padded@;
    let mut j: usize = 0;
    while j < len
        invariant
            len == s@.len(),
            j <= len,
            padded@ == zeros + s@.subrange(0, j as int),
        decreases len - j,
    {
        padded.push(s.get_char(j));
        j = j + 1;
        assert(padded@ =~= zeros + s@.subrange(0, j as int));
    }
    proof {
        assert(s@.subrange(0, len as int) =~= s@);
        assert(padded@ =~= zero_padded(s@, n as nat));
    }
    let total = padded.len();
    let mut out = String::new();
    let mut start: usize = 0;
    proof {
        assert(padded@.subrange(0, total as int) =~= padded@);
        assert(out@ + chunks_joined(padded@, n as nat) =~= chunks_joined(padded@, n as nat));
    }
    while start < total
        invariant
            n > 0,
            total == padded@.len(),
            start <= total,
            out@ + chunks_joined(padded@.subrange(start as int, total as int), n as nat)
                == chunks_joined(padded@, n as nat),
        decreases total - start,
    {
        let ghost rest = padded@.subrange(start as int, total as int);
        let ghost before = out@;
        let end = if total - start <= n {
            total
        } else {
            start + n
        };
        let mut k = start;
        while k < end
            invariant
                start <= k <= end <= total,
                total == padded@.len(),
                out@ == before + padded@.subrange(start as int, k as int),
            decreases end - k,
        {
            push_char(&mut out, padded[k]);
            k = k + 1;
            assert(out@ =~= before + padded@.subrange(start as int, k as int));
        }
        if end < total {
            push_char(&mut out, ' ');
            proof {
                assert(rest.subrange(0, n as int) =~= padded@.subrange(start as int, end as int));
                assert(rest.subrange(n as int, rest.len() as int) =~= padded@.subrange(
                    end as int,
                    total as int,
                ));
                assert(out@ + chunks_joined(padded@.subrange(end as int, total as int), n as nat)
                    =~= before + chunks_joined(rest, n as nat));
            }
        } else {
            proof {
                assert(rest =~= padded@.subrange(start as int, end as int));
                assert(padded@.subrange(end as int, total as int) =~= Seq::<char>::empty());
                assert(out@ + chunks_joined(padded@.subrange(end as int, total as int), n as nat)
                    =~= before + chunks_joined(rest, n as nat));
            }
        }
        start = end;
    }
    proof {
        assert(padded@.subrange(total as int, total as int) =~= Seq::<char>::empty());
        assert(out@ + Seq::<char>::empty() =~= out@);
    }
    out
}

/// The value of a digit character in `radix`, as `char::to_digit` reads it:
/// `0`-`9`, then the letters of either case from 10 on.
pub open spec fn digit_value(c: char, radix: nat) -> Option<nat> {
    let v: int = if '0' <= c <= '9' {
        c as int - '0' as int
    } else if 'a' <= c <= 'z' {
        c as int - 'a' as int + 10
    } else if 'A' <= c <= 'Z' {
        c as int - 'A' as int + 10
    } else {
        radix as int
    };
    if v < radix {
        Some(v as nat)
    } else {
        None
    }
}

/// The value of a run of digits in `radix`, most significant first.
pub open spec fn digits_value(s: Seq<char>, radix: nat) -> Option<nat>
    decreases s.len(),
{
    if s.len() == 0 {
        Some(0)
    } else {
        match (digits_value(s.drop_last(), radix), digit_value(s.last(), radix)) {
            (Some(high), Some(low)) => Some(high * radix + low),
            _ => None,
        }
    }
}

/// The integer that a string denotes in `radix`: an optional `+` or `-`, then
/// at least one digit, with the value in the range of `i64`.
pub open spec fn int_of(s: Seq<char>, radix: nat) -> Option<int> {
    let negative = s.len() > 0 && s[0] == '-';
    let body = if s.len() > 0 && (s[0] == '-' || s[0] == '+') {
        s.drop_first()
    } else {
        s
    };
    if body.len() == 0 {
        None
    } else {
        match digits_value(body, radix) {
            Some(v) => {
                let x = if negative {
                    -v
                } else {
                    v as int
                };
                if i64::MIN <= x <= i64::MAX {
                    Some(x)
                } else {
                    None
                }
            },
            None => None,
        }
    }
}

/// Relies on `i64::from_str_radix`: it accepts an optional sign and at least
/// one digit of the radix, in range, and returns their value; the error is
/// turned into its message.
#[verifier::external_body]
fn i64_from_str_radix(s: &str, radix: u32) -> (r: Result<i64, String>)
    requires
        2 <= radix <= 36,
    ensures
        r is Ok <==> int_of(s@, radix as nat) is Some,
        r is Ok ==> r->Ok_0 == int_of(s@, radix as nat)->0,
{
    i64::from_str_radix(s, radix).map_err(|e| e.to_string())
}

/// Reads an integer in `radix`; the error names the radix and what was wrong.
pub fn parse_i64(input: &str, radix: u32) -> (r: Result<i64, String>)
    requires
        2 <= radix <= 36,
    ensures
        r is Ok <==> int_of(input@, radix as nat) is Some,
        r is Ok ==> r->Ok_0 == int_of(input@, radix as nat)->0,
        r is Err ==> exists|reason: Seq<char>|
            r->Err_0@ == "failed to parse integer with radix "@ + digits_of(radix as nat, 10) + ": "@
                + reason,
{
    match i64_from_str_radix(input, radix) {
        Ok(v) => Ok(v),
        Err(e) => {
            let mut msg = String::from_str("failed to parse integer with radix ");
            push_digits(&mut msg, radix as u64, 10);
            msg.append(": ");
            msg.append(e.as_str());
            proof {
                assert(msg@ =~= "failed to parse integer with radix "@ + digits_of(radix as nat, 10)
                    + ": "@ + e@);
            }
            Err(msg)
        },
    }
}

/// The 64 bits of `n` read as an unsigned number.
pub open spec fn bits64(n: int) -> nat {
    if n >= 0 {
        n as nat
    } else {
        (n + 0x1_0000_0000_0000_0000) as nat
    }
}

/// The low 32 bits of `u`.
pub open spec fn low32(u: nat) -> nat {
    u % 0x1_0000_0000
}

/// 32 bits read as a two's complement number.
pub open spec fn signed32(u: nat) -> int {
    if u < 0x8000_0000 {
        u as int
    } else {
        u - 0x1_0000_0000
    }
}

/// The decimal digits of `v`, with a minus sign in front when it is negative.
pub open spec fn signed_digits(v: int) -> Seq<char> {
    if v < 0 {
        seq!['-'] + digits_of((-v) as nat, 10)
    } else {
        digits_of(v as nat, 10)
    }
}

/// `v` in hexadecimal, with `0x` in front.
pub open spec fn hex_text(v: nat) -> Seq<char> {
    "0x"@ + digits_of(v, 16)
}

/// `v` in binary, in groups of four digits.
pub open spec fn binary_text(v: nat) -> Seq<char> {
    grouped(digits_of(v, 2), 4)
}

/// 64 bits read as a two's complement number.
pub open spec fn signed64(u: nat) -> int {
    if u < 0x8000_0000_0000_0000 {
        u as int
    } else {
        u - 0x1_0000_0000_0000_0000
    }
}

/// The labelled lines that show 32 and 64 bits as integers: one decimal line
/// for each width where the signed and unsigned readings agree, two where they
/// differ; then hexadecimal and binary, once when the 32 bits read as the same
/// number as the 64, for each width otherwise.
pub open spec fn info_lines(u32v: nat, u64v: nat) -> Seq<(Seq<char>, Seq<char>)> {
    let i32v = signed32(u32v);
    let i64v = signed64(u64v);
    let dec32 = if u32v == i32v {
        seq![("Decimal-32"@, digits_of(u32v, 10))]
    } else {
        seq![("Signed-32"@, signed_digits(i32v)), ("Unsigned-32"@, digits_of(u32v, 10))]
    };
    let dec64 = if u64v == i64v {
        seq![("Decimal-64"@, digits_of(u64v, 10))]
    } else {
        seq![("Signed-64"@, signed_digits(i64v)), ("Unsigned-64"@, digits_of(u64v, 10))]
    };
    let radix = if u32v == u64v {
        seq![("Hex"@, hex_text(u32v)), ("Binary"@, binary_text(u32v))]
    } else {
        seq![
            ("Hex-32"@, hex_text(u32v)),
            ("Hex-64"@, hex_text(u64v)),
            ("Binary-32"@, binary_text(u32v)),
            ("Binary-64"@, binary_text(u64v)),
        ]
    };
    dec32 + dec64 + radix
}

/// The lines for the integer `n`: its 64 bits, and the low 32 of them.
pub open spec fn int_info(n: int) -> Seq<(Seq<char>, Seq<char>)> {
    info_lines(low32(bits64(n)), bits64(n))
}

/// One labelled line of output.
pub struct InfoLine {
    pub label: String,
    pub value: String,
}

/// The label and the value of a line.
pub open spec fn line_view(l: InfoLine) -> (Seq<char>, Seq<char>) {
    (l.label@, l.value@)
}

fn decimal(v: u64) -> (r: String)
    ensures
        r@ == digits_of(v as nat, 10),
{
    let mut out = String::new();
    push_digits(&mut out, v, 10);
    out
}

fn signed_decimal(v: i64) -> (r: String)
    ensures
        r@ == signed_digits(v as int),
{
    if v < 0 {
        let magnitude: u64 = if v == i64::MIN {
            0x8000_0000_0000_0000
        } else {
            (-v) as u64
        };
        let mut out = String::from_str("-");
        push_digits(&mut out, magnitude, 10);
        proof {
            reveal_strlit("-");
        }
        out
    } else {
        decimal(v as u64)
    }
}

fn hex(v: u64) -> (r: String)
    ensures
        r@ == hex_text(v as nat),
{
    let mut out = String::from_str("0x");
    push_digits(&mut out, v, 16);
    out
}

fn binary(v: u64) -> (r: String)
    ensures
        r@ == binary_text(v as nat),
{
    let mut digits = String::new();
    push_digits(&mut digits, v, 2);
    group(digits.as_str(), 4)
}

fn info_line(label: &str, value: String) -> (r: InfoLine)
    ensures
        line_view(r) == (label@, value@),
{
    InfoLine { label: String::from_str(label), value }
}

/// The lines that show 32 and 64 bits as integers in decimal, hexadecimal and
/// binary.
pub fn print_info(u32_val: u32, u64_val: u64) -> (r: Vec<InfoLine>)
    ensures
        r@.map_values(|l: InfoLine| line_view(l)) == info_lines(u32_val as nat, u64_val as nat),
{
    let i32_val: i32 = if u32_val < 0x8000_0000 {
        u32_val as i32
    } else {
        (u32_val - 0x8000_0000) as i32 + i32::MIN
    };
    let i64_val: i64 = if u64_val < 0x8000_0000_0000_0000 {
        u64_val as i64
    } else {
        (u64_val - 0x8000_0000_0000_0000) as i64 + i64::MIN
    };
    let mut lines: Vec<InfoLine> = Vec::new();
    if u32_val as i64 == i32_val as i64 {
        lines.push(info_line("Decimal-32", decimal(u32_val as u64)));
    } else {
        lines.push(info_line("Signed-32", signed_decimal(i32_val as i64)));
        lines.push(info_line("Unsigned-32", decimal(u32_val as u64)));
    }
    if u64_val as i128 == i64_val as i128 {
        lines.push(info_line("Decimal-64", decimal(u64_val)));
    } else {
        lines.push(info_line("Signed-64", signed_decimal(i64_val)));
        lines.push(info_line("Unsigned-64", decimal(u64_val)));
    }
    if u32_val as u64 == u64_val {
        lines.push(info_line("Hex", hex(u32_val as u64)));
        lines.push(info_line("Binary", binary(u32_val as u64)));
    } else {
        lines.push(info_line("Hex-32", hex(u32_val as u64)));
        lines.push(info_line("Hex-64", hex(u64_val)));
        lines.push(info_line("Binary-32", binary(u32_val as u64)));
        lines.push(info_line("Binary-64", binary(u64_val)));
    }
    assert(lines@.map_values(|l: InfoLine| line_view(l)) =~= info_lines(
        u32_val as nat,
        u64_val as nat,
    ));
    lines
}

/// The lines that show the integer `n` as 32- and 64-bit integers in decimal,
/// hexadecimal and binary: its 64 bits, and the low 32 of them.
pub fn print_int_info(n: i64) -> (r: Vec<InfoLine>)
    ensures
        r@.map_values(|l: InfoLine| line_view(l)) == int_info(n as int),
{
    let u64_val: u64 = if n >= 0 {
        n as u64
    } else {
        (n + i64::MAX + 1) as u64 + 0x8000_0000_0000_0000
    };
    let u32_val: u32 = (u64_val % 0x1_0000_0000) as u32;
    print_info(u32_val, u64_val)
}

/// Some character of `s` is one of the letters `a` to `f`.
pub open spec fn has_hex_letter(s: Seq<char>) -> bool {
    exists|i: int| 0 <= i < s.len() && 'a' <= #[trigger] s[i] <= 'f'
}

/// The digits and the radix of an integer argument, in lower case: `x` or
/// `0x` in front means hexadecimal when some letter `a` to `f` occurs, `0b`
/// in front means binary, anything else is decimal.
pub open spec fn radix_split(s: Seq<char>) -> (Seq<char>, u32) {
    if has_hex_letter(s) && s.len() >= 1 && s[0] == 'x' {
        (s.drop_first(), 16)
    } else if has_hex_letter(s) && s.len() >= 2 && s[0] == '0' && s[1] == 'x' {
        (s.subrange(2, s.len() as int), 16)
    } else if s.len() >= 2 && s[0] == '0' && s[1] == 'b' {
        (s.subrange(2, s.len() as int), 2)
    } else {
        (s, 10)
    }
}

/// Splits an integer argument, in lower case, into its digits and its radix.
pub fn split_radix(input: &str) -> (r: (&str, u32))
    ensures
        (r.0@, r.1) == radix_split(input@),
{
    let len = input.unicode_len();
    let mut hex_letter = false;
    let mut i: usize = 0;
    while i < len
        invariant
            len == input@.len(),
            i <= len,
            hex_letter == exists|j: int| 0 <= j < i && 'a' <= #[trigger] input@[j] <= 'f',
        decreases len - i,
    {
        let c = input.get_char(i);
        if 'a' <= c && c <= 'f' {
            hex_letter = true;
        }
        i = i + 1;
    }
    let first = if len >= 1 {
        input.get_char(0)
    } else {
        ' '
    };
    let second = if len >= 2 {
        input.get_char(1)
    } else {
        ' '
    };
    if hex_letter && len >= 1 && first == 'x' {
        (input.substring_char(1, len), 16)
    } else if hex_letter && len >= 2 && first == '0' && second == 'x' {
        (input.substring_char(2, len), 16)
    } else if len >= 2 && first == '0' && second == 'b' {
        (input.substring_char(2, len), 2)
    } else {
        (input, 10)
    }
}

} // verus!
