//! Number formatting for status lines and reports.
use vstd::prelude::*;

verus! {

/// The character of a decimal or upper-case hexadecimal digit.
pub open spec fn digit(value: int) -> char {
    if value == 0 {
        '0'
    } else if value == 1 {
        '1'
    } else if value == 2 {
        '2'
    } else if value == 3 {
        '3'
    } else if value == 4 {
        '4'
    } else if value == 5 {
        '5'
    } else if value == 6 {
        '6'
    } else if value == 7 {
        '7'
    } else if value == 8 {
        '8'
    } else if value == 9 {
        '9'
    } else if value == 10 {
        'A'
    } else if value == 11 {
        'B'
    } else if value == 12 {
        'C'
    } else if value == 13 {
        'D'
    } else if value == 14 {
        'E'
    } else {
        'F'
    }
}

/// Decimal notation without leading zeros.
pub open spec fn decimal(value: nat) -> Seq<char>
    decreases value,
{
    if value < 10 {
        seq![digit(value as int)]
    } else {
        decimal(value / 10).push(digit((value % 10) as int))
    }
}

/// Decimal notation that always carries a sign.
pub open spec fn signed_decimal(value: int) -> Seq<char> {
    if value < 0 {
        seq!['-'] + decimal((-value) as nat)
    } else {
        seq!['+'] + decimal(value as nat)
    }
}

/// Four upper-case hexadecimal digits.
pub open spec fn hex4(value: u16) -> Seq<char> {
    seq![
        digit(value as int / 4096),
        digit(value as int / 256 % 16),
        digit(value as int / 16 % 16),
        digit(value as int % 16),
    ]
}

fn digit_str(value: u16) -> (text: &'static str)
    requires
        value < 16,
    ensures
        text@ == seq![digit(value as int)],
{
    proof {
        reveal_strlit("0");
        reveal_strlit("1");
        reveal_strlit("2");
        reveal_strlit("3");
        reveal_strlit("4");
        reveal_strlit("5");
        reveal_strlit("6");
        reveal_strlit("7");
        reveal_strlit("8");
        reveal_strlit("9");
        reveal_strlit("A");
        reveal_strlit("B");
        reveal_strlit("C");
        reveal_strlit("D");
        reveal_strlit("E");
        reveal_strlit("F");
    }
    match value {
        0 => "0",
        1 => "1",
        2 => "2",
        3 => "3",
        4 => "4",
        5 => "5",
        6 => "6",
        7 => "7",
        8 => "8",
        9 => "9",
        10 => "A",
        11 => "B",
        12 => "C",
        13 => "D",
        14 => "E",
        _ => "F",
    }
}

/// Appends `value` in decimal.
pub fn push_decimal(out: &mut String, value: u64)
    ensures
        final(out)@ == old(out)@ + decimal(value as nat),
    decreases value,
{
    if value >= 10 {
        push_decimal(out, value / 10);
    }
    out.append(digit_str((value % 10) as u16));
}

/// Appends `value` in decimal with its sign.
pub fn push_signed(out: &mut String, value: i64)
    ensures
        final(out)@ == old(out)@ + signed_decimal(value as int),
{
    proof {
        reveal_strlit("-");
        reveal_strlit("+");
    }
    if value < 0 {
        out.append("-");
        let magnitude: u64 = (-(value + 1)) as u64 + 1;
        push_decimal(out, magnitude);
    } else {
        out.append("+");
        push_decimal(out, value as u64);
    }
}

/// Appends `value` as four upper-case hexadecimal digits.
pub fn push_hex4(out: &mut String, value: u16)
    ensures
        final(out)@ == old(out)@ + hex4(value),
{
    out.append(digit_str(value / 4096));
    out.append(digit_str(value / 256 % 16));
    out.append(digit_str(value / 16 % 16));
    out.append(digit_str(value % 16));
}

/// The number that decimal digits stand for.
pub open spec fn number(digits: Seq<char>) -> int
    decreases digits.len(),
{
    if digits.len() == 0 {
        0
    } else {
        10 * number(digits.drop_last()) + (digits.last() as int - '0' as int)
    }
}

/// The value of a hexadecimal digit.
pub open spec fn hex_value(c: char) -> int {
    if '0' <= c <= '9' {
        c as int - '0' as int
    } else {
        c as int - 'A' as int + 10
    }
}

/// Decimal notation reads back as the value, is made of digits only and has no
/// leading zero.
pub proof fn law_decimal_reads_back(value: nat)
    ensures
        number(decimal(value)) == value,
        decimal(value).len() > 0,
        decimal(value)[0] == '0' ==> value == 0 && decimal(value).len() == 1,
        forall|i: int| 0 <= i < decimal(value).len() ==> '0' <= #[trigger] decimal(value)[i] <= '9',
    decreases value,
{
    reveal_with_fuel(number, 2);
    if value < 10 {
        assert(decimal(value).drop_last() =~= Seq::empty());
    } else {
        let before = decimal(value / 10);
        law_decimal_reads_back(value / 10);
        assert(decimal(value).drop_last() =~= before);
        assert(decimal(value)[0] == before[0]);
    }
}

/// Signed notation starts with the sign, and what follows is the magnitude.
pub proof fn law_signed_decimal_reads_back(value: int)
    ensures
        signed_decimal(value).len() > 1,
        signed_decimal(value)[0] == if value < 0 {
            '-'
        } else {
            '+'
        },
        number(signed_decimal(value).skip(1)) == if value < 0 {
            -value
        } else {
            value
        },
        signed_decimal(value).skip(1) == decimal(
            (if value < 0 {
                -value
            } else {
                value
            }) as nat,
        ),
{
    let magnitude = (if value < 0 {
        -value
    } else {
        value
    }) as nat;
    law_decimal_reads_back(magnitude);
    assert(signed_decimal(value).skip(1) =~= decimal(magnitude));
}

/// Hexadecimal notation has four upper-case digits and reads back as the value.
pub proof fn law_hex_reads_back(value: u16)
    ensures
        hex4(value).len() == 4,
        4096 * hex_value(hex4(value)[0]) + 256 * hex_value(hex4(value)[1]) + 16 * hex_value(
            hex4(value)[2],
        ) + hex_value(hex4(value)[3]) == value,
        forall|i: int|
            0 <= i < 4 ==> '0' <= #[trigger] hex4(value)[i] <= '9' || 'A' <= hex4(value)[i] <= 'F',
{
    let v = value as int;
    lemma_hex_digit(v / 4096);
    lemma_hex_digit(v / 256 % 16);
    lemma_hex_digit(v / 16 % 16);
    lemma_hex_digit(v % 16);
}

proof fn lemma_hex_digit(value: int)
    requires
        0 <= value < 16,
    ensures
        hex_value(digit(value)) == value,
        '0' <= digit(value) <= '9' || 'A' <= digit(value) <= 'F',
{
}

} // verus!
