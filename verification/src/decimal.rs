//! Numbers in decimal.
use vstd::prelude::*;

verus! {

/// A decimal digit.
pub open spec fn digit(d: nat) -> char {
    ('0' as u32 + d) as char
}

/// A number in decimal, without leading zeros.
pub open spec fn decimal(n: nat) -> Seq<char>
    decreases n,
{
    if n < 10 {
        seq![digit(n)]
    } else {
        decimal(n / 10).push(digit(n % 10))
    }
}

/// Writes a number in decimal.
pub fn write_decimal(n: u64) -> (text: String)
    ensures
        text@ == decimal(n as nat),
    decreases n,
{
    let mut text = if n < 10 {
        String::new()
    } else {
        write_decimal(n / 10)
    };
    let ghost before = text@;
    let last: &str = match n % 10 {
        0 => "0",
        1 => "1",
        2 => "2",
        3 => "3",
        4 => "4",
        5 => "5",
        6 => "6",
        7 => "7",
        8 => "8",
        _ => "9",
    };
    assert(last@ =~= seq![digit((n % 10) as nat)]) by {
        reveal_strlit("0");
        reveal_strlit("1");
        reveal_strlit("2");
        reveal_strlit("3");
        reveal_strlit("4");
        reveal_strlit("5");
        reveal_strlit("6");
        reveal_strlit("7");
        reveal_strlit("8");
        reveal_strlit("9");
    }
    text.append(last);
    assert(text@ =~= decimal(n as nat));
    text
}

/// The number that decimal digits spell.
pub open spec fn spelled(text: Seq<char>) -> int
    decreases text.len(),
{
    if text.len() == 0 {
        0
    } else {
        10 * spelled(text.drop_last()) + (text.last() as u32 - '0' as u32)
    }
}

/// The decimal text of a number is made of digits, without a zero in front of others, and
/// spells that number.
pub proof fn law_decimal_spells_the_number(n: nat)
    ensures
        spelled(decimal(n)) == n,
        decimal(n).len() > 0,
        decimal(n).len() > 1 ==> decimal(n)[0] != '0',
        forall|i: int| 0 <= i < decimal(n).len() ==> '0' <= #[trigger] decimal(n)[i] <= '9',
    decreases n,
{
    let text = decimal(n);
    reveal_with_fuel(spelled, 2);
    if n < 10 {
        assert(text.drop_last() =~= Seq::empty());
        assert(text.last() as u32 == '0' as u32 + n);
    } else {
        law_decimal_spells_the_number(n / 10);
        assert(text.drop_last() =~= decimal(n / 10));
        assert(text.last() as u32 == '0' as u32 + n % 10);
        if n / 10 < 10 {
            assert(decimal(n / 10)[0] as u32 == '0' as u32 + n / 10);
        } else {
            law_decimal_spells_the_number(n / 100);
            assert(decimal(n / 10).len() > 1) by {
                assert((n / 10) / 10 == n / 100);
            }
        }
        assert(text[0] == decimal(n / 10)[0]);
    }
}

} // verus!
