//! How a unit basis blade is written: one symbol for each of its basis vectors, in
//! ascending order.

use vstd::prelude::*;
use vstd::string::StringExecFns;
use crate::dimension::has_vector;

verus! {

/// The character of a decimal digit.
pub open spec fn digit(d: nat) -> char {
    if d == 0 {
        '0'
    } else if d == 1 {
        '1'
    } else if d == 2 {
        '2'
    } else if d == 3 {
        '3'
    } else if d == 4 {
        '4'
    } else if d == 5 {
        '5'
    } else if d == 6 {
        '6'
    } else if d == 7 {
        '7'
    } else if d == 8 {
        '8'
    } else {
        '9'
    }
}

/// The decimal numeral of `n`, without leading zeros.
pub open spec fn decimal(n: nat) -> Seq<char>
    decreases n,
{
    if n < 10 {
        seq![digit(n)]
    } else {
        decimal(n / 10).push(digit(n % 10))
    }
}

/// The symbol of the basis vector with the given number, counted from 1.
pub open spec fn symbol(number: nat) -> Seq<char> {
    "\\boldsymbol{e}_"@ + decimal(number)
}

/// The symbols of the basis vectors of a blade that lie below position `n`, in ascending
/// order.
pub open spec fn symbols_below(bitset: u64, n: nat) -> Seq<char>
    decreases n,
{
    if n == 0 {
        Seq::empty()
    } else {
        symbols_below(bitset, (n - 1) as nat) + if has_vector(bitset, (n - 1) as nat) {
            symbol(n)
        } else {
            Seq::empty()
        }
    }
}

/// Beyond the width of an encoding there is nothing left to write.
pub proof fn lemma_symbols_beyond(bitset: u64, n: nat)
    requires
        n >= 64,
    ensures
        symbols_below(bitset, n) == symbols_below(bitset, 64),
    decreases n,
{
    if n > 64 {
        lemma_symbols_beyond(bitset, (n - 1) as nat);
        assert(symbols_below(bitset, n) =~= symbols_below(bitset, (n - 1) as nat));
    }
}

/// The text of one decimal digit.
fn digit_text(d: usize) -> (text: &'static str)
    requires
        d < 10,
    ensures
        text@ == seq![digit(d as nat)],
{
    proof {
        reveal_strlit("0");
        reveal_strlit("1");
        reveal_strlit("2");
        reveal_strlit("3");
        reveal_strlit("4");
        reveal_strlit("5");
        reveal_strlit("6");
        reveal_strlit("7");
        reveal_strlit("8");
        reveal_strlit("9");
    }
    let text = if d == 0 {
        "0"
    } else if d == 1 {
        "1"
    } else if d == 2 {
        "2"
    } else if d == 3 {
        "3"
    } else if d == 4 {
        "4"
    } else if d == 5 {
        "5"
    } else if d == 6 {
        "6"
    } else if d == 7 {
        "7"
    } else if d == 8 {
        "8"
    } else {
        "9"
    };
    assert(text@ =~= seq![digit(d as nat)]);
    text
}

/// Writes `n` as a decimal numeral.
pub fn decimal_text(n: usize) -> (text: String)
    ensures
        text@ == decimal(n as nat),
    decreases n,
{
    if n < 10 {
        String::from_str(digit_text(n))
    } else {
        let text = decimal_text(n / 10).concat(digit_text(n % 10));
        assert(text@ =~= decimal(n as nat));
        text
    }
}

/// Writes the symbols of the basis vectors of a blade of a space of `n` dimensions.
pub fn symbols(bitset: u64, n: usize) -> (text: String)
    ensures
        text@ == symbols_below(bitset, n as nat),
{
    let width: usize = if n < 64 {
        n
    } else {
        64
    };
    let mut text = String::new();
    let mut i: usize = 0;
    while i < width
        invariant
            i <= width <= 64,
            text@ == symbols_below(bitset, i as nat),
        decreases width - i,
    {
        if (bitset >> i) & 1 == 1 {
            text.append("\\boldsymbol{e}_");
            let number = decimal_text(i + 1);
            text.append(number.as_str());
        }
        i = i + 1;
        assert(text@ =~= symbols_below(bitset, i as nat));
    }
    proof {
        if n >= 64 {
            lemma_symbols_beyond(bitset, n as nat);
        }
    }
    text
}

} // verus!
