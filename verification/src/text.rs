//! Building blocks of the rendered text: decimal numbers and runs of one
//! character.

use vstd::prelude::*;

verus! {

/// The character that writes the decimal digit `value`.
pub open spec fn digit(value: nat) -> char
    recommends
        value < 10,
{
    ('0' as nat + value) as char
}

/// The decimal numeral of `number`, without leading zeros.
pub open spec fn decimal(number: nat) -> Seq<char>
    decreases number,
{
    if number < 10 {
        seq![digit(number)]
    } else {
        decimal(number / 10).push(digit(number % 10))
    }
}

/// `length` copies of `c`.
pub open spec fn run(c: char, length: nat) -> Seq<char> {
    Seq::new(length, |i: int| c)
}

/// Two runs of one character, one after the other, are one run.
pub proof fn lemma_run_concat(c: char, first: nat, second: nat)
    ensures
        run(c, first) + run(c, second) == run(c, first + second),
{
    assert(run(c, first) + run(c, second) =~= run(c, first + second));
}

/// A numeral has at least one digit, and only digits.
pub proof fn lemma_decimal_digits(number: nat)
    ensures
        decimal(number).len() >= 1,
        forall|i: int| 0 <= i < decimal(number).len() ==> '0' <= #[trigger] decimal(number)[i] <= '9',
    decreases number,
{
    if number >= 10 {
        lemma_decimal_digits(number / 10);
    }
}

/// The one-character text that writes the decimal digit `value`.
pub fn digit_text(value: usize) -> (text: &'static str)
    requires
        value < 10,
    ensures
        text@ == seq![digit(value as nat)],
{
    proof {
        reveal_strlit("0");
        reveal_strlit("1");
        reveal_strlit("2");
        reveal_strlit("3");
        reveal_strlit("4");
        reveal_strlit("5");
        reveal_strlit("6");
        reveal_strlit("7");
        reveal_strlit("8");
        reveal_strlit("9");
    }
    let text = if value == 0 {
        "0"
    } else if value == 1 {
        "1"
    } else if value == 2 {
        "2"
    } else if value == 3 {
        "3"
    } else if value == 4 {
        "4"
    } else if value == 5 {
        "5"
    } else if value == 6 {
        "6"
    } else if value == 7 {
        "7"
    } else if value == 8 {
        "8"
    } else {
        "9"
    };
    assert(text@ =~= seq![digit(value as nat)]);
    text
}

/// Appends the decimal numeral of `number` to `out`.
pub fn push_decimal(out: &mut String, number: usize)
    ensures
        final(out)@ == old(out)@ + decimal(number as nat),
    decreases number,
{
    if number >= 10 {
        push_decimal(out, number / 10);
    }
    out.append(digit_text(number % 10));
    proof {
        if number >= 10 {
            assert(old(out)@ + decimal((number / 10) as nat) + seq![digit((number % 10) as nat)]
                =~= old(out)@ + decimal((number / 10) as nat).push(digit((number % 10) as nat)));
        }
    }
}

/// Appends `length` spaces to `out`.
pub fn push_spaces(out: &mut String, length: usize)
    ensures
        final(out)@ == old(out)@ + run(' ', length as nat),
{
    proof {
        reveal_strlit(" ");
    }
    let mut done: usize = 0;
    assert(out@ =~= old(out)@ + run(' ', 0));
    while done < length
        invariant
            done <= length,
            out@ == old(out)@ + run(' ', done as nat),
            " "@ == seq![' '],
        decreases length - done,
    {
        out.append(" ");
        done += 1;
        assert(out@ =~= old(out)@ + run(' ', done as nat));
    }
}

/// Appends `length` carets to `out`.
pub fn push_carets(out: &mut String, length: usize)
    ensures
        final(out)@ == old(out)@ + run('^', length as nat),
{
    proof {
        reveal_strlit("^");
    }
    let mut done: usize = 0;
    assert(out@ =~= old(out)@ + run('^', 0));
    while done < length
        invariant
            done <= length,
            out@ == old(out)@ + run('^', done as nat),
            "^"@ == seq!['^'],
        decreases length - done,
    {
        out.append("^");
        done += 1;
        assert(out@ =~= old(out)@ + run('^', done as nat));
    }
}

} // verus!
