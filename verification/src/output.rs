//! What is written for a batch: the name of its file and the text in it.

use vstd::prelude::*;
use vstd::string::StringExecFns;
use crate::batch::{Batch, text_of};

verus! {

/// The character that stands for a digit.
pub open spec fn digit_char(digit: nat) -> char
    recommends
        digit < 10,
{
    if digit == 0 {
        '0'
    } else if digit == 1 {
        '1'
    } else if digit == 2 {
        '2'
    } else if digit == 3 {
        '3'
    } else if digit == 4 {
        '4'
    } else if digit == 5 {
        '5'
    } else if digit == 6 {
        '6'
    } else if digit == 7 {
        '7'
    } else if digit == 8 {
        '8'
    } else {
        '9'
    }
}

/// A number in decimal digits, with no leading zero but for zero itself.
pub open spec fn decimal(n: nat) -> Seq<char>
    decreases n,
{
    if n < 10 {
        seq![digit_char(n)]
    } else {
        decimal(n / 10).push(digit_char(n % 10))
    }
}

/// The name of the file of the batch at position `index`.
pub open spec fn spec_batch_file_name(index: nat) -> Seq<char> {
    "batch_"@ + decimal(index) + ".txt"@
}

/// Lines with a line break between each two, and none after the last.
pub open spec fn joined_by_breaks(lines: Seq<Seq<char>>) -> Seq<char>
    decreases lines.len(),
{
    if lines.len() == 0 {
        Seq::empty()
    } else if lines.len() == 1 {
        lines[0]
    } else {
        joined_by_breaks(lines.drop_last()) + seq!['\n'] + lines.last()
    }
}

/// One digit as text.
fn digit_text(digit: usize) -> (text: &'static str)
    requires
        digit < 10,
    ensures
        text@ == seq![digit_char(digit as nat)],
{
    proof {
        reveal_strlit("0");
        reveal_strlit("1");
        reveal_strlit("2");
        reveal_strlit("3");
        reveal_strlit("4");
        reveal_strlit("5");
        reveal_strlit("6");
        reveal_strlit("7");
        reveal_strlit("8");
        reveal_strlit("9");
    }
    let text = if digit == 0 {
        "0"
    } else if digit == 1 {
        "1"
    } else if digit == 2 {
        "2"
    } else if digit == 3 {
        "3"
    } else if digit == 4 {
        "4"
    } else if digit == 5 {
        "5"
    } else if digit == 6 {
        "6"
    } else if digit == 7 {
        "7"
    } else if digit == 8 {
        "8"
    } else {
        "9"
    };
    assert(text@ =~= seq![digit_char(digit as nat)]);
    text
}

/// A number as text, in decimal digits.
fn decimal_text(n: usize) -> (text: String)
    ensures
        text@ == decimal(n as nat),
    decreases n,
{
    if n < 10 {
        String::from_str(digit_text(n))
    } else {
        let mut text = decimal_text(n / 10);
        let ghost front = text@;
        text.append(digit_text(n % 10));
        assert(text@ =~= front.push(digit_char((n % 10) as nat)));
        text
    }
}

/// The name of the file of the batch at position `index`, counted from 0:
/// `batch_`, the position in decimal, and `.txt`.
pub fn batch_file_name(index: usize) -> (name: String)
    ensures
        name@ == spec_batch_file_name(index as nat),
{
    let mut name = String::from_str("batch_");
    let digits = decimal_text(index);
    name.append(digits.as_str());
    name.append(".txt");
    name
}

/// The text written for a batch: its lines in order, with a line break
/// between each two and none after the last.
pub fn batch_content(batch: &Batch) -> (content: String)
    ensures
        content@ == joined_by_breaks(batch@),
{
    let lines = batch.lines();
    let mut content = String::new();
    let mut i: usize = 0;
    while i < lines.len()
        invariant
            i <= lines.len(),
            text_of(lines@) == batch@,
            content@ == joined_by_breaks(batch@.take(i as int)),
        decreases lines.len() - i,
    {
        let ghost before = content@;
        if i > 0 {
            content.append("\n");
        }
        content.append(lines[i].as_str());
        proof {
            reveal_strlit("\n");
            assert("\n"@ =~= seq!['\n']);
            assert(batch@.take(i + 1).drop_last() =~= batch@.take(i as int));
            assert(batch@.take(i + 1).last() == lines@[i as int]@);
            if i == 0 {
                assert(content@ =~= batch@.take(i + 1)[0]);
            }
        }
        i = i + 1;
    }
    assert(batch@.take(i as int) =~= batch@);
    content
}

} // verus!
