//! Names of the output files: slice `i` is written to `temp/<i>.png`, where
//! `<i>` is the index in decimal, counted from zero.

use vstd::prelude::*;
use vstd::string::StringExecFns;

verus! {

/// The character that writes a digit.
pub open spec fn digit_char(d: nat) -> char {
    if d == 0 {
        '0'
    } else if d == 1 {
        '1'
    } else if d == 2 {
        '2'
    } else if d == 3 {
        '3'
    } else if d == 4 {
        '4'
    } else if d == 5 {
        '5'
    } else if d == 6 {
        '6'
    } else if d == 7 {
        '7'
    } else if d == 8 {
        '8'
    } else {
        '9'
    }
}

/// The digit that a character writes; characters that are no digit count as zero.
pub open spec fn digit_value(c: char) -> nat {
    if c == '1' {
        1
    } else if c == '2' {
        2
    } else if c == '3' {
        3
    } else if c == '4' {
        4
    } else if c == '5' {
        5
    } else if c == '6' {
        6
    } else if c == '7' {
        7
    } else if c == '8' {
        8
    } else if c == '9' {
        9
    } else {
        0
    }
}

/// Decimal notation of `n`, most significant digit first, without leading zeros.
pub open spec fn decimal(n: nat) -> Seq<char>
    decreases n,
{
    if n < 10 {
        seq![digit_char(n)]
    } else {
        decimal(n / 10).push(digit_char(n % 10))
    }
}

/// The number that a digit string denotes.
pub open spec fn decimal_value(s: Seq<char>) -> nat
    decreases s.len(),
{
    if s.len() == 0 {
        0
    } else {
        10 * decimal_value(s.drop_last()) + digit_value(s.last())
    }
}

/// The directory that holds every slice, with its separator.
pub open spec fn slice_dir() -> Seq<char> {
    seq!['t', 'e', 'm', 'p', '/']
}

/// The extension of a slice file.
pub open spec fn slice_ext() -> Seq<char> {
    seq!['.', 'p', 'n', 'g']
}

/// Path of the file that slice `index` is written to.
pub open spec fn path_of_slice(index: nat) -> Seq<char> {
    slice_dir() + decimal(index) + slice_ext()
}

/// The one-character string of a digit.
fn digit_str(d: usize) -> (s: &'static str)
    requires
        d < 10,
    ensures
        s@ == seq![digit_char(d as nat)],
{
    proof {
        reveal_strlit("0");
        reveal_strlit("1");
        reveal_strlit("2");
        reveal_strlit("3");
        reveal_strlit("4");
        reveal_strlit("5");
        reveal_strlit("6");
        reveal_strlit("7");
        reveal_strlit("8");
        reveal_strlit("9");
    }
    let s = if d == 0 {
        "0"
    } else if d == 1 {
        "1"
    } else if d == 2 {
        "2"
    } else if d == 3 {
        "3"
    } else if d == 4 {
        "4"
    } else if d == 5 {
        "5"
    } else if d == 6 {
        "6"
    } else if d == 7 {
        "7"
    } else if d == 8 {
        "8"
    } else {
        "9"
    };
    assert(s@ =~= seq![digit_char(d as nat)]);
    s
}

/// Appends the decimal notation of `n` to `text`.
pub fn push_decimal(text: &mut String, n: usize)
    ensures
        final(text)@ == old(text)@ + decimal(n as nat),
    decreases n,
{
    if n >= 10 {
        push_decimal(text, n / 10);
    }
    text.append(digit_str(n % 10));
    assert(text@ =~= old(text)@ + decimal(n as nat));
}

/// Path of the file that slice `index` is written to: `temp/<index>.png`.
pub fn slice_path(index: usize) -> (path: String)
    ensures
        path@ == path_of_slice(index as nat),
{
    let mut path = String::from_str("temp/");
    push_decimal(&mut path, index);
    path.append(".png");
    proof {
        reveal_strlit("temp/");
        reveal_strlit(".png");
    }
    assert(path@ =~= path_of_slice(index as nat));
    path
}

/// Reading back the decimal notation of a number gives that number, and the
/// notation is never empty.
pub proof fn lemma_decimal_round_trip(n: nat)
    ensures
        decimal_value(decimal(n)) == n,
        decimal(n).len() >= 1,
    decreases n,
{
    let s = decimal(n);
    if n < 10 {
        assert(s.drop_last() =~= Seq::<char>::empty());
        assert(s.last() == digit_char(n));
        reveal_with_fuel(decimal_value, 2);
    } else {
        lemma_decimal_round_trip(n / 10);
        assert(s.drop_last() =~= decimal(n / 10));
        assert(s.last() == digit_char(n % 10));
    }
}

/// Two numbers with the same decimal notation are the same number.
pub proof fn lemma_decimal_injective(a: nat, b: nat)
    requires
        decimal(a) == decimal(b),
    ensures
        a == b,
{
    lemma_decimal_round_trip(a);
    lemma_decimal_round_trip(b);
}

/// Two slices are written to the same file only if they are the same slice:
/// no two tasks of a run ever write to one path.
pub proof fn lemma_slice_paths_distinct(i: nat, j: nat)
    ensures
        path_of_slice(i) == path_of_slice(j) <==> i == j,
{
    let a = path_of_slice(i);
    let b = path_of_slice(j);
    if a == b {
        assert(decimal(i) =~= a.subrange(5, a.len() - 4));
        assert(decimal(j) =~= b.subrange(5, b.len() - 4));
        lemma_decimal_injective(i, j);
    }
}

} // verus!
