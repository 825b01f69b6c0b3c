//! Output file names: `<prefix>-<timestamp>.pb`, with the timestamp written in
//! decimal. Distinct timestamps give distinct names under one prefix.

use vstd::prelude::*;
use vstd::string::*;

verus! {

/// The character of a decimal digit `d < 10`.
pub open spec fn digit_char(d: nat) -> char {
    if d == 0 {
        '0'
    } else if d == 1 {
        '1'
    } else if d == 2 {
        '2'
    } else if d == 3 {
        '3'
    } else if d == 4 {
        '4'
    } else if d == 5 {
        '5'
    } else if d == 6 {
        '6'
    } else if d == 7 {
        '7'
    } else if d == 8 {
        '8'
    } else {
        '9'
    }
}

/// The decimal digits of `n`, most significant first, without leading zeros.
pub open spec fn decimal(n: nat) -> Seq<char>
    decreases n,
{
    if n < 10 {
        seq![digit_char(n)]
    } else {
        decimal(n / 10).push(digit_char(n % 10))
    }
}

/// The extension of every output file.
pub open spec fn extension() -> Seq<char> {
    seq!['.', 'p', 'b']
}

/// The name of the file written for a tick stamped `stamp`.
pub open spec fn file_name_of(prefix: Seq<char>, stamp: nat) -> Seq<char> {
    prefix + seq!['-'] + decimal(stamp) + extension()
}

proof fn lemma_digit_char_injective(a: nat, b: nat)
    requires
        a < 10,
        b < 10,
        digit_char(a) == digit_char(b),
    ensures
        a == b,
{
}

proof fn lemma_decimal_len(n: nat)
    ensures
        decimal(n).len() >= 1,
        n >= 10 ==> decimal(n).len() >= 2,
    decreases n,
{
    if n >= 10 {
        lemma_decimal_len(n / 10);
    }
}

/// Distinct numbers have distinct decimal forms.
pub proof fn lemma_decimal_injective(a: nat, b: nat)
    requires
        decimal(a) == decimal(b),
    ensures
        a == b,
    decreases a,
{
    lemma_decimal_len(a);
    lemma_decimal_len(b);
    if a < 10 && b < 10 {
        assert(decimal(a)[0] == digit_char(a));
        assert(decimal(b)[0] == digit_char(b));
        lemma_digit_char_injective(a, b);
    } else if a >= 10 && b >= 10 {
        let da = decimal(a);
        let db = decimal(b);
        assert(da.last() == digit_char(a % 10));
        assert(db.last() == digit_char(b % 10));
        lemma_digit_char_injective(a % 10, b % 10);
        assert(da.drop_last() =~= decimal(a / 10));
        assert(db.drop_last() =~= decimal(b / 10));
        lemma_decimal_injective(a / 10, b / 10);
        assert(a == 10 * (a / 10) + a % 10);
        assert(b == 10 * (b / 10) + b % 10);
    } else {
        lemma_decimal_len(a / 10);
        lemma_decimal_len(b / 10);
        assert(decimal(a).len() != decimal(b).len());
    }
}

/// Under one prefix, two ticks with distinct stamps never write the same file.
pub proof fn lemma_file_name_injective(prefix: Seq<char>, a: nat, b: nat)
    requires
        file_name_of(prefix, a) == file_name_of(prefix, b),
    ensures
        a == b,
{
    let na = file_name_of(prefix, a);
    let nb = file_name_of(prefix, b);
    let start: int = prefix.len() as int + 1;
    assert(decimal(a).len() == decimal(b).len()) by {
        assert(na.len() == prefix.len() + 1 + decimal(a).len() + 3);
        assert(nb.len() == prefix.len() + 1 + decimal(b).len() + 3);
    }
    assert(na.subrange(start, start + decimal(a).len() as int) =~= decimal(a));
    assert(nb.subrange(start, start + decimal(b).len() as int) =~= decimal(b));
    lemma_decimal_injective(a, b);
}

fn digit_str(d: u64) -> (r: &'static str)
    requires
        d < 10,
    ensures
        r@ == seq![digit_char(d as nat)],
{
    proof {
        reveal_strlit("0");
        reveal_strlit("1");
        reveal_strlit("2");
        reveal_strlit("3");
        reveal_strlit("4");
        reveal_strlit("5");
        reveal_strlit("6");
        reveal_strlit("7");
        reveal_strlit("8");
        reveal_strlit("9");
    }
    if d == 0 {
        "0"
    } else if d == 1 {
        "1"
    } else if d == 2 {
        "2"
    } else if d == 3 {
        "3"
    } else if d == 4 {
        "4"
    } else if d == 5 {
        "5"
    } else if d == 6 {
        "6"
    } else if d == 7 {
        "7"
    } else if d == 8 {
        "8"
    } else {
        "9"
    }
}

/// Writes `n` in decimal.
pub fn decimal_string(n: u64) -> (r: String)
    ensures
        r@ == decimal(n as nat),
    decreases n,
{
    if n < 10 {
        digit_str(n).to_owned()
    } else {
        let mut s = decimal_string(n / 10);
        s.append(digit_str(n % 10));
        s
    }
}

/// The name of the file written for a tick stamped `stamp`.
pub fn file_name(prefix: &str, stamp: u64) -> (r: String)
    ensures
        r@ == file_name_of(prefix@, stamp as nat),
{
    let digits = decimal_string(stamp);
    let mut r = prefix.to_owned();
    proof {
        reveal_strlit("-");
        reveal_strlit(".pb");
    }
    r.append("-");
    r.append(digits.as_str());
    r.append(".pb");
    assert(r@ =~= file_name_of(prefix@, stamp as nat));
    r
}

} // verus!
