//! Decimal rendering of machine words, and joining the renderings with a
//! separator: the specification and the verified string builders behind
//! the container's stringify operation.

use vstd::prelude::*;
use vstd::string::StringExecFns;

verus! {

/// The character that renders a single decimal digit.
pub open spec fn digit_char(d: nat) -> char {
    if d == 0 {
        '0'
    } else if d == 1 {
        '1'
    } else if d == 2 {
        '2'
    } else if d == 3 {
        '3'
    } else if d == 4 {
        '4'
    } else if d == 5 {
        '5'
    } else if d == 6 {
        '6'
    } else if d == 7 {
        '7'
    } else if d == 8 {
        '8'
    } else {
        '9'
    }
}

/// The decimal rendering of a number: most significant digit first,
/// without a sign and without leading zeros (`0` renders as `"0"`).
pub open spec fn dec_rep(n: nat) -> Seq<char>
    decreases n,
{
    if n < 10 {
        seq![digit_char(n)]
    } else {
        dec_rep(n / 10).push(digit_char(n % 10))
    }
}

/// The decimal renderings of a sequence of words, joined by `sep`:
/// empty input yields the empty string, and `sep` stands only between
/// neighbouring renderings.
pub open spec fn join_dec(words: Seq<u64>, sep: Seq<char>) -> Seq<char>
    decreases words.len(),
{
    if words.len() == 0 {
        Seq::empty()
    } else if words.len() == 1 {
        dec_rep(words[0] as nat)
    } else {
        join_dec(words.drop_last(), sep) + sep + dec_rep(words.last() as nat)
    }
}

/// How one more word extends a join: the first rendering stands alone,
/// every later one arrives behind a separator.
pub proof fn lemma_join_dec_step(words: Seq<u64>, sep: Seq<char>, i: int)
    requires
        0 <= i < words.len(),
    ensures
        join_dec(words.take(i + 1), sep) == if i == 0 {
            dec_rep(words[0] as nat)
        } else {
            join_dec(words.take(i), sep) + sep + dec_rep(words[i] as nat)
        },
{
    let t = words.take(i + 1);
    if i == 0 {
        assert(t.len() == 1);
        assert(t[0] == words[0]);
    } else {
        assert(t.drop_last() =~= words.take(i));
        assert(t.last() == words[i]);
    }
}

/// Appends the character of one decimal digit to `s`.
fn append_digit(s: &mut String, d: u64)
    requires
        d < 10,
    ensures
        final(s)@ == old(s)@ + seq![digit_char(d as nat)],
{
    let t: &str = if d == 0 {
        "0"
    } else if d == 1 {
        "1"
    } else if d == 2 {
        "2"
    } else if d == 3 {
        "3"
    } else if d == 4 {
        "4"
    } else if d == 5 {
        "5"
    } else if d == 6 {
        "6"
    } else if d == 7 {
        "7"
    } else if d == 8 {
        "8"
    } else {
        "9"
    };
    proof {
        reveal_strlit("0");
        reveal_strlit("1");
        reveal_strlit("2");
        reveal_strlit("3");
        reveal_strlit("4");
        reveal_strlit("5");
        reveal_strlit("6");
        reveal_strlit("7");
        reveal_strlit("8");
        reveal_strlit("9");
        assert(t@ =~= seq![digit_char(d as nat)]);
    }
    s.append(t);
}

/// Appends the decimal rendering of `n` to `s`.
pub fn append_dec(s: &mut String, n: u64)
    ensures
        final(s)@ == old(s)@ + dec_rep(n as nat),
    decreases n,
{
    if n >= 10 {
        append_dec(s, n / 10);
    }
    append_digit(s, n % 10);
    proof {
        assert(s@ =~= old(s)@ + dec_rep(n as nat));
    }
}

} // verus!
