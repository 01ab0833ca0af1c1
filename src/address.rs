//! Dotted IPv4-style address text: counting its parts and cutting its last one.
use vstd::prelude::*;
use crate::text::{chars_of, decimal, digit_char, string_of};

verus! {

/// The number of `.` in `s`.
pub open spec fn count_dots(s: Seq<char>) -> nat
    decreases s.len(),
{
    if s.len() == 0 {
        0
    } else {
        count_dots(s.drop_last()) + if s.last() == '.' { 1nat } else { 0nat }
    }
}

/// `s` up to, and without, its last `.` (all of `s` when it has none).
pub open spec fn before_last_dot(s: Seq<char>) -> Seq<char>
    decreases s.len(),
{
    if s.len() == 0 {
        s
    } else if s.last() == '.' {
        s.drop_last()
    } else {
        before_last_dot(s.drop_last())
    }
}

/// The number of `.` in `s`.
pub fn dots_in(cs: &Vec<char>) -> (r: usize)
    ensures
        r == count_dots(cs@),
{
    let mut n: usize = 0;
    let mut i: usize = 0;
    while i < cs.len()
        invariant
            i <= cs@.len(),
            n <= i,
            n == count_dots(cs@.subrange(0, i as int)),
        decreases cs@.len() - i,
    {
        assert(cs@.subrange(0, i + 1).drop_last() =~= cs@.subrange(0, i as int));
        if cs[i] == '.' {
            n = n + 1;
        }
        i = i + 1;
    }
    assert(cs@.subrange(0, cs@.len() as int) =~= cs@);
    n
}

/// `cs` up to, and without, its last `.`.
pub fn cut_last_dot(cs: &Vec<char>) -> (r: Vec<char>)
    ensures
        r@ == before_last_dot(cs@),
{
    let mut j: usize = cs.len();
    assert(cs@.subrange(0, j as int) =~= cs@);
    while j > 0
        invariant
            j <= cs@.len(),
            before_last_dot(cs@.subrange(0, j as int)) == before_last_dot(cs@),
        decreases j,
    {
        let ghost prefix = cs@.subrange(0, j as int);
        assert(prefix.drop_last() =~= cs@.subrange(0, j - 1));
        if cs[j - 1] == '.' {
            let mut r: Vec<char> = Vec::new();
            let mut k: usize = 0;
            while k < j - 1
                invariant
                    j <= cs@.len(),
                    k <= j - 1,
                    r@ == cs@.subrange(0, k as int),
                decreases j - 1 - k,
            {
                r.push(cs[k]);
                assert(cs@.subrange(0, k + 1) =~= cs@.subrange(0, k as int).push(cs@[k as int]));
                k = k + 1;
            }
            return r;
        }
        j = j - 1;
    }
    assert(cs@.subrange(0, 0) =~= Seq::<char>::empty());
    Vec::new()
}

/// `s` up to, and without, its last `.`.
pub fn text_before_last_dot(s: &str) -> (r: String)
    ensures
        r@ == before_last_dot(s@),
{
    let cs = chars_of(s);
    string_of(&cut_last_dot(&cs))
}

/// The number of `.` in `s`.
pub fn count_dots_in(s: &str) -> (r: usize)
    ensures
        r == count_dots(s@),
{
    dots_in(&chars_of(s))
}

/// The decimal writing of a number has one digit below ten, more above.
pub proof fn lemma_decimal_len(n: nat)
    ensures
        n < 10 ==> decimal(n).len() == 1,
        n >= 10 ==> decimal(n).len() >= 2,
    decreases n,
{
    if n >= 10 {
        lemma_decimal_len(n / 10);
    }
}

proof fn lemma_digit_injective(a: nat, b: nat)
    requires
        a < 10,
        b < 10,
        digit_char(a) == digit_char(b),
    ensures
        a == b,
{
}

/// Different numbers are written differently.
pub proof fn lemma_decimal_injective(a: nat, b: nat)
    requires
        decimal(a) == decimal(b),
    ensures
        a == b,
    decreases a,
{
    lemma_decimal_len(a);
    lemma_decimal_len(b);
    if a < 10 && b < 10 {
        assert(decimal(a)[0] == digit_char(a));
        assert(decimal(b)[0] == digit_char(b));
        lemma_digit_injective(a, b);
    } else if a >= 10 && b >= 10 {
        let (da, db) = (decimal(a), decimal(b));
        assert(da.last() == digit_char(a % 10));
        assert(db.last() == digit_char(b % 10));
        lemma_digit_injective(a % 10, b % 10);
        assert(da.drop_last() =~= decimal(a / 10));
        assert(db.drop_last() =~= decimal(b / 10));
        lemma_decimal_injective(a / 10, b / 10);
    }
}

/// Two texts with one prefix differ where their remainders differ.
pub proof fn lemma_same_prefix(p: Seq<char>, x: Seq<char>, y: Seq<char>)
    requires
        p + x == p + y,
    ensures
        x == y,
{
    assert(x =~= (p + x).subrange(p.len() as int, (p + x).len() as int));
    assert(y =~= (p + y).subrange(p.len() as int, (p + y).len() as int));
}

} // verus!
