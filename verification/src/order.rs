//! The order of version texts: runs of other characters and runs of digits
//! are compared in turn, the first by rank, the second by number.

use crate::text::{
    all_digits, decimal_value, is_ascii_digit, is_ascii_letter, is_digit, is_letter,
    lemma_decimal_value_bound, lemma_decimal_value_differs, lemma_decimal_value_leading_zero,
    lemma_decimal_value_lower, lemma_pow10_monotone, slice_chars,
};
use vstd::prelude::*;

verus! {

/// The outcome of a comparison.
#[derive(Clone, Copy, Debug, PartialEq, Eq, Structural)]
pub enum Order {
    Less,
    Equal,
    Greater,
}

/// The order of two integers.
pub open spec fn int_order(a: int, b: int) -> Order {
    if a < b {
        Order::Less
    } else if a == b {
        Order::Equal
    } else {
        Order::Greater
    }
}

/// The outcome of the same comparison with its sides exchanged.
pub open spec fn reverse(o: Order) -> Order {
    match o {
        Order::Less => Order::Greater,
        Order::Equal => Order::Equal,
        Order::Greater => Order::Less,
    }
}

/// A character that may stand in a run compared by rank: a letter, or one
/// of `.`, `+` and `~`.
pub open spec fn rank_char(c: char) -> bool {
    is_letter(c) || c == '.' || c == '+' || c == '~'
}

/// A character that may stand in the upstream part or the revision of a
/// version: a letter, a digit, or one of `.`, `+` and `~`.
pub open spec fn version_char(c: char) -> bool {
    is_digit(c) || rank_char(c)
}

pub open spec fn rank_text(s: Seq<char>) -> bool {
    forall|i: int| 0 <= i < s.len() ==> rank_char(#[trigger] s[i])
}

pub open spec fn version_text(s: Seq<char>) -> bool {
    forall|i: int| 0 <= i < s.len() ==> version_char(#[trigger] s[i])
}

/// The rank of a character: `~` comes before the end of a text, which has
/// rank zero; letters come after the end, by their code; every other
/// character comes after all letters, by its code.
pub open spec fn rank(c: char) -> int {
    if c == '~' {
        -1
    } else if is_letter(c) {
        c as int
    } else {
        c as int + 0x110000
    }
}

/// The rank at the head of a text, where the empty text has the rank of
/// the end.
pub open spec fn head_rank(s: Seq<char>) -> int {
    if s.len() == 0 {
        0
    } else {
        rank(s[0])
    }
}

/// The order of two runs by rank: the first place at which the ranks
/// differ decides, the end of a run counting as a place of rank zero.
pub open spec fn lexical_order(a: Seq<char>, b: Seq<char>) -> Order
    decreases a.len(),
{
    if a.len() == 0 || b.len() == 0 || a[0] != b[0] {
        int_order(head_rank(a), head_rank(b))
    } else {
        lexical_order(a.drop_first(), b.drop_first())
    }
}

/// The order of two runs of digits: that of the numbers they stand for.
pub open spec fn numeric_order(a: Seq<char>, b: Seq<char>) -> Order {
    int_order(decimal_value(a) as int, decimal_value(b) as int)
}

/// The length of the run of characters other than digits at the head of `s`.
pub open spec fn text_run(s: Seq<char>) -> nat
    decreases s.len(),
{
    if s.len() == 0 || is_digit(s[0]) {
        0
    } else {
        1 + text_run(s.drop_first())
    }
}

/// The length of the run of digits at the head of `s`.
pub open spec fn digit_run(s: Seq<char>) -> nat
    decreases s.len(),
{
    if s.len() == 0 || !is_digit(s[0]) {
        0
    } else {
        1 + digit_run(s.drop_first())
    }
}

pub proof fn lemma_text_run(s: Seq<char>)
    ensures
        text_run(s) <= s.len(),
        forall|i: int| 0 <= i < text_run(s) ==> !is_digit(#[trigger] s[i]),
        text_run(s) < s.len() ==> is_digit(s[text_run(s) as int]),
    decreases s.len(),
{
    if s.len() > 0 && !is_digit(s[0]) {
        let t = s.drop_first();
        lemma_text_run(t);
        assert forall|i: int| 0 <= i < text_run(s) implies !is_digit(#[trigger] s[i]) by {
            if i > 0 {
                assert(s[i] == t[i - 1]);
            }
        }
        if text_run(s) < s.len() {
            assert(s[text_run(s) as int] == t[text_run(t) as int]);
        }
    }
}

pub proof fn lemma_digit_run(s: Seq<char>)
    ensures
        digit_run(s) <= s.len(),
        forall|i: int| 0 <= i < digit_run(s) ==> is_digit(#[trigger] s[i]),
        digit_run(s) < s.len() ==> !is_digit(s[digit_run(s) as int]),
    decreases s.len(),
{
    if s.len() > 0 && is_digit(s[0]) {
        let t = s.drop_first();
        lemma_digit_run(t);
        assert forall|i: int| 0 <= i < digit_run(s) implies is_digit(#[trigger] s[i]) by {
            if i > 0 {
                assert(s[i] == t[i - 1]);
            }
        }
        if digit_run(s) < s.len() {
            assert(s[digit_run(s) as int] == t[digit_run(t) as int]);
        }
    }
}

/// What is left of `s` after the run of other characters at its head.
pub open spec fn after_text(s: Seq<char>) -> Seq<char> {
    s.skip(text_run(s) as int)
}

/// What is left of `s` after the run of other characters at its head and
/// the run of digits that follows it.
pub open spec fn after_both(s: Seq<char>) -> Seq<char> {
    after_text(s).skip(digit_run(after_text(s)) as int)
}

/// A text that is not empty loses at least one character when both runs
/// at its head are taken off.
pub proof fn lemma_after_both_shorter(s: Seq<char>)
    ensures
        after_both(s).len() <= s.len(),
        s.len() > 0 ==> after_both(s).len() < s.len(),
{
    lemma_text_run(s);
    lemma_digit_run(after_text(s));
    if s.len() > 0 && text_run(s) == 0 {
        assert(after_text(s) =~= s);
    }
}

/// The order of two version texts. Each text is read as a run of other
/// characters, then a run of digits, and so on in turn. The runs of other
/// characters are compared by rank, the runs of digits by number, and the
/// first pair of runs that differ decides.
pub open spec fn version_order(a: Seq<char>, b: Seq<char>) -> Order
    decreases a.len() + b.len(),
{
    if a.len() == 0 && b.len() == 0 {
        Order::Equal
    } else {
        let lex = lexical_order(a.take(text_run(a) as int), b.take(text_run(b) as int));
        if lex != Order::Equal {
            lex
        } else {
            let a1 = after_text(a);
            let b1 = after_text(b);
            let num = numeric_order(
                a1.take(digit_run(a1) as int),
                b1.take(digit_run(b1) as int),
            );
            if num != Order::Equal {
                num
            } else if after_both(a).len() + after_both(b).len() < a.len() + b.len() {
                version_order(after_both(a), after_both(b))
            } else {
                Order::Equal
            }
        }
    }
}

pub fn is_rank_char(c: char) -> (r: bool)
    ensures
        r == rank_char(c),
{
    is_ascii_letter(c) || c == '.' || c == '+' || c == '~'
}

/// Whether `c` may stand in the upstream part or the revision of a version.
pub fn is_allowed_in_version(c: char) -> (r: bool)
    ensures
        r == version_char(c),
{
    is_ascii_digit(c) || is_rank_char(c)
}

/// The order of two characters that differ, by rank.
fn rank_order(x: char, y: char) -> (r: Order)
    requires
        x != y,
        rank_char(x),
        rank_char(y),
    ensures
        r == int_order(rank(x), rank(y)),
{
    if x == '~' {
        Order::Less
    } else if y == '~' {
        Order::Greater
    } else {
        let lx = is_ascii_letter(x);
        let ly = is_ascii_letter(y);
        if lx && !ly {
            Order::Less
        } else if !lx && ly {
            Order::Greater
        } else if x < y {
            Order::Less
        } else {
            Order::Greater
        }
    }
}

/// Compares two runs by rank.
pub fn lexical(a: &Vec<char>, b: &Vec<char>) -> (r: Order)
    requires
        rank_text(a@),
        rank_text(b@),
    ensures
        r == lexical_order(a@, b@),
{
    let mut i: usize = 0;
    proof {
        assert(a@.skip(0) == a@);
        assert(b@.skip(0) == b@);
    }
    while i < a.len() && i < b.len()
        invariant
            i <= a.len(),
            i <= b.len(),
            rank_text(a@),
            rank_text(b@),
            lexical_order(a@, b@) == lexical_order(a@.skip(i as int), b@.skip(i as int)),
        decreases a.len() - i,
    {
        proof {
            assert(a@.skip(i as int).drop_first() == a@.skip(i + 1));
            assert(b@.skip(i as int).drop_first() == b@.skip(i + 1));
        }
        if a[i] != b[i] {
            return rank_order(a[i], b[i]);
        }
        i += 1;
    }
    let ghost x = a@.skip(i as int);
    let ghost y = b@.skip(i as int);
    if i < a.len() {
        let c = a[i];
        proof {
            assert(x[0] == c);
            assert(y.len() == 0);
            assert(rank_char(a@[i as int]));
            assert(c != '~' ==> rank(c) > 0);
        }
        if c == '~' {
            Order::Less
        } else {
            Order::Greater
        }
    } else if i < b.len() {
        let c = b[i];
        proof {
            assert(y[0] == c);
            assert(x.len() == 0);
            assert(rank_char(b@[i as int]));
            assert(c != '~' ==> rank(c) > 0);
        }
        if c == '~' {
            Order::Greater
        } else {
            Order::Less
        }
    } else {
        proof {
            assert(x.len() == 0);
        }
        Order::Equal
    }
}

/// The number of zeros at the head of `s`.
pub open spec fn zero_run(s: Seq<char>) -> nat
    decreases s.len(),
{
    if s.len() == 0 || s[0] != '0' {
        0
    } else {
        1 + zero_run(s.drop_first())
    }
}

proof fn lemma_zero_run(s: Seq<char>)
    ensures
        zero_run(s) <= s.len(),
        decimal_value(s) == decimal_value(s.skip(zero_run(s) as int)),
        zero_run(s) < s.len() ==> s[zero_run(s) as int] != '0',
    decreases s.len(),
{
    if s.len() > 0 && s[0] == '0' {
        let t = s.drop_first();
        lemma_zero_run(t);
        lemma_decimal_value_leading_zero(s);
        assert(s.skip(zero_run(s) as int) =~= t.skip(zero_run(t) as int));
        if zero_run(s) < s.len() {
            assert(s[zero_run(s) as int] == t[zero_run(t) as int]);
        }
    } else {
        assert(s.skip(0) =~= s);
    }
}

fn count_zeros(s: &Vec<char>) -> (n: usize)
    ensures
        n == zero_run(s@),
        n <= s.len(),
{
    let mut i: usize = 0;
    proof {
        assert(s@.skip(0) == s@);
    }
    while i < s.len() && s[i] == '0'
        invariant
            i <= s.len(),
            zero_run(s@) == i + zero_run(s@.skip(i as int)),
        decreases s.len() - i,
    {
        proof {
            assert(s@.skip(i as int).drop_first() == s@.skip(i + 1));
        }
        i += 1;
    }
    i
}

/// Compares two runs of digits by the numbers they stand for: zeros at the
/// head are passed over, then the longer run is the greater, and of two
/// runs of one length the first digit that differs decides.
pub fn numeric(a: &Vec<char>, b: &Vec<char>) -> (r: Order)
    requires
        all_digits(a@),
        all_digits(b@),
    ensures
        r == numeric_order(a@, b@),
{
    let i = count_zeros(a);
    let j = count_zeros(b);
    let la = a.len() - i;
    let lb = b.len() - j;
    let ghost x = a@.skip(i as int);
    let ghost y = b@.skip(j as int);
    proof {
        lemma_zero_run(a@);
        lemma_zero_run(b@);
        assert(all_digits(x));
        assert(all_digits(y));
        lemma_decimal_value_bound(x);
        lemma_decimal_value_bound(y);
    }
    if la < lb {
        proof {
            assert(y[0] == b@[j as int]);
            lemma_decimal_value_lower(y);
            lemma_pow10_monotone(la as nat, (lb - 1) as nat);
        }
        return Order::Less;
    }
    if la > lb {
        proof {
            assert(x[0] == a@[i as int]);
            lemma_decimal_value_lower(x);
            lemma_pow10_monotone(lb as nat, (la - 1) as nat);
        }
        return Order::Greater;
    }
    let mut k: usize = 0;
    while k < la
        invariant
            k <= la,
            la == lb,
            la == a.len() - i,
            lb == b.len() - j,
            x == a@.skip(i as int),
            y == b@.skip(j as int),
            all_digits(x),
            all_digits(y),
            decimal_value(a@) == decimal_value(x),
            decimal_value(b@) == decimal_value(y),
            x.take(k as int) == y.take(k as int),
        decreases la - k,
    {
        let p = a[i + k];
        let q = b[j + k];
        proof {
            assert(x[k as int] == p);
            assert(y[k as int] == q);
        }
        if p != q {
            if p < q {
                proof {
                    lemma_decimal_value_differs(x, y, k as int);
                }
                return Order::Less;
            } else {
                proof {
                    lemma_decimal_value_differs(y, x, k as int);
                }
                return Order::Greater;
            }
        }
        proof {
            assert(x.take(k + 1) == x.take(k as int).push(p));
            assert(y.take(k + 1) == y.take(k as int).push(q));
        }
        k += 1;
    }
    proof {
        assert(x == x.take(la as int));
        assert(y == y.take(lb as int));
    }
    Order::Equal
}

/// The end of the run of characters other than digits that starts at `from`.
fn text_run_end(s: &Vec<char>, from: usize) -> (to: usize)
    requires
        from <= s.len(),
    ensures
        from <= to <= s.len(),
        to - from == text_run(s@.skip(from as int)),
{
    let mut i: usize = from;
    proof {
        assert(s@.skip(from as int).skip(0) == s@.skip(from as int));
    }
    while i < s.len() && !is_ascii_digit(s[i])
        invariant
            from <= i <= s.len(),
            text_run(s@.skip(from as int)) == (i - from) + text_run(s@.skip(i as int)),
        decreases s.len() - i,
    {
        proof {
            assert(s@.skip(i as int).drop_first() == s@.skip(i + 1));
        }
        i += 1;
    }
    i
}

/// The end of the run of digits that starts at `from`.
fn digit_run_end(s: &Vec<char>, from: usize) -> (to: usize)
    requires
        from <= s.len(),
    ensures
        from <= to <= s.len(),
        to - from == digit_run(s@.skip(from as int)),
{
    let mut i: usize = from;
    while i < s.len() && is_ascii_digit(s[i])
        invariant
            from <= i <= s.len(),
            digit_run(s@.skip(from as int)) == (i - from) + digit_run(s@.skip(i as int)),
        decreases s.len() - i,
    {
        proof {
            assert(s@.skip(i as int).drop_first() == s@.skip(i + 1));
        }
        i += 1;
    }
    i
}

/// Compares two version texts.
pub fn versions(a: &Vec<char>, b: &Vec<char>) -> (r: Order)
    requires
        version_text(a@),
        version_text(b@),
    ensures
        r == version_order(a@, b@),
{
    let mut i: usize = 0;
    let mut j: usize = 0;
    proof {
        assert(a@.skip(0) == a@);
        assert(b@.skip(0) == b@);
    }
    while i < a.len() || j < b.len()
        invariant
            i <= a.len(),
            j <= b.len(),
            version_text(a@),
            version_text(b@),
            version_order(a@, b@) == version_order(a@.skip(i as int), b@.skip(j as int)),
        decreases (a.len() - i) + (b.len() - j),
    {
        let ghost x = a@.skip(i as int);
        let ghost y = b@.skip(j as int);
        let i1 = text_run_end(a, i);
        let j1 = text_run_end(b, j);
        let ta = slice_chars(a, i, i1);
        let tb = slice_chars(b, j, j1);
        proof {
            assert(ta@ == x.take(text_run(x) as int));
            assert(tb@ == y.take(text_run(y) as int));
            lemma_text_run(x);
            lemma_text_run(y);
            assert forall|k: int| 0 <= k < ta@.len() implies rank_char(#[trigger] ta@[k]) by {
                assert(ta@[k] == x[k]);
                assert(x[k] == a@[i + k]);
                assert(version_char(a@[i + k]));
            }
            assert forall|k: int| 0 <= k < tb@.len() implies rank_char(#[trigger] tb@[k]) by {
                assert(tb@[k] == y[k]);
                assert(y[k] == b@[j + k]);
                assert(version_char(b@[j + k]));
            }
        }
        let lex = lexical(&ta, &tb);
        if lex != Order::Equal {
            return lex;
        }
        let i2 = digit_run_end(a, i1);
        let j2 = digit_run_end(b, j1);
        let na = slice_chars(a, i1, i2);
        let nb = slice_chars(b, j1, j2);
        proof {
            assert(after_text(x) == a@.skip(i1 as int));
            assert(after_text(y) == b@.skip(j1 as int));
            lemma_digit_run(after_text(x));
            lemma_digit_run(after_text(y));
            assert(na@ == after_text(x).take(digit_run(after_text(x)) as int));
            assert(nb@ == after_text(y).take(digit_run(after_text(y)) as int));
            assert(after_both(x) == a@.skip(i2 as int));
            assert(after_both(y) == b@.skip(j2 as int));
            lemma_after_both_shorter(x);
            lemma_after_both_shorter(y);
            assert forall|k: int| 0 <= k < na@.len() implies is_digit(#[trigger] na@[k]) by {
                assert(na@[k] == after_text(x)[k]);
            }
            assert forall|k: int| 0 <= k < nb@.len() implies is_digit(#[trigger] nb@[k]) by {
                assert(nb@[k] == after_text(y)[k]);
            }
        }
        let num = numeric(&na, &nb);
        if num != Order::Equal {
            return num;
        }
        i = i2;
        j = j2;
    }
    Order::Equal
}

} // verus!
