//! Block identifiers: the page keeps the identifier its caller chose, and
//! every block made for it is named after the page and its position.
use vstd::prelude::*;
use crate::text::{chars_of, string_of};

verus! {

/// The decimal digit for `d`.
pub open spec fn digit(d: int) -> char {
    if d == 0 {
        '0'
    } else if d == 1 {
        '1'
    } else if d == 2 {
        '2'
    } else if d == 3 {
        '3'
    } else if d == 4 {
        '4'
    } else if d == 5 {
        '5'
    } else if d == 6 {
        '6'
    } else if d == 7 {
        '7'
    } else if d == 8 {
        '8'
    } else {
        '9'
    }
}

/// The decimal notation of `n`.
pub open spec fn decimal(n: nat) -> Seq<char>
    decreases n,
{
    if n < 10 {
        seq![digit(n as int)]
    } else {
        decimal(n / 10).push(digit((n % 10) as int))
    }
}

/// The identifier of the block at position `i` of a page named `page`: the
/// page's own identifier for the page block, `page-i` for the others.
pub open spec fn block_id(page: Seq<char>, i: nat) -> Seq<char> {
    if i == 0 {
        page
    } else {
        page + seq!['-'] + decimal(i)
    }
}

proof fn lemma_decimal_len(n: nat)
    ensures
        decimal(n).len() >= 1,
        decimal(n).len() == 1 <==> n < 10,
    decreases n,
{
    if n >= 10 {
        lemma_decimal_len(n / 10);
    }
}

proof fn lemma_digit_injective(x: int, y: int)
    requires
        0 <= x < 10,
        0 <= y < 10,
        digit(x) == digit(y),
    ensures
        x == y,
{
}

proof fn lemma_decimal_injective(a: nat, b: nat)
    requires
        decimal(a) == decimal(b),
    ensures
        a == b,
    decreases a,
{
    lemma_decimal_len(a);
    lemma_decimal_len(b);
    if a < 10 {
        assert(b < 10);
        assert(decimal(a) == seq![digit(a as int)]);
        assert(decimal(b) == seq![digit(b as int)]);
        assert(decimal(a)[0] == decimal(b)[0]);
        assert(seq![digit(a as int)][0] == digit(a as int));
        assert(seq![digit(b as int)][0] == digit(b as int));
        lemma_digit_injective(a as int, b as int);
    } else {
        assert(b >= 10);
        assert(decimal(a) == decimal(a / 10).push(digit((a % 10) as int)));
        assert(decimal(b) == decimal(b / 10).push(digit((b % 10) as int)));
        assert(decimal(a).last() == decimal(b).last());
        assert(decimal(a).last() == digit((a % 10) as int));
        assert(decimal(b).last() == digit((b % 10) as int));
        assert(decimal(a).drop_last() == decimal(a / 10));
        assert(decimal(b).drop_last() == decimal(b / 10));
        lemma_decimal_injective(a / 10, b / 10);
        lemma_digit_injective((a % 10) as int, (b % 10) as int);
        assert(a == 10 * (a / 10) + a % 10);
        assert(b == 10 * (b / 10) + b % 10);
    }
}

/// Distinct positions of one page have distinct identifiers.
pub proof fn lemma_block_ids_distinct(page: Seq<char>, i: nat, j: nat)
    requires
        i != j,
    ensures
        block_id(page, i) != block_id(page, j),
{
    lemma_decimal_len(i);
    lemma_decimal_len(j);
    if i != 0 && j != 0 {
        if block_id(page, i) == block_id(page, j) {
            let n = page.len() + 1;
            assert(block_id(page, i).subrange(n as int, block_id(page, i).len() as int) == decimal(i));
            assert(block_id(page, j).subrange(n as int, block_id(page, j).len() as int) == decimal(j));
            lemma_decimal_injective(i, j);
        }
    }
}

fn digit_char(d: usize) -> (r: char)
    requires
        d < 10,
    ensures
        r == digit(d as int),
{
    if d == 0 {
        '0'
    } else if d == 1 {
        '1'
    } else if d == 2 {
        '2'
    } else if d == 3 {
        '3'
    } else if d == 4 {
        '4'
    } else if d == 5 {
        '5'
    } else if d == 6 {
        '6'
    } else if d == 7 {
        '7'
    } else if d == 8 {
        '8'
    } else {
        '9'
    }
}

fn decimal_chars(n: usize) -> (r: Vec<char>)
    ensures
        r@ == decimal(n as nat),
    decreases n,
{
    if n < 10 {
        let mut v: Vec<char> = Vec::new();
        v.push(digit_char(n));
        v
    } else {
        let mut v = decimal_chars(n / 10);
        v.push(digit_char(n % 10));
        v
    }
}

/// The identifier of the block at position `i` of the page `page`.
pub fn make_block_id(page: &String, i: usize) -> (r: String)
    ensures
        r@ == block_id(page@, i as nat),
{
    if i == 0 {
        return page.clone();
    }
    let mut cs = chars_of(page.as_str());
    cs.push('-');
    let mut ds = decimal_chars(i);
    cs.append(&mut ds);
    string_of(&cs)
}

} // verus!
