use vstd::prelude::*;

use crate::address::Address;

verus! {

// The token ledger is a list of lines, each an owner and the tokens it
// holds. Its mathematical form lists each owner by the bytes of its address.

/// The mathematical form of a ledger: its lines with each owner by its bytes.
pub open spec fn line_keys(hs: Seq<(Address, i128)>) -> Seq<(Seq<u8>, i128)> {
    hs.map_values(|p: (Address, i128)| (p.0@, p.1))
}

/// Whether some line of `ls` belongs to `a`.
pub open spec fn holds(ls: Seq<(Seq<u8>, i128)>, a: Seq<u8>) -> bool {
    exists|i: int| 0 <= i < ls.len() && ls[i].0 == a
}

/// The tokens that `a` holds according to `ls`: the amount of its line, or
/// zero when it has none.
pub open spec fn amount_of(ls: Seq<(Seq<u8>, i128)>, a: Seq<u8>) -> i128 {
    if holds(ls, a) {
        ls[choose|i: int| 0 <= i < ls.len() && ls[i].0 == a].1
    } else {
        0
    }
}

/// Every owner has at most one line.
pub open spec fn distinct_owners(ls: Seq<(Seq<u8>, i128)>) -> bool {
    forall|i: int, j: int| 0 <= i < ls.len() && 0 <= j < ls.len() && i != j ==> ls[i].0 != ls[j].0
}

/// No line holds a negative amount.
pub open spec fn amounts_nonnegative(ls: Seq<(Seq<u8>, i128)>) -> bool {
    forall|i: int| 0 <= i < ls.len() ==> ls[i].1 >= 0
}

/// The tokens held over all lines.
pub open spec fn sum_amounts(ls: Seq<(Seq<u8>, i128)>) -> int
    decreases ls.len(),
{
    if ls.len() == 0 {
        0
    } else {
        sum_amounts(ls.drop_last()) + ls.last().1
    }
}

/// The balances of `ls` as a map defined at every address.
pub open spec fn balance_map(ls: Seq<(Seq<u8>, i128)>) -> Map<Seq<u8>, i128> {
    Map::new(|a: Seq<u8>| true, |a: Seq<u8>| amount_of(ls, a))
}

/// The ledger `ls` with the amount of `a` set to `v`: its line is
/// overwritten, or a line is appended when it has none.
pub open spec fn set_line(ls: Seq<(Seq<u8>, i128)>, a: Seq<u8>, v: i128) -> Seq<(Seq<u8>, i128)> {
    if holds(ls, a) {
        ls.update(choose|i: int| 0 <= i < ls.len() && ls[i].0 == a, (a, v))
    } else {
        ls.push((a, v))
    }
}

/// With distinct owners, the amount of an owner is the amount on its line.
pub proof fn lemma_amount_at(ls: Seq<(Seq<u8>, i128)>, i: int)
    requires
        distinct_owners(ls),
        0 <= i < ls.len(),
    ensures
        amount_of(ls, ls[i].0) == ls[i].1,
{
    let a = ls[i].0;
    assert(holds(ls, a));
    let j = choose|j: int| 0 <= j < ls.len() && ls[j].0 == a;
    assert(j == i);
}

/// Replacing line `i` changes the total by the difference of the amounts.
pub proof fn lemma_sum_update(ls: Seq<(Seq<u8>, i128)>, i: int, h: (Seq<u8>, i128))
    requires
        0 <= i < ls.len(),
    ensures
        sum_amounts(ls.update(i, h)) == sum_amounts(ls) - ls[i].1 + h.1,
    decreases ls.len(),
{
    let u = ls.update(i, h);
    if i == ls.len() - 1 {
        assert(u.drop_last() =~= ls.drop_last());
    } else {
        lemma_sum_update(ls.drop_last(), i, h);
        assert(u.drop_last() =~= ls.drop_last().update(i, h));
    }
}

/// The total of a ledger without negative lines is at least each of its
/// amounts, and not negative.
pub proof fn lemma_line_within_sum(ls: Seq<(Seq<u8>, i128)>, i: int)
    requires
        amounts_nonnegative(ls),
        0 <= i < ls.len(),
    ensures
        0 <= ls[i].1 <= sum_amounts(ls),
    decreases ls.len(),
{
    lemma_sum_nonnegative(ls.drop_last());
    if i < ls.len() - 1 {
        lemma_line_within_sum(ls.drop_last(), i);
    }
}

/// The total of a ledger without negative lines is not negative.
pub proof fn lemma_sum_nonnegative(ls: Seq<(Seq<u8>, i128)>)
    requires
        amounts_nonnegative(ls),
    ensures
        sum_amounts(ls) >= 0,
    decreases ls.len(),
{
    if ls.len() > 0 {
        lemma_sum_nonnegative(ls.drop_last());
    }
}

/// The total of the first `j` lines of a ledger without negative lines is at
/// most the total of all of them.
pub proof fn lemma_prefix_within_sum(ls: Seq<(Seq<u8>, i128)>, j: int)
    requires
        amounts_nonnegative(ls),
        0 <= j <= ls.len(),
    ensures
        sum_amounts(ls.subrange(0, j)) <= sum_amounts(ls),
    decreases ls.len(),
{
    if j == ls.len() {
        assert(ls.subrange(0, j) =~= ls);
    } else {
        lemma_prefix_within_sum(ls.drop_last(), j);
        assert(ls.drop_last().subrange(0, j) =~= ls.subrange(0, j));
    }
}

/// In a valid ledger every balance lies between zero and the total.
pub proof fn lemma_amount_within_sum(ls: Seq<(Seq<u8>, i128)>, a: Seq<u8>)
    requires
        distinct_owners(ls),
        amounts_nonnegative(ls),
    ensures
        0 <= amount_of(ls, a) <= sum_amounts(ls),
{
    lemma_sum_nonnegative(ls);
    if holds(ls, a) {
        let i = choose|i: int| 0 <= i < ls.len() && ls[i].0 == a;
        lemma_amount_at(ls, i);
        lemma_line_within_sum(ls, i);
    }
}

/// Writing `h` over the line of its owner: owners stay distinct, only that
/// owner's amount changes, and the total changes by the difference.
pub proof fn lemma_update_line(ls: Seq<(Seq<u8>, i128)>, i: int, h: (Seq<u8>, i128))
    requires
        distinct_owners(ls),
        0 <= i < ls.len(),
        h.0 == ls[i].0,
    ensures
        distinct_owners(ls.update(i, h)),
        balance_map(ls.update(i, h)) == balance_map(ls).insert(h.0, h.1),
        sum_amounts(ls.update(i, h)) == sum_amounts(ls) - ls[i].1 + h.1,
{
    let u = ls.update(i, h);
    assert(distinct_owners(u)) by {
        assert forall|x: int, y: int|
            0 <= x < u.len() && 0 <= y < u.len() && x != y implies u[x].0 != u[y].0 by {
            assert(u[x].0 == ls[x].0);
            assert(u[y].0 == ls[y].0);
        }
    }
    assert forall|b: Seq<u8>| amount_of(u, b) == (if b == h.0 {
        h.1
    } else {
        amount_of(ls, b)
    }) by {
        if b == h.0 {
            lemma_amount_at(u, i);
        } else {
            if holds(ls, b) {
                let j = choose|j: int| 0 <= j < ls.len() && ls[j].0 == b;
                lemma_amount_at(ls, j);
                assert(u[j] == ls[j]);
                lemma_amount_at(u, j);
            } else {
                assert(!holds(u, b)) by {
                    if holds(u, b) {
                        let j = choose|j: int| 0 <= j < u.len() && u[j].0 == b;
                        assert(ls[j].0 == b);
                    }
                }
            }
        }
    }
    assert(balance_map(u) =~= balance_map(ls).insert(h.0, h.1));
    lemma_sum_update(ls, i, h);
}

/// Appending a line for a new owner: owners stay distinct, only that
/// owner's amount changes, and the total grows by the new amount.
pub proof fn lemma_push_line(ls: Seq<(Seq<u8>, i128)>, h: (Seq<u8>, i128))
    requires
        distinct_owners(ls),
        !holds(ls, h.0),
    ensures
        distinct_owners(ls.push(h)),
        balance_map(ls.push(h)) == balance_map(ls).insert(h.0, h.1),
        sum_amounts(ls.push(h)) == sum_amounts(ls) + h.1,
{
    let p = ls.push(h);
    assert(distinct_owners(p)) by {
        assert forall|x: int, y: int|
            0 <= x < p.len() && 0 <= y < p.len() && x != y implies p[x].0 != p[y].0 by {
            if x < ls.len() && y < ls.len() {
                assert(p[x] == ls[x]);
                assert(p[y] == ls[y]);
            } else if x == ls.len() {
                assert(p[y] == ls[y]);
            } else {
                assert(p[x] == ls[x]);
            }
        }
    }
    assert forall|b: Seq<u8>| amount_of(p, b) == (if b == h.0 {
        h.1
    } else {
        amount_of(ls, b)
    }) by {
        if b == h.0 {
            lemma_amount_at(p, ls.len() as int);
        } else {
            if holds(ls, b) {
                let j = choose|j: int| 0 <= j < ls.len() && ls[j].0 == b;
                lemma_amount_at(ls, j);
                assert(p[j] == ls[j]);
                lemma_amount_at(p, j);
            } else {
                assert(!holds(p, b)) by {
                    if holds(p, b) {
                        let j = choose|j: int| 0 <= j < p.len() && p[j].0 == b;
                        if j < ls.len() {
                            assert(ls[j].0 == b);
                        }
                    }
                }
            }
        }
    }
    assert(balance_map(p) =~= balance_map(ls).insert(h.0, h.1));
    assert(p.drop_last() =~= ls);
}

/// Setting the amount of `a` to `v`: owners stay distinct, only `a`'s
/// amount changes, the total changes by the difference, and no line turns
/// negative when `v` is not.
pub proof fn lemma_set_line(ls: Seq<(Seq<u8>, i128)>, a: Seq<u8>, v: i128)
    requires
        distinct_owners(ls),
    ensures
        distinct_owners(set_line(ls, a, v)),
        balance_map(set_line(ls, a, v)) == balance_map(ls).insert(a, v),
        sum_amounts(set_line(ls, a, v)) == sum_amounts(ls) - amount_of(ls, a) + v,
        amounts_nonnegative(ls) && v >= 0 ==> amounts_nonnegative(set_line(ls, a, v)),
{
    if holds(ls, a) {
        let i = choose|i: int| 0 <= i < ls.len() && ls[i].0 == a;
        lemma_amount_at(ls, i);
        lemma_update_line(ls, i, (a, v));
    } else {
        lemma_push_line(ls, (a, v));
    }
}

/// The position of `owner`'s line in `hs`, if it has one.
pub(crate) fn find_line(hs: &Vec<(Address, i128)>, owner: &Address) -> (r: Option<usize>)
    ensures
        match r {
            Some(i) => i < hs@.len() && line_keys(hs@)[i as int].0 == owner@,
            None => !holds(line_keys(hs@), owner@),
        },
{
    let n = hs.len();
    let mut i: usize = 0;
    while i < n
        invariant
            n == hs@.len(),
            i <= n,
            forall|j: int| 0 <= j < i ==> hs@[j].0@ != owner@,
        decreases n - i,
    {
        if hs[i].0.same_as(owner) {
            return Some(i);
        }
        i = i + 1;
    }
    proof {
        let ls = line_keys(hs@);
        if holds(ls, owner@) {
            let j = choose|j: int| 0 <= j < ls.len() && ls[j].0 == owner@;
            assert(hs@[j].0@ == owner@);
        }
    }
    None
}

/// The tokens that `owner` holds.
pub(crate) fn amount_held(hs: &Vec<(Address, i128)>, owner: &Address) -> (r: i128)
    requires
        distinct_owners(line_keys(hs@)),
    ensures
        r == amount_of(line_keys(hs@), owner@),
{
    match find_line(hs, owner) {
        Some(i) => {
            proof {
                lemma_amount_at(line_keys(hs@), i as int);
            }
            hs[i].1
        },
        None => 0,
    }
}

/// Sets the tokens that `owner` holds to `value`, adding a line if it has
/// none.
pub(crate) fn set_amount(hs: &mut Vec<(Address, i128)>, owner: &Address, value: i128)
    requires
        distinct_owners(line_keys(old(hs)@)),
    ensures
        line_keys(final(hs)@) == set_line(line_keys(old(hs)@), owner@, value),
{
    let ghost before = line_keys(hs@);
    match find_line(hs, owner) {
        Some(i) => {
            let line = (owner.duplicate(), value);
            proof {
                let j = choose|j: int| 0 <= j < before.len() && before[j].0 == owner@;
                assert(j == i);
            }
            hs.set(i, line);
            proof {
                assert(line_keys(hs@) =~= before.update(i as int, (owner@, value)));
            }
        },
        None => {
            let line = (owner.duplicate(), value);
            hs.push(line);
            proof {
                assert(line_keys(hs@) =~= before.push((owner@, value)));
            }
        },
    }
}

/// The total held over the ledger `hs`, or `None` when it does not fit in
/// an `i128`.
pub(crate) fn ledger_total(hs: &Vec<(Address, i128)>) -> (r: Option<i128>)
    requires
        amounts_nonnegative(line_keys(hs@)),
    ensures
        match r {
            Some(t) => t == sum_amounts(line_keys(hs@)),
            None => sum_amounts(line_keys(hs@)) > i128::MAX,
        },
{
    let ghost ls = line_keys(hs@);
    let n = hs.len();
    let mut total: i128 = 0;
    let mut i: usize = 0;
    proof {
        assert(ls.subrange(0, 0) =~= Seq::<(Seq<u8>, i128)>::empty());
    }
    while i < n
        invariant
            n == hs@.len(),
            ls == line_keys(hs@),
            amounts_nonnegative(ls),
            i <= n,
            total == sum_amounts(ls.subrange(0, i as int)),
        decreases n - i,
    {
        proof {
            assert(ls.subrange(0, i + 1).drop_last() =~= ls.subrange(0, i as int));
        }
        match total.checked_add(hs[i].1) {
            None => {
                proof {
                    lemma_prefix_within_sum(ls, i + 1);
                }
                return None;
            },
            Some(t) => {
                total = t;
            },
        }
        i = i + 1;
    }
    proof {
        assert(ls.subrange(0, n as int) =~= ls);
    }
    Some(total)
}

/// Whether `hs` is a valid ledger: one line per owner, no negative line.
pub(crate) fn ledger_is_valid(hs: &Vec<(Address, i128)>) -> (r: bool)
    ensures
        r == (distinct_owners(line_keys(hs@)) && amounts_nonnegative(line_keys(hs@))),
{
    let ghost ls = line_keys(hs@);
    let n = hs.len();
    let mut i: usize = 0;
    while i < n
        invariant
            n == hs@.len(),
            ls == line_keys(hs@),
            i <= n,
            forall|x: int, y: int| 0 <= x < i && 0 <= y < i && x != y ==> ls[x].0 != ls[y].0,
            forall|x: int| 0 <= x < i ==> ls[x].1 >= 0,
        decreases n - i,
    {
        if hs[i].1 < 0 {
            assert(ls[i as int].1 == hs@[i as int].1);
            return false;
        }
        let mut j: usize = 0;
        while j < i
            invariant
                n == hs@.len(),
                ls == line_keys(hs@),
                j <= i < n,
                forall|y: int| 0 <= y < j ==> ls[y].0 != ls[i as int].0,
            decreases i - j,
        {
            if hs[j].0.same_as(&hs[i].0) {
                assert(!distinct_owners(ls)) by {
                    assert(ls[j as int].0 == ls[i as int].0);
                }
                return false;
            }
            j = j + 1;
        }
        i = i + 1;
    }
    true
}

} // verus!
