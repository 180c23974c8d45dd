use vstd::prelude::*;
use crate::types::{AccountId, Balance};

verus! {

/// The contents of each balance source.
pub open spec fn source_views(sources: Seq<Vec<(AccountId, Balance)>>) -> Seq<Seq<(AccountId, Balance)>> {
    sources.map_values(|v: Vec<(AccountId, Balance)>| v@)
}

/// The sources' entries one after another, in source order.
pub open spec fn flatten(sources: Seq<Seq<(AccountId, Balance)>>) -> Seq<(AccountId, Balance)>
    decreases sources.len(),
{
    if sources.len() == 0 {
        Seq::empty()
    } else {
        flatten(sources.drop_last()) + sources.last()
    }
}

/// The accounts that a list of entries names, in order.
pub open spec fn accounts_of(entries: Seq<(AccountId, Balance)>) -> Seq<AccountId> {
    entries.map_values(|e: (AccountId, Balance)| e.0)
}

/// The sum of all credits of a list of entries.
pub open spec fn total(entries: Seq<(AccountId, Balance)>) -> int
    decreases entries.len(),
{
    if entries.len() == 0 {
        0
    } else {
        total(entries.drop_last()) + entries.last().1
    }
}

/// The sum of the totals of each source.
pub open spec fn sum_of_totals(sources: Seq<Seq<(AccountId, Balance)>>) -> int
    decreases sources.len(),
{
    if sources.len() == 0 {
        0
    } else {
        sum_of_totals(sources.drop_last()) + total(sources.last())
    }
}

/// The effective balance of `who`: the sum of every entry that names it.
pub open spec fn credit_of(entries: Seq<(AccountId, Balance)>, who: AccountId) -> int
    decreases entries.len(),
{
    if entries.len() == 0 {
        0
    } else {
        credit_of(entries.drop_last(), who) + if entries.last().0 == who {
            entries.last().1 as int
        } else {
            0
        }
    }
}

/// Totals add up over concatenation.
pub proof fn lemma_total_concat(a: Seq<(AccountId, Balance)>, b: Seq<(AccountId, Balance)>)
    ensures
        total(a + b) == total(a) + total(b),
    decreases b.len(),
{
    if b.len() > 0 {
        assert((a + b).drop_last() =~= a + b.drop_last());
        lemma_total_concat(a, b.drop_last());
    } else {
        assert(a + b =~= a);
    }
}

/// An account with a positive entry has a positive effective balance.
pub proof fn lemma_positive_entry_credits(entries: Seq<(AccountId, Balance)>, i: int)
    requires
        0 <= i < entries.len(),
        entries[i].1 > 0,
    ensures
        credit_of(entries, entries[i].0) > 0,
    decreases entries.len(),
{
    lemma_credit_nonneg(entries.drop_last(), entries[i].0);
    if i < entries.len() - 1 {
        lemma_positive_entry_credits(entries.drop_last(), i);
    }
}

pub proof fn lemma_credit_nonneg(entries: Seq<(AccountId, Balance)>, who: AccountId)
    ensures
        credit_of(entries, who) >= 0,
    decreases entries.len(),
{
    if entries.len() > 0 {
        lemma_credit_nonneg(entries.drop_last(), who);
    }
}

/// Conservation: the merged balances table credits, in total, exactly what the
/// sources contribute together; no entry is lost or counted twice.
pub proof fn lemma_conservation(sources: Seq<Seq<(AccountId, Balance)>>)
    ensures
        total(flatten(sources)) == sum_of_totals(sources),
    decreases sources.len(),
{
    if sources.len() > 0 {
        lemma_conservation(sources.drop_last());
        lemma_total_concat(flatten(sources.drop_last()), sources.last());
    }
}

/// Three sources merge into their concatenation.
pub proof fn lemma_flatten_three(
    a: Seq<(AccountId, Balance)>,
    b: Seq<(AccountId, Balance)>,
    c: Seq<(AccountId, Balance)>,
)
    ensures
        flatten(seq![a, b, c]) == a + b + c,
        sum_of_totals(seq![a, b, c]) == total(a) + total(b) + total(c),
{
    let s0 = Seq::<Seq<(AccountId, Balance)>>::empty();
    let s1 = seq![a];
    let s2 = seq![a, b];
    let s3 = seq![a, b, c];
    assert(s1.drop_last() =~= s0);
    assert(s2.drop_last() =~= s1);
    assert(s3.drop_last() =~= s2);
    assert(flatten(s0) == Seq::<(AccountId, Balance)>::empty());
    assert(flatten(s1) =~= a);
    assert(flatten(s2) =~= a + b);
    assert(flatten(s3) =~= a + b + c);
    assert(sum_of_totals(s0) == 0);
    assert(sum_of_totals(s1) == total(a));
    assert(sum_of_totals(s2) == total(a) + total(b));
}

/// Four sources merge into their concatenation.
pub proof fn lemma_flatten_four(
    a: Seq<(AccountId, Balance)>,
    b: Seq<(AccountId, Balance)>,
    c: Seq<(AccountId, Balance)>,
    d: Seq<(AccountId, Balance)>,
)
    ensures
        flatten(seq![a, b, c, d]) == a + b + c + d,
        sum_of_totals(seq![a, b, c, d]) == total(a) + total(b) + total(c) + total(d),
{
    let s4 = seq![a, b, c, d];
    assert(s4.drop_last() =~= seq![a, b, c]);
    lemma_flatten_three(a, b, c);
}

/// The balances table of several sources: every entry of every source, in
/// source order, none collapsed; an account named more than once is credited
/// the sum of its entries.
pub fn merge_balances(sources: &Vec<Vec<(AccountId, Balance)>>) -> (r: Vec<(AccountId, Balance)>)
    ensures
        r@ == flatten(source_views(sources@)),
{
    let mut r: Vec<(AccountId, Balance)> = Vec::new();
    let mut i: usize = 0;
    while i < sources.len()
        invariant
            0 <= i <= sources@.len(),
            r@ == flatten(source_views(sources@.take(i as int))),
        decreases sources@.len() - i,
    {
        let src = &sources[i];
        let ghost before = r@;
        let mut j: usize = 0;
        while j < src.len()
            invariant
                0 <= j <= src@.len(),
                r@ == before + src@.take(j as int),
            decreases src@.len() - j,
        {
            r.push(src[j]);
            assert(src@.take(j as int + 1) =~= src@.take(j as int).push(src@[j as int]));
            j = j + 1;
        }
        proof {
            assert(src@.take(j as int) =~= src@);
            let t = source_views(sources@.take(i as int + 1));
            assert(t.drop_last() =~= source_views(sources@.take(i as int)));
            assert(t.last() == src@);
        }
        i = i + 1;
    }
    assert(sources@.take(i as int) =~= sources@);
    r
}

/// The accounts to register in the account index: the account of every
/// entry, in the order of the balances table.
pub fn account_index(balances: &Vec<(AccountId, Balance)>) -> (r: Vec<AccountId>)
    ensures
        r@ == accounts_of(balances@),
{
    let mut r: Vec<AccountId> = Vec::new();
    let mut i: usize = 0;
    while i < balances.len()
        invariant
            0 <= i <= balances@.len(),
            r@ == accounts_of(balances@.take(i as int)),
        decreases balances@.len() - i,
    {
        r.push(balances[i].0);
        assert(accounts_of(balances@.take(i as int + 1)) =~= accounts_of(balances@.take(i as int)).push(balances@[i as int].0));
        i = i + 1;
    }
    assert(balances@.take(i as int) =~= balances@);
    r
}

} // verus!
