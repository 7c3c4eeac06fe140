//! What the balance changes of a transaction add up to.

use crate::base_types::{ObjectID, Owner, SequenceNumber};
use crate::object::ObjectView;
use crate::rpc_types::BalanceChangeView;
use crate::sandbox::extensions::changes::{
    accumulate, balance_changes, balances_after_tombstones, balances_after_written, is_entry_at,
    tombstone_contribution, written_contribution, Contribution, MAX_BALANCE_TERMS,
};
use crate::sandbox::storage::StorageView;
use vstd::prelude::*;

verus! {

/// What the first `upto` written objects contribute, in order.
pub open spec fn written_contributions(
    store: StorageView,
    written: Seq<ObjectView>,
    upto: int,
) -> Seq<Contribution>
    decreases upto,
{
    if upto <= 0 {
        Seq::empty()
    } else {
        let done = written_contributions(store, written, upto - 1);
        match written_contribution(store, written[upto - 1]) {
            Some(c) => done.push(c),
            None => done,
        }
    }
}

/// What every written object and the first `upto` tombstones contribute,
/// in order.
pub open spec fn contributions(
    store: StorageView,
    written: Seq<ObjectView>,
    tombstones: Seq<(ObjectID, SequenceNumber)>,
    upto: int,
) -> Seq<Contribution>
    decreases upto,
{
    if upto <= 0 {
        written_contributions(store, written, written.len() as int)
    } else {
        let done = contributions(store, written, tombstones, upto - 1);
        match tombstone_contribution(store, tombstones[upto - 1].0) {
            Some(c) => done.push(c),
            None => done,
        }
    }
}

/// The sum of what is contributed to one owner in one currency.
pub open spec fn net(cs: Seq<Contribution>, owner: Owner, coin_type: Seq<char>) -> int
    decreases cs.len(),
{
    if cs.len() == 0 {
        0
    } else {
        let rest = net(cs.drop_last(), owner, coin_type);
        if cs.last().owner == owner && cs.last().coin_type == coin_type {
            rest + cs.last().amount
        } else {
            rest
        }
    }
}

/// The balance changes that contributions add up to, one after the other.
pub open spec fn summed(cs: Seq<Contribution>) -> Seq<BalanceChangeView>
    decreases cs.len(),
{
    if cs.len() == 0 {
        Seq::empty()
    } else {
        accumulate(summed(cs.drop_last()), cs.last())
    }
}

/// Whether no contribution is beyond the largest balance, either way.
pub open spec fn bounded(cs: Seq<Contribution>) -> bool {
    forall|k: int|
        0 <= k < cs.len() ==> -0x1_0000_0000_0000_0000 <= (#[trigger] cs[k]).amount
            <= 0x1_0000_0000_0000_0000
}

/// Whether two entries are for the same owner and currency.
pub open spec fn same_entry(a: BalanceChangeView, b: BalanceChangeView) -> bool {
    a.owner == b.owner && a.coin_type == b.coin_type
}

/// Whether a contribution goes to the owner and the currency of an entry.
pub open spec fn goes_to(c: Contribution, entry: BalanceChangeView) -> bool {
    c.owner == entry.owner && c.coin_type == entry.coin_type
}

/// No two entries are for the same owner and currency.
pub open spec fn entries_distinct(changes: Seq<BalanceChangeView>) -> bool {
    forall|i: int, j: int| 0 <= i < j < changes.len() ==> !#[trigger] same_entry(changes[i], changes[j])
}

/// Every amount is the sum of what is contributed to its owner in its
/// currency.
pub open spec fn amounts_are_net(changes: Seq<BalanceChangeView>, cs: Seq<Contribution>) -> bool {
    forall|i: int|
        0 <= i < changes.len() ==> (#[trigger] changes[i]).amount == net(
            cs,
            changes[i].owner,
            changes[i].coin_type,
        )
}

/// Whether something is contributed to the owner and the currency of an
/// entry.
pub open spec fn has_contribution(cs: Seq<Contribution>, entry: BalanceChangeView) -> bool {
    exists|k: int| 0 <= k < cs.len() && #[trigger] goes_to(cs[k], entry)
}

/// Whether a contribution has an entry for its owner and currency.
pub open spec fn has_entry(changes: Seq<BalanceChangeView>, c: Contribution) -> bool {
    exists|i: int| 0 <= i < changes.len() && #[trigger] goes_to(c, changes[i])
}

/// Every entry is contributed to.
pub open spec fn entries_used(changes: Seq<BalanceChangeView>, cs: Seq<Contribution>) -> bool {
    forall|i: int| 0 <= i < changes.len() ==> #[trigger] has_contribution(cs, changes[i])
}

/// Every contribution has its entry.
pub open spec fn contributions_entered(changes: Seq<BalanceChangeView>, cs: Seq<Contribution>) -> bool {
    forall|k: int| 0 <= k < cs.len() ==> #[trigger] has_entry(changes, cs[k])
}

/// Whether the changes are the net of the contributions: one entry for
/// every owner and currency that is contributed to, no two entries for the
/// same, and every amount the sum of what is contributed.
pub open spec fn is_net_of(changes: Seq<BalanceChangeView>, cs: Seq<Contribution>) -> bool {
    &&& entries_distinct(changes)
    &&& amounts_are_net(changes, cs)
    &&& entries_used(changes, cs)
    &&& contributions_entered(changes, cs)
}

/// A sum of bounded contributions is within their number times the bound.
pub proof fn lemma_net_bound(cs: Seq<Contribution>, owner: Owner, coin_type: Seq<char>)
    requires
        bounded(cs),
    ensures
        -cs.len() * 0x1_0000_0000_0000_0000 <= net(cs, owner, coin_type) <= cs.len()
            * 0x1_0000_0000_0000_0000,
    decreases cs.len(),
{
    if cs.len() > 0 {
        let before = cs.drop_last();
        assert(bounded(before)) by {
            assert forall|k: int| 0 <= k < before.len() implies -0x1_0000_0000_0000_0000 <= (
            #[trigger] before[k]).amount <= 0x1_0000_0000_0000_0000 by {
                assert(before[k] == cs[k]);
            }
        }
        lemma_net_bound(before, owner, coin_type);
        assert(cs.last() == cs[cs.len() - 1]);
        assert(cs.len() * 0x1_0000_0000_0000_0000 == before.len() * 0x1_0000_0000_0000_0000
            + 0x1_0000_0000_0000_0000) by (nonlinear_arith)
            requires
                cs.len() == before.len() + 1,
        ;
    }
}

/// One more contribution to an owner and currency that have an entry.
proof fn lemma_step_existing(
    old: Seq<BalanceChangeView>,
    before: Seq<Contribution>,
    c: Contribution,
    at: int,
)
    requires
        is_net_of(old, before),
        is_entry_at(old, c.owner, c.coin_type, at),
        i128::MIN <= old[at].amount + c.amount <= i128::MAX,
    ensures
        is_net_of(
            old.update(
                at,
                BalanceChangeView { amount: (old[at].amount + c.amount) as i128, ..old[at] },
            ),
            before.push(c),
        ),
{
    let cs = before.push(c);
    let new = old.update(
        at,
        BalanceChangeView { amount: (old[at].amount + c.amount) as i128, ..old[at] },
    );
    assert(cs.drop_last() =~= before);
    assert(cs.last() == c);
    assert(entries_distinct(new)) by {
        assert forall|i: int, j: int| 0 <= i < j < new.len() implies !#[trigger] same_entry(
            new[i],
            new[j],
        ) by {
            assert(!same_entry(old[i], old[j]));
        }
    }
    assert(amounts_are_net(new, cs)) by {
        assert forall|i: int| 0 <= i < new.len() implies (#[trigger] new[i]).amount == net(
            cs,
            new[i].owner,
            new[i].coin_type,
        ) by {
            assert(old[i].amount == net(before, old[i].owner, old[i].coin_type));
            if i < at {
                assert(!same_entry(old[i], old[at]));
            } else if at < i {
                assert(!same_entry(old[at], old[i]));
            }
        }
    }
    assert(entries_used(new, cs)) by {
        assert forall|i: int| 0 <= i < new.len() implies #[trigger] has_contribution(
            cs,
            new[i],
        ) by {
            assert(has_contribution(before, old[i]));
            let k = choose|k: int| 0 <= k < before.len() && #[trigger] goes_to(before[k], old[i]);
            assert(goes_to(cs[k], new[i]));
        }
    }
    assert(contributions_entered(new, cs)) by {
        assert forall|k: int| 0 <= k < cs.len() implies #[trigger] has_entry(new, cs[k]) by {
            if k < before.len() {
                assert(has_entry(old, before[k]));
                let i = choose|i: int| 0 <= i < old.len() && #[trigger] goes_to(before[k], old[i]);
                assert(goes_to(cs[k], new[i]));
            } else {
                assert(goes_to(cs[k], new[at]));
            }
        }
    }
}

/// One more contribution to an owner and currency that have no entry yet.
proof fn lemma_step_new(old: Seq<BalanceChangeView>, before: Seq<Contribution>, c: Contribution)
    requires
        is_net_of(old, before),
        !exists|i: int| is_entry_at(old, c.owner, c.coin_type, i),
        i128::MIN <= c.amount <= i128::MAX,
    ensures
        is_net_of(
            old.push(
                BalanceChangeView {
                    owner: c.owner,
                    coin_type: c.coin_type,
                    amount: c.amount as i128,
                },
            ),
            before.push(c),
        ),
{
    let cs = before.push(c);
    let entry = BalanceChangeView {
        owner: c.owner,
        coin_type: c.coin_type,
        amount: c.amount as i128,
    };
    let new = old.push(entry);
    let n = old.len() as int;
    assert(cs.drop_last() =~= before);
    assert(cs.last() == c);
    assert forall|i: int| 0 <= i < n implies !(#[trigger] old[i].owner == c.owner
        && old[i].coin_type == c.coin_type) by {
        if old[i].owner == c.owner && old[i].coin_type == c.coin_type {
            lemma_first_entry(old, c.owner, c.coin_type, i);
        }
    }
    assert(net(before, c.owner, c.coin_type) == 0) by {
        assert forall|k: int| 0 <= k < before.len() implies !((#[trigger] before[k]).owner
            == c.owner && before[k].coin_type == c.coin_type) by {
            assert(has_entry(old, before[k]));
            let i = choose|i: int| 0 <= i < old.len() && #[trigger] goes_to(before[k], old[i]);
            assert(goes_to(before[k], old[i]));
            assert(!(old[i].owner == c.owner && old[i].coin_type == c.coin_type));
        }
        lemma_net_of_absent(before, c.owner, c.coin_type);
    }
    assert(entries_distinct(new)) by {
        assert forall|i: int, j: int| 0 <= i < j < new.len() implies !#[trigger] same_entry(
            new[i],
            new[j],
        ) by {
            if j < n {
                assert(!same_entry(old[i], old[j]));
            } else {
                assert(!(old[i].owner == c.owner && old[i].coin_type == c.coin_type));
            }
        }
    }
    assert(amounts_are_net(new, cs)) by {
        assert forall|i: int| 0 <= i < new.len() implies (#[trigger] new[i]).amount == net(
            cs,
            new[i].owner,
            new[i].coin_type,
        ) by {
            if i < n {
                assert(old[i].amount == net(before, old[i].owner, old[i].coin_type));
                assert(!(old[i].owner == c.owner && old[i].coin_type == c.coin_type));
            }
        }
    }
    assert(entries_used(new, cs)) by {
        assert forall|i: int| 0 <= i < new.len() implies #[trigger] has_contribution(
            cs,
            new[i],
        ) by {
            if i < n {
                assert(has_contribution(before, old[i]));
                let k = choose|k: int|
                    0 <= k < before.len() && #[trigger] goes_to(before[k], old[i]);
                assert(goes_to(cs[k], new[i]));
            } else {
                assert(goes_to(cs[cs.len() - 1], new[i]));
            }
        }
    }
    assert(contributions_entered(new, cs)) by {
        assert forall|k: int| 0 <= k < cs.len() implies #[trigger] has_entry(new, cs[k]) by {
            if k < before.len() {
                assert(has_entry(old, before[k]));
                let i = choose|i: int| 0 <= i < old.len() && #[trigger] goes_to(before[k], old[i]);
                assert(goes_to(cs[k], new[i]));
            } else {
                assert(goes_to(cs[k], new[n]));
            }
        }
    }
}

/// Bounded contributions, few enough for their sums to fit, add up to
/// their net.
pub proof fn lemma_summed_is_net(cs: Seq<Contribution>)
    requires
        bounded(cs),
        cs.len() < MAX_BALANCE_TERMS,
    ensures
        is_net_of(summed(cs), cs),
    decreases cs.len(),
{
    if cs.len() > 0 {
        let before = cs.drop_last();
        let c = cs.last();
        assert(c == cs[cs.len() - 1]);
        assert(before.push(c) =~= cs);
        assert(bounded(before)) by {
            assert forall|k: int| 0 <= k < before.len() implies -0x1_0000_0000_0000_0000 <= (
            #[trigger] before[k]).amount <= 0x1_0000_0000_0000_0000 by {
                assert(before[k] == cs[k]);
            }
        }
        lemma_summed_is_net(before);
        let old = summed(before);
        lemma_net_bound(before, c.owner, c.coin_type);
        assert(before.len() * 0x1_0000_0000_0000_0000 + 0x1_0000_0000_0000_0000
            <= 0x3fff_ffff_ffff_ffff * 0x1_0000_0000_0000_0000) by (nonlinear_arith)
            requires
                before.len() + 1 <= 0x3fff_ffff_ffff_ffff,
        ;
        if exists|i: int| is_entry_at(old, c.owner, c.coin_type, i) {
            let at = choose|i: int| is_entry_at(old, c.owner, c.coin_type, i);
            assert(old[at].amount == net(before, old[at].owner, old[at].coin_type));
            lemma_step_existing(old, before, c, at);
        } else {
            lemma_step_new(old, before, c);
        }
    } else {
        assert(is_net_of(summed(cs), cs));
    }
}

/// Where some entry is for the owner and the currency, a first one is.
proof fn lemma_first_entry(changes: Seq<BalanceChangeView>, owner: Owner, coin_type: Seq<char>, i: int)
    requires
        0 <= i < changes.len(),
        changes[i].owner == owner,
        changes[i].coin_type == coin_type,
    ensures
        exists|f: int| is_entry_at(changes, owner, coin_type, f),
    decreases i,
{
    if exists|j: int| 0 <= j < i && (#[trigger] changes[j]).owner == owner && changes[j].coin_type
        == coin_type {
        let j = choose|j: int|
            0 <= j < i && (#[trigger] changes[j]).owner == owner && changes[j].coin_type
                == coin_type;
        lemma_first_entry(changes, owner, coin_type, j);
    } else {
        assert(is_entry_at(changes, owner, coin_type, i));
    }
}

/// Where nothing is contributed to the owner in the currency, the net is
/// zero.
proof fn lemma_net_of_absent(cs: Seq<Contribution>, owner: Owner, coin_type: Seq<char>)
    requires
        forall|k: int|
            0 <= k < cs.len() ==> !((#[trigger] cs[k]).owner == owner && cs[k].coin_type
                == coin_type),
    ensures
        net(cs, owner, coin_type) == 0,
    decreases cs.len(),
{
    if cs.len() > 0 {
        assert forall|k: int| 0 <= k < cs.drop_last().len() implies !((
        #[trigger] cs.drop_last()[k]).owner == owner && cs.drop_last()[k].coin_type
            == coin_type) by {
            assert(cs.drop_last()[k] == cs[k]);
        }
        lemma_net_of_absent(cs.drop_last(), owner, coin_type);
        assert(cs.last() == cs[cs.len() - 1]);
    }
}


/// The contributions of written objects are bounded, at most one for each
/// object, and the balance changes after them are their sums.
proof fn lemma_written_summed(store: StorageView, written: Seq<ObjectView>, upto: int)
    requires
        0 <= upto <= written.len(),
    ensures
        bounded(written_contributions(store, written, upto)),
        written_contributions(store, written, upto).len() <= upto,
        balances_after_written(store, written, upto) == summed(
            written_contributions(store, written, upto),
        ),
    decreases upto,
{
    if upto > 0 {
        lemma_written_summed(store, written, upto - 1);
        let done = written_contributions(store, written, upto - 1);
        match written_contribution(store, written[upto - 1]) {
            Some(c) => {
                let cs = done.push(c);
                assert(cs.drop_last() =~= done);
                assert(cs.last() == c);
                assert(bounded(cs)) by {
                    assert forall|k: int| 0 <= k < cs.len() implies -0x1_0000_0000_0000_0000 <= (
                    #[trigger] cs[k]).amount <= 0x1_0000_0000_0000_0000 by {
                        if k < done.len() {
                            assert(cs[k] == done[k]);
                        }
                    }
                }
            },
            None => {},
        }
    }
}

/// The contributions of a transaction are bounded, at most one for each
/// object, and the balance changes are their sums.
proof fn lemma_all_summed(
    store: StorageView,
    written: Seq<ObjectView>,
    tombstones: Seq<(ObjectID, SequenceNumber)>,
    upto: int,
)
    requires
        0 <= upto <= tombstones.len(),
    ensures
        bounded(contributions(store, written, tombstones, upto)),
        contributions(store, written, tombstones, upto).len() <= written.len() + upto,
        balances_after_tombstones(store, written, tombstones, upto) == summed(
            contributions(store, written, tombstones, upto),
        ),
    decreases upto,
{
    if upto > 0 {
        lemma_all_summed(store, written, tombstones, upto - 1);
        let done = contributions(store, written, tombstones, upto - 1);
        match tombstone_contribution(store, tombstones[upto - 1].0) {
            Some(c) => {
                let cs = done.push(c);
                assert(cs.drop_last() =~= done);
                assert(cs.last() == c);
                assert(bounded(cs)) by {
                    assert forall|k: int| 0 <= k < cs.len() implies -0x1_0000_0000_0000_0000 <= (
                    #[trigger] cs[k]).amount <= 0x1_0000_0000_0000_0000 by {
                        if k < done.len() {
                            assert(cs[k] == done[k]);
                        }
                    }
                }
            },
            None => {},
        }
    } else {
        lemma_written_summed(store, written, written.len() as int);
    }
}

/// The balance changes of a transaction are the net of what its coins
/// contribute: every created coin adds its balance to its owner, every
/// tombstoned coin takes its balance from its owner, and there is one entry
/// for every owner and currency that is touched.
pub proof fn lemma_balance_changes_are_net(
    store: StorageView,
    written: Seq<ObjectView>,
    tombstones: Seq<(ObjectID, SequenceNumber)>,
)
    requires
        written.len() + tombstones.len() < MAX_BALANCE_TERMS,
    ensures
        is_net_of(
            balance_changes(store, written, tombstones),
            contributions(store, written, tombstones, tombstones.len() as int),
        ),
{
    lemma_all_summed(store, written, tombstones, tombstones.len() as int);
    lemma_summed_is_net(contributions(store, written, tombstones, tombstones.len() as int));
}

} // verus!
