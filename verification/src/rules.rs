//! The rules: whether a transaction carries an app's state forward.
//!
//! Each rule takes an app and a transaction and answers yes or no. None of
//! them changes anything or fails: data that cannot be read as the rule
//! needs it makes the answer no.

use vstd::prelude::*;

use crate::app::App;
use crate::codec::encoded_amount;
use crate::data::Data;
use crate::transaction::{attached, views, Transaction};

verus! {

/// The amount that each data value is, in order; `None` for one that is no
/// amount.
pub open spec fn amounts(data: Seq<Seq<u8>>) -> Seq<Option<u64>> {
    Seq::new(data.len(), |i: int| encoded_amount(data[i]))
}

/// The sum of the amounts. What is no amount adds nothing.
pub open spec fn sum(amounts: Seq<Option<u64>>) -> nat
    decreases amounts.len(),
{
    if amounts.len() == 0 {
        0
    } else {
        sum(amounts.drop_last()) + match amounts.last() {
            Some(amount) => amount as nat,
            None => 0,
        }
    }
}

/// The total of the amounts: their sum, where each of them is an amount
/// and the sum is no more than `u64::MAX`; else `None`.
pub open spec fn total(amounts: Seq<Option<u64>>) -> Option<u64> {
    if (forall|i: int| 0 <= i < amounts.len() ==> amounts[i] is Some) && sum(amounts)
        <= u64::MAX {
        Some(sum(amounts) as u64)
    } else {
        None
    }
}

/// Whether what goes in and what comes out both have a total, and the same
/// one.
pub open spec fn balanced(ins: Seq<Option<u64>>, outs: Seq<Option<u64>>) -> bool {
    total(ins) is Some && total(ins) == total(outs)
}

/// Whether as many outputs as inputs carry data of `app`.
pub open spec fn simple_transfer(app: App, tx: Transaction) -> bool {
    attached(tx.ins(), app).len() == attached(tx.outs(), app).len()
}

/// Whether the amounts of `app` on the inputs and those on the outputs
/// both have a total, and the same one.
pub open spec fn token_balanced(app: App, tx: Transaction) -> bool {
    balanced(amounts(attached(tx.ins(), app)), amounts(attached(tx.outs(), app)))
}

/// Whether one input and one output carry data of `app`, and the same
/// data.
pub open spec fn nft_preserved(app: App, tx: Transaction) -> bool {
    let ins = attached(tx.ins(), app);
    let outs = attached(tx.outs(), app);
    ins.len() == 1 && outs.len() == 1 && ins[0] == outs[0]
}

/// The sum of the first amounts is no more than the sum of all.
proof fn lemma_sum_of_prefix(amounts: Seq<Option<u64>>, i: int)
    requires
        0 <= i <= amounts.len(),
    ensures
        sum(amounts.take(i)) <= sum(amounts),
    decreases amounts.len(),
{
    if i == amounts.len() {
        assert(amounts.take(i) =~= amounts);
    } else {
        lemma_sum_of_prefix(amounts.drop_last(), i);
        assert(amounts.drop_last().take(i) =~= amounts.take(i));
    }
}

/// The total of the amounts.
pub fn checked_total(amounts: &[Option<u64>]) -> (r: Option<u64>)
    ensures
        r == total(amounts@),
{
    let mut acc: u64 = 0;
    let mut i: usize = 0;
    while i < amounts.len()
        invariant
            i <= amounts.len(),
            acc == sum(amounts@.take(i as int)),
            forall|k: int| 0 <= k < i ==> amounts@[k] is Some,
        decreases amounts.len() - i,
    {
        proof {
            assert(amounts@.take(i + 1).drop_last() =~= amounts@.take(i as int));
            assert(amounts@.take(i + 1).last() == amounts@[i as int]);
            lemma_sum_of_prefix(amounts@, i + 1);
        }
        match amounts[i] {
            Some(amount) => {
                match acc.checked_add(amount) {
                    Some(next) => {
                        acc = next;
                    },
                    None => {
                        return None;
                    },
                }
            },
            None => {
                return None;
            },
        }
        i += 1;
    }
    assert(amounts@.take(amounts.len() as int) =~= amounts@);
    Some(acc)
}

/// Whether what goes in and what comes out both have a total, and the same
/// one. An amount that is missing, or a sum over `u64::MAX`, on either
/// side makes the answer no.
pub fn amounts_balanced(ins: &[Option<u64>], outs: &[Option<u64>]) -> (r: bool)
    ensures
        r == balanced(ins@, outs@),
{
    match (checked_total(ins), checked_total(outs)) {
        (Some(amount_in), Some(amount_out)) => amount_in == amount_out,
        _ => false,
    }
}

/// The amount that each data value is, in order.
fn amounts_of(data: &Vec<&Data>) -> (r: Vec<Option<u64>>)
    ensures
        r@ == amounts(views(data@)),
{
    let mut r: Vec<Option<u64>> = Vec::new();
    let mut i: usize = 0;
    while i < data.len()
        invariant
            i <= data.len(),
            r.len() == i,
            forall|k: int| 0 <= k < i ==> r@[k] == encoded_amount(data@[k]@),
        decreases data.len() - i,
    {
        r.push(data[i].amount());
        i += 1;
    }
    assert(r@ =~= amounts(views(data@)));
    r
}

/// Whether the transaction neither adds to nor takes from the number of
/// outputs that carry data of `app`: as many outputs carry it as inputs
/// do. What the data is plays no part.
pub fn is_simple_transfer(app: &App, tx: &Transaction) -> (r: bool)
    ensures
        r == simple_transfer(*app, *tx),
{
    let ins = tx.input_data(app);
    let outs = tx.output_data(app);
    assert(views(ins@).len() == ins@.len());
    assert(views(outs@).len() == outs@.len());
    ins.len() == outs.len()
}

/// Whether the amounts of the token `app` are balanced: the amounts on the
/// inputs and those on the outputs have the same sum. Data of `app` that is
/// not an integer from 0 to `u64::MAX`, and a sum over `u64::MAX`, make the
/// answer no.
pub fn token_amounts_balanced(app: &App, tx: &Transaction) -> (r: bool)
    ensures
        r == token_balanced(*app, *tx),
{
    let ins = amounts_of(&tx.input_data(app));
    let outs = amounts_of(&tx.output_data(app));
    amounts_balanced(ins.as_slice(), outs.as_slice())
}

/// Whether the item `app` is carried forward: one input and one output
/// carry data of `app`, and the output carries the data of the input,
/// unchanged.
pub fn nft_state_preserved(app: &App, tx: &Transaction) -> (r: bool)
    ensures
        r == nft_preserved(*app, *tx),
{
    let ins = tx.input_data(app);
    let outs = tx.output_data(app);
    assert(views(ins@).len() == ins@.len());
    assert(views(outs@).len() == outs@.len());
    if ins.len() != 1 || outs.len() != 1 {
        return false;
    }
    assert(views(ins@)[0] == ins@[0]@);
    assert(views(outs@)[0] == outs@[0]@);
    *ins[0] == *outs[0]
}

impl Transaction {
    /// Whether as many outputs as inputs carry data of `app`.
    pub fn is_simple_transfer(&self, app: &App) -> (r: bool)
        ensures
            r == simple_transfer(*app, *self),
    {
        is_simple_transfer(app, self)
    }

    /// Whether the amounts of the token `app` are balanced.
    pub fn token_amounts_balanced(&self, app: &App) -> (r: bool)
        ensures
            r == token_balanced(*app, *self),
    {
        token_amounts_balanced(app, self)
    }

    /// Whether the item `app` is carried forward.
    pub fn nft_state_preserved(&self, app: &App) -> (r: bool)
        ensures
            r == nft_preserved(*app, *self),
    {
        nft_state_preserved(app, self)
    }
}

/// Where neither an input nor an output carries data of an app, the
/// transaction is a simple transfer of it and its amounts are balanced,
/// with nothing on either side; but no item of it is carried forward,
/// since that takes one input and one output.
pub proof fn lemma_absent_app(app: App, tx: Transaction)
    requires
        attached(tx.ins(), app).len() == 0,
        attached(tx.outs(), app).len() == 0,
    ensures
        simple_transfer(app, tx),
        token_balanced(app, tx),
        !nft_preserved(app, tx),
{
    let none = amounts(attached(tx.ins(), app));
    assert(none =~= amounts(attached(tx.outs(), app)));
    assert(sum(none) == 0);
}

/// A transaction that carries an item forward is a simple transfer of it.
pub proof fn lemma_preserved_is_simple(app: App, tx: Transaction)
    requires
        nft_preserved(app, tx),
    ensures
        simple_transfer(app, tx),
{
}

/// The number of items that carry data of an app is the number of data
/// values that the app has on them.
pub proof fn lemma_attached_counts(items: Seq<Map<App, Seq<u8>>>, app: App)
    ensures
        attached(items, app).len() == items.filter(
            |item: Map<App, Seq<u8>>| item.contains_key(app),
        ).len(),
    decreases items.len(),
{
    let carries = |item: Map<App, Seq<u8>>| item.contains_key(app);
    if items.len() == 0 {
        assert(items.filter(carries) =~= Seq::empty()) by {
            reveal(Seq::filter);
        }
    } else {
        lemma_attached_counts(items.drop_last(), app);
        assert(items.filter(carries) == if carries(items.last()) {
            items.drop_last().filter(carries).push(items.last())
        } else {
            items.drop_last().filter(carries)
        }) by {
            reveal(Seq::filter);
        }
    }
}

} // verus!
