//! Transactions: inputs, outputs, and the data that apps have on them.

use vstd::prelude::*;

use crate::app::App;
use crate::codec::null_encoding;
use crate::data::Data;
use crate::document::{document, write_document};
use crate::error::Error;
use crate::utxo::UtxoId;

verus! {

/// The data that one app has on one output.
#[derive(Debug, PartialEq, Eq)]
pub struct Charm {
    /// The app.
    pub app: App,
    /// The app's data on the output.
    pub data: Data,
}

/// An output of a transaction, with what the apps have on it. An app that
/// has nothing on the output has no entry.
#[derive(Debug, PartialEq, Eq)]
pub struct Output {
    /// One entry for each app that has data on the output.
    pub charms: Vec<Charm>,
}

/// An input of a transaction: an output of an earlier transaction, which
/// this one spends, with what the apps have on it.
#[derive(Debug, PartialEq, Eq)]
pub struct Input {
    /// The output that is spent.
    pub utxo_id: UtxoId,
    /// One entry for each app that has data on the output.
    pub charms: Vec<Charm>,
}

/// A transaction: its inputs and its outputs, each in order. The position
/// of an output is its index.
#[derive(Debug, PartialEq, Eq)]
pub struct Transaction {
    ins: Vec<Input>,
    outs: Vec<Output>,
}

/// What an app has on an output: the app and the encoding of its data.
pub type Entry = (App, Seq<u8>);

/// The entries that the charms are, in order.
pub open spec fn entries(charms: Seq<Charm>) -> Seq<Entry> {
    Seq::new(charms.len(), |i: int| (charms[i].app, charms[i].data@))
}

/// Whether the entries make a mapping from apps to their data: no app has
/// two entries, and no entry holds the empty value.
pub open spec fn well_formed(entries: Seq<Entry>) -> bool {
    &&& forall|i: int, j: int|
        0 <= i < j < entries.len() ==> (#[trigger] entries[i]).0 != (#[trigger] entries[j]).0
    &&& forall|i: int| 0 <= i < entries.len() ==> (#[trigger] entries[i]).1 != null_encoding()
}

/// The mapping that the entries make: from each app to its data.
pub open spec fn entries_map(entries: Seq<Entry>) -> Map<App, Seq<u8>>
    decreases entries.len(),
{
    if entries.len() == 0 {
        Map::empty()
    } else {
        entries_map(entries.drop_last()).insert(entries.last().0, entries.last().1)
    }
}

/// The inputs as plain values: for each, the output that it spends and
/// its entries.
pub open spec fn input_parts(ins: Seq<Input>) -> Seq<(UtxoId, Seq<Entry>)> {
    Seq::new(ins.len(), |i: int| (ins[i].utxo_id, entries(ins[i].charms@)))
}

/// The outputs as plain values: for each, its entries.
pub open spec fn output_parts(outs: Seq<Output>) -> Seq<Seq<Entry>> {
    Seq::new(outs.len(), |i: int| entries(outs[i].charms@))
}

/// Whether the entries of every input and of every output are well formed.
pub open spec fn all_well_formed(ins: Seq<(UtxoId, Seq<Entry>)>, outs: Seq<Seq<Entry>>) -> bool {
    &&& forall|i: int| 0 <= i < ins.len() ==> well_formed((#[trigger] ins[i]).1)
    &&& forall|i: int| 0 <= i < outs.len() ==> well_formed(#[trigger] outs[i])
}

/// The data that `app` has on the items, in the order of the items. An
/// item on which the app has nothing adds nothing.
pub open spec fn attached(items: Seq<Map<App, Seq<u8>>>, app: App) -> Seq<Seq<u8>>
    decreases items.len(),
{
    if items.len() == 0 {
        Seq::empty()
    } else {
        let before = attached(items.drop_last(), app);
        if items.last().contains_key(app) {
            before.push(items.last()[app])
        } else {
            before
        }
    }
}

/// The encodings of the data values, in order.
pub open spec fn views(data: Seq<&Data>) -> Seq<Seq<u8>> {
    Seq::new(data.len(), |i: int| data[i]@)
}

/// An app is in the mapping exactly if it has an entry, and the mapping
/// gives it the data of that entry.
proof fn lemma_entries_map(entries: Seq<Entry>, app: App)
    requires
        well_formed(entries),
    ensures
        entries_map(entries).contains_key(app) <==> exists|i: int|
            0 <= i < entries.len() && (#[trigger] entries[i]).0 == app,
        forall|i: int|
            0 <= i < entries.len() && (#[trigger] entries[i]).0 == app ==> entries_map(entries)[app]
                == entries[i].1,
    decreases entries.len(),
{
    if entries.len() > 0 {
        let head = entries.drop_last();
        let last = entries.last();
        assert forall|i: int| 0 <= i < head.len() implies head[i] == entries[i] by {}
        lemma_entries_map(head, app);
        if last.0 == app {
            assert(entries[entries.len() - 1].0 == app);
            assert forall|i: int| 0 <= i < entries.len() && (#[trigger] entries[i]).0
                == app implies i == entries.len() - 1 by {
                if i < entries.len() - 1 {
                    assert(entries[i].0 != entries[entries.len() - 1].0);
                }
            }
        } else {
            if entries_map(entries).contains_key(app) {
                let i = choose|i: int| 0 <= i < head.len() && (#[trigger] head[i]).0 == app;
                assert(entries[i].0 == app);
            }
            assert forall|i: int| 0 <= i < entries.len() && (#[trigger] entries[i]).0
                == app implies entries_map(entries)[app] == entries[i].1 by {
                assert(head[i].0 == app);
            }
        }
    }
}

/// Whether the entries are well formed.
fn is_well_formed(charms: &Vec<Charm>) -> (r: bool)
    ensures
        r == well_formed(entries(charms@)),
{
    let n = charms.len();
    let mut i: usize = 0;
    while i < n
        invariant
            n == charms.len(),
            i <= n,
            well_formed(entries(charms@).take(i as int)),
        decreases n - i,
    {
        if charms[i].data.is_empty() {
            assert(entries(charms@)[i as int].1 == null_encoding());
            return false;
        }
        let mut j: usize = 0;
        while j < i
            invariant
                n == charms.len(),
                i < n,
                j <= i,
                forall|k: int| 0 <= k < j ==> (#[trigger] charms@[k]).app != charms@[i as int].app,
            decreases i - j,
        {
            if charms[j].app == charms[i].app {
                assert(entries(charms@)[j as int].0 == entries(charms@)[i as int].0);
                return false;
            }
            j += 1;
        }
        proof {
            let before = entries(charms@).take(i as int);
            let after = entries(charms@).take(i + 1);
            assert forall|a: int, b: int| 0 <= a < b < after.len() implies (#[trigger] after[a]).0
                != (#[trigger] after[b]).0 by {
                if b < i {
                    assert(before[a].0 != before[b].0);
                } else {
                    assert(charms@[a].app != charms@[i as int].app);
                }
            }
            assert forall|a: int| 0 <= a < after.len() implies (#[trigger] after[a]).1
                != null_encoding() by {
                if a < i {
                    assert(before[a].1 != null_encoding());
                }
            }
        }
        i += 1;
    }
    assert(entries(charms@).take(n as int) =~= entries(charms@));
    true
}

/// The data that `app` has among the entries, if it has any.
fn find<'a>(charms: &'a Vec<Charm>, app: &App) -> (r: Option<&'a Data>)
    requires
        well_formed(entries(charms@)),
    ensures
        match r {
            Some(data) => {
                &&& entries_map(entries(charms@)).contains_key(*app)
                &&& entries_map(entries(charms@))[*app] == data@
                &&& !data.spec_is_empty()
            },
            None => !entries_map(entries(charms@)).contains_key(*app),
        },
{
    let mut i: usize = 0;
    while i < charms.len()
        invariant
            i <= charms.len(),
            well_formed(entries(charms@)),
            forall|k: int| 0 <= k < i ==> (#[trigger] entries(charms@)[k]).0 != *app,
        decreases charms.len() - i,
    {
        if charms[i].app == *app {
            proof {
                lemma_entries_map(entries(charms@), *app);
                assert(entries(charms@)[i as int].0 == *app);
            }
            return Some(&charms[i].data);
        }
        i += 1;
    }
    proof {
        lemma_entries_map(entries(charms@), *app);
    }
    None
}

impl Transaction {
    /// The inputs, in order: for each, the output that it spends and its
    /// entries.
    pub closed spec fn inputs(&self) -> Seq<(UtxoId, Seq<Entry>)> {
        input_parts(self.ins@)
    }

    /// The outputs, in order: for each, its entries.
    pub closed spec fn outputs(&self) -> Seq<Seq<Entry>> {
        output_parts(self.outs@)
    }

    /// The invariant: the entries of every input and output are well formed.
    #[verifier::type_invariant]
    pub open spec fn wf(&self) -> bool {
        all_well_formed(self.inputs(), self.outputs())
    }

    /// What the apps have on the inputs: one mapping for each input, in
    /// order.
    pub open spec fn ins(&self) -> Seq<Map<App, Seq<u8>>> {
        Seq::new(self.inputs().len(), |i: int| entries_map(self.inputs()[i].1))
    }

    /// The outputs that the inputs spend, in order.
    pub open spec fn spent(&self) -> Seq<UtxoId> {
        Seq::new(self.inputs().len(), |i: int| self.inputs()[i].0)
    }

    /// What the apps have on the outputs: one mapping for each output, in
    /// order.
    pub open spec fn outs(&self) -> Seq<Map<App, Seq<u8>>> {
        Seq::new(self.outputs().len(), |i: int| entries_map(self.outputs()[i]))
    }

    /// The transaction with these inputs and outputs. It is refused with
    /// `MalformedTransaction` where, on some input or output, an app has
    /// two entries or an entry holds the empty value.
    pub fn new(ins: Vec<Input>, outs: Vec<Output>) -> (r: Result<Transaction, Error>)
        ensures
            match r {
                Ok(tx) => {
                    &&& tx.wf()
                    &&& tx.inputs() == input_parts(ins@)
                    &&& tx.outputs() == output_parts(outs@)
                },
                Err(e) => {
                    &&& !all_well_formed(input_parts(ins@), output_parts(outs@))
                    &&& e == Error::MalformedTransaction
                },
            },
    {
        let mut i: usize = 0;
        while i < ins.len()
            invariant
                i <= ins.len(),
                forall|k: int| 0 <= k < i ==> well_formed((#[trigger] input_parts(ins@)[k]).1),
            decreases ins.len() - i,
        {
            if !is_well_formed(&ins[i].charms) {
                assert(!well_formed(input_parts(ins@)[i as int].1));
                return Err(Error::MalformedTransaction);
            }
            i += 1;
        }
        let mut j: usize = 0;
        while j < outs.len()
            invariant
                j <= outs.len(),
                forall|k: int| 0 <= k < j ==> well_formed(#[trigger] output_parts(outs@)[k]),
            decreases outs.len() - j,
        {
            if !is_well_formed(&outs[j].charms) {
                assert(!well_formed(output_parts(outs@)[j as int]));
                return Err(Error::MalformedTransaction);
            }
            j += 1;
        }
        Ok(Transaction { ins, outs })
    }

    /// The JSON document that describes the transaction. A transaction
    /// with data that JSON cannot describe is refused with
    /// `DeserializeError`.
    pub fn to_json(&self) -> (r: Result<String, Error>)
        ensures
            match r {
                Ok(text) => document(self.inputs(), self.outputs()) == Some(text@),
                Err(e) => {
                    &&& e == Error::DeserializeError
                    &&& document(self.inputs(), self.outputs()) is None
                },
            },
    {
        match write_document(&self.ins, &self.outs) {
            Some(text) => Ok(text),
            None => Err(Error::DeserializeError),
        }
    }

    /// The number of inputs.
    pub fn num_inputs(&self) -> (r: usize)
        ensures
            r == self.inputs().len(),
    {
        self.ins.len()
    }

    /// The number of outputs.
    pub fn num_outputs(&self) -> (r: usize)
        ensures
            r == self.outputs().len(),
    {
        self.outs.len()
    }

    /// Input number `i`, counted from zero, if there is one.
    pub fn input(&self, i: usize) -> (r: Option<&Input>)
        ensures
            match r {
                Some(input) => {
                    &&& i < self.inputs().len()
                    &&& self.inputs()[i as int] == (input.utxo_id, entries(input.charms@))
                },
                None => i >= self.inputs().len(),
            },
    {
        proof {
            use_type_invariant(self);
        }
        if i < self.ins.len() {
            Some(&self.ins[i])
        } else {
            None
        }
    }

    /// Output number `i`, counted from zero, if there is one.
    pub fn output(&self, i: usize) -> (r: Option<&Output>)
        ensures
            match r {
                Some(output) => {
                    &&& i < self.outputs().len()
                    &&& self.outputs()[i as int] == entries(output.charms@)
                },
                None => i >= self.outputs().len(),
            },
    {
        proof {
            use_type_invariant(self);
        }
        if i < self.outs.len() {
            Some(&self.outs[i])
        } else {
            None
        }
    }

    /// The data that `app` has on the inputs, in the order of the inputs.
    /// None of it is the empty value.
    pub fn input_data<'a>(&'a self, app: &App) -> (r: Vec<&'a Data>)
        ensures
            views(r@) == attached(self.ins(), *app),
            forall|k: int| 0 <= k < r@.len() ==> !(#[trigger] r@[k]).spec_is_empty(),
    {
        proof {
            use_type_invariant(self);
        }
        let mut r: Vec<&Data> = Vec::new();
        let mut i: usize = 0;
        while i < self.ins.len()
            invariant
                i <= self.ins.len(),
                self.wf(),
                views(r@) == attached(self.ins().take(i as int), *app),
                forall|k: int| 0 <= k < r@.len() ==> !(#[trigger] r@[k]).spec_is_empty(),
            decreases self.ins.len() - i,
        {
            assert(self.inputs()[i as int].1 == entries(self.ins@[i as int].charms@));
            match find(&self.ins[i].charms, app) {
                Some(data) => {
                    r.push(data);
                },
                None => {},
            }
            proof {
                let items = self.ins().take(i + 1);
                assert(items.drop_last() =~= self.ins().take(i as int));
                assert(items.last() == entries_map(self.inputs()[i as int].1));
                assert(views(r@) =~= attached(items, *app));
            }
            i += 1;
        }
        assert(self.ins().take(self.ins.len() as int) =~= self.ins());
        r
    }

    /// The data that `app` has on the outputs, in the order of the outputs.
    /// None of it is the empty value.
    pub fn output_data<'a>(&'a self, app: &App) -> (r: Vec<&'a Data>)
        ensures
            views(r@) == attached(self.outs(), *app),
            forall|k: int| 0 <= k < r@.len() ==> !(#[trigger] r@[k]).spec_is_empty(),
    {
        proof {
            use_type_invariant(self);
        }
        let mut r: Vec<&Data> = Vec::new();
        let mut i: usize = 0;
        while i < self.outs.len()
            invariant
                i <= self.outs.len(),
                self.wf(),
                views(r@) == attached(self.outs().take(i as int), *app),
                forall|k: int| 0 <= k < r@.len() ==> !(#[trigger] r@[k]).spec_is_empty(),
            decreases self.outs.len() - i,
        {
            assert(self.outputs()[i as int] == entries(self.outs@[i as int].charms@));
            match find(&self.outs[i].charms, app) {
                Some(data) => {
                    r.push(data);
                },
                None => {},
            }
            proof {
                let items = self.outs().take(i + 1);
                assert(items.drop_last() =~= self.outs().take(i as int));
                assert(items.last() == entries_map(self.outputs()[i as int]));
                assert(views(r@) =~= attached(items, *app));
            }
            i += 1;
        }
        assert(self.outs().take(self.outs.len() as int) =~= self.outs());
        r
    }
}

} // verus!
