//! The JSON document of a transaction.
//!
//! The document is an object with two members, `ins` and `outs`, both
//! arrays. An element of `ins` is an array of two: the text of the output
//! that is spent, and its charms. An element of `outs` is the charms of the
//! output. Charms are an object: each member has the text of an app as its
//! name and the app's data as its value. Other members of the document are
//! passed over.

use vstd::prelude::*;

use crate::app::App;
use crate::codec::{
    document_elements, document_encoding, document_members, document_string, elements,
    encoded_document, members, pairs_view, quote, string_document, texts_view, unquote,
};
use crate::data::Data;
use crate::error::Error;
use crate::text::{push_chars, push_text, string_of};
use crate::transaction::{
    all_well_formed, entries, input_parts, output_parts, Charm, Entry, Input, Output, Transaction,
};
use crate::utxo::UtxoId;

verus! {

/// The items, where each of them is there; else `None`.
pub open spec fn collect<T>(items: Seq<Option<T>>) -> Option<Seq<T>> {
    if forall|i: int| 0 <= i < items.len() ==> (#[trigger] items[i]) is Some {
        Some(Seq::new(items.len(), |i: int| items[i]->0))
    } else {
        None
    }
}

/// The value of the first member called `name`, if there is one.
pub open spec fn member(members: Seq<(Seq<char>, Seq<char>)>, name: Seq<char>) -> Option<
    Seq<char>,
>
    decreases members.len(),
{
    if members.len() == 0 {
        None
    } else if members[0].0 == name {
        Some(members[0].1)
    } else {
        member(members.drop_first(), name)
    }
}

/// The name of the member that holds the inputs.
pub open spec fn ins_name() -> Seq<char> {
    seq!['i', 'n', 's']
}

/// The name of the member that holds the outputs.
pub open spec fn outs_name() -> Seq<char> {
    seq!['o', 'u', 't', 's']
}

/// The entry that a member of a charms object describes: its name is the
/// text of the app, its value the data.
pub open spec fn entry_of(member: (Seq<char>, Seq<char>)) -> Option<Entry> {
    match (App::parse(member.0), document_encoding(member.1)) {
        (Some(app), Some(data)) => Some((app, data)),
        _ => None,
    }
}

/// The entries that a charms object describes.
pub open spec fn entries_of(text: Seq<char>) -> Option<Seq<Entry>> {
    match document_members(text) {
        Some(members) => collect(Seq::new(members.len(), |i: int| entry_of(members[i]))),
        None => None,
    }
}

/// The input that an element of `ins` describes.
pub open spec fn input_of(text: Seq<char>) -> Option<(UtxoId, Seq<Entry>)> {
    match document_elements(text) {
        Some(parts) => if parts.len() == 2 {
            match (document_string(parts[0]), entries_of(parts[1])) {
                (Some(id), Some(entries)) => match UtxoId::parse(id) {
                    Some(utxo_id) => Some((utxo_id, entries)),
                    None => None,
                },
                _ => None,
            }
        } else {
            None
        },
        None => None,
    }
}

/// The inputs that the value of `ins` describes.
pub open spec fn inputs_of(text: Seq<char>) -> Option<Seq<(UtxoId, Seq<Entry>)>> {
    match document_elements(text) {
        Some(items) => collect(Seq::new(items.len(), |i: int| input_of(items[i]))),
        None => None,
    }
}

/// The outputs that the value of `outs` describes.
pub open spec fn outputs_of(text: Seq<char>) -> Option<Seq<Seq<Entry>>> {
    match document_elements(text) {
        Some(items) => collect(Seq::new(items.len(), |i: int| entries_of(items[i]))),
        None => None,
    }
}

/// The inputs and outputs that a document describes; `None` where the
/// text is no document of a transaction.
pub open spec fn parts_of(text: Seq<char>) -> Option<(Seq<(UtxoId, Seq<Entry>)>, Seq<Seq<Entry>>)> {
    match document_members(text) {
        Some(members) => match (member(members, ins_name()), member(members, outs_name())) {
            (Some(ins), Some(outs)) => match (inputs_of(ins), outputs_of(outs)) {
                (Some(ins), Some(outs)) => Some((ins, outs)),
                _ => None,
            },
            _ => None,
        },
        None => None,
    }
}

/// The texts, with a comma between each two.
pub open spec fn joined(texts: Seq<Seq<char>>) -> Seq<char>
    decreases texts.len(),
{
    if texts.len() == 0 {
        Seq::empty()
    } else if texts.len() == 1 {
        texts[0]
    } else {
        joined(texts.drop_last()) + seq![','] + texts.last()
    }
}

/// The member of a charms object that describes the entry; `None` where
/// JSON cannot describe the data.
pub open spec fn entry_text(entry: Entry) -> Option<Seq<char>> {
    match encoded_document(entry.1) {
        Some(data) => Some(string_document(entry.0.text()) + seq![':'] + data),
        None => None,
    }
}

/// The charms object that describes the entries.
pub open spec fn entries_text(entries: Seq<Entry>) -> Option<Seq<char>> {
    match collect(Seq::new(entries.len(), |i: int| entry_text(entries[i]))) {
        Some(texts) => Some(seq!['{'] + joined(texts) + seq!['}']),
        None => None,
    }
}

/// The element of `ins` that describes the input.
pub open spec fn input_text(input: (UtxoId, Seq<Entry>)) -> Option<Seq<char>> {
    match entries_text(input.1) {
        Some(charms) => Some(
            seq!['['] + string_document(input.0.text()) + seq![','] + charms + seq![']'],
        ),
        None => None,
    }
}

/// The value of `ins` that describes the inputs.
pub open spec fn inputs_text(inputs: Seq<(UtxoId, Seq<Entry>)>) -> Option<Seq<char>> {
    match collect(Seq::new(inputs.len(), |i: int| input_text(inputs[i]))) {
        Some(texts) => Some(seq!['['] + joined(texts) + seq![']']),
        None => None,
    }
}

/// The value of `outs` that describes the outputs.
pub open spec fn outputs_text(outputs: Seq<Seq<Entry>>) -> Option<Seq<char>> {
    match collect(Seq::new(outputs.len(), |i: int| entries_text(outputs[i]))) {
        Some(texts) => Some(seq!['['] + joined(texts) + seq![']']),
        None => None,
    }
}

/// The document that describes the inputs and outputs; `None` where JSON
/// cannot describe the data of some entry.
pub open spec fn document(inputs: Seq<(UtxoId, Seq<Entry>)>, outputs: Seq<Seq<Entry>>) -> Option<
    Seq<char>,
> {
    match (inputs_text(inputs), outputs_text(outputs)) {
        (Some(ins), Some(outs)) => Some(
            seq!['{'] + string_document(ins_name()) + seq![':'] + ins + seq![','] + string_document(
                outs_name(),
            ) + seq![':'] + outs + seq!['}'],
        ),
        _ => None,
    }
}

/// The views of a list of texts.
pub open spec fn lists_view(texts: Seq<Vec<char>>) -> Seq<Seq<char>> {
    Seq::new(texts.len(), |i: int| texts[i]@)
}

/// The value of the first member called `name`, if there is one.
fn find_member<'a>(list: &'a Vec<(String, String)>, name: &str) -> (r: Option<&'a str>)
    ensures
        match r {
            Some(value) => member(pairs_view(list@), name@) == Some(value@),
            None => member(pairs_view(list@), name@) is None,
        },
{
    let ghost all = pairs_view(list@);
    let wanted = name.to_owned();
    let mut i: usize = 0;
    assert(all.skip(0) =~= all);
    while i < list.len()
        invariant
            i <= list.len(),
            all == pairs_view(list@),
            wanted@ == name@,
            member(all, name@) == member(all.skip(i as int), name@),
        decreases list.len() - i,
    {
        proof {
            assert(all.skip(i as int)[0] == all[i as int]);
            assert(all.skip(i as int).drop_first() =~= all.skip(i + 1));
        }
        if list[i].0 == wanted {
            return Some(list[i].1.as_str());
        }
        i += 1;
    }
    assert(all.skip(list.len() as int).len() == 0);
    None
}

/// The charms that a charms object describes.
fn read_charms(text: &str) -> (r: Option<Vec<Charm>>)
    ensures
        match r {
            Some(charms) => entries_of(text@) == Some(entries(charms@)),
            None => entries_of(text@) is None,
        },
{
    let list = match members(text) {
        Some(list) => list,
        None => {
            return None;
        },
    };
    let ghost items = Seq::new(list@.len(), |i: int| entry_of(pairs_view(list@)[i]));
    let mut charms: Vec<Charm> = Vec::new();
    let mut i: usize = 0;
    while i < list.len()
        invariant
            i <= list.len(),
            charms.len() == i,
            document_members(text@) == Some(pairs_view(list@)),
            items == Seq::new(list@.len(), |i: int| entry_of(pairs_view(list@)[i])),
            forall|k: int|
                0 <= k < i ==> items[k] == Some(
                    ((#[trigger] charms@[k]).app, charms@[k].data@),
                ),
        decreases list.len() - i,
    {
        let app = App::from_str(list[i].0.as_str());
        let data = Data::from_json(list[i].1.as_str());
        match (app, data) {
            (Ok(app), Ok(data)) => {
                charms.push(Charm { app, data });
            },
            _ => {
                assert(items[i as int] is None);
                return None;
            },
        }
        i += 1;
    }
    proof {
        assert forall|k: int| 0 <= k < items.len() implies (#[trigger] items[k]) is Some by {
            assert(items[k] == Some((charms@[k].app, charms@[k].data@)));
        }
        assert(collect(items)->0 =~= entries(charms@)) by {
            assert forall|k: int| 0 <= k < items.len() implies collect(items)->0[k] == entries(
                charms@,
            )[k] by {
                assert(items[k] == Some((charms@[k].app, charms@[k].data@)));
            }
        }
    }
    Some(charms)
}

/// The input that an element of `ins` describes.
fn read_input(text: &str) -> (r: Option<Input>)
    ensures
        match r {
            Some(input) => input_of(text@) == Some((input.utxo_id, entries(input.charms@))),
            None => input_of(text@) is None,
        },
{
    let parts = match elements(text) {
        Some(parts) => parts,
        None => {
            return None;
        },
    };
    if parts.len() != 2 {
        return None;
    }
    assert(texts_view(parts@)[0] == parts@[0]@);
    assert(texts_view(parts@)[1] == parts@[1]@);
    let id = match unquote(parts[0].as_str()) {
        Some(id) => id,
        None => {
            return None;
        },
    };
    let charms = match read_charms(parts[1].as_str()) {
        Some(charms) => charms,
        None => {
            return None;
        },
    };
    match UtxoId::from_str(id.as_str()) {
        Ok(utxo_id) => Some(Input { utxo_id, charms }),
        Err(_) => None,
    }
}

/// The inputs that the value of `ins` describes.
fn read_inputs(text: &str) -> (r: Option<Vec<Input>>)
    ensures
        match r {
            Some(ins) => inputs_of(text@) == Some(input_parts(ins@)),
            None => inputs_of(text@) is None,
        },
{
    let list = match elements(text) {
        Some(list) => list,
        None => {
            return None;
        },
    };
    let ghost items = Seq::new(list@.len(), |i: int| input_of(texts_view(list@)[i]));
    let mut ins: Vec<Input> = Vec::new();
    let mut i: usize = 0;
    while i < list.len()
        invariant
            i <= list.len(),
            ins.len() == i,
            document_elements(text@) == Some(texts_view(list@)),
            items == Seq::new(list@.len(), |i: int| input_of(texts_view(list@)[i])),
            forall|k: int|
                0 <= k < i ==> items[k] == Some(
                    ((#[trigger] ins@[k]).utxo_id, entries(ins@[k].charms@)),
                ),
        decreases list.len() - i,
    {
        assert(texts_view(list@)[i as int] == list@[i as int]@);
        match read_input(list[i].as_str()) {
            Some(input) => {
                ins.push(input);
            },
            None => {
                assert(items[i as int] is None);
                return None;
            },
        }
        i += 1;
    }
    proof {
        assert forall|k: int| 0 <= k < items.len() implies (#[trigger] items[k]) is Some by {
            assert(items[k] == Some((ins@[k].utxo_id, entries(ins@[k].charms@))));
        }
        assert(collect(items)->0 =~= input_parts(ins@)) by {
            assert forall|k: int| 0 <= k < items.len() implies collect(items)->0[k]
                == input_parts(ins@)[k] by {
                assert(items[k] == Some((ins@[k].utxo_id, entries(ins@[k].charms@))));
            }
        }
    }
    Some(ins)
}

/// The outputs that the value of `outs` describes.
fn read_outputs(text: &str) -> (r: Option<Vec<Output>>)
    ensures
        match r {
            Some(outs) => outputs_of(text@) == Some(output_parts(outs@)),
            None => outputs_of(text@) is None,
        },
{
    let list = match elements(text) {
        Some(list) => list,
        None => {
            return None;
        },
    };
    let ghost items = Seq::new(list@.len(), |i: int| entries_of(texts_view(list@)[i]));
    let mut outs: Vec<Output> = Vec::new();
    let mut i: usize = 0;
    while i < list.len()
        invariant
            i <= list.len(),
            outs.len() == i,
            document_elements(text@) == Some(texts_view(list@)),
            items == Seq::new(list@.len(), |i: int| entries_of(texts_view(list@)[i])),
            forall|k: int| 0 <= k < i ==> items[k] == Some(entries((#[trigger] outs@[k]).charms@)),
        decreases list.len() - i,
    {
        assert(texts_view(list@)[i as int] == list@[i as int]@);
        match read_charms(list[i].as_str()) {
            Some(charms) => {
                outs.push(Output { charms });
            },
            None => {
                assert(items[i as int] is None);
                return None;
            },
        }
        i += 1;
    }
    proof {
        assert forall|k: int| 0 <= k < items.len() implies (#[trigger] items[k]) is Some by {
            assert(items[k] == Some(entries(outs@[k].charms@)));
        }
        assert(collect(items)->0 =~= output_parts(outs@)) by {
            assert forall|k: int| 0 <= k < items.len() implies collect(items)->0[k]
                == output_parts(outs@)[k] by {
                assert(items[k] == Some(entries(outs@[k].charms@)));
            }
        }
    }
    Some(outs)
}

/// The inputs and outputs that a document describes.
fn read_parts(text: &str) -> (r: Option<(Vec<Input>, Vec<Output>)>)
    ensures
        match r {
            Some((ins, outs)) => parts_of(text@) == Some((input_parts(ins@), output_parts(outs@))),
            None => parts_of(text@) is None,
        },
{
    let list = match members(text) {
        Some(list) => list,
        None => {
            return None;
        },
    };
    proof {
        reveal_strlit("ins");
        reveal_strlit("outs");
        assert("ins"@ =~= ins_name());
        assert("outs"@ =~= outs_name());
    }
    let ins = match find_member(&list, "ins") {
        Some(text) => read_inputs(text),
        None => {
            return None;
        },
    };
    let outs = match find_member(&list, "outs") {
        Some(text) => read_outputs(text),
        None => {
            return None;
        },
    };
    match (ins, outs) {
        (Some(ins), Some(outs)) => Some((ins, outs)),
        _ => None,
    }
}

/// Appends the texts to `out`, with a comma between each two.
fn push_joined(out: &mut Vec<char>, texts: &Vec<Vec<char>>)
    ensures
        final(out)@ == old(out)@ + joined(lists_view(texts@)),
{
    let ghost all = lists_view(texts@);
    let mut i: usize = 0;
    while i < texts.len()
        invariant
            i <= texts.len(),
            all == lists_view(texts@),
            out@ == old(out)@ + joined(all.take(i as int)),
        decreases texts.len() - i,
    {
        if i > 0 {
            out.push(',');
        }
        push_chars(out, texts[i].as_slice());
        proof {
            let next = all.take(i + 1);
            assert(next.drop_last() =~= all.take(i as int));
            assert(next.last() == texts@[i as int]@);
            assert(out@ =~= old(out)@ + joined(next));
        }
        i += 1;
    }
    assert(all.take(texts.len() as int) =~= all);
}

/// The member of a charms object that describes the charm.
fn write_charm(charm: &Charm) -> (r: Option<Vec<char>>)
    ensures
        match r {
            Some(text) => entry_text((charm.app, charm.data@)) == Some(text@),
            None => entry_text((charm.app, charm.data@)) is None,
        },
{
    let data = match charm.data.to_json() {
        Ok(data) => data,
        Err(_) => {
            return None;
        },
    };
    let name = quote(charm.app.to_string().as_str());
    let mut out: Vec<char> = Vec::new();
    push_text(&mut out, name.as_str());
    out.push(':');
    push_text(&mut out, data.as_str());
    assert(out@ =~= string_document(charm.app.text()) + seq![':'] + data@);
    Some(out)
}

/// The charms object that describes the charms.
fn write_charms(charms: &Vec<Charm>) -> (r: Option<Vec<char>>)
    ensures
        match r {
            Some(text) => entries_text(entries(charms@)) == Some(text@),
            None => entries_text(entries(charms@)) is None,
        },
{
    let ghost items = Seq::new(charms@.len(), |i: int| entry_text(entries(charms@)[i]));
    let mut texts: Vec<Vec<char>> = Vec::new();
    let mut i: usize = 0;
    while i < charms.len()
        invariant
            i <= charms.len(),
            texts.len() == i,
            items == Seq::new(charms@.len(), |i: int| entry_text(entries(charms@)[i])),
            forall|k: int| 0 <= k < i ==> items[k] == Some((#[trigger] texts@[k])@),
        decreases charms.len() - i,
    {
        match write_charm(&charms[i]) {
            Some(text) => {
                texts.push(text);
            },
            None => {
                assert(items[i as int] is None);
                return None;
            },
        }
        i += 1;
    }
    proof {
        assert forall|k: int| 0 <= k < items.len() implies (#[trigger] items[k]) is Some by {
            assert(items[k] == Some(texts@[k]@));
        }
        assert(collect(items)->0 =~= lists_view(texts@)) by {
            assert forall|k: int| 0 <= k < items.len() implies collect(items)->0[k] == lists_view(
                texts@,
            )[k] by {
                assert(items[k] == Some(texts@[k]@));
            }
        }
    }
    let mut out: Vec<char> = Vec::new();
    out.push('{');
    push_joined(&mut out, &texts);
    out.push('}');
    assert(out@ =~= seq!['{'] + joined(lists_view(texts@)) + seq!['}']);
    Some(out)
}

/// The element of `ins` that describes the input.
fn write_input(input: &Input) -> (r: Option<Vec<char>>)
    ensures
        match r {
            Some(text) => input_text((input.utxo_id, entries(input.charms@))) == Some(text@),
            None => input_text((input.utxo_id, entries(input.charms@))) is None,
        },
{
    let charms = match write_charms(&input.charms) {
        Some(charms) => charms,
        None => {
            return None;
        },
    };
    let id = quote(input.utxo_id.to_string().as_str());
    let mut out: Vec<char> = Vec::new();
    out.push('[');
    push_text(&mut out, id.as_str());
    out.push(',');
    push_chars(&mut out, charms.as_slice());
    out.push(']');
    assert(out@ =~= seq!['['] + string_document(input.utxo_id.text()) + seq![','] + charms@
        + seq![']']);
    Some(out)
}

/// The value of `ins` that describes the inputs.
fn write_inputs(ins: &Vec<Input>) -> (r: Option<Vec<char>>)
    ensures
        match r {
            Some(text) => inputs_text(input_parts(ins@)) == Some(text@),
            None => inputs_text(input_parts(ins@)) is None,
        },
{
    let ghost items = Seq::new(ins@.len(), |i: int| input_text(input_parts(ins@)[i]));
    let mut texts: Vec<Vec<char>> = Vec::new();
    let mut i: usize = 0;
    while i < ins.len()
        invariant
            i <= ins.len(),
            texts.len() == i,
            items == Seq::new(ins@.len(), |i: int| input_text(input_parts(ins@)[i])),
            forall|k: int| 0 <= k < i ==> items[k] == Some((#[trigger] texts@[k])@),
        decreases ins.len() - i,
    {
        match write_input(&ins[i]) {
            Some(text) => {
                texts.push(text);
            },
            None => {
                assert(items[i as int] is None);
                return None;
            },
        }
        i += 1;
    }
    proof {
        assert forall|k: int| 0 <= k < items.len() implies (#[trigger] items[k]) is Some by {
            assert(items[k] == Some(texts@[k]@));
        }
        assert(collect(items)->0 =~= lists_view(texts@)) by {
            assert forall|k: int| 0 <= k < items.len() implies collect(items)->0[k] == lists_view(
                texts@,
            )[k] by {
                assert(items[k] == Some(texts@[k]@));
            }
        }
    }
    let mut out: Vec<char> = Vec::new();
    out.push('[');
    push_joined(&mut out, &texts);
    out.push(']');
    assert(out@ =~= seq!['['] + joined(lists_view(texts@)) + seq![']']);
    Some(out)
}

/// The value of `outs` that describes the outputs.
fn write_outputs(outs: &Vec<Output>) -> (r: Option<Vec<char>>)
    ensures
        match r {
            Some(text) => outputs_text(output_parts(outs@)) == Some(text@),
            None => outputs_text(output_parts(outs@)) is None,
        },
{
    let ghost items = Seq::new(outs@.len(), |i: int| entries_text(output_parts(outs@)[i]));
    let mut texts: Vec<Vec<char>> = Vec::new();
    let mut i: usize = 0;
    while i < outs.len()
        invariant
            i <= outs.len(),
            texts.len() == i,
            items == Seq::new(outs@.len(), |i: int| entries_text(output_parts(outs@)[i])),
            forall|k: int| 0 <= k < i ==> items[k] == Some((#[trigger] texts@[k])@),
        decreases outs.len() - i,
    {
        match write_charms(&outs[i].charms) {
            Some(text) => {
                texts.push(text);
            },
            None => {
                assert(items[i as int] is None);
                return None;
            },
        }
        i += 1;
    }
    proof {
        assert forall|k: int| 0 <= k < items.len() implies (#[trigger] items[k]) is Some by {
            assert(items[k] == Some(texts@[k]@));
        }
        assert(collect(items)->0 =~= lists_view(texts@)) by {
            assert forall|k: int| 0 <= k < items.len() implies collect(items)->0[k] == lists_view(
                texts@,
            )[k] by {
                assert(items[k] == Some(texts@[k]@));
            }
        }
    }
    let mut out: Vec<char> = Vec::new();
    out.push('[');
    push_joined(&mut out, &texts);
    out.push(']');
    assert(out@ =~= seq!['['] + joined(lists_view(texts@)) + seq![']']);
    Some(out)
}

/// The document that describes the inputs and outputs.
pub fn write_document(ins: &Vec<Input>, outs: &Vec<Output>) -> (r: Option<String>)
    ensures
        match r {
            Some(text) => document(input_parts(ins@), output_parts(outs@)) == Some(text@),
            None => document(input_parts(ins@), output_parts(outs@)) is None,
        },
{
    let ins_text = match write_inputs(ins) {
        Some(text) => text,
        None => {
            return None;
        },
    };
    let outs_text = match write_outputs(outs) {
        Some(text) => text,
        None => {
            return None;
        },
    };
    proof {
        reveal_strlit("ins");
        reveal_strlit("outs");
        assert("ins"@ =~= ins_name());
        assert("outs"@ =~= outs_name());
    }
    let ins_key = quote("ins");
    let outs_key = quote("outs");
    let mut out: Vec<char> = Vec::new();
    out.push('{');
    push_text(&mut out, ins_key.as_str());
    out.push(':');
    push_chars(&mut out, ins_text.as_slice());
    out.push(',');
    push_text(&mut out, outs_key.as_str());
    out.push(':');
    push_chars(&mut out, outs_text.as_slice());
    out.push('}');
    assert(out@ =~= seq!['{'] + string_document(ins_name()) + seq![':'] + ins_text@ + seq![',']
        + string_document(outs_name()) + seq![':'] + outs_text@ + seq!['}']);
    Some(string_of(&out))
}

impl Transaction {
    /// The transaction that the JSON document `text` describes. A text
    /// that is no document of a transaction, and one whose inputs and
    /// outputs are not well formed, is refused with `MalformedTransaction`.
    pub fn from_json(text: &str) -> (r: Result<Transaction, Error>)
        ensures
            match r {
                Ok(tx) => tx.wf() && parts_of(text@) == Some((tx.inputs(), tx.outputs())),
                Err(e) => {
                    &&& e == Error::MalformedTransaction
                    &&& parts_of(text@) matches Some(parts) ==> !all_well_formed(parts.0, parts.1)
                },
            },
    {
        match read_parts(text) {
            Some((ins, outs)) => Transaction::new(ins, outs),
            None => Err(Error::MalformedTransaction),
        }
    }
}

} // verus!
