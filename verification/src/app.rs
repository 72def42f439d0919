//! Apps: what attaches data to transaction outputs.

use core::cmp::Ordering;
use vstd::prelude::*;
use vstd::slice::slice_subrange;
use vstd::std_specs::cmp::{PartialEqSpecImpl, PartialOrdSpecImpl};

use crate::b32::{parse_b32, B32};
use crate::error::Error;
use crate::hex::push_hex;
use crate::order::{and_then, compare, number_order, order_of, ordering, ordering_of, Order};
use crate::text::{char_at, chars_of, string_of};

verus! {

/// The tag of the apps that are fungible tokens.
pub const TOKEN: char = 't';

/// The tag of the apps that are non-fungible items.
pub const NFT: char = 'n';

/// An app: its kind, the identity that tells it from other apps of the same
/// kind, and the verification key of its rules. Two apps are the same when
/// all three are.
#[derive(Clone, Copy, Debug, Eq, Ord, Hash)]
pub struct App {
    /// The kind of app. `TOKEN` and `NFT` are the two kinds with rules of
    /// their own; any other character is another kind.
    pub tag: char,
    /// What tells this app from others of its kind.
    pub identity: B32,
    /// The verification key of the app's rules.
    pub vk: B32,
}

impl PartialEq for App {
    fn eq(&self, other: &App) -> (r: bool) {
        self.tag == other.tag && self.identity == other.identity && self.vk == other.vk
    }
}

impl PartialEqSpecImpl for App {
    open spec fn obeys_eq_spec() -> bool {
        true
    }

    open spec fn eq_spec(&self, other: &App) -> bool {
        *self == *other
    }
}

impl PartialOrd for App {
    fn partial_cmp(&self, other: &App) -> (r: Option<Ordering>) {
        Some(ordering(self.compare(other)))
    }
}

impl PartialOrdSpecImpl for App {
    open spec fn obeys_partial_cmp_spec() -> bool {
        true
    }

    /// The order is that of the tags, then that of the identities, then
    /// that of the verification keys.
    open spec fn partial_cmp_spec(&self, other: &App) -> Option<Ordering> {
        Some(ordering_of(self.order(*other)))
    }
}

impl App {
    /// How this app stands to `other`: by the tags, then by the identities,
    /// then by the verification keys.
    pub open spec fn order(&self, other: App) -> Order {
        and_then(
            number_order(self.tag as int, other.tag as int),
            and_then(order_of(self.identity@, other.identity@), order_of(self.vk@, other.vk@)),
        )
    }

    /// How this app stands to `other`.
    pub fn compare(&self, other: &App) -> (r: Order)
        ensures
            r == self.order(*other),
    {
        if self.tag < other.tag {
            return Order::Less;
        }
        if self.tag > other.tag {
            return Order::Greater;
        }
        match compare(self.identity.0.as_slice(), other.identity.0.as_slice()) {
            Order::Equal => compare(self.vk.0.as_slice(), other.vk.0.as_slice()),
            decided => decided,
        }
    }

    /// The canonical text: the tag, a slash, the text of the identity, a
    /// slash, and the text of the verification key.
    pub open spec fn text(&self) -> Seq<char> {
        seq![self.tag, '/'] + self.identity.text() + seq!['/'] + self.vk.text()
    }

    /// The app whose canonical text is `s`, if there is one.
    pub open spec fn parse(s: Seq<char>) -> Option<App> {
        if exists|v: App| v.text() == s {
            Some(choose|v: App| v.text() == s)
        } else {
            None
        }
    }

    /// The app of kind `tag` with this identity and verification key.
    pub fn new(tag: char, identity: &B32, vk: &B32) -> (r: App)
        ensures
            r == (App { tag, identity: *identity, vk: *vk }),
    {
        App { tag, identity: *identity, vk: *vk }
    }

    /// The kind of app.
    pub fn tag(&self) -> (r: char)
        ensures
            r == self.tag,
    {
        self.tag
    }

    /// What tells this app from others of its kind.
    pub fn identity(&self) -> (r: B32)
        ensures
            r == self.identity,
    {
        self.identity
    }

    /// The verification key of the app's rules.
    pub fn vk(&self) -> (r: B32)
        ensures
            r == self.vk,
    {
        self.vk
    }

    /// The app whose canonical text is `s`.
    pub fn from_str(s: &str) -> (r: Result<App, Error>)
        ensures
            r == match App::parse(s@) {
                Some(v) => Ok::<App, Error>(v),
                None => Err(Error::InvalidApp),
            },
    {
        let chars = chars_of(s);
        if chars.len() != 131 {
            proof {
                assert forall|w: App| w.text() != s@ by {
                    lemma_text_parts(w);
                }
            }
            return Err(Error::InvalidApp);
        }
        if chars[1] != '/' || chars[66] != '/' {
            proof {
                assert forall|w: App| w.text() != s@ by {
                    lemma_text_parts(w);
                }
            }
            return Err(Error::InvalidApp);
        }
        let identity = parse_b32(slice_subrange(chars.as_slice(), 2, 66));
        let vk = parse_b32(slice_subrange(chars.as_slice(), 67, 131));
        match (identity, vk) {
            (Some(identity), Some(vk)) => {
                let tag = char_at(chars.as_slice(), 0);
                let v = App { tag, identity, vk };
                proof {
                    lemma_text_parts(v);
                    assert(v.text() =~= s@);
                    lemma_text_injective(v, choose|w: App| w.text() == s@);
                }
                Ok(v)
            },
            _ => {
                proof {
                    assert forall|w: App| w.text() != s@ by {
                        lemma_text_parts(w);
                    }
                }
                Err(Error::InvalidApp)
            },
        }
    }

    /// The canonical text.
    pub fn to_string(&self) -> (s: String)
        ensures
            s@ == self.text(),
    {
        let mut chars: Vec<char> = Vec::new();
        chars.push(self.tag);
        chars.push('/');
        push_hex(&mut chars, self.identity.0.as_slice());
        chars.push('/');
        push_hex(&mut chars, self.vk.0.as_slice());
        assert(chars@ =~= self.text());
        string_of(&chars)
    }
}

/// Where the parts of a canonical text stand in it.
proof fn lemma_text_parts(v: App)
    ensures
        v.text().len() == 131,
        v.text()[0] == v.tag,
        v.text()[1] == '/',
        v.text().subrange(2, 66) == v.identity.text(),
        v.text()[66] == '/',
        v.text().subrange(67, 131) == v.vk.text(),
{
    let t = v.text();
    assert(v.identity.text().len() == 64);
    assert(v.vk.text().len() == 64);
    assert(t.subrange(2, 66) =~= v.identity.text());
    assert(t.subrange(67, 131) =~= v.vk.text());
}

/// Two apps with the same canonical text are the same app.
pub proof fn lemma_text_injective(a: App, b: App)
    requires
        a.text() == b.text(),
    ensures
        a == b,
{
    lemma_text_parts(a);
    lemma_text_parts(b);
    crate::b32::lemma_text_injective(a.identity, b.identity);
    crate::b32::lemma_text_injective(a.vk, b.vk);
}

/// Parsing the canonical text of an app gives that app back.
pub proof fn lemma_text_round_trip(v: App)
    ensures
        App::parse(v.text()) == Some(v),
{
    lemma_text_injective(v, choose|w: App| w.text() == v.text());
}

/// Only canonical text parses: a parsed app has the parsed text as its
/// canonical text.
pub proof fn lemma_parse_exact(s: Seq<char>)
    ensures
        App::parse(s) matches Some(v) ==> v.text() == s,
{
}

} // verus!
