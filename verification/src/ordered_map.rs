//! The derivative sections of a document, kept by name in the order in which the names
//! first came up.
//!
//! The collection is an `indexmap::IndexMap`. Verus does not read it: what it holds has a
//! name, [`entries`], and each call into it goes through a function of this module whose
//! contract is taken from the collection's source and believed, not proved.
use crate::field_name::DerivativeFieldName;
use crate::section::empty_section;
use crate::section::ParsedSrcinfoDerivativeSection;
use indexmap::IndexMap;
use std::hash::RandomState;
use vstd::prelude::*;

verus! {

/// `indexmap::IndexMap`, a hash map that keeps its entries in the order of their insertion.
/// The type is opaque here: nothing is known of a value but what the functions below state.
#[verifier::external_type_specification]
#[verifier::external_body]
#[verifier::reject_recursive_types(K)]
#[verifier::reject_recursive_types(V)]
#[verifier::reject_recursive_types(S)]
pub struct ExIndexMap<K, V, S>(IndexMap<K, V, S>);

/// What the map holds: the name and the fields of each section, in the map's order.
pub uninterp spec fn entries(
    map: IndexMap<&str, ParsedSrcinfoDerivativeSection<'_>, RandomState>,
) -> Seq<(Seq<char>, Map<DerivativeFieldName, Seq<Seq<char>>>)>;

/// The names of `sections`, in order.
pub open spec fn names(
    sections: Seq<(Seq<char>, Map<DerivativeFieldName, Seq<Seq<char>>>)>,
) -> Seq<Seq<char>> {
    Seq::new(sections.len(), |i: int| sections[i].0)
}

/// The place of the first section called `name`, if there is one.
pub open spec fn position(
    sections: Seq<(Seq<char>, Map<DerivativeFieldName, Seq<Seq<char>>>)>,
    name: Seq<char>,
) -> Option<int> {
    names(sections).index_of_first(name)
}

/// What [`position`] finds: the first place with that name, or that there is none.
pub proof fn lemma_position(
    sections: Seq<(Seq<char>, Map<DerivativeFieldName, Seq<Seq<char>>>)>,
    name: Seq<char>,
)
    ensures
        match position(sections, name) {
            Some(at) => 0 <= at < sections.len() && sections[at].0 == name && forall|i: int|
                0 <= i < at ==> sections[i].0 != name,
            None => forall|i: int| 0 <= i < sections.len() ==> sections[i].0 != name,
        },
{
    let all = names(sections);
    all.index_of_first_ensures(name);
    match position(sections, name) {
        Some(at) => {
            assert forall|i: int| 0 <= i < at implies sections[i].0 != name by {
                assert(all[i] != name);
            }
        },
        None => {
            assert forall|i: int| 0 <= i < sections.len() implies sections[i].0 != name by {
                assert(all[i] == sections[i].0);
            }
        },
    }
}

/// The first place with a name is the place that [`position`] finds.
pub proof fn lemma_position_is(
    sections: Seq<(Seq<char>, Map<DerivativeFieldName, Seq<Seq<char>>>)>,
    name: Seq<char>,
    at: int,
)
    requires
        0 <= at < sections.len(),
        sections[at].0 == name,
        forall|i: int| 0 <= i < at ==> sections[i].0 != name,
    ensures
        position(sections, name) == Some(at),
{
    lemma_position(sections, name);
}

/// Writing the fields of a section leaves every name at its place.
pub proof fn lemma_position_update(
    sections: Seq<(Seq<char>, Map<DerivativeFieldName, Seq<Seq<char>>>)>,
    at: int,
    fields: Map<DerivativeFieldName, Seq<Seq<char>>>,
    name: Seq<char>,
)
    requires
        0 <= at < sections.len(),
    ensures
        position(sections.update(at, (sections[at].0, fields)), name) == position(sections, name),
{
    let written = sections.update(at, (sections[at].0, fields));
    lemma_position(sections, name);
    lemma_position(written, name);
    match position(sections, name) {
        Some(found) => {
            assert(written[found].0 == name);
            assert forall|i: int| 0 <= i < found implies written[i].0 != name by {
                assert(sections[i].0 != name);
            }
            lemma_position_is(written, name, found);
        },
        None => {
            if let Some(found) = position(written, name) {
                assert(sections[found].0 == name);
            }
        },
    }
}

/// A section appended to the others is found under its name unless an earlier one has that
/// name; every other name stays at its place.
pub proof fn lemma_position_push(
    sections: Seq<(Seq<char>, Map<DerivativeFieldName, Seq<Seq<char>>>)>,
    added: Seq<char>,
    fields: Map<DerivativeFieldName, Seq<Seq<char>>>,
    name: Seq<char>,
)
    ensures
        position(sections.push((added, fields)), name) == match position(sections, name) {
            Some(at) => Some(at),
            None => if added == name {
                Some(sections.len() as int)
            } else {
                None
            },
        },
{
    let longer = sections.push((added, fields));
    lemma_position(sections, name);
    lemma_position(longer, name);
    match position(sections, name) {
        Some(found) => {
            assert(longer[found].0 == name);
            assert forall|i: int| 0 <= i < found implies longer[i].0 != name by {
                assert(sections[i].0 != name);
            }
            lemma_position_is(longer, name, found);
        },
        None => {
            if added == name {
                assert forall|i: int| 0 <= i < sections.len() implies longer[i].0 != name by {
                    assert(sections[i].0 != name);
                }
                lemma_position_is(longer, name, sections.len() as int);
            } else {
                if let Some(found) = position(longer, name) {
                    assert(sections[found].0 == name);
                }
            }
        },
    }
}

/// `IndexMap::clone`, which the derived `Clone` of a document calls. Nothing is claimed of the
/// copy.
pub assume_specification<K, V, S>[ <IndexMap<K, V, S> as Clone>::clone ](
    map: &IndexMap<K, V, S>,
) -> IndexMap<K, V, S>
    where K: Clone, V: Clone, S: Clone
;

/// `IndexMap::new`: the map that holds nothing.
#[verifier::external_body]
pub(crate) fn new_map<'a>() -> (map: IndexMap<&'a str, ParsedSrcinfoDerivativeSection<'a>>)
    ensures
        entries(map) == Seq::<(Seq<char>, Map<DerivativeFieldName, Seq<Seq<char>>>)>::empty(),
{
    IndexMap::new()
}

/// `IndexMap::entry` followed by `Entry::or_default`. Where the map holds a section of that
/// name, the call hands it out and the map keeps its entries and their order. Where it holds
/// none, a section made by `Default` is appended under the name and handed out. What the
/// caller writes through the reference is what the map holds at that place afterwards.
#[verifier::external_body]
pub(crate) fn entry_or_default<'a, 'r>(
    map: &'r mut IndexMap<&'a str, ParsedSrcinfoDerivativeSection<'a>>,
    name: &'a str,
) -> (section: &'r mut ParsedSrcinfoDerivativeSection<'a>)
    ensures
        match position(entries(*old(map)), name@) {
            Some(at) => section@ == entries(*old(map))[at].1 && entries(*final(map)) == entries(
                *old(map),
            ).update(at, (name@, final(section)@)),
            None => section@ == empty_section::<DerivativeFieldName>() && entries(*final(map))
                == entries(*old(map)).push((name@, final(section)@)),
        },
{
    map.entry(name).or_default()
}

/// `IndexMap::len`: the number of entries.
#[verifier::external_body]
pub(crate) fn map_len<'a>(map: &IndexMap<&'a str, ParsedSrcinfoDerivativeSection<'a>>) -> (r:
    usize)
    ensures
        r == entries(*map).len(),
{
    map.len()
}

/// `IndexMap::get_index`: the entry at a place in the map's order, `None` past the end.
#[verifier::external_body]
pub(crate) fn map_get_index<'a, 'r>(
    map: &'r IndexMap<&'a str, ParsedSrcinfoDerivativeSection<'a>>,
    index: usize,
) -> (r: Option<(&'a str, &'r ParsedSrcinfoDerivativeSection<'a>)>)
    ensures
        match r {
            Some((name, section)) => index < entries(*map).len() && (name@, section@) == entries(
                *map,
            )[index as int],
            None => index >= entries(*map).len(),
        },
{
    match map.get_index(index) {
        Some((name, section)) => Some((*name, section)),
        None => None,
    }
}

/// `IndexMap::get`: the section stored under a name, `None` where the map holds no such
/// name.
#[verifier::external_body]
pub(crate) fn map_get<'a, 'r>(
    map: &'r IndexMap<&'a str, ParsedSrcinfoDerivativeSection<'a>>,
    name: &str,
) -> (r: Option<&'r ParsedSrcinfoDerivativeSection<'a>>)
    ensures
        match r {
            Some(section) => position(entries(*map), name@) matches Some(at) && section@
                == entries(*map)[at].1,
            None => position(entries(*map), name@) is None,
        },
{
    map.get(name)
}

} // verus!
