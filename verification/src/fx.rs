//! The hash collections of `rustc_hash` that the detector works with, and what
//! is taken on trust about them.
//!
//! `FxHashSet` and `FxHashMap` are the standard hash set and map with the Fx
//! hasher. What `vstd` states of the standard methods holds for the default
//! hasher and for keys of a primitive type; here the hasher is another and
//! most keys are strings. So nothing in this module is proved: each function
//! states what the standard library documents for the one method it calls,
//! over the contents that [`name_set`], [`binding_map`] and [`report_map`]
//! stand for.

use rustc_hash::{FxHashMap, FxHashSet};
use vstd::prelude::*;

use crate::span::Span;

verus! {

/// `rustc_hash::FxBuildHasher`, the hasher state of every collection here.
#[verifier::external_type_specification]
#[verifier::external_body]
pub struct ExFxBuildHasher(rustc_hash::FxBuildHasher);

/// A set of export names.
pub type NameSet = FxHashSet<String>;

/// The export table of a module, from each exported name to its declaration.
pub type BindingMap = FxHashMap<String, Span>;

/// The reports that are pending, from a location to the name recorded for it.
pub type ReportMap = FxHashMap<(u32, u32), String>;

/// A location with the name recorded for it.
pub type ReportEntry = ((u32, u32), String);

/// The strings that a set of names holds.
pub uninterp spec fn name_set(names: NameSet) -> Set<Seq<char>>;

/// The export table of a module: each exported name with the place of its declaration.
pub uninterp spec fn binding_map(bindings: BindingMap) -> Map<Seq<char>, Span>;

/// The pending reports: for each location, the name recorded for it.
pub uninterp spec fn report_map(found: ReportMap) -> Map<(u32, u32), Seq<char>>;

/// `FxHashSet::default()`: a set without elements.
#[verifier::external_body]
pub(crate) fn name_set_new() -> (names: NameSet)
    ensures
        name_set(names).is_empty(),
{
    FxHashSet::default()
}

/// `HashSet::insert`: afterwards the set holds `name` besides what it held.
/// The result tells whether `name` was new to it.
#[verifier::external_body]
pub(crate) fn name_set_insert(names: &mut NameSet, name: String) -> (fresh: bool)
    ensures
        name_set(*final(names)) == name_set(*old(names)).insert(name@),
        fresh == !name_set(*old(names)).contains(name@),
{
    names.insert(name)
}

/// `HashSet::iter`, with each element cloned into a vector. Every element of
/// the set is in the vector and nothing else is; the order is not stated.
#[verifier::external_body]
pub(crate) fn name_set_items(names: &NameSet) -> (items: Vec<String>)
    ensures
        forall|i: int| 0 <= i < items@.len() ==> name_set(*names).contains((#[trigger] items@[i])@),
        forall|name: Seq<char>|
            name_set(*names).contains(name) ==> exists|i: int|
                0 <= i < items@.len() && (#[trigger] items@[i])@ == name,
{
    names.iter().cloned().collect()
}

/// `FxHashMap::default()`: an export table without entries.
#[verifier::external_body]
pub(crate) fn binding_map_new() -> (bindings: BindingMap)
    ensures
        binding_map(bindings).is_empty(),
{
    FxHashMap::default()
}

/// `HashMap::insert`: afterwards `name` maps to `span`, and every other name
/// maps to what it mapped to before.
#[verifier::external_body]
pub(crate) fn binding_map_insert(bindings: &mut BindingMap, name: String, span: Span)
    ensures
        binding_map(*final(bindings)) == binding_map(*old(bindings)).insert(name@, span),
{
    bindings.insert(name, span);
}

/// `HashMap::get`: the span that `name` maps to, if the table has the name.
#[verifier::external_body]
pub(crate) fn binding_map_get(bindings: &BindingMap, name: &str) -> (span: Option<Span>)
    ensures
        span == if binding_map(*bindings).contains_key(name@) {
            Some(binding_map(*bindings)[name@])
        } else {
            None
        },
{
    bindings.get(name).copied()
}

/// `HashMap::keys`, with each key cloned into a vector. Every name of the
/// table is in the vector and nothing else is; the order is not stated.
#[verifier::external_body]
pub(crate) fn binding_map_names(bindings: &BindingMap) -> (names: Vec<String>)
    ensures
        forall|i: int|
            0 <= i < names@.len() ==> binding_map(*bindings).contains_key((#[trigger] names@[i])@),
        forall|name: Seq<char>|
            binding_map(*bindings).contains_key(name) ==> exists|i: int|
                0 <= i < names@.len() && (#[trigger] names@[i])@ == name,
{
    bindings.keys().cloned().collect()
}

/// `FxHashMap::default()`: no location has a name recorded.
#[verifier::external_body]
pub(crate) fn report_map_new() -> (found: ReportMap)
    ensures
        report_map(found).is_empty(),
{
    FxHashMap::default()
}

/// `HashMap::contains_key`: whether a name is recorded for `location`.
#[verifier::external_body]
pub(crate) fn report_map_has(found: &ReportMap, location: (u32, u32)) -> (has: bool)
    ensures
        has == report_map(*found).contains_key(location),
{
    found.contains_key(&location)
}

/// `HashMap::insert`: afterwards `name` is recorded for `location`, and every
/// other location keeps its name.
#[verifier::external_body]
pub(crate) fn report_map_insert(found: &mut ReportMap, location: (u32, u32), name: String)
    ensures
        report_map(*final(found)) == report_map(*old(found)).insert(location, name@),
{
    found.insert(location, name);
}

/// `HashMap::into_iter`, collected into a vector. Every location of the map is
/// in the vector once, with its name, and nothing else is; the order is not
/// stated.
#[verifier::external_body]
pub(crate) fn report_map_entries(found: ReportMap) -> (entries: Vec<ReportEntry>)
    ensures
        forall|i: int|
            0 <= i < entries@.len() ==> {
                &&& report_map(found).contains_key((#[trigger] entries@[i]).0)
                &&& report_map(found)[entries@[i].0] == entries@[i].1@
            },
        forall|location: (u32, u32)|
            report_map(found).contains_key(location) ==> exists|i: int|
                0 <= i < entries@.len() && (#[trigger] entries@[i]).0 == location,
        forall|i: int, j: int|
            0 <= i < j < entries@.len() ==> (#[trigger] entries@[i]).0 != (#[trigger] entries@[j]).0,
{
    found.into_iter().collect()
}

} // verus!
