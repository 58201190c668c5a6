//! Capability selection directives.
//!
//! A generation directive is an attribute argument list in the grammar of
//! `attr_list`: a bare capability name selects that capability whole, a
//! group `(name, exclude=(m1, m2))` selects it with some method names
//! excluded.  This layer validates capability names against the allowed
//! set and shapes the parsed list into `TraitSelection` values.

use vstd::prelude::*;

use crate::attr_list::{ArgV, AttributeArg, AttributeArgsList, AttributeValue, ValueV};
use crate::lattice::{is_allowed_capability, spec_allowed_capability};
use crate::synth::{TraitSelection, TraitSelectionV};

verus! {

broadcast use vstd::seq::group_seq_axioms, vstd::std_specs::vec::group_vec_axioms;

/// A malformed or unacceptable selection directive.
#[derive(Debug, Clone)]
pub enum SelectionParseError {
    /// The directive selects no capability at all.
    EmptyTraitList,
    /// A selected name is outside the allowed capability set.
    InvalidTrait(String),
    /// A group does not start with a bare capability name.
    MalformedGroup,
    /// An `exclude` binding is not a group of bare names.
    MalformedExclude,
}

pub enum SelErrV {
    EmptyTraitList,
    InvalidTrait(Seq<char>),
    MalformedGroup,
    MalformedExclude,
}

impl View for SelectionParseError {
    type V = SelErrV;

    open spec fn view(&self) -> SelErrV {
        match self {
            SelectionParseError::EmptyTraitList => SelErrV::EmptyTraitList,
            SelectionParseError::InvalidTrait(s) => SelErrV::InvalidTrait(s@),
            SelectionParseError::MalformedGroup => SelErrV::MalformedGroup,
            SelectionParseError::MalformedExclude => SelErrV::MalformedExclude,
        }
    }
}

// ===========================================================================
// Selected capability names
// ===========================================================================
/// The capability name an argument selects: a bare name selects itself, a
/// group selects its leading bare name.
pub open spec fn spec_selected_name(a: ArgV) -> Option<Seq<char>> {
    match a {
        ArgV::Bare(n) => Some(n),
        ArgV::Group(items) => if items.len() > 0 {
            match items[0] {
                ArgV::Bare(n) => Some(n),
                _ => None,
            }
        } else {
            None
        },
        ArgV::KeyValue(_, _) => None,
    }
}

/// The selected capability names of the directive, from item `i` on.
pub open spec fn spec_selected_names(items: Seq<ArgV>, i: int) -> Seq<Seq<char>>
    decreases items.len() - i,
    when 0 <= i
{
    if i >= items.len() {
        Seq::empty()
    } else {
        match spec_selected_name(items[i]) {
            Some(n) => seq![n] + spec_selected_names(items, i + 1),
            None => spec_selected_names(items, i + 1),
        }
    }
}

/// What validating the selected capability names yields: the names in
/// order, or the first that the allowed set does not contain, or a report
/// of an empty selection.
pub open spec fn spec_validate_selected_traits(items: Seq<ArgV>) -> Result<Seq<Seq<char>>, SelErrV> {
    let names = spec_selected_names(items, 0);
    if names.len() == 0 {
        Err(SelErrV::EmptyTraitList)
    } else {
        spec_validate_names(names, 0)
    }
}

pub open spec fn spec_validate_names(names: Seq<Seq<char>>, i: int) -> Result<
    Seq<Seq<char>>,
    SelErrV,
>
    decreases names.len() - i,
    when 0 <= i
{
    if i >= names.len() {
        Ok(names)
    } else if !spec_allowed_capability(names[i]) {
        Err(SelErrV::InvalidTrait(names[i]))
    } else {
        spec_validate_names(names, i + 1)
    }
}

fn selected_name(a: &AttributeArg) -> (r: Option<String>)
    ensures
        match r {
            Some(n) => spec_selected_name(crate::attr_list::arg_view(*a)) == Some(n@),
            None => spec_selected_name(crate::attr_list::arg_view(*a)) is None,
        },
{
    match a {
        AttributeArg::Arg(b) => Some(b.value.clone()),
        AttributeArg::Group(g) => {
            if g.content.0.len() > 0 {
                assert(crate::attr_list::items_view(g.content.0@)[0]
                    == crate::attr_list::arg_view(g.content.0@[0]));
                match &g.content.0[0] {
                    AttributeArg::Arg(b) => Some(b.value.clone()),
                    _ => None,
                }
            } else {
                None
            }
        },
        AttributeArg::KeyValueArg(_) => None,
    }
}

fn selected_names_rec(items: &Vec<AttributeArg>, i: usize) -> (r: Vec<String>)
    requires
        i <= items@.len(),
    ensures
        r.deep_view() == spec_selected_names(crate::attr_list::items_view(items@), i as int),
    decreases items@.len() - i,
{
    if i >= items.len() {
        let r: Vec<String> = Vec::new();
        assert(r.deep_view() =~= Seq::<Seq<char>>::empty());
        return r;
    }
    assert(crate::attr_list::items_view(items@)[i as int] == crate::attr_list::arg_view(
        items@[i as int],
    ));
    let mut rest = selected_names_rec(items, i + 1);
    match selected_name(&items[i]) {
        Some(n) => {
            let ghost pre_deep = rest.deep_view();
            rest.insert(0, n);
            assert(rest.deep_view() =~= seq![
                spec_selected_name(crate::attr_list::arg_view(items@[i as int]))->Some_0,
            ] + pre_deep);
        },
        None => {},
    }
    rest
}

/// Validate a selection directive: the selected capability names, in
/// order, every one within the allowed set, and at least one present.
pub fn validate_selected_traits(list: &AttributeArgsList) -> (r: Result<
    Vec<String>,
    SelectionParseError,
>)
    ensures
        match r {
            Ok(names) => spec_validate_selected_traits(crate::attr_list::args_list_view(*list))
                == Ok::<Seq<Seq<char>>, SelErrV>(names.deep_view()),
            Err(e) => spec_validate_selected_traits(crate::attr_list::args_list_view(*list))
                == Err::<Seq<Seq<char>>, SelErrV>(e@),
        },
{
    let names = selected_names_rec(&list.0, 0);
    if names.len() == 0 {
        return Err(SelectionParseError::EmptyTraitList);
    }
    let ghost nv = names.deep_view();
    let n = names.len();
    let mut i: usize = 0;
    while i < n
        invariant
            0 <= i <= n,
            n == names@.len(),
            nv == names.deep_view(),
            nv == spec_selected_names(crate::attr_list::items_view(list.0@), 0),
            nv.len() == n,
            n > 0,
            forall|j: int| 0 <= j < n ==> nv[j] == names@[j]@,
            spec_validate_names(nv, 0) == spec_validate_names(nv, i as int),
        decreases n - i,
    {
        if !is_allowed_capability(names[i].as_str()) {
            return Err(SelectionParseError::InvalidTrait(names[i].clone()));
        }
        i += 1;
    }
    assert(spec_validate_names(nv, n as int) == Ok::<Seq<Seq<char>>, SelErrV>(nv));
    Ok(names)
}

// ===========================================================================
// Exclusions and full selections
// ===========================================================================
/// The bare names of an exclude group, from item `i` on; anything but a
/// bare name is malformed.
pub open spec fn spec_bare_names(items: Seq<ArgV>, i: int) -> Result<Seq<Seq<char>>, SelErrV>
    decreases items.len() - i,
    when 0 <= i
{
    if i >= items.len() {
        Ok(Seq::empty())
    } else {
        match items[i] {
            ArgV::Bare(n) => match spec_bare_names(items, i + 1) {
                Err(e) => Err(e),
                Ok(rest) => Ok(seq![n] + rest),
            },
            _ => Err(SelErrV::MalformedExclude),
        }
    }
}

/// The exclude list bound inside a selection group, from item `i` on: the
/// bare names of the first `exclude = (...)` binding, empty when none is
/// present, malformed when `exclude` is bound to anything else.
pub open spec fn spec_excludes_of_group(items: Seq<ArgV>, i: int) -> Result<
    Seq<Seq<char>>,
    SelErrV,
>
    decreases items.len() - i,
    when 0 <= i
{
    if i >= items.len() {
        Ok(Seq::empty())
    } else {
        match items[i] {
            ArgV::KeyValue(k, v) => if k == "exclude"@ {
                match v {
                    ValueV::Group(inner) => spec_bare_names(inner, 0),
                    _ => Err(SelErrV::MalformedExclude),
                }
            } else {
                spec_excludes_of_group(items, i + 1)
            },
            _ => spec_excludes_of_group(items, i + 1),
        }
    }
}

/// One selection of the directive: a bare name, or a group whose first
/// item is the name and whose `exclude` binding lists dropped methods.
pub open spec fn spec_selection_of(a: ArgV) -> Result<TraitSelectionV, SelErrV> {
    match a {
        ArgV::Bare(n) => Ok(TraitSelectionV { name: n, exclude: Seq::empty() }),
        ArgV::Group(items) => if items.len() > 0 && (items[0] is Bare) {
            match items[0] {
                ArgV::Bare(n) => match spec_excludes_of_group(items, 0) {
                    Err(e) => Err(e),
                    Ok(ex) => Ok(TraitSelectionV { name: n, exclude: ex }),
                },
                _ => Err(SelErrV::MalformedGroup),
            }
        } else {
            Err(SelErrV::MalformedGroup)
        },
        ArgV::KeyValue(_, _) => Err(SelErrV::MalformedGroup),
    }
}

/// All selections of the directive, from item `i` on.
pub open spec fn spec_selections_of(items: Seq<ArgV>, i: int) -> Result<
    Seq<TraitSelectionV>,
    SelErrV,
>
    decreases items.len() - i,
    when 0 <= i
{
    if i >= items.len() {
        Ok(Seq::empty())
    } else {
        match spec_selection_of(items[i]) {
            Err(e) => Err(e),
            Ok(sel) => match spec_selections_of(items, i + 1) {
                Err(e) => Err(e),
                Ok(rest) => Ok(seq![sel] + rest),
            },
        }
    }
}

fn bare_names_rec(items: &Vec<AttributeArg>, i: usize) -> (r: Result<
    Vec<String>,
    SelectionParseError,
>)
    requires
        i <= items@.len(),
    ensures
        match r {
            Ok(v) => spec_bare_names(crate::attr_list::items_view(items@), i as int) == Ok::<
                Seq<Seq<char>>,
                SelErrV,
            >(v.deep_view()),
            Err(e) => spec_bare_names(crate::attr_list::items_view(items@), i as int) == Err::<
                Seq<Seq<char>>,
                SelErrV,
            >(e@),
        },
    decreases items@.len() - i,
{
    if i >= items.len() {
        let r: Vec<String> = Vec::new();
        assert(r.deep_view() =~= Seq::<Seq<char>>::empty());
        return Ok(r);
    }
    assert(crate::attr_list::items_view(items@)[i as int] == crate::attr_list::arg_view(
        items@[i as int],
    ));
    match &items[i] {
        AttributeArg::Arg(b) => {
            let mut rest = match bare_names_rec(items, i + 1) {
                Ok(v) => v,
                Err(e) => {
                    return Err(e);
                },
            };
            let ghost pre_deep = rest.deep_view();
            rest.insert(0, b.value.clone());
            assert(rest.deep_view() =~= seq![b.value@] + pre_deep);
            Ok(rest)
        },
        _ => Err(SelectionParseError::MalformedExclude),
    }
}

/// The method names an `exclude = (...)` binding of the group drops.
pub fn parse_excluded_methods(items: &Vec<AttributeArg>) -> (r: Result<
    Vec<String>,
    SelectionParseError,
>)
    ensures
        match r {
            Ok(v) => spec_excludes_of_group(crate::attr_list::items_view(items@), 0) == Ok::<
                Seq<Seq<char>>,
                SelErrV,
            >(v.deep_view()),
            Err(e) => spec_excludes_of_group(crate::attr_list::items_view(items@), 0) == Err::<
                Seq<Seq<char>>,
                SelErrV,
            >(e@),
        },
{
    excludes_rec(items, 0)
}

fn excludes_rec(items: &Vec<AttributeArg>, i: usize) -> (r: Result<
    Vec<String>,
    SelectionParseError,
>)
    requires
        i <= items@.len(),
    ensures
        match r {
            Ok(v) => spec_excludes_of_group(crate::attr_list::items_view(items@), i as int)
                == Ok::<Seq<Seq<char>>, SelErrV>(v.deep_view()),
            Err(e) => spec_excludes_of_group(crate::attr_list::items_view(items@), i as int)
                == Err::<Seq<Seq<char>>, SelErrV>(e@),
        },
    decreases items@.len() - i,
{
    if i >= items.len() {
        let r: Vec<String> = Vec::new();
        assert(r.deep_view() =~= Seq::<Seq<char>>::empty());
        return Ok(r);
    }
    assert(crate::attr_list::items_view(items@)[i as int] == crate::attr_list::arg_view(
        items@[i as int],
    ));
    match &items[i] {
        AttributeArg::KeyValueArg(kv) => {
            if crate::text::str_eq_str(kv.key.as_str(), "exclude") {
                match &kv.value {
                    AttributeValue::Group(g) => bare_names_rec(&g.content.0, 0),
                    _ => Err(SelectionParseError::MalformedExclude),
                }
            } else {
                excludes_rec(items, i + 1)
            }
        },
        _ => excludes_rec(items, i + 1),
    }
}

fn selection_of(a: &AttributeArg) -> (r: Result<TraitSelection, SelectionParseError>)
    ensures
        match r {
            Ok(sel) => spec_selection_of(crate::attr_list::arg_view(*a)) == Ok::<
                TraitSelectionV,
                SelErrV,
            >(sel@),
            Err(e) => spec_selection_of(crate::attr_list::arg_view(*a)) == Err::<
                TraitSelectionV,
                SelErrV,
            >(e@),
        },
{
    match a {
        AttributeArg::Arg(b) => {
            let ex: Vec<String> = Vec::new();
            assert(ex.deep_view() =~= Seq::<Seq<char>>::empty());
            Ok(TraitSelection { name: b.value.clone(), exclude: ex })
        },
        AttributeArg::Group(g) => {
            if g.content.0.len() == 0 {
                return Err(SelectionParseError::MalformedGroup);
            }
            assert(crate::attr_list::items_view(g.content.0@)[0] == crate::attr_list::arg_view(
                g.content.0@[0],
            ));
            let name: String = match &g.content.0[0] {
                AttributeArg::Arg(b) => b.value.clone(),
                _ => {
                    return Err(SelectionParseError::MalformedGroup);
                },
            };
            let ex = match parse_excluded_methods(&g.content.0) {
                Ok(v) => v,
                Err(e) => {
                    return Err(e);
                },
            };
            Ok(TraitSelection { name, exclude: ex })
        },
        AttributeArg::KeyValueArg(_) => Err(SelectionParseError::MalformedGroup),
    }
}

/// Shape a parsed directive into the request's selections, in order.
pub fn parse_selections(list: &AttributeArgsList) -> (r: Result<
    Vec<TraitSelection>,
    SelectionParseError,
>)
    ensures
        match r {
            Ok(v) => spec_selections_of(crate::attr_list::args_list_view(*list), 0) == Ok::<
                Seq<TraitSelectionV>,
                SelErrV,
            >(v.deep_view()),
            Err(e) => spec_selections_of(crate::attr_list::args_list_view(*list), 0) == Err::<
                Seq<TraitSelectionV>,
                SelErrV,
            >(e@),
        },
{
    selections_rec(&list.0, 0)
}

fn selections_rec(items: &Vec<AttributeArg>, i: usize) -> (r: Result<
    Vec<TraitSelection>,
    SelectionParseError,
>)
    requires
        i <= items@.len(),
    ensures
        match r {
            Ok(v) => spec_selections_of(crate::attr_list::items_view(items@), i as int) == Ok::<
                Seq<TraitSelectionV>,
                SelErrV,
            >(v.deep_view()),
            Err(e) => spec_selections_of(crate::attr_list::items_view(items@), i as int) == Err::<
                Seq<TraitSelectionV>,
                SelErrV,
            >(e@),
        },
    decreases items@.len() - i,
{
    if i >= items.len() {
        let r: Vec<TraitSelection> = Vec::new();
        assert(r.deep_view() =~= Seq::<TraitSelectionV>::empty());
        return Ok(r);
    }
    assert(crate::attr_list::items_view(items@)[i as int] == crate::attr_list::arg_view(
        items@[i as int],
    ));
    let sel = match selection_of(&items[i]) {
        Ok(s) => s,
        Err(e) => {
            return Err(e);
        },
    };
    let mut rest = match selections_rec(items, i + 1) {
        Ok(v) => v,
        Err(e) => {
            return Err(e);
        },
    };
    let ghost pre_deep = rest.deep_view();
    let ghost sv = sel@;
    rest.insert(0, sel);
    assert(rest.deep_view() =~= seq![sv] + pre_deep);
    Ok(rest)
}

} // verus!
