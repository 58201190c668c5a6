//! The capability lattice and the return-type degradation policy.
//!
//! The lattice is a fixed table, not derived from the registry: it maps each
//! composite capability name to the ordered list of capabilities it
//! subsumes, from least to most specific.  When a method's result strips
//! some capabilities, the survivor closest to the end of that list names
//! the wrapper type of the generated return value.

use vstd::prelude::*;

use crate::text::{contains_str, spec_line_safe, str_eq_str};

verus! {

broadcast use vstd::seq::group_seq_axioms, vstd::std_specs::vec::group_vec_axioms;

/// The four capability names the generator knows.
pub open spec fn spec_allowed_capability(s: Seq<char>) -> bool {
    ||| s == "PyBaseIterator"@
    ||| s == "PyDoubleEndedIterator"@
    ||| s == "PyExactSizeIterator"@
    ||| s == "PySizedDoubleEndedIterator"@
}

pub fn is_allowed_capability(s: &str) -> (r: bool)
    ensures
        r == spec_allowed_capability(s@),
{
    str_eq_str(s, "PyBaseIterator") || str_eq_str(s, "PyDoubleEndedIterator") || str_eq_str(
        s,
        "PyExactSizeIterator",
    ) || str_eq_str(s, "PySizedDoubleEndedIterator")
}

pub proof fn lemma_allowed_capability_line_safe(s: Seq<char>)
    requires
        spec_allowed_capability(s),
    ensures
        spec_line_safe(s),
{
    reveal_strlit("PyBaseIterator");
    reveal_strlit("PyDoubleEndedIterator");
    reveal_strlit("PyExactSizeIterator");
    reveal_strlit("PySizedDoubleEndedIterator");
}

/// One lattice row: a composite capability and, least specific first, the
/// capabilities it subsumes.
#[derive(Debug, Clone)]
pub struct LatticeEntry {
    pub name: String,
    pub subsumes: Vec<String>,
}

pub struct LatticeEntryV {
    pub name: Seq<char>,
    pub subsumes: Seq<Seq<char>>,
}

impl View for LatticeEntry {
    type V = LatticeEntryV;

    open spec fn view(&self) -> LatticeEntryV {
        LatticeEntryV { name: self.name@, subsumes: self.subsumes.deep_view() }
    }
}

impl DeepView for LatticeEntry {
    type V = LatticeEntryV;

    open spec fn deep_view(&self) -> LatticeEntryV {
        self@
    }
}

/// The static capability lattice.
#[derive(Debug, Clone)]
pub struct CapabilityLattice {
    pub entries: Vec<LatticeEntry>,
}

pub struct CapabilityLatticeV {
    pub entries: Seq<LatticeEntryV>,
}

impl View for CapabilityLattice {
    type V = CapabilityLatticeV;

    open spec fn view(&self) -> CapabilityLatticeV {
        CapabilityLatticeV { entries: self.entries.deep_view() }
    }
}

/// Subsumption list of the first entry named `name`, from row `i` on.
pub open spec fn spec_lookup_from(entries: Seq<LatticeEntryV>, name: Seq<char>, i: int) -> Option<
    Seq<Seq<char>>,
>
    decreases entries.len() - i,
    when 0 <= i
{
    if i >= entries.len() {
        None
    } else if entries[i].name == name {
        Some(entries[i].subsumes)
    } else {
        spec_lookup_from(entries, name, i + 1)
    }
}

/// Subsumption list of the composite `name`, or `None` when the lattice
/// does not list it.
pub open spec fn spec_lookup(l: CapabilityLatticeV, name: Seq<char>) -> Option<Seq<Seq<char>>> {
    spec_lookup_from(l.entries, name, 0)
}

impl CapabilityLattice {
    /// Subsumption list of the composite `name`, or `None` when unlisted.
    pub fn lookup(&self, name: &str) -> (r: Option<Vec<String>>)
        ensures
            match r {
                Some(v) => spec_lookup(self@, name@) == Some(v.deep_view()),
                None => spec_lookup(self@, name@) is None,
            },
    {
        let n = self.entries.len();
        let mut i: usize = 0;
        while i < n
            invariant
                0 <= i <= n,
                n == self.entries@.len(),
                self@.entries.len() == n,
                forall|j: int| 0 <= j < n ==> self@.entries[j] == self.entries@[j]@,
                spec_lookup_from(self@.entries, name@, 0) == spec_lookup_from(
                    self@.entries,
                    name@,
                    i as int,
                ),
            decreases n - i,
        {
            if str_eq_str(self.entries[i].name.as_str(), name) {
                return Some(self.entries[i].subsumes.clone());
            }
            i += 1;
        }
        None
    }
}

/// The built-in lattice: what each composite iterator capability subsumes,
/// least specific first.
pub open spec fn spec_default_lattice() -> CapabilityLatticeV {
    CapabilityLatticeV {
        entries: seq![
            LatticeEntryV { name: "PyBaseIterator"@, subsumes: seq![] },
            LatticeEntryV {
                name: "PyDoubleEndedIterator"@,
                subsumes: seq!["PyBaseIterator"@, "PyDoubleEndedIterator"@],
            },
            LatticeEntryV {
                name: "PyExactSizeIterator"@,
                subsumes: seq!["PyBaseIterator"@, "PyExactSizeIterator"@],
            },
            LatticeEntryV {
                name: "PySizedDoubleEndedIterator"@,
                subsumes: seq![
                    "PyBaseIterator"@,
                    "PyExactSizeIterator"@,
                    "PyDoubleEndedIterator"@,
                ],
            },
        ],
    }
}

fn owned(s: &str) -> (r: String)
    ensures
        r@ == s@,
{
    s.to_owned()
}

/// Build the built-in lattice.
pub fn default_lattice() -> (r: CapabilityLattice)
    ensures
        r@ == spec_default_lattice(),
{
    let mut entries: Vec<LatticeEntry> = Vec::new();
    let e0 = LatticeEntry { name: owned("PyBaseIterator"), subsumes: Vec::new() };

    let mut s1: Vec<String> = Vec::new();
    s1.push(owned("PyBaseIterator"));
    s1.push(owned("PyDoubleEndedIterator"));
    let e1 = LatticeEntry { name: owned("PyDoubleEndedIterator"), subsumes: s1 };

    let mut s2: Vec<String> = Vec::new();
    s2.push(owned("PyBaseIterator"));
    s2.push(owned("PyExactSizeIterator"));
    let e2 = LatticeEntry { name: owned("PyExactSizeIterator"), subsumes: s2 };

    let mut s3: Vec<String> = Vec::new();
    s3.push(owned("PyBaseIterator"));
    s3.push(owned("PyExactSizeIterator"));
    s3.push(owned("PyDoubleEndedIterator"));
    let e3 = LatticeEntry { name: owned("PySizedDoubleEndedIterator"), subsumes: s3 };

    entries.push(e0);
    entries.push(e1);
    entries.push(e2);
    entries.push(e3);
    let r = CapabilityLattice { entries };
    proof {
        assert(r@.entries[0].subsumes =~= spec_default_lattice().entries[0].subsumes);
        assert(r@.entries[1].subsumes =~= spec_default_lattice().entries[1].subsumes);
        assert(r@.entries[2].subsumes =~= spec_default_lattice().entries[2].subsumes);
        assert(r@.entries[3].subsumes =~= spec_default_lattice().entries[3].subsumes);
        assert(r@.entries =~= spec_default_lattice().entries);
        assert(r@ =~= spec_default_lattice());
    }
    r
}

// ===========================================================================
// Return-type degradation
// ===========================================================================
/// The most specific capability that survives stripping: the last entry
/// of the subsumption list that is not named in `strips`, if any.
pub open spec fn spec_survivor(subs: Seq<Seq<char>>, strips: Seq<Seq<char>>) -> Option<Seq<char>>
    decreases subs.len(),
{
    if subs.len() == 0 {
        None
    } else if !strips.contains(subs.last()) {
        Some(subs.last())
    } else {
        spec_survivor(subs.drop_last(), strips)
    }
}

/// The wrapper type of a capability.
pub open spec fn spec_wrapper_type(cap: Seq<char>) -> Seq<char> {
    "crate::iterators::"@ + cap
}

/// The generated return wrapper for a composite whose result strips
/// `strips`: the most specific survivor's wrapper, the base capability's
/// wrapper when nothing survives, or `None` when the lattice does not list
/// the composite.
pub open spec fn spec_resolve_wrapper(
    l: CapabilityLatticeV,
    composite: Seq<char>,
    strips: Seq<Seq<char>>,
) -> Option<Seq<char>> {
    match spec_lookup(l, composite) {
        None => None,
        Some(subs) => match spec_survivor(subs, strips) {
            Some(cap) => Some(spec_wrapper_type(cap)),
            None => Some(spec_wrapper_type("PyBaseIterator"@)),
        },
    }
}

/// Build the wrapper type name of a capability.
pub fn wrapper_type(cap: &str) -> (r: String)
    ensures
        r@ == spec_wrapper_type(cap@),
{
    let mut s = owned("crate::iterators::");
    s.append(cap);
    s
}

/// Index of the last entry of `subs[..i]` not named in `strips`.
fn survivor_index(subs: &Vec<String>, strips: &Vec<String>, i: usize) -> (r: Option<usize>)
    requires
        i <= subs@.len(),
    ensures
        match r {
            Some(k) => k < i && spec_survivor(subs.deep_view().subrange(0, i as int), strips.deep_view())
                == Some(subs.deep_view()[k as int]),
            None => spec_survivor(subs.deep_view().subrange(0, i as int), strips.deep_view()) is None,
        },
    decreases i,
{
    if i == 0 {
        assert(subs.deep_view().subrange(0, 0) =~= Seq::<Seq<char>>::empty());
        None
    } else {
        let ghost pre = subs.deep_view().subrange(0, i as int);
        assert(pre.last() == subs.deep_view()[i - 1]);
        if !contains_str(strips, subs[i - 1].as_str()) {
            Some(i - 1)
        } else {
            assert(pre.drop_last() =~= subs.deep_view().subrange(0, i - 1));
            survivor_index(subs, strips, i - 1)
        }
    }
}

/// Return-type degradation picks the most specific survivor: for a
/// composite subsuming, least to most specific, a base, a middle and a top
/// capability, a method stripping only the middle one degrades to the top
/// capability — not to the base.
pub proof fn lemma_degradation_most_specific(base: Seq<char>, mid: Seq<char>, top: Seq<char>)
    requires
        top != mid,
    ensures
        spec_survivor(seq![base, mid, top], seq![mid]) == Some(top),
{
    let subs = seq![base, mid, top];
    assert(subs.last() == top);
    if seq![mid].contains(top) {
        let w = choose|w: int| 0 <= w < 1 && seq![mid][w] == top;
        assert(false);
    }
}

/// Resolve the return wrapper for `composite` when `strips` are dropped.
pub fn resolve_wrapper(l: &CapabilityLattice, composite: &str, strips: &Vec<String>) -> (r: Option<
    String,
>)
    ensures
        match r {
            Some(w) => spec_resolve_wrapper(l@, composite@, strips.deep_view()) == Some(w@),
            None => spec_resolve_wrapper(l@, composite@, strips.deep_view()) is None,
        },
{
    let subs = match l.lookup(composite) {
        Some(s) => s,
        None => {
            return None;
        },
    };
    let n = subs.len();
    assert(subs.deep_view().subrange(0, n as int) =~= subs.deep_view());
    match survivor_index(&subs, strips, n) {
        Some(k) => Some(wrapper_type(subs[k].as_str())),
        None => Some(wrapper_type("PyBaseIterator")),
    }
}

} // verus!
