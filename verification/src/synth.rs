//! The delegation synthesizer.
//!
//! Given the registry, the capability lattice and a generation request, it
//! emits one forwarding method definition per selected capability method,
//! skipping the capability's own self-accessor and the request's excluded
//! names, eliding parameters whose type is the capability's self-generic
//! placeholder, resolving the return type by the degradation policy, and
//! renaming on a collision with a method the target type already declares.

use vstd::prelude::*;

use crate::impl_block::{spec_nice_name, ImplBlock, ImplBlockV};
use crate::lattice::{spec_resolve_wrapper, resolve_wrapper, CapabilityLattice, CapabilityLatticeV};
use crate::method::{opt_str_view, Argument, ArgumentV, Method, MethodV};
use crate::reparse::{check_ident, check_type, parses_as_ident, parses_as_type};
use crate::text::{contains_str, str_eq_str};

verus! {

broadcast use vstd::seq::group_seq_axioms, vstd::std_specs::vec::group_vec_axioms;

// ===========================================================================
// Requests
// ===========================================================================
/// One selected capability, with the method names the request excludes.
#[derive(Debug, Clone)]
pub struct TraitSelection {
    pub name: String,
    pub exclude: Vec<String>,
}

pub struct TraitSelectionV {
    pub name: Seq<char>,
    pub exclude: Seq<Seq<char>>,
}

impl View for TraitSelection {
    type V = TraitSelectionV;

    open spec fn view(&self) -> TraitSelectionV {
        TraitSelectionV { name: self.name@, exclude: self.exclude.deep_view() }
    }
}

impl DeepView for TraitSelection {
    type V = TraitSelectionV;

    open spec fn deep_view(&self) -> TraitSelectionV {
        self@
    }
}

/// One generation request: the target type, its self-accessor, the method
/// names it already declares, and the selected capabilities in order.
#[derive(Debug, Clone)]
pub struct GenRequest {
    pub target_type: String,
    pub self_accessor: String,
    pub existing_methods: Vec<String>,
    pub selections: Vec<TraitSelection>,
}

pub struct GenRequestV {
    pub target_type: Seq<char>,
    pub self_accessor: Seq<char>,
    pub existing_methods: Seq<Seq<char>>,
    pub selections: Seq<TraitSelectionV>,
}

impl View for GenRequest {
    type V = GenRequestV;

    open spec fn view(&self) -> GenRequestV {
        GenRequestV {
            target_type: self.target_type@,
            self_accessor: self.self_accessor@,
            existing_methods: self.existing_methods.deep_view(),
            selections: self.selections.deep_view(),
        }
    }
}

// ===========================================================================
// Errors
// ===========================================================================
/// A recorded string failed to re-parse, or the lattice has no row for the
/// target composite: registry corruption or schema drift.
#[derive(Debug, Clone)]
pub enum MethodDeserializeError {
    /// A path segment of the capability name fails to re-parse.
    NamePathParseError(String),
    /// A method or argument name fails to re-parse.
    NameParseError(String),
    /// The capability record's name is empty.
    EmptyField,
    /// A recorded type text fails to re-parse.
    ArgTypeParseError(String),
    /// The target's self-accessor name fails to re-parse.
    TokenStreamParseError(String),
    /// The target composite is not listed in the capability lattice.
    InvalidIteratorName,
}

pub enum MethodErrV {
    NamePath(Seq<char>),
    Name(Seq<char>),
    EmptyField,
    ArgType(Seq<char>),
    Accessor(Seq<char>),
    UnknownComposite,
}

impl View for MethodDeserializeError {
    type V = MethodErrV;

    open spec fn view(&self) -> MethodErrV {
        match self {
            MethodDeserializeError::NamePathParseError(s) => MethodErrV::NamePath(s@),
            MethodDeserializeError::NameParseError(s) => MethodErrV::Name(s@),
            MethodDeserializeError::EmptyField => MethodErrV::EmptyField,
            MethodDeserializeError::ArgTypeParseError(s) => MethodErrV::ArgType(s@),
            MethodDeserializeError::TokenStreamParseError(s) => MethodErrV::Accessor(s@),
            MethodDeserializeError::InvalidIteratorName => MethodErrV::UnknownComposite,
        }
    }
}

/// A failure of the whole generation request.
#[derive(Debug, Clone)]
pub enum SynthesisError {
    /// The selection lists no capability at all.
    EmptySelection,
    /// The selection names a capability absent from the registry.
    UnknownCapability(String),
    /// Two emitted methods would share a name even after renaming.
    Collision(String),
    /// A recorded string failed to re-parse.
    MethodError(MethodDeserializeError),
}

pub enum SynthErrV {
    EmptySelection,
    UnknownCapability(Seq<char>),
    Collision(Seq<char>),
    MethodError(MethodErrV),
}

impl View for SynthesisError {
    type V = SynthErrV;

    open spec fn view(&self) -> SynthErrV {
        match self {
            SynthesisError::EmptySelection => SynthErrV::EmptySelection,
            SynthesisError::UnknownCapability(s) => SynthErrV::UnknownCapability(s@),
            SynthesisError::Collision(s) => SynthErrV::Collision(s@),
            SynthesisError::MethodError(e) => SynthErrV::MethodError(e@),
        }
    }
}

// ===========================================================================
// Emitted definitions
// ===========================================================================
/// The resolved return of a generated method.
#[derive(Debug, Clone)]
pub enum ReturnSpec {
    /// The recorded return type verbatim, unwrapped; `None` for no return.
    Literal(Option<String>),
    /// The target type itself: the result is wrapped back into `Self`.
    SelfType,
    /// A narrower capability's wrapper type.
    Wrapper(String),
}

pub enum ReturnSpecV {
    Literal(Option<Seq<char>>),
    SelfType,
    Wrapper(Seq<char>),
}

impl View for ReturnSpec {
    type V = ReturnSpecV;

    open spec fn view(&self) -> ReturnSpecV {
        match self {
            ReturnSpec::Literal(t) => ReturnSpecV::Literal(opt_str_view(*t)),
            ReturnSpec::SelfType => ReturnSpecV::SelfType,
            ReturnSpec::Wrapper(w) => ReturnSpecV::Wrapper(w@),
        }
    }
}

/// One generated forwarding method.
#[derive(Debug, Clone)]
pub struct MethodDef {
    /// The emitted method name, after any collision rename.
    pub name: String,
    /// The capability method's own name, when the emitted one was renamed;
    /// the emitter attaches a bridging annotation for it.
    pub bridged_from: Option<String>,
    /// The capability the method is generated for.
    pub capability: String,
    /// The fully qualified path of the capability set.
    pub qualified_trait: String,
    /// The target's self-accessor method name.
    pub self_accessor: String,
    /// The kept parameters, self-generic slots elided.
    pub params: Vec<Argument>,
    pub return_spec: ReturnSpec,
    pub doc: Option<String>,
}

pub struct MethodDefV {
    pub name: Seq<char>,
    pub bridged_from: Option<Seq<char>>,
    pub capability: Seq<char>,
    pub qualified_trait: Seq<char>,
    pub self_accessor: Seq<char>,
    pub params: Seq<ArgumentV>,
    pub return_spec: ReturnSpecV,
    pub doc: Option<Seq<char>>,
}

impl View for MethodDef {
    type V = MethodDefV;

    open spec fn view(&self) -> MethodDefV {
        MethodDefV {
            name: self.name@,
            bridged_from: opt_str_view(self.bridged_from),
            capability: self.capability@,
            qualified_trait: self.qualified_trait@,
            self_accessor: self.self_accessor@,
            params: self.params.deep_view(),
            return_spec: self.return_spec@,
            doc: opt_str_view(self.doc),
        }
    }
}

impl DeepView for MethodDef {
    type V = MethodDefV;

    open spec fn deep_view(&self) -> MethodDefV {
        self@
    }
}

/// The name the generated body calls on the capability: the capability
/// method's own name, untouched by any rename.
pub open spec fn spec_call_name(d: MethodDefV) -> Seq<char> {
    match d.bridged_from {
        Some(orig) => orig,
        None => d.name,
    }
}

// ===========================================================================
// Synthesis: specification
// ===========================================================================
/// The first registry record whose capability name (the last path segment)
/// is `name`, from record `i` on.
pub open spec fn spec_find_block(registry: Seq<ImplBlockV>, name: Seq<char>, i: int) -> Option<
    ImplBlockV,
>
    decreases registry.len() - i,
    when 0 <= i
{
    if i >= registry.len() {
        None
    } else if registry[i].name.len() > 0 && registry[i].name.last() == name {
        Some(registry[i])
    } else {
        spec_find_block(registry, name, i + 1)
    }
}

/// Path segments re-checked before splicing, from segment `i` on.
pub open spec fn spec_segments_check(name: Seq<Seq<char>>, i: int) -> Result<(), MethodErrV>
    decreases name.len() - i,
    when 0 <= i
{
    if i >= name.len() {
        Ok(())
    } else if !(name[i] == "crate"@ || parses_as_ident(name[i])) {
        Err(MethodErrV::NamePath(name[i]))
    } else {
        spec_segments_check(name, i + 1)
    }
}

/// The kept parameters: every argument whose recorded type is not the
/// capability's self-generic placeholder, re-checked, from argument `i` on.
pub open spec fn spec_kept_args(args: Seq<ArgumentV>, self_generic: Seq<char>, i: int) -> Result<
    Seq<ArgumentV>,
    MethodErrV,
>
    decreases args.len() - i,
    when 0 <= i
{
    if i >= args.len() {
        Ok(Seq::empty())
    } else {
        let a = args[i];
        if a.expected_type == self_generic {
            spec_kept_args(args, self_generic, i + 1)
        } else if !parses_as_ident(a.name) {
            Err(MethodErrV::Name(a.name))
        } else if !parses_as_type(a.expected_type) {
            Err(MethodErrV::ArgType(a.expected_type))
        } else {
            match spec_kept_args(args, self_generic, i + 1) {
                Err(e) => Err(e),
                Ok(rest) => Ok(seq![a] + rest),
            }
        }
    }
}

/// The resolved return of one capability method, for a target composite:
/// the recorded type verbatim when the result is forwarded unchanged, the
/// target type itself when nothing is stripped, else the degraded wrapper
/// from the lattice.
pub open spec fn spec_return_spec(
    m: MethodV,
    lattice: CapabilityLatticeV,
    target_composite: Seq<char>,
) -> Result<ReturnSpecV, MethodErrV> {
    if m.literal_return {
        match m.return_type {
            None => Ok(ReturnSpecV::Literal(None)),
            Some(t) => if parses_as_type(t) {
                Ok(ReturnSpecV::Literal(Some(t)))
            } else {
                Err(MethodErrV::ArgType(t))
            },
        }
    } else if m.strips.len() == 0 {
        Ok(ReturnSpecV::SelfType)
    } else {
        match spec_resolve_wrapper(lattice, target_composite, m.strips) {
            None => Err(MethodErrV::UnknownComposite),
            Some(w) => Ok(ReturnSpecV::Wrapper(w)),
        }
    }
}

/// One generated definition, before the naming policy.
pub open spec fn spec_synth_method(
    block: ImplBlockV,
    m: MethodV,
    lattice: CapabilityLatticeV,
    target_composite: Seq<char>,
) -> Result<(Seq<ArgumentV>, ReturnSpecV), MethodErrV> {
    if block.name.len() == 0 {
        Err(MethodErrV::EmptyField)
    } else {
        match spec_segments_check(block.name, 0) {
            Err(e) => Err(e),
            Ok(_) => if !parses_as_ident(m.name) {
                Err(MethodErrV::Name(m.name))
            } else {
                match spec_kept_args(m.args, block.self_generic, 0) {
                    Err(e) => Err(e),
                    Ok(params) => match spec_return_spec(m, lattice, target_composite) {
                        Err(e) => Err(e),
                        Ok(rs) => Ok((params, rs)),
                    },
                }
            },
        }
    }
}

/// Whether the method is forwarded at all: the capability's self-accessor
/// is never forwarded, and excluded names are dropped.
pub open spec fn spec_skipped(block: ImplBlockV, sel: TraitSelectionV, m: MethodV) -> bool {
    m.name == block.self_function || sel.exclude.contains(m.name)
}

/// The emitted name: renamed with a `__` prefix when the capability is the
/// target type's own canonical host type and the target already declares
/// the name.
pub open spec fn spec_final_name(req: GenRequestV, sel: TraitSelectionV, m: MethodV) -> Seq<char> {
    if sel.name == req.target_type && req.existing_methods.contains(m.name) {
        "__"@ + m.name
    } else {
        m.name
    }
}

/// Definitions of one selected capability from method `i` on; `taken`
/// holds every name emitted so far.
pub open spec fn spec_defs_of_selection(
    block: ImplBlockV,
    sel: TraitSelectionV,
    req: GenRequestV,
    lattice: CapabilityLatticeV,
    i: int,
    taken: Seq<Seq<char>>,
) -> Result<(Seq<MethodDefV>, Seq<Seq<char>>), SynthErrV>
    decreases block.methods.len() - i,
    when 0 <= i
{
    if i >= block.methods.len() {
        Ok((Seq::empty(), taken))
    } else {
        let m = block.methods[i];
        if spec_skipped(block, sel, m) {
            spec_defs_of_selection(block, sel, req, lattice, i + 1, taken)
        } else {
            match spec_synth_method(block, m, lattice, req.target_type) {
                Err(e) => Err(SynthErrV::MethodError(e)),
                Ok((params, rs)) => {
                    let final_name = spec_final_name(req, sel, m);
                    if taken.contains(final_name) {
                        Err(SynthErrV::Collision(final_name))
                    } else {
                        let d = MethodDefV {
                            name: final_name,
                            bridged_from: if final_name == m.name {
                                None
                            } else {
                                Some(m.name)
                            },
                            capability: sel.name,
                            qualified_trait: spec_nice_name(block),
                            self_accessor: req.self_accessor,
                            params: params,
                            return_spec: rs,
                            doc: m.comments,
                        };
                        match spec_defs_of_selection(
                            block,
                            sel,
                            req,
                            lattice,
                            i + 1,
                            taken.push(final_name),
                        ) {
                            Err(e) => Err(e),
                            Ok((rest, taken2)) => Ok((seq![d] + rest, taken2)),
                        }
                    }
                },
            }
        }
    }
}

/// Definitions of every selection from selection `j` on, in request order.
pub open spec fn spec_defs_of_selections(
    registry: Seq<ImplBlockV>,
    req: GenRequestV,
    lattice: CapabilityLatticeV,
    j: int,
    taken: Seq<Seq<char>>,
) -> Result<(Seq<MethodDefV>, Seq<Seq<char>>), SynthErrV>
    decreases req.selections.len() - j,
    when 0 <= j
{
    if j >= req.selections.len() {
        Ok((Seq::empty(), taken))
    } else {
        let sel = req.selections[j];
        match spec_find_block(registry, sel.name, 0) {
            None => Err(SynthErrV::UnknownCapability(sel.name)),
            Some(block) => match spec_defs_of_selection(block, sel, req, lattice, 0, taken) {
                Err(e) => Err(e),
                Ok((defs, taken2)) => match spec_defs_of_selections(
                    registry,
                    req,
                    lattice,
                    j + 1,
                    taken2,
                ) {
                    Err(e) => Err(e),
                    Ok((rest, taken3)) => Ok((defs + rest, taken3)),
                },
            },
        }
    }
}

/// The whole generation request: every selected capability's forwarding
/// definitions, in deterministic order; the selection must be non-empty
/// and the target's self-accessor must re-parse.
pub open spec fn spec_synthesize(
    registry: Seq<ImplBlockV>,
    lattice: CapabilityLatticeV,
    req: GenRequestV,
) -> Result<Seq<MethodDefV>, SynthErrV> {
    if req.selections.len() == 0 {
        Err(SynthErrV::EmptySelection)
    } else if !parses_as_ident(req.self_accessor) {
        Err(SynthErrV::MethodError(MethodErrV::Accessor(req.self_accessor)))
    } else {
        match spec_defs_of_selections(registry, req, lattice, 0, Seq::empty()) {
            Err(e) => Err(e),
            Ok((defs, _)) => Ok(defs),
        }
    }
}

// ===========================================================================
// Synthesis: executable
// ===========================================================================
fn find_block(registry: &Vec<ImplBlock>, name: &str) -> (r: Option<usize>)
    ensures
        match r {
            Some(k) => k < registry@.len() && spec_find_block(registry.deep_view(), name@, 0)
                == Some(registry.deep_view()[k as int]),
            None => spec_find_block(registry.deep_view(), name@, 0) is None,
        },
{
    let n = registry.len();
    let mut i: usize = 0;
    while i < n
        invariant
            0 <= i <= n,
            n == registry@.len(),
            registry.deep_view().len() == n,
            forall|j: int| 0 <= j < n ==> registry.deep_view()[j] == registry@[j]@,
            spec_find_block(registry.deep_view(), name@, 0) == spec_find_block(
                registry.deep_view(),
                name@,
                i as int,
            ),
        decreases n - i,
    {
        let b = &registry[i];
        if b.name.len() > 0 {
            assert(registry@[i as int]@.name[registry@[i as int]@.name.len() - 1] == b.name@[
                b.name@.len() - 1]@);
            if str_eq_str(b.name[b.name.len() - 1].as_str(), name) {
                return Some(i);
            }
        }
        i += 1;
    }
    None
}

fn segments_check(name: &Vec<String>, i: usize) -> (r: Result<(), MethodDeserializeError>)
    requires
        i <= name@.len(),
    ensures
        match r {
            Ok(_) => spec_segments_check(name.deep_view(), i as int) == Ok::<(), MethodErrV>(()),
            Err(e) => spec_segments_check(name.deep_view(), i as int) == Err::<(), MethodErrV>(e@),
        },
    decreases name@.len() - i,
{
    if i >= name.len() {
        return Ok(());
    }
    assert(name.deep_view()[i as int] == name@[i as int]@);
    let s = name[i].as_str();
    if !(str_eq_str(s, "crate") || check_ident(s)) {
        Err(MethodDeserializeError::NamePathParseError(name[i].clone()))
    } else {
        segments_check(name, i + 1)
    }
}

fn kept_args(args: &Vec<Argument>, self_generic: &str, i: usize) -> (r: Result<
    Vec<Argument>,
    MethodDeserializeError,
>)
    requires
        i <= args@.len(),
    ensures
        match r {
            Ok(v) => spec_kept_args(args.deep_view(), self_generic@, i as int) == Ok::<
                Seq<ArgumentV>,
                MethodErrV,
            >(v.deep_view()),
            Err(e) => spec_kept_args(args.deep_view(), self_generic@, i as int) == Err::<
                Seq<ArgumentV>,
                MethodErrV,
            >(e@),
        },
    decreases args@.len() - i,
{
    if i >= args.len() {
        let v: Vec<Argument> = Vec::new();
        assert(v.deep_view() =~= Seq::<ArgumentV>::empty());
        return Ok(v);
    }
    assert(args.deep_view()[i as int] == args@[i as int]@);
    let a = &args[i];
    if str_eq_str(a.expected_type.as_str(), self_generic) {
        kept_args(args, self_generic, i + 1)
    } else if !check_ident(a.name.as_str()) {
        Err(MethodDeserializeError::NameParseError(a.name.clone()))
    } else if !check_type(a.expected_type.as_str()) {
        Err(MethodDeserializeError::ArgTypeParseError(a.expected_type.clone()))
    } else {
        let mut rest = match kept_args(args, self_generic, i + 1) {
            Ok(v) => v,
            Err(e) => {
                return Err(e);
            },
        };
        let kept = Argument {
            mutable: a.mutable,
            name: a.name.clone(),
            expected_type: a.expected_type.clone(),
        };
        let ghost pre_deep = rest.deep_view();
        let ghost kv = kept@;
        rest.insert(0, kept);
        assert(rest.deep_view() =~= seq![kv] + pre_deep);
        Ok(rest)
    }
}

fn return_spec_exec(m: &Method, lattice: &CapabilityLattice, target: &str) -> (r: Result<
    ReturnSpec,
    MethodDeserializeError,
>)
    ensures
        match r {
            Ok(rs) => spec_return_spec(m@, lattice@, target@) == Ok::<ReturnSpecV, MethodErrV>(
                rs@,
            ),
            Err(e) => spec_return_spec(m@, lattice@, target@) == Err::<ReturnSpecV, MethodErrV>(
                e@,
            ),
        },
{
    if m.literal_return {
        match &m.return_type {
            None => Ok(ReturnSpec::Literal(None)),
            Some(t) => {
                if check_type(t.as_str()) {
                    Ok(ReturnSpec::Literal(Some(t.clone())))
                } else {
                    Err(MethodDeserializeError::ArgTypeParseError(t.clone()))
                }
            },
        }
    } else if m.strips.len() == 0 {
        Ok(ReturnSpec::SelfType)
    } else {
        match resolve_wrapper(lattice, target, &m.strips) {
            None => Err(MethodDeserializeError::InvalidIteratorName),
            Some(w) => Ok(ReturnSpec::Wrapper(w)),
        }
    }
}

fn synth_method(block: &ImplBlock, m: &Method, lattice: &CapabilityLattice, target: &str) -> (r:
    Result<(Vec<Argument>, ReturnSpec), MethodDeserializeError>)
    ensures
        match r {
            Ok((p, rs)) => spec_synth_method(block@, m@, lattice@, target@) == Ok::<
                (Seq<ArgumentV>, ReturnSpecV),
                MethodErrV,
            >((p.deep_view(), rs@)),
            Err(e) => spec_synth_method(block@, m@, lattice@, target@) == Err::<
                (Seq<ArgumentV>, ReturnSpecV),
                MethodErrV,
            >(e@),
        },
{
    if block.name.len() == 0 {
        return Err(MethodDeserializeError::EmptyField);
    }
    match segments_check(&block.name, 0) {
        Ok(_) => {},
        Err(e) => {
            return Err(e);
        },
    }
    if !check_ident(m.name.as_str()) {
        return Err(MethodDeserializeError::NameParseError(m.name.clone()));
    }
    let params = match kept_args(&m.args, block.self_generic.as_str(), 0) {
        Ok(v) => v,
        Err(e) => {
            return Err(e);
        },
    };
    let rs = match return_spec_exec(m, lattice, target) {
        Ok(rs) => rs,
        Err(e) => {
            return Err(e);
        },
    };
    Ok((params, rs))
}

fn defs_of_selection(
    block: &ImplBlock,
    sel: &TraitSelection,
    req: &GenRequest,
    lattice: &CapabilityLattice,
    i: usize,
    taken: Vec<String>,
) -> (r: Result<(Vec<MethodDef>, Vec<String>), SynthesisError>)
    requires
        i <= block@.methods.len(),
    ensures
        match r {
            Ok((defs, taken2)) => spec_defs_of_selection(
                block@,
                sel@,
                req@,
                lattice@,
                i as int,
                taken.deep_view(),
            ) == Ok::<(Seq<MethodDefV>, Seq<Seq<char>>), SynthErrV>(
                (defs.deep_view(), taken2.deep_view()),
            ),
            Err(e) => spec_defs_of_selection(
                block@,
                sel@,
                req@,
                lattice@,
                i as int,
                taken.deep_view(),
            ) == Err::<(Seq<MethodDefV>, Seq<Seq<char>>), SynthErrV>(e@),
        },
    decreases block@.methods.len() - i,
{
    if i >= block.methods.len() {
        let defs: Vec<MethodDef> = Vec::new();
        assert(defs.deep_view() =~= Seq::<MethodDefV>::empty());
        return Ok((defs, taken));
    }
    assert(block@.methods[i as int] == block.methods@[i as int]@);
    let m = &block.methods[i];
    let skipped = str_eq_str(m.name.as_str(), block.self_function.as_str()) || contains_str(
        &sel.exclude,
        m.name.as_str(),
    );
    if skipped {
        return defs_of_selection(block, sel, req, lattice, i + 1, taken);
    }
    let (params, rs) = match synth_method(block, m, lattice, req.target_type.as_str()) {
        Ok(p) => p,
        Err(e) => {
            return Err(SynthesisError::MethodError(e));
        },
    };
    let rename = str_eq_str(sel.name.as_str(), req.target_type.as_str()) && contains_str(
        &req.existing_methods,
        m.name.as_str(),
    );
    let final_name: String = if rename {
        let mut s = "__".to_owned();
        s.append(m.name.as_str());
        s
    } else {
        m.name.clone()
    };
    assert(final_name@ == spec_final_name(req@, sel@, m@));
    if contains_str(&taken, final_name.as_str()) {
        return Err(SynthesisError::Collision(final_name));
    }
    let bridged_from: Option<String> = if str_eq_str(final_name.as_str(), m.name.as_str()) {
        None
    } else {
        Some(m.name.clone())
    };
    let doc: Option<String> = match &m.comments {
        Some(d) => Some(d.clone()),
        None => None,
    };
    let d = MethodDef {
        name: final_name.clone(),
        bridged_from,
        capability: sel.name.clone(),
        qualified_trait: block.nice_name(),
        self_accessor: req.self_accessor.clone(),
        params,
        return_spec: rs,
        doc,
    };
    let mut taken_next = taken;
    let ghost taken_pre = taken_next.deep_view();
    taken_next.push(final_name);
    assert(taken_next.deep_view() =~= taken_pre.push(d@.name));
    let (mut rest, taken2) = match defs_of_selection(block, sel, req, lattice, i + 1, taken_next) {
        Ok(p) => p,
        Err(e) => {
            return Err(e);
        },
    };
    let ghost rest_deep = rest.deep_view();
    let ghost dv = d@;
    rest.insert(0, d);
    assert(rest.deep_view() =~= seq![dv] + rest_deep);
    Ok((rest, taken2))
}

fn defs_of_selections(
    registry: &Vec<ImplBlock>,
    req: &GenRequest,
    lattice: &CapabilityLattice,
    j: usize,
    taken: Vec<String>,
) -> (r: Result<(Vec<MethodDef>, Vec<String>), SynthesisError>)
    requires
        j <= req@.selections.len(),
    ensures
        match r {
            Ok((defs, taken2)) => spec_defs_of_selections(
                registry.deep_view(),
                req@,
                lattice@,
                j as int,
                taken.deep_view(),
            ) == Ok::<(Seq<MethodDefV>, Seq<Seq<char>>), SynthErrV>(
                (defs.deep_view(), taken2.deep_view()),
            ),
            Err(e) => spec_defs_of_selections(
                registry.deep_view(),
                req@,
                lattice@,
                j as int,
                taken.deep_view(),
            ) == Err::<(Seq<MethodDefV>, Seq<Seq<char>>), SynthErrV>(e@),
        },
    decreases req@.selections.len() - j,
{
    if j >= req.selections.len() {
        let defs: Vec<MethodDef> = Vec::new();
        assert(defs.deep_view() =~= Seq::<MethodDefV>::empty());
        return Ok((defs, taken));
    }
    assert(req@.selections[j as int] == req.selections@[j as int]@);
    let sel = &req.selections[j];
    let k = match find_block(registry, sel.name.as_str()) {
        Some(k) => k,
        None => {
            return Err(SynthesisError::UnknownCapability(sel.name.clone()));
        },
    };
    assert(registry.deep_view()[k as int] == registry@[k as int]@);
    let (mut defs, taken2) = match defs_of_selection(&registry[k], sel, req, lattice, 0, taken) {
        Ok(p) => p,
        Err(e) => {
            return Err(e);
        },
    };
    let (rest, taken3) = match defs_of_selections(registry, req, lattice, j + 1, taken2) {
        Ok(p) => p,
        Err(e) => {
            return Err(e);
        },
    };
    let ghost defs_deep = defs.deep_view();
    let ghost rest_deep = rest.deep_view();
    let mut rest_m = rest;
    defs.append(&mut rest_m);
    assert(defs.deep_view() =~= defs_deep + rest_deep);
    Ok((defs, taken3))
}

/// Run the delegation synthesizer: the forwarding method definitions of
/// every selected capability, in request order, or the first failure.
pub fn synthesize(
    registry: &Vec<ImplBlock>,
    lattice: &CapabilityLattice,
    req: &GenRequest,
) -> (r: Result<Vec<MethodDef>, SynthesisError>)
    ensures
        match r {
            Ok(defs) => spec_synthesize(registry.deep_view(), lattice@, req@) == Ok::<
                Seq<MethodDefV>,
                SynthErrV,
            >(defs.deep_view()),
            Err(e) => spec_synthesize(registry.deep_view(), lattice@, req@) == Err::<
                Seq<MethodDefV>,
                SynthErrV,
            >(e@),
        },
{
    if req.selections.len() == 0 {
        return Err(SynthesisError::EmptySelection);
    }
    if !check_ident(req.self_accessor.as_str()) {
        return Err(
            SynthesisError::MethodError(
                MethodDeserializeError::TokenStreamParseError(req.self_accessor.clone()),
            ),
        );
    }
    let taken: Vec<String> = Vec::new();
    assert(taken.deep_view() =~= Seq::<Seq<char>>::empty());
    match defs_of_selections(registry, req, lattice, 0, taken) {
        Ok((defs, _)) => Ok(defs),
        Err(e) => Err(e),
    }
}

// ===========================================================================
// The emitter: definitions to source text
// ===========================================================================
/// Parameter list text: `, [mut ]name: type` for each kept parameter.
pub open spec fn spec_params_text(params: Seq<ArgumentV>, i: int) -> Seq<char>
    decreases params.len() - i,
    when 0 <= i
{
    if i >= params.len() {
        Seq::empty()
    } else {
        ", "@ + (if params[i].mutable {
            "mut "@
        } else {
            Seq::empty()
        }) + params[i].name + ": "@ + params[i].expected_type + spec_params_text(params, i + 1)
    }
}

/// Call argument text: `, name` for each kept parameter.
pub open spec fn spec_call_args_text(params: Seq<ArgumentV>, i: int) -> Seq<char>
    decreases params.len() - i,
    when 0 <= i
{
    if i >= params.len() {
        Seq::empty()
    } else {
        ", "@ + params[i].name + spec_call_args_text(params, i + 1)
    }
}

/// Return type text of the resolved return.
pub open spec fn spec_ret_text(rs: ReturnSpecV) -> Seq<char> {
    match rs {
        ReturnSpecV::Literal(None) => Seq::empty(),
        ReturnSpecV::Literal(Some(t)) => " -> "@ + t,
        ReturnSpecV::SelfType => " -> Self"@,
        ReturnSpecV::Wrapper(w) => " -> "@ + w,
    }
}

/// The forwarding call: the qualified capability method applied to the
/// extracted self value and the kept arguments.
pub open spec fn spec_call_text(d: MethodDefV) -> Seq<char> {
    d.qualified_trait + "::"@ + spec_call_name(d) + "(self."@ + d.self_accessor + "()"@
        + spec_call_args_text(d.params, 0) + ")"@
}

/// The body: the call alone for a literal return, else the result boxed
/// back into the resolved wrapper.
pub open spec fn spec_body_text(d: MethodDefV) -> Seq<char> {
    match d.return_spec {
        ReturnSpecV::Literal(_) => spec_call_text(d),
        ReturnSpecV::SelfType => "Self::new(Box::new("@ + spec_call_text(d) + "))"@,
        ReturnSpecV::Wrapper(w) => w + "::new(Box::new("@ + spec_call_text(d) + "))"@,
    }
}

/// The bridging annotation for a renamed method, so that external callers
/// still resolve the original name.
pub open spec fn spec_bridge_text(d: MethodDefV) -> Seq<char> {
    match d.bridged_from {
        None => Seq::empty(),
        Some(orig) => "#[pyo3(name = \""@ + orig + "\")]\n"@,
    }
}

/// The full rendered method definition.
pub open spec fn spec_render(d: MethodDefV) -> Seq<char> {
    spec_bridge_text(d) + "pub fn "@ + d.name + "(&mut self"@ + spec_params_text(d.params, 0)
        + ")"@ + spec_ret_text(d.return_spec) + " { "@ + spec_body_text(d) + " }"@
}

fn params_text(params: &Vec<Argument>) -> (r: String)
    ensures
        r@ == spec_params_text(params.deep_view(), 0),
{
    let ghost pv = params.deep_view();
    let mut acc = String::new();
    let n = params.len();
    let mut i: usize = 0;
    assert(acc@ + spec_params_text(pv, 0) =~= spec_params_text(pv, 0));
    while i < n
        invariant
            0 <= i <= n,
            n == params@.len(),
            pv == params.deep_view(),
            pv.len() == n,
            forall|j: int| 0 <= j < n ==> pv[j] == params@[j]@,
            acc@ + spec_params_text(pv, i as int) == spec_params_text(pv, 0),
        decreases n - i,
    {
        let ghost pre = acc@;
        let a = &params[i];
        acc.append(", ");
        if a.mutable {
            acc.append("mut ");
        }
        acc.append(a.name.as_str());
        acc.append(": ");
        acc.append(a.expected_type.as_str());
        proof {
            let piece = ", "@ + (if pv[i as int].mutable {
                "mut "@
            } else {
                Seq::<char>::empty()
            }) + pv[i as int].name + ": "@ + pv[i as int].expected_type;
            assert(acc@ =~= pre + piece);
            assert(acc@ + spec_params_text(pv, i + 1) =~= pre + (piece + spec_params_text(
                pv,
                i + 1,
            )));
        }
        i += 1;
    }
    acc
}

fn call_args_text(params: &Vec<Argument>) -> (r: String)
    ensures
        r@ == spec_call_args_text(params.deep_view(), 0),
{
    let ghost pv = params.deep_view();
    let mut acc = String::new();
    let n = params.len();
    let mut i: usize = 0;
    assert(acc@ + spec_call_args_text(pv, 0) =~= spec_call_args_text(pv, 0));
    while i < n
        invariant
            0 <= i <= n,
            n == params@.len(),
            pv == params.deep_view(),
            pv.len() == n,
            forall|j: int| 0 <= j < n ==> pv[j] == params@[j]@,
            acc@ + spec_call_args_text(pv, i as int) == spec_call_args_text(pv, 0),
        decreases n - i,
    {
        let ghost pre = acc@;
        acc.append(", ");
        acc.append(params[i].name.as_str());
        proof {
            let piece = ", "@ + pv[i as int].name;
            assert(acc@ =~= pre + piece);
            assert(acc@ + spec_call_args_text(pv, i + 1) =~= pre + (piece + spec_call_args_text(
                pv,
                i + 1,
            )));
        }
        i += 1;
    }
    acc
}

impl MethodDef {
    /// Render the definition as source text for the target type's method
    /// block.
    pub fn render(&self) -> (r: String)
        ensures
            r@ == spec_render(self@),
    {
        let mut acc = String::new();
        match &self.bridged_from {
            None => {},
            Some(orig) => {
                acc.append("#[pyo3(name = \"");
                acc.append(orig.as_str());
                acc.append("\")]\n");
            },
        }
        assert(acc@ =~= spec_bridge_text(self@));
        acc.append("pub fn ");
        acc.append(self.name.as_str());
        acc.append("(&mut self");
        let ps = params_text(&self.params);
        acc.append(ps.as_str());
        acc.append(")");
        match &self.return_spec {
            ReturnSpec::Literal(None) => {},
            ReturnSpec::Literal(Some(t)) => {
                acc.append(" -> ");
                acc.append(t.as_str());
            },
            ReturnSpec::SelfType => {
                acc.append(" -> Self");
            },
            ReturnSpec::Wrapper(w) => {
                acc.append(" -> ");
                acc.append(w.as_str());
            },
        }
        proof {
            assert(spec_ret_text(ReturnSpecV::SelfType) =~= " -> Self"@);
            assert(acc@ =~= spec_bridge_text(self@) + "pub fn "@ + self@.name + "(&mut self"@
                + spec_params_text(self@.params, 0) + ")"@ + spec_ret_text(self@.return_spec));
        }
        acc.append(" { ");
        let mut call = String::new();
        call.append(self.qualified_trait.as_str());
        call.append("::");
        match &self.bridged_from {
            Some(orig) => call.append(orig.as_str()),
            None => call.append(self.name.as_str()),
        }
        call.append("(self.");
        call.append(self.self_accessor.as_str());
        call.append("()");
        let cas = call_args_text(&self.params);
        call.append(cas.as_str());
        call.append(")");
        assert(call@ =~= spec_call_text(self@));
        match &self.return_spec {
            ReturnSpec::Literal(_) => {
                acc.append(call.as_str());
            },
            ReturnSpec::SelfType => {
                acc.append("Self::new(Box::new(");
                acc.append(call.as_str());
                acc.append("))");
            },
            ReturnSpec::Wrapper(w) => {
                acc.append(w.as_str());
                acc.append("::new(Box::new(");
                acc.append(call.as_str());
                acc.append("))");
            },
        }
        acc.append(" }");
        assert(acc@ =~= spec_render(self@));
        acc
    }
}

/// The rendered forwarding method of one capability method, under its own
/// name (the request-level rename policy does not apply here).
pub open spec fn spec_into_impl_item(
    block: ImplBlockV,
    m: MethodV,
    lattice: CapabilityLatticeV,
    target_composite: Seq<char>,
) -> Result<Seq<char>, MethodErrV> {
    match spec_synth_method(block, m, lattice, target_composite) {
        Err(e) => Err(e),
        Ok((params, rs)) => Ok(
            spec_render(
                MethodDefV {
                    name: m.name,
                    bridged_from: None,
                    capability: if block.name.len() > 0 {
                        block.name.last()
                    } else {
                        Seq::empty()
                    },
                    qualified_trait: spec_nice_name(block),
                    self_accessor: block.self_function,
                    params: params,
                    return_spec: rs,
                    doc: m.comments,
                },
            ),
        ),
    }
}

impl Method {
    /// Render this capability method as a forwarding method of `block`'s
    /// own host type, resolving the return type against `target_composite`.
    pub fn into_impl_item(
        &self,
        block: &ImplBlock,
        lattice: &CapabilityLattice,
        target_composite: &str,
    ) -> (r: Result<String, MethodDeserializeError>)
        ensures
            match r {
                Ok(text) => spec_into_impl_item(block@, self@, lattice@, target_composite@)
                    == Ok::<Seq<char>, MethodErrV>(text@),
                Err(e) => spec_into_impl_item(block@, self@, lattice@, target_composite@) == Err::<
                    Seq<char>,
                    MethodErrV,
                >(e@),
            },
    {
        let (params, rs) = match synth_method(block, self, lattice, target_composite) {
            Ok(p) => p,
            Err(e) => {
                return Err(e);
            },
        };
        let capability: String = if block.name.len() > 0 {
            assert(block@.name[block@.name.len() - 1] == block.name@[block.name@.len() - 1]@);
            block.name[block.name.len() - 1].clone()
        } else {
            String::new()
        };
        let doc: Option<String> = match &self.comments {
            Some(d) => Some(d.clone()),
            None => None,
        };
        let d = MethodDef {
            name: self.name.clone(),
            bridged_from: None,
            capability,
            qualified_trait: block.nice_name(),
            self_accessor: block.self_function.clone(),
            params,
            return_spec: rs,
            doc,
        };
        Ok(d.render())
    }
}

// ===========================================================================
// What a successful synthesis guarantees
// ===========================================================================
/// How many methods of the capability are forwarded for this selection:
/// those neither the self-accessor nor excluded, from method `i` on.
pub open spec fn spec_kept_count(block: ImplBlockV, sel: TraitSelectionV, i: int) -> int
    decreases block.methods.len() - i,
    when 0 <= i
{
    if i >= block.methods.len() {
        0
    } else {
        (if spec_skipped(block, sel, block.methods[i]) {
            0int
        } else {
            1int
        }) + spec_kept_count(block, sel, i + 1)
    }
}

/// How many methods are named like the self-accessor, from `i` on.
pub open spec fn spec_accessor_count(block: ImplBlockV, i: int) -> int
    decreases block.methods.len() - i,
    when 0 <= i
{
    if i >= block.methods.len() {
        0
    } else {
        (if block.methods[i].name == block.self_function {
            1int
        } else {
            0int
        }) + spec_accessor_count(block, i + 1)
    }
}

/// How many non-accessor methods the exclude set names, from `i` on.
pub open spec fn spec_excluded_count(block: ImplBlockV, sel: TraitSelectionV, i: int) -> int
    decreases block.methods.len() - i,
    when 0 <= i
{
    if i >= block.methods.len() {
        0
    } else {
        (if block.methods[i].name != block.self_function && sel.exclude.contains(
            block.methods[i].name,
        ) {
            1int
        } else {
            0int
        }) + spec_excluded_count(block, sel, i + 1)
    }
}

/// The forwarded methods partition the capability's method list: what is
/// not the accessor and not excluded is emitted.  With exactly one
/// accessor-named method this is the count formula
/// `methods - 1 - |exclude-set among methods|`.
pub proof fn lemma_kept_count_partition(block: ImplBlockV, sel: TraitSelectionV, i: int)
    requires
        0 <= i <= block.methods.len(),
    ensures
        spec_kept_count(block, sel, i) == (block.methods.len() - i) - spec_accessor_count(block, i)
            - spec_excluded_count(block, sel, i),
    decreases block.methods.len() - i,
{
    if i < block.methods.len() {
        lemma_kept_count_partition(block, sel, i + 1);
    }
}

/// With exactly one accessor-named method, the forwarded count takes the
/// familiar shape: the method count, less one for the accessor, less the
/// non-accessor methods the exclude set names.
pub proof fn lemma_kept_count_formula(block: ImplBlockV, sel: TraitSelectionV)
    requires
        spec_accessor_count(block, 0) == 1,
    ensures
        spec_kept_count(block, sel, 0) == block.methods.len() - 1 - spec_excluded_count(
            block,
            sel,
            0,
        ),
{
    lemma_kept_count_partition(block, sel, 0);
}

/// The emitted names of a definition list, in order.
pub open spec fn defs_names(defs: Seq<MethodDefV>) -> Seq<Seq<char>> {
    defs.map_values(|d: MethodDefV| d.name)
}

proof fn lemma_selection_props(
    block: ImplBlockV,
    sel: TraitSelectionV,
    req: GenRequestV,
    lattice: CapabilityLatticeV,
    i: int,
    taken: Seq<Seq<char>>,
    defs: Seq<MethodDefV>,
    taken2: Seq<Seq<char>>,
)
    requires
        0 <= i,
        spec_defs_of_selection(block, sel, req, lattice, i, taken) == Ok::<
            (Seq<MethodDefV>, Seq<Seq<char>>),
            SynthErrV,
        >((defs, taken2)),
    ensures
        defs.len() == if i <= block.methods.len() {
            spec_kept_count(block, sel, i)
        } else {
            0int
        },
        taken2 == taken + defs_names(defs),
        forall|k: int| 0 <= k < defs.len() ==> !taken.contains(#[trigger] defs[k].name),
        forall|k1: int, k2: int|
            0 <= k1 < k2 < defs.len() ==> defs[k1].name != defs[k2].name,
        forall|k: int|
            0 <= k < defs.len() ==> (#[trigger] defs[k]).capability == sel.name
                && !sel.exclude.contains(spec_call_name(defs[k])),
    decreases block.methods.len() - i,
{
    if i >= block.methods.len() {
        assert(defs =~= Seq::<MethodDefV>::empty());
        assert(defs_names(defs) =~= Seq::<Seq<char>>::empty());
        assert(taken2 =~= taken + defs_names(defs));
    } else {
        let m = block.methods[i];
        if spec_skipped(block, sel, m) {
            lemma_selection_props(block, sel, req, lattice, i + 1, taken, defs, taken2);
        } else {
            let core = spec_synth_method(block, m, lattice, req.target_type);
            let fname = spec_final_name(req, sel, m);
            let rec = spec_defs_of_selection(block, sel, req, lattice, i + 1, taken.push(fname));
            let (rest, taken_r) = rec->Ok_0;
            lemma_selection_props(
                block,
                sel,
                req,
                lattice,
                i + 1,
                taken.push(fname),
                rest,
                taken_r,
            );
            assert(defs[0].name == fname);
            assert(spec_call_name(defs[0]) == m.name);
            assert(defs_names(defs) =~= seq![fname] + defs_names(rest));
            assert(taken2 =~= taken + defs_names(defs));
            assert forall|k: int| 0 <= k < defs.len() implies !taken.contains(
                #[trigger] defs[k].name,
            ) by {
                if k > 0 {
                    assert(defs[k] == rest[k - 1]);
                    assert(!taken.push(fname).contains(rest[k - 1].name));
                    if taken.contains(rest[k - 1].name) {
                        let w = choose|w: int|
                            0 <= w < taken.len() && taken[w] == rest[k - 1].name;
                        assert(taken.push(fname)[w] == rest[k - 1].name);
                    }
                }
            }
            assert forall|k1: int, k2: int| 0 <= k1 < k2 < defs.len() implies defs[k1].name
                != defs[k2].name by {
                if k1 > 0 {
                    assert(defs[k1] == rest[k1 - 1] && defs[k2] == rest[k2 - 1]);
                } else {
                    assert(defs[k2] == rest[k2 - 1]);
                    assert(!taken.push(fname).contains(rest[k2 - 1].name));
                    assert(taken.push(fname)[taken.len() as int] == fname);
                    if rest[k2 - 1].name == fname {
                        assert(taken.push(fname).contains(rest[k2 - 1].name));
                    }
                }
            }
        }
    }
}

/// How many methods the whole request emits: the sum, over the selected
/// capabilities, of each one's forwarded-method count.
pub open spec fn spec_total_count(
    registry: Seq<ImplBlockV>,
    req: GenRequestV,
    j: int,
) -> int
    decreases req.selections.len() - j,
    when 0 <= j
{
    if j >= req.selections.len() {
        0
    } else {
        (match spec_find_block(registry, req.selections[j].name, 0) {
            None => 0int,
            Some(b) => spec_kept_count(b, req.selections[j], 0),
        }) + spec_total_count(registry, req, j + 1)
    }
}

/// A definition is attributable to a selection at or after `j` that names
/// its capability and does not exclude the method it forwards.
pub open spec fn spec_attributed(req: GenRequestV, j: int, d: MethodDefV) -> bool {
    exists|j2: int|
        j <= j2 < req.selections.len() && d.capability == (#[trigger] req.selections[j2]).name
            && !req.selections[j2].exclude.contains(spec_call_name(d))
}

proof fn lemma_selections_props(
    registry: Seq<ImplBlockV>,
    req: GenRequestV,
    lattice: CapabilityLatticeV,
    j: int,
    taken: Seq<Seq<char>>,
    defs: Seq<MethodDefV>,
    taken2: Seq<Seq<char>>,
)
    requires
        0 <= j,
        spec_defs_of_selections(registry, req, lattice, j, taken) == Ok::<
            (Seq<MethodDefV>, Seq<Seq<char>>),
            SynthErrV,
        >((defs, taken2)),
    ensures
        j <= req.selections.len() ==> defs.len() == spec_total_count(registry, req, j),
        taken2 == taken + defs_names(defs),
        forall|k: int| 0 <= k < defs.len() ==> !taken.contains(#[trigger] defs[k].name),
        forall|k1: int, k2: int|
            0 <= k1 < k2 < defs.len() ==> defs[k1].name != defs[k2].name,
        forall|k: int| 0 <= k < defs.len() ==> spec_attributed(req, j, #[trigger] defs[k]),
    decreases req.selections.len() - j,
{
    if j >= req.selections.len() {
        assert(defs =~= Seq::<MethodDefV>::empty());
        assert(defs_names(defs) =~= Seq::<Seq<char>>::empty());
        assert(taken2 =~= taken + defs_names(defs));
    } else {
        let sel = req.selections[j];
        let block = spec_find_block(registry, sel.name, 0)->Some_0;
        let first = spec_defs_of_selection(block, sel, req, lattice, 0, taken);
        let (defs1, taken_m) = first->Ok_0;
        lemma_selection_props(block, sel, req, lattice, 0, taken, defs1, taken_m);
        let rec = spec_defs_of_selections(registry, req, lattice, j + 1, taken_m);
        let (rest, taken_r) = rec->Ok_0;
        lemma_selections_props(registry, req, lattice, j + 1, taken_m, rest, taken_r);
        assert(defs =~= defs1 + rest);
        assert(defs_names(defs) =~= defs_names(defs1) + defs_names(rest));
        assert(taken2 =~= taken + defs_names(defs));
        assert forall|k: int| 0 <= k < defs.len() implies !taken.contains(
            #[trigger] defs[k].name,
        ) by {
            if k < defs1.len() {
                assert(defs[k] == defs1[k]);
            } else {
                assert(defs[k] == rest[k - defs1.len()]);
                assert(!taken_m.contains(rest[k - defs1.len()].name));
                if taken.contains(defs[k].name) {
                    let w = choose|w: int| 0 <= w < taken.len() && taken[w] == defs[k].name;
                    assert(taken_m[w] == defs[k].name);
                }
            }
        }
        assert forall|k1: int, k2: int| 0 <= k1 < k2 < defs.len() implies defs[k1].name
            != defs[k2].name by {
            let n1 = defs1.len() as int;
            if k2 < n1 {
                assert(defs[k1] == defs1[k1] && defs[k2] == defs1[k2]);
            } else if k1 >= n1 {
                assert(defs[k1] == rest[k1 - n1] && defs[k2] == rest[k2 - n1]);
            } else {
                assert(defs[k1] == defs1[k1] && defs[k2] == rest[k2 - n1]);
                assert(!taken_m.contains(rest[k2 - n1].name));
                assert(taken_m =~= taken + defs_names(defs1));
                if rest[k2 - n1].name == defs1[k1].name {
                    assert(defs_names(defs1)[k1] == defs1[k1].name);
                    assert(taken_m[taken.len() + k1] == defs1[k1].name);
                }
            }
        }
        assert forall|k: int| 0 <= k < defs.len() implies spec_attributed(
            req,
            j,
            #[trigger] defs[k],
        ) by {
            let n1 = defs1.len() as int;
            if k < n1 {
                assert(defs[k] == defs1[k]);
                assert(defs1[k].capability == sel.name && !sel.exclude.contains(
                    spec_call_name(defs1[k]),
                ));
                assert(req.selections[j].name == defs[k].capability && !req.selections[
                    j
                ].exclude.contains(spec_call_name(defs[k])));
            } else {
                assert(defs[k] == rest[k - n1]);
                assert(spec_attributed(req, j + 1, rest[k - n1]));
                let j2 = choose|j2: int|
                    j + 1 <= j2 < req.selections.len() && rest[k - n1].capability == (
                    #[trigger] req.selections[j2]).name && !req.selections[j2].exclude.contains(
                        spec_call_name(rest[k - n1]),
                    );
                assert(j <= j2 < req.selections.len() && defs[k].capability == req.selections[
                    j2
                ].name && !req.selections[j2].exclude.contains(spec_call_name(defs[k])));
            }
        }
    }
}

/// Emission count and uniqueness: a successful generation emits, for each
/// selected capability, every method of its record except its
/// self-accessor and the excluded names — the total is the sum of those
/// counts — and no two emitted methods share a name.
pub proof fn lemma_emission_count(
    registry: Seq<ImplBlockV>,
    lattice: CapabilityLatticeV,
    req: GenRequestV,
    defs: Seq<MethodDefV>,
)
    requires
        spec_synthesize(registry, lattice, req) == Ok::<Seq<MethodDefV>, SynthErrV>(defs),
    ensures
        defs.len() == spec_total_count(registry, req, 0),
        forall|k1: int, k2: int|
            0 <= k1 < k2 < defs.len() ==> defs[k1].name != defs[k2].name,
{
    let r = spec_defs_of_selections(registry, req, lattice, 0, Seq::empty());
    let (d, t) = r->Ok_0;
    lemma_selections_props(registry, req, lattice, 0, Seq::empty(), d, t);
}

/// Exclusion correctness: when the selected capabilities are distinct,
/// excluding a method name from a capability guarantees that no emitted
/// method attributable to that capability forwards it.
pub proof fn lemma_exclusion_correct(
    registry: Seq<ImplBlockV>,
    lattice: CapabilityLatticeV,
    req: GenRequestV,
    defs: Seq<MethodDefV>,
    j: int,
    k: int,
)
    requires
        spec_synthesize(registry, lattice, req) == Ok::<Seq<MethodDefV>, SynthErrV>(defs),
        forall|a: int, b: int|
            0 <= a < b < req.selections.len() ==> (#[trigger] req.selections[a]).name != (
            #[trigger] req.selections[b]).name,
        0 <= j < req.selections.len(),
        0 <= k < defs.len(),
        defs[k].capability == req.selections[j].name,
    ensures
        !req.selections[j].exclude.contains(spec_call_name(defs[k])),
{
    let r = spec_defs_of_selections(registry, req, lattice, 0, Seq::empty());
    let (d, t) = r->Ok_0;
    lemma_selections_props(registry, req, lattice, 0, Seq::empty(), d, t);
    assert(spec_attributed(req, 0, defs[k]));
    let j2 = choose|j2: int|
        0 <= j2 < req.selections.len() && defs[k].capability == (
        #[trigger] req.selections[j2]).name && !req.selections[j2].exclude.contains(
            spec_call_name(defs[k]),
        );
    if j2 != j {
        assert(req.selections[j].name == req.selections[j2].name);
        assert(false);
    }
}

} // verus!
