//! Capability-set records and their extraction.
//!
//! An `ImplBlock` is the registry record for one capability set: its fully
//! qualified name, the name of its self-accessor method, the name of its
//! self-generic placeholder, and its methods in declaration order.
//!
//! Extraction starts from `RawBlock` values: a plain, already-tokenized
//! image of a marked declaration block (path segments, marker attributes
//! with their raw argument text, methods with their parameters).  The
//! front end that walks real source produces these; everything the
//! extractor decides about them is specified here exactly.

use vstd::prelude::*;

use crate::attr_list::{
    spec_parse_args, ArgV, AttributeArg, AttributeArgsList, AttributeValue, GrammarError, ValueV,
};
use crate::method::{
    method_line_safe, method_validated, method_wf, opt_str_view, valid_ident_str, valid_type_str,
    Argument, ArgumentV, Method, MethodV,
};
use crate::lattice::{is_allowed_capability, spec_allowed_capability};
use crate::reparse::{check_ident, check_type, parses_as_ident, parses_as_type};
use crate::text::{
    contains_str, first_line, is_line_safe, spec_first_line, spec_line_safe, spec_trim, str_eq_str,
    trim,
};

verus! {

broadcast use vstd::seq::group_seq_axioms, vstd::std_specs::vec::group_vec_axioms;

// ===========================================================================
// Registry record
// ===========================================================================
/// One capability set, as recorded in the registry.
#[derive(Debug, Clone)]
pub struct ImplBlock {
    pub name: Vec<String>,
    pub self_function: String,
    pub self_generic: String,
    pub methods: Vec<Method>,
}

/// Mathematical image of an `ImplBlock`.
pub struct ImplBlockV {
    pub name: Seq<Seq<char>>,
    pub self_function: Seq<char>,
    pub self_generic: Seq<char>,
    pub methods: Seq<MethodV>,
}

impl View for ImplBlock {
    type V = ImplBlockV;

    open spec fn view(&self) -> ImplBlockV {
        ImplBlockV {
            name: self.name.deep_view(),
            self_function: self.self_function@,
            self_generic: self.self_generic@,
            methods: self.methods.deep_view(),
        }
    }
}

impl DeepView for ImplBlock {
    type V = ImplBlockV;

    open spec fn deep_view(&self) -> ImplBlockV {
        self@
    }
}

/// A path segment that may be re-spliced into generated code.
pub open spec fn valid_segment(s: Seq<char>) -> bool {
    spec_line_safe(s) && (s == "crate"@ || parses_as_ident(s))
}

/// Every string of the record fits on one registry line.
pub open spec fn block_line_safe(b: ImplBlockV) -> bool {
    &&& forall|i: int| 0 <= i < b.name.len() ==> spec_line_safe(#[trigger] b.name[i])
    &&& spec_line_safe(b.self_function)
    &&& spec_line_safe(b.self_generic)
    &&& forall|i: int| 0 <= i < b.methods.len() ==> method_line_safe(#[trigger] b.methods[i])
}

/// Every recorded name of the record still re-parses.
pub open spec fn block_validated(b: ImplBlockV) -> bool {
    &&& b.name.len() > 0
    &&& forall|i: int| 0 <= i < b.name.len() ==> valid_segment(#[trigger] b.name[i])
    &&& parses_as_ident(b.self_function)
    &&& forall|i: int| 0 <= i < b.methods.len() ==> method_validated(#[trigger] b.methods[i])
}

pub open spec fn block_wf(b: ImplBlockV) -> bool {
    block_line_safe(b) && block_validated(b)
}

// ===========================================================================
// nice_name: the qualified path, joined
// ===========================================================================
/// `name` joined with `::`, from segment `i` on.
pub open spec fn spec_join_path_from(name: Seq<Seq<char>>, i: int) -> Seq<char>
    decreases name.len() - i,
    when 0 <= i
{
    if i >= name.len() {
        Seq::empty()
    } else if i == 0 {
        name[0] + spec_join_path_from(name, 1)
    } else {
        "::"@ + name[i] + spec_join_path_from(name, i + 1)
    }
}

/// The fully qualified path of the capability set, segments joined by `::`.
pub open spec fn spec_nice_name(b: ImplBlockV) -> Seq<char> {
    spec_join_path_from(b.name, 0)
}

impl ImplBlock {
    /// The fully qualified path of the capability set, e.g. `crate::x::Y`.
    pub fn nice_name(&self) -> (r: String)
        ensures
            r@ == spec_nice_name(self@),
    {
        let mut acc = String::new();
        let n = self.name.len();
        let mut i: usize = 0;
        assert(acc@ + spec_join_path_from(self@.name, 0) =~= spec_join_path_from(self@.name, 0));
        while i < n
            invariant
                0 <= i <= n,
                n == self.name@.len(),
                self@.name.len() == n,
                forall|j: int| 0 <= j < n ==> self@.name[j] == self.name@[j]@,
                acc@ + spec_join_path_from(self@.name, i as int) == spec_join_path_from(
                    self@.name,
                    0,
                ),
            decreases n - i,
        {
            let ghost pre = acc@;
            if i > 0 {
                acc.append("::");
            }
            acc.append(self.name[i].as_str());
            proof {
                if i > 0 {
                    assert(acc@ =~= pre + ("::"@ + self@.name[i as int]));
                    assert(acc@ + spec_join_path_from(self@.name, i + 1) =~= pre + ("::"@
                        + self@.name[i as int] + spec_join_path_from(self@.name, i + 1)));
                } else {
                    assert(acc@ =~= pre + self@.name[0]);
                    assert(acc@ + spec_join_path_from(self@.name, 1) =~= pre + (self@.name[0]
                        + spec_join_path_from(self@.name, 1)));
                }
            }
            i += 1;
        }
        acc
    }
}

// ===========================================================================
// Raw declaration blocks: the extractor's input
// ===========================================================================
/// One attribute as it stands on a raw block or method: its path segments
/// and the raw text between its parentheses (empty when it has none).
#[derive(Debug, Clone)]
pub struct RawAttr {
    pub path: Vec<String>,
    pub args: String,
}

pub struct RawAttrV {
    pub path: Seq<Seq<char>>,
    pub args: Seq<char>,
}

impl View for RawAttr {
    type V = RawAttrV;

    open spec fn view(&self) -> RawAttrV {
        RawAttrV { path: self.path.deep_view(), args: self.args@ }
    }
}

impl DeepView for RawAttr {
    type V = RawAttrV;

    open spec fn deep_view(&self) -> RawAttrV {
        self@
    }
}

/// One declared parameter: whether its pattern is a simple name binding,
/// its mutability, its name and its type text.
#[derive(Debug, Clone)]
pub struct RawArg {
    pub ident_pattern: bool,
    pub mutable: bool,
    pub name: String,
    pub ty: String,
}

pub struct RawArgV {
    pub ident_pattern: bool,
    pub mutable: bool,
    pub name: Seq<char>,
    pub ty: Seq<char>,
}

impl View for RawArg {
    type V = RawArgV;

    open spec fn view(&self) -> RawArgV {
        RawArgV {
            ident_pattern: self.ident_pattern,
            mutable: self.mutable,
            name: self.name@,
            ty: self.ty@,
        }
    }
}

impl DeepView for RawArg {
    type V = RawArgV;

    open spec fn deep_view(&self) -> RawArgV {
        self@
    }
}

/// One method of a raw block: name, whether its first parameter is a
/// receiver, its non-receiver parameters, return type text, doc texts in
/// order, and its attributes.
#[derive(Debug, Clone)]
pub struct RawMethod {
    pub name: String,
    pub has_receiver: bool,
    pub args: Vec<RawArg>,
    pub return_type: Option<String>,
    pub docs: Vec<String>,
    pub attrs: Vec<RawAttr>,
}

pub struct RawMethodV {
    pub name: Seq<char>,
    pub has_receiver: bool,
    pub args: Seq<RawArgV>,
    pub return_type: Option<Seq<char>>,
    pub docs: Seq<Seq<char>>,
    pub attrs: Seq<RawAttrV>,
}

impl View for RawMethod {
    type V = RawMethodV;

    open spec fn view(&self) -> RawMethodV {
        RawMethodV {
            name: self.name@,
            has_receiver: self.has_receiver,
            args: self.args.deep_view(),
            return_type: opt_str_view(self.return_type),
            docs: self.docs.deep_view(),
            attrs: self.attrs.deep_view(),
        }
    }
}

impl DeepView for RawMethod {
    type V = RawMethodV;

    open spec fn deep_view(&self) -> RawMethodV {
        self@
    }
}

/// One declaration block: the path of the implemented type, the block's
/// own attributes, and its methods in declaration order.
#[derive(Debug, Clone)]
pub struct RawBlock {
    pub path: Vec<String>,
    pub attrs: Vec<RawAttr>,
    pub methods: Vec<RawMethod>,
}

pub struct RawBlockV {
    pub path: Seq<Seq<char>>,
    pub attrs: Seq<RawAttrV>,
    pub methods: Seq<RawMethodV>,
}

impl View for RawBlock {
    type V = RawBlockV;

    open spec fn view(&self) -> RawBlockV {
        RawBlockV {
            path: self.path.deep_view(),
            attrs: self.attrs.deep_view(),
            methods: self.methods.deep_view(),
        }
    }
}

impl DeepView for RawBlock {
    type V = RawBlockV;

    open spec fn deep_view(&self) -> RawBlockV {
        self@
    }
}

// ===========================================================================
// Marker attributes
// ===========================================================================
/// Whether some segment of the attribute's path equals `q`.
pub open spec fn attr_named(a: RawAttrV, q: Seq<char>) -> bool {
    exists|i: int| 0 <= i < a.path.len() && a.path[i] == q
}

/// Whether some attribute of the list is named `q`.
pub open spec fn has_attr(attrs: Seq<RawAttrV>, q: Seq<char>) -> bool {
    exists|i: int| 0 <= i < attrs.len() && attr_named(#[trigger] attrs[i], q)
}

/// Index of the first attribute named `q`, or the length when none is.
pub open spec fn first_attr_named(attrs: Seq<RawAttrV>, q: Seq<char>, i: int) -> int
    decreases attrs.len() - i,
    when 0 <= i
{
    if i >= attrs.len() {
        attrs.len() as int
    } else if attr_named(attrs[i], q) {
        i
    } else {
        first_attr_named(attrs, q, i + 1)
    }
}

fn exec_attr_named(a: &RawAttr, q: &str) -> (r: bool)
    ensures
        r == attr_named(a@, q@),
{
    contains_str(&a.path, q)
}

fn exec_has_attr(attrs: &Vec<RawAttr>, q: &str) -> (r: bool)
    ensures
        r == has_attr(attrs.deep_view(), q@),
{
    let n = attrs.len();
    let mut i: usize = 0;
    while i < n
        invariant
            0 <= i <= n,
            n == attrs@.len(),
            attrs.deep_view().len() == n,
            forall|j: int| 0 <= j < n ==> attrs.deep_view()[j] == attrs@[j]@,
            forall|j: int| 0 <= j < i ==> !attr_named(attrs.deep_view()[j], q@),
        decreases n - i,
    {
        if exec_attr_named(&attrs[i], q) {
            assert(attr_named(attrs.deep_view()[i as int], q@));
            return true;
        }
        i += 1;
    }
    false
}

fn exec_first_attr_named(attrs: &Vec<RawAttr>, q: &str) -> (r: usize)
    ensures
        r as int == first_attr_named(attrs.deep_view(), q@, 0),
        r <= attrs@.len(),
    decreases attrs@.len(),
{
    let n = attrs.len();
    let mut i: usize = 0;
    while i < n
        invariant
            0 <= i <= n,
            n == attrs@.len(),
            attrs.deep_view().len() == n,
            forall|j: int| 0 <= j < n ==> attrs.deep_view()[j] == attrs@[j]@,
            first_attr_named(attrs.deep_view(), q@, 0) == first_attr_named(
                attrs.deep_view(),
                q@,
                i as int,
            ),
        decreases n - i,
    {
        if exec_attr_named(&attrs[i], q) {
            return i;
        }
        i += 1;
    }
    n
}

/// Whether the method carries an attribute named `q`.
pub open spec fn method_marked(m: RawMethodV, q: Seq<char>) -> bool {
    has_attr(m.attrs, q)
}

/// How many methods carry an attribute named `q`, from index `i` on.
pub open spec fn count_marked_from(ms: Seq<RawMethodV>, q: Seq<char>, i: int) -> int
    decreases ms.len() - i,
    when 0 <= i
{
    if i >= ms.len() {
        0
    } else {
        (if method_marked(ms[i], q) {
            1int
        } else {
            0int
        }) + count_marked_from(ms, q, i + 1)
    }
}

/// Index of the first method carrying an attribute named `q`, or the
/// length when none does.
pub open spec fn first_marked_from(ms: Seq<RawMethodV>, q: Seq<char>, i: int) -> int
    decreases ms.len() - i,
    when 0 <= i
{
    if i >= ms.len() {
        ms.len() as int
    } else if method_marked(ms[i], q) {
        i
    } else {
        first_marked_from(ms, q, i + 1)
    }
}

impl ImplBlock {
    /// Indices of the methods that carry an attribute named `attr_query`,
    /// in order.
    ///
    /// Mirrors the linear marker scan of the extractor; the result lists
    /// every index whose method is marked and no other, in ascending order.
    pub fn find_method_with_attribute_containing(block: &RawBlock, attr_query: &str) -> (r: Vec<
        usize,
    >)
        ensures
            forall|k: int|
                0 <= k < r@.len() ==> r@[k] < block@.methods.len() && method_marked(
                    block@.methods[r@[k] as int],
                    attr_query@,
                ),
            forall|j: int|
                0 <= j < block@.methods.len() && method_marked(block@.methods[j], attr_query@)
                    ==> r@.contains(j as usize),
            forall|k1: int, k2: int| 0 <= k1 < k2 < r@.len() ==> r@[k1] < r@[k2],
    {
        let n = block.methods.len();
        let mut out: Vec<usize> = Vec::new();
        let mut i: usize = 0;
        while i < n
            invariant
                0 <= i <= n,
                n == block.methods@.len(),
                block@.methods.len() == n,
                forall|j: int| 0 <= j < n ==> block@.methods[j] == block.methods@[j]@,
                forall|k: int|
                    0 <= k < out@.len() ==> out@[k] < i && method_marked(
                        block@.methods[out@[k] as int],
                        attr_query@,
                    ),
                forall|j: int|
                    0 <= j < i && method_marked(block@.methods[j], attr_query@) ==> out@.contains(
                        j as usize,
                    ),
                forall|k1: int, k2: int| 0 <= k1 < k2 < out@.len() ==> out@[k1] < out@[k2],
            decreases n - i,
        {
            if exec_has_attr(&block.methods[i].attrs, attr_query) {
                let ghost prev = out@;
                out.push(i);
                proof {
                    assert(out@[prev.len() as int] == i);
                    assert(out@.contains(i));
                    assert forall|j: usize| prev.contains(j) implies out@.contains(j) by {
                        let k = choose|k: int| 0 <= k < prev.len() && prev[k] == j;
                        assert(out@[k] == j);
                    }
                }
            }
            i += 1;
        }
        out
    }
}

// ===========================================================================
// Extraction errors
// ===========================================================================
/// A structural violation found while extracting a capability set.
#[derive(Debug, Clone)]
pub enum ImplBlockParseError {
    /// The block's declared type is not a plain path.
    PathDestructure,
    /// The path is not fully qualified or holds a relative segment.
    NotFullyQualified,
    /// Not exactly one method carries the self-accessor marker.
    NotExactlyOneSelfFunctionMarker,
    /// The self-accessor marker sits on a method without a receiver.
    MalformedSelfFunctionMarker,
    /// Not exactly one `self_generic = ...` binding was given.
    MissingSelfGeneric,
    /// A marker attribute's argument text failed to parse.
    AttributeParseError(GrammarError),
    /// A parameter pattern is not a simple name binding.
    PatDestructure,
    /// A recorded name does not parse as an identifier.
    InvalidIdentifier(String),
    /// A recorded type text does not parse as a type.
    InvalidType(String),
    /// A strips marker names a capability outside the allowed set.
    UnknownStripCapability(String),
    /// No marked declaration block was found at all.
    NoMarkedBlocks,
}

/// Mathematical image of an `ImplBlockParseError`.
pub enum ErrKind {
    PathDestructure,
    NotFullyQualified,
    NotExactlyOneSelfFunctionMarker,
    MalformedSelfFunctionMarker,
    MissingSelfGeneric,
    AttributeParse(int),
    PatDestructure,
    InvalidIdentifier(Seq<char>),
    InvalidType(Seq<char>),
    UnknownStripCapability(Seq<char>),
    NoMarkedBlocks,
}

impl View for ImplBlockParseError {
    type V = ErrKind;

    open spec fn view(&self) -> ErrKind {
        match self {
            ImplBlockParseError::PathDestructure => ErrKind::PathDestructure,
            ImplBlockParseError::NotFullyQualified => ErrKind::NotFullyQualified,
            ImplBlockParseError::NotExactlyOneSelfFunctionMarker => ErrKind::NotExactlyOneSelfFunctionMarker,
            ImplBlockParseError::MalformedSelfFunctionMarker => ErrKind::MalformedSelfFunctionMarker,
            ImplBlockParseError::MissingSelfGeneric => ErrKind::MissingSelfGeneric,
            ImplBlockParseError::AttributeParseError(e) => ErrKind::AttributeParse(e.pos as int),
            ImplBlockParseError::PatDestructure => ErrKind::PatDestructure,
            ImplBlockParseError::InvalidIdentifier(s) => ErrKind::InvalidIdentifier(s@),
            ImplBlockParseError::InvalidType(s) => ErrKind::InvalidType(s@),
            ImplBlockParseError::UnknownStripCapability(s) => ErrKind::UnknownStripCapability(s@),
            ImplBlockParseError::NoMarkedBlocks => ErrKind::NoMarkedBlocks,
        }
    }
}

// ===========================================================================
// Extraction: specification
// ===========================================================================
/// Values of `self_generic = <name>` bindings among the parsed arguments,
/// from item `i` on.
pub open spec fn sg_values_from(items: Seq<ArgV>, i: int) -> Seq<Seq<char>>
    decreases items.len() - i,
    when 0 <= i
{
    if i >= items.len() {
        Seq::empty()
    } else {
        let rest = sg_values_from(items, i + 1);
        match items[i] {
            ArgV::KeyValue(k, ValueV::Ident(v)) => if k == "self_generic"@ {
                seq![v] + rest
            } else {
                rest
            },
            _ => rest,
        }
    }
}

/// All `self_generic` bindings found on marker attributes, from attribute
/// `i` on; a parse failure of a marker attribute's argument text is
/// reported with its character offset.
pub open spec fn sg_collect_from(attrs: Seq<RawAttrV>, i: int) -> Result<Seq<Seq<char>>, int>
    decreases attrs.len() - i,
    when 0 <= i
{
    if i >= attrs.len() {
        Ok(Seq::empty())
    } else if !attr_named(attrs[i], "register_methods"@) {
        sg_collect_from(attrs, i + 1)
    } else {
        match spec_parse_args(attrs[i].args) {
            Err(p) => Err(p),
            Ok(items) => match sg_collect_from(attrs, i + 1) {
                Err(p) => Err(p),
                Ok(rest) => Ok(sg_values_from(items, 0) + rest),
            },
        }
    }
}

/// The self-generic placeholder of the block: the one `self_generic`
/// binding on its marker attribute.
pub open spec fn spec_parse_self_generic(b: RawBlockV) -> Result<Seq<char>, ErrKind> {
    match sg_collect_from(b.attrs, 0) {
        Err(p) => Err(ErrKind::AttributeParse(p)),
        Ok(vs) => if vs.len() != 1 {
            Err(ErrKind::MissingSelfGeneric)
        } else if !spec_line_safe(vs[0]) {
            Err(ErrKind::InvalidIdentifier(vs[0]))
        } else {
            Ok(vs[0])
        },
    }
}

/// The self-accessor of the block: the name of the one marked method,
/// which must take a receiver.
pub open spec fn spec_parse_self_function(b: RawBlockV) -> Result<Seq<char>, ErrKind> {
    if count_marked_from(b.methods, "method_self_arg"@, 0) != 1 {
        Err(ErrKind::NotExactlyOneSelfFunctionMarker)
    } else {
        let k = first_marked_from(b.methods, "method_self_arg"@, 0);
        if b.methods[k].has_receiver {
            Ok(b.methods[k].name)
        } else {
            Err(ErrKind::MalformedSelfFunctionMarker)
        }
    }
}

/// Path segments from `i` on: no relative segment, every segment a
/// splice-safe identifier.
pub open spec fn spec_path_check_from(p: Seq<Seq<char>>, i: int) -> Result<(), ErrKind>
    decreases p.len() - i,
    when 0 <= i
{
    if i >= p.len() {
        Ok(())
    } else if p[i] == "self"@ || p[i] == "super"@ {
        Err(ErrKind::NotFullyQualified)
    } else if !valid_segment(p[i]) {
        Err(ErrKind::InvalidIdentifier(p[i]))
    } else {
        spec_path_check_from(p, i + 1)
    }
}

/// The whole path: present, rooted at `crate`, and segment-wise valid.
pub open spec fn spec_path_check(p: Seq<Seq<char>>) -> Result<(), ErrKind> {
    if p.len() == 0 {
        Err(ErrKind::PathDestructure)
    } else if p[0] != "crate"@ {
        Err(ErrKind::NotFullyQualified)
    } else {
        spec_path_check_from(p, 1)
    }
}

/// Recorded arguments from `i` on: simple name bindings with re-parsing
/// names and types.
pub open spec fn spec_args_from(args: Seq<RawArgV>, i: int) -> Result<Seq<ArgumentV>, ErrKind>
    decreases args.len() - i,
    when 0 <= i
{
    if i >= args.len() {
        Ok(Seq::empty())
    } else {
        let a = args[i];
        if !a.ident_pattern {
            Err(ErrKind::PatDestructure)
        } else if !valid_ident_str(a.name) {
            Err(ErrKind::InvalidIdentifier(a.name))
        } else if !valid_type_str(a.ty) {
            Err(ErrKind::InvalidType(a.ty))
        } else {
            match spec_args_from(args, i + 1) {
                Err(e) => Err(e),
                Ok(rest) => Ok(
                    seq![
                        ArgumentV { mutable: a.mutable, name: a.name, expected_type: a.ty },
                    ] + rest,
                ),
            }
        }
    }
}

/// Bare capability names among the parsed strips arguments, from `i` on;
/// every named capability must belong to the allowed set.
pub open spec fn strips_collect_from(items: Seq<ArgV>, i: int) -> Result<Seq<Seq<char>>, ErrKind>
    decreases items.len() - i,
    when 0 <= i
{
    if i >= items.len() {
        Ok(Seq::empty())
    } else {
        match items[i] {
            ArgV::Bare(v) => if !spec_allowed_capability(v) {
                Err(ErrKind::UnknownStripCapability(v))
            } else {
                match strips_collect_from(items, i + 1) {
                    Err(e) => Err(e),
                    Ok(rest) => Ok(seq![v] + rest),
                }
            },
            _ => strips_collect_from(items, i + 1),
        }
    }
}

/// The strips list of a method: the validated bare names of the first
/// strips-marker attribute's argument list, or empty without the marker.
pub open spec fn spec_strips(m: RawMethodV) -> Result<Seq<Seq<char>>, ErrKind> {
    let k = first_attr_named(m.attrs, "strips_traits"@, 0);
    if k >= m.attrs.len() {
        Ok(Seq::empty())
    } else {
        match spec_parse_args(m.attrs[k].args) {
            Err(p) => Err(ErrKind::AttributeParse(p)),
            Ok(items) => strips_collect_from(items, 0),
        }
    }
}

/// The recorded docstring: the first line of the first doc text, trimmed.
pub open spec fn spec_doc(docs: Seq<Seq<char>>) -> Option<Seq<char>> {
    if docs.len() == 0 {
        None
    } else {
        Some(spec_trim(spec_first_line(docs[0])))
    }
}

/// One method record extracted from a raw method.
pub open spec fn spec_method_from(m: RawMethodV) -> Result<MethodV, ErrKind> {
    match spec_args_from(m.args, 0) {
        Err(e) => Err(e),
        Ok(args) => if !valid_ident_str(m.name) {
            Err(ErrKind::InvalidIdentifier(m.name))
        } else {
            let rt_ok = match m.return_type {
                Some(t) => valid_type_str(t),
                None => true,
            };
            if !rt_ok {
                Err(ErrKind::InvalidType(m.return_type->Some_0))
            } else {
                match spec_strips(m) {
                    Err(e) => Err(e),
                    Ok(strips) => Ok(
                        MethodV {
                            comments: spec_doc(m.docs),
                            name: m.name,
                            args: args,
                            return_type: m.return_type,
                            literal_return: method_marked(m, "return_literal"@),
                            strips: strips,
                        },
                    ),
                }
            }
        },
    }
}

/// All method records of a block, in declaration order, from `i` on.
pub open spec fn spec_methods_from(ms: Seq<RawMethodV>, i: int) -> Result<Seq<MethodV>, ErrKind>
    decreases ms.len() - i,
    when 0 <= i
{
    if i >= ms.len() {
        Ok(Seq::empty())
    } else {
        match spec_method_from(ms[i]) {
            Err(e) => Err(e),
            Ok(m) => match spec_methods_from(ms, i + 1) {
                Err(e) => Err(e),
                Ok(rest) => Ok(seq![m] + rest),
            },
        }
    }
}

/// One capability-set record extracted from a raw block.
pub open spec fn spec_block_from(b: RawBlockV) -> Result<ImplBlockV, ErrKind> {
    match spec_path_check(b.path) {
        Err(e) => Err(e),
        Ok(_) => match spec_parse_self_generic(b) {
            Err(e) => Err(e),
            Ok(sg) => match spec_parse_self_function(b) {
                Err(e) => Err(e),
                Ok(sf) => match spec_methods_from(b.methods, 0) {
                    Err(e) => Err(e),
                    Ok(methods) => Ok(
                        ImplBlockV {
                            name: b.path,
                            self_function: sf,
                            self_generic: sg,
                            methods: methods,
                        },
                    ),
                },
            },
        },
    }
}

/// Records of every marked block, in order, from block `i` on.
pub open spec fn spec_extract_from(bs: Seq<RawBlockV>, i: int) -> Result<Seq<ImplBlockV>, ErrKind>
    decreases bs.len() - i,
    when 0 <= i
{
    if i >= bs.len() {
        Ok(Seq::empty())
    } else if !has_attr(bs[i].attrs, "register_methods"@) {
        spec_extract_from(bs, i + 1)
    } else {
        match spec_block_from(bs[i]) {
            Err(e) => Err(e),
            Ok(b) => match spec_extract_from(bs, i + 1) {
                Err(e) => Err(e),
                Ok(rest) => Ok(seq![b] + rest),
            },
        }
    }
}

/// The whole extraction run: every marked block's record, in order; at
/// least one marked block must exist.
pub open spec fn spec_extract(bs: Seq<RawBlockV>) -> Result<Seq<ImplBlockV>, ErrKind> {
    match spec_extract_from(bs, 0) {
        Err(e) => Err(e),
        Ok(records) => if records.len() == 0 {
            Err(ErrKind::NoMarkedBlocks)
        } else {
            Ok(records)
        },
    }
}

// ===========================================================================
// Extraction: executable
// ===========================================================================
fn sg_values_rec(items: &Vec<AttributeArg>, i: usize) -> (r: Vec<String>)
    requires
        i <= items@.len(),
    ensures
        r.deep_view() == sg_values_from(crate::attr_list::items_view(items@), i as int),
    decreases items@.len() - i,
{
    let ghost iv = crate::attr_list::items_view(items@);
    if i >= items.len() {
        let r: Vec<String> = Vec::new();
        assert(r.deep_view() =~= Seq::<Seq<char>>::empty());
        return r;
    }
    assert(iv[i as int] == crate::attr_list::arg_view(items@[i as int]));
    let mut rest = sg_values_rec(items, i + 1);
    match &items[i] {
        AttributeArg::KeyValueArg(kv) => {
            match &kv.value {
                AttributeValue::Ident(v) => {
                    if str_eq_str(kv.key.as_str(), "self_generic") {
                        let ghost pre_deep = rest.deep_view();
                        rest.insert(0, v.clone());
                        assert(rest.deep_view() =~= seq![v@] + pre_deep);
                    }
                },
                _ => {},
            }
        },
        _ => {},
    }
    rest
}

fn sg_collect_rec(attrs: &Vec<RawAttr>, i: usize) -> (r: Result<Vec<String>, GrammarError>)
    requires
        i <= attrs@.len(),
    ensures
        match r {
            Ok(vs) => sg_collect_from(attrs.deep_view(), i as int) == Ok::<Seq<Seq<char>>, int>(
                vs.deep_view(),
            ),
            Err(e) => sg_collect_from(attrs.deep_view(), i as int) == Err::<Seq<Seq<char>>, int>(
                e.pos as int,
            ),
        },
    decreases attrs@.len() - i,
{
    if i >= attrs.len() {
        let r: Vec<String> = Vec::new();
        assert(r.deep_view() =~= Seq::<Seq<char>>::empty());
        return Ok(r);
    }
    assert(attrs.deep_view()[i as int] == attrs@[i as int]@);
    if !exec_attr_named(&attrs[i], "register_methods") {
        return sg_collect_rec(attrs, i + 1);
    }
    let parsed = match AttributeArgsList::parse(attrs[i].args.as_str()) {
        Ok(l) => l,
        Err(e) => {
            return Err(e);
        },
    };
    let here = sg_values_rec(&parsed.0, 0);
    let rest = match sg_collect_rec(attrs, i + 1) {
        Ok(v) => v,
        Err(e) => {
            return Err(e);
        },
    };
    let mut out = here;
    let ghost hv = out.deep_view();
    let ghost rv = rest.deep_view();
    let mut rest_m = rest;
    let n = rest_m.len();
    let mut k: usize = 0;
    while k < n
        invariant
            0 <= k <= n,
            n == rv.len(),
            rest_m@.len() == n,
            forall|j: int| 0 <= j < n ==> rest_m@[j]@ == rv[j],
            out.deep_view() =~= hv + rv.subrange(0, k as int),
        decreases n - k,
    {
        let ghost pre = out.deep_view();
        out.push(rest_m[k].clone());
        proof {
            assert(out.deep_view() =~= pre.push(rv[k as int]));
            assert(pre.push(rv[k as int]) =~= hv + rv.subrange(0, k + 1));
        }
        k += 1;
    }
    assert(out.deep_view() =~= hv + rv);
    Ok(out)
}

impl ImplBlock {
    /// The self-generic placeholder bound by the block's marker attribute.
    pub fn parse_self_generic(block: &RawBlock) -> (r: Result<String, ImplBlockParseError>)
        ensures
            match r {
                Ok(s) => spec_parse_self_generic(block@) == Ok::<Seq<char>, ErrKind>(s@),
                Err(e) => spec_parse_self_generic(block@) == Err::<Seq<char>, ErrKind>(e@),
            },
    {
        match sg_collect_rec(&block.attrs, 0) {
            Err(e) => Err(ImplBlockParseError::AttributeParseError(e)),
            Ok(vs) => {
                if vs.len() != 1 {
                    Err(ImplBlockParseError::MissingSelfGeneric)
                } else {
                    assert(vs.deep_view()[0] == vs@[0]@);
                    if !is_line_safe(vs[0].as_str()) {
                        Err(ImplBlockParseError::InvalidIdentifier(vs[0].clone()))
                    } else {
                        Ok(vs[0].clone())
                    }
                }
            },
        }
    }

    /// The self-accessor: the one method carrying the accessor marker.
    pub fn parse_self_function(block: &RawBlock) -> (r: Result<String, ImplBlockParseError>)
        ensures
            match r {
                Ok(s) => spec_parse_self_function(block@) == Ok::<Seq<char>, ErrKind>(s@),
                Err(e) => spec_parse_self_function(block@) == Err::<Seq<char>, ErrKind>(e@),
            },
    {
        let ghost ms = block@.methods;
        let n = block.methods.len();
        let mut cnt: usize = 0;
        let mut first: usize = n;
        let mut i: usize = 0;
        while i < n
            invariant
                0 <= i <= n,
                n == block.methods@.len(),
                ms.len() == n,
                ms == block@.methods,
                block@.methods == block.methods.deep_view(),
                forall|j: int| 0 <= j < n ==> ms[j] == block.methods@[j]@,
                cnt <= i,
                cnt as int + count_marked_from(ms, "method_self_arg"@, i as int)
                    == count_marked_from(ms, "method_self_arg"@, 0),
                cnt > 0 ==> first < i && first as int == first_marked_from(
                    ms,
                    "method_self_arg"@,
                    0,
                ),
                cnt == 0 ==> first == n && first_marked_from(ms, "method_self_arg"@, 0)
                    == first_marked_from(ms, "method_self_arg"@, i as int),
            decreases n - i,
        {
            if exec_has_attr(&block.methods[i].attrs, "method_self_arg") {
                if cnt == 0 {
                    first = i;
                }
                cnt += 1;
            }
            i += 1;
        }
        if cnt != 1 {
            return Err(ImplBlockParseError::NotExactlyOneSelfFunctionMarker);
        }
        let m = &block.methods[first];
        if m.has_receiver {
            Ok(m.name.clone())
        } else {
            Err(ImplBlockParseError::MalformedSelfFunctionMarker)
        }
    }
}

fn valid_segment_exec(s: &str) -> (r: bool)
    ensures
        r == valid_segment(s@),
{
    is_line_safe(s) && (str_eq_str(s, "crate") || check_ident(s))
}

fn path_check_rec(path: &Vec<String>, i: usize) -> (r: Result<(), ImplBlockParseError>)
    requires
        i <= path@.len(),
    ensures
        match r {
            Ok(_) => spec_path_check_from(path.deep_view(), i as int) == Ok::<(), ErrKind>(()),
            Err(e) => spec_path_check_from(path.deep_view(), i as int) == Err::<(), ErrKind>(e@),
        },
    decreases path@.len() - i,
{
    if i >= path.len() {
        return Ok(());
    }
    assert(path.deep_view()[i as int] == path@[i as int]@);
    let s = path[i].as_str();
    if str_eq_str(s, "self") || str_eq_str(s, "super") {
        Err(ImplBlockParseError::NotFullyQualified)
    } else if !valid_segment_exec(s) {
        Err(ImplBlockParseError::InvalidIdentifier(path[i].clone()))
    } else {
        path_check_rec(path, i + 1)
    }
}

fn path_check(path: &Vec<String>) -> (r: Result<(), ImplBlockParseError>)
    ensures
        match r {
            Ok(_) => spec_path_check(path.deep_view()) == Ok::<(), ErrKind>(()),
            Err(e) => spec_path_check(path.deep_view()) == Err::<(), ErrKind>(e@),
        },
{
    if path.len() == 0 {
        return Err(ImplBlockParseError::PathDestructure);
    }
    assert(path.deep_view()[0] == path@[0]@);
    if !str_eq_str(path[0].as_str(), "crate") {
        return Err(ImplBlockParseError::NotFullyQualified);
    }
    path_check_rec(path, 1)
}

fn valid_ident_exec(s: &str) -> (r: bool)
    ensures
        r == valid_ident_str(s@),
{
    is_line_safe(s) && check_ident(s)
}

fn valid_type_exec(s: &str) -> (r: bool)
    ensures
        r == valid_type_str(s@),
{
    is_line_safe(s) && check_type(s)
}

fn args_rec(args: &Vec<RawArg>, i: usize) -> (r: Result<Vec<Argument>, ImplBlockParseError>)
    requires
        i <= args@.len(),
    ensures
        match r {
            Ok(v) => spec_args_from(args.deep_view(), i as int) == Ok::<Seq<ArgumentV>, ErrKind>(
                v.deep_view(),
            ),
            Err(e) => spec_args_from(args.deep_view(), i as int) == Err::<Seq<ArgumentV>, ErrKind>(
                e@,
            ),
        },
    decreases args@.len() - i,
{
    if i >= args.len() {
        let r: Vec<Argument> = Vec::new();
        assert(r.deep_view() =~= Seq::<ArgumentV>::empty());
        return Ok(r);
    }
    assert(args.deep_view()[i as int] == args@[i as int]@);
    let a = &args[i];
    if !a.ident_pattern {
        return Err(ImplBlockParseError::PatDestructure);
    }
    if !valid_ident_exec(a.name.as_str()) {
        return Err(ImplBlockParseError::InvalidIdentifier(a.name.clone()));
    }
    if !valid_type_exec(a.ty.as_str()) {
        return Err(ImplBlockParseError::InvalidType(a.ty.clone()));
    }
    let mut rest = match args_rec(args, i + 1) {
        Ok(v) => v,
        Err(e) => {
            return Err(e);
        },
    };
    let arg = Argument { mutable: a.mutable, name: a.name.clone(), expected_type: a.ty.clone() };
    let ghost pre_deep = rest.deep_view();
    let ghost argv = arg@;
    rest.insert(0, arg);
    assert(rest.deep_view() =~= seq![argv] + pre_deep);
    Ok(rest)
}

fn strips_collect_rec(items: &Vec<AttributeArg>, i: usize) -> (r: Result<
    Vec<String>,
    ImplBlockParseError,
>)
    requires
        i <= items@.len(),
    ensures
        match r {
            Ok(v) => strips_collect_from(crate::attr_list::items_view(items@), i as int) == Ok::<
                Seq<Seq<char>>,
                ErrKind,
            >(v.deep_view()),
            Err(e) => strips_collect_from(crate::attr_list::items_view(items@), i as int) == Err::<
                Seq<Seq<char>>,
                ErrKind,
            >(e@),
        },
    decreases items@.len() - i,
{
    if i >= items.len() {
        let r: Vec<String> = Vec::new();
        assert(r.deep_view() =~= Seq::<Seq<char>>::empty());
        return Ok(r);
    }
    assert(crate::attr_list::items_view(items@)[i as int] == crate::attr_list::arg_view(
        items@[i as int],
    ));
    match &items[i] {
        AttributeArg::Arg(b) => {
            if !is_allowed_capability(b.value.as_str()) {
                Err(ImplBlockParseError::UnknownStripCapability(b.value.clone()))
            } else {
                let mut rest = match strips_collect_rec(items, i + 1) {
                    Ok(v) => v,
                    Err(e) => {
                        return Err(e);
                    },
                };
                let ghost pre_deep = rest.deep_view();
                rest.insert(0, b.value.clone());
                assert(rest.deep_view() =~= seq![b.value@] + pre_deep);
                Ok(rest)
            }
        },
        _ => strips_collect_rec(items, i + 1),
    }
}

fn method_strips(m: &RawMethod) -> (r: Result<Vec<String>, ImplBlockParseError>)
    ensures
        match r {
            Ok(v) => spec_strips(m@) == Ok::<Seq<Seq<char>>, ErrKind>(v.deep_view()),
            Err(e) => spec_strips(m@) == Err::<Seq<Seq<char>>, ErrKind>(e@),
        },
{
    let k = exec_first_attr_named(&m.attrs, "strips_traits");
    if k >= m.attrs.len() {
        let r: Vec<String> = Vec::new();
        assert(r.deep_view() =~= Seq::<Seq<char>>::empty());
        return Ok(r);
    }
    assert(m@.attrs[k as int] == m.attrs@[k as int]@);
    match AttributeArgsList::parse(m.attrs[k].args.as_str()) {
        Err(e) => Err(ImplBlockParseError::AttributeParseError(e)),
        Ok(l) => strips_collect_rec(&l.0, 0),
    }
}

fn method_doc(docs: &Vec<String>) -> (r: Option<String>)
    ensures
        opt_str_view(r) == spec_doc(docs.deep_view()),
{
    if docs.len() == 0 {
        None
    } else {
        assert(docs.deep_view()[0] == docs@[0]@);
        Some(trim(first_line(docs[0].as_str()).as_str()))
    }
}

impl Method {
    /// One method record of a raw block's method.
    pub fn from(m: &RawMethod) -> (r: Result<Method, ImplBlockParseError>)
        ensures
            match r {
                Ok(mm) => spec_method_from(m@) == Ok::<MethodV, ErrKind>(mm@),
                Err(e) => spec_method_from(m@) == Err::<MethodV, ErrKind>(e@),
            },
    {
        let args = match args_rec(&m.args, 0) {
            Ok(v) => v,
            Err(e) => {
                return Err(e);
            },
        };
        if !valid_ident_exec(m.name.as_str()) {
            return Err(ImplBlockParseError::InvalidIdentifier(m.name.clone()));
        }
        let return_type: Option<String> = match &m.return_type {
            Some(t) => {
                if !valid_type_exec(t.as_str()) {
                    return Err(ImplBlockParseError::InvalidType(t.clone()));
                }
                Some(t.clone())
            },
            None => None,
        };
        let strips = match method_strips(m) {
            Ok(v) => v,
            Err(e) => {
                return Err(e);
            },
        };
        let literal_return = exec_has_attr(&m.attrs, "return_literal");
        let comments = method_doc(&m.docs);
        Ok(Method { comments, name: m.name.clone(), args, return_type, literal_return, strips })
    }

    /// Every method record of a raw block, in declaration order.
    pub fn vec_from(block: &RawBlock) -> (r: Result<Vec<Method>, ImplBlockParseError>)
        ensures
            match r {
                Ok(v) => spec_methods_from(block@.methods, 0) == Ok::<Seq<MethodV>, ErrKind>(
                    v.deep_view(),
                ),
                Err(e) => spec_methods_from(block@.methods, 0) == Err::<Seq<MethodV>, ErrKind>(e@),
            },
    {
        methods_rec(&block.methods, 0)
    }
}

fn methods_rec(ms: &Vec<RawMethod>, i: usize) -> (r: Result<Vec<Method>, ImplBlockParseError>)
    requires
        i <= ms@.len(),
    ensures
        match r {
            Ok(v) => spec_methods_from(ms.deep_view(), i as int) == Ok::<Seq<MethodV>, ErrKind>(
                v.deep_view(),
            ),
            Err(e) => spec_methods_from(ms.deep_view(), i as int) == Err::<Seq<MethodV>, ErrKind>(
                e@,
            ),
        },
    decreases ms@.len() - i,
{
    if i >= ms.len() {
        let r: Vec<Method> = Vec::new();
        assert(r.deep_view() =~= Seq::<MethodV>::empty());
        return Ok(r);
    }
    assert(ms.deep_view()[i as int] == ms@[i as int]@);
    let m = match Method::from(&ms[i]) {
        Ok(m) => m,
        Err(e) => {
            return Err(e);
        },
    };
    let mut rest = match methods_rec(ms, i + 1) {
        Ok(v) => v,
        Err(e) => {
            return Err(e);
        },
    };
    let ghost pre_deep = rest.deep_view();
    let ghost mv = m@;
    rest.insert(0, m);
    assert(rest.deep_view() =~= seq![mv] + pre_deep);
    Ok(rest)
}

impl ImplBlock {
    /// One capability-set record of a marked raw block.
    pub fn from(block: &RawBlock) -> (r: Result<ImplBlock, ImplBlockParseError>)
        ensures
            match r {
                Ok(b) => spec_block_from(block@) == Ok::<ImplBlockV, ErrKind>(b@),
                Err(e) => spec_block_from(block@) == Err::<ImplBlockV, ErrKind>(e@),
            },
    {
        match path_check(&block.path) {
            Ok(_) => {},
            Err(e) => {
                return Err(e);
            },
        }
        let self_generic = match ImplBlock::parse_self_generic(block) {
            Ok(s) => s,
            Err(e) => {
                return Err(e);
            },
        };
        let self_function = match ImplBlock::parse_self_function(block) {
            Ok(s) => s,
            Err(e) => {
                return Err(e);
            },
        };
        let methods = match Method::vec_from(block) {
            Ok(v) => v,
            Err(e) => {
                return Err(e);
            },
        };
        Ok(ImplBlock { name: block.path.clone(), self_function, self_generic, methods })
    }
}

fn extract_rec(bs: &Vec<RawBlock>, i: usize) -> (r: Result<Vec<ImplBlock>, ImplBlockParseError>)
    requires
        i <= bs@.len(),
    ensures
        match r {
            Ok(v) => spec_extract_from(bs.deep_view(), i as int) == Ok::<Seq<ImplBlockV>, ErrKind>(
                v.deep_view(),
            ),
            Err(e) => spec_extract_from(bs.deep_view(), i as int) == Err::<
                Seq<ImplBlockV>,
                ErrKind,
            >(e@),
        },
    decreases bs@.len() - i,
{
    if i >= bs.len() {
        let r: Vec<ImplBlock> = Vec::new();
        assert(r.deep_view() =~= Seq::<ImplBlockV>::empty());
        return Ok(r);
    }
    assert(bs.deep_view()[i as int] == bs@[i as int]@);
    if !exec_has_attr(&bs[i].attrs, "register_methods") {
        return extract_rec(bs, i + 1);
    }
    let b = match ImplBlock::from(&bs[i]) {
        Ok(b) => b,
        Err(e) => {
            return Err(e);
        },
    };
    let mut rest = match extract_rec(bs, i + 1) {
        Ok(v) => v,
        Err(e) => {
            return Err(e);
        },
    };
    let ghost pre_deep = rest.deep_view();
    let ghost bv = b@;
    rest.insert(0, b);
    assert(rest.deep_view() =~= seq![bv] + pre_deep);
    Ok(rest)
}

/// Run the extractor over every raw block: the registry records of every
/// marked block, in order.  Fails when any marked block is structurally
/// invalid, and when no marked block exists at all.
pub fn extract_all(bs: &Vec<RawBlock>) -> (r: Result<Vec<ImplBlock>, ImplBlockParseError>)
    ensures
        match r {
            Ok(v) => spec_extract(bs.deep_view()) == Ok::<Seq<ImplBlockV>, ErrKind>(v.deep_view())
                && v@.len() > 0,
            Err(e) => spec_extract(bs.deep_view()) == Err::<Seq<ImplBlockV>, ErrKind>(e@),
        },
{
    let records = match extract_rec(bs, 0) {
        Ok(v) => v,
        Err(e) => {
            return Err(e);
        },
    };
    if records.len() == 0 {
        Err(ImplBlockParseError::NoMarkedBlocks)
    } else {
        Ok(records)
    }
}

// ===========================================================================
// What a successful extraction guarantees
// ===========================================================================
proof fn lemma_path_check_from_wf(p: Seq<Seq<char>>, i: int)
    requires
        0 <= i <= p.len(),
        spec_path_check_from(p, i) == Ok::<(), ErrKind>(()),
    ensures
        forall|k: int| i <= k < p.len() ==> valid_segment(#[trigger] p[k]),
    decreases p.len() - i,
{
    if i < p.len() {
        lemma_path_check_from_wf(p, i + 1);
    }
}

proof fn lemma_args_from_wf(args: Seq<RawArgV>, i: int, out: Seq<ArgumentV>)
    requires
        0 <= i <= args.len(),
        spec_args_from(args, i) == Ok::<Seq<ArgumentV>, ErrKind>(out),
    ensures
        forall|k: int|
            0 <= k < out.len() ==> crate::method::argument_line_safe(#[trigger] out[k])
                && crate::method::argument_validated(out[k]),
    decreases args.len() - i,
{
    if i < args.len() {
        let rest = spec_args_from(args, i + 1);
        lemma_args_from_wf(args, i + 1, rest->Ok_0);
    }
}

proof fn lemma_strips_collect_wf(items: Seq<ArgV>, i: int, out: Seq<Seq<char>>)
    requires
        0 <= i <= items.len(),
        strips_collect_from(items, i) == Ok::<Seq<Seq<char>>, ErrKind>(out),
    ensures
        forall|k: int| 0 <= k < out.len() ==> spec_line_safe(#[trigger] out[k]),
    decreases items.len() - i,
{
    if i < items.len() {
        match items[i] {
            ArgV::Bare(v) => {
                let rest = strips_collect_from(items, i + 1);
                lemma_strips_collect_wf(items, i + 1, rest->Ok_0);
                crate::lattice::lemma_allowed_capability_line_safe(v);
            },
            _ => {
                lemma_strips_collect_wf(items, i + 1, out);
            },
        }
    }
}

proof fn lemma_doc_line_safe(docs: Seq<Seq<char>>)
    ensures
        crate::method::opt_line_safe(spec_doc(docs)),
{
    if docs.len() > 0 {
        let s = docs[0];
        crate::text::lemma_line_end_bounds(s, 0);
        let fl = spec_first_line(s);
        assert(spec_line_safe(fl));
        crate::text::lemma_skip_space_bounds(fl, 0);
        crate::text::lemma_trim_end_bounds(fl, fl.len() as int);
        assert(spec_line_safe(spec_trim(fl)));
    }
}

proof fn lemma_method_from_wf(m: RawMethodV, out: MethodV)
    requires
        spec_method_from(m) == Ok::<MethodV, ErrKind>(out),
    ensures
        method_wf(out),
{
    let args = spec_args_from(m.args, 0);
    lemma_args_from_wf(m.args, 0, args->Ok_0);
    lemma_doc_line_safe(m.docs);
    let k = first_attr_named(m.attrs, "strips_traits"@, 0);
    if k < m.attrs.len() {
        match spec_parse_args(m.attrs[k].args) {
            Ok(items) => {
                let strips = strips_collect_from(items, 0);
                lemma_strips_collect_wf(items, 0, strips->Ok_0);
            },
            Err(_) => {},
        }
    }
}

proof fn lemma_methods_from_pointwise(ms: Seq<RawMethodV>, i: int, out: Seq<MethodV>)
    requires
        0 <= i <= ms.len(),
        spec_methods_from(ms, i) == Ok::<Seq<MethodV>, ErrKind>(out),
    ensures
        out.len() == ms.len() - i,
        forall|j: int|
            i <= j < ms.len() ==> spec_method_from(#[trigger] ms[j]) == Ok::<MethodV, ErrKind>(
                out[j - i],
            ),
    decreases ms.len() - i,
{
    if i < ms.len() {
        let rest = spec_methods_from(ms, i + 1);
        lemma_methods_from_pointwise(ms, i + 1, rest->Ok_0);
    }
}

proof fn lemma_first_marked_in_range(ms: Seq<RawMethodV>, q: Seq<char>, i: int)
    requires
        0 <= i <= ms.len(),
        count_marked_from(ms, q, i) > 0,
    ensures
        i <= first_marked_from(ms, q, i) < ms.len(),
        method_marked(ms[first_marked_from(ms, q, i)], q),
    decreases ms.len() - i,
{
    if i < ms.len() && !method_marked(ms[i], q) {
        lemma_first_marked_in_range(ms, q, i + 1);
    }
}

/// What one successful block extraction guarantees: the record is
/// well-formed, in particular every recorded name and type string still
/// re-parses, and every string fits on one registry line.
pub proof fn lemma_block_from_wf(b: RawBlockV, out: ImplBlockV)
    requires
        spec_block_from(b) == Ok::<ImplBlockV, ErrKind>(out),
    ensures
        block_wf(out),
{
    match spec_path_check(b.path) {
        Err(e) => {
            assert(spec_block_from(b) == Err::<ImplBlockV, ErrKind>(e));
            assert(false);
        },
        Ok(u) => {},
    }
    assert(b.path.len() > 0);
    lemma_path_check_from_wf(b.path, 1);
    reveal_strlit("crate");
    assert(valid_segment(b.path[0]));
    assert(spec_parse_self_generic(b) is Ok);
    assert(spec_parse_self_function(b) is Ok);
    assert(count_marked_from(b.methods, "method_self_arg"@, 0) == 1);
    lemma_first_marked_in_range(b.methods, "method_self_arg"@, 0);
    let k = first_marked_from(b.methods, "method_self_arg"@, 0);
    let methods = spec_methods_from(b.methods, 0);
    assert(methods is Ok);
    lemma_methods_from_pointwise(b.methods, 0, methods->Ok_0);
    assert(out.methods == methods->Ok_0);
    assert forall|j: int| 0 <= j < out.methods.len() implies method_wf(#[trigger] out.methods[j])
    by {
        assert(spec_method_from(b.methods[j]) == Ok::<MethodV, ErrKind>(out.methods[j]));
        lemma_method_from_wf(b.methods[j], out.methods[j]);
    }
    assert(spec_method_from(b.methods[k]) == Ok::<MethodV, ErrKind>(out.methods[k]));
    lemma_method_from_wf(b.methods[k], out.methods[k]);
    assert(out.methods[k].name == b.methods[k].name);
    assert(out.self_function == b.methods[k].name);
    assert(parses_as_ident(out.self_function));
}

/// Round trip of recorded strings: whatever a successful extraction run
/// records, every capability-set record is well-formed — each path
/// segment and method name still parses as an identifier, and each
/// recorded `expected_type` and `return_type` string still parses as a
/// type expression.
pub proof fn lemma_extraction_reparses(bs: Seq<RawBlockV>, out: Seq<ImplBlockV>)
    requires
        spec_extract(bs) == Ok::<Seq<ImplBlockV>, ErrKind>(out),
    ensures
        forall|i: int| 0 <= i < out.len() ==> block_wf(#[trigger] out[i]),
{
    lemma_extract_from_wf(bs, 0, spec_extract_from(bs, 0)->Ok_0);
}

proof fn lemma_extract_from_wf(bs: Seq<RawBlockV>, i: int, out: Seq<ImplBlockV>)
    requires
        0 <= i <= bs.len(),
        spec_extract_from(bs, i) == Ok::<Seq<ImplBlockV>, ErrKind>(out),
    ensures
        forall|k: int| 0 <= k < out.len() ==> block_wf(#[trigger] out[k]),
    decreases bs.len() - i,
{
    if i < bs.len() {
        if !has_attr(bs[i].attrs, "register_methods"@) {
            lemma_extract_from_wf(bs, i + 1, out);
        } else {
            let rest = spec_extract_from(bs, i + 1);
            lemma_extract_from_wf(bs, i + 1, rest->Ok_0);
            lemma_block_from_wf(bs[i], spec_block_from(bs[i])->Ok_0);
        }
    }
}

} // verus!
