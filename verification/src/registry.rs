//! The persisted registry: a stable, self-describing text format.
//!
//! The registry file is a sequence of lines, two per field: a key line
//! naming the field, then a value line holding its text verbatim.  Field
//! names are written out, never positions, so readers and writers built at
//! different times stay compatible: a reader skips any key it does not
//! know (with its value line), and reports a named error when a required
//! key is missing.  The file starts with a version header.
//!
//! Serialization is specified exactly (`spec_registry_text`), parsing too
//! (`spec_parse_registry`), and `lemma_registry_round_trip` proves that
//! parsing a serialized registry yields the original records.

use vstd::prelude::*;

use crate::impl_block::{block_line_safe, ImplBlock, ImplBlockV};
use crate::method::{method_line_safe, Argument, ArgumentV, Method, MethodV};
use crate::text::{spec_line_safe, str_eq_str};

verus! {

broadcast use vstd::seq::group_seq_axioms, vstd::std_specs::vec::group_vec_axioms;

// ===========================================================================
// Serialization: records to lines
// ===========================================================================
pub open spec fn spec_bool_text(b: bool) -> Seq<char> {
    if b {
        "true"@
    } else {
        "false"@
    }
}

/// Key/value line pairs of one argument.
pub open spec fn ser_arg(a: ArgumentV) -> Seq<Seq<char>> {
    seq![
        "arg_mutable"@,
        spec_bool_text(a.mutable),
        "arg_name"@,
        a.name,
        "arg_type"@,
        a.expected_type,
    ]
}

pub open spec fn ser_args_from(args: Seq<ArgumentV>, i: int) -> Seq<Seq<char>>
    decreases args.len() - i,
    when 0 <= i
{
    if i >= args.len() {
        Seq::empty()
    } else {
        ser_arg(args[i]) + ser_args_from(args, i + 1)
    }
}

pub open spec fn ser_strips_from(strips: Seq<Seq<char>>, i: int) -> Seq<Seq<char>>
    decreases strips.len() - i,
    when 0 <= i
{
    if i >= strips.len() {
        Seq::empty()
    } else {
        seq!["strip"@, strips[i]] + ser_strips_from(strips, i + 1)
    }
}

pub open spec fn ser_doc(doc: Option<Seq<char>>) -> Seq<Seq<char>> {
    match doc {
        Some(d) => seq!["doc"@, d],
        None => seq!["nodoc"@, ""@],
    }
}

pub open spec fn ser_return(rt: Option<Seq<char>>) -> Seq<Seq<char>> {
    match rt {
        Some(t) => seq!["return_type"@, t],
        None => seq!["noreturn"@, ""@],
    }
}

/// Key/value line pairs of one method record.
pub open spec fn ser_method(m: MethodV) -> Seq<Seq<char>> {
    seq!["method"@, ""@, "name"@, m.name] + ser_doc(m.comments) + ser_args_from(m.args, 0)
        + ser_return(m.return_type) + seq!["literal_return"@, spec_bool_text(m.literal_return)]
        + ser_strips_from(m.strips, 0) + seq!["end_method"@, ""@]
}

pub open spec fn ser_methods_from(ms: Seq<MethodV>, i: int) -> Seq<Seq<char>>
    decreases ms.len() - i,
    when 0 <= i
{
    if i >= ms.len() {
        Seq::empty()
    } else {
        ser_method(ms[i]) + ser_methods_from(ms, i + 1)
    }
}

pub open spec fn ser_segments_from(name: Seq<Seq<char>>, i: int) -> Seq<Seq<char>>
    decreases name.len() - i,
    when 0 <= i
{
    if i >= name.len() {
        Seq::empty()
    } else {
        seq!["segment"@, name[i]] + ser_segments_from(name, i + 1)
    }
}

/// Key/value line pairs of one capability-set record.
pub open spec fn ser_block(b: ImplBlockV) -> Seq<Seq<char>> {
    seq!["block"@, ""@] + ser_segments_from(b.name, 0) + seq![
        "self_function"@,
        b.self_function,
        "self_generic"@,
        b.self_generic,
    ] + ser_methods_from(b.methods, 0) + seq!["end_block"@, ""@]
}

pub open spec fn ser_blocks_from(bs: Seq<ImplBlockV>, i: int) -> Seq<Seq<char>>
    decreases bs.len() - i,
    when 0 <= i
{
    if i >= bs.len() {
        Seq::empty()
    } else {
        ser_block(bs[i]) + ser_blocks_from(bs, i + 1)
    }
}

/// All lines of the registry: the version header, then every record.
pub open spec fn spec_registry_lines(bs: Seq<ImplBlockV>) -> Seq<Seq<char>> {
    seq!["registry"@, "1"@] + ser_blocks_from(bs, 0)
}

/// Lines joined into one text, each line terminated by a newline.
pub open spec fn spec_unlines(lines: Seq<Seq<char>>) -> Seq<char>
    decreases lines.len(),
{
    if lines.len() == 0 {
        Seq::empty()
    } else {
        lines[0] + seq!['\n'] + spec_unlines(lines.drop_first())
    }
}

/// The registry text of a sequence of records.
pub open spec fn spec_registry_text(bs: Seq<ImplBlockV>) -> Seq<char> {
    spec_unlines(spec_registry_lines(bs))
}

// ===========================================================================
// Parsing: lines back to records
// ===========================================================================
/// A deserialization failure, with the index of the offending line.
#[derive(Debug, Clone, Copy, PartialEq, Eq, Structural)]
pub enum RegistryError {
    /// The version header is missing or names an unknown version.
    BadVersion,
    /// The input ended where a field was required.
    UnexpectedEnd,
    /// The named line does not carry the required key.
    UnexpectedKey(usize),
    /// The named line's value is not a boolean.
    BadBool(usize),
}

/// Mathematical image of a `RegistryError`.
pub enum RegErr {
    BadVersion,
    UnexpectedEnd,
    UnexpectedKey(int),
    BadBool(int),
}

impl View for RegistryError {
    type V = RegErr;

    open spec fn view(&self) -> RegErr {
        match self {
            RegistryError::BadVersion => RegErr::BadVersion,
            RegistryError::UnexpectedEnd => RegErr::UnexpectedEnd,
            RegistryError::UnexpectedKey(i) => RegErr::UnexpectedKey(*i as int),
            RegistryError::BadBool(i) => RegErr::BadBool(*i as int),
        }
    }
}

/// The keys this reader understands.
pub open spec fn spec_known_key(k: Seq<char>) -> bool {
    ||| k == "registry"@
    ||| k == "block"@
    ||| k == "segment"@
    ||| k == "self_function"@
    ||| k == "self_generic"@
    ||| k == "method"@
    ||| k == "name"@
    ||| k == "doc"@
    ||| k == "nodoc"@
    ||| k == "arg_mutable"@
    ||| k == "arg_name"@
    ||| k == "arg_type"@
    ||| k == "return_type"@
    ||| k == "noreturn"@
    ||| k == "literal_return"@
    ||| k == "strip"@
    ||| k == "end_method"@
    ||| k == "end_block"@
}

/// Skip key/value pairs whose key the reader does not know.
pub open spec fn spec_peek(lines: Seq<Seq<char>>, i: int) -> int
    decreases lines.len() + 1 - i,
    when 0 <= i
{
    if i >= lines.len() {
        i
    } else if spec_known_key(lines[i]) {
        i
    } else if i + 2 <= lines.len() {
        spec_peek(lines, i + 2)
    } else {
        lines.len() as int
    }
}

pub proof fn lemma_peek_bounds(lines: Seq<Seq<char>>, i: int)
    requires
        0 <= i,
    ensures
        i <= spec_peek(lines, i),
        i <= lines.len() ==> spec_peek(lines, i) <= lines.len(),
        spec_peek(lines, i) < lines.len() ==> spec_known_key(lines[spec_peek(lines, i)]),
    decreases lines.len() + 1 - i,
{
    if i < lines.len() && !spec_known_key(lines[i]) && i + 2 <= lines.len() {
        lemma_peek_bounds(lines, i + 2);
    }
}

/// The value of the required key at the reading position: skips unknown
/// pairs, then demands `key` and hands back its value line and the next
/// position.
pub open spec fn sp_expect(lines: Seq<Seq<char>>, i: int, key: Seq<char>) -> Result<
    (Seq<char>, int),
    RegErr,
> {
    let j = spec_peek(lines, i);
    if j >= lines.len() {
        Err(RegErr::UnexpectedEnd)
    } else if lines[j] != key {
        Err(RegErr::UnexpectedKey(j))
    } else if j + 1 >= lines.len() {
        Err(RegErr::UnexpectedEnd)
    } else {
        Ok((lines[j + 1], j + 2))
    }
}

pub open spec fn sp_bool(v: Seq<char>, at: int) -> Result<bool, RegErr> {
    if v == "true"@ {
        Ok(true)
    } else if v == "false"@ {
        Ok(false)
    } else {
        Err(RegErr::BadBool(at))
    }
}

/// Arguments for as long as an `arg_mutable` key stands at the reading
/// position.
pub open spec fn sp_args(lines: Seq<Seq<char>>, i: int) -> Result<(Seq<ArgumentV>, int), RegErr>
    decreases lines.len() - i,
    when 0 <= i
{
    let j = spec_peek(lines, i);
    if j >= lines.len() || lines[j] != "arg_mutable"@ {
        Ok((Seq::empty(), j))
    } else if j + 1 >= lines.len() {
        Err(RegErr::UnexpectedEnd)
    } else {
        match sp_bool(lines[j + 1], j + 1) {
            Err(e) => Err(e),
            Ok(m) => match sp_expect(lines, j + 2, "arg_name"@) {
                Err(e) => Err(e),
                Ok((name, k)) => match sp_expect(lines, k, "arg_type"@) {
                    Err(e) => Err(e),
                    Ok((ty, k2)) => if k2 <= i || k2 > lines.len() {
                        Err(RegErr::UnexpectedEnd)
                    } else {
                        match sp_args(lines, k2) {
                            Err(e) => Err(e),
                            Ok((rest, k3)) => Ok(
                                (
                                    seq![
                                        ArgumentV { mutable: m, name: name, expected_type: ty },
                                    ] + rest,
                                    k3,
                                ),
                            ),
                        }
                    },
                },
            },
        }
    }
}

/// Strip names for as long as a `strip` key stands at the reading position.
pub open spec fn sp_strips(lines: Seq<Seq<char>>, i: int) -> Result<(Seq<Seq<char>>, int), RegErr>
    decreases lines.len() - i,
    when 0 <= i
    via sp_strips_dec
{
    let j = spec_peek(lines, i);
    if j >= lines.len() || lines[j] != "strip"@ {
        Ok((Seq::empty(), j))
    } else if j + 1 >= lines.len() {
        Err(RegErr::UnexpectedEnd)
    } else {
        match sp_strips(lines, j + 2) {
            Err(e) => Err(e),
            Ok((rest, k)) => Ok((seq![lines[j + 1]] + rest, k)),
        }
    }
}

#[via_fn]
proof fn sp_strips_dec(lines: Seq<Seq<char>>, i: int) {
    if 0 <= i {
        lemma_peek_bounds(lines, i);
    }
}

/// Path segments for as long as a `segment` key stands at the reading
/// position.
pub open spec fn sp_segments(lines: Seq<Seq<char>>, i: int) -> Result<
    (Seq<Seq<char>>, int),
    RegErr,
>
    decreases lines.len() - i,
    when 0 <= i
    via sp_segments_dec
{
    let j = spec_peek(lines, i);
    if j >= lines.len() || lines[j] != "segment"@ {
        Ok((Seq::empty(), j))
    } else if j + 1 >= lines.len() {
        Err(RegErr::UnexpectedEnd)
    } else {
        match sp_segments(lines, j + 2) {
            Err(e) => Err(e),
            Ok((rest, k)) => Ok((seq![lines[j + 1]] + rest, k)),
        }
    }
}

#[via_fn]
proof fn sp_segments_dec(lines: Seq<Seq<char>>, i: int) {
    if 0 <= i {
        lemma_peek_bounds(lines, i);
    }
}

/// One method record: its fields in writing order, closed by `end_method`.
pub open spec fn sp_method(lines: Seq<Seq<char>>, i: int) -> Result<(MethodV, int), RegErr> {
    match sp_expect(lines, i, "name"@) {
        Err(e) => Err(e),
        Ok((name, j)) => {
            let j2 = spec_peek(lines, j);
            if j2 >= lines.len() {
                Err(RegErr::UnexpectedEnd)
            } else {
                let doc_step: Result<(Option<Seq<char>>, int), RegErr> = if lines[j2] == "doc"@ {
                    if j2 + 1 >= lines.len() {
                        Err(RegErr::UnexpectedEnd)
                    } else {
                        Ok((Some(lines[j2 + 1]), j2 + 2))
                    }
                } else if lines[j2] == "nodoc"@ {
                    if j2 + 1 >= lines.len() {
                        Err(RegErr::UnexpectedEnd)
                    } else {
                        Ok((None, j2 + 2))
                    }
                } else {
                    Err(RegErr::UnexpectedKey(j2))
                };
                match doc_step {
                    Err(e) => Err(e),
                    Ok((doc, k)) => match sp_args(lines, k) {
                        Err(e) => Err(e),
                        Ok((args, k2)) => {
                            let k3 = spec_peek(lines, k2);
                            if k3 >= lines.len() {
                                Err(RegErr::UnexpectedEnd)
                            } else {
                                let rt_step: Result<(Option<Seq<char>>, int), RegErr> = if lines[
                                    k3
                                ] == "return_type"@ {
                                    if k3 + 1 >= lines.len() {
                                        Err(RegErr::UnexpectedEnd)
                                    } else {
                                        Ok((Some(lines[k3 + 1]), k3 + 2))
                                    }
                                } else if lines[k3] == "noreturn"@ {
                                    if k3 + 1 >= lines.len() {
                                        Err(RegErr::UnexpectedEnd)
                                    } else {
                                        Ok((None, k3 + 2))
                                    }
                                } else {
                                    Err(RegErr::UnexpectedKey(k3))
                                };
                                match rt_step {
                                    Err(e) => Err(e),
                                    Ok((rt, k4)) => match sp_expect(
                                        lines,
                                        k4,
                                        "literal_return"@,
                                    ) {
                                        Err(e) => Err(e),
                                        Ok((lr_text, k5)) => match sp_bool(lr_text, k5 - 1) {
                                            Err(e) => Err(e),
                                            Ok(lr) => match sp_strips(lines, k5) {
                                                Err(e) => Err(e),
                                                Ok((strips, k6)) => match sp_expect(
                                                    lines,
                                                    k6,
                                                    "end_method"@,
                                                ) {
                                                    Err(e) => Err(e),
                                                    Ok((_, k7)) => Ok(
                                                        (
                                                            MethodV {
                                                                comments: doc,
                                                                name: name,
                                                                args: args,
                                                                return_type: rt,
                                                                literal_return: lr,
                                                                strips: strips,
                                                            },
                                                            k7,
                                                        ),
                                                    ),
                                                },
                                            },
                                        },
                                    },
                                }
                            }
                        },
                    },
                }
            }
        },
    }
}

/// Method records for as long as a `method` key stands at the reading
/// position.
pub open spec fn sp_methods(lines: Seq<Seq<char>>, i: int) -> Result<(Seq<MethodV>, int), RegErr>
    decreases lines.len() - i,
    when 0 <= i
{
    let j = spec_peek(lines, i);
    if j >= lines.len() || lines[j] != "method"@ {
        Ok((Seq::empty(), j))
    } else if j + 1 >= lines.len() {
        Err(RegErr::UnexpectedEnd)
    } else {
        match sp_method(lines, j + 2) {
            Err(e) => Err(e),
            Ok((m, k)) => if k <= i || k > lines.len() {
                Err(RegErr::UnexpectedEnd)
            } else {
                match sp_methods(lines, k) {
                    Err(e) => Err(e),
                    Ok((rest, k2)) => Ok((seq![m] + rest, k2)),
                }
            },
        }
    }
}

/// One capability-set record, closed by `end_block`.
pub open spec fn sp_block(lines: Seq<Seq<char>>, i: int) -> Result<(ImplBlockV, int), RegErr> {
    match sp_segments(lines, i) {
        Err(e) => Err(e),
        Ok((segs, j)) => match sp_expect(lines, j, "self_function"@) {
            Err(e) => Err(e),
            Ok((sf, j2)) => match sp_expect(lines, j2, "self_generic"@) {
                Err(e) => Err(e),
                Ok((sg, j3)) => match sp_methods(lines, j3) {
                    Err(e) => Err(e),
                    Ok((ms, j4)) => match sp_expect(lines, j4, "end_block"@) {
                        Err(e) => Err(e),
                        Ok((_, j5)) => Ok(
                            (
                                ImplBlockV {
                                    name: segs,
                                    self_function: sf,
                                    self_generic: sg,
                                    methods: ms,
                                },
                                j5,
                            ),
                        ),
                    },
                },
            },
        },
    }
}

/// Capability-set records for as long as a `block` key stands at the
/// reading position; anything else left over is an error.
pub open spec fn sp_blocks(lines: Seq<Seq<char>>, i: int) -> Result<(Seq<ImplBlockV>, int), RegErr>
    decreases lines.len() - i,
    when 0 <= i
{
    let j = spec_peek(lines, i);
    if j >= lines.len() {
        Ok((Seq::empty(), j))
    } else if lines[j] != "block"@ {
        Err(RegErr::UnexpectedKey(j))
    } else if j + 1 >= lines.len() {
        Err(RegErr::UnexpectedEnd)
    } else {
        match sp_block(lines, j + 2) {
            Err(e) => Err(e),
            Ok((b, k)) => if k <= i || k > lines.len() {
                Err(RegErr::UnexpectedEnd)
            } else {
                match sp_blocks(lines, k) {
                    Err(e) => Err(e),
                    Ok((rest, k2)) => Ok((seq![b] + rest, k2)),
                }
            },
        }
    }
}

/// Parse a whole registry line sequence: version header, then records.
pub open spec fn spec_parse_registry_lines(lines: Seq<Seq<char>>) -> Result<Seq<ImplBlockV>, RegErr> {
    match sp_expect(lines, 0, "registry"@) {
        Err(_) => Err(RegErr::BadVersion),
        Ok((v, i)) => if v != "1"@ {
            Err(RegErr::BadVersion)
        } else {
            match sp_blocks(lines, i) {
                Err(e) => Err(e),
                Ok((bs, _)) => Ok(bs),
            }
        },
    }
}

/// Lines of `s` from offset `i` on; a newline ends each line.
pub open spec fn spec_split_from(s: Seq<char>, i: int) -> Seq<Seq<char>>
    decreases s.len() + 1 - i,
    when 0 <= i <= s.len()
    via spec_split_from_dec
{
    if i >= s.len() {
        Seq::empty()
    } else {
        let e = crate::text::spec_line_end(s, i);
        if e < s.len() {
            seq![s.subrange(i, e)] + spec_split_from(s, e + 1)
        } else {
            seq![s.subrange(i, s.len() as int)]
        }
    }
}

#[via_fn]
proof fn spec_split_from_dec(s: Seq<char>, i: int) {
    if 0 <= i <= s.len() {
        crate::text::lemma_line_end_bounds(s, i);
    }
}

/// Split a text into its lines; a newline ends each line.
pub open spec fn spec_split_lines(s: Seq<char>) -> Seq<Seq<char>> {
    spec_split_from(s, 0)
}

/// Parse a whole registry text.
pub open spec fn spec_parse_registry(s: Seq<char>) -> Result<Seq<ImplBlockV>, RegErr> {
    spec_parse_registry_lines(spec_split_lines(s))
}

// ===========================================================================
// Serialization: executable
// ===========================================================================
fn bool_text(b: bool) -> (r: &'static str)
    ensures
        r@ == spec_bool_text(b),
{
    if b {
        "true"
    } else {
        "false"
    }
}

fn push_pair(out: &mut Vec<String>, key: &str, value: &str)
    ensures
        final(out).deep_view() == old(out).deep_view() + seq![key@, value@],
{
    let ghost pre = out.deep_view();
    out.push(key.to_owned());
    out.push(value.to_owned());
    assert(out.deep_view() =~= pre + seq![key@, value@]);
}

fn ser_args_exec(out: &mut Vec<String>, args: &Vec<Argument>)
    ensures
        final(out).deep_view() == old(out).deep_view() + ser_args_from(args.deep_view(), 0),
{
    let ghost base = out.deep_view();
    let ghost av = args.deep_view();
    let n = args.len();
    let mut i: usize = 0;
    assert(base + ser_args_from(av, 0) =~= out.deep_view() + ser_args_from(av, 0));
    while i < n
        invariant
            0 <= i <= n,
            n == args@.len(),
            av == args.deep_view(),
            av.len() == n,
            forall|j: int| 0 <= j < n ==> av[j] == args@[j]@,
            out.deep_view() + ser_args_from(av, i as int) == base + ser_args_from(av, 0),
        decreases n - i,
    {
        let ghost pre = out.deep_view();
        let a = &args[i];
        push_pair(out, "arg_mutable", bool_text(a.mutable));
        push_pair(out, "arg_name", a.name.as_str());
        push_pair(out, "arg_type", a.expected_type.as_str());
        proof {
            assert(out.deep_view() =~= pre + ser_arg(av[i as int]));
            assert(out.deep_view() + ser_args_from(av, i + 1) =~= pre + (ser_arg(av[i as int])
                + ser_args_from(av, i + 1)));
        }
        i += 1;
    }
    assert(out.deep_view() =~= base + ser_args_from(av, 0));
}

fn ser_strips_exec(out: &mut Vec<String>, strips: &Vec<String>)
    ensures
        final(out).deep_view() == old(out).deep_view() + ser_strips_from(strips.deep_view(), 0),
{
    let ghost base = out.deep_view();
    let ghost sv = strips.deep_view();
    let n = strips.len();
    let mut i: usize = 0;
    while i < n
        invariant
            0 <= i <= n,
            n == strips@.len(),
            sv == strips.deep_view(),
            sv.len() == n,
            forall|j: int| 0 <= j < n ==> sv[j] == strips@[j]@,
            out.deep_view() + ser_strips_from(sv, i as int) == base + ser_strips_from(sv, 0),
        decreases n - i,
    {
        let ghost pre = out.deep_view();
        push_pair(out, "strip", strips[i].as_str());
        proof {
            assert(out.deep_view() =~= pre + seq!["strip"@, sv[i as int]]);
            assert(out.deep_view() + ser_strips_from(sv, i + 1) =~= pre + (seq![
                "strip"@,
                sv[i as int],
            ] + ser_strips_from(sv, i + 1)));
        }
        i += 1;
    }
    assert(out.deep_view() =~= base + ser_strips_from(sv, 0));
}

fn ser_method_exec(out: &mut Vec<String>, m: &Method)
    ensures
        final(out).deep_view() == old(out).deep_view() + ser_method(m@),
{
    let ghost base = out.deep_view();
    push_pair(out, "method", "");
    push_pair(out, "name", m.name.as_str());
    match &m.comments {
        Some(d) => push_pair(out, "doc", d.as_str()),
        None => push_pair(out, "nodoc", ""),
    }
    ser_args_exec(out, &m.args);
    match &m.return_type {
        Some(t) => push_pair(out, "return_type", t.as_str()),
        None => push_pair(out, "noreturn", ""),
    }
    push_pair(out, "literal_return", bool_text(m.literal_return));
    ser_strips_exec(out, &m.strips);
    push_pair(out, "end_method", "");
    assert(out.deep_view() =~= base + ser_method(m@));
}

fn ser_block_exec(out: &mut Vec<String>, b: &ImplBlock)
    ensures
        final(out).deep_view() == old(out).deep_view() + ser_block(b@),
{
    let ghost base = out.deep_view();
    push_pair(out, "block", "");
    let ghost nv = b@.name;
    let n = b.name.len();
    let ghost mid = out.deep_view();
    let mut i: usize = 0;
    while i < n
        invariant
            0 <= i <= n,
            n == b.name@.len(),
            nv == b@.name,
            nv.len() == n,
            forall|j: int| 0 <= j < n ==> nv[j] == b.name@[j]@,
            out.deep_view() + ser_segments_from(nv, i as int) == mid + ser_segments_from(nv, 0),
        decreases n - i,
    {
        let ghost pre = out.deep_view();
        push_pair(out, "segment", b.name[i].as_str());
        proof {
            assert(out.deep_view() =~= pre + seq!["segment"@, nv[i as int]]);
            assert(out.deep_view() + ser_segments_from(nv, i + 1) =~= pre + (seq![
                "segment"@,
                nv[i as int],
            ] + ser_segments_from(nv, i + 1)));
        }
        i += 1;
    }
    push_pair(out, "self_function", b.self_function.as_str());
    push_pair(out, "self_generic", b.self_generic.as_str());
    let ghost mv = b@.methods;
    let nm = b.methods.len();
    let ghost mid2 = out.deep_view();
    let mut k: usize = 0;
    while k < nm
        invariant
            0 <= k <= nm,
            nm == b.methods@.len(),
            mv == b@.methods,
            mv.len() == nm,
            forall|j: int| 0 <= j < nm ==> mv[j] == b.methods@[j]@,
            out.deep_view() + ser_methods_from(mv, k as int) == mid2 + ser_methods_from(mv, 0),
        decreases nm - k,
    {
        let ghost pre = out.deep_view();
        ser_method_exec(out, &b.methods[k]);
        proof {
            assert(out.deep_view() + ser_methods_from(mv, k + 1) =~= pre + (ser_method(
                mv[k as int],
            ) + ser_methods_from(mv, k + 1)));
        }
        k += 1;
    }
    push_pair(out, "end_block", "");
    assert(out.deep_view() =~= base + ser_block(b@));
}

/// All lines of the registry text for these records.
fn registry_lines_exec(blocks: &Vec<ImplBlock>) -> (r: Vec<String>)
    ensures
        r.deep_view() == spec_registry_lines(blocks.deep_view()),
{
    let mut out: Vec<String> = Vec::new();
    assert(out.deep_view() =~= Seq::<Seq<char>>::empty());
    push_pair(&mut out, "registry", "1");
    let ghost bv = blocks.deep_view();
    let ghost mid = out.deep_view();
    let n = blocks.len();
    let mut i: usize = 0;
    while i < n
        invariant
            0 <= i <= n,
            n == blocks@.len(),
            bv == blocks.deep_view(),
            bv.len() == n,
            forall|j: int| 0 <= j < n ==> bv[j] == blocks@[j]@,
            out.deep_view() + ser_blocks_from(bv, i as int) == mid + ser_blocks_from(bv, 0),
        decreases n - i,
    {
        let ghost pre = out.deep_view();
        ser_block_exec(&mut out, &blocks[i]);
        proof {
            assert(out.deep_view() + ser_blocks_from(bv, i + 1) =~= pre + (ser_block(bv[i as int])
                + ser_blocks_from(bv, i + 1)));
        }
        i += 1;
    }
    assert(out.deep_view() =~= spec_registry_lines(bv));
    out
}

fn unlines_exec(lines: &Vec<String>) -> (r: String)
    ensures
        r@ == spec_unlines(lines.deep_view()),
{
    let mut acc = String::new();
    let ghost lv = lines.deep_view();
    let n = lines.len();
    let mut i: usize = 0;
    assert(lv.skip(0) =~= lv);
    while i < n
        invariant
            0 <= i <= n,
            n == lines@.len(),
            lv == lines.deep_view(),
            lv.len() == n,
            forall|j: int| 0 <= j < n ==> lv[j] == lines@[j]@,
            acc@ + spec_unlines(lv.skip(i as int)) == spec_unlines(lv),
        decreases n - i,
    {
        let ghost pre = acc@;
        acc.append(lines[i].as_str());
        acc.append("\n");
        proof {
            let suf = lv.skip(i as int);
            assert(suf[0] == lv[i as int]);
            assert(suf.drop_first() =~= lv.skip(i + 1));
            reveal_strlit("\n");
            assert(acc@ =~= pre + (lv[i as int] + seq!['\n']));
            assert(acc@ + spec_unlines(lv.skip(i + 1)) =~= pre + (lv[i as int] + seq!['\n']
                + spec_unlines(lv.skip(i + 1))));
        }
        i += 1;
    }
    assert(lv.skip(n as int) =~= Seq::<Seq<char>>::empty());
    acc
}

/// Serialize the registry records into the registry text.
pub fn serialize_registry(blocks: &Vec<ImplBlock>) -> (r: String)
    ensures
        r@ == spec_registry_text(blocks.deep_view()),
{
    let lines = registry_lines_exec(blocks);
    unlines_exec(&lines)
}

// ===========================================================================
// Round trip: parsing a serialized registry yields the records
// ===========================================================================
proof fn lemma_split_unlines_at(s: Seq<char>, i: int, tail: Seq<Seq<char>>)
    requires
        0 <= i <= s.len(),
        s.subrange(i, s.len() as int) == spec_unlines(tail),
        forall|k: int| 0 <= k < tail.len() ==> spec_line_safe(#[trigger] tail[k]),
    ensures
        spec_split_from(s, i) == tail,
    decreases tail.len(),
{
    if tail.len() == 0 {
        assert(spec_unlines(tail) =~= Seq::<char>::empty());
        assert(i == s.len());
        assert(spec_split_from(s, i) =~= tail);
    } else {
        let l0 = tail[0];
        let rest = tail.drop_first();
        let e = i + l0.len();
        let suf = s.subrange(i, s.len() as int);
        assert(suf == l0 + seq!['\n'] + spec_unlines(rest));
        assert(suf.len() == l0.len() + 1 + spec_unlines(rest).len());
        assert(e < s.len());
        assert forall|k: int| i <= k < e implies s[k] != '\n' by {
            assert(s[k] == suf[k - i]);
            assert(suf[k - i] == l0[k - i]);
        }
        assert(s[e] == suf[l0.len() as int]);
        assert(s[e] == '\n');
        crate::text::lemma_line_end_unique(s, i, e);
        assert(s.subrange(i, e) =~= l0);
        assert forall|k: int|
            0 <= k < spec_unlines(rest).len() implies s.subrange(e + 1, s.len() as int)[k]
            == spec_unlines(rest)[k] by {
            assert(s.subrange(e + 1, s.len() as int)[k] == s[e + 1 + k]);
            assert(s[e + 1 + k] == suf[e + 1 + k - i]);
            assert(suf[l0.len() + 1 + k] == spec_unlines(rest)[k]);
        }
        assert(s.subrange(e + 1, s.len() as int) =~= spec_unlines(rest));
        lemma_split_unlines_at(s, e + 1, rest);
        assert(spec_split_from(s, i) =~= seq![l0] + rest);
        assert(seq![l0] + rest =~= tail);
    }
}

/// Splitting the joined lines gives the lines back, provided each fits on
/// one line.
pub proof fn lemma_split_unlines(lines: Seq<Seq<char>>)
    requires
        forall|k: int| 0 <= k < lines.len() ==> spec_line_safe(#[trigger] lines[k]),
    ensures
        spec_split_lines(spec_unlines(lines)) == lines,
{
    let s = spec_unlines(lines);
    assert(s.subrange(0, s.len() as int) =~= s);
    lemma_split_unlines_at(s, 0, lines);
}

proof fn lemma_key_literals_safe()
    ensures
        spec_line_safe("registry"@),
        spec_line_safe("1"@),
        spec_line_safe("block"@),
        spec_line_safe("segment"@),
        spec_line_safe("self_function"@),
        spec_line_safe("self_generic"@),
        spec_line_safe("method"@),
        spec_line_safe("name"@),
        spec_line_safe("doc"@),
        spec_line_safe("nodoc"@),
        spec_line_safe("arg_mutable"@),
        spec_line_safe("arg_name"@),
        spec_line_safe("arg_type"@),
        spec_line_safe("return_type"@),
        spec_line_safe("noreturn"@),
        spec_line_safe("literal_return"@),
        spec_line_safe("strip"@),
        spec_line_safe("end_method"@),
        spec_line_safe("end_block"@),
        spec_line_safe("true"@),
        spec_line_safe("false"@),
        spec_line_safe(""@),
{
    reveal_strlit("registry");
    reveal_strlit("1");
    reveal_strlit("block");
    reveal_strlit("segment");
    reveal_strlit("self_function");
    reveal_strlit("self_generic");
    reveal_strlit("method");
    reveal_strlit("name");
    reveal_strlit("doc");
    reveal_strlit("nodoc");
    reveal_strlit("arg_mutable");
    reveal_strlit("arg_name");
    reveal_strlit("arg_type");
    reveal_strlit("return_type");
    reveal_strlit("noreturn");
    reveal_strlit("literal_return");
    reveal_strlit("strip");
    reveal_strlit("end_method");
    reveal_strlit("end_block");
    reveal_strlit("true");
    reveal_strlit("false");
    reveal_strlit("");
}

proof fn lemma_ser_args_safe(args: Seq<ArgumentV>, a: int)
    requires
        0 <= a,
        forall|k: int|
            0 <= k < args.len() ==> crate::method::argument_line_safe(#[trigger] args[k]),
    ensures
        forall|k: int|
            0 <= k < ser_args_from(args, a).len() ==> spec_line_safe(
                #[trigger] ser_args_from(args, a)[k],
            ),
    decreases args.len() - a,
{
    lemma_key_literals_safe();
    let ser = ser_args_from(args, a);
    if a < args.len() {
        lemma_ser_args_safe(args, a + 1);
        let x = args[a];
        let rest = ser_args_from(args, a + 1);
        assert(ser == ser_arg(x) + rest);
        assert forall|k: int| 0 <= k < ser.len() implies spec_line_safe(#[trigger] ser[k]) by {
            if k < 6 {
                assert(ser[k] == ser_arg(x)[k]);
            } else {
                assert(ser[k] == rest[k - 6]);
            }
        }
    }
}

proof fn lemma_ser_strips_safe(strips: Seq<Seq<char>>, a: int)
    requires
        0 <= a,
        forall|k: int| 0 <= k < strips.len() ==> spec_line_safe(#[trigger] strips[k]),
    ensures
        forall|k: int|
            0 <= k < ser_strips_from(strips, a).len() ==> spec_line_safe(
                #[trigger] ser_strips_from(strips, a)[k],
            ),
    decreases strips.len() - a,
{
    lemma_key_literals_safe();
    let ser = ser_strips_from(strips, a);
    if a < strips.len() {
        lemma_ser_strips_safe(strips, a + 1);
        let rest = ser_strips_from(strips, a + 1);
        assert(ser == seq!["strip"@, strips[a]] + rest);
        assert forall|k: int| 0 <= k < ser.len() implies spec_line_safe(#[trigger] ser[k]) by {
            if k < 2 {
                assert(ser[k] == seq!["strip"@, strips[a]][k]);
            } else {
                assert(ser[k] == rest[k - 2]);
            }
        }
    }
}

proof fn lemma_ser_segments_safe(name: Seq<Seq<char>>, a: int)
    requires
        0 <= a,
        forall|k: int| 0 <= k < name.len() ==> spec_line_safe(#[trigger] name[k]),
    ensures
        forall|k: int|
            0 <= k < ser_segments_from(name, a).len() ==> spec_line_safe(
                #[trigger] ser_segments_from(name, a)[k],
            ),
    decreases name.len() - a,
{
    lemma_key_literals_safe();
    let ser = ser_segments_from(name, a);
    if a < name.len() {
        lemma_ser_segments_safe(name, a + 1);
        let rest = ser_segments_from(name, a + 1);
        assert(ser == seq!["segment"@, name[a]] + rest);
        assert forall|k: int| 0 <= k < ser.len() implies spec_line_safe(#[trigger] ser[k]) by {
            if k < 2 {
                assert(ser[k] == seq!["segment"@, name[a]][k]);
            } else {
                assert(ser[k] == rest[k - 2]);
            }
        }
    }
}

proof fn lemma_ser_method_safe(m: MethodV)
    requires
        method_line_safe(m),
    ensures
        forall|k: int|
            0 <= k < ser_method(m).len() ==> spec_line_safe(#[trigger] ser_method(m)[k]),
{
    lemma_key_literals_safe();
    lemma_ser_args_safe(m.args, 0);
    lemma_ser_strips_safe(m.strips, 0);
    let ser = ser_method(m);
    let s1 = seq!["method"@, ""@, "name"@, m.name];
    let doc_ser = ser_doc(m.comments);
    let args_ser = ser_args_from(m.args, 0);
    let ret_ser = ser_return(m.return_type);
    let s2 = seq!["literal_return"@, spec_bool_text(m.literal_return)];
    let strips_ser = ser_strips_from(m.strips, 0);
    let s3 = seq!["end_method"@, ""@];
    assert(ser == s1 + doc_ser + args_ser + ret_ser + s2 + strips_ser + s3);
    assert forall|k: int| 0 <= k < ser.len() implies spec_line_safe(#[trigger] ser[k]) by {
        let b1 = s1.len() as int;
        let b2 = b1 + doc_ser.len();
        let b3 = b2 + args_ser.len();
        let b4 = b3 + ret_ser.len();
        let b5 = b4 + s2.len();
        let b6 = b5 + strips_ser.len();
        if k < b1 {
            assert(ser[k] == s1[k]);
        } else if k < b2 {
            assert(ser[k] == doc_ser[k - b1]);
            match m.comments {
                Some(d) => {
                    assert(doc_ser == seq!["doc"@, d]);
                },
                None => {
                    assert(doc_ser == seq!["nodoc"@, ""@]);
                },
            }
        } else if k < b3 {
            assert(ser[k] == args_ser[k - b2]);
        } else if k < b4 {
            assert(ser[k] == ret_ser[k - b3]);
            match m.return_type {
                Some(t) => {
                    assert(ret_ser == seq!["return_type"@, t]);
                },
                None => {
                    assert(ret_ser == seq!["noreturn"@, ""@]);
                },
            }
        } else if k < b5 {
            assert(ser[k] == s2[k - b4]);
        } else if k < b6 {
            assert(ser[k] == strips_ser[k - b5]);
        } else {
            assert(ser[k] == s3[k - b6]);
        }
    }
}

proof fn lemma_ser_methods_safe(ms: Seq<MethodV>, a: int)
    requires
        0 <= a,
        forall|k: int| 0 <= k < ms.len() ==> method_line_safe(#[trigger] ms[k]),
    ensures
        forall|k: int|
            0 <= k < ser_methods_from(ms, a).len() ==> spec_line_safe(
                #[trigger] ser_methods_from(ms, a)[k],
            ),
    decreases ms.len() - a,
{
    let ser = ser_methods_from(ms, a);
    if a < ms.len() {
        lemma_ser_method_safe(ms[a]);
        lemma_ser_methods_safe(ms, a + 1);
        let m_ser = ser_method(ms[a]);
        let rest = ser_methods_from(ms, a + 1);
        assert(ser == m_ser + rest);
        assert forall|k: int| 0 <= k < ser.len() implies spec_line_safe(#[trigger] ser[k]) by {
            if k < m_ser.len() {
                assert(ser[k] == m_ser[k]);
            } else {
                assert(ser[k] == rest[k - m_ser.len()]);
            }
        }
    }
}

proof fn lemma_ser_block_safe(b: ImplBlockV)
    requires
        block_line_safe(b),
    ensures
        forall|k: int| 0 <= k < ser_block(b).len() ==> spec_line_safe(#[trigger] ser_block(b)[k]),
{
    lemma_key_literals_safe();
    lemma_ser_segments_safe(b.name, 0);
    lemma_ser_methods_safe(b.methods, 0);
    let ser = ser_block(b);
    let s1 = seq!["block"@, ""@];
    let segs_ser = ser_segments_from(b.name, 0);
    let s2 = seq!["self_function"@, b.self_function, "self_generic"@, b.self_generic];
    let ms_ser = ser_methods_from(b.methods, 0);
    let s3 = seq!["end_block"@, ""@];
    assert(ser == s1 + segs_ser + s2 + ms_ser + s3);
    assert forall|k: int| 0 <= k < ser.len() implies spec_line_safe(#[trigger] ser[k]) by {
        let b1 = 2int;
        let b2 = b1 + segs_ser.len();
        let b3 = b2 + 4;
        let b4 = b3 + ms_ser.len();
        if k < b1 {
            assert(ser[k] == s1[k]);
        } else if k < b2 {
            assert(ser[k] == segs_ser[k - b1]);
        } else if k < b3 {
            assert(ser[k] == s2[k - b2]);
        } else if k < b4 {
            assert(ser[k] == ms_ser[k - b3]);
        } else {
            assert(ser[k] == s3[k - b4]);
        }
    }
}

proof fn lemma_ser_blocks_safe(bs: Seq<ImplBlockV>, a: int)
    requires
        0 <= a,
        forall|k: int| 0 <= k < bs.len() ==> block_line_safe(#[trigger] bs[k]),
    ensures
        forall|k: int|
            0 <= k < ser_blocks_from(bs, a).len() ==> spec_line_safe(
                #[trigger] ser_blocks_from(bs, a)[k],
            ),
    decreases bs.len() - a,
{
    let ser = ser_blocks_from(bs, a);
    if a < bs.len() {
        lemma_ser_block_safe(bs[a]);
        lemma_ser_blocks_safe(bs, a + 1);
        let b_ser = ser_block(bs[a]);
        let rest = ser_blocks_from(bs, a + 1);
        assert(ser == b_ser + rest);
        assert forall|k: int| 0 <= k < ser.len() implies spec_line_safe(#[trigger] ser[k]) by {
            if k < b_ser.len() {
                assert(ser[k] == b_ser[k]);
            } else {
                assert(ser[k] == rest[k - b_ser.len()]);
            }
        }
    }
}

/// Every line a serialized registry holds fits on one line.
pub proof fn lemma_registry_lines_safe(bs: Seq<ImplBlockV>)
    requires
        forall|k: int| 0 <= k < bs.len() ==> block_line_safe(#[trigger] bs[k]),
    ensures
        forall|k: int|
            0 <= k < spec_registry_lines(bs).len() ==> spec_line_safe(
                #[trigger] spec_registry_lines(bs)[k],
            ),
{
    lemma_key_literals_safe();
    lemma_ser_blocks_safe(bs, 0);
    let lines = spec_registry_lines(bs);
    let blocks_ser = ser_blocks_from(bs, 0);
    assert forall|k: int| 0 <= k < lines.len() implies spec_line_safe(#[trigger] lines[k]) by {
        if k < 2 {
            assert(lines[k] == seq!["registry"@, "1"@][k]);
        } else {
            assert(lines[k] == blocks_ser[k - 2]);
        }
    }
}

/// `content` stands verbatim in `lines` at position `i`.
pub open spec fn matches_at(lines: Seq<Seq<char>>, i: int, content: Seq<Seq<char>>) -> bool {
    &&& 0 <= i
    &&& i + content.len() <= lines.len()
    &&& forall|k: int| 0 <= k < content.len() ==> lines[i + k] == #[trigger] content[k]
}

proof fn lemma_bool_rt(b: bool, at: int)
    ensures
        sp_bool(spec_bool_text(b), at) == Ok::<bool, RegErr>(b),
{
    reveal_strlit("true");
    reveal_strlit("false");
    if b {
        assert(spec_bool_text(b) == "true"@);
    } else {
        assert(spec_bool_text(b) == "false"@);
        assert("false"@.len() != "true"@.len());
    }
}

proof fn lemma_args_rt(lines: Seq<Seq<char>>, i: int, args: Seq<ArgumentV>, a: int)
    requires
        0 <= a <= args.len(),
        matches_at(lines, i, ser_args_from(args, a)),
        i + ser_args_from(args, a).len() < lines.len(),
        spec_known_key(lines[i + ser_args_from(args, a).len()]),
        lines[i + ser_args_from(args, a).len()] != "arg_mutable"@,
    ensures
        sp_args(lines, i) == Ok::<(Seq<ArgumentV>, int), RegErr>(
            (args.skip(a), i + ser_args_from(args, a).len()),
        ),
    decreases args.len() - a,
{
    let ser = ser_args_from(args, a);
    if a == args.len() {
        assert(ser =~= Seq::<Seq<char>>::empty());
        assert(spec_peek(lines, i) == i);
        assert(args.skip(a) =~= Seq::<ArgumentV>::empty());
    } else {
        let x = args[a];
        let rest_ser = ser_args_from(args, a + 1);
        assert(ser == ser_arg(x) + rest_ser);
        assert(lines[i] == ser[0] && lines[i + 1] == ser[1] && lines[i + 2] == ser[2] && lines[i
            + 3] == ser[3] && lines[i + 4] == ser[4] && lines[i + 5] == ser[5]);
        assert(ser[0] == "arg_mutable"@ && ser[1] == spec_bool_text(x.mutable) && ser[2]
            == "arg_name"@ && ser[3] == x.name && ser[4] == "arg_type"@ && ser[5]
            == x.expected_type);
        assert(spec_peek(lines, i) == i);
        lemma_bool_rt(x.mutable, i + 1);
        assert(spec_peek(lines, i + 2) == i + 2);
        assert(sp_expect(lines, i + 2, "arg_name"@) == Ok::<(Seq<char>, int), RegErr>(
            (x.name, i + 4),
        ));
        assert(spec_peek(lines, i + 4) == i + 4);
        assert(sp_expect(lines, i + 4, "arg_type"@) == Ok::<(Seq<char>, int), RegErr>(
            (x.expected_type, i + 6),
        ));
        assert(matches_at(lines, i + 6, rest_ser)) by {
            assert forall|k: int| 0 <= k < rest_ser.len() implies lines[i + 6 + k] == #[trigger]
            rest_ser[k] by {
                assert(lines[i + 6 + k] == ser[6 + k]);
                assert(ser[6 + k] == rest_ser[k]);
            }
        }
        lemma_args_rt(lines, i + 6, args, a + 1);
        assert(ArgumentV { mutable: x.mutable, name: x.name, expected_type: x.expected_type }
            == x);
        assert(seq![x] + args.skip(a + 1) =~= args.skip(a));
    }
}

proof fn lemma_strips_rt(lines: Seq<Seq<char>>, i: int, strips: Seq<Seq<char>>, a: int)
    requires
        0 <= a <= strips.len(),
        matches_at(lines, i, ser_strips_from(strips, a)),
        i + ser_strips_from(strips, a).len() < lines.len(),
        spec_known_key(lines[i + ser_strips_from(strips, a).len()]),
        lines[i + ser_strips_from(strips, a).len()] != "strip"@,
    ensures
        sp_strips(lines, i) == Ok::<(Seq<Seq<char>>, int), RegErr>(
            (strips.skip(a), i + ser_strips_from(strips, a).len()),
        ),
    decreases strips.len() - a,
{
    let ser = ser_strips_from(strips, a);
    if a == strips.len() {
        assert(ser =~= Seq::<Seq<char>>::empty());
        assert(spec_peek(lines, i) == i);
        assert(strips.skip(a) =~= Seq::<Seq<char>>::empty());
    } else {
        let rest_ser = ser_strips_from(strips, a + 1);
        assert(ser == seq!["strip"@, strips[a]] + rest_ser);
        assert(lines[i] == ser[0] && lines[i + 1] == ser[1]);
        assert(ser[0] == "strip"@ && ser[1] == strips[a]);
        assert(spec_peek(lines, i) == i);
        assert(matches_at(lines, i + 2, rest_ser)) by {
            assert forall|k: int| 0 <= k < rest_ser.len() implies lines[i + 2 + k] == #[trigger]
            rest_ser[k] by {
                assert(lines[i + 2 + k] == ser[2 + k]);
                assert(ser[2 + k] == rest_ser[k]);
            }
        }
        lemma_strips_rt(lines, i + 2, strips, a + 1);
        assert(seq![strips[a]] + strips.skip(a + 1) =~= strips.skip(a));
    }
}

proof fn lemma_segments_rt(lines: Seq<Seq<char>>, i: int, name: Seq<Seq<char>>, a: int)
    requires
        0 <= a <= name.len(),
        matches_at(lines, i, ser_segments_from(name, a)),
        i + ser_segments_from(name, a).len() < lines.len(),
        spec_known_key(lines[i + ser_segments_from(name, a).len()]),
        lines[i + ser_segments_from(name, a).len()] != "segment"@,
    ensures
        sp_segments(lines, i) == Ok::<(Seq<Seq<char>>, int), RegErr>(
            (name.skip(a), i + ser_segments_from(name, a).len()),
        ),
    decreases name.len() - a,
{
    let ser = ser_segments_from(name, a);
    if a == name.len() {
        assert(ser =~= Seq::<Seq<char>>::empty());
        assert(spec_peek(lines, i) == i);
        assert(name.skip(a) =~= Seq::<Seq<char>>::empty());
    } else {
        let rest_ser = ser_segments_from(name, a + 1);
        assert(ser == seq!["segment"@, name[a]] + rest_ser);
        assert(lines[i] == ser[0] && lines[i + 1] == ser[1]);
        assert(ser[0] == "segment"@ && ser[1] == name[a]);
        assert(spec_peek(lines, i) == i);
        assert(matches_at(lines, i + 2, rest_ser)) by {
            assert forall|k: int| 0 <= k < rest_ser.len() implies lines[i + 2 + k] == #[trigger]
            rest_ser[k] by {
                assert(lines[i + 2 + k] == ser[2 + k]);
                assert(ser[2 + k] == rest_ser[k]);
            }
        }
        lemma_segments_rt(lines, i + 2, name, a + 1);
        assert(seq![name[a]] + name.skip(a + 1) =~= name.skip(a));
    }
}

proof fn lemma_keys_distinct()
    ensures
        "return_type"@ != "arg_mutable"@,
        "noreturn"@ != "arg_mutable"@,
        "noreturn"@ != "return_type"@,
        "end_method"@ != "strip"@,
        "self_function"@ != "segment"@,
        "end_block"@ != "method"@,
        "nodoc"@ != "doc"@,
{
    reveal_strlit("return_type");
    reveal_strlit("arg_mutable");
    reveal_strlit("noreturn");
    reveal_strlit("end_method");
    reveal_strlit("strip");
    reveal_strlit("self_function");
    reveal_strlit("segment");
    reveal_strlit("end_block");
    reveal_strlit("method");
    reveal_strlit("nodoc");
    reveal_strlit("doc");
    assert("return_type"@[0] == 'r' && "arg_mutable"@[0] == 'a');
    assert("return_type"@.len() == 11 && "arg_mutable"@.len() == 11 && "noreturn"@.len() == 8
        && "end_method"@.len() == 10 && "strip"@.len() == 5 && "self_function"@.len() == 13
        && "segment"@.len() == 7 && "end_block"@.len() == 9 && "method"@.len() == 6
        && "nodoc"@.len() == 5 && "doc"@.len() == 3);
}

proof fn lemma_method_rt(lines: Seq<Seq<char>>, i: int, m: MethodV)
    requires
        matches_at(lines, i, ser_method(m)),
    ensures
        sp_method(lines, i + 2) == Ok::<(MethodV, int), RegErr>((m, i + ser_method(m).len())),
{
    lemma_keys_distinct();
    let ser = ser_method(m);
    let s1 = seq!["method"@, ""@, "name"@, m.name];
    let doc_ser = ser_doc(m.comments);
    let args_ser = ser_args_from(m.args, 0);
    let ret_ser = ser_return(m.return_type);
    let s2 = seq!["literal_return"@, spec_bool_text(m.literal_return)];
    let strips_ser = ser_strips_from(m.strips, 0);
    let s3 = seq!["end_method"@, ""@];
    assert(ser == s1 + doc_ser + args_ser + ret_ser + s2 + strips_ser + s3);
    let dl = doc_ser.len() as int;
    let al = args_ser.len() as int;
    let rl = ret_ser.len() as int;
    let p_name = i + 2;
    let p_doc = i + 4;
    let p_args = p_doc + dl;
    let p_ret = p_args + al;
    let p_lr = p_ret + rl;
    let p_strips = p_lr + 2;
    let p_end = p_strips + strips_ser.len();
    assert(ser.len() == 4 + doc_ser.len() + args_ser.len() + ret_ser.len() + 2 + strips_ser.len()
        + 2);
    // name
    assert(lines[p_name] == ser[2] && lines[p_name + 1] == ser[3]);
    assert(ser[2] == "name"@ && ser[3] == m.name);
    assert(spec_peek(lines, p_name) == p_name);
    assert(sp_expect(lines, p_name, "name"@) == Ok::<(Seq<char>, int), RegErr>((m.name, p_doc)));
    // doc
    assert(lines[p_doc] == ser[4] && lines[p_doc + 1] == ser[5]);
    assert(ser[4] == doc_ser[0] && ser[5] == doc_ser[1]);
    assert(spec_peek(lines, p_doc) == p_doc);
    // arguments, stopped by the return key
    assert(matches_at(lines, p_args, args_ser)) by {
        assert forall|k: int| 0 <= k < args_ser.len() implies lines[p_args + k] == #[trigger]
        args_ser[k] by {
            assert(lines[p_args + k] == ser[4 + dl + k]);
            assert(ser[4 + dl + k] == args_ser[k]);
        }
    }
    assert(lines[p_ret] == ser[4 + dl + al]);
    assert(ser[4 + dl + al] == ret_ser[0]);
    assert(lines[p_ret + 1] == ser[4 + dl + al + 1]);
    assert(ser[4 + dl + al + 1] == ret_ser[1]);
    assert(spec_known_key(lines[p_ret]) && lines[p_ret] != "arg_mutable"@) by {
        match m.return_type {
            Some(t) => {
                assert(ret_ser[0] == "return_type"@);
            },
            None => {
                assert(ret_ser[0] == "noreturn"@);
            },
        }
    }
    lemma_args_rt(lines, p_args, m.args, 0);
    assert(m.args.skip(0) =~= m.args);
    assert(spec_peek(lines, p_ret) == p_ret);
    // literal_return
    assert(lines[p_lr] == ser[4 + dl + al + rl]);
    assert(ser[4 + dl + al + rl] == s2[0]);
    assert(lines[p_lr + 1] == ser[4 + dl + al + rl + 1]);
    assert(ser[4 + dl + al + rl + 1] == s2[1]);
    assert(spec_peek(lines, p_lr) == p_lr);
    assert(sp_expect(lines, p_lr, "literal_return"@) == Ok::<(Seq<char>, int), RegErr>(
        (spec_bool_text(m.literal_return), p_strips),
    ));
    lemma_bool_rt(m.literal_return, p_strips - 1);
    // strips, stopped by end_method
    assert(matches_at(lines, p_strips, strips_ser)) by {
        assert forall|k: int| 0 <= k < strips_ser.len() implies lines[p_strips + k] == #[trigger]
        strips_ser[k] by {
            assert(lines[p_strips + k] == ser[4 + dl + al + rl + 2 + k]);
            assert(ser[4 + dl + al + rl + 2 + k] == strips_ser[k]);
        }
    }
    assert(lines[p_end] == ser[ser.len() - 2] && lines[p_end + 1] == ser[ser.len() - 1]);
    assert(ser[ser.len() - 2] == "end_method"@ && ser[ser.len() - 1] == ""@);
    lemma_strips_rt(lines, p_strips, m.strips, 0);
    assert(m.strips.skip(0) =~= m.strips);
    assert(spec_peek(lines, p_end) == p_end);
    assert(sp_expect(lines, p_end, "end_method"@) == Ok::<(Seq<char>, int), RegErr>(
        (""@, p_end + 2),
    ));
    // the doc and return steps see the serialized pair
    match m.comments {
        Some(d) => {
            assert(doc_ser[0] == "doc"@ && doc_ser[1] == d);
        },
        None => {
            assert(doc_ser[0] == "nodoc"@);
        },
    }
    match m.return_type {
        Some(t) => {
            assert(ret_ser[0] == "return_type"@ && ret_ser[1] == t);
        },
        None => {
            assert(ret_ser[0] == "noreturn"@);
        },
    }
    assert(sp_method(lines, i + 2) == Ok::<(MethodV, int), RegErr>((m, p_end + 2)));
}

proof fn lemma_methods_rt(lines: Seq<Seq<char>>, i: int, ms: Seq<MethodV>, a: int)
    requires
        0 <= a <= ms.len(),
        matches_at(lines, i, ser_methods_from(ms, a)),
        i + ser_methods_from(ms, a).len() < lines.len(),
        spec_known_key(lines[i + ser_methods_from(ms, a).len()]),
        lines[i + ser_methods_from(ms, a).len()] != "method"@,
    ensures
        sp_methods(lines, i) == Ok::<(Seq<MethodV>, int), RegErr>(
            (ms.skip(a), i + ser_methods_from(ms, a).len()),
        ),
    decreases ms.len() - a,
{
    let ser = ser_methods_from(ms, a);
    if a == ms.len() {
        assert(ser =~= Seq::<Seq<char>>::empty());
        assert(spec_peek(lines, i) == i);
        assert(ms.skip(a) =~= Seq::<MethodV>::empty());
    } else {
        let m = ms[a];
        let m_ser = ser_method(m);
        let rest_ser = ser_methods_from(ms, a + 1);
        assert(ser == m_ser + rest_ser);
        assert(m_ser.len() >= 4);
        assert(matches_at(lines, i, m_ser)) by {
            assert forall|k: int| 0 <= k < m_ser.len() implies lines[i + k] == #[trigger] m_ser[k]
            by {
                assert(lines[i + k] == ser[k]);
                assert(ser[k] == m_ser[k]);
            }
        }
        assert(lines[i] == m_ser[0] && lines[i + 1] == m_ser[1]);
        assert(m_ser[0] == "method"@);
        assert(spec_peek(lines, i) == i);
        lemma_method_rt(lines, i, m);
        let next = i + m_ser.len();
        assert(matches_at(lines, next, rest_ser)) by {
            assert forall|k: int| 0 <= k < rest_ser.len() implies lines[next + k] == #[trigger]
            rest_ser[k] by {
                assert(lines[next + k] == ser[m_ser.len() + k]);
                assert(ser[m_ser.len() + k] == rest_ser[k]);
            }
        }
        lemma_methods_rt(lines, next, ms, a + 1);
        assert(seq![m] + ms.skip(a + 1) =~= ms.skip(a));
    }
}

proof fn lemma_block_rt(lines: Seq<Seq<char>>, i: int, b: ImplBlockV)
    requires
        matches_at(lines, i, ser_block(b)),
    ensures
        sp_block(lines, i + 2) == Ok::<(ImplBlockV, int), RegErr>((b, i + ser_block(b).len())),
{
    lemma_keys_distinct();
    let ser = ser_block(b);
    let s1 = seq!["block"@, ""@];
    let segs_ser = ser_segments_from(b.name, 0);
    let s2 = seq!["self_function"@, b.self_function, "self_generic"@, b.self_generic];
    let ms_ser = ser_methods_from(b.methods, 0);
    let s3 = seq!["end_block"@, ""@];
    assert(ser == s1 + segs_ser + s2 + ms_ser + s3);
    let sl = segs_ser.len() as int;
    let p_segs = i + 2;
    let p_sf = p_segs + sl;
    let p_sg = p_sf + 2;
    let p_ms = p_sg + 2;
    let p_end = p_ms + ms_ser.len();
    assert(ser.len() == 2 + segs_ser.len() + 4 + ms_ser.len() + 2);
    // segments, stopped by self_function
    assert(matches_at(lines, p_segs, segs_ser)) by {
        assert forall|k: int| 0 <= k < segs_ser.len() implies lines[p_segs + k] == #[trigger]
        segs_ser[k] by {
            assert(lines[p_segs + k] == ser[2 + k]);
            assert(ser[2 + k] == segs_ser[k]);
        }
    }
    assert(lines[p_sf] == ser[2 + sl]);
    assert(ser[2 + sl] == s2[0]);
    assert(lines[p_sf + 1] == ser[2 + sl + 1]);
    assert(ser[2 + sl + 1] == s2[1]);
    assert(lines[p_sg] == ser[2 + sl + 2]);
    assert(ser[2 + sl + 2] == s2[2]);
    assert(lines[p_sg + 1] == ser[2 + sl + 3]);
    assert(ser[2 + sl + 3] == s2[3]);
    lemma_segments_rt(lines, p_segs, b.name, 0);
    assert(b.name.skip(0) =~= b.name);
    assert(spec_peek(lines, p_sf) == p_sf);
    assert(sp_expect(lines, p_sf, "self_function"@) == Ok::<(Seq<char>, int), RegErr>(
        (b.self_function, p_sg),
    ));
    assert(spec_peek(lines, p_sg) == p_sg);
    assert(sp_expect(lines, p_sg, "self_generic"@) == Ok::<(Seq<char>, int), RegErr>(
        (b.self_generic, p_ms),
    ));
    // methods, stopped by end_block
    assert(matches_at(lines, p_ms, ms_ser)) by {
        assert forall|k: int| 0 <= k < ms_ser.len() implies lines[p_ms + k] == #[trigger] ms_ser[k]
        by {
            assert(lines[p_ms + k] == ser[2 + sl + 4 + k]);
            assert(ser[2 + sl + 4 + k] == ms_ser[k]);
        }
    }
    assert(lines[p_end] == ser[ser.len() - 2] && lines[p_end + 1] == ser[ser.len() - 1]);
    assert(ser[ser.len() - 2] == "end_block"@ && ser[ser.len() - 1] == ""@);
    lemma_methods_rt(lines, p_ms, b.methods, 0);
    assert(b.methods.skip(0) =~= b.methods);
    assert(spec_peek(lines, p_end) == p_end);
    assert(sp_expect(lines, p_end, "end_block"@) == Ok::<(Seq<char>, int), RegErr>(
        (""@, p_end + 2),
    ));
    assert(ImplBlockV {
        name: b.name,
        self_function: b.self_function,
        self_generic: b.self_generic,
        methods: b.methods,
    } == b);
}

proof fn lemma_blocks_rt(lines: Seq<Seq<char>>, i: int, bs: Seq<ImplBlockV>, a: int)
    requires
        0 <= a <= bs.len(),
        matches_at(lines, i, ser_blocks_from(bs, a)),
        i + ser_blocks_from(bs, a).len() == lines.len(),
    ensures
        sp_blocks(lines, i) == Ok::<(Seq<ImplBlockV>, int), RegErr>(
            (bs.skip(a), lines.len() as int),
        ),
    decreases bs.len() - a,
{
    let ser = ser_blocks_from(bs, a);
    if a == bs.len() {
        assert(ser =~= Seq::<Seq<char>>::empty());
        assert(i == lines.len());
        assert(spec_peek(lines, i) == i);
        assert(bs.skip(a) =~= Seq::<ImplBlockV>::empty());
    } else {
        let b = bs[a];
        let b_ser = ser_block(b);
        let rest_ser = ser_blocks_from(bs, a + 1);
        assert(ser == b_ser + rest_ser);
        assert(b_ser.len() >= 4);
        assert(matches_at(lines, i, b_ser)) by {
            assert forall|k: int| 0 <= k < b_ser.len() implies lines[i + k] == #[trigger] b_ser[k]
            by {
                assert(lines[i + k] == ser[k]);
                assert(ser[k] == b_ser[k]);
            }
        }
        assert(lines[i] == b_ser[0] && lines[i + 1] == b_ser[1]);
        assert(b_ser[0] == "block"@);
        assert(spec_peek(lines, i) == i);
        lemma_block_rt(lines, i, b);
        let next = i + b_ser.len();
        assert(matches_at(lines, next, rest_ser)) by {
            assert forall|k: int| 0 <= k < rest_ser.len() implies lines[next + k] == #[trigger]
            rest_ser[k] by {
                assert(lines[next + k] == ser[b_ser.len() + k]);
                assert(ser[b_ser.len() + k] == rest_ser[k]);
            }
        }
        lemma_blocks_rt(lines, next, bs, a + 1);
        assert(seq![b] + bs.skip(a + 1) =~= bs.skip(a));
    }
}

/// Round trip: parsing a serialized registry yields exactly the records
/// that were written, whatever they hold, as long as every stored string
/// fits on one line.  Serialization is a function of the records alone, so
/// two extraction runs over the same source write byte-identical
/// registries, and a reader built against this format recovers them.
pub proof fn lemma_registry_round_trip(bs: Seq<ImplBlockV>)
    requires
        forall|k: int| 0 <= k < bs.len() ==> block_line_safe(#[trigger] bs[k]),
    ensures
        spec_parse_registry(spec_registry_text(bs)) == Ok::<Seq<ImplBlockV>, RegErr>(bs),
{
    lemma_keys_distinct();
    let lines = spec_registry_lines(bs);
    lemma_registry_lines_safe(bs);
    lemma_split_unlines(lines);
    assert(spec_split_lines(spec_registry_text(bs)) == lines);
    let blocks_ser = ser_blocks_from(bs, 0);
    assert(lines == seq!["registry"@, "1"@] + blocks_ser);
    assert(lines[0] == "registry"@ && lines[1] == "1"@);
    assert(spec_peek(lines, 0) == 0);
    assert(sp_expect(lines, 0, "registry"@) == Ok::<(Seq<char>, int), RegErr>(("1"@, 2)));
    assert(matches_at(lines, 2, blocks_ser)) by {
        assert forall|k: int| 0 <= k < blocks_ser.len() implies lines[2 + k] == #[trigger]
        blocks_ser[k] by {
            assert(lines[2 + k] == (seq!["registry"@, "1"@] + blocks_ser)[2 + k]);
        }
    }
    lemma_blocks_rt(lines, 2, bs, 0);
    assert(bs.skip(0) =~= bs);
}

/// Round trip of a whole extraction run: the records a successful run
/// writes are well-formed — every recorded name and type string still
/// re-parses — and reading the registry file back yields exactly those
/// records.
pub proof fn lemma_extraction_round_trip(
    raws: Seq<crate::impl_block::RawBlockV>,
    records: Seq<ImplBlockV>,
)
    requires
        crate::impl_block::spec_extract(raws) == Ok::<
            Seq<ImplBlockV>,
            crate::impl_block::ErrKind,
        >(records),
    ensures
        spec_parse_registry(spec_registry_text(records)) == Ok::<Seq<ImplBlockV>, RegErr>(records),
        forall|i: int|
            0 <= i < records.len() ==> crate::impl_block::block_wf(#[trigger] records[i]),
{
    crate::impl_block::lemma_extraction_reparses(raws, records);
    lemma_registry_round_trip(records);
}

/// Idempotence: extraction and serialization are functions of their input
/// alone, so two runs over unchanged raw blocks produce the same records
/// and byte-identical registry texts.  The executable extractor and writer
/// return exactly these specified values of their arguments' views.
pub proof fn lemma_extraction_idempotent(
    first: Seq<crate::impl_block::RawBlockV>,
    second: Seq<crate::impl_block::RawBlockV>,
    r1: Seq<ImplBlockV>,
    r2: Seq<ImplBlockV>,
)
    requires
        first == second,
        crate::impl_block::spec_extract(first) == Ok::<
            Seq<ImplBlockV>,
            crate::impl_block::ErrKind,
        >(r1),
        crate::impl_block::spec_extract(second) == Ok::<
            Seq<ImplBlockV>,
            crate::impl_block::ErrKind,
        >(r2),
    ensures
        r1 == r2,
        spec_registry_text(r1) == spec_registry_text(r2),
{
}

// ===========================================================================
// Parsing: executable
// ===========================================================================
fn known_key_exec(s: &str) -> (r: bool)
    ensures
        r == spec_known_key(s@),
{
    str_eq_str(s, "registry") || str_eq_str(s, "block") || str_eq_str(s, "segment") || str_eq_str(
        s,
        "self_function",
    ) || str_eq_str(s, "self_generic") || str_eq_str(s, "method") || str_eq_str(s, "name")
        || str_eq_str(s, "doc") || str_eq_str(s, "nodoc") || str_eq_str(s, "arg_mutable")
        || str_eq_str(s, "arg_name") || str_eq_str(s, "arg_type") || str_eq_str(s, "return_type")
        || str_eq_str(s, "noreturn") || str_eq_str(s, "literal_return") || str_eq_str(s, "strip")
        || str_eq_str(s, "end_method") || str_eq_str(s, "end_block")
}

fn peek_exec(lines: &Vec<String>, i: usize) -> (r: usize)
    requires
        i <= lines@.len(),
    ensures
        r as int == spec_peek(lines.deep_view(), i as int),
        i <= r <= lines@.len(),
    decreases lines@.len() + 1 - i,
{
    let n = lines.len();
    if i >= n {
        i
    } else {
        assert(lines.deep_view()[i as int] == lines@[i as int]@);
        if known_key_exec(lines[i].as_str()) {
            i
        } else if n - i >= 2 {
            peek_exec(lines, i + 2)
        } else {
            n
        }
    }
}

fn expect_exec(lines: &Vec<String>, i: usize, key: &str) -> (r: Result<
    (String, usize),
    RegistryError,
>)
    requires
        i <= lines@.len(),
    ensures
        match r {
            Ok((v, j)) => sp_expect(lines.deep_view(), i as int, key@) == Ok::<
                (Seq<char>, int),
                RegErr,
            >((v@, j as int)) && i <= j <= lines@.len(),
            Err(e) => sp_expect(lines.deep_view(), i as int, key@) == Err::<
                (Seq<char>, int),
                RegErr,
            >(e@),
        },
{
    let j = peek_exec(lines, i);
    if j >= lines.len() {
        return Err(RegistryError::UnexpectedEnd);
    }
    assert(lines.deep_view()[j as int] == lines@[j as int]@);
    if !str_eq_str(lines[j].as_str(), key) {
        return Err(RegistryError::UnexpectedKey(j));
    }
    if j + 1 >= lines.len() {
        return Err(RegistryError::UnexpectedEnd);
    }
    assert(lines.deep_view()[j + 1] == lines@[j + 1]@);
    Ok((lines[j + 1].clone(), j + 2))
}

fn bool_exec(v: &str, at: usize) -> (r: Result<bool, RegistryError>)
    ensures
        match r {
            Ok(b) => sp_bool(v@, at as int) == Ok::<bool, RegErr>(b),
            Err(e) => sp_bool(v@, at as int) == Err::<bool, RegErr>(e@),
        },
{
    if str_eq_str(v, "true") {
        Ok(true)
    } else if str_eq_str(v, "false") {
        Ok(false)
    } else {
        Err(RegistryError::BadBool(at))
    }
}

fn args_parse_rec(lines: &Vec<String>, i: usize) -> (r: Result<
    (Vec<Argument>, usize),
    RegistryError,
>)
    requires
        i <= lines@.len(),
    ensures
        match r {
            Ok((v, j)) => sp_args(lines.deep_view(), i as int) == Ok::<
                (Seq<ArgumentV>, int),
                RegErr,
            >((v.deep_view(), j as int)) && j <= lines@.len(),
            Err(e) => sp_args(lines.deep_view(), i as int) == Err::<(Seq<ArgumentV>, int), RegErr>(
                e@,
            ),
        },
    decreases lines@.len() + 1 - i,
{
    let j = peek_exec(lines, i);
    if j >= lines.len() {
        let v: Vec<Argument> = Vec::new();
        assert(v.deep_view() =~= Seq::<ArgumentV>::empty());
        return Ok((v, j));
    }
    assert(lines.deep_view()[j as int] == lines@[j as int]@);
    if !str_eq_str(lines[j].as_str(), "arg_mutable") {
        let v: Vec<Argument> = Vec::new();
        assert(v.deep_view() =~= Seq::<ArgumentV>::empty());
        return Ok((v, j));
    }
    if j + 1 >= lines.len() {
        return Err(RegistryError::UnexpectedEnd);
    }
    assert(lines.deep_view()[j + 1] == lines@[j + 1]@);
    let m = match bool_exec(lines[j + 1].as_str(), j + 1) {
        Ok(b) => b,
        Err(e) => {
            return Err(e);
        },
    };
    let (name, k) = match expect_exec(lines, j + 2, "arg_name") {
        Ok(p) => p,
        Err(e) => {
            return Err(e);
        },
    };
    let (ty, k2) = match expect_exec(lines, k, "arg_type") {
        Ok(p) => p,
        Err(e) => {
            return Err(e);
        },
    };
    if k2 <= i || k2 > lines.len() {
        return Err(RegistryError::UnexpectedEnd);
    }
    let (mut rest, k3) = match args_parse_rec(lines, k2) {
        Ok(p) => p,
        Err(e) => {
            return Err(e);
        },
    };
    let arg = Argument { mutable: m, name, expected_type: ty };
    let ghost pre_deep = rest.deep_view();
    let ghost argv = arg@;
    rest.insert(0, arg);
    assert(rest.deep_view() =~= seq![argv] + pre_deep);
    Ok((rest, k3))
}

fn strips_parse_rec(lines: &Vec<String>, i: usize) -> (r: Result<
    (Vec<String>, usize),
    RegistryError,
>)
    requires
        i <= lines@.len(),
    ensures
        match r {
            Ok((v, j)) => sp_strips(lines.deep_view(), i as int) == Ok::<
                (Seq<Seq<char>>, int),
                RegErr,
            >((v.deep_view(), j as int)) && j <= lines@.len(),
            Err(e) => sp_strips(lines.deep_view(), i as int) == Err::<
                (Seq<Seq<char>>, int),
                RegErr,
            >(e@),
        },
    decreases lines@.len() + 1 - i,
{
    let j = peek_exec(lines, i);
    if j >= lines.len() {
        let v: Vec<String> = Vec::new();
        assert(v.deep_view() =~= Seq::<Seq<char>>::empty());
        return Ok((v, j));
    }
    assert(lines.deep_view()[j as int] == lines@[j as int]@);
    if !str_eq_str(lines[j].as_str(), "strip") {
        let v: Vec<String> = Vec::new();
        assert(v.deep_view() =~= Seq::<Seq<char>>::empty());
        return Ok((v, j));
    }
    if j + 1 >= lines.len() {
        return Err(RegistryError::UnexpectedEnd);
    }
    assert(lines.deep_view()[j + 1] == lines@[j + 1]@);
    let (mut rest, k) = match strips_parse_rec(lines, j + 2) {
        Ok(p) => p,
        Err(e) => {
            return Err(e);
        },
    };
    let ghost pre_deep = rest.deep_view();
    rest.insert(0, lines[j + 1].clone());
    assert(rest.deep_view() =~= seq![lines@[j + 1]@] + pre_deep);
    Ok((rest, k))
}

fn segments_parse_rec(lines: &Vec<String>, i: usize) -> (r: Result<
    (Vec<String>, usize),
    RegistryError,
>)
    requires
        i <= lines@.len(),
    ensures
        match r {
            Ok((v, j)) => sp_segments(lines.deep_view(), i as int) == Ok::<
                (Seq<Seq<char>>, int),
                RegErr,
            >((v.deep_view(), j as int)) && j <= lines@.len(),
            Err(e) => sp_segments(lines.deep_view(), i as int) == Err::<
                (Seq<Seq<char>>, int),
                RegErr,
            >(e@),
        },
    decreases lines@.len() + 1 - i,
{
    let j = peek_exec(lines, i);
    if j >= lines.len() {
        let v: Vec<String> = Vec::new();
        assert(v.deep_view() =~= Seq::<Seq<char>>::empty());
        return Ok((v, j));
    }
    assert(lines.deep_view()[j as int] == lines@[j as int]@);
    if !str_eq_str(lines[j].as_str(), "segment") {
        let v: Vec<String> = Vec::new();
        assert(v.deep_view() =~= Seq::<Seq<char>>::empty());
        return Ok((v, j));
    }
    if j + 1 >= lines.len() {
        return Err(RegistryError::UnexpectedEnd);
    }
    assert(lines.deep_view()[j + 1] == lines@[j + 1]@);
    let (mut rest, k) = match segments_parse_rec(lines, j + 2) {
        Ok(p) => p,
        Err(e) => {
            return Err(e);
        },
    };
    let ghost pre_deep = rest.deep_view();
    rest.insert(0, lines[j + 1].clone());
    assert(rest.deep_view() =~= seq![lines@[j + 1]@] + pre_deep);
    Ok((rest, k))
}

fn method_parse(lines: &Vec<String>, i: usize) -> (r: Result<(Method, usize), RegistryError>)
    requires
        i <= lines@.len(),
    ensures
        match r {
            Ok((m, j)) => sp_method(lines.deep_view(), i as int) == Ok::<(MethodV, int), RegErr>(
                (m@, j as int),
            ) && j <= lines@.len(),
            Err(e) => sp_method(lines.deep_view(), i as int) == Err::<(MethodV, int), RegErr>(e@),
        },
{
    let (name, j) = match expect_exec(lines, i, "name") {
        Ok(p) => p,
        Err(e) => {
            return Err(e);
        },
    };
    let j2 = peek_exec(lines, j);
    if j2 >= lines.len() {
        return Err(RegistryError::UnexpectedEnd);
    }
    assert(lines.deep_view()[j2 as int] == lines@[j2 as int]@);
    let (doc, k): (Option<String>, usize) = if str_eq_str(lines[j2].as_str(), "doc") {
        if j2 + 1 >= lines.len() {
            return Err(RegistryError::UnexpectedEnd);
        }
        assert(lines.deep_view()[j2 + 1] == lines@[j2 + 1]@);
        (Some(lines[j2 + 1].clone()), j2 + 2)
    } else if str_eq_str(lines[j2].as_str(), "nodoc") {
        if j2 + 1 >= lines.len() {
            return Err(RegistryError::UnexpectedEnd);
        }
        (None, j2 + 2)
    } else {
        return Err(RegistryError::UnexpectedKey(j2));
    };
    let (args, k2) = match args_parse_rec(lines, k) {
        Ok(p) => p,
        Err(e) => {
            return Err(e);
        },
    };
    let k3 = peek_exec(lines, k2);
    if k3 >= lines.len() {
        return Err(RegistryError::UnexpectedEnd);
    }
    assert(lines.deep_view()[k3 as int] == lines@[k3 as int]@);
    let (rt, k4): (Option<String>, usize) = if str_eq_str(lines[k3].as_str(), "return_type") {
        if k3 + 1 >= lines.len() {
            return Err(RegistryError::UnexpectedEnd);
        }
        assert(lines.deep_view()[k3 + 1] == lines@[k3 + 1]@);
        (Some(lines[k3 + 1].clone()), k3 + 2)
    } else if str_eq_str(lines[k3].as_str(), "noreturn") {
        if k3 + 1 >= lines.len() {
            return Err(RegistryError::UnexpectedEnd);
        }
        (None, k3 + 2)
    } else {
        return Err(RegistryError::UnexpectedKey(k3));
    };
    let (lr_text, k5) = match expect_exec(lines, k4, "literal_return") {
        Ok(p) => p,
        Err(e) => {
            return Err(e);
        },
    };
    let lr = match bool_exec(lr_text.as_str(), k5 - 1) {
        Ok(b) => b,
        Err(e) => {
            return Err(e);
        },
    };
    let (strips, k6) = match strips_parse_rec(lines, k5) {
        Ok(p) => p,
        Err(e) => {
            return Err(e);
        },
    };
    let (_end, k7) = match expect_exec(lines, k6, "end_method") {
        Ok(p) => p,
        Err(e) => {
            return Err(e);
        },
    };
    Ok((Method { comments: doc, name, args, return_type: rt, literal_return: lr, strips }, k7))
}

fn methods_parse_rec(lines: &Vec<String>, i: usize) -> (r: Result<
    (Vec<Method>, usize),
    RegistryError,
>)
    requires
        i <= lines@.len(),
    ensures
        match r {
            Ok((v, j)) => sp_methods(lines.deep_view(), i as int) == Ok::<
                (Seq<MethodV>, int),
                RegErr,
            >((v.deep_view(), j as int)) && j <= lines@.len(),
            Err(e) => sp_methods(lines.deep_view(), i as int) == Err::<(Seq<MethodV>, int), RegErr>(
                e@,
            ),
        },
    decreases lines@.len() + 1 - i,
{
    let j = peek_exec(lines, i);
    if j >= lines.len() {
        let v: Vec<Method> = Vec::new();
        assert(v.deep_view() =~= Seq::<MethodV>::empty());
        return Ok((v, j));
    }
    assert(lines.deep_view()[j as int] == lines@[j as int]@);
    if !str_eq_str(lines[j].as_str(), "method") {
        let v: Vec<Method> = Vec::new();
        assert(v.deep_view() =~= Seq::<MethodV>::empty());
        return Ok((v, j));
    }
    if j + 1 >= lines.len() {
        return Err(RegistryError::UnexpectedEnd);
    }
    let (m, k) = match method_parse(lines, j + 2) {
        Ok(p) => p,
        Err(e) => {
            return Err(e);
        },
    };
    if k <= i || k > lines.len() {
        return Err(RegistryError::UnexpectedEnd);
    }
    let (mut rest, k2) = match methods_parse_rec(lines, k) {
        Ok(p) => p,
        Err(e) => {
            return Err(e);
        },
    };
    let ghost pre_deep = rest.deep_view();
    let ghost mv = m@;
    rest.insert(0, m);
    assert(rest.deep_view() =~= seq![mv] + pre_deep);
    Ok((rest, k2))
}

fn block_parse(lines: &Vec<String>, i: usize) -> (r: Result<(ImplBlock, usize), RegistryError>)
    requires
        i <= lines@.len(),
    ensures
        match r {
            Ok((b, j)) => sp_block(lines.deep_view(), i as int) == Ok::<(ImplBlockV, int), RegErr>(
                (b@, j as int),
            ) && j <= lines@.len(),
            Err(e) => sp_block(lines.deep_view(), i as int) == Err::<(ImplBlockV, int), RegErr>(
                e@,
            ),
        },
{
    let (segs, j) = match segments_parse_rec(lines, i) {
        Ok(p) => p,
        Err(e) => {
            return Err(e);
        },
    };
    let (sf, j2) = match expect_exec(lines, j, "self_function") {
        Ok(p) => p,
        Err(e) => {
            return Err(e);
        },
    };
    let (sg, j3) = match expect_exec(lines, j2, "self_generic") {
        Ok(p) => p,
        Err(e) => {
            return Err(e);
        },
    };
    let (ms, j4) = match methods_parse_rec(lines, j3) {
        Ok(p) => p,
        Err(e) => {
            return Err(e);
        },
    };
    let (_end, j5) = match expect_exec(lines, j4, "end_block") {
        Ok(p) => p,
        Err(e) => {
            return Err(e);
        },
    };
    Ok((ImplBlock { name: segs, self_function: sf, self_generic: sg, methods: ms }, j5))
}

fn blocks_parse_rec(lines: &Vec<String>, i: usize) -> (r: Result<
    (Vec<ImplBlock>, usize),
    RegistryError,
>)
    requires
        i <= lines@.len(),
    ensures
        match r {
            Ok((v, j)) => sp_blocks(lines.deep_view(), i as int) == Ok::<
                (Seq<ImplBlockV>, int),
                RegErr,
            >((v.deep_view(), j as int)),
            Err(e) => sp_blocks(lines.deep_view(), i as int) == Err::<
                (Seq<ImplBlockV>, int),
                RegErr,
            >(e@),
        },
    decreases lines@.len() + 1 - i,
{
    let j = peek_exec(lines, i);
    if j >= lines.len() {
        let v: Vec<ImplBlock> = Vec::new();
        assert(v.deep_view() =~= Seq::<ImplBlockV>::empty());
        return Ok((v, j));
    }
    assert(lines.deep_view()[j as int] == lines@[j as int]@);
    if !str_eq_str(lines[j].as_str(), "block") {
        return Err(RegistryError::UnexpectedKey(j));
    }
    if j + 1 >= lines.len() {
        return Err(RegistryError::UnexpectedEnd);
    }
    let (b, k) = match block_parse(lines, j + 2) {
        Ok(p) => p,
        Err(e) => {
            return Err(e);
        },
    };
    if k <= i || k > lines.len() {
        return Err(RegistryError::UnexpectedEnd);
    }
    let (mut rest, k2) = match blocks_parse_rec(lines, k) {
        Ok(p) => p,
        Err(e) => {
            return Err(e);
        },
    };
    let ghost pre_deep = rest.deep_view();
    let ghost bv = b@;
    rest.insert(0, b);
    assert(rest.deep_view() =~= seq![bv] + pre_deep);
    Ok((rest, k2))
}

fn split_rec(s: &str, i: usize) -> (r: Vec<String>)
    requires
        i <= s@.len(),
    ensures
        r.deep_view() == spec_split_from(s@, i as int),
    decreases s@.len() - i,
{
    let n = s.unicode_len();
    if i >= n {
        let v: Vec<String> = Vec::new();
        assert(v.deep_view() =~= Seq::<Seq<char>>::empty());
        return v;
    }
    let e = crate::text::line_end(s, i);
    let line = s.substring_char(i, e).to_owned();
    if e < n {
        let mut rest = split_rec(s, e + 1);
        let ghost pre_deep = rest.deep_view();
        rest.insert(0, line);
        assert(rest.deep_view() =~= seq![s@.subrange(i as int, e as int)] + pre_deep);
        rest
    } else {
        let mut v: Vec<String> = Vec::new();
        v.push(line);
        assert(v.deep_view() =~= seq![s@.subrange(i as int, s@.len() as int)]);
        v
    }
}

/// Split a registry text into its lines.
pub fn split_lines(s: &str) -> (r: Vec<String>)
    ensures
        r.deep_view() == spec_split_lines(s@),
{
    split_rec(s, 0)
}

/// Parse a registry text back into its records.  Fails loudly, with a
/// named error, on a missing header, a missing required field, or a
/// malformed boolean; skips fields it does not know.
pub fn parse_registry(s: &str) -> (r: Result<Vec<ImplBlock>, RegistryError>)
    ensures
        match r {
            Ok(v) => spec_parse_registry(s@) == Ok::<Seq<ImplBlockV>, RegErr>(v.deep_view()),
            Err(e) => spec_parse_registry(s@) == Err::<Seq<ImplBlockV>, RegErr>(e@),
        },
{
    let lines = split_lines(s);
    let (v, i) = match expect_exec(&lines, 0, "registry") {
        Ok(p) => p,
        Err(_) => {
            return Err(RegistryError::BadVersion);
        },
    };
    if !str_eq_str(v.as_str(), "1") {
        return Err(RegistryError::BadVersion);
    }
    match blocks_parse_rec(&lines, i) {
        Ok((bs, _)) => Ok(bs),
        Err(e) => Err(e),
    }
}

} // verus!
