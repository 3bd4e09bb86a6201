//! What the layout plan of a schema tree is, as a mathematical function.
//!
//! An element is compiled with the dotted name that the enclosing structs
//! have accumulated, at a nesting depth and under a depth limit. The result
//! is a bundle or the first error met in source order.

use crate::error::{
    empty_struct, expected_element, missing_item, missing_type, unexpected_node, ErrorModel,
};
use crate::layout::{
    name_or_root, null_name, BundleModel, FieldModel, OptionModel, Span, StreamModel, TypeModel,
};
use crate::scalar::scalar_width;
use crate::tree::{NodeKind, NodeModel};
use vstd::prelude::*;

verus! {

/// The outcome of compiling an element.
pub type Outcome = Result<BundleModel, ErrorModel>;

/// The accumulated name extended by one more part, joined by a dot.
pub open spec fn join_name(name: Option<Seq<char>>, part: Seq<char>) -> Seq<char> {
    match name {
        Some(n) => n + "."@ + part,
        None => part,
    }
}

/// A name with `suffix` behind it; no name stays no name.
pub open spec fn suffixed(name: Option<Seq<char>>, suffix: Seq<char>) -> Option<Seq<char>> {
    match name {
        Some(n) => Some(n + suffix),
        None => None,
    }
}

/// The suffix that marks the element of a list.
pub open spec fn list_suffix() -> Seq<char> {
    "[]"@
}

/// The suffix that marks the element of a vector.
pub open spec fn vector_suffix() -> Seq<char> {
    "<>"@
}

/// Reads the names at the head of an element's children, from child `i` on:
/// each extends `name`. Returns the name reached and the index of the first
/// child that is no name, which is the number of children where all are.
pub open spec fn scan_names(children: Seq<NodeModel>, i: nat, name: Option<Seq<char>>) -> (
    Option<Seq<char>>,
    nat,
)
    decreases children.len() - i,
{
    if i < children.len() && children[i as int].kind is Name {
        scan_names(children, i + 1, Some(join_name(name, children[i as int].text)))
    } else {
        (name, i)
    }
}

/// A stream at depth zero.
pub open spec fn inline_stream(name: Option<Seq<char>>, fields: Seq<FieldModel>) -> StreamModel {
    StreamModel { name: name_or_root(name), fields, dimensionality: 0 }
}

/// The bundle of one field of type `typ` named by the accumulated name.
pub open spec fn single_field(
    name: Option<Seq<char>>,
    typ: TypeModel,
    span: Span,
    secondary: Seq<StreamModel>,
) -> BundleModel {
    BundleModel {
        primary: inline_stream(name, seq![FieldModel { name: name_or_root(name), typ, span }]),
        secondary,
    }
}

/// The fields and secondary streams of a struct after one more member: a
/// member at depth zero is flattened into the fields, any other is hoisted
/// whole into the secondary streams; the member's own secondary streams
/// follow in either case.
pub open spec fn absorb_member(
    fields: Seq<FieldModel>,
    secondary: Seq<StreamModel>,
    member: BundleModel,
) -> (Seq<FieldModel>, Seq<StreamModel>) {
    if member.primary.dimensionality == 0 {
        (fields + member.primary.fields, secondary + member.secondary)
    } else {
        (fields, secondary.push(member.primary) + member.secondary)
    }
}

/// The options and secondary streams of a union after one more named branch:
/// a payload at depth zero becomes the option's fields, any other leaves the
/// option empty and is hoisted into the secondary streams; the branch's own
/// secondary streams follow in either case.
pub open spec fn absorb_branch(
    options: Seq<OptionModel>,
    secondary: Seq<StreamModel>,
    branch: BundleModel,
) -> (Seq<OptionModel>, Seq<StreamModel>) {
    if branch.primary.dimensionality == 0 {
        (
            options.push(OptionModel { name: branch.primary.name, fields: branch.primary.fields }),
            secondary + branch.secondary,
        )
    } else {
        (
            options.push(OptionModel { name: branch.primary.name, fields: Seq::empty() }),
            secondary.push(branch.primary) + branch.secondary,
        )
    }
}

/// The bundle of a struct whose members gave `fields` and `secondary`. A
/// struct without inline fields takes its first secondary stream as primary;
/// one that has no stream at all is refused.
pub open spec fn finish_struct(
    name: Option<Seq<char>>,
    span: Span,
    fields: Seq<FieldModel>,
    secondary: Seq<StreamModel>,
) -> Outcome {
    if fields.len() > 0 {
        Ok(BundleModel { primary: inline_stream(name, fields), secondary })
    } else if secondary.len() > 0 {
        Ok(BundleModel { primary: secondary[0], secondary: secondary.remove(0) })
    } else {
        Err(ErrorModel::ParseError { span, message: empty_struct() })
    }
}

/// A stream one array level deeper.
pub open spec fn deepen_stream(stream: StreamModel) -> StreamModel {
    StreamModel { dimensionality: stream.dimensionality + 1, ..stream }
}

/// A bundle with every stream one array level deeper.
pub open spec fn deepen(bundle: BundleModel) -> BundleModel {
    BundleModel {
        primary: deepen_stream(bundle.primary),
        secondary: Seq::new(
            bundle.secondary.len(),
            |i: int| deepen_stream(bundle.secondary[i]),
        ),
    }
}

/// The bundle of a vector: a length prefix inline, and the element's streams
/// behind it, the element's primary stream first.
pub open spec fn vector_bundle(name: Option<Seq<char>>, span: Span, item: BundleModel)
    -> BundleModel {
    single_field(name, TypeModel::LengthPrefix, span, seq![item.primary] + item.secondary)
}

/// The layout plan of the element `node`, reached under the accumulated
/// `name` at nesting depth `depth`, where elements may nest `limit` deep.
pub open spec fn compile_element(node: NodeModel, name: Option<Seq<char>>, depth: nat, limit: nat)
    -> Outcome
    decreases limit - depth, 0nat,
{
    if !(node.kind is Element) {
        Err(ErrorModel::ParseError { span: node.span, message: expected_element() })
    } else if depth >= limit {
        Err(ErrorModel::SchemaTooDeep { limit })
    } else {
        let (name, at) = scan_names(node.children, 0, name);
        if at >= node.children.len() {
            Err(ErrorModel::ParseError { span: node.span, message: missing_type() })
        } else {
            let body = node.children[at as int];
            match body.kind {
                NodeKind::Bits => match scalar_width(body.text) {
                    Some(bits) => Ok(
                        single_field(name, TypeModel::Scalar(bits as nat), body.span, Seq::empty()),
                    ),
                    None => Err(ErrorModel::InvalidScalarWidth { span: body.span }),
                },
                NodeKind::Struct => compile_members(
                    body.children,
                    0,
                    Seq::empty(),
                    Seq::empty(),
                    name,
                    body.span,
                    depth + 1,
                    limit,
                ),
                NodeKind::Union => if body.children.len() == 0 {
                    Err(ErrorModel::DegenerateUnion { span: body.span })
                } else {
                    compile_branches(
                        body.children,
                        0,
                        Seq::empty(),
                        Seq::empty(),
                        name,
                        body.span,
                        depth + 1,
                        limit,
                    )
                },
                NodeKind::List => if body.children.len() == 0 {
                    Err(ErrorModel::ParseError { span: body.span, message: missing_item() })
                } else {
                    match compile_element(
                        body.children[0],
                        suffixed(name, list_suffix()),
                        depth + 1,
                        limit,
                    ) {
                        Ok(item) => Ok(deepen(item)),
                        Err(e) => Err(e),
                    }
                },
                NodeKind::Vector => if body.children.len() == 0 {
                    Err(ErrorModel::ParseError { span: body.span, message: missing_item() })
                } else {
                    match compile_element(
                        body.children[0],
                        suffixed(name, vector_suffix()),
                        depth + 1,
                        limit,
                    ) {
                        Ok(item) => Ok(vector_bundle(name, body.span, item)),
                        Err(e) => Err(e),
                    }
                },
                _ => Err(ErrorModel::ParseError { span: body.span, message: unexpected_node() }),
            }
        }
    }
}

/// The bundle of a struct at `span` whose members before `i` gave `fields`
/// and `secondary`: the members from `i` on are compiled at `depth`, in
/// order, each under the struct's name.
pub open spec fn compile_members(
    members: Seq<NodeModel>,
    i: nat,
    fields: Seq<FieldModel>,
    secondary: Seq<StreamModel>,
    name: Option<Seq<char>>,
    span: Span,
    depth: nat,
    limit: nat,
) -> Outcome
    decreases limit - depth, members.len() - i + 1,
{
    if i >= members.len() {
        finish_struct(name, span, fields, secondary)
    } else {
        match compile_element(members[i as int], name, depth, limit) {
            Ok(member) => {
                let (fields, secondary) = absorb_member(fields, secondary, member);
                compile_members(members, i + 1, fields, secondary, name, span, depth, limit)
            },
            Err(e) => Err(e),
        }
    }
}

/// The bundle of a union at `span` whose branches before `i` gave `options`
/// and `secondary`: the branches from `i` on are compiled at `depth`, in
/// order, each under the union's name. The union is one field of the primary
/// stream.
pub open spec fn compile_branches(
    branches: Seq<NodeModel>,
    i: nat,
    options: Seq<OptionModel>,
    secondary: Seq<StreamModel>,
    name: Option<Seq<char>>,
    span: Span,
    depth: nat,
    limit: nat,
) -> Outcome
    decreases limit - depth, branches.len() - i + 1,
{
    if i >= branches.len() {
        Ok(single_field(name, TypeModel::TaggedUnion(options), span, secondary))
    } else if branches[i as int].kind is Null {
        compile_branches(
            branches,
            i + 1,
            options.push(OptionModel { name: null_name(), fields: Seq::empty() }),
            secondary,
            name,
            span,
            depth,
            limit,
        )
    } else {
        match compile_element(branches[i as int], name, depth, limit) {
            Ok(branch) => {
                let (options, secondary) = absorb_branch(options, secondary, branch);
                compile_branches(branches, i + 1, options, secondary, name, span, depth, limit)
            },
            Err(e) => Err(e),
        }
    }
}

/// The layout plan of the schema rooted at the element `root`, under an
/// initial name if there is one, where elements may nest `limit` deep.
pub open spec fn compile(root: NodeModel, name: Option<Seq<char>>, limit: nat) -> Outcome {
    compile_element(root, name, 0, limit)
}

/// Whether every stream of `bundle` lies fewer than `bound` array levels deep.
pub open spec fn dims_below(bundle: BundleModel, bound: int) -> bool {
    &&& bundle.primary.dimensionality < bound
    &&& forall|i: int|
        0 <= i < bundle.secondary.len() ==> (#[trigger] bundle.secondary[i]).dimensionality < bound
}

} // verus!
