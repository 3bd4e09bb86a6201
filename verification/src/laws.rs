//! Properties of layout planning that hold of every schema.

use crate::builder::outcome_model;
use crate::error::{CompileError, ErrorModel};
use crate::layout::{
    null_name, BundleModel, FieldModel, OptionModel, Span, StreamBundle, StreamModel, TypeModel,
};
use crate::plan::{
    absorb_branch, absorb_member, compile, compile_branches, compile_element, compile_members,
    deepen, list_suffix, scan_names, suffixed, vector_bundle, vector_suffix,
};
use crate::scalar::scalar_width;
use crate::tree::{Node, NodeKind, NodeModel};
use crate::width::{fields_width, widest_payload};
use vstd::prelude::*;

verus! {

impl TypeModel {
    /// Whether every union in this type, the type itself included, has at
    /// least one option.
    pub open spec fn has_options(self) -> bool
        decreases self,
    {
        match self {
            TypeModel::TaggedUnion(options) => {
                &&& options.len() > 0
                &&& forall|k: int, j: int|
                    0 <= k < options.len() && 0 <= j < options[k].fields.len() ==> (
                    #[trigger] options[k].fields[j]).typ.has_options()
            },
            _ => true,
        }
    }
}

/// Whether every union among the types of `fields` has an option.
pub open spec fn fields_sound(fields: Seq<FieldModel>) -> bool {
    forall|j: int| 0 <= j < fields.len() ==> (#[trigger] fields[j]).typ.has_options()
}

/// Whether `stream` has a field and every union in it has an option.
pub open spec fn stream_sound(stream: StreamModel) -> bool {
    stream.fields.len() > 0 && fields_sound(stream.fields)
}

/// Whether every one of `streams` is sound.
pub open spec fn streams_sound(streams: Seq<StreamModel>) -> bool {
    forall|i: int| 0 <= i < streams.len() ==> stream_sound(#[trigger] streams[i])
}

/// Whether every stream of `bundle` has a field and every union in it has an
/// option.
pub open spec fn bundle_sound(bundle: BundleModel) -> bool {
    stream_sound(bundle.primary) && streams_sound(bundle.secondary)
}

/// A scalar of `bits` bits has no option width and is `bits` wide.
pub proof fn law_scalar_widths(bits: nat)
    requires
        bits >= 1,
    ensures
        TypeModel::Scalar(bits).option_width() == Some(0nat),
        TypeModel::Scalar(bits).data_width() == Some(bits),
        TypeModel::Scalar(bits).width() == Some(bits),
{
}

/// An element whose type is a scalar literal of `bits` bits compiles to one
/// inline field, without option width and `bits` wide, and to no secondary
/// stream.
pub proof fn law_scalar_element(
    node: NodeModel,
    name: Option<Seq<char>>,
    depth: nat,
    limit: nat,
    bits: u32,
)
    requires
        node.kind is Element,
        depth < limit,
        scan_names(node.children, 0, name).1 < node.children.len(),
        node.children[scan_names(node.children, 0, name).1 as int].kind is Bits,
        scalar_width(node.children[scan_names(node.children, 0, name).1 as int].text) == Some(
            bits,
        ),
    ensures
        bits >= 1,
        ({
            &&& compile_element(node, name, depth, limit) matches Ok(bundle)
            &&& bundle.secondary.len() == 0
            &&& bundle.primary.dimensionality == 0
            &&& bundle.primary.fields.len() == 1
            &&& bundle.primary.fields[0].typ == TypeModel::Scalar(bits as nat)
            &&& bundle.primary.fields[0].typ.option_width() == Some(0nat)
            &&& bundle.primary.fields[0].typ.data_width() == Some(bits as nat)
        }),
{
}

/// A union without options is refused as degenerate, at the union's place.
pub proof fn law_union_needs_options(
    node: NodeModel,
    name: Option<Seq<char>>,
    depth: nat,
    limit: nat,
)
    requires
        node.kind is Element,
        depth < limit,
        scan_names(node.children, 0, name).1 < node.children.len(),
        node.children[scan_names(node.children, 0, name).1 as int].kind is Union,
        node.children[scan_names(node.children, 0, name).1 as int].children.len() == 0,
    ensures
        compile_element(node, name, depth, limit) == Err::<BundleModel, ErrorModel>(
            ErrorModel::DegenerateUnion {
                span: node.children[scan_names(node.children, 0, name).1 as int].span,
            },
        ),
{
}

/// A list adds no stream: its bundle is that of its element, compiled one
/// level further down under the name with the list suffix, with every stream
/// one array level deeper and nothing else changed.
pub proof fn law_list_deepens(node: NodeModel, name: Option<Seq<char>>, depth: nat, limit: nat)
    requires
        node.kind is Element,
        depth < limit,
        scan_names(node.children, 0, name).1 < node.children.len(),
        node.children[scan_names(node.children, 0, name).1 as int].kind is List,
        node.children[scan_names(node.children, 0, name).1 as int].children.len() > 0,
    ensures
        ({
            let (inner, at) = scan_names(node.children, 0, name);
            let item = compile_element(
                node.children[at as int].children[0],
                suffixed(inner, list_suffix()),
                depth + 1,
                limit,
            );
            match compile_element(node, name, depth, limit) {
                Ok(bundle) => {
                    &&& item matches Ok(below)
                    &&& bundle.primary.name == below.primary.name
                    &&& bundle.primary.fields == below.primary.fields
                    &&& bundle.primary.dimensionality == below.primary.dimensionality + 1
                    &&& bundle.secondary.len() == below.secondary.len()
                    &&& forall|i: int|
                        0 <= i < below.secondary.len() ==> {
                            &&& (#[trigger] bundle.secondary[i]).name == below.secondary[i].name
                            &&& bundle.secondary[i].fields == below.secondary[i].fields
                            &&& bundle.secondary[i].dimensionality
                                == below.secondary[i].dimensionality + 1
                        }
                },
                Err(e) => item == Err::<BundleModel, ErrorModel>(e),
            }
        }),
{
}

/// A vector adds exactly one stream: its primary stream is one length prefix
/// of 32 bits, its first secondary stream is the primary stream of its
/// element, compiled one level further down under the name with the vector
/// suffix, and the element's secondary streams follow, all at their depth.
pub proof fn law_vector_adds_one_stream(
    node: NodeModel,
    name: Option<Seq<char>>,
    depth: nat,
    limit: nat,
)
    requires
        node.kind is Element,
        depth < limit,
        scan_names(node.children, 0, name).1 < node.children.len(),
        node.children[scan_names(node.children, 0, name).1 as int].kind is Vector,
        node.children[scan_names(node.children, 0, name).1 as int].children.len() > 0,
    ensures
        ({
            let (inner, at) = scan_names(node.children, 0, name);
            let item = compile_element(
                node.children[at as int].children[0],
                suffixed(inner, vector_suffix()),
                depth + 1,
                limit,
            );
            match compile_element(node, name, depth, limit) {
                Ok(bundle) => {
                    &&& item matches Ok(below)
                    &&& bundle.primary.dimensionality == 0
                    &&& bundle.primary.fields.len() == 1
                    &&& bundle.primary.fields[0].typ == TypeModel::LengthPrefix
                    &&& bundle.primary.fields[0].typ.width() == Some(32nat)
                    &&& bundle.secondary.len() == below.secondary.len() + 1
                    &&& bundle.secondary[0] == below.primary
                    &&& forall|i: int|
                        0 <= i < below.secondary.len() ==> #[trigger] bundle.secondary[i + 1]
                            == below.secondary[i]
                },
                Err(e) => item == Err::<BundleModel, ErrorModel>(e),
            }
        }),
{
}

/// Planning is a function of the schema: two trees of the same value,
/// compiled under the same name and limit, give outcomes of the same value.
pub proof fn law_deterministic(
    first: &Node,
    second: &Node,
    name: Option<Seq<char>>,
    limit: nat,
    first_result: Result<StreamBundle, CompileError>,
    second_result: Result<StreamBundle, CompileError>,
)
    requires
        first@ == second@,
        outcome_model(first_result) == compile(first@, name, limit),
        outcome_model(second_result) == compile(second@, name, limit),
    ensures
        outcome_model(first_result) == outcome_model(second_result),
        first_result is Ok <==> second_result is Ok,
        first_result is Ok ==> first_result.unwrap()@ == second_result.unwrap()@,
        first_result is Err ==> first_result.unwrap_err()@ == second_result.unwrap_err()@,
{
}

proof fn lemma_absorb_member_sound(
    fields: Seq<FieldModel>,
    secondary: Seq<StreamModel>,
    member: BundleModel,
)
    requires
        fields_sound(fields),
        streams_sound(secondary),
        bundle_sound(member),
    ensures
        fields_sound(absorb_member(fields, secondary, member).0),
        streams_sound(absorb_member(fields, secondary, member).1),
{
    let (fields2, secondary2) = absorb_member(fields, secondary, member);
    assert forall|j: int| 0 <= j < fields2.len() implies (
    #[trigger] fields2[j]).typ.has_options() by {
        if j >= fields.len() {
            assert(fields2[j] == member.primary.fields[j - fields.len()]);
        }
    }
    assert forall|i: int| 0 <= i < secondary2.len() implies stream_sound(
        #[trigger] secondary2[i],
    ) by {
        if i < secondary.len() {
            assert(secondary2[i] == secondary[i]);
        } else if member.primary.dimensionality == 0 {
            assert(secondary2[i] == member.secondary[i - secondary.len()]);
        } else if i == secondary.len() {
            assert(secondary2[i] == member.primary);
        } else {
            assert(secondary2[i] == member.secondary[i - secondary.len() - 1]);
        }
    }
}

/// Whether every union among the payloads of `options` has an option.
pub open spec fn options_sound(options: Seq<OptionModel>) -> bool {
    forall|k: int| 0 <= k < options.len() ==> fields_sound((#[trigger] options[k]).fields)
}

proof fn lemma_absorb_branch_sound(
    options: Seq<OptionModel>,
    secondary: Seq<StreamModel>,
    branch: BundleModel,
)
    requires
        options_sound(options),
        streams_sound(secondary),
        bundle_sound(branch),
    ensures
        options_sound(absorb_branch(options, secondary, branch).0),
        absorb_branch(options, secondary, branch).0.len() > 0,
        streams_sound(absorb_branch(options, secondary, branch).1),
{
    let (options2, secondary2) = absorb_branch(options, secondary, branch);
    assert forall|k: int| 0 <= k < options2.len() implies fields_sound(
        (#[trigger] options2[k]).fields,
    ) by {
        if k < options.len() {
            assert(options2[k] == options[k]);
        }
    }
    assert forall|i: int| 0 <= i < secondary2.len() implies stream_sound(
        #[trigger] secondary2[i],
    ) by {
        if i < secondary.len() {
            assert(secondary2[i] == secondary[i]);
        } else if branch.primary.dimensionality == 0 {
            assert(secondary2[i] == branch.secondary[i - secondary.len()]);
        } else if i == secondary.len() {
            assert(secondary2[i] == branch.primary);
        } else {
            assert(secondary2[i] == branch.secondary[i - secondary.len() - 1]);
        }
    }
}

proof fn lemma_union_sound(options: Seq<OptionModel>)
    requires
        options.len() > 0,
        options_sound(options),
    ensures
        TypeModel::TaggedUnion(options).has_options(),
{
    assert forall|k: int, j: int|
        0 <= k < options.len() && 0 <= j < options[k].fields.len() implies (
    #[trigger] options[k].fields[j]).typ.has_options() by {
        assert(fields_sound(options[k].fields));
    }
}

proof fn lemma_element_sound(node: NodeModel, name: Option<Seq<char>>, depth: nat, limit: nat)
    ensures
        compile_element(node, name, depth, limit) matches Ok(bundle) ==> bundle_sound(bundle),
    decreases limit - depth, 0nat,
{
    if node.kind is Element && depth < limit {
        let (name, at) = scan_names(node.children, 0, name);
        if at < node.children.len() {
            let body = node.children[at as int];
            match body.kind {
                NodeKind::Struct => {
                    lemma_members_sound(
                        body.children,
                        0,
                        Seq::empty(),
                        Seq::empty(),
                        name,
                        body.span,
                        depth + 1,
                        limit,
                    );
                },
                NodeKind::Union => {
                    if body.children.len() > 0 {
                        lemma_branches_sound(
                            body.children,
                            0,
                            Seq::empty(),
                            Seq::empty(),
                            name,
                            body.span,
                            depth + 1,
                            limit,
                        );
                    }
                },
                NodeKind::List => {
                    if body.children.len() > 0 {
                        let item_name = suffixed(name, list_suffix());
                        lemma_element_sound(body.children[0], item_name, depth + 1, limit);
                        if let Ok(item) = compile_element(
                            body.children[0],
                            item_name,
                            depth + 1,
                            limit,
                        ) {
                            let deeper = deepen(item);
                            assert forall|i: int| 0 <= i < deeper.secondary.len() implies stream_sound(
                                #[trigger] deeper.secondary[i],
                            ) by {
                                assert(stream_sound(item.secondary[i]));
                            }
                        }
                    }
                },
                NodeKind::Vector => {
                    if body.children.len() > 0 {
                        let item_name = suffixed(name, vector_suffix());
                        lemma_element_sound(body.children[0], item_name, depth + 1, limit);
                        if let Ok(item) = compile_element(
                            body.children[0],
                            item_name,
                            depth + 1,
                            limit,
                        ) {
                            let whole = vector_bundle(name, body.span, item);
                            assert forall|i: int| 0 <= i < whole.secondary.len() implies stream_sound(
                                #[trigger] whole.secondary[i],
                            ) by {
                                if i > 0 {
                                    assert(whole.secondary[i] == item.secondary[i - 1]);
                                }
                            }
                        }
                    }
                },
                _ => {},
            }
        }
    }
}

proof fn lemma_members_sound(
    members: Seq<NodeModel>,
    i: nat,
    fields: Seq<FieldModel>,
    secondary: Seq<StreamModel>,
    name: Option<Seq<char>>,
    span: Span,
    depth: nat,
    limit: nat,
)
    requires
        fields_sound(fields),
        streams_sound(secondary),
    ensures
        compile_members(members, i, fields, secondary, name, span, depth, limit) matches Ok(
            bundle,
        ) ==> bundle_sound(bundle),
    decreases limit - depth, members.len() - i + 1,
{
    if i >= members.len() {
        if fields.len() == 0 && secondary.len() > 0 {
            let rest = secondary.remove(0);
            assert(stream_sound(secondary[0]));
            assert forall|k: int| 0 <= k < rest.len() implies stream_sound(#[trigger] rest[k]) by {
                assert(rest[k] == secondary[k + 1]);
            }
        }
    } else {
        lemma_element_sound(members[i as int], name, depth, limit);
        if let Ok(member) = compile_element(members[i as int], name, depth, limit) {
            lemma_absorb_member_sound(fields, secondary, member);
            let (fields2, secondary2) = absorb_member(fields, secondary, member);
            lemma_members_sound(members, i + 1, fields2, secondary2, name, span, depth, limit);
        }
    }
}

proof fn lemma_branches_sound(
    branches: Seq<NodeModel>,
    i: nat,
    options: Seq<OptionModel>,
    secondary: Seq<StreamModel>,
    name: Option<Seq<char>>,
    span: Span,
    depth: nat,
    limit: nat,
)
    requires
        options_sound(options),
        streams_sound(secondary),
        options.len() > 0 || i < branches.len(),
    ensures
        compile_branches(branches, i, options, secondary, name, span, depth, limit) matches Ok(
            bundle,
        ) ==> bundle_sound(bundle),
    decreases limit - depth, branches.len() - i + 1,
{
    if i >= branches.len() {
        lemma_union_sound(options);
    } else if branches[i as int].kind is Null {
        let null = OptionModel { name: null_name(), fields: Seq::empty() };
        let options2 = options.push(null);
        assert forall|k: int| 0 <= k < options2.len() implies fields_sound(
            (#[trigger] options2[k]).fields,
        ) by {
            if k < options.len() {
                assert(options2[k] == options[k]);
            }
        }
        lemma_branches_sound(branches, i + 1, options2, secondary, name, span, depth, limit);
    } else {
        lemma_element_sound(branches[i as int], name, depth, limit);
        if let Ok(branch) = compile_element(branches[i as int], name, depth, limit) {
            lemma_absorb_branch_sound(options, secondary, branch);
            let (options2, secondary2) = absorb_branch(options, secondary, branch);
            lemma_branches_sound(branches, i + 1, options2, secondary2, name, span, depth, limit);
        }
    }
}

/// Every bundle that planning yields is sound: each of its streams has at
/// least one field, and each union in it, however deeply nested, has at least
/// one option, so that every field has an option width.
pub proof fn law_bundle_sound(root: NodeModel, name: Option<Seq<char>>, limit: nat)
    ensures
        compile(root, name, limit) matches Ok(bundle) ==> bundle_sound(bundle),
{
    lemma_element_sound(root, name, 0, limit);
}

proof fn lemma_sound_fields_have_width(fields: Seq<FieldModel>, k: nat)
    requires
        fields_sound(fields),
        k <= fields.len(),
    ensures
        fields_width(fields, k) is Some,
    decreases fields, k,
{
    if k > 0 {
        lemma_sound_fields_have_width(fields, (k - 1) as nat);
        law_sound_type_has_width(fields[k - 1].typ);
    }
}

proof fn lemma_sound_options_have_width(options: Seq<OptionModel>, k: nat)
    requires
        options_sound(options),
        k <= options.len(),
    ensures
        widest_payload(options, k) is Some,
    decreases options, k,
{
    if k > 0 {
        lemma_sound_options_have_width(options, (k - 1) as nat);
        lemma_sound_fields_have_width(options[k - 1].fields, options[k - 1].fields.len());
    }
}

/// A type in which every union has options has an option width, a data
/// width and a width.
pub proof fn law_sound_type_has_width(typ: TypeModel)
    requires
        typ.has_options(),
    ensures
        typ.option_width() is Some,
        typ.data_width() is Some,
        typ.width() is Some,
    decreases typ, 0nat,
{
    match typ {
        TypeModel::TaggedUnion(options) => {
            assert forall|k: int| 0 <= k < options.len() implies fields_sound(
                (#[trigger] options[k]).fields,
            ) by {
                assert forall|j: int| 0 <= j < options[k].fields.len() implies (
                #[trigger] options[k].fields[j]).typ.has_options() by {}
            }
            lemma_sound_options_have_width(options, options.len());
        },
        _ => {},
    }
}

} // verus!
