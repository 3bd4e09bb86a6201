//! The layout planner: from a schema tree to its stream bundle.

use crate::error::{CompileError, ErrorModel};
use crate::laws::{bundle_sound, law_bundle_sound};
use crate::layout::{
    field_models, lemma_field_models_concat, lemma_field_models_push, lemma_option_models_push,
    lemma_stream_models_concat, lemma_stream_models_push, name_model, option_models,
    stream_models, Field, FieldType, Span, Stream, StreamBundle, UnionOption,
};
use crate::plan::{
    compile, compile_branches, compile_element, compile_members, deepen, deepen_stream,
    dims_below, join_name, scan_names, suffixed, Outcome,
};
use crate::scalar::parse_scalar_width;
use crate::tree::{lemma_children_models, Node, NodeKind};
use vstd::prelude::*;
use vstd::string::StringExecFns;

verus! {

/// The depth to which elements may nest where no other limit is given.
pub const DEFAULT_DEPTH_LIMIT: u32 = 128;

/// The mathematical value of what the planner returns.
pub open spec fn outcome_model(res: Result<StreamBundle, CompileError>) -> Outcome {
    match res {
        Ok(bundle) => Ok(bundle@),
        Err(e) => Err(e@),
    }
}

/// A copy of an optional name.
fn clone_name(name: &Option<String>) -> (copy: Option<String>)
    ensures
        name_model(copy) == name_model(*name),
{
    match name {
        Some(n) => Some(n.clone()),
        None => None,
    }
}

/// The name with `suffix` behind it, where there is a name.
fn with_suffix(name: Option<String>, suffix: &str) -> (res: Option<String>)
    ensures
        name_model(res) == suffixed(name_model(name), suffix@),
{
    match name {
        Some(n) => Some(n.concat(suffix)),
        None => None,
    }
}

/// The name extended by `part`, joined by a dot where there is a name.
fn extend_name(name: Option<String>, part: &str) -> (res: String)
    ensures
        res@ == join_name(name_model(name), part@),
{
    match name {
        Some(n) => n.concat(".").concat(part),
        None => String::from_str(part),
    }
}

/// Whether `node` is a name.
fn is_name(node: &Node) -> (yes: bool)
    ensures
        yes == (node@.kind is Name),
{
    proof {
        lemma_children_models(node);
    }
    match node.kind {
        NodeKind::Name => true,
        _ => false,
    }
}

/// The error for a tree that is malformed at `span`.
fn malformed(span: Span, message: &str) -> (e: CompileError)
    ensures
        e@ == (ErrorModel::ParseError { span, message: message@ }),
{
    CompileError::ParseError { span, message: String::from_str(message) }
}

/// Moves every one of `streams` one array level deeper.
fn deepen_streams(streams: &mut Vec<Stream>)
    requires
        forall|i: int|
            0 <= i < old(streams).len() ==> (#[trigger] old(streams)[i]).dimensionality < u32::MAX,
    ensures
        final(streams).len() == old(streams).len(),
        forall|i: int|
            0 <= i < old(streams).len() ==> (#[trigger] final(streams)[i])@ == deepen_stream(
                old(streams)[i]@,
            ),
{
    let mut i: usize = 0;
    while i < streams.len()
        invariant
            i <= streams.len(),
            streams.len() == old(streams).len(),
            forall|j: int| 0 <= j < i ==> (#[trigger] streams[j])@ == deepen_stream(old(streams)[j]@),
            forall|j: int| i <= j < streams.len() ==> streams[j] == old(streams)[j],
            forall|j: int|
                0 <= j < old(streams).len() ==> (#[trigger] old(streams)[j]).dimensionality
                    < u32::MAX,
        decreases streams.len() - i,
    {
        streams[i].dimensionality = streams[i].dimensionality + 1;
        i += 1;
    }
}

/// Compiles the members of the struct `body`, each at `depth` under `name`.
#[verifier::loop_isolation(false)]
fn build_members(body: &Node, name: Option<String>, depth: u32, limit: u32) -> (res: Result<
    StreamBundle,
    CompileError,
>)
    requires
        depth <= limit,
    ensures
        outcome_model(res) == compile_members(
            body@.children,
            0,
            Seq::empty(),
            Seq::empty(),
            name_model(name),
            body.span,
            depth as nat,
            limit as nat,
        ),
        res matches Ok(bundle) ==> dims_below(bundle@, limit - depth + 1),
    decreases limit - depth, body.children.len() + 1,
{
    let ghost goal = compile_members(
        body@.children,
        0,
        Seq::empty(),
        Seq::empty(),
        name_model(name),
        body.span,
        depth as nat,
        limit as nat,
    );
    let mut fields: Vec<Field> = Vec::new();
    let mut secondary: Vec<Stream> = Vec::new();
    let mut i: usize = 0;
    proof {
        lemma_children_models(body);
    }
    assert(field_models(fields@) =~= Seq::empty());
    assert(stream_models(secondary@) =~= Seq::empty());
    while i < body.children.len()
        invariant
            i <= body.children.len(),
            depth <= limit,
            goal == compile_members(
                body@.children,
                i as nat,
                field_models(fields@),
                stream_models(secondary@),
                name_model(name),
                body.span,
                depth as nat,
                limit as nat,
            ),
            forall|j: int|
                0 <= j < secondary.len() ==> (#[trigger] secondary[j]).dimensionality < limit
                    - depth,
        decreases body.children.len() - i,
    {
        let ghost before_fields = fields@;
        let ghost before_secondary = secondary@;
        proof {
            lemma_children_models(body);
        }
        let member = match build_element(&body.children[i], clone_name(&name), depth, limit) {
            Ok(member) => member,
            Err(e) => {
                return Err(e);
            },
        };
        let ghost model = member@;
        let StreamBundle { primary, secondary: mut hoisted } = member;
        let ghost hoisted_before = hoisted@;
        if primary.dimensionality == 0 {
            let mut inline = primary.element_type;
            let ghost inline_before = inline@;
            fields.append(&mut inline);
            proof {
                lemma_field_models_concat(before_fields, inline_before);
            }
        } else {
            secondary.push(primary);
            proof {
                lemma_stream_models_push(before_secondary, primary);
            }
        }
        let ghost middle = secondary@;
        secondary.append(&mut hoisted);
        proof {
            lemma_stream_models_concat(middle, hoisted_before);
            assert forall|j: int| 0 <= j < hoisted_before.len() implies (
            #[trigger] hoisted_before[j]).dimensionality < limit - depth by {
                assert(model.secondary[j] == hoisted_before[j]@);
            }
        }
        i += 1;
    }
    if fields.len() > 0 {
        let mut bundle = StreamBundle::new(name);
        bundle.primary.element_type = fields;
        bundle.secondary = secondary;
        Ok(bundle)
    } else if secondary.len() > 0 {
        let ghost all = secondary@;
        let primary = secondary.remove(0);
        assert(stream_models(secondary@) =~= stream_models(all).remove(0));
        Ok(StreamBundle { primary, secondary })
    } else {
        Err(malformed(body.span, "struct without members"))
    }
}

/// Compiles the branches of the union `body`, each at `depth` under `name`.
#[verifier::loop_isolation(false)]
fn build_branches(body: &Node, name: Option<String>, depth: u32, limit: u32) -> (res: Result<
    StreamBundle,
    CompileError,
>)
    requires
        depth <= limit,
    ensures
        outcome_model(res) == compile_branches(
            body@.children,
            0,
            Seq::empty(),
            Seq::empty(),
            name_model(name),
            body.span,
            depth as nat,
            limit as nat,
        ),
        res matches Ok(bundle) ==> dims_below(bundle@, limit - depth + 1),
    decreases limit - depth, body.children.len() + 1,
{
    let ghost goal = compile_branches(
        body@.children,
        0,
        Seq::empty(),
        Seq::empty(),
        name_model(name),
        body.span,
        depth as nat,
        limit as nat,
    );
    let mut options: Vec<UnionOption> = Vec::new();
    let mut secondary: Vec<Stream> = Vec::new();
    let mut i: usize = 0;
    proof {
        lemma_children_models(body);
    }
    assert(option_models(options@) =~= Seq::empty());
    assert(stream_models(secondary@) =~= Seq::empty());
    while i < body.children.len()
        invariant
            i <= body.children.len(),
            depth <= limit,
            goal == compile_branches(
                body@.children,
                i as nat,
                option_models(options@),
                stream_models(secondary@),
                name_model(name),
                body.span,
                depth as nat,
                limit as nat,
            ),
            forall|j: int|
                0 <= j < secondary.len() ==> (#[trigger] secondary[j]).dimensionality < limit
                    - depth,
        decreases body.children.len() - i,
    {
        let ghost before_options = options@;
        let ghost before_secondary = secondary@;
        proof {
            lemma_children_models(body);
        }
        match body.children[i].kind {
            NodeKind::Null => {
                let option = UnionOption::null();
                options.push(option);
                proof {
                    lemma_option_models_push(before_options, option);
                }
            },
            _ => {
                let branch = match build_element(
                    &body.children[i],
                    clone_name(&name),
                    depth,
                    limit,
                ) {
                    Ok(branch) => branch,
                    Err(e) => {
                        return Err(e);
                    },
                };
                let ghost model = branch@;
                let StreamBundle { primary, secondary: mut hoisted } = branch;
                let ghost hoisted_before = hoisted@;
                if primary.dimensionality == 0 {
                    let option = UnionOption {
                        name: primary.name,
                        element_type: primary.element_type,
                    };
                    options.push(option);
                    proof {
                        lemma_option_models_push(before_options, option);
                    }
                } else {
                    let option = UnionOption { name: primary.name.clone(), element_type: Vec::new() };
                    assert(field_models(option.element_type@) =~= Seq::empty());
                    options.push(option);
                    secondary.push(primary);
                    proof {
                        lemma_option_models_push(before_options, option);
                        lemma_stream_models_push(before_secondary, primary);
                    }
                }
                let ghost middle = secondary@;
                secondary.append(&mut hoisted);
                proof {
                    lemma_stream_models_concat(middle, hoisted_before);
                    assert forall|j: int| 0 <= j < hoisted_before.len() implies (
                    #[trigger] hoisted_before[j]).dimensionality < limit - depth by {
                        assert(model.secondary[j] == hoisted_before[j]@);
                    }
                }
            },
        }
        i += 1;
    }
    let mut bundle = StreamBundle::new(clone_name(&name));
    let field = Field::new(FieldType::Union(options), name, body.span);
    let ghost empty = bundle.primary.element_type@;
    bundle.primary.element_type.push(field);
    bundle.secondary = secondary;
    proof {
        lemma_field_models_push(empty, field);
        assert(field_models(empty) =~= Seq::empty());
        assert(bundle@.primary.fields =~= seq![field@]);
    }
    Ok(bundle)
}

/// Compiles the element `node`, reached under `name` at `depth`.
#[verifier::loop_isolation(false)]
fn build_element(node: &Node, name: Option<String>, depth: u32, limit: u32) -> (res: Result<
    StreamBundle,
    CompileError,
>)
    requires
        depth <= limit,
    ensures
        outcome_model(res) == compile_element(
            node@,
            name_model(name),
            depth as nat,
            limit as nat,
        ),
        res matches Ok(bundle) ==> dims_below(bundle@, limit - depth),
    decreases limit - depth, 0nat,
{
    match node.kind {
        NodeKind::Element => {},
        _ => {
            return Err(malformed(node.span, "expected an element"));
        },
    }
    if depth >= limit {
        return Err(CompileError::SchemaTooDeep { limit });
    }
    let ghost given = name_model(name);
    let mut name = name;
    let mut at: usize = 0;
    proof {
        lemma_children_models(node);
    }
    while at < node.children.len() && is_name(&node.children[at])
        invariant
            at <= node.children.len(),
            scan_names(node@.children, 0, given) == scan_names(
                node@.children,
                at as nat,
                name_model(name),
            ),
        decreases node.children.len() - at,
    {
        proof {
            lemma_children_models(&node.children[at as int]);
        }
        name = Some(extend_name(name, node.children[at].text.as_str()));
        at += 1;
    }
    if at >= node.children.len() {
        return Err(malformed(node.span, "element without a type"));
    }
    let body = &node.children[at];
    proof {
        lemma_children_models(node);
        lemma_children_models(body);
    }
    match body.kind {
        NodeKind::Bits => match parse_scalar_width(body.text.as_str()) {
            Some(bits) => {
                let mut bundle = StreamBundle::new(clone_name(&name));
                let field = Field::new(FieldType::Bits(bits), name, body.span);
                let ghost empty = bundle.primary.element_type@;
                bundle.primary.element_type.push(field);
                proof {
                    lemma_field_models_push(empty, field);
                    assert(field_models(empty) =~= Seq::empty());
                    assert(bundle@.primary.fields =~= seq![field@]);
                }
                Ok(bundle)
            },
            None => Err(CompileError::InvalidScalarWidth { span: body.span }),
        },
        NodeKind::Struct => build_members(body, name, depth + 1, limit),
        NodeKind::Union => {
            if body.children.len() == 0 {
                Err(CompileError::DegenerateUnion { span: body.span })
            } else {
                build_branches(body, name, depth + 1, limit)
            }
        },
        NodeKind::List => {
            if body.children.len() == 0 {
                return Err(malformed(body.span, "array without an element"));
            }
            let mut bundle = match build_element(
                &body.children[0],
                with_suffix(name, "[]"),
                depth + 1,
                limit,
            ) {
                Ok(bundle) => bundle,
                Err(e) => {
                    return Err(e);
                },
            };
            let ghost item = bundle@;
            let ghost streams = bundle.secondary@;
            proof {
                assert forall|j: int| 0 <= j < streams.len() implies (
                #[trigger] streams[j]).dimensionality < limit - depth - 1 by {
                    assert(item.secondary[j] == streams[j]@);
                }
            }
            bundle.primary.dimensionality = bundle.primary.dimensionality + 1;
            deepen_streams(&mut bundle.secondary);
            assert(bundle@.secondary =~= deepen(item).secondary);
            Ok(bundle)
        },
        NodeKind::Vector => {
            if body.children.len() == 0 {
                return Err(malformed(body.span, "array without an element"));
            }
            let mut bundle = StreamBundle::new(clone_name(&name));
            let field = Field::new(FieldType::Length, clone_name(&name), body.span);
            let ghost empty = bundle.primary.element_type@;
            bundle.primary.element_type.push(field);
            proof {
                lemma_field_models_push(empty, field);
                assert(field_models(empty) =~= Seq::empty());
                assert(bundle@.primary.fields =~= seq![field@]);
            }
            let item = match build_element(
                &body.children[0],
                with_suffix(name, "<>"),
                depth + 1,
                limit,
            ) {
                Ok(item) => item,
                Err(e) => {
                    return Err(e);
                },
            };
            let ghost model = item@;
            let StreamBundle { primary, secondary: mut hoisted } = item;
            let ghost hoisted_before = hoisted@;
            bundle.secondary.push(primary);
            let ghost middle = bundle.secondary@;
            bundle.secondary.append(&mut hoisted);
            proof {
                lemma_stream_models_concat(middle, hoisted_before);
                assert(stream_models(middle) =~= seq![model.primary]);
                assert forall|j: int| 0 <= j < hoisted_before.len() implies (
                #[trigger] hoisted_before[j]).dimensionality < limit - depth - 1 by {
                    assert(model.secondary[j] == hoisted_before[j]@);
                }
            }
            Ok(bundle)
        },
        _ => Err(malformed(body.span, "unexpected node in place of a type")),
    }
}

/// Compiles the schema rooted at the element `node` into its stream bundle,
/// under the initial `name` if there is one. Elements may nest `limit` deep.
///
/// The outcome is the plan of the tree, or the first error met in source
/// order. In a plan every stream lies fewer than `limit` array levels deep
/// and has a field, and every union has an option.
pub fn to_bundle_with_limit(node: &Node, name: Option<&str>, limit: u32) -> (res: Result<
    StreamBundle,
    CompileError,
>)
    ensures
        outcome_model(res) == compile(
            node@,
            match name {
                Some(n) => Some(n@),
                None => None,
            },
            limit as nat,
        ),
        res matches Ok(bundle) ==> dims_below(bundle@, limit as int) && bundle_sound(bundle@),
{
    let text = match name {
        Some(n) => Some(String::from_str(n)),
        None => None,
    };
    proof {
        law_bundle_sound(node@, name_model(text), limit as nat);
    }
    build_element(node, text, 0, limit)
}

/// Compiles the schema rooted at the element `node` into its stream bundle,
/// under the initial `name` if there is one. Elements may nest
/// [`DEFAULT_DEPTH_LIMIT`] deep.
pub fn to_bundle(node: &Node, name: Option<&str>) -> (res: Result<StreamBundle, CompileError>)
    ensures
        outcome_model(res) == compile(
            node@,
            match name {
                Some(n) => Some(n@),
                None => None,
            },
            DEFAULT_DEPTH_LIMIT as nat,
        ),
        res matches Ok(bundle) ==> dims_below(bundle@, DEFAULT_DEPTH_LIMIT as int) && bundle_sound(
            bundle@,
        ),
{
    to_bundle_with_limit(node, name, DEFAULT_DEPTH_LIMIT)
}

} // verus!
