//! The entities of a layout plan and their mathematical views.

use vstd::prelude::*;
use vstd::string::StringExecFns;

verus! {

/// Byte offsets of a schema node in the source text.
#[derive(Clone, Copy, Debug, PartialEq, Eq)]
pub struct Span {
    pub start: usize,
    pub end: usize,
}

/// One alternative of a tagged union.
#[derive(Debug, PartialEq, Eq)]
pub struct UnionOption {
    pub name: String,
    pub element_type: Vec<Field>,
}

/// The type of a field.
#[derive(Debug, PartialEq, Eq)]
pub enum FieldType {
    /// A fixed-width opaque value of the given number of bits.
    Bits(u32),
    /// The element count that precedes every vector.
    Length,
    /// A discriminated choice between overlapping alternatives.
    Union(Vec<UnionOption>),
}

/// One member of a record.
#[derive(Debug, PartialEq, Eq)]
pub struct Field {
    pub name: String,
    pub typ: FieldType,
    pub start: usize,
    pub end: usize,
}

/// One homogeneous, independently iterable sequence of records.
#[derive(Debug, PartialEq, Eq)]
pub struct Stream {
    pub name: String,
    pub element_type: Vec<Field>,
    pub dimensionality: u32,
}

/// A layout plan: the inline stream and the streams hoisted out of it.
#[derive(Debug, PartialEq, Eq)]
pub struct StreamBundle {
    pub primary: Stream,
    pub secondary: Vec<Stream>,
}

/// Mathematical value of a [`UnionOption`].
pub ghost struct OptionModel {
    pub name: Seq<char>,
    pub fields: Seq<FieldModel>,
}

/// Mathematical value of a [`FieldType`].
pub ghost enum TypeModel {
    Scalar(nat),
    LengthPrefix,
    TaggedUnion(Seq<OptionModel>),
}

/// Mathematical value of a [`Field`].
pub ghost struct FieldModel {
    pub name: Seq<char>,
    pub typ: TypeModel,
    pub span: Span,
}

/// Mathematical value of a [`Stream`].
pub ghost struct StreamModel {
    pub name: Seq<char>,
    pub fields: Seq<FieldModel>,
    pub dimensionality: nat,
}

/// Mathematical value of a [`StreamBundle`].
pub ghost struct BundleModel {
    pub primary: StreamModel,
    pub secondary: Seq<StreamModel>,
}

/// The values of a sequence of fields, in order.
pub open spec fn field_models(fields: Seq<Field>) -> Seq<FieldModel>
    decreases fields,
{
    Seq::new(
        fields.len(),
        |i: int|
            if 0 <= i < fields.len() {
                fields[i]@
            } else {
                arbitrary()
            },
    )
}

/// The values of a sequence of union options, in order.
pub open spec fn option_models(options: Seq<UnionOption>) -> Seq<OptionModel>
    decreases options,
{
    Seq::new(
        options.len(),
        |i: int|
            if 0 <= i < options.len() {
                options[i]@
            } else {
                arbitrary()
            },
    )
}

/// The values of a sequence of streams, in order.
pub open spec fn stream_models(streams: Seq<Stream>) -> Seq<StreamModel> {
    Seq::new(streams.len(), |i: int| streams[i]@)
}

impl View for UnionOption {
    type V = OptionModel;

    open spec fn view(&self) -> OptionModel
        decreases self,
    {
        OptionModel { name: self.name@, fields: field_models(self.element_type@) }
    }
}

impl View for FieldType {
    type V = TypeModel;

    open spec fn view(&self) -> TypeModel
        decreases self,
    {
        match self {
            FieldType::Bits(w) => TypeModel::Scalar(*w as nat),
            FieldType::Length => TypeModel::LengthPrefix,
            FieldType::Union(options) => TypeModel::TaggedUnion(option_models(options@)),
        }
    }
}

impl View for Field {
    type V = FieldModel;

    open spec fn view(&self) -> FieldModel
        decreases self,
    {
        FieldModel {
            name: self.name@,
            typ: self.typ@,
            span: Span { start: self.start, end: self.end },
        }
    }
}

impl View for Stream {
    type V = StreamModel;

    open spec fn view(&self) -> StreamModel {
        StreamModel {
            name: self.name@,
            fields: field_models(self.element_type@),
            dimensionality: self.dimensionality as nat,
        }
    }
}

impl View for StreamBundle {
    type V = BundleModel;

    open spec fn view(&self) -> BundleModel {
        BundleModel { primary: self.primary@, secondary: stream_models(self.secondary@) }
    }
}

/// The name that an unnamed schema root goes by.
pub open spec fn root_name() -> Seq<char> {
    "root"@
}

/// The name of the option that carries no payload.
pub open spec fn null_name() -> Seq<char> {
    "<NULL>"@
}

/// The characters of an optional name.
pub open spec fn name_model(name: Option<String>) -> Option<Seq<char>> {
    match name {
        Some(n) => Some(n@),
        None => None,
    }
}

/// The given name, or the root's name where none is given.
pub open spec fn name_or_root(name: Option<Seq<char>>) -> Seq<char> {
    match name {
        Some(n) => n,
        None => root_name(),
    }
}

/// A stream of the given name and depth that has no fields yet.
pub open spec fn empty_stream(name: Option<Seq<char>>, dimensionality: nat) -> StreamModel {
    StreamModel { name: name_or_root(name), fields: Seq::empty(), dimensionality }
}

/// A bundle whose primary stream has no fields yet and that has no secondary
/// streams.
pub open spec fn empty_bundle(name: Option<Seq<char>>) -> BundleModel {
    BundleModel { primary: empty_stream(name, 0), secondary: Seq::empty() }
}

/// The values of fields with one more are the values with its value more.
pub proof fn lemma_field_models_push(fields: Seq<Field>, field: Field)
    ensures
        field_models(fields.push(field)) == field_models(fields).push(field@),
{
    assert(field_models(fields.push(field)) =~= field_models(fields).push(field@));
}

/// The values of two runs of fields joined are their values joined.
pub proof fn lemma_field_models_concat(front: Seq<Field>, back: Seq<Field>)
    ensures
        field_models(front + back) == field_models(front) + field_models(back),
{
    assert(field_models(front + back) =~= field_models(front) + field_models(back));
}

/// The values of options with one more are the values with its value more.
pub proof fn lemma_option_models_push(options: Seq<UnionOption>, option: UnionOption)
    ensures
        option_models(options.push(option)) == option_models(options).push(option@),
{
    assert(option_models(options.push(option)) =~= option_models(options).push(option@));
}

/// The values of streams with one more are the values with its value more.
pub proof fn lemma_stream_models_push(streams: Seq<Stream>, stream: Stream)
    ensures
        stream_models(streams.push(stream)) == stream_models(streams).push(stream@),
{
    assert(stream_models(streams.push(stream)) =~= stream_models(streams).push(stream@));
}

/// The values of two runs of streams joined are their values joined.
pub proof fn lemma_stream_models_concat(front: Seq<Stream>, back: Seq<Stream>)
    ensures
        stream_models(front + back) == stream_models(front) + stream_models(back),
{
    assert(stream_models(front + back) =~= stream_models(front) + stream_models(back));
}

fn name_or_default(name: Option<String>) -> (text: String)
    ensures
        text@ == name_or_root(name_model(name)),
{
    match name {
        Some(n) => n,
        None => String::from_str("root"),
    }
}

impl UnionOption {
    /// The option that stands for the absence of a value.
    pub fn null() -> (option: UnionOption)
        ensures
            option@ == (OptionModel { name: null_name(), fields: Seq::empty() }),
    {
        let option = UnionOption { name: String::from_str("<NULL>"), element_type: Vec::new() };
        assert(field_models(option.element_type@) =~= Seq::empty());
        option
    }
}

impl Field {
    /// A field of the given type that covers `span`, named `name` or, without
    /// a name, after the root.
    pub fn new(typ: FieldType, name: Option<String>, span: Span) -> (field: Field)
        ensures
            field@ == (FieldModel { name: name_or_root(name_model(name)), typ: typ@, span }),
    {
        Field { name: name_or_default(name), typ, start: span.start, end: span.end }
    }
}

impl Stream {
    /// A stream without fields, named `name` or, without a name, after the
    /// root.
    pub fn new(name: Option<String>, dimensionality: u32) -> (stream: Stream)
        ensures
            stream@ == empty_stream(name_model(name), dimensionality as nat),
    {
        let stream = Stream { name: name_or_default(name), element_type: Vec::new(), dimensionality };
        assert(field_models(stream.element_type@) =~= Seq::empty());
        stream
    }
}

impl StreamBundle {
    /// A bundle whose primary stream is empty and sits at depth zero.
    pub fn new(name: Option<String>) -> (bundle: StreamBundle)
        ensures
            bundle@ == empty_bundle(name_model(name)),
    {
        let bundle = StreamBundle { primary: Stream::new(name, 0), secondary: Vec::new() };
        assert(stream_models(bundle.secondary@) =~= Seq::empty());
        bundle
    }
}

} // verus!
