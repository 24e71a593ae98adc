//! The documentation model: a tree of modules whose items gather the
//! declarations that share a name.
use vstd::prelude::*;
use indexmap::IndexSet;
use crate::conditional::{Cond, Conditional, Ident, opt_cond};
use crate::text::text_views;
use crate::views::{
    AttributeView, ExpressionView, TypeView, attribute_views, expression_view,
    opt_expression_view, opt_type_view, type_view,
};

verus! {

/// A semantic version: three numbers, a pre-release tag and build
/// metadata, both empty where there is none.
#[derive(Debug, Clone, PartialEq, Eq, Hash)]
pub struct Version {
    pub major: u64,
    pub minor: u64,
    pub patch: u64,
    pub pre: String,
    pub build: String,
}

/// The mathematical form of a [`Version`].
pub struct VersionView {
    pub major: u64,
    pub minor: u64,
    pub patch: u64,
    pub pre: Seq<char>,
    pub build: Seq<char>,
}

impl View for Version {
    type V = VersionView;

    open spec fn view(&self) -> VersionView {
        VersionView {
            major: self.major,
            minor: self.minor,
            patch: self.patch,
            pre: self.pre@,
            build: self.build@,
        }
    }
}

impl Version {
    /// A version of three numbers without tags.
    pub fn new(major: u64, minor: u64, patch: u64) -> (r: Version)
        ensures
            r@ == (VersionView { major, minor, patch, pre: Seq::empty(), build: Seq::empty() }),
    {
        Version { major, minor, patch, pre: String::new(), build: String::new() }
    }

    /// A copy with the same contents.
    pub fn duplicate(&self) -> (r: Version)
        ensures
            r@ == self@,
    {
        Version {
            major: self.major,
            minor: self.minor,
            patch: self.patch,
            pre: self.pre.clone(),
            build: self.build.clone(),
        }
    }
}

/// The kinds of things that a path can lead to.
#[derive(Debug, Clone, Copy, PartialEq, Eq, Structural)]
pub enum ItemKind {
    Module,
    Constant,
    Override,
    GlobalVariable,
    Struct,
    Function,
    TypeAlias,
}

/// The lines of the source that a declaration covers, counted from one,
/// both ends included.
#[derive(Debug, Clone, Copy, PartialEq, Eq, Structural)]
pub struct Span {
    pub line_start: usize,
    pub line_end: usize,
}

/// Where a declaration lives: inside this package, or inside a dependency
/// at its resolved version.
#[derive(Debug, Clone, PartialEq, Eq)]
pub enum DefinitionPath {
    Absolute(Vec<String>),
    Package(String, Version, Vec<String>),
}

/// The mathematical form of a [`DefinitionPath`].
pub enum PathView {
    Absolute(Seq<Seq<char>>),
    Package(Seq<char>, VersionView, Seq<Seq<char>>),
}

impl View for DefinitionPath {
    type V = PathView;

    open spec fn view(&self) -> PathView {
        match self {
            DefinitionPath::Absolute(segments) => PathView::Absolute(text_views(segments@)),
            DefinitionPath::Package(name, version, segments) => PathView::Package(
                name@,
                version@,
                text_views(segments@),
            ),
        }
    }
}

/// The address space of a global variable.
#[derive(Debug, Clone, Copy, PartialEq, Eq, Structural)]
pub enum AddressSpace {
    Function,
    Private,
    WorkGroup,
    Uniform,
    Storage { load: bool, store: bool },
    Handle,
    PushConstant,
}

/// A literal value. Floating-point literals are held by their bit patterns.
#[derive(Debug, Clone, Copy, PartialEq, Eq, Structural)]
pub enum Literal {
    Bool(bool),
    AbstractInt(i64),
    AbstractFloat(u64),
    I32(i32),
    U32(u32),
    F32(u32),
    F16(u32),
}

/// An initializer or attribute argument.
#[derive(Debug, PartialEq, Eq)]
pub enum Expression {
    Literal(Literal),
    Parenthesized(Box<Expression>),
    TypeOrIdentifier(TypeExpression),
    NotExpanded(Option<Span>),
}

/// A reference to a type or value: left as written, or resolved to the
/// place of its declaration.
#[derive(Debug, PartialEq, Eq)]
pub enum TypeExpression {
    TypeIdentifier { name: Ident, template_args: Option<Vec<Expression>> },
    Referenced { name: Ident, kind: ItemKind, def_path: DefinitionPath },
}

#[derive(Debug, Clone, Copy, PartialEq, Eq, Structural)]
pub enum BuiltinValue {
    VertexIndex,
    InstanceIndex,
    ClipDistances,
    Position,
    FrontFacing,
    FragDepth,
    SampleIndex,
    SampleMask,
    LocalInvocationId,
    LocalInvocationIndex,
    GlobalInvocationId,
    WorkgroupId,
    NumWorkgroups,
    SubgroupInvocationId,
    SubgroupSize,
}

#[derive(Debug, Clone, Copy, PartialEq, Eq, Structural)]
pub enum DiagnosticSeverity {
    Error,
    Warning,
    Info,
    Off,
}

#[derive(Debug, Clone, Copy, PartialEq, Eq, Structural)]
pub enum InterpolationType {
    Perspective,
    Linear,
    Flat,
}

#[derive(Debug, Clone, Copy, PartialEq, Eq, Structural)]
pub enum InterpolationSampling {
    Center,
    Centroid,
    Sample,
    First,
    Either,
}

/// An attribute of a declaration, the conditional markers left out.
#[derive(Debug, PartialEq, Eq)]
pub enum Attribute {
    Align(Expression),
    Binding(Expression),
    BlendSrc(Expression),
    Builtin(BuiltinValue),
    Const,
    Diagnostic { severity: DiagnosticSeverity, rule: String },
    Group(Expression),
    Id(Expression),
    Interpolate { ty: InterpolationType, sampling: Option<InterpolationSampling> },
    Invariant,
    Location(Expression),
    MustUse,
    Size(Expression),
    WorkgroupSize { x: Expression, y: Option<Expression>, z: Option<Expression> },
    Vertex,
    Fragment,
    Compute,
    Custom { name: String, arguments: Option<Vec<Expression>> },
}

/// A link of a doc comment: what it is written to lead to, and the token
/// of the declaration that this resolves to, where it resolves.
#[derive(Debug, Clone, PartialEq, Eq)]
pub struct DocLink {
    pub target: String,
    pub token: Option<String>,
}

/// The mathematical form of a [`DocLink`].
pub struct LinkView {
    pub target: Seq<char>,
    pub token: Option<Seq<char>>,
}

impl View for DocLink {
    type V = LinkView;

    open spec fn view(&self) -> LinkView {
        LinkView {
            target: self.target@,
            token: match self.token {
                Some(t) => Some(t@),
                None => None,
            },
        }
    }
}

/// A doc comment: its text, which is markdown, without the comment
/// markers and joined by line feeds, and its links in their order.
#[derive(Debug, Clone, PartialEq, Eq)]
pub struct DocComment {
    pub text: String,
    pub links: Vec<DocLink>,
}

/// The mathematical form of a [`DocComment`].
pub struct DocView {
    pub text: Seq<char>,
    pub links: Seq<LinkView>,
}

impl View for DocComment {
    type V = DocView;

    open spec fn view(&self) -> DocView {
        DocView { text: self.text@, links: Seq::new(self.links@.len(), |i: int| self.links@[i]@) }
    }
}

/// The declarations that share one name, with the conditional under which
/// at least one of them is visible (absent: always).
#[derive(Debug, PartialEq, Eq)]
pub struct Item<T> {
    pub instances: Vec<T>,
    pub conditional: Option<Conditional>,
}

impl<T> Default for Item<T> {
    /// An item without declarations and without a conditional.
    fn default() -> (r: Item<T>)
        ensures
            r.instances@.len() == 0,
            r.conditional.is_none(),
    {
        Item { instances: Vec::new(), conditional: None }
    }
}

/// The mathematical form of a member of a struct.
pub struct MemberView {
    pub name: Seq<char>,
    pub ty: TypeView,
    pub attributes: Seq<AttributeView>,
    pub conditional: Option<Cond>,
    pub comment: Option<DocView>,
}

/// The mathematical form of a parameter of a function.
pub struct ParameterView {
    pub name: Seq<char>,
    pub ty: TypeView,
    pub attributes: Seq<AttributeView>,
    pub conditional: Option<Cond>,
}

/// The mathematical form of a declaration of any kind. What a kind does
/// not have is absent or empty.
pub struct InstanceView {
    pub kind: ItemKind,
    pub name: Seq<char>,
    pub space: Option<AddressSpace>,
    pub ty: Option<TypeView>,
    pub init: Option<ExpressionView>,
    pub members: Seq<MemberView>,
    pub parameters: Seq<ParameterView>,
    pub attributes: Seq<AttributeView>,
    pub return_attributes: Seq<AttributeView>,
    pub conditional: Option<Cond>,
    pub comment: Option<DocView>,
    pub span: Option<Span>,
}

/// The view of an optional doc comment.
pub open spec fn comment_view(c: Option<DocComment>) -> Option<DocView> {
    match c {
        Some(c) => Some(c@),
        None => None,
    }
}

impl View for StructMember {
    type V = MemberView;

    open spec fn view(&self) -> MemberView {
        MemberView {
            name: self.name@,
            ty: type_view(self.ty),
            attributes: attribute_views(self.attributes@),
            conditional: opt_cond(self.conditional),
            comment: comment_view(self.comment),
        }
    }
}

impl View for FunctionParameter {
    type V = ParameterView;

    open spec fn view(&self) -> ParameterView {
        ParameterView {
            name: self.name@,
            ty: type_view(self.ty),
            attributes: attribute_views(self.attributes@),
            conditional: opt_cond(self.conditional),
        }
    }
}

/// The views of a list of members.
pub open spec fn member_views(v: Seq<StructMember>) -> Seq<MemberView> {
    Seq::new(v.len(), |i: int| v[i]@)
}

/// The views of a list of parameters.
pub open spec fn parameter_views(v: Seq<FunctionParameter>) -> Seq<ParameterView> {
    Seq::new(v.len(), |i: int| v[i]@)
}

/// What every kind of declaration offers to the code that merges items.
pub trait ItemInstance {
    /// The mathematical form of the declaration.
    spec fn instance_view(&self) -> InstanceView;

    /// The kind of item that the declaration belongs to.
    fn item_kind(&self) -> (r: ItemKind)
        ensures
            r == self.instance_view().kind,
    ;

    fn name(&self) -> (r: &Ident)
        ensures
            r@ == self.instance_view().name,
    ;

    fn conditional(&self) -> (r: Option<&Conditional>)
        ensures
            r.is_some() == self.instance_view().conditional.is_some(),
            r.is_some() ==> r.unwrap()@ == self.instance_view().conditional.unwrap(),
    ;

    fn comment(&self) -> (r: Option<&DocComment>)
        ensures
            r.is_some() == self.instance_view().comment.is_some(),
            r.is_some() ==> r.unwrap()@ == self.instance_view().comment.unwrap(),
    ;
}

/// The views of a list of declarations.
pub open spec fn instance_views<T: ItemInstance>(v: Seq<T>) -> Seq<InstanceView> {
    Seq::new(v.len(), |i: int| v[i].instance_view())
}

/// The declarations of each item of a list, as views.
pub open spec fn item_views<T: ItemInstance>(items: Seq<Item<T>>) -> Seq<Seq<InstanceView>> {
    Seq::new(items.len(), |i: int| instance_views(items[i].instances@))
}

/// The name of each group: that of its first declaration.
pub open spec fn group_names(groups: Seq<Seq<InstanceView>>) -> Seq<Seq<char>> {
    Seq::new(
        groups.len(),
        |i: int|
            if groups[i].len() > 0 {
                groups[i][0].name
            } else {
                Seq::empty()
            },
    )
}

/// The conditionals of the items of a list.
pub open spec fn item_conditionals<T>(items: Seq<Item<T>>) -> Seq<Option<Cond>> {
    Seq::new(items.len(), |i: int| opt_cond(items[i].conditional))
}

#[derive(Debug, PartialEq, Eq)]
pub struct Constant {
    pub name: Ident,
    pub ty: Option<TypeExpression>,
    pub init: Expression,
    pub attributes: Vec<Attribute>,
    pub conditional: Option<Conditional>,
    pub comment: Option<DocComment>,
    pub span: Option<Span>,
}

#[derive(Debug, PartialEq, Eq)]
pub struct Override {
    pub name: Ident,
    pub ty: Option<TypeExpression>,
    pub init: Option<Expression>,
    pub attributes: Vec<Attribute>,
    pub conditional: Option<Conditional>,
    pub comment: Option<DocComment>,
    pub span: Option<Span>,
}

#[derive(Debug, PartialEq, Eq)]
pub struct GlobalVariable {
    pub name: Ident,
    pub space: AddressSpace,
    pub ty: Option<TypeExpression>,
    pub init: Option<Expression>,
    pub attributes: Vec<Attribute>,
    pub conditional: Option<Conditional>,
    pub comment: Option<DocComment>,
    pub span: Option<Span>,
}

#[derive(Debug, PartialEq, Eq)]
pub struct StructMember {
    pub name: Ident,
    pub ty: TypeExpression,
    pub attributes: Vec<Attribute>,
    pub conditional: Option<Conditional>,
    pub comment: Option<DocComment>,
}

#[derive(Debug, PartialEq, Eq)]
pub struct Struct {
    pub name: Ident,
    pub members: Vec<StructMember>,
    pub attributes: Vec<Attribute>,
    pub conditional: Option<Conditional>,
    pub comment: Option<DocComment>,
    pub span: Option<Span>,
}

#[derive(Debug, PartialEq, Eq)]
pub struct FunctionParameter {
    pub name: Ident,
    pub ty: TypeExpression,
    pub attributes: Vec<Attribute>,
    pub conditional: Option<Conditional>,
}

#[derive(Debug, PartialEq, Eq)]
pub struct Function {
    pub name: Ident,
    pub parameters: Vec<FunctionParameter>,
    pub ret: Option<TypeExpression>,
    pub attributes: Vec<Attribute>,
    pub return_attributes: Vec<Attribute>,
    pub conditional: Option<Conditional>,
    pub comment: Option<DocComment>,
    pub span: Option<Span>,
}

#[derive(Debug, PartialEq, Eq)]
pub struct TypeAlias {
    pub name: Ident,
    pub ty: TypeExpression,
    pub attributes: Vec<Attribute>,
    pub conditional: Option<Conditional>,
    pub comment: Option<DocComment>,
    pub span: Option<Span>,
}

impl ItemInstance for Constant {
    open spec fn instance_view(&self) -> InstanceView {
        InstanceView {
            kind: ItemKind::Constant,
            name: self.name@,
            space: None,
            ty: opt_type_view(self.ty),
            init: Some(expression_view(self.init)),
            members: Seq::empty(),
            parameters: Seq::empty(),
            attributes: attribute_views(self.attributes@),
            return_attributes: Seq::empty(),
            conditional: opt_cond(self.conditional),
            comment: comment_view(self.comment),
            span: self.span,
        }
    }

    fn item_kind(&self) -> (r: ItemKind) {
        ItemKind::Constant
    }

    fn name(&self) -> (r: &Ident) {
        &self.name
    }

    fn conditional(&self) -> (r: Option<&Conditional>) {
        self.conditional.as_ref()
    }

    fn comment(&self) -> (r: Option<&DocComment>) {
        self.comment.as_ref()
    }
}

impl ItemInstance for Override {
    open spec fn instance_view(&self) -> InstanceView {
        InstanceView {
            kind: ItemKind::Override,
            name: self.name@,
            space: None,
            ty: opt_type_view(self.ty),
            init: opt_expression_view(self.init),
            members: Seq::empty(),
            parameters: Seq::empty(),
            attributes: attribute_views(self.attributes@),
            return_attributes: Seq::empty(),
            conditional: opt_cond(self.conditional),
            comment: comment_view(self.comment),
            span: self.span,
        }
    }

    fn item_kind(&self) -> (r: ItemKind) {
        ItemKind::Override
    }

    fn name(&self) -> (r: &Ident) {
        &self.name
    }

    fn conditional(&self) -> (r: Option<&Conditional>) {
        self.conditional.as_ref()
    }

    fn comment(&self) -> (r: Option<&DocComment>) {
        self.comment.as_ref()
    }
}

impl ItemInstance for GlobalVariable {
    open spec fn instance_view(&self) -> InstanceView {
        InstanceView {
            kind: ItemKind::GlobalVariable,
            name: self.name@,
            space: Some(self.space),
            ty: opt_type_view(self.ty),
            init: opt_expression_view(self.init),
            members: Seq::empty(),
            parameters: Seq::empty(),
            attributes: attribute_views(self.attributes@),
            return_attributes: Seq::empty(),
            conditional: opt_cond(self.conditional),
            comment: comment_view(self.comment),
            span: self.span,
        }
    }

    fn item_kind(&self) -> (r: ItemKind) {
        ItemKind::GlobalVariable
    }

    fn name(&self) -> (r: &Ident) {
        &self.name
    }

    fn conditional(&self) -> (r: Option<&Conditional>) {
        self.conditional.as_ref()
    }

    fn comment(&self) -> (r: Option<&DocComment>) {
        self.comment.as_ref()
    }
}

impl ItemInstance for Struct {
    open spec fn instance_view(&self) -> InstanceView {
        InstanceView {
            kind: ItemKind::Struct,
            name: self.name@,
            space: None,
            ty: None,
            init: None,
            members: member_views(self.members@),
            parameters: Seq::empty(),
            attributes: attribute_views(self.attributes@),
            return_attributes: Seq::empty(),
            conditional: opt_cond(self.conditional),
            comment: comment_view(self.comment),
            span: self.span,
        }
    }

    fn item_kind(&self) -> (r: ItemKind) {
        ItemKind::Struct
    }

    fn name(&self) -> (r: &Ident) {
        &self.name
    }

    fn conditional(&self) -> (r: Option<&Conditional>) {
        self.conditional.as_ref()
    }

    fn comment(&self) -> (r: Option<&DocComment>) {
        self.comment.as_ref()
    }
}

impl ItemInstance for Function {
    open spec fn instance_view(&self) -> InstanceView {
        InstanceView {
            kind: ItemKind::Function,
            name: self.name@,
            space: None,
            ty: opt_type_view(self.ret),
            init: None,
            members: Seq::empty(),
            parameters: parameter_views(self.parameters@),
            attributes: attribute_views(self.attributes@),
            return_attributes: attribute_views(self.return_attributes@),
            conditional: opt_cond(self.conditional),
            comment: comment_view(self.comment),
            span: self.span,
        }
    }

    fn item_kind(&self) -> (r: ItemKind) {
        ItemKind::Function
    }

    fn name(&self) -> (r: &Ident) {
        &self.name
    }

    fn conditional(&self) -> (r: Option<&Conditional>) {
        self.conditional.as_ref()
    }

    fn comment(&self) -> (r: Option<&DocComment>) {
        self.comment.as_ref()
    }
}

impl ItemInstance for TypeAlias {
    open spec fn instance_view(&self) -> InstanceView {
        InstanceView {
            kind: ItemKind::TypeAlias,
            name: self.name@,
            space: None,
            ty: Some(type_view(self.ty)),
            init: None,
            members: Seq::empty(),
            parameters: Seq::empty(),
            attributes: attribute_views(self.attributes@),
            return_attributes: Seq::empty(),
            conditional: opt_cond(self.conditional),
            comment: comment_view(self.comment),
            span: self.span,
        }
    }

    fn item_kind(&self) -> (r: ItemKind) {
        ItemKind::TypeAlias
    }

    fn name(&self) -> (r: &Ident) {
        &self.name
    }

    fn conditional(&self) -> (r: Option<&Conditional>) {
        self.conditional.as_ref()
    }

    fn comment(&self) -> (r: Option<&DocComment>) {
        self.comment.as_ref()
    }
}

/// One module of the documentation tree.
#[derive(Debug, PartialEq, Eq)]
pub struct Module {
    pub name: String,
    pub source: Option<String>,
    pub comment: Option<DocComment>,
    pub modules: Vec<Module>,
    pub constants: Vec<Item<Constant>>,
    pub overrides: Vec<Item<Override>>,
    pub global_variables: Vec<Item<GlobalVariable>>,
    pub structs: Vec<Item<Struct>>,
    pub functions: Vec<Item<Function>>,
    pub type_aliases: Vec<Item<TypeAlias>>,
    pub translate_time_features: IndexSet<String>,
}

impl Module {
    /// A module of the given name that holds nothing.
    pub fn empty(name: String) -> (r: Module)
        ensures
            r.name@ == name@,
            r.source.is_none(),
            r.comment.is_none(),
            r.modules@.len() == 0,
            r.constants@.len() == 0,
            r.overrides@.len() == 0,
            r.global_variables@.len() == 0,
            r.structs@.len() == 0,
            r.functions@.len() == 0,
            r.type_aliases@.len() == 0,
            crate::feature_set::set_items(r.translate_time_features).len() == 0,
    {
        Module {
            name,
            source: None,
            comment: None,
            modules: Vec::new(),
            constants: Vec::new(),
            overrides: Vec::new(),
            global_variables: Vec::new(),
            structs: Vec::new(),
            functions: Vec::new(),
            type_aliases: Vec::new(),
            translate_time_features: crate::feature_set::set_new(),
        }
    }
}

/// The documentation of one package at one version.
#[derive(Debug, PartialEq, Eq)]
pub struct WeslDocs {
    pub version: Version,
    pub root: Module,
}

/// Construction of an empty documentation.
pub trait WeslDocsExt: Sized {
    /// The name of the root module.
    spec fn root_name(&self) -> Seq<char>;

    /// The version.
    spec fn version_view(&self) -> VersionView;

    /// Whether the documentation holds no declaration and no submodule.
    spec fn is_empty(&self) -> bool;

    /// The documentation of a package of the given name and version that
    /// holds nothing yet.
    fn new(name: String, version: Version) -> (r: Self)
        ensures
            r.root_name() == name@,
            r.version_view() == version@,
            r.is_empty(),
    ;
}

impl WeslDocsExt for WeslDocs {
    open spec fn root_name(&self) -> Seq<char> {
        self.root.name@
    }

    open spec fn version_view(&self) -> VersionView {
        self.version@
    }

    open spec fn is_empty(&self) -> bool {
        &&& self.root.source.is_none()
        &&& self.root.comment.is_none()
        &&& self.root.modules@.len() == 0
        &&& self.root.constants@.len() == 0
        &&& self.root.overrides@.len() == 0
        &&& self.root.global_variables@.len() == 0
        &&& self.root.structs@.len() == 0
        &&& self.root.functions@.len() == 0
        &&& self.root.type_aliases@.len() == 0
        &&& crate::feature_set::set_items(self.root.translate_time_features).len() == 0
    }

    fn new(name: String, version: Version) -> (r: WeslDocs) {
        WeslDocs { version, root: Module::empty(name) }
    }
}

} // verus!
