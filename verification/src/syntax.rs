//! The compiled form of a module as the documentation compiler reads it:
//! declarations with their attributes and expressions, and the table that
//! maps the names of inlined declarations back to where they came from.
use vstd::prelude::*;
use crate::ast::{
    AddressSpace, BuiltinValue, DiagnosticSeverity, InterpolationSampling, InterpolationType,
    Literal, Version,
};
use crate::conditional::Ident;

verus! {

/// A range of bytes of the source, the end excluded.
#[derive(Debug, Clone, Copy, PartialEq, Eq, Structural)]
pub struct SourceRange {
    pub start: usize,
    pub end: usize,
}

#[derive(Debug, Clone, Copy, PartialEq, Eq, Structural)]
pub enum UnaryOperator {
    LogicalNegation,
    Negation,
    BitwiseComplement,
    AddressOf,
    Indirection,
}

#[derive(Debug, Clone, Copy, PartialEq, Eq, Structural)]
pub enum BinaryOperator {
    ShortCircuitOr,
    ShortCircuitAnd,
    Addition,
    Subtraction,
    Multiplication,
    Division,
    Remainder,
    Equality,
    Inequality,
    LessThan,
    LessThanEqual,
    GreaterThan,
    GreaterThanEqual,
    BitwiseOr,
    BitwiseAnd,
    BitwiseXor,
    ShiftLeft,
    ShiftRight,
}

/// An expression of the source. Component access, indexing and calls are
/// kept without their parts: nothing reads into them.
#[allow(inconsistent_fields)]
#[derive(Debug, PartialEq, Eq)]
pub enum SyntaxExpression {
    Literal(Literal),
    Parenthesized(Box<SyntaxNode>),
    NamedComponent,
    Indexing,
    Unary { operator: UnaryOperator, operand: Box<SyntaxNode> },
    Binary { operator: BinaryOperator, left: Box<SyntaxNode>, right: Box<SyntaxNode> },
    FunctionCall,
    TypeOrIdentifier(SyntaxType),
}

/// An expression with the bytes of the source that it covers.
#[derive(Debug, PartialEq, Eq)]
pub struct SyntaxNode {
    pub expression: SyntaxExpression,
    pub range: SourceRange,
}

/// A name with optional template arguments.
#[derive(Debug, PartialEq, Eq)]
pub struct SyntaxType {
    pub name: String,
    pub template_args: Option<Vec<SyntaxNode>>,
}

/// An attribute of the source, the conditional markers included.
#[derive(Debug, PartialEq, Eq)]
pub enum SyntaxAttribute {
    Align(SyntaxNode),
    Binding(SyntaxNode),
    BlendSrc(SyntaxNode),
    Builtin(BuiltinValue),
    Const,
    Diagnostic { severity: DiagnosticSeverity, rule: String },
    Group(SyntaxNode),
    Id(SyntaxNode),
    Interpolate { ty: InterpolationType, sampling: Option<InterpolationSampling> },
    Invariant,
    Location(SyntaxNode),
    MustUse,
    Size(SyntaxNode),
    WorkgroupSize { x: SyntaxNode, y: Option<SyntaxNode>, z: Option<SyntaxNode> },
    Vertex,
    Fragment,
    Compute,
    Custom { name: String, arguments: Option<Vec<SyntaxNode>> },
    If(SyntaxNode),
    Elif(SyntaxNode),
    Else,
    Publish,
}

#[derive(Debug, Clone, Copy, PartialEq, Eq, Structural)]
pub enum AccessMode {
    Read,
    Write,
    ReadWrite,
}

#[derive(Debug, Clone, Copy, PartialEq, Eq, Structural)]
pub enum SyntaxAddressSpace {
    Function,
    Private,
    Workgroup,
    Uniform,
    Storage(Option<AccessMode>),
    Handle,
}

#[derive(Debug, Clone, Copy, PartialEq, Eq, Structural)]
pub enum DeclarationKind {
    Const,
    Override,
    Let,
    Var(Option<SyntaxAddressSpace>),
}

#[derive(Debug, PartialEq, Eq)]
pub struct Declaration {
    pub attributes: Vec<SyntaxAttribute>,
    pub kind: DeclarationKind,
    pub name: String,
    pub ty: Option<SyntaxType>,
    pub initializer: Option<SyntaxNode>,
}

#[derive(Debug, PartialEq, Eq)]
pub struct TypeAliasDeclaration {
    pub attributes: Vec<SyntaxAttribute>,
    pub name: String,
    pub ty: SyntaxType,
}

#[derive(Debug, PartialEq, Eq)]
pub struct MemberDeclaration {
    pub attributes: Vec<SyntaxAttribute>,
    pub name: String,
    pub ty: SyntaxType,
    pub range: SourceRange,
}

#[derive(Debug, PartialEq, Eq)]
pub struct StructDeclaration {
    pub attributes: Vec<SyntaxAttribute>,
    pub name: String,
    pub members: Vec<MemberDeclaration>,
}

#[derive(Debug, PartialEq, Eq)]
pub struct ParameterDeclaration {
    pub attributes: Vec<SyntaxAttribute>,
    pub name: String,
    pub ty: SyntaxType,
}

#[derive(Debug, PartialEq, Eq)]
pub struct FunctionDeclaration {
    pub attributes: Vec<SyntaxAttribute>,
    pub name: String,
    pub parameters: Vec<ParameterDeclaration>,
    pub return_attributes: Vec<SyntaxAttribute>,
    pub return_type: Option<SyntaxType>,
}

#[derive(Debug, PartialEq, Eq)]
pub struct ConstAssertDeclaration {
    pub attributes: Vec<SyntaxAttribute>,
}

#[derive(Debug, PartialEq, Eq)]
pub enum GlobalDeclaration {
    Void,
    Declaration(Declaration),
    TypeAlias(TypeAliasDeclaration),
    Struct(StructDeclaration),
    Function(FunctionDeclaration),
    ConstAssert(ConstAssertDeclaration),
}

/// A top-level declaration with the bytes of the source that it covers
/// and, where its name was mangled on the way, the item name that the
/// mangling scheme recovers from it.
#[derive(Debug, PartialEq, Eq)]
pub struct DeclarationNode {
    pub declaration: GlobalDeclaration,
    pub range: SourceRange,
    pub unmangled: Option<String>,
}

/// Where a path starts: at the package root, some modules above the
/// current one, or in a dependency named by its local name.
#[derive(Debug, Clone, PartialEq, Eq)]
pub enum PathOrigin {
    Absolute,
    Relative(usize),
    Package(String),
}

/// The mathematical form of a [`PathOrigin`].
pub enum OriginView {
    Absolute,
    Relative(nat),
    Package(Seq<char>),
}

impl View for PathOrigin {
    type V = OriginView;

    open spec fn view(&self) -> OriginView {
        match self {
            PathOrigin::Absolute => OriginView::Absolute,
            PathOrigin::Relative(n) => OriginView::Relative(*n as nat),
            PathOrigin::Package(name) => OriginView::Package(name@),
        }
    }
}

/// A module path as the upstream compiler records it.
#[derive(Debug, Clone, PartialEq, Eq)]
pub struct ModulePath {
    pub origin: PathOrigin,
    pub components: Vec<String>,
}

/// One line of the source map: a name of the compiled module, the module
/// that the declaration came from, and its name there.
#[derive(Debug, Clone, PartialEq, Eq)]
pub struct SourceMapEntry {
    pub mangled: String,
    pub path: ModulePath,
    pub name: String,
}

#[derive(Debug, Clone, PartialEq, Eq)]
pub struct SourceMap {
    pub entries: Vec<SourceMapEntry>,
    pub default_source: Option<String>,
}

/// What the upstream compiler hands over for one module.
#[derive(Debug, PartialEq, Eq)]
pub struct CompiledModule {
    pub declarations: Vec<DeclarationNode>,
    pub source_map: Option<SourceMap>,
}

/// A module of the package with its compiled form, if it has a file.
#[derive(Debug, PartialEq, Eq)]
pub struct WeslModule {
    pub name: String,
    pub compiled: Option<CompiledModule>,
    pub submodules: Vec<WeslModule>,
}

/// A dependency by its local name, with the version it resolved to.
#[derive(Debug, Clone, PartialEq, Eq)]
pub struct Dependency {
    pub name: String,
    pub version: Version,
}

/// A package: its version, its dependencies and its root module.
#[derive(Debug, PartialEq, Eq)]
pub struct WeslPackage {
    pub version: Version,
    pub dependencies: Vec<Dependency>,
    pub root: WeslModule,
}

/// The name that a top-level declaration declares, if it declares one.
pub open spec fn declared_name(d: GlobalDeclaration) -> Option<Seq<char>> {
    match d {
        GlobalDeclaration::Void => None,
        GlobalDeclaration::Declaration(x) => Some(x.name@),
        GlobalDeclaration::TypeAlias(x) => Some(x.name@),
        GlobalDeclaration::Struct(x) => Some(x.name@),
        GlobalDeclaration::Function(x) => Some(x.name@),
        GlobalDeclaration::ConstAssert(_) => None,
    }
}

/// The kind of item that a top-level declaration contributes to.
pub open spec fn declared_kind(d: GlobalDeclaration) -> Option<crate::ast::ItemKind> {
    match d {
        GlobalDeclaration::Void => None,
        GlobalDeclaration::Declaration(x) => match x.kind {
            DeclarationKind::Const => Some(crate::ast::ItemKind::Constant),
            DeclarationKind::Override => Some(crate::ast::ItemKind::Override),
            DeclarationKind::Let => None,
            DeclarationKind::Var(_) => Some(crate::ast::ItemKind::GlobalVariable),
        },
        GlobalDeclaration::TypeAlias(_) => Some(crate::ast::ItemKind::TypeAlias),
        GlobalDeclaration::Struct(_) => Some(crate::ast::ItemKind::Struct),
        GlobalDeclaration::Function(_) => Some(crate::ast::ItemKind::Function),
        GlobalDeclaration::ConstAssert(_) => None,
    }
}

/// The attributes of a top-level declaration.
pub open spec fn declared_attributes(d: GlobalDeclaration) -> Seq<SyntaxAttribute> {
    match d {
        GlobalDeclaration::Void => Seq::empty(),
        GlobalDeclaration::Declaration(x) => x.attributes@,
        GlobalDeclaration::TypeAlias(x) => x.attributes@,
        GlobalDeclaration::Struct(x) => x.attributes@,
        GlobalDeclaration::Function(x) => x.attributes@,
        GlobalDeclaration::ConstAssert(x) => x.attributes@,
    }
}

impl GlobalDeclaration {
    /// The name that the declaration declares, if it declares one.
    pub fn name(&self) -> (r: Option<&String>)
        ensures
            r.is_some() == declared_name(*self).is_some(),
            r.is_some() ==> r.unwrap()@ == declared_name(*self).unwrap(),
    {
        match self {
            GlobalDeclaration::Void => None,
            GlobalDeclaration::Declaration(x) => Some(&x.name),
            GlobalDeclaration::TypeAlias(x) => Some(&x.name),
            GlobalDeclaration::Struct(x) => Some(&x.name),
            GlobalDeclaration::Function(x) => Some(&x.name),
            GlobalDeclaration::ConstAssert(_) => None,
        }
    }

    /// The kind of item that the declaration contributes to.
    pub fn kind(&self) -> (r: Option<crate::ast::ItemKind>)
        ensures
            r == declared_kind(*self),
    {
        match self {
            GlobalDeclaration::Void => None,
            GlobalDeclaration::Declaration(x) => match x.kind {
                DeclarationKind::Const => Some(crate::ast::ItemKind::Constant),
                DeclarationKind::Override => Some(crate::ast::ItemKind::Override),
                DeclarationKind::Let => None,
                DeclarationKind::Var(_) => Some(crate::ast::ItemKind::GlobalVariable),
            },
            GlobalDeclaration::TypeAlias(_) => Some(crate::ast::ItemKind::TypeAlias),
            GlobalDeclaration::Struct(_) => Some(crate::ast::ItemKind::Struct),
            GlobalDeclaration::Function(_) => Some(crate::ast::ItemKind::Function),
            GlobalDeclaration::ConstAssert(_) => None,
        }
    }

    /// The attributes of the declaration.
    pub fn attributes(&self) -> (r: Option<&Vec<SyntaxAttribute>>)
        ensures
            match r {
                Some(a) => a@ == declared_attributes(*self) && !(*self is Void),
                None => *self is Void,
            },
    {
        match self {
            GlobalDeclaration::Void => None,
            GlobalDeclaration::Declaration(x) => Some(&x.attributes),
            GlobalDeclaration::TypeAlias(x) => Some(&x.attributes),
            GlobalDeclaration::Struct(x) => Some(&x.attributes),
            GlobalDeclaration::Function(x) => Some(&x.attributes),
            GlobalDeclaration::ConstAssert(x) => Some(&x.attributes),
        }
    }
}

/// Conversion of a value of the compiled form into its counterpart in the
/// documentation model.
pub trait Convert<T>: Sized {
    /// The counterpart.
    spec fn converted(&self) -> T;

    fn map(&self) -> (r: T)
        ensures
            r == self.converted(),
    ;
}

/// The counterpart of a value of the compiled form in the documentation model.
pub fn map<T: Convert<U>, U>(value: &T) -> (r: U)
    ensures
        r == value.converted(),
{
    value.map()
}

impl Convert<Ident> for String {
    open spec fn converted(&self) -> Ident {
        Ident(*self)
    }

    fn map(&self) -> (r: Ident) {
        Ident(self.clone())
    }
}

impl Convert<AddressSpace> for SyntaxAddressSpace {
    open spec fn converted(&self) -> AddressSpace {
        match self {
            SyntaxAddressSpace::Function => AddressSpace::Function,
            SyntaxAddressSpace::Private => AddressSpace::Private,
            SyntaxAddressSpace::Workgroup => AddressSpace::WorkGroup,
            SyntaxAddressSpace::Uniform => AddressSpace::Uniform,
            SyntaxAddressSpace::Storage(access) => AddressSpace::Storage {
                load: !(access == Some(AccessMode::Write)),
                store: access == Some(AccessMode::Write) || access == Some(AccessMode::ReadWrite),
            },
            SyntaxAddressSpace::Handle => AddressSpace::Handle,
        }
    }

    fn map(&self) -> (r: AddressSpace) {
        match self {
            SyntaxAddressSpace::Function => AddressSpace::Function,
            SyntaxAddressSpace::Private => AddressSpace::Private,
            SyntaxAddressSpace::Workgroup => AddressSpace::WorkGroup,
            SyntaxAddressSpace::Uniform => AddressSpace::Uniform,
            SyntaxAddressSpace::Storage(access) => match access {
                Some(AccessMode::Read) => AddressSpace::Storage { load: true, store: false },
                Some(AccessMode::Write) => AddressSpace::Storage { load: false, store: true },
                Some(AccessMode::ReadWrite) => AddressSpace::Storage { load: true, store: true },
                None => AddressSpace::Storage { load: true, store: false },
            },
            SyntaxAddressSpace::Handle => AddressSpace::Handle,
        }
    }
}

} // verus!
