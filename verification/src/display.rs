//! The text forms of conditionals, address spaces, attributes and kinds.
use vstd::prelude::*;
use vstd::string::StringExecFns;
use crate::ast::{AddressSpace, Attribute, ItemKind};
use crate::conditional::{Cond, Conditional};

verus! {

/// The text of an operand of `!`, `&&` or `||`, in parentheses where asked.
pub open spec fn wrapped(text: Seq<char>, wrap: bool) -> Seq<char> {
    if wrap {
        "("@ + text + ")"@
    } else {
        text
    }
}

/// The text of a conditional: `!` binds tighter than `&&`, and `&&` and
/// `||` are never mixed without parentheses.
pub open spec fn cond_text(c: Cond) -> Seq<char>
    decreases c,
{
    match c {
        Cond::False => "false"@,
        Cond::True => "true"@,
        Cond::Feature(f) => f,
        Cond::Not(x) => "!"@ + wrapped(cond_text(*x), *x is And || *x is Or),
        Cond::And(l, r) => wrapped(cond_text(*l), *l is Or) + " && "@ + wrapped(
            cond_text(*r),
            *r is Or,
        ),
        Cond::Or(l, r) => wrapped(cond_text(*l), *l is And) + " || "@ + wrapped(
            cond_text(*r),
            *r is And,
        ),
    }
}

/// Appends the text of an operand, in parentheses where asked.
fn append_wrapped(out: &mut String, operand: &Conditional, wrap: bool)
    ensures
        final(out)@ == old(out)@ + wrapped(cond_text(operand@), wrap),
    decreases operand, 1nat,
{
    if wrap {
        out.append("(");
        append_text(out, operand);
        out.append(")");
        assert(out@ =~= old(out)@ + wrapped(cond_text(operand@), wrap));
    } else {
        append_text(out, operand);
    }
}

/// Appends the text of a conditional.
fn append_text(out: &mut String, cond: &Conditional)
    ensures
        final(out)@ == old(out)@ + cond_text(cond@),
    decreases cond, 0nat,
{
    match cond {
        Conditional::False => out.append("false"),
        Conditional::True => out.append("true"),
        Conditional::Feature(ident) => out.append(ident.0.as_str()),
        Conditional::Not(operand) => {
            out.append("!");
            let wrap = match **operand {
                Conditional::And(_, _) => true,
                Conditional::Or(_, _) => true,
                _ => false,
            };
            append_wrapped(out, operand, wrap);
            assert(out@ =~= old(out)@ + cond_text(cond@));
        },
        Conditional::And(left, right) => {
            let wrap_left = match **left {
                Conditional::Or(_, _) => true,
                _ => false,
            };
            let wrap_right = match **right {
                Conditional::Or(_, _) => true,
                _ => false,
            };
            append_wrapped(out, left, wrap_left);
            out.append(" && ");
            append_wrapped(out, right, wrap_right);
            assert(out@ =~= old(out)@ + cond_text(cond@));
        },
        Conditional::Or(left, right) => {
            let wrap_left = match **left {
                Conditional::And(_, _) => true,
                _ => false,
            };
            let wrap_right = match **right {
                Conditional::And(_, _) => true,
                _ => false,
            };
            append_wrapped(out, left, wrap_left);
            out.append(" || ");
            append_wrapped(out, right, wrap_right);
            assert(out@ =~= old(out)@ + cond_text(cond@));
        },
    }
}

impl Conditional {
    /// The text of the conditional.
    pub fn to_text(&self) -> (r: String)
        ensures
            r@ == cond_text(self@),
    {
        let mut out = String::new();
        append_text(&mut out, self);
        assert(out@ =~= cond_text(self@));
        out
    }
}

/// The text of an address space as it stands behind `var`.
pub open spec fn space_text(space: AddressSpace) -> Seq<char> {
    match space {
        AddressSpace::Function => "<function>"@,
        AddressSpace::Private => "<private>"@,
        AddressSpace::WorkGroup => "<workgroup>"@,
        AddressSpace::Uniform => "<uniform>"@,
        AddressSpace::Storage { load, store } => if store {
            "<storage, read_write>"@
        } else {
            "<storage>"@
        },
        AddressSpace::Handle => ""@,
        AddressSpace::PushConstant => "<push_constant>"@,
    }
}

impl AddressSpace {
    /// The text of the address space as it stands behind `var`.
    pub fn to_text(&self) -> (r: String)
        ensures
            r@ == space_text(*self),
    {
        match self {
            AddressSpace::Function => String::from_str("<function>"),
            AddressSpace::Private => String::from_str("<private>"),
            AddressSpace::WorkGroup => String::from_str("<workgroup>"),
            AddressSpace::Uniform => String::from_str("<uniform>"),
            AddressSpace::Storage { load, store } => {
                if *store {
                    String::from_str("<storage, read_write>")
                } else {
                    String::from_str("<storage>")
                }
            },
            AddressSpace::Handle => String::from_str(""),
            AddressSpace::PushConstant => String::from_str("<push_constant>"),
        }
    }
}

/// The word for a kind of item.
pub open spec fn kind_word(kind: ItemKind) -> Seq<char> {
    match kind {
        ItemKind::Module => "module"@,
        ItemKind::Constant => "constant"@,
        ItemKind::Override => "override"@,
        ItemKind::GlobalVariable => "global_variable"@,
        ItemKind::Struct => "struct"@,
        ItemKind::Function => "function"@,
        ItemKind::TypeAlias => "type_alias"@,
    }
}

/// The word for a kind of item.
pub fn kind_name(kind: ItemKind) -> (r: &'static str)
    ensures
        r@ == kind_word(kind),
{
    match kind {
        ItemKind::Module => "module",
        ItemKind::Constant => "constant",
        ItemKind::Override => "override",
        ItemKind::GlobalVariable => "global_variable",
        ItemKind::Struct => "struct",
        ItemKind::Function => "function",
        ItemKind::TypeAlias => "type_alias",
    }
}

/// The name of an attribute as it is written in the source.
pub open spec fn attribute_name(a: Attribute) -> Seq<char> {
    match a {
        Attribute::Align(_) => "align"@,
        Attribute::Binding(_) => "binding"@,
        Attribute::BlendSrc(_) => "blend_src"@,
        Attribute::Builtin(_) => "builtin"@,
        Attribute::Const => "const"@,
        Attribute::Diagnostic { .. } => "diagnostic"@,
        Attribute::Group(_) => "group"@,
        Attribute::Id(_) => "id"@,
        Attribute::Interpolate { .. } => "interpolate"@,
        Attribute::Invariant => "invariant"@,
        Attribute::Location(_) => "location"@,
        Attribute::MustUse => "must_use"@,
        Attribute::Size(_) => "size"@,
        Attribute::WorkgroupSize { .. } => "workgroup_size"@,
        Attribute::Vertex => "vertex"@,
        Attribute::Fragment => "fragment"@,
        Attribute::Compute => "compute"@,
        Attribute::Custom { name, .. } => name@,
    }
}

impl Attribute {
    /// The name of the attribute as it is written in the source.
    pub fn name(&self) -> (r: &str)
        ensures
            r@ == attribute_name(*self),
    {
        match self {
            Attribute::Align(_) => "align",
            Attribute::Binding(_) => "binding",
            Attribute::BlendSrc(_) => "blend_src",
            Attribute::Builtin(_) => "builtin",
            Attribute::Const => "const",
            Attribute::Diagnostic { .. } => "diagnostic",
            Attribute::Group(_) => "group",
            Attribute::Id(_) => "id",
            Attribute::Interpolate { .. } => "interpolate",
            Attribute::Invariant => "invariant",
            Attribute::Location(_) => "location",
            Attribute::MustUse => "must_use",
            Attribute::Size(_) => "size",
            Attribute::WorkgroupSize { .. } => "workgroup_size",
            Attribute::Vertex => "vertex",
            Attribute::Fragment => "fragment",
            Attribute::Compute => "compute",
            Attribute::Custom { name, .. } => name.as_str(),
        }
    }
}

} // verus!
