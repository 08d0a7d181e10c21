use vstd::prelude::*;

use crate::ace::instance::{constants_view, fields_view, get_value_in, spec_lookup_ident, AceInstance};
use crate::ace::types::{
    value_type, AceError, AceResult, AceType, AceValue, ErrorV, ParseError, ParseErrorV, Span,
    ValueV,
};

verus! {

/// Unary operators.
#[derive(Debug, Clone, Copy, PartialEq, Eq, Structural)]
pub enum AceUnop {
    Not,
    Neg,
}

/// Binary operators.
#[derive(Debug, Clone, Copy, PartialEq, Eq, Structural)]
pub enum AceBinop {
    Dot,
    Add,
    Sub,
    Lt,
    Gt,
    Leq,
    Geq,
    Eq,
    Neq,
    Glob,
    Nglob,
    And,
    Or,
}

/// Where an expression stands, and its type once analyzed.
#[derive(Debug, Clone, Copy, PartialEq, Eq, Structural)]
pub struct AceAstMeta {
    pub span: Span,
    pub typ: AceType,
}

impl AceAstMeta {
    /// The meta data of an expression at `span`, its type not yet known.
    pub fn new(span: Span) -> (r: AceAstMeta)
        ensures
            r == (AceAstMeta { span, typ: AceType::Unknown }),
    {
        AceAstMeta {
            span,
            // Assigned during the semantic analysis.
            typ: AceType::Unknown,
        }
    }
}

/// A syntax tree of the expression language.
#[derive(Debug)]
pub enum AceAst {
    Identifier(AceAstMeta, String),
    Literal(AceAstMeta, AceValue),
    UnaryExpr(AceAstMeta, AceUnop, Box<AceAst>),
    BinaryExpr(AceAstMeta, AceBinop, Box<AceAst>, Box<AceAst>),
}

/// The mathematical content of an [`AceAst`].
pub enum AstV {
    Identifier(AceAstMeta, Seq<char>),
    Literal(AceAstMeta, ValueV),
    UnaryExpr(AceAstMeta, AceUnop, Box<AstV>),
    BinaryExpr(AceAstMeta, AceBinop, Box<AstV>, Box<AstV>),
}

/// The mathematical content of a syntax tree.
pub open spec fn ast_view(a: AceAst) -> AstV
    decreases a,
{
    match a {
        AceAst::Identifier(m, s) => AstV::Identifier(m, s@),
        AceAst::Literal(m, v) => AstV::Literal(m, v@),
        AceAst::UnaryExpr(m, op, body) => AstV::UnaryExpr(m, op, Box::new(ast_view(*body))),
        AceAst::BinaryExpr(m, op, l, r) => AstV::BinaryExpr(
            m,
            op,
            Box::new(ast_view(*l)),
            Box::new(ast_view(*r)),
        ),
    }
}

impl View for AceAst {
    type V = AstV;

    open spec fn view(&self) -> AstV {
        ast_view(*self)
    }
}

/// The meta data of a tree.
pub open spec fn meta_of(a: AstV) -> AceAstMeta {
    match a {
        AstV::Identifier(m, _) => m,
        AstV::Literal(m, _) => m,
        AstV::UnaryExpr(m, _, _) => m,
        AstV::BinaryExpr(m, _, _, _) => m,
    }
}

/// An identifier at `span`.
pub open spec fn spec_ident(val: Seq<char>, span: Span) -> AstV {
    AstV::Identifier(AceAstMeta { span, typ: AceType::Unknown }, val)
}

/// A literal at `span`.
pub open spec fn spec_lit(val: ValueV, span: Span) -> AstV {
    AstV::Literal(AceAstMeta { span, typ: AceType::Unknown }, val)
}

/// A unary expression: it stands where its operand stands.
pub open spec fn spec_unop(op: AceUnop, operand: AstV) -> AstV {
    AstV::UnaryExpr(
        AceAstMeta { span: meta_of(operand).span, typ: AceType::Unknown },
        op,
        Box::new(operand),
    )
}

/// A binary expression: it stands from the start of its left operand to the end of its
/// right one.
pub open spec fn spec_binop(op: AceBinop, left: AstV, right: AstV) -> AstV {
    AstV::BinaryExpr(
        AceAstMeta {
            span: Span { start: meta_of(left).span.start, end: meta_of(right).span.end },
            typ: AceType::Unknown,
        },
        op,
        Box::new(left),
        Box::new(right),
    )
}

/// The mathematical content of an analysis result.
pub open spec fn ast_result_view(r: AceResult<AceAst>) -> Result<AstV, ErrorV> {
    match r {
        Ok(a) => Ok(a@),
        Err(e) => Err(e@),
    }
}

/// Semantic analysis against an instance with `constants` and `fields`: every identifier
/// must name one of them; identifiers take the type of their constant (unknown for fields),
/// literals the type of their value, other expressions stay of unknown type. The first
/// unknown identifier, left to right, is the error.
pub open spec fn spec_analyze(
    a: AstV,
    constants: Seq<(Seq<char>, ValueV)>,
    fields: Seq<(Seq<char>, Seq<char>)>,
) -> Result<AstV, ErrorV>
    decreases a,
{
    match a {
        AstV::Identifier(m, s) => {
            let (exists, val) = spec_lookup_ident(constants, fields, s);
            if !exists {
                Err(ErrorV::Parse(ParseErrorV::Identifier(s, m.span)))
            } else {
                let typ = match val {
                    Some(v) => value_type(v),
                    None => AceType::Unknown,
                };
                Ok(AstV::Identifier(AceAstMeta { typ, ..m }, s))
            }
        },
        AstV::Literal(m, v) => Ok(AstV::Literal(AceAstMeta { typ: value_type(v), ..m }, v)),
        AstV::UnaryExpr(m, op, body) => match spec_analyze(*body, constants, fields) {
            Err(e) => Err(e),
            Ok(b) => Ok(AstV::UnaryExpr(AceAstMeta { typ: AceType::Unknown, ..m }, op, Box::new(b))),
        },
        AstV::BinaryExpr(m, op, l, r) => match spec_analyze(*l, constants, fields) {
            Err(e) => Err(e),
            Ok(l2) => match spec_analyze(*r, constants, fields) {
                Err(e) => Err(e),
                Ok(r2) => Ok(
                    AstV::BinaryExpr(
                        AceAstMeta { typ: AceType::Unknown, ..m },
                        op,
                        Box::new(l2),
                        Box::new(r2),
                    ),
                ),
            },
        },
    }
}

/// Analysis keeps every expression where it stands: the analyzed tree has the span of the
/// tree analyzed.
pub proof fn lemma_analyze_keeps_span(
    a: AstV,
    constants: Seq<(Seq<char>, ValueV)>,
    fields: Seq<(Seq<char>, Seq<char>)>,
)
    ensures
        spec_analyze(a, constants, fields) matches Ok(b) ==> meta_of(b).span == meta_of(a).span,
{
}

/// A literal always passes analysis, and takes the type of its value.
pub proof fn lemma_analyze_literal(
    m: AceAstMeta,
    v: ValueV,
    constants: Seq<(Seq<char>, ValueV)>,
    fields: Seq<(Seq<char>, Seq<char>)>,
)
    ensures
        spec_analyze(AstV::Literal(m, v), constants, fields) == Ok::<AstV, ErrorV>(
            AstV::Literal(AceAstMeta { typ: value_type(v), ..m }, v),
        ),
{
}

impl AceAst {
    /// The meta data of this tree.
    pub fn meta(&self) -> (r: &AceAstMeta)
        ensures
            *r == meta_of(self@),
    {
        match self {
            AceAst::Identifier(m, _) => m,
            AceAst::Literal(m, _) => m,
            AceAst::UnaryExpr(m, _, _) => m,
            AceAst::BinaryExpr(m, _, _, _) => m,
        }
    }

    /// An identifier at `span`.
    pub fn ident(val: String, span: Span) -> (r: AceAst)
        ensures
            r@ == spec_ident(val@, span),
    {
        AceAst::Identifier(AceAstMeta::new(span), val)
    }

    /// A literal at `span`.
    pub fn lit(val: AceValue, span: Span) -> (r: AceAst)
        ensures
            r@ == spec_lit(val@, span),
    {
        AceAst::Literal(AceAstMeta::new(span), val)
    }

    /// A unary expression over `operand`.
    pub fn unop(op: AceUnop, operand: AceAst) -> (r: AceAst)
        ensures
            r@ == spec_unop(op, operand@),
    {
        let span = operand.meta().span;
        AceAst::UnaryExpr(AceAstMeta::new(span), op, Box::new(operand))
    }

    /// A binary expression over `left` and `right`.
    pub fn binop(op: AceBinop, left: AceAst, right: AceAst) -> (r: AceAst)
        ensures
            r@ == spec_binop(op, left@, right@),
    {
        let lspan = left.meta().span;
        let rspan = right.meta().span;
        let span = Span { start: lspan.start, end: rspan.end };
        AceAst::BinaryExpr(AceAstMeta::new(span), op, Box::new(left), Box::new(right))
    }

    /// Checks the identifiers of this tree against the instance `T`, asking `T::get_value`
    /// of each, and assigns types.
    pub fn analyze<T: AceInstance>(self) -> (r: AceResult<AceAst>)
        ensures
            ast_result_view(r) == spec_analyze(self@, T::spec_constants(), T::spec_fields()),
        decreases self,
    {
        let out = match self {
            AceAst::Identifier(m, s) => {
                let (exists, val) = T::get_value(s.as_str());
                if !exists {
                    return Err(AceError::Parse(ParseError::Identifier(s, m.span)));
                }
                let typ = match val {
                    Some(v) => v.typ(),
                    None => AceType::default(),
                };
                AceAst::Identifier(AceAstMeta { typ, ..m }, s)
            },
            AceAst::Literal(m, v) => {
                let typ = v.typ();
                AceAst::Literal(AceAstMeta { typ, ..m }, v)
            },
            AceAst::UnaryExpr(m, op, body) => {
                let body = match (*body).analyze::<T>() {
                    Ok(b) => b,
                    Err(e) => {
                        return Err(e);
                    },
                };
                AceAst::UnaryExpr(AceAstMeta { typ: AceType::default(), ..m }, op, Box::new(body))
            },
            AceAst::BinaryExpr(m, op, left, right) => {
                let left = match (*left).analyze::<T>() {
                    Ok(l) => l,
                    Err(e) => {
                        return Err(e);
                    },
                };
                let right = match (*right).analyze::<T>() {
                    Ok(r) => r,
                    Err(e) => {
                        return Err(e);
                    },
                };
                AceAst::BinaryExpr(
                    AceAstMeta { typ: AceType::default(), ..m },
                    op,
                    Box::new(left),
                    Box::new(right),
                )
            },
        };
        Ok(out)
    }

    /// Checks the identifiers of this tree against `constants` and `fields` and assigns types.
    pub fn analyze_with(self, constants: &Vec<(String, AceValue)>, fields: &Vec<(String, String)>) -> (r:
        AceResult<AceAst>)
        ensures
            ast_result_view(r) == spec_analyze(self@, constants_view(constants@), fields_view(fields@)),
        decreases self,
    {
        let out = match self {
            AceAst::Identifier(m, s) => {
                let (exists, val) = get_value_in(constants, fields, s.as_str());
                if !exists {
                    return Err(AceError::Parse(ParseError::Identifier(s, m.span)));
                }
                let typ = match val {
                    Some(v) => v.typ(),
                    None => AceType::default(),
                };
                AceAst::Identifier(AceAstMeta { typ, ..m }, s)
            },
            AceAst::Literal(m, v) => {
                let typ = v.typ();
                AceAst::Literal(AceAstMeta { typ, ..m }, v)
            },
            AceAst::UnaryExpr(m, op, body) => {
                let body = match (*body).analyze_with(constants, fields) {
                    Ok(b) => b,
                    Err(e) => {
                        return Err(e);
                    },
                };
                AceAst::UnaryExpr(AceAstMeta { typ: AceType::default(), ..m }, op, Box::new(body))
            },
            AceAst::BinaryExpr(m, op, left, right) => {
                let left = match (*left).analyze_with(constants, fields) {
                    Ok(l) => l,
                    Err(e) => {
                        return Err(e);
                    },
                };
                let right = match (*right).analyze_with(constants, fields) {
                    Ok(r) => r,
                    Err(e) => {
                        return Err(e);
                    },
                };
                AceAst::BinaryExpr(
                    AceAstMeta { typ: AceType::default(), ..m },
                    op,
                    Box::new(left),
                    Box::new(right),
                )
            },
        };
        Ok(out)
    }
}

} // verus!
