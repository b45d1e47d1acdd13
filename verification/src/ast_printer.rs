//! The reference visitor: renders an expression tree as fully parenthesized
//! prefix notation, `(op left right)` for binary nodes, `(op operand)` for
//! unary ones and `(group inner)` for grouping.

use vstd::prelude::*;
use vstd::string::StringExecFns;

use crate::ast::{BinaryOp, Expr, ExprV, UnaryOp, Visitor};

verus! {

/// The glyph a unary operator prints as.
pub open spec fn unop_text(op: UnaryOp) -> Seq<char> {
    match op {
        UnaryOp::Negation => "-"@,
        UnaryOp::Not => "!"@,
    }
}

/// The glyph a binary operator prints as.
pub open spec fn binop_text(op: BinaryOp) -> Seq<char> {
    match op {
        BinaryOp::Equal => "=="@,
        BinaryOp::NotEqual => "!="@,
        BinaryOp::Less => "<"@,
        BinaryOp::LessEqual => "<="@,
        BinaryOp::Greater => ">"@,
        BinaryOp::GreaterEqual => ">="@,
        BinaryOp::Add => "+"@,
        BinaryOp::Subtract => "-"@,
        BinaryOp::Multiply => "*"@,
        BinaryOp::Divide => "/"@,
    }
}

/// The text a well-formed expression tree prints as: literals render their
/// canonical textual form, composite nodes render fully parenthesized.
pub open spec fn render(e: ExprV) -> Seq<char>
    decreases e,
{
    match e {
        ExprV::Identifier(s) => s,
        ExprV::StringLiteral(s) => "\""@ + s + "\""@,
        ExprV::NumberLiteral(s) => s,
        ExprV::BooleanLiteral(b) => if b {
            "true"@
        } else {
            "false"@
        },
        ExprV::NilLiteral => "nil"@,
        ExprV::Unary(op, e1) => "("@ + unop_text(op) + " "@ + render(*e1) + ")"@,
        ExprV::Binary(l, op, r) => "("@ + binop_text(op) + " "@ + render(*l) + " "@ + render(*r)
            + ")"@,
        ExprV::Grouping(e1) => "(group "@ + render(*e1) + ")"@,
    }
}

impl UnaryOp {
    /// The glyph this operator prints as.
    pub fn symbol(&self) -> (s: String)
        ensures
            s@ == unop_text(*self),
    {
        match self {
            UnaryOp::Negation => String::from_str("-"),
            UnaryOp::Not => String::from_str("!"),
        }
    }
}

impl BinaryOp {
    /// The glyph this operator prints as.
    pub fn symbol(&self) -> (s: String)
        ensures
            s@ == binop_text(*self),
    {
        match self {
            BinaryOp::Equal => String::from_str("=="),
            BinaryOp::NotEqual => String::from_str("!="),
            BinaryOp::Less => String::from_str("<"),
            BinaryOp::LessEqual => String::from_str("<="),
            BinaryOp::Greater => String::from_str(">"),
            BinaryOp::GreaterEqual => String::from_str(">="),
            BinaryOp::Add => String::from_str("+"),
            BinaryOp::Subtract => String::from_str("-"),
            BinaryOp::Multiply => String::from_str("*"),
            BinaryOp::Divide => String::from_str("/"),
        }
    }
}

/// Renders one expression tree as text.
fn render_expr(e: &Expr) -> (s: String)
    ensures
        s@ == render(e@),
    decreases *e,
{
    match e {
        Expr::Identifier(id) => id.clone(),
        Expr::StringLiteral(st) => {
            let mut s = String::from_str("\"");
            s.append(st.as_str());
            s.append("\"");
            s
        },
        Expr::NumberLiteral(n) => n.clone(),
        Expr::BooleanLiteral(b) => {
            if *b {
                String::from_str("true")
            } else {
                String::from_str("false")
            }
        },
        Expr::NilLiteral => String::from_str("nil"),
        Expr::Unary(op, inner) => {
            let mut s = String::from_str("(");
            let sym = op.symbol();
            s.append(sym.as_str());
            s.append(" ");
            let body = render_expr(inner);
            s.append(body.as_str());
            s.append(")");
            s
        },
        Expr::Binary(left, op, right) => {
            let mut s = String::from_str("(");
            let sym = op.symbol();
            s.append(sym.as_str());
            s.append(" ");
            let lt = render_expr(left);
            s.append(lt.as_str());
            s.append(" ");
            let rt = render_expr(right);
            s.append(rt.as_str());
            s.append(")");
            s
        },
        Expr::Grouping(inner) => {
            let mut s = String::from_str("(group ");
            let body = render_expr(inner);
            s.append(body.as_str());
            s.append(")");
            s
        },
    }
}

/// A visitor that prints the tree it walks.
pub struct AstPrinter;

impl AstPrinter {
    /// Renders a well-formed expression tree as text. Pure and total: the
    /// result is exactly `render` of the tree, so two invocations on
    /// structurally equal trees produce identical strings.
    pub fn unparse(&mut self, expr: &Expr) -> (s: String)
        ensures
            s@ == render(expr@),
    {
        render_expr(expr)
    }
}

impl Visitor<String> for AstPrinter {
    fn visit_identifier(&mut self, id: &String) -> String {
        id.clone()
    }

    fn visit_string(&mut self, s: &String) -> String {
        let mut out = String::from_str("\"");
        out.append(s.as_str());
        out.append("\"");
        out
    }

    fn visit_number(&mut self, n: &String) -> String {
        n.clone()
    }

    fn visit_boolean(&mut self, b: &bool) -> String {
        if *b {
            String::from_str("true")
        } else {
            String::from_str("false")
        }
    }

    fn visit_nil(&mut self) -> String {
        String::from_str("nil")
    }

    fn visit_unary(&mut self, op: &UnaryOp, expr: &Expr) -> String {
        let mut out = String::from_str("(");
        let sym = op.symbol();
        out.append(sym.as_str());
        out.append(" ");
        let body = render_expr(expr);
        out.append(body.as_str());
        out.append(")");
        out
    }

    fn visit_binary(&mut self, left: &Expr, op: &BinaryOp, right: &Expr) -> String {
        let mut out = String::from_str("(");
        let sym = op.symbol();
        out.append(sym.as_str());
        out.append(" ");
        let lt = render_expr(left);
        out.append(lt.as_str());
        out.append(" ");
        let rt = render_expr(right);
        out.append(rt.as_str());
        out.append(")");
        out
    }

    fn visit_grouping(&mut self, expr: &Expr) -> String {
        let mut out = String::from_str("(group ");
        let body = render_expr(expr);
        out.append(body.as_str());
        out.append(")");
        out
    }
}

/// Printing is deterministic: two trees that are structurally equal render
/// to the same text, so repeated invocations of the printer on equal trees
/// produce identical strings.
pub proof fn lemma_render_deterministic(a: ExprV, b: ExprV)
    requires
        a == b,
    ensures
        render(a) == render(b),
{
}

} // verus!
