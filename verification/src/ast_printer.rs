use vstd::prelude::*;

use crate::expr::{expr_view, Expr, ExprM};

verus! {

/// The parenthesized debug text of an expression tree: each operator node
/// prints as "(<operator> <operands>)", a grouping as "(group <inner>)",
/// and a literal as its payload ("nil" when it has none).
pub open spec fn print_spec(e: ExprM) -> Seq<char>
    decreases e,
{
    match e {
        ExprM::Binary { left, operator, right } => "("@ + operator.lexeme + " "@ + print_spec(
            *left,
        ) + " "@ + print_spec(*right) + ")"@,
        ExprM::Grouping { expression } => "(group "@ + print_spec(*expression) + ")"@,
        ExprM::Literal { value } => match value {
            Option::Some(v) => v,
            Option::None => "nil"@,
        },
        ExprM::Unary { operator, right } => "("@ + operator.lexeme + " "@ + print_spec(*right)
            + ")"@,
    }
}

/// Prints an expression tree in parenthesized prefix form, for debugging.
pub struct AstPrinter {}

impl AstPrinter {
    pub fn print(&self, expr: &Expr) -> (r: String)
        ensures
            r@ == print_spec(expr_view(*expr)),
        decreases *expr,
    {
        match expr {
            Expr::Binary { left, operator, right } => {
                let mut builder = "(".to_owned();
                builder.append(operator.lexeme.as_str());
                builder.append(" ");
                let left_text = self.print(&**left);
                builder.append(left_text.as_str());
                builder.append(" ");
                let right_text = self.print(&**right);
                builder.append(right_text.as_str());
                builder.append(")");
                proof {
                    assert(builder@ =~= print_spec(expr_view(*expr)));
                }
                builder
            },
            Expr::Grouping { expression } => {
                let mut builder = "(group ".to_owned();
                let inner_text = self.print(&**expression);
                builder.append(inner_text.as_str());
                builder.append(")");
                proof {
                    assert(builder@ =~= print_spec(expr_view(*expr)));
                }
                builder
            },
            Expr::Literal { value } => match value {
                Option::Some(v) => v.clone(),
                Option::None => "nil".to_owned(),
            },
            Expr::Unary { operator, right } => {
                let mut builder = "(".to_owned();
                builder.append(operator.lexeme.as_str());
                builder.append(" ");
                let right_text = self.print(&**right);
                builder.append(right_text.as_str());
                builder.append(")");
                proof {
                    assert(builder@ =~= print_spec(expr_view(*expr)));
                }
                builder
            },
        }
    }
}

} // verus!
