use vstd::prelude::*;
use crate::lexer::owned;

verus! {

/// The name bound by a `let` statement.
pub type Identifier = String;

/// An expression. Expressions are not parsed yet: the parser stands a
/// placeholder identifier in for whatever follows `=` or `return`.
pub enum Expr {
    Identifier(Identifier),
}

/// A top-level statement.
pub enum Statement {
    Let(Identifier, Expr),
    Return(Expr),
}

/// A statement as the contracts see it.
pub enum StatementModel {
    Let { name: Seq<char>, value: Seq<char> },
    Return { value: Seq<char> },
}

/// The statements of a program, in source order.
pub struct Program {
    pub statements: Vec<Statement>,
}

impl View for Expr {
    type V = Seq<char>;

    open spec fn view(&self) -> Seq<char> {
        match self {
            Expr::Identifier(id) => id@,
        }
    }
}

impl View for Statement {
    type V = StatementModel;

    open spec fn view(&self) -> StatementModel {
        match self {
            Statement::Let(id, e) => StatementModel::Let { name: id@, value: e@ },
            Statement::Return(e) => StatementModel::Return { value: e@ },
        }
    }
}

/// The statements of a sequence, as the contracts see them.
pub open spec fn statement_views(v: Seq<Statement>) -> Seq<StatementModel> {
    v.map_values(|s: Statement| s@)
}

/// How a statement is printed.
pub open spec fn statement_text(s: StatementModel) -> Seq<char> {
    match s {
        StatementModel::Let { name, value } => "let "@ + name + " = "@ + value,
        StatementModel::Return { value } => "return "@ + value,
    }
}

impl Expr {
    /// The printed form of the expression.
    pub fn render(&self) -> (r: String)
        ensures
            r@ == self@,
    {
        match self {
            Expr::Identifier(id) => id.clone(),
        }
    }
}

impl Statement {
    /// The printed form of the statement: `let <name> = <value>` or
    /// `return <value>`.
    pub fn render(&self) -> (r: String)
        ensures
            r@ == statement_text(self@),
    {
        match self {
            Statement::Let(id, e) => {
                let mut out = owned("let ");
                out.append(id.as_str());
                out.append(" = ");
                out.append(e.render().as_str());
                out
            },
            Statement::Return(e) => {
                let mut out = owned("return ");
                out.append(e.render().as_str());
                out
            },
        }
    }
}

impl Program {
    /// The printed form of the first statement, or the empty string for a
    /// program without statements.
    pub fn token_literal(&self) -> (r: String)
        ensures
            self.statements@.len() == 0 ==> r@ == Seq::<char>::empty(),
            self.statements@.len() > 0 ==> r@ == statement_text(self.statements@[0]@),
    {
        if self.statements.len() == 0 {
            String::new()
        } else {
            self.statements[0].render()
        }
    }
}

} // verus!
