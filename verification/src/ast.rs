//! The operators that evaluation errors mention.

use vstd::prelude::*;

verus! {

/// A prefix operator.
#[derive(Clone, Copy, Debug, PartialEq, Eq, Structural)]
pub enum Prefix {
    Bang,
    Minus,
}

/// An infix operator.
#[derive(Clone, Copy, Debug, PartialEq, Eq, Structural)]
pub enum Infix {
    Eq,
    NotEq,
    Lt,
    Gt,
    Plus,
    Minus,
    Asterisk,
    Slash,
}

impl Prefix {
    /// How the operator is written.
    pub open spec fn spec_symbol(self) -> Seq<char> {
        match self {
            Prefix::Bang => "!"@,
            Prefix::Minus => "-"@,
        }
    }

    /// How the operator is written.
    pub fn symbol(&self) -> (symbol: &'static str)
        ensures
            symbol@ == self.spec_symbol(),
    {
        match self {
            Prefix::Bang => "!",
            Prefix::Minus => "-",
        }
    }
}

impl Infix {
    /// How the operator is written.
    pub open spec fn spec_symbol(self) -> Seq<char> {
        match self {
            Infix::Eq => "=="@,
            Infix::NotEq => "!="@,
            Infix::Lt => "<"@,
            Infix::Gt => ">"@,
            Infix::Plus => "+"@,
            Infix::Minus => "-"@,
            Infix::Asterisk => "*"@,
            Infix::Slash => "/"@,
        }
    }

    /// How the operator is written.
    pub fn symbol(&self) -> (symbol: &'static str)
        ensures
            symbol@ == self.spec_symbol(),
    {
        match self {
            Infix::Eq => "==",
            Infix::NotEq => "!=",
            Infix::Lt => "<",
            Infix::Gt => ">",
            Infix::Plus => "+",
            Infix::Minus => "-",
            Infix::Asterisk => "*",
            Infix::Slash => "/",
        }
    }
}

/// Different operators are written differently, each as in a program.
pub proof fn lemma_symbols(one: Infix, other: Infix)
    ensures
        one.spec_symbol() == other.spec_symbol() <==> one == other,
        Infix::Eq.spec_symbol() == seq!['=', '='],
        Infix::NotEq.spec_symbol() == seq!['!', '='],
        Infix::Lt.spec_symbol() == seq!['<'],
        Infix::Gt.spec_symbol() == seq!['>'],
        Infix::Plus.spec_symbol() == seq!['+'],
        Infix::Minus.spec_symbol() == seq!['-'],
        Infix::Asterisk.spec_symbol() == seq!['*'],
        Infix::Slash.spec_symbol() == seq!['/'],
        Prefix::Bang.spec_symbol() == seq!['!'],
        Prefix::Minus.spec_symbol() == seq!['-'],
{
    reveal_strlit("==");
    reveal_strlit("!=");
    reveal_strlit("<");
    reveal_strlit(">");
    reveal_strlit("+");
    reveal_strlit("-");
    reveal_strlit("*");
    reveal_strlit("/");
    reveal_strlit("!");
    assert(one.spec_symbol()[0] == other.spec_symbol()[0] ==> one == other);
}

} // verus!
