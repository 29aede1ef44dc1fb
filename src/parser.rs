use vstd::prelude::*;

use crate::token::Token;

verus! {

/// The tree a parse builds. The grammar has no rules yet, so it carries nothing.
#[derive(Clone, Copy, Debug, PartialEq, Eq, Structural)]
pub struct ParseTree;

/// The structural parser that consumes the token stream.
#[derive(Clone, Copy, Debug, PartialEq, Eq, Structural)]
pub struct Parser;

impl Parser {
    pub fn new() -> (r: Parser)
        ensures
            r == Parser,
    {
        Parser
    }

    /// Consume a token stream and build its parse tree. With no grammar
    /// rules yet every stream gives the empty tree.
    pub fn parse(&self, tokens: Vec<Token>) -> (r: ParseTree)
        ensures
            r == ParseTree,
    {
        let mut i: usize = 0;
        while i < tokens.len()
            invariant
                i <= tokens@.len(),
            decreases tokens@.len() - i,
        {
            i = i + 1;
        }
        ParseTree
    }
}

} // verus!
