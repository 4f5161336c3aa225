use vstd::prelude::*;

verus! {

/// The token types of sTeX semantic highlighting, by their index in the
/// legend the language server announces.
pub struct STeXSemanticTokens;

impl STeXSemanticTokens {
    pub const NAME: u32 = 0;
    pub const KEYWORD: u32 = 1;
    pub const SYMBOL: u32 = 2;
    pub const DECLARATION: u32 = 3;
    pub const REF_MACRO: u32 = 4;
    pub const VARIABLE: u32 = 5;
    pub const LOCAL: u32 = 6;
    pub const OPERATOR: u32 = 7;
    pub const TYPE_PARAMETER: u32 = 8;
    pub const TYPE: u32 = 9;
    pub const ENUM: u32 = 10;
    pub const MODIFIER: u32 = 11;
    pub const COMMENT: u32 = 12;
    pub const DECORATOR: u32 = 13;
}

} // verus!
