//! The vocabulary of syntax highlighting.

use vstd::prelude::*;

verus! {

/// What a highlighted span of source text is.
#[derive(Debug, Clone, Copy, PartialEq, Eq, Structural)]
pub enum TokenType {
    Keyword,
    Function,
    Variable,
    Constant,
    String,
    Comment,
    Type,
    Operator,
    Markup,
    Math,
    Label,
    Reference,
}

/// A span of source text with its kind.
pub struct HighlightToken {
    pub start: usize,
    pub end: usize,
    pub token_type: TokenType,
}

/// The kinds of syntax node that highlighting tells apart. Every other kind
/// is `Other`.
#[derive(Debug, Clone, Copy, PartialEq, Eq, Structural)]
pub enum SyntaxClass {
    KwLet,
    KwSet,
    KwShow,
    KwIf,
    KwElse,
    KwFor,
    KwWhile,
    KwBreak,
    KwContinue,
    KwReturn,
    KwImport,
    KwInclude,
    KwAs,
    KwIn,
    KwNot,
    KwAnd,
    KwOr,
    FuncCall,
    Ident,
    Str,
    RawLang,
    RawTrimmed,
    Int,
    Decimal,
    Bool,
    LineComment,
    BlockComment,
    Plus,
    Minus,
    Star,
    Slash,
    Assign,
    EqEq,
    ExclEq,
    Lt,
    LtEq,
    Gt,
    GtEq,
    Math,
    MathAlignPoint,
    MathIdent,
    Markup,
    Strong,
    Emph,
    Heading,
    Label,
    Ref,
    Other,
}

/// How a kind of syntax node is highlighted, if it is.
pub open spec fn token_type_spec(class: SyntaxClass) -> Option<TokenType> {
    match class {
        SyntaxClass::KwLet
        | SyntaxClass::KwSet
        | SyntaxClass::KwShow
        | SyntaxClass::KwIf
        | SyntaxClass::KwElse
        | SyntaxClass::KwFor
        | SyntaxClass::KwWhile
        | SyntaxClass::KwBreak
        | SyntaxClass::KwContinue
        | SyntaxClass::KwReturn
        | SyntaxClass::KwImport
        | SyntaxClass::KwInclude
        | SyntaxClass::KwAs
        | SyntaxClass::KwIn
        | SyntaxClass::KwNot
        | SyntaxClass::KwAnd
        | SyntaxClass::KwOr => Some(TokenType::Keyword),
        SyntaxClass::FuncCall => Some(TokenType::Function),
        SyntaxClass::Ident => Some(TokenType::Variable),
        SyntaxClass::Str | SyntaxClass::RawLang | SyntaxClass::RawTrimmed => Some(TokenType::String),
        SyntaxClass::Int | SyntaxClass::Decimal | SyntaxClass::Bool => Some(TokenType::Constant),
        SyntaxClass::LineComment | SyntaxClass::BlockComment => Some(TokenType::Comment),
        SyntaxClass::Plus
        | SyntaxClass::Minus
        | SyntaxClass::Star
        | SyntaxClass::Slash
        | SyntaxClass::Assign
        | SyntaxClass::EqEq
        | SyntaxClass::ExclEq
        | SyntaxClass::Lt
        | SyntaxClass::LtEq
        | SyntaxClass::Gt
        | SyntaxClass::GtEq => Some(TokenType::Operator),
        SyntaxClass::Math | SyntaxClass::MathAlignPoint | SyntaxClass::MathIdent => Some(
            TokenType::Math,
        ),
        SyntaxClass::Markup | SyntaxClass::Strong | SyntaxClass::Emph | SyntaxClass::Heading => Some(
            TokenType::Markup,
        ),
        SyntaxClass::Label => Some(TokenType::Label),
        SyntaxClass::Ref => Some(TokenType::Reference),
        SyntaxClass::Other => None,
    }
}

/// A syntax tree as highlighting sees it: the kind of each node and its
/// children in order.
pub struct SyntaxTree {
    pub kind: SyntaxClass,
    pub children: Vec<SyntaxTree>,
}

/// The token types of a tree in document order: that of the node itself, if
/// it has one, and then those of its children, one child after the other.
pub open spec fn tree_tokens(tree: SyntaxTree) -> Seq<TokenType>
    decreases tree,
{
    let own = match token_type_spec(tree.kind) {
        Some(t) => seq![t],
        None => Seq::empty(),
    };
    own + forest_tokens(tree.children@, tree.children@.len() as int)
}

/// The token types of the first `n` trees of a list, in document order.
pub open spec fn forest_tokens(trees: Seq<SyntaxTree>, n: int) -> Seq<TokenType>
    decreases trees, n,
{
    if n <= 0 || n > trees.len() {
        Seq::empty()
    } else {
        forest_tokens(trees, n - 1) + tree_tokens(trees[n - 1])
    }
}

/// The types of a list of tokens.
pub open spec fn token_types(tokens: Seq<HighlightToken>) -> Seq<TokenType> {
    Seq::new(tokens.len(), |i: int| tokens[i].token_type)
}

/// Whether a theme is light or dark.
#[derive(Debug, Clone, Copy, PartialEq, Eq, Structural)]
pub enum ThemeVariant {
    Light,
    Dark,
}

/// Turns source text into highlight tokens.
pub struct SyntaxHighlighter {}

impl SyntaxHighlighter {
    pub fn new() -> SyntaxHighlighter {
        SyntaxHighlighter {  }
    }

    /// How a kind of syntax node is highlighted, if it is.
    pub fn token_type_of(class: SyntaxClass) -> (r: Option<TokenType>)
        ensures
            r == token_type_spec(class),
    {
        match class {
            SyntaxClass::KwLet
            | SyntaxClass::KwSet
            | SyntaxClass::KwShow
            | SyntaxClass::KwIf
            | SyntaxClass::KwElse
            | SyntaxClass::KwFor
            | SyntaxClass::KwWhile
            | SyntaxClass::KwBreak
            | SyntaxClass::KwContinue
            | SyntaxClass::KwReturn
            | SyntaxClass::KwImport
            | SyntaxClass::KwInclude
            | SyntaxClass::KwAs
            | SyntaxClass::KwIn
            | SyntaxClass::KwNot
            | SyntaxClass::KwAnd
            | SyntaxClass::KwOr => Some(TokenType::Keyword),
            SyntaxClass::FuncCall => Some(TokenType::Function),
            SyntaxClass::Ident => Some(TokenType::Variable),
            SyntaxClass::Str | SyntaxClass::RawLang | SyntaxClass::RawTrimmed => Some(
                TokenType::String,
            ),
            SyntaxClass::Int | SyntaxClass::Decimal | SyntaxClass::Bool => Some(
                TokenType::Constant,
            ),
            SyntaxClass::LineComment | SyntaxClass::BlockComment => Some(TokenType::Comment),
            SyntaxClass::Plus
            | SyntaxClass::Minus
            | SyntaxClass::Star
            | SyntaxClass::Slash
            | SyntaxClass::Assign
            | SyntaxClass::EqEq
            | SyntaxClass::ExclEq
            | SyntaxClass::Lt
            | SyntaxClass::LtEq
            | SyntaxClass::Gt
            | SyntaxClass::GtEq => Some(TokenType::Operator),
            SyntaxClass::Math | SyntaxClass::MathAlignPoint | SyntaxClass::MathIdent => Some(
                TokenType::Math,
            ),
            SyntaxClass::Markup
            | SyntaxClass::Strong
            | SyntaxClass::Emph
            | SyntaxClass::Heading => Some(TokenType::Markup),
            SyntaxClass::Label => Some(TokenType::Label),
            SyntaxClass::Ref => Some(TokenType::Reference),
            SyntaxClass::Other => None,
        }
    }

    /// The highlight tokens of a tree in document order. The tokens carry
    /// their type; their offsets are 0.
    pub fn extract_tokens(tree: &SyntaxTree) -> (tokens: Vec<HighlightToken>)
        ensures
            token_types(tokens@) == tree_tokens(*tree),
            forall|i: int| 0 <= i < tokens@.len() ==> tokens@[i].start == 0 && tokens@[i].end == 0,
    {
        let mut tokens: Vec<HighlightToken> = Vec::new();
        SyntaxHighlighter::collect_tokens(tree, &mut tokens);
        assert(token_types(tokens@) =~= tree_tokens(*tree));
        tokens
    }

    fn collect_tokens(tree: &SyntaxTree, tokens: &mut Vec<HighlightToken>)
        requires
            forall|i: int|
                0 <= i < old(tokens)@.len() ==> old(tokens)@[i].start == 0 && old(tokens)@[i].end
                    == 0,
        ensures
            token_types(final(tokens)@) == token_types(old(tokens)@) + tree_tokens(*tree),
            forall|i: int|
                0 <= i < final(tokens)@.len() ==> final(tokens)@[i].start == 0 && final(tokens)@[i].end == 0,
        decreases tree,
    {
        let ghost before = token_types(tokens@);
        match SyntaxHighlighter::token_type_of(tree.kind) {
            Some(token_type) => {
                tokens.push(HighlightToken { start: 0, end: 0, token_type });
                assert(token_types(tokens@) =~= before + seq![token_type]);
            },
            None => {
                assert(token_types(tokens@) =~= before + Seq::<TokenType>::empty());
            },
        }
        let ghost own = token_types(tokens@);
        let mut i: usize = 0;
        while i < tree.children.len()
            invariant
                i <= tree.children@.len(),
                token_types(tokens@) == own + forest_tokens(tree.children@, i as int),
                forall|k: int| 0 <= k < tokens@.len() ==> tokens@[k].start == 0 && tokens@[k].end == 0,
            decreases tree.children@.len() - i,
        {
            SyntaxHighlighter::collect_tokens(&tree.children[i], tokens);
            assert(token_types(tokens@) =~= own + forest_tokens(tree.children@, i + 1));
            i = i + 1;
        }
        assert(token_types(tokens@) =~= before + tree_tokens(*tree));
    }
}

} // verus!
