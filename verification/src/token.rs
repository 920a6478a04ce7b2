//! Tokens of an alias argument list.

use vstd::prelude::*;

verus! {

/// How a group of tokens is enclosed.
#[derive(Clone, Copy, Debug, PartialEq, Eq, Structural)]
pub enum Delimiter {
    Parenthesis,
    Brace,
    Bracket,
    /// No visible delimiter.
    Invisible,
}

/// One token as the lexer hands it out. A group keeps what stands between its
/// delimiters as text until somebody has to look inside.
#[derive(Clone, Debug, PartialEq, Eq)]
pub enum Lexeme {
    /// An identifier or a keyword.
    Word(String),
    /// A single punctuation character.
    Punct(char),
    /// A literal, as written.
    Literal(String),
    /// A delimited group and the text between its delimiters.
    Group(Delimiter, String),
}

/// Mathematical value of a [`Lexeme`].
pub enum LexemeView {
    Word(Seq<char>),
    Punct(char),
    Literal(Seq<char>),
    Group(Delimiter, Seq<char>),
}

impl DeepView for Lexeme {
    type V = LexemeView;

    open spec fn deep_view(&self) -> LexemeView {
        match self {
            Lexeme::Word(w) => LexemeView::Word(w@),
            Lexeme::Punct(c) => LexemeView::Punct(*c),
            Lexeme::Literal(l) => LexemeView::Literal(l@),
            Lexeme::Group(d, inner) => LexemeView::Group(*d, inner@),
        }
    }
}

/// A token as the argument grammar sees it.
#[derive(Clone, Debug, PartialEq, Eq)]
pub enum Token {
    /// An identifier that can name a declaration.
    Name(String),
    /// `,`
    Comma,
    /// `=`
    Equals,
    /// A string literal, by the string it denotes.
    Str(String),
    /// Anything else.
    Other,
}

/// Mathematical value of a [`Token`].
pub enum TokenView {
    Name(Seq<char>),
    Comma,
    Equals,
    Str(Seq<char>),
    Other,
}

impl DeepView for Token {
    type V = TokenView;

    open spec fn deep_view(&self) -> TokenView {
        match self {
            Token::Name(n) => TokenView::Name(n@),
            Token::Comma => TokenView::Comma,
            Token::Equals => TokenView::Equals,
            Token::Str(s) => TokenView::Str(s@),
            Token::Other => TokenView::Other,
        }
    }
}

/// A token of the top level of an argument list: a single token, or a
/// parenthesised group with the tokens inside it.
#[derive(Clone, Debug, PartialEq, Eq)]
pub enum Tree {
    Leaf(Token),
    Parens(Vec<Token>),
}

/// Mathematical value of a [`Tree`].
pub enum TreeView {
    Leaf(TokenView),
    Parens(Seq<TokenView>),
}

impl DeepView for Tree {
    type V = TreeView;

    open spec fn deep_view(&self) -> TreeView {
        match self {
            Tree::Leaf(t) => TreeView::Leaf(t.deep_view()),
            Tree::Parens(inner) => TreeView::Parens(inner.deep_view()),
        }
    }
}

} // verus!
