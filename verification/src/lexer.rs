//! From text to the tokens of the argument grammar.
//!
//! Splitting text into tokens, telling a keyword from a name and reading the
//! value of a string literal are the work of `proc_macro2` and `syn`. What
//! they return is named here, not defined: the functions of this module say
//! what the library makes of those results.
//!
//! `proc_macro2` has two implementations, its own and, inside a macro
//! expansion, the compiler's. Every trusted function of this library first
//! calls `proc_macro2::fallback::force`, which selects `proc_macro2`'s own,
//! so that what is named depends on the text alone. The selection stays in
//! force when the library returns: a caller inside a macro expansion calls
//! `proc_macro2::fallback::unforce` before it uses `proc_macro2` itself.
//! The selection is one switch for the whole process. The library never
//! switches back; a program that does so from another thread while a
//! function of the library runs is outside what is claimed.

use vstd::prelude::*;
use crate::token::{Delimiter, Lexeme, LexemeView, Token, TokenView, Tree, TreeView};
use proc_macro2::TokenTree;

verus! {

/// The tokens that `text` consists of by `proc_macro2`'s own lexer, one
/// level deep, or `None` where that lexer turns the text down (an unbalanced
/// delimiter, a character that no token starts with).
pub uninterp spec fn lexemes(text: Seq<char>) -> Option<Seq<LexemeView>>;

/// Whether `word` is an identifier that may name a declaration: one
/// identifier by `proc_macro2`'s own lexer that `syn` takes for neither a
/// keyword nor `_`.
pub uninterp spec fn is_name(word: Seq<char>) -> bool;

/// The string that the literal `literal` denotes, or `None` where it is no
/// string literal.
pub uninterp spec fn string_value(literal: Seq<char>) -> Option<Seq<char>>;

/// `proc_macro2::fallback::force`, then `proc_macro2::TokenStream::from_str`,
/// followed by one step of the stream's iterator per token.
///
/// Claimed: the result is `lexemes` of the text, and `None` exactly where
/// `from_str` fails. Each token tree is handed out as it is: an identifier
/// and a literal by `to_string`, a punctuation character by `as_char`, a
/// group by `delimiter` and by `to_string` of its `stream`. Spans are left
/// behind. After `force` the lexer and the printer are `proc_macro2`'s own,
/// which read nothing but the text.
#[verifier::external_body]
fn lex(text: &str) -> (found: Option<Vec<Lexeme>>)
    ensures
        found.deep_view() == lexemes(text@),
{
    proc_macro2::fallback::force();
    let stream = text.parse::<proc_macro2::TokenStream>().ok()?;
    Some(stream.into_iter().map(|tree| match tree {
        TokenTree::Ident(word) => Lexeme::Word(word.to_string()),
        TokenTree::Punct(punct) => Lexeme::Punct(punct.as_char()),
        TokenTree::Literal(literal) => Lexeme::Literal(literal.to_string()),
        TokenTree::Group(group) => Lexeme::Group(match group.delimiter() {
            proc_macro2::Delimiter::Parenthesis => Delimiter::Parenthesis,
            proc_macro2::Delimiter::Brace => Delimiter::Brace,
            proc_macro2::Delimiter::Bracket => Delimiter::Bracket,
            proc_macro2::Delimiter::None => Delimiter::Invisible,
        }, group.stream().to_string()),
    }).collect())
}

/// `proc_macro2::fallback::force`, then `syn::parse_str::<syn::Ident>`.
///
/// Claimed: the result is `is_name` of the word, that is, whether `syn`
/// reads the whole of `word`, split by `proc_macro2`'s own lexer, as one
/// identifier.
#[verifier::external_body]
fn reads_as_name(word: &str) -> (yes: bool)
    ensures
        yes == is_name(word@),
{
    proc_macro2::fallback::force();
    syn::parse_str::<syn::Ident>(word).is_ok()
}

/// `proc_macro2::fallback::force`, then `syn::parse_str::<syn::LitStr>` and
/// `syn::LitStr::value`.
///
/// Claimed: the result is `string_value` of the literal: the unescaped
/// content where `syn` reads the whole of `literal`, split by
/// `proc_macro2`'s own lexer, as one string literal, and `None` where it
/// does not.
#[verifier::external_body]
fn reads_as_string(literal: &str) -> (value: Option<String>)
    ensures
        value.deep_view() == string_value(literal@),
{
    proc_macro2::fallback::force();
    syn::parse_str::<syn::LitStr>(literal).ok().map(|parsed| parsed.value())
}

/// What the argument grammar makes of one token inside a group.
pub open spec fn token_of(lexeme: LexemeView) -> TokenView {
    match lexeme {
        LexemeView::Word(word) => if is_name(word) {
            TokenView::Name(word)
        } else {
            TokenView::Other
        },
        LexemeView::Punct(c) => if c == ',' {
            TokenView::Comma
        } else if c == '=' {
            TokenView::Equals
        } else {
            TokenView::Other
        },
        LexemeView::Literal(literal) => match string_value(literal) {
            Some(value) => TokenView::Str(value),
            None => TokenView::Other,
        },
        LexemeView::Group(_, _) => TokenView::Other,
    }
}

/// What the argument grammar makes of one token of the top level: a
/// parenthesised group is opened, every other token is taken as it is.
pub open spec fn tree_of(lexeme: LexemeView) -> TreeView {
    match lexeme {
        LexemeView::Group(Delimiter::Parenthesis, inner) => match lexemes(inner) {
            Some(inside) => TreeView::Parens(inside.map_values(|l: LexemeView| token_of(l))),
            None => TreeView::Leaf(TokenView::Other),
        },
        _ => TreeView::Leaf(token_of(lexeme)),
    }
}

/// The argument list that `text` holds, before the grammar is applied.
pub open spec fn trees(text: Seq<char>) -> Option<Seq<TreeView>> {
    match lexemes(text) {
        Some(top) => Some(top.map_values(|l: LexemeView| tree_of(l))),
        None => None,
    }
}

/// Classifies one token.
pub fn classify(lexeme: &Lexeme) -> (token: Token)
    ensures
        token.deep_view() == token_of(lexeme.deep_view()),
{
    match lexeme {
        Lexeme::Word(word) => {
            if reads_as_name(word.as_str()) {
                Token::Name(word.clone())
            } else {
                Token::Other
            }
        },
        Lexeme::Punct(c) => {
            if *c == ',' {
                Token::Comma
            } else if *c == '=' {
                Token::Equals
            } else {
                Token::Other
            }
        },
        Lexeme::Literal(literal) => match reads_as_string(literal.as_str()) {
            Some(value) => Token::Str(value),
            None => Token::Other,
        },
        Lexeme::Group(_, _) => Token::Other,
    }
}

/// Classifies the tokens of a group, in order.
pub fn classify_all(lexemes: &Vec<Lexeme>) -> (tokens: Vec<Token>)
    ensures
        tokens.deep_view() == lexemes.deep_view().map_values(|l: LexemeView| token_of(l)),
{
    let mut tokens: Vec<Token> = Vec::new();
    let mut i: usize = 0;
    while i < lexemes.len()
        invariant
            i <= lexemes.len(),
            tokens.len() == i,
            forall|k: int| 0 <= k < i ==> tokens[k].deep_view() == token_of(lexemes[k].deep_view()),
        decreases lexemes.len() - i,
    {
        tokens.push(classify(&lexemes[i]));
        i += 1;
    }
    assert(tokens.deep_view() =~= lexemes.deep_view().map_values(|l: LexemeView| token_of(l)));
    tokens
}

/// Reads one token of the top level.
pub fn open_group(lexeme: &Lexeme) -> (tree: Tree)
    ensures
        tree.deep_view() == tree_of(lexeme.deep_view()),
{
    match lexeme {
        Lexeme::Group(Delimiter::Parenthesis, inner) => match lex(inner.as_str()) {
            Some(inside) => Tree::Parens(classify_all(&inside)),
            None => Tree::Leaf(Token::Other),
        },
        _ => Tree::Leaf(classify(lexeme)),
    }
}

/// Reads an argument list from text: `None` where the text is no sequence of
/// tokens.
pub fn scan(text: &str) -> (found: Option<Vec<Tree>>)
    ensures
        found.deep_view() == trees(text@),
{
    match lex(text) {
        None => None,
        Some(top) => {
            let mut out: Vec<Tree> = Vec::new();
            let mut i: usize = 0;
            while i < top.len()
                invariant
                    i <= top.len(),
                    out.len() == i,
                    forall|k: int| 0 <= k < i ==> out[k].deep_view() == tree_of(top[k].deep_view()),
                decreases top.len() - i,
            {
                out.push(open_group(&top[i]));
                i += 1;
            }
            assert(out.deep_view() =~= top.deep_view().map_values(|l: LexemeView| tree_of(l)));
            Some(out)
        },
    }
}

/// Whether every name among the tokens is an identifier that may name a
/// declaration.
pub open spec fn well_named_tokens(tokens: Seq<TokenView>) -> bool {
    forall|j: int| 0 <= j < tokens.len() && tokens[j] is Name ==> is_name(#[trigger] tokens[j]->Name_0)
}

/// Whether every name in the argument list, at the top level and inside a
/// group, is an identifier that may name a declaration.
pub open spec fn well_named(trees: Seq<TreeView>) -> bool {
    forall|i: int|
        0 <= i < trees.len() ==> match #[trigger] trees[i] {
            TreeView::Leaf(token) => token matches TokenView::Name(name) ==> is_name(name),
            TreeView::Parens(inside) => well_named_tokens(inside),
        }
}

/// Every name that is read from text is an identifier that may name a
/// declaration.
pub proof fn lemma_scanned_names(text: Seq<char>)
    requires
        trees(text) is Some,
    ensures
        well_named(trees(text)->Some_0),
{
    let top = lexemes(text)->Some_0;
    let found = trees(text)->Some_0;
    assert forall|i: int| 0 <= i < found.len() implies match #[trigger] found[i] {
        TreeView::Leaf(token) => token matches TokenView::Name(name) ==> is_name(name),
        TreeView::Parens(inside) => well_named_tokens(inside),
    } by {
        assert(found[i] == tree_of(top[i]));
    }
}

} // verus!
