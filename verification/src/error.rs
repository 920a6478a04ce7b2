//! What can go wrong, and where.

use vstd::prelude::*;

verus! {

/// Why an argument list was turned down.
#[derive(Clone, Copy, Debug, PartialEq, Eq, Structural)]
pub enum Fault {
    /// The text is no sequence of tokens.
    Unreadable,
    /// The list holds no entry.
    Empty,
    /// An identifier was expected: at the start of an entry, or as the alias
    /// name inside `deprecated(...)`.
    ExpectedName,
    /// A comma was expected: after an entry, or before a key inside
    /// `deprecated(...)`.
    ExpectedComma,
    /// `deprecated` is not followed by a parenthesised group: the list ends
    /// behind it, or a comma or any other token follows.
    ExpectedParentheses,
    /// A name other than `deprecated` is followed by a parenthesised group.
    /// Reported at the name.
    OnlyDeprecated,
    /// What follows a comma inside `deprecated(...)` is not of the form
    /// `key = "string"`.
    ExpectedKeyValue,
    /// A key other than `since` and `note`.
    UnknownKey,
}

/// A fault and the token at which it was found.
#[derive(Clone, Copy, Debug, PartialEq, Eq)]
pub struct ArgError {
    pub fault: Fault,
    /// Index of the offending token in the argument list, counting a
    /// parenthesised group as one token. Equal to the number of tokens where
    /// the list ended too early. For a fault inside `deprecated(...)`, the
    /// index of the group.
    pub at: usize,
    /// For a fault inside `deprecated(...)`, the index of the offending token
    /// in the group, or the number of its tokens where the group ended too
    /// early.
    pub inside: Option<usize>,
}

/// Mathematical value of an [`ArgError`].
pub struct ArgErrorView {
    pub fault: Fault,
    pub at: int,
    pub inside: Option<int>,
}

impl DeepView for ArgError {
    type V = ArgErrorView;

    open spec fn deep_view(&self) -> ArgErrorView {
        ArgErrorView {
            fault: self.fault,
            at: self.at as int,
            inside: match self.inside {
                Some(j) => Some(j as int),
                None => None,
            },
        }
    }
}

/// Why no aliases were produced.
#[derive(Clone, Copy, Debug, PartialEq, Eq)]
pub enum AliasError {
    /// The argument list does not follow the grammar.
    MalformedArguments(ArgError),
    /// The declaration is an item, but not a function, a structure, a
    /// trait, an implementation block or a constant.
    UnsupportedDeclaration,
    /// What was given for a declaration is not one item.
    NotADeclaration,
    /// The implementation block is for a type that is not written as a path,
    /// so it has no leading segment to rename.
    MalformedSelfType,
}

/// Mathematical value of an [`AliasError`].
pub enum AliasErrorView {
    MalformedArguments(ArgErrorView),
    UnsupportedDeclaration,
    NotADeclaration,
    MalformedSelfType,
}

impl DeepView for AliasError {
    type V = AliasErrorView;

    open spec fn deep_view(&self) -> AliasErrorView {
        match self {
            AliasError::MalformedArguments(e) => AliasErrorView::MalformedArguments(e.deep_view()),
            AliasError::UnsupportedDeclaration => AliasErrorView::UnsupportedDeclaration,
            AliasError::NotADeclaration => AliasErrorView::NotADeclaration,
            AliasError::MalformedSelfType => AliasErrorView::MalformedSelfType,
        }
    }
}

/// The diagnostic for each fault.
pub open spec fn fault_message(fault: Fault) -> Seq<char> {
    match fault {
        Fault::Unreadable => "arguments are not a sequence of tokens"@,
        Fault::Empty => "expected at least one alias"@,
        Fault::ExpectedName => "expected identifier"@,
        Fault::ExpectedComma => "expected `,`"@,
        Fault::ExpectedParentheses => "expected parentheses"@,
        Fault::OnlyDeprecated => "invalid argument, only `deprecated` is supported"@,
        Fault::ExpectedKeyValue => "expected a key-value pair"@,
        Fault::UnknownKey => "invalid argument, only `since` and `note` are supported"@,
    }
}

/// The diagnostic for each error.
pub open spec fn error_message(error: AliasErrorView) -> Seq<char> {
    match error {
        AliasErrorView::MalformedArguments(e) => fault_message(e.fault),
        AliasErrorView::UnsupportedDeclaration => "unsupported item"@,
        AliasErrorView::NotADeclaration => "expected an item"@,
        AliasErrorView::MalformedSelfType => "implementation target is not a named type"@,
    }
}

impl Fault {
    /// The diagnostic text.
    pub fn message(&self) -> (text: String)
        ensures
            text@ == fault_message(*self),
    {
        match self {
            Fault::Unreadable => "arguments are not a sequence of tokens".to_owned(),
            Fault::Empty => "expected at least one alias".to_owned(),
            Fault::ExpectedName => "expected identifier".to_owned(),
            Fault::ExpectedComma => "expected `,`".to_owned(),
            Fault::ExpectedParentheses => "expected parentheses".to_owned(),
            Fault::OnlyDeprecated => "invalid argument, only `deprecated` is supported".to_owned(),
            Fault::ExpectedKeyValue => "expected a key-value pair".to_owned(),
            Fault::UnknownKey => "invalid argument, only `since` and `note` are supported".to_owned(),
        }
    }
}

impl AliasError {
    /// The diagnostic text.
    pub fn message(&self) -> (text: String)
        ensures
            text@ == error_message(self.deep_view()),
    {
        match self {
            AliasError::MalformedArguments(e) => e.fault.message(),
            AliasError::UnsupportedDeclaration => "unsupported item".to_owned(),
            AliasError::NotADeclaration => "expected an item".to_owned(),
            AliasError::MalformedSelfType => "implementation target is not a named type".to_owned(),
        }
    }
}

} // verus!
