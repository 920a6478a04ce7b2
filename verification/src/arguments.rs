//! The alias argument list and its grammar.
//!
//! ```text
//! list  = entry ("," entry)* ","?
//! entry = "deprecated" "(" name ("," key "=" string)* ","? ")"  |  name
//! key   = "since" | "note"
//! ```
//!
//! The word `deprecated` always opens the first form: without its group it
//! is a fault, so no plain entry has that name. A key that is given twice
//! keeps the value given last.

use vstd::prelude::*;
use crate::error::{ArgError, ArgErrorView, Fault};
use crate::lexer::{is_name, well_named, well_named_tokens};
use crate::token::{Token, TokenView, Tree, TreeView};

verus! {

/// An alias that is marked as deprecated.
#[derive(Clone, Debug, PartialEq, Eq)]
pub struct Deprecated {
    pub name: String,
    pub since: Option<String>,
    pub note: Option<String>,
}

/// Mathematical value of a [`Deprecated`].
pub struct DeprecatedView {
    pub name: Seq<char>,
    pub since: Option<Seq<char>>,
    pub note: Option<Seq<char>>,
}

impl DeepView for Deprecated {
    type V = DeprecatedView;

    open spec fn deep_view(&self) -> DeprecatedView {
        DeprecatedView {
            name: self.name@,
            since: self.since.deep_view(),
            note: self.note.deep_view(),
        }
    }
}

/// One entry of the argument list: the name under which the declaration is
/// emitted once more.
#[derive(Clone, Debug, PartialEq, Eq)]
pub enum Alias {
    Deprecated(Deprecated),
    Name(String),
}

/// Mathematical value of an [`Alias`].
pub enum AliasView {
    Deprecated(DeprecatedView),
    Name(Seq<char>),
}

impl AliasView {
    /// The name that the alias gives to the declaration.
    pub open spec fn ident(self) -> Seq<char> {
        match self {
            AliasView::Deprecated(d) => d.name,
            AliasView::Name(name) => name,
        }
    }
}

impl DeepView for Alias {
    type V = AliasView;

    open spec fn deep_view(&self) -> AliasView {
        match self {
            Alias::Deprecated(d) => AliasView::Deprecated(d.deep_view()),
            Alias::Name(name) => AliasView::Name(name@),
        }
    }
}

impl Alias {
    /// The name that the alias gives to the declaration.
    pub fn get_ident(&self) -> (name: String)
        ensures
            name@ == self.deep_view().ident(),
    {
        match self {
            Alias::Deprecated(d) => d.name.clone(),
            Alias::Name(name) => name.clone(),
        }
    }
}

/// Whether `key = "string"` stands at `at`.
pub open spec fn is_pair(tokens: Seq<TokenView>, at: int) -> bool {
    &&& 0 <= at
    &&& at + 2 < tokens.len()
    &&& tokens[at] is Name
    &&& tokens[at + 1] == TokenView::Equals
    &&& tokens[at + 2] is Str
}

/// What is read from `at` on, where `at` is the place just behind the alias
/// name or behind a pair, and `so_far` is what was read before.
pub open spec fn pairs_from(tokens: Seq<TokenView>, at: int, so_far: DeprecatedView) -> Result<
    DeprecatedView,
    (Fault, int),
>
    decreases tokens.len() - at,
{
    if at < 0 || at >= tokens.len() {
        Ok(so_far)
    } else if tokens[at] != TokenView::Comma {
        Err((Fault::ExpectedComma, at))
    } else if at + 1 == tokens.len() {
        Ok(so_far)
    } else if !is_pair(tokens, at + 1) {
        Err((Fault::ExpectedKeyValue, at + 1))
    } else if tokens[at + 1]->Name_0 == "since"@ {
        pairs_from(
            tokens,
            at + 4,
            DeprecatedView { since: Some(tokens[at + 3]->Str_0), ..so_far },
        )
    } else if tokens[at + 1]->Name_0 == "note"@ {
        pairs_from(
            tokens,
            at + 4,
            DeprecatedView { note: Some(tokens[at + 3]->Str_0), ..so_far },
        )
    } else {
        Err((Fault::UnknownKey, at + 1))
    }
}

/// What the tokens between the parentheses of `deprecated(...)` mean: the
/// alias, or the fault and the index of the token at which it was found.
pub open spec fn parsed_body(tokens: Seq<TokenView>) -> Result<DeprecatedView, (Fault, int)> {
    if tokens.len() > 0 && tokens[0] is Name {
        pairs_from(tokens, 1, DeprecatedView { name: tokens[0]->Name_0, since: None, note: None })
    } else {
        Err((Fault::ExpectedName, 0))
    }
}

/// Mathematical value of what [`Deprecated::parse`] returns.
pub open spec fn body_view(r: Result<Deprecated, (Fault, usize)>) -> Result<
    DeprecatedView,
    (Fault, int),
> {
    match r {
        Ok(d) => Ok(d.deep_view()),
        Err((fault, at)) => Err((fault, at as int)),
    }
}

/// Whether `text` is the word `word`.
fn is_word(text: &String, word: &str) -> (same: bool)
    ensures
        same == (text@ == word@),
{
    let other = word.to_owned();
    *text == other
}

impl Deprecated {
    /// Reads the tokens between the parentheses of `deprecated(...)`: the
    /// alias name, then `since` and `note` in any order and any number of
    /// times, each behind a comma; one more comma may end the group.
    pub fn parse(tokens: &Vec<Token>) -> (r: Result<Deprecated, (Fault, usize)>)
        ensures
            body_view(r) == parsed_body(tokens.deep_view()),
    {
        let ghost tv = tokens.deep_view();
        let n = tokens.len();
        if n == 0 {
            return Err((Fault::ExpectedName, 0));
        }
        let name = match &tokens[0] {
            Token::Name(name) => name.clone(),
            _ => {
                return Err((Fault::ExpectedName, 0));
            },
        };
        let mut since: Option<String> = None;
        let mut note: Option<String> = None;
        let mut at: usize = 1;
        while at < n
            invariant
                n == tokens.len(),
                tv == tokens.deep_view(),
                1 <= at <= n,
                parsed_body(tv) == pairs_from(
                    tv,
                    at as int,
                    DeprecatedView { name: name@, since: since.deep_view(), note: note.deep_view() },
                ),
            decreases n - at,
        {
            match &tokens[at] {
                Token::Comma => {},
                _ => {
                    return Err((Fault::ExpectedComma, at));
                },
            }
            let key_at = at + 1;
            if key_at == n {
                return Ok(Deprecated { name, since, note });
            }
            if n - key_at < 3 {
                return Err((Fault::ExpectedKeyValue, key_at));
            }
            let key = match &tokens[key_at] {
                Token::Name(key) => key,
                _ => {
                    return Err((Fault::ExpectedKeyValue, key_at));
                },
            };
            match &tokens[key_at + 1] {
                Token::Equals => {},
                _ => {
                    return Err((Fault::ExpectedKeyValue, key_at));
                },
            }
            let value = match &tokens[key_at + 2] {
                Token::Str(value) => value.clone(),
                _ => {
                    return Err((Fault::ExpectedKeyValue, key_at));
                },
            };
            if is_word(key, "since") {
                since = Some(value);
            } else if is_word(key, "note") {
                note = Some(value);
            } else {
                return Err((Fault::UnknownKey, key_at));
            }
            at = key_at + 3;
        }
        Ok(Deprecated { name, since, note })
    }
}

/// A fault at a token of the top level.
pub open spec fn fault_at(fault: Fault, at: int) -> ArgErrorView {
    ArgErrorView { fault, at, inside: None }
}

/// What the entry that starts at `at` means, and where the next token
/// behind it stands.
pub open spec fn parsed_entry(trees: Seq<TreeView>, at: int) -> Result<(AliasView, int), ArgErrorView> {
    if 0 <= at < trees.len() && trees[at] is Leaf && trees[at]->Leaf_0 is Name {
        let name = trees[at]->Leaf_0->Name_0;
        let group_follows = at + 1 < trees.len() && trees[at + 1] is Parens;
        if name == "deprecated"@ {
            if group_follows {
                match parsed_body(trees[at + 1]->Parens_0) {
                    Ok(d) => Ok((AliasView::Deprecated(d), at + 2)),
                    Err((fault, inside)) => Err(
                        ArgErrorView { fault, at: at + 1, inside: Some(inside) },
                    ),
                }
            } else {
                Err(fault_at(Fault::ExpectedParentheses, at + 1))
            }
        } else if group_follows {
            Err(fault_at(Fault::OnlyDeprecated, at))
        } else {
            Ok((AliasView::Name(name), at + 1))
        }
    } else {
        Err(fault_at(Fault::ExpectedName, at))
    }
}

/// What is read from `at` on, where `at` is the start of the list or the
/// place behind a comma, and `so_far` holds the entries read before.
pub open spec fn list_from(trees: Seq<TreeView>, at: int, so_far: Seq<AliasView>) -> Result<
    Seq<AliasView>,
    ArgErrorView,
>
    decreases trees.len() - at,
{
    if at < 0 || at >= trees.len() {
        if so_far.len() == 0 {
            Err(fault_at(Fault::Empty, at))
        } else {
            Ok(so_far)
        }
    } else {
        match parsed_entry(trees, at) {
            Err(e) => Err(e),
            Ok((alias, next)) => if next >= trees.len() {
                Ok(so_far.push(alias))
            } else if next > at && trees[next] == TreeView::Leaf(TokenView::Comma) {
                list_from(trees, next + 1, so_far.push(alias))
            } else {
                Err(fault_at(Fault::ExpectedComma, next))
            },
        }
    }
}

/// What an argument list means: its entries in the order in which they were
/// written, or the first fault.
pub open spec fn parsed_aliases(trees: Seq<TreeView>) -> Result<Seq<AliasView>, ArgErrorView> {
    list_from(trees, 0, Seq::empty())
}

/// Mathematical value of what [`Alias::parse`] returns.
pub open spec fn entry_view(r: Result<(Alias, usize), ArgError>) -> Result<
    (AliasView, int),
    ArgErrorView,
> {
    match r {
        Ok((alias, next)) => Ok((alias.deep_view(), next as int)),
        Err(e) => Err(e.deep_view()),
    }
}

impl Alias {
    /// Reads the entry that starts at `at`: the word `deprecated` with the
    /// parenthesised group that has to follow it, or a plain name, which no
    /// group may follow. Gives the entry and the index of the token behind
    /// it.
    pub fn parse(trees: &Vec<Tree>, at: usize) -> (r: Result<(Alias, usize), ArgError>)
        ensures
            entry_view(r) == parsed_entry(trees.deep_view(), at as int),
            r matches Ok((_, next)) ==> at < next <= trees.len(),
            at < trees.len() && trees.deep_view()[at as int] == TreeView::Leaf(
                TokenView::Name("deprecated"@),
            ) && !(at + 1 < trees.len() && trees.deep_view()[at + 1] is Parens) ==> (r matches Err(
                e,
            ) && e.fault == Fault::ExpectedParentheses && e.at == at + 1 && e.inside is None),
            r matches Ok((Alias::Name(name), _)) ==> name@ != "deprecated"@,
    {
        let ghost tv = trees.deep_view();
        let n = trees.len();
        if at >= n {
            return Err(ArgError { fault: Fault::ExpectedName, at, inside: None });
        }
        let name = match &trees[at] {
            Tree::Leaf(Token::Name(name)) => name,
            _ => {
                return Err(ArgError { fault: Fault::ExpectedName, at, inside: None });
            },
        };
        assert(tv[at as int] == trees[at as int].deep_view());
        let deprecated = is_word(name, "deprecated");
        let next = at + 1;
        if next < n {
            assert(tv[next as int] == trees[next as int].deep_view());
            match &trees[next] {
                Tree::Parens(inner) => {
                    if !deprecated {
                        return Err(ArgError { fault: Fault::OnlyDeprecated, at, inside: None });
                    }
                    return match Deprecated::parse(inner) {
                        Ok(d) => Ok((Alias::Deprecated(d), next + 1)),
                        Err((fault, inside)) => Err(
                            ArgError { fault, at: next, inside: Some(inside) },
                        ),
                    };
                },
                _ => {},
            }
        }
        if deprecated {
            return Err(ArgError { fault: Fault::ExpectedParentheses, at: next, inside: None });
        }
        Ok((Alias::Name(name.clone()), next))
    }
}

/// A list of aliases, in the order in which they were written. It is never
/// empty.
#[derive(Debug, PartialEq, Eq)]
pub struct Aliases {
    entries: Vec<Alias>,
}

impl DeepView for Aliases {
    type V = Seq<AliasView>;

    closed spec fn deep_view(&self) -> Seq<AliasView> {
        self.entries.deep_view()
    }
}

/// Mathematical value of what [`Aliases::parse`] returns.
pub open spec fn list_view(r: Result<Aliases, ArgError>) -> Result<Seq<AliasView>, ArgErrorView> {
    match r {
        Ok(aliases) => Ok(aliases.deep_view()),
        Err(e) => Err(e.deep_view()),
    }
}

impl Aliases {
    #[verifier::type_invariant]
    spec fn not_empty(self) -> bool {
        self.entries.len() >= 1
    }

    /// A list with the given entries: `None` where there is none.
    pub fn new(entries: Vec<Alias>) -> (made: Option<Aliases>)
        ensures
            made is Some <==> entries.len() >= 1,
            made matches Some(aliases) ==> aliases.deep_view() == entries.deep_view(),
    {
        if entries.len() >= 1 {
            Some(Aliases { entries })
        } else {
            None
        }
    }

    /// The number of entries.
    pub fn len(&self) -> (n: usize)
        ensures
            n == self.deep_view().len(),
            n >= 1,
    {
        proof {
            use_type_invariant(self);
        }
        self.entries.len()
    }

    /// The entry at `index`.
    pub fn get(&self, index: usize) -> (alias: &Alias)
        requires
            index < self.deep_view().len(),
        ensures
            alias.deep_view() == self.deep_view()[index as int],
    {
        &self.entries[index]
    }

    /// The entries, in order.
    pub fn into_vec(self) -> (entries: Vec<Alias>)
        ensures
            entries.deep_view() == self.deep_view(),
            entries.len() >= 1,
    {
        proof {
            use_type_invariant(&self);
        }
        self.entries
    }

    /// Reads an argument list: entries separated by commas, with at most one
    /// comma behind the last of them, and at least one entry.
    pub fn parse(trees: &Vec<Tree>) -> (r: Result<Aliases, ArgError>)
        ensures
            list_view(r) == parsed_aliases(trees.deep_view()),
    {
        let ghost tv = trees.deep_view();
        let n = trees.len();
        let mut entries: Vec<Alias> = Vec::new();
        let mut at: usize = 0;
        assert(entries.deep_view() =~= Seq::<AliasView>::empty());
        while at < n
            invariant
                n == trees.len(),
                tv == trees.deep_view(),
                at <= n,
                at == 0 <==> entries.len() == 0,
                parsed_aliases(tv) == list_from(tv, at as int, entries.deep_view()),
            decreases n - at,
        {
            let ghost before = entries.deep_view();
            let (alias, next) = match Alias::parse(trees, at) {
                Ok(pair) => pair,
                Err(e) => {
                    return Err(e);
                },
            };
            proof {
                assert(entries.deep_view().push(alias.deep_view()) =~= {
                    let after = entries@.push(alias);
                    Seq::new(after.len(), |i: int| after[i].deep_view())
                });
            }
            entries.push(alias);
            assert(entries.deep_view() =~= before.push(alias.deep_view()));
            if next == n {
                return Ok(Aliases { entries });
            }
            assert(tv[next as int] == trees[next as int].deep_view());
            match &trees[next] {
                Tree::Leaf(Token::Comma) => {},
                _ => {
                    return Err(ArgError { fault: Fault::ExpectedComma, at: next, inside: None });
                },
            }
            at = next + 1;
        }
        if entries.len() == 0 {
            return Err(ArgError { fault: Fault::Empty, at, inside: None });
        }
        Ok(Aliases { entries })
    }
}

/// Whether every alias of the list has an identifier for its name.
pub open spec fn all_named(aliases: Seq<AliasView>) -> bool {
    forall|i: int| 0 <= i < aliases.len() ==> is_name(#[trigger] aliases[i].ident())
}

/// Reading pairs leaves the alias name as it is.
proof fn lemma_pairs_keep_name(tokens: Seq<TokenView>, at: int, so_far: DeprecatedView)
    ensures
        pairs_from(tokens, at, so_far) matches Ok(d) ==> d.name == so_far.name,
    decreases tokens.len() - at,
{
    if 0 <= at < tokens.len() && tokens[at] == TokenView::Comma && at + 1 != tokens.len()
        && is_pair(tokens, at + 1) {
        if tokens[at + 1]->Name_0 == "since"@ {
            lemma_pairs_keep_name(
                tokens,
                at + 4,
                DeprecatedView { since: Some(tokens[at + 3]->Str_0), ..so_far },
            );
        } else if tokens[at + 1]->Name_0 == "note"@ {
            lemma_pairs_keep_name(
                tokens,
                at + 4,
                DeprecatedView { note: Some(tokens[at + 3]->Str_0), ..so_far },
            );
        }
    }
}

/// The alias that is read from a group has the first token of the group for
/// its name.
pub proof fn lemma_body_name(tokens: Seq<TokenView>)
    ensures
        parsed_body(tokens) matches Ok(d) ==> tokens.len() > 0 && tokens[0] == TokenView::Name(
            d.name,
        ),
{
    if tokens.len() > 0 && tokens[0] is Name {
        lemma_pairs_keep_name(
            tokens,
            1,
            DeprecatedView { name: tokens[0]->Name_0, since: None, note: None },
        );
    }
}

/// Where the names among the tokens are identifiers, so is the name of the
/// entry that is read.
proof fn lemma_entry_named(trees: Seq<TreeView>, at: int)
    requires
        well_named(trees),
    ensures
        parsed_entry(trees, at) matches Ok((alias, next)) ==> is_name(alias.ident()) && at < next
            <= trees.len(),
{
    if 0 <= at < trees.len() && trees[at] is Leaf && trees[at]->Leaf_0 is Name {
        if at + 1 < trees.len() && trees[at + 1] is Parens {
            let inside = trees[at + 1]->Parens_0;
            lemma_body_name(inside);
            assert(well_named_tokens(inside));
            if parsed_body(inside) is Ok {
                assert(is_name(inside[0]->Name_0));
            }
        }
    }
}

proof fn lemma_list_named(trees: Seq<TreeView>, at: int, so_far: Seq<AliasView>)
    requires
        well_named(trees),
        all_named(so_far),
    ensures
        list_from(trees, at, so_far) matches Ok(aliases) ==> all_named(aliases),
    decreases trees.len() - at,
{
    if 0 <= at < trees.len() {
        lemma_entry_named(trees, at);
        match parsed_entry(trees, at) {
            Err(_) => {},
            Ok((alias, next)) => {
                let longer = so_far.push(alias);
                assert forall|i: int| 0 <= i < longer.len() implies is_name(
                    #[trigger] longer[i].ident(),
                ) by {
                    if i < so_far.len() {
                        assert(longer[i] == so_far[i]);
                    }
                }
                if next < trees.len() && trees[next] == TreeView::Leaf(TokenView::Comma) {
                    lemma_list_named(trees, next + 1, longer);
                }
            },
        }
    }
}

/// Where the names among the tokens are identifiers, every alias that is
/// read has an identifier for its name.
pub proof fn lemma_aliases_named(trees: Seq<TreeView>)
    requires
        well_named(trees),
    ensures
        parsed_aliases(trees) matches Ok(aliases) ==> all_named(aliases),
{
    lemma_list_named(trees, 0, Seq::empty());
}

} // verus!
