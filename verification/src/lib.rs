//! Aliases for declarations.
//!
//! Given the text of one declaration (a function, a structure, a trait, an
//! implementation block or a constant) and a list of alias entries, the
//! library gives back the declaration followed by one renamed duplicate per
//! entry, each optionally marked as deprecated:
//!
//! ```text
//! alias("short, deprecated(old, since = \"0.2.0\")", "fn long_name() {}")
//!     fn long_name() {}
//!     fn short () { }
//!     #[deprecated(since = "0.2.0")] fn old () { }
//! ```
//!
//! The declaration comes back as it was given; a duplicate is spaced as the
//! token printer spaces it.
//!
//! The token and syntax-tree work is done by `proc_macro2`, `syn` and `quote`
//! behind the small trusted functions of [`lexer`], [`marker`] and
//! [`declaration`]. The argument grammar, the choice of deprecation marker
//! and the order of what is emitted are verified.
//!
//! Those trusted functions call `proc_macro2::fallback::force`, so that
//! `proc_macro2` splits and prints text by its own implementation and not
//! by the compiler's, and the result depends on the text alone. The library
//! leaves it so: a caller that runs inside a macro expansion calls
//! `proc_macro2::fallback::unforce` once the library has returned.

pub mod arguments;
pub mod declaration;
pub mod error;
pub mod laws;
pub mod lexer;
pub mod marker;
pub mod token;

use vstd::prelude::*;
use crate::arguments::{all_named, lemma_aliases_named, list_view, parsed_aliases, AliasView, Aliases};
use crate::declaration::{
    aliased, attributes, class_of, duplicate, duplicated, read_as, renamed, rendered, Class,
    Declaration, DeclarationView, Kind,
};
use crate::error::{AliasError, AliasErrorView, ArgError, ArgErrorView, Fault};
use crate::lexer::{lemma_scanned_names, scan, trees};
use crate::marker::{attribute_text, marker_for};

verus! {

/// What the text of an argument list means: its aliases in the order in
/// which they were written, or the first fault.
pub open spec fn arguments(args: Seq<char>) -> Result<Seq<AliasView>, ArgErrorView> {
    match trees(args) {
        Some(found) => parsed_aliases(found),
        None => Err(ArgErrorView { fault: Fault::Unreadable, at: 0, inside: None }),
    }
}

/// Reads an argument list from text. The name of every alias that is read
/// is an identifier.
pub fn read_arguments(args: &str) -> (r: Result<Aliases, ArgError>)
    ensures
        list_view(r) == arguments(args@),
        r matches Ok(aliases) ==> all_named(aliases.deep_view()),
{
    match scan(args) {
        Some(found) => {
            proof {
                lemma_scanned_names(args@);
                lemma_aliases_named(found.deep_view());
            }
            Aliases::parse(&found)
        },
        None => Err(ArgError { fault: Fault::Unreadable, at: 0, inside: None }),
    }
}

/// What aliasing gives: the texts of the declaration and of its duplicates,
/// or the reason why there are none. The arguments are read first.
pub open spec fn expansion(args: Seq<char>, input: Seq<char>) -> Result<
    Seq<Seq<char>>,
    AliasErrorView,
> {
    match arguments(args) {
        Err(e) => Err(AliasErrorView::MalformedArguments(e)),
        Ok(aliases) => match read_as(input) {
            Err(e) => Err(e),
            Ok(declaration) => Ok(
                duplicated(declaration, aliases).map_values(|d: DeclarationView| rendered(d)),
            ),
        },
    }
}

/// Mathematical value of what [`alias`] returns.
pub open spec fn expansion_view(r: Result<Vec<String>, AliasError>) -> Result<
    Seq<Seq<char>>,
    AliasErrorView,
> {
    match r {
        Ok(texts) => Ok(texts.deep_view()),
        Err(e) => Err(e.deep_view()),
    }
}

/// The text of the duplicate that `alias` asks for of the declaration
/// `input` of kind `kind`: the alias's deprecation attribute and a space,
/// where it has a marker, then the declaration printed with the alias's
/// name.
pub open spec fn duplicate_text(kind: Kind, input: Seq<char>, alias: AliasView) -> Seq<char> {
    let body = renamed(kind, input, alias.ident());
    match marker_for(alias) {
        Some(marker) => attribute_text(marker) + " "@ + body,
        None => body,
    }
}

/// A duplicate of a declaration that has no added markers is printed as
/// `duplicate_text` says.
pub proof fn lemma_duplicate_text(declaration: DeclarationView, alias: AliasView)
    requires
        declaration.markers.len() == 0,
    ensures
        rendered(aliased(declaration, alias)) == duplicate_text(
            declaration.kind,
            declaration.source,
            alias,
        ),
{
    let made = aliased(declaration, alias);
    let body = renamed(made.kind, made.source, alias.ident());
    match marker_for(alias) {
        Some(marker) => {
            assert(made.markers =~= seq![marker]);
            assert(made.markers.drop_last() =~= Seq::empty());
            assert(attributes(made.markers.drop_last()) =~= Seq::<char>::empty());
            assert(attributes(made.markers) =~= attribute_text(marker) + " "@);
        },
        None => {
            assert(made.markers =~= Seq::empty());
            assert(attributes(made.markers) + body =~= body);
        },
    }
}

/// Emits the declaration `input` followed by one duplicate for each entry of
/// the argument list `args`.
///
/// The first text is `input` as it was given. The duplicates follow in the
/// order of the entries; each is the declaration under the entry's name,
/// behind a deprecation attribute where the entry asks for one. Either all
/// of them are given or none is: the arguments are read first, and a fault
/// in them is reported before the declaration is looked at; a declaration
/// of another kind is then turned down before anything is duplicated.
pub fn alias(args: &str, input: &str) -> (r: Result<Vec<String>, AliasError>)
    ensures
        expansion_view(r) == expansion(args@, input@),
        r is Ok <==> arguments(args@) is Ok && class_of(input@) is Declares,
        arguments(args@) is Ok && class_of(input@) == Class::Unsupported ==> r == Err::<
            Vec<String>,
            AliasError,
        >(AliasError::UnsupportedDeclaration),
        arguments(args@) is Ok && class_of(input@) == Class::Unreadable ==> r == Err::<
            Vec<String>,
            AliasError,
        >(AliasError::NotADeclaration),
        arguments(args@) is Ok && class_of(input@) == Class::ImplementsUnnamed ==> r == Err::<
            Vec<String>,
            AliasError,
        >(AliasError::MalformedSelfType),
        arguments(args@) matches Err(e) ==> (r matches Err(AliasError::MalformedArguments(found))
            && found.deep_view() == e),
        r matches Ok(texts) ==> {
            let aliases = arguments(args@)->Ok_0;
            let kind = class_of(input@)->Declares_0;
            &&& texts.len() == aliases.len() + 1
            &&& texts[0]@ == input@
            &&& forall|i: int|
                0 <= i < aliases.len() ==> (#[trigger] texts[i + 1])@ == duplicate_text(
                    kind,
                    input@,
                    aliases[i],
                )
        },
{
    let aliases = match read_arguments(args) {
        Ok(aliases) => aliases,
        Err(e) => {
            return Err(AliasError::MalformedArguments(e));
        },
    };
    let declaration = match Declaration::read(input) {
        Ok(declaration) => declaration,
        Err(e) => {
            return Err(e);
        },
    };
    let ghost av = aliases.deep_view();
    let ghost d = declaration.deep_view();
    let all = duplicate(&declaration, &aliases);
    let mut texts: Vec<String> = Vec::new();
    let mut i: usize = 0;
    while i < all.len()
        invariant
            i <= all.len(),
            all.len() == av.len() + 1,
            all.deep_view() == duplicated(d, av),
            forall|k: int| 0 <= k < all.len() ==> (#[trigger] all[k]).deep_view().well_formed(),
            texts.len() == i,
            forall|k: int| 0 <= k < i ==> (#[trigger] texts[k])@ == rendered(all[k].deep_view()),
        decreases all.len() - i,
    {
        match all[i].render() {
            Some(text) => {
                texts.push(text);
            },
            None => {
                assert(false);
                return Err(AliasError::UnsupportedDeclaration);
            },
        }
        i += 1;
    }
    proof {
        let expected = duplicated(d, av).map_values(|x: DeclarationView| rendered(x));
        assert forall|k: int| 0 <= k < texts.len() implies texts.deep_view()[k] == expected[k] by {
            assert(all.deep_view()[k] == all[k].deep_view());
        }
        assert(texts.deep_view() =~= expected);
        assert(attributes(d.markers) + d.source =~= d.source);
        assert forall|k: int| 0 <= k < av.len() implies (#[trigger] texts[k + 1])@
            == duplicate_text(d.kind, input@, av[k]) by {
            assert(all.deep_view()[k + 1] == all[k + 1].deep_view());
            lemma_duplicate_text(d, av[k]);
        }
    }
    Ok(texts)
}

} // verus!
