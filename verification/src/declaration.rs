//! Declarations: their kinds, renaming them, and emitting them.
//!
//! A declaration is kept as the text it was written with. Reading that text
//! as a syntax tree, putting another name into the tree and printing the tree
//! are the work of `syn` and `quote`; what they return is named here, not
//! defined. Each of the trusted functions first selects `proc_macro2`'s own
//! lexer and printer, as those of the lexer do, so that what is named
//! depends on the text and the name alone.

use vstd::prelude::*;
use vstd::string::StringExecFns;
use crate::arguments::{all_named, Alias, AliasView, Aliases};
use crate::error::{AliasError, AliasErrorView};
use crate::lexer::is_name;
use crate::marker::{attribute_text, marker_for, Marker, MarkerView};
use quote::ToTokens;

verus! {

/// The kinds of declaration that can be given an alias.
#[derive(Clone, Copy, Debug, PartialEq, Eq, Structural)]
pub enum Kind {
    /// A function; its name is the function's own.
    Function,
    /// A structure; its name is the structure's own.
    Structure,
    /// A trait; its name is the trait's own.
    Trait,
    /// An implementation block; its name is the leading path segment of the
    /// type that it is written for.
    Implementation,
    /// A constant; its name is the constant's own.
    Constant,
}

/// What a text is, as far as aliasing goes.
#[derive(Clone, Copy, Debug, PartialEq, Eq, Structural)]
pub enum Class {
    /// A declaration of the given kind.
    Declares(Kind),
    /// An implementation block for a type that is not written as a path.
    ImplementsUnnamed,
    /// An item of any other kind.
    Unsupported,
    /// Text that is not one item.
    Unreadable,
}

/// What `syn` reads `text` as, split by `proc_macro2`'s own lexer: a
/// declaration of one of the five kinds, an implementation block for a type
/// that is not written as a path, an item of another kind, or no item.
pub uninterp spec fn class_of(text: Seq<char>) -> Class;

/// The function `text`, printed with `name` as its name.
pub uninterp spec fn renamed_function(text: Seq<char>, name: Seq<char>) -> Seq<char>;

/// The structure `text`, printed with `name` as its name.
pub uninterp spec fn renamed_structure(text: Seq<char>, name: Seq<char>) -> Seq<char>;

/// The trait `text`, printed with `name` as its name.
pub uninterp spec fn renamed_trait(text: Seq<char>, name: Seq<char>) -> Seq<char>;

/// The implementation block `text`, printed with `name` as the leading path
/// segment of the type that it is written for.
pub uninterp spec fn renamed_implementation(text: Seq<char>, name: Seq<char>) -> Seq<char>;

/// The constant `text`, printed with `name` as its name.
pub uninterp spec fn renamed_constant(text: Seq<char>, name: Seq<char>) -> Seq<char>;

/// `proc_macro2::fallback::force`, then `syn::parse_str::<syn::Item>` and
/// the variant of the item that it returns.
///
/// Claimed: the result is `class_of` of the text. A text that `syn` does not
/// read as one whole item is `Unreadable`; an item of a variant that is not
/// named here is `Unsupported`.
#[verifier::external_body]
fn read_class(text: &str) -> (class: Class)
    ensures
        class == class_of(text@),
{
    proc_macro2::fallback::force();
    match syn::parse_str::<syn::Item>(text) {
        Ok(syn::Item::Fn(_)) => Class::Declares(Kind::Function),
        Ok(syn::Item::Struct(_)) => Class::Declares(Kind::Structure),
        Ok(syn::Item::Trait(_)) => Class::Declares(Kind::Trait),
        Ok(syn::Item::Const(_)) => Class::Declares(Kind::Constant),
        Ok(syn::Item::Impl(block)) => match *block.self_ty {
            syn::Type::Path(_) => Class::Declares(Kind::Implementation),
            _ => Class::ImplementsUnnamed,
        },
        Ok(_) => Class::Unsupported,
        Err(_) => Class::Unreadable,
    }
}

/// `proc_macro2::fallback::force`, then `syn::parse_str` of an item and of an
/// identifier, the field `sig.ident` of `syn::ItemFn`, and
/// `quote::ToTokens::to_token_stream`, printed with `to_string`.
///
/// Claimed: the result is `Some` exactly where `syn` reads the text as a
/// function and the name as an identifier, which is where `class_of` and
/// `is_name` say so, being the same two calls; it is then
/// `renamed_function`.
#[verifier::external_body]
fn rename_function(text: &str, name: &str) -> (renamed: Option<String>)
    ensures
        renamed is Some <==> (class_of(text@) == Class::Declares(Kind::Function) && is_name(name@)),
        renamed matches Some(out) ==> out@ == renamed_function(text@, name@),
{
    proc_macro2::fallback::force();
    match syn::parse_str::<syn::Item>(text) {
        Ok(syn::Item::Fn(mut item)) => {
            item.sig.ident = syn::parse_str::<syn::Ident>(name).ok()?;
            Some(item.to_token_stream().to_string())
        },
        _ => None,
    }
}

/// `proc_macro2::fallback::force`, then `syn::parse_str` of an item and of an
/// identifier, the field `ident` of `syn::ItemStruct`, and
/// `quote::ToTokens::to_token_stream`, printed with `to_string`.
///
/// Claimed: the result is `Some` exactly where `syn` reads the text as a
/// structure and the name as an identifier, which is where `class_of` and
/// `is_name` say so; it is then `renamed_structure`.
#[verifier::external_body]
fn rename_structure(text: &str, name: &str) -> (renamed: Option<String>)
    ensures
        renamed is Some <==> (class_of(text@) == Class::Declares(Kind::Structure) && is_name(name@)),
        renamed matches Some(out) ==> out@ == renamed_structure(text@, name@),
{
    proc_macro2::fallback::force();
    match syn::parse_str::<syn::Item>(text) {
        Ok(syn::Item::Struct(mut item)) => {
            item.ident = syn::parse_str::<syn::Ident>(name).ok()?;
            Some(item.to_token_stream().to_string())
        },
        _ => None,
    }
}

/// `proc_macro2::fallback::force`, then `syn::parse_str` of an item and of an
/// identifier, the field `ident` of `syn::ItemTrait`, and
/// `quote::ToTokens::to_token_stream`, printed with `to_string`.
///
/// Claimed: the result is `Some` exactly where `syn` reads the text as a
/// trait and the name as an identifier, which is where `class_of` and
/// `is_name` say so; it is then `renamed_trait`.
#[verifier::external_body]
fn rename_trait(text: &str, name: &str) -> (renamed: Option<String>)
    ensures
        renamed is Some <==> (class_of(text@) == Class::Declares(Kind::Trait) && is_name(name@)),
        renamed matches Some(out) ==> out@ == renamed_trait(text@, name@),
{
    proc_macro2::fallback::force();
    match syn::parse_str::<syn::Item>(text) {
        Ok(syn::Item::Trait(mut item)) => {
            item.ident = syn::parse_str::<syn::Ident>(name).ok()?;
            Some(item.to_token_stream().to_string())
        },
        _ => None,
    }
}

/// `proc_macro2::fallback::force`, then `syn::parse_str` of an item and of an
/// identifier, the field `ident` of `syn::ItemConst`, and
/// `quote::ToTokens::to_token_stream`, printed with `to_string`.
///
/// Claimed: the result is `Some` exactly where `syn` reads the text as a
/// constant and the name as an identifier, which is where `class_of` and
/// `is_name` say so; it is then `renamed_constant`.
#[verifier::external_body]
fn rename_constant(text: &str, name: &str) -> (renamed: Option<String>)
    ensures
        renamed is Some <==> (class_of(text@) == Class::Declares(Kind::Constant) && is_name(name@)),
        renamed matches Some(out) ==> out@ == renamed_constant(text@, name@),
{
    proc_macro2::fallback::force();
    match syn::parse_str::<syn::Item>(text) {
        Ok(syn::Item::Const(mut item)) => {
            item.ident = syn::parse_str::<syn::Ident>(name).ok()?;
            Some(item.to_token_stream().to_string())
        },
        _ => None,
    }
}

/// `proc_macro2::fallback::force`, then `syn::parse_str` of an item and of an
/// identifier, the field `ident` of the first `syn::PathSegment` of the
/// `self_ty` of `syn::ItemImpl`, and `quote::ToTokens::to_token_stream`,
/// printed with `to_string`.
///
/// Claimed: the result is `Some` exactly where `syn` reads the text as an
/// implementation block for a type written as a path and the name as an
/// identifier, which is where `class_of` and `is_name` say so; it is then
/// `renamed_implementation`. Relied on: a path that `syn` has parsed holds
/// at least one segment.
#[verifier::external_body]
fn rename_implementation(text: &str, name: &str) -> (renamed: Option<String>)
    ensures
        renamed is Some <==> (class_of(text@) == Class::Declares(Kind::Implementation) && is_name(
            name@,
        )),
        renamed matches Some(out) ==> out@ == renamed_implementation(text@, name@),
{
    proc_macro2::fallback::force();
    match syn::parse_str::<syn::Item>(text) {
        Ok(syn::Item::Impl(mut item)) => match item.self_ty.as_mut() {
            syn::Type::Path(target) => {
                target.path.segments.first_mut()?.ident = syn::parse_str::<syn::Ident>(name).ok()?;
                Some(item.to_token_stream().to_string())
            },
            _ => None,
        },
        _ => None,
    }
}

/// Whether a declaration of kind `kind` can be read from `text` and be given
/// the name `name`.
pub open spec fn renames(kind: Kind, text: Seq<char>, name: Seq<char>) -> bool {
    class_of(text) == Class::Declares(kind) && is_name(name)
}

/// The declaration `text` of kind `kind`, printed with `name` in the place of
/// its identifying name.
pub open spec fn renamed(kind: Kind, text: Seq<char>, name: Seq<char>) -> Seq<char> {
    match kind {
        Kind::Function => renamed_function(text, name),
        Kind::Structure => renamed_structure(text, name),
        Kind::Trait => renamed_trait(text, name),
        Kind::Implementation => renamed_implementation(text, name),
        Kind::Constant => renamed_constant(text, name),
    }
}

/// Prints the declaration `text` with `name` in the place of its identifying
/// name, which stands where its kind says: `None` where the text is no
/// declaration of that kind or `name` is no identifier.
pub fn rename(kind: Kind, text: &str, name: &str) -> (out: Option<String>)
    ensures
        out is Some <==> renames(kind, text@, name@),
        out matches Some(printed) ==> printed@ == renamed(kind, text@, name@),
{
    match kind {
        Kind::Function => rename_function(text, name),
        Kind::Structure => rename_structure(text, name),
        Kind::Trait => rename_trait(text, name),
        Kind::Implementation => rename_implementation(text, name),
        Kind::Constant => rename_constant(text, name),
    }
}

/// A declaration, or a duplicate of one under another name.
#[derive(Clone, Debug, PartialEq, Eq)]
pub struct Declaration {
    pub kind: Kind,
    /// The text that the declaration was written with.
    pub source: String,
    /// The name that stands in the place of the identifying name; `None`
    /// while the declaration carries the name that it was written with.
    pub name: Option<String>,
    /// The deprecation markers that were added to it, the one added last
    /// first. Markers that the source holds are part of the source.
    pub markers: Vec<Marker>,
}

/// Mathematical value of a [`Declaration`].
pub struct DeclarationView {
    pub kind: Kind,
    pub source: Seq<char>,
    pub name: Option<Seq<char>>,
    pub markers: Seq<MarkerView>,
}

impl DeclarationView {
    /// Whether the source is a declaration of the kind that is claimed, and
    /// the name, where another one was put, is an identifier. A declaration
    /// that is read from text is well formed, a duplicate of a well-formed
    /// declaration under an alias with an identifier for its name is, and
    /// what is well formed can be printed.
    pub open spec fn well_formed(self) -> bool {
        &&& class_of(self.source) == Class::Declares(self.kind)
        &&& self.name matches Some(name) ==> is_name(name)
    }
}

impl DeepView for Declaration {
    type V = DeclarationView;

    open spec fn deep_view(&self) -> DeclarationView {
        DeclarationView {
            kind: self.kind,
            source: self.source@,
            name: self.name.deep_view(),
            markers: self.markers.deep_view(),
        }
    }
}

/// A declaration with the marker that `alias` asks for: unchanged for a
/// plain name; for a deprecated alias, with the alias's marker in front of
/// the markers that were there, none of which is taken away or merged.
pub open spec fn annotated(declaration: DeclarationView, alias: AliasView) -> DeclarationView {
    match marker_for(alias) {
        Some(marker) => DeclarationView {
            markers: seq![marker] + declaration.markers,
            ..declaration
        },
        None => declaration,
    }
}

/// The duplicate of `declaration` that `alias` asks for: the same kind and
/// source, the alias's name, and the alias's marker, where it has one, in
/// front of the markers that were there.
pub open spec fn aliased(declaration: DeclarationView, alias: AliasView) -> DeclarationView {
    annotated(DeclarationView { name: Some(alias.ident()), ..declaration }, alias)
}

/// A declaration followed by its duplicates, one for each alias, in the
/// order of the aliases.
pub open spec fn duplicated(declaration: DeclarationView, aliases: Seq<AliasView>) -> Seq<
    DeclarationView,
> {
    seq![declaration] + aliases.map_values(|alias: AliasView| aliased(declaration, alias))
}

/// What a text is read as: a declaration under the name it was written
/// with and without added markers, or the reason why it cannot be given an
/// alias.
pub open spec fn read_as(text: Seq<char>) -> Result<DeclarationView, AliasErrorView> {
    match class_of(text) {
        Class::Declares(kind) => Ok(
            DeclarationView { kind, source: text, name: None, markers: Seq::empty() },
        ),
        Class::ImplementsUnnamed => Err(AliasErrorView::MalformedSelfType),
        Class::Unsupported => Err(AliasErrorView::UnsupportedDeclaration),
        Class::Unreadable => Err(AliasErrorView::NotADeclaration),
    }
}

/// Mathematical value of what [`Declaration::read`] returns.
pub open spec fn read_view(r: Result<Declaration, AliasError>) -> Result<
    DeclarationView,
    AliasErrorView,
> {
    match r {
        Ok(declaration) => Ok(declaration.deep_view()),
        Err(e) => Err(e.deep_view()),
    }
}

/// Copies a list of markers.
fn copy_markers(markers: &Vec<Marker>) -> (same: Vec<Marker>)
    ensures
        same.deep_view() == markers.deep_view(),
{
    let mut same: Vec<Marker> = Vec::new();
    let mut i: usize = 0;
    while i < markers.len()
        invariant
            i <= markers.len(),
            same.len() == i,
            forall|k: int| 0 <= k < i ==> same[k].deep_view() == markers[k].deep_view(),
        decreases markers.len() - i,
    {
        same.push(markers[i].copy());
        i += 1;
    }
    assert(same.deep_view() =~= markers.deep_view());
    same
}

impl Declaration {
    /// Reads a declaration from text. An item that is no function,
    /// structure, trait, implementation block or constant is unsupported;
    /// an implementation block for a type that is not written as a path and
    /// text that is not one item are turned down each for its own reason.
    pub fn read(text: &str) -> (r: Result<Declaration, AliasError>)
        ensures
            read_view(r) == read_as(text@),
            r is Err <==> !(class_of(text@) is Declares),
            r matches Ok(declaration) ==> declaration.deep_view().well_formed(),
            r == Err::<Declaration, AliasError>(AliasError::UnsupportedDeclaration)
                <==> class_of(text@) == Class::Unsupported,
    {
        match read_class(text) {
            Class::Declares(kind) => {
                let markers: Vec<Marker> = Vec::new();
                assert(markers.deep_view() =~= Seq::<MarkerView>::empty());
                Ok(Declaration { kind, source: text.to_owned(), name: None, markers })
            },
            Class::ImplementsUnnamed => Err(AliasError::MalformedSelfType),
            Class::Unsupported => Err(AliasError::UnsupportedDeclaration),
            Class::Unreadable => Err(AliasError::NotADeclaration),
        }
    }

    /// A declaration that holds the same.
    pub fn copy(&self) -> (same: Declaration)
        ensures
            same.deep_view() == self.deep_view(),
    {
        Declaration {
            kind: self.kind,
            source: self.source.clone(),
            name: match &self.name {
                Some(name) => Some(name.clone()),
                None => None,
            },
            markers: copy_markers(&self.markers),
        }
    }

    /// Adds the marker that `alias` asks for. For a plain name the
    /// declaration is given back as it is; for a deprecated alias the marker
    /// is put in front of the markers that are there.
    pub fn annotate(self, alias: &Alias) -> (out: Declaration)
        ensures
            out.deep_view() == annotated(self.deep_view(), alias.deep_view()),
            alias is Name ==> out == self,
            out.kind == self.kind,
            out.source == self.source,
            out.name == self.name,
    {
        match Marker::of(alias) {
            None => self,
            Some(marker) => {
                let ghost before = self.markers.deep_view();
                let mut markers = self.markers;
                markers.insert(0, marker);
                assert(markers.deep_view() =~= seq![marker.deep_view()] + before);
                Declaration { kind: self.kind, source: self.source, name: self.name, markers }
            },
        }
    }

    /// The duplicate that `alias` asks for: a copy under the alias's name,
    /// with the alias's marker. Nothing but the name and the markers differs
    /// from `self`.
    pub fn aliased(&self, alias: &Alias) -> (duplicate: Declaration)
        ensures
            duplicate.deep_view() == aliased(self.deep_view(), alias.deep_view()),
            duplicate.kind == self.kind,
            duplicate.source@ == self.source@,
            duplicate.name.deep_view() == Some(alias.deep_view().ident()),
            self.deep_view().well_formed() && is_name(alias.deep_view().ident())
                ==> duplicate.deep_view().well_formed(),
    {
        let renamed = Declaration {
            kind: self.kind,
            source: self.source.clone(),
            name: Some(alias.get_ident()),
            markers: copy_markers(&self.markers),
        };
        renamed.annotate(alias)
    }
}

/// Emits a declaration, then one duplicate for each alias in the order of
/// the aliases.
pub fn duplicate(declaration: &Declaration, aliases: &Aliases) -> (out: Vec<Declaration>)
    ensures
        out.deep_view() == duplicated(declaration.deep_view(), aliases.deep_view()),
        out.len() == aliases.deep_view().len() + 1,
        out[0].deep_view() == declaration.deep_view(),
        forall|i: int|
            0 <= i < aliases.deep_view().len() ==> {
                &&& (#[trigger] out[i + 1]).kind == declaration.kind
                &&& out[i + 1].source@ == declaration.source@
                &&& out[i + 1].name.deep_view() == Some(aliases.deep_view()[i].ident())
                &&& out[i + 1].deep_view() == aliased(
                    declaration.deep_view(),
                    aliases.deep_view()[i],
                )
            },
        declaration.deep_view().well_formed() && all_named(aliases.deep_view()) ==> forall|
            i: int,
        |
            0 <= i < out.len() ==> (#[trigger] out[i]).deep_view().well_formed(),
{
    let ghost d = declaration.deep_view();
    let ghost av = aliases.deep_view();
    let n = aliases.len();
    let mut out: Vec<Declaration> = Vec::new();
    out.push(declaration.copy());
    let mut i: usize = 0;
    while i < n
        invariant
            n == av.len(),
            av == aliases.deep_view(),
            d == declaration.deep_view(),
            i <= n,
            out.len() == i + 1,
            out[0].deep_view() == d,
            forall|k: int|
                0 <= k < i ==> {
                    &&& (#[trigger] out[k + 1]).kind == declaration.kind
                    &&& out[k + 1].source@ == declaration.source@
                    &&& out[k + 1].name.deep_view() == Some(av[k].ident())
                    &&& out[k + 1].deep_view() == aliased(d, av[k])
                },
        decreases n - i,
    {
        out.push(declaration.aliased(aliases.get(i)));
        i += 1;
    }
    assert forall|j: int| 0 <= j < out.len() implies out.deep_view()[j] == duplicated(d, av)[j] by {
        if j > 0 {
            assert(out[(j - 1) + 1].deep_view() == aliased(d, av[j - 1]));
        }
    }
    assert(out.deep_view() =~= duplicated(d, av));
    proof {
        if d.well_formed() && all_named(av) {
            assert forall|j: int| 0 <= j < out.len() implies (#[trigger] out[j]).deep_view()
                .well_formed() by {
                if j > 0 {
                    assert(out[(j - 1) + 1].deep_view() == aliased(d, av[j - 1]));
                    assert(is_name(av[j - 1].ident()));
                }
            }
        }
    }
    out
}

/// The attributes that stand for a list of markers, each followed by a
/// space.
pub open spec fn attributes(markers: Seq<MarkerView>) -> Seq<char>
    decreases markers.len(),
{
    if markers.len() == 0 {
        Seq::empty()
    } else {
        attributes(markers.drop_last()) + attribute_text(markers.last()) + " "@
    }
}

/// Whether a declaration can be printed: it carries the name it was written
/// with, or its source is a declaration of its kind and its name is an
/// identifier.
pub open spec fn renders(declaration: DeclarationView) -> bool {
    declaration.name matches Some(name) ==> renames(declaration.kind, declaration.source, name)
}

/// The text of a declaration: its added markers, then its source as it was
/// written or, for a duplicate, printed with the duplicate's name.
pub open spec fn rendered(declaration: DeclarationView) -> Seq<char> {
    attributes(declaration.markers) + match declaration.name {
        Some(name) => renamed(declaration.kind, declaration.source, name),
        None => declaration.source,
    }
}

impl Declaration {
    /// Prints the declaration: `None` where it cannot be printed.
    pub fn render(&self) -> (out: Option<String>)
        ensures
            out is Some <==> renders(self.deep_view()),
            self.deep_view().well_formed() ==> out is Some,
            out matches Some(text) ==> text@ == rendered(self.deep_view()),
    {
        let body = match &self.name {
            None => self.source.clone(),
            Some(name) => match rename(self.kind, self.source.as_str(), name.as_str()) {
                Some(printed) => printed,
                None => {
                    return None;
                },
            },
        };
        let ghost mv = self.markers.deep_view();
        let mut text = String::new();
        let mut i: usize = 0;
        assert(mv.take(0) =~= Seq::<MarkerView>::empty());
        while i < self.markers.len()
            invariant
                i <= self.markers.len(),
                mv == self.markers.deep_view(),
                text@ == attributes(mv.take(i as int)),
            decreases self.markers.len() - i,
        {
            proof {
                let next = mv.take(i + 1);
                assert(next.drop_last() =~= mv.take(i as int));
                assert(next.last() == self.markers[i as int].deep_view());
            }
            text.append(self.markers[i].attribute().as_str());
            text.append(" ");
            i += 1;
        }
        assert(mv.take(i as int) =~= mv);
        text.append(body.as_str());
        Some(text)
    }
}

} // verus!
