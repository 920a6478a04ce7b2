//! The deprecation marker of an alias.

use vstd::prelude::*;
use vstd::string::StringExecFns;
use crate::arguments::{Alias, AliasView};

verus! {

/// The marker that a deprecated alias carries: `since` and `note` are each
/// there or not, which makes four shapes.
#[derive(Clone, Debug, PartialEq, Eq)]
pub enum Marker {
    /// `#[deprecated]`
    Bare,
    /// `#[deprecated(note = "...")]`
    Note(String),
    /// `#[deprecated(since = "...")]`
    Since(String),
    /// `#[deprecated(since = "...", note = "...")]`
    SinceNote(String, String),
}

/// Mathematical value of a [`Marker`].
pub enum MarkerView {
    Bare,
    Note(Seq<char>),
    Since(Seq<char>),
    SinceNote(Seq<char>, Seq<char>),
}

impl DeepView for Marker {
    type V = MarkerView;

    open spec fn deep_view(&self) -> MarkerView {
        match self {
            Marker::Bare => MarkerView::Bare,
            Marker::Note(note) => MarkerView::Note(note@),
            Marker::Since(since) => MarkerView::Since(since@),
            Marker::SinceNote(since, note) => MarkerView::SinceNote(since@, note@),
        }
    }
}

/// The marker that an alias asks for: none for a plain name, and for a
/// deprecated one the shape that its `since` and `note` select.
pub open spec fn marker_for(alias: AliasView) -> Option<MarkerView> {
    match alias {
        AliasView::Name(_) => None,
        AliasView::Deprecated(d) => Some(
            match (d.since, d.note) {
                (None, None) => MarkerView::Bare,
                (None, Some(note)) => MarkerView::Note(note),
                (Some(since), None) => MarkerView::Since(since),
                (Some(since), Some(note)) => MarkerView::SinceNote(since, note),
            },
        ),
    }
}

/// The string literal that denotes `text`, as `proc_macro2`'s own
/// implementation writes it: between double quotes, with escapes where they
/// are needed.
pub uninterp spec fn quoted(text: Seq<char>) -> Seq<char>;

/// `proc_macro2::fallback::force`, then `proc_macro2::Literal::string`,
/// printed with `to_string`.
///
/// Claimed: the result is `quoted` of the text. After `force` the literal is
/// written by `proc_macro2`'s own implementation, which reads nothing but
/// the text.
#[verifier::external_body]
fn quote_string(text: &str) -> (literal: String)
    ensures
        literal@ == quoted(text@),
{
    proc_macro2::fallback::force();
    proc_macro2::Literal::string(text).to_string()
}

/// The attribute that stands for a marker.
pub open spec fn attribute_text(marker: MarkerView) -> Seq<char> {
    match marker {
        MarkerView::Bare => "#[deprecated]"@,
        MarkerView::Note(note) => "#[deprecated(note = "@ + quoted(note) + ")]"@,
        MarkerView::Since(since) => "#[deprecated(since = "@ + quoted(since) + ")]"@,
        MarkerView::SinceNote(since, note) => "#[deprecated(since = "@ + quoted(since)
            + ", note = "@ + quoted(note) + ")]"@,
    }
}

impl Marker {
    /// The marker that `alias` asks for.
    pub fn of(alias: &Alias) -> (marker: Option<Marker>)
        ensures
            marker.deep_view() == marker_for(alias.deep_view()),
    {
        match alias {
            Alias::Name(_) => None,
            Alias::Deprecated(d) => Some(
                match (&d.since, &d.note) {
                    (None, None) => Marker::Bare,
                    (None, Some(note)) => Marker::Note(note.clone()),
                    (Some(since), None) => Marker::Since(since.clone()),
                    (Some(since), Some(note)) => Marker::SinceNote(since.clone(), note.clone()),
                },
            ),
        }
    }

    /// A marker that holds the same.
    pub fn copy(&self) -> (same: Marker)
        ensures
            same.deep_view() == self.deep_view(),
    {
        match self {
            Marker::Bare => Marker::Bare,
            Marker::Note(note) => Marker::Note(note.clone()),
            Marker::Since(since) => Marker::Since(since.clone()),
            Marker::SinceNote(since, note) => Marker::SinceNote(since.clone(), note.clone()),
        }
    }

    /// The attribute that stands for the marker, as text.
    pub fn attribute(&self) -> (text: String)
        ensures
            text@ == attribute_text(self.deep_view()),
    {
        match self {
            Marker::Bare => "#[deprecated]".to_owned(),
            Marker::Note(note) => {
                let mut text = "#[deprecated(note = ".to_owned();
                text.append(quote_string(note.as_str()).as_str());
                text.append(")]");
                text
            },
            Marker::Since(since) => {
                let mut text = "#[deprecated(since = ".to_owned();
                text.append(quote_string(since.as_str()).as_str());
                text.append(")]");
                text
            },
            Marker::SinceNote(since, note) => {
                let mut text = "#[deprecated(since = ".to_owned();
                text.append(quote_string(since.as_str()).as_str());
                text.append(", note = ");
                text.append(quote_string(note.as_str()).as_str());
                text.append(")]");
                text
            },
        }
    }
}

} // verus!
