//! What holds of the grammar and of the duplicates, proved.
//!
//! The first part is about the argument grammar: what a group means without
//! reading it from left to right, that the value given last wins, and that
//! a list of aliases can be written down and read back. The second part
//! is about duplicating: how many declarations come out, in which order, and
//! what a duplicate has in common with its declaration.

use vstd::prelude::*;
use crate::arguments::{
    is_pair, list_from, pairs_from, parsed_aliases, parsed_body, parsed_entry, AliasView,
    DeprecatedView,
};
use crate::declaration::{
    aliased, attributes, class_of, duplicated, read_as, Class, DeclarationView,
};
use crate::error::{AliasErrorView, ArgErrorView, Fault};
use crate::marker::{marker_for, MarkerView};
use crate::token::{TokenView, TreeView};
use crate::{arguments, duplicate_text, expansion, lemma_duplicate_text};

verus! {

/// The tokens `, since = "value"`.
pub open spec fn since_pair(value: Seq<char>) -> Seq<TokenView> {
    seq![
        TokenView::Comma,
        TokenView::Name("since"@),
        TokenView::Equals,
        TokenView::Str(value),
    ]
}

/// The tokens `, note = "value"`.
pub open spec fn note_pair(value: Seq<char>) -> Seq<TokenView> {
    seq![
        TokenView::Comma,
        TokenView::Name("note"@),
        TokenView::Equals,
        TokenView::Str(value),
    ]
}

/// The two keys are different words.
proof fn lemma_keys_differ()
    ensures
        "since"@ != "note"@,
{
    reveal_strlit("since");
    reveal_strlit("note");
    assert("since"@.len() == 5);
    assert("note"@.len() == 4);
}

proof fn lemma_since_behind(
    tokens: Seq<TokenView>,
    at: int,
    so_far: DeprecatedView,
    value: Seq<char>,
)
    requires
        1 <= at <= tokens.len(),
        tokens.last() != TokenView::Comma,
        pairs_from(tokens, at, so_far) is Ok,
    ensures
        pairs_from(tokens + since_pair(value), at, so_far) == Ok::<DeprecatedView, (Fault, int)>(
            DeprecatedView { since: Some(value), ..pairs_from(tokens, at, so_far)->Ok_0 },
        ),
    decreases tokens.len() - at,
{
    let longer = tokens + since_pair(value);
    let n = tokens.len() as int;
    assert(longer.len() == n + 4);
    assert forall|k: int| 0 <= k < n implies longer[k] == tokens[k] by {}
    assert(longer[n] == TokenView::Comma);
    assert(longer[n + 1] == TokenView::Name("since"@));
    assert(longer[n + 2] == TokenView::Equals);
    assert(longer[n + 3] == TokenView::Str(value));
    if at == n {
        assert(is_pair(longer, n + 1));
        assert(pairs_from(longer, n + 4, DeprecatedView { since: Some(value), ..so_far }) == Ok::<
            DeprecatedView,
            (Fault, int),
        >(DeprecatedView { since: Some(value), ..so_far }));
    } else {
        assert(tokens[at] == TokenView::Comma);
        assert(at + 1 != n) by {
            if at + 1 == n {
                assert(tokens.last() == tokens[at]);
            }
        }
        assert(is_pair(tokens, at + 1));
        assert(is_pair(longer, at + 1));
        if tokens[at + 1]->Name_0 == "since"@ {
            lemma_since_behind(
                tokens,
                at + 4,
                DeprecatedView { since: Some(tokens[at + 3]->Str_0), ..so_far },
                value,
            );
        } else {
            lemma_since_behind(
                tokens,
                at + 4,
                DeprecatedView { note: Some(tokens[at + 3]->Str_0), ..so_far },
                value,
            );
        }
    }
}

proof fn lemma_note_behind(
    tokens: Seq<TokenView>,
    at: int,
    so_far: DeprecatedView,
    value: Seq<char>,
)
    requires
        1 <= at <= tokens.len(),
        tokens.last() != TokenView::Comma,
        pairs_from(tokens, at, so_far) is Ok,
    ensures
        pairs_from(tokens + note_pair(value), at, so_far) == Ok::<DeprecatedView, (Fault, int)>(
            DeprecatedView { note: Some(value), ..pairs_from(tokens, at, so_far)->Ok_0 },
        ),
    decreases tokens.len() - at,
{
    let longer = tokens + note_pair(value);
    let n = tokens.len() as int;
    lemma_keys_differ();
    assert(longer.len() == n + 4);
    assert forall|k: int| 0 <= k < n implies longer[k] == tokens[k] by {}
    assert(longer[n] == TokenView::Comma);
    assert(longer[n + 1] == TokenView::Name("note"@));
    assert(longer[n + 2] == TokenView::Equals);
    assert(longer[n + 3] == TokenView::Str(value));
    if at == n {
        assert(is_pair(longer, n + 1));
        assert(pairs_from(longer, n + 4, DeprecatedView { note: Some(value), ..so_far }) == Ok::<
            DeprecatedView,
            (Fault, int),
        >(DeprecatedView { note: Some(value), ..so_far }));
    } else {
        assert(tokens[at] == TokenView::Comma);
        assert(at + 1 != n) by {
            if at + 1 == n {
                assert(tokens.last() == tokens[at]);
            }
        }
        assert(is_pair(tokens, at + 1));
        assert(is_pair(longer, at + 1));
        if tokens[at + 1]->Name_0 == "since"@ {
            lemma_note_behind(
                tokens,
                at + 4,
                DeprecatedView { since: Some(tokens[at + 3]->Str_0), ..so_far },
                value,
            );
        } else {
            lemma_note_behind(
                tokens,
                at + 4,
                DeprecatedView { note: Some(tokens[at + 3]->Str_0), ..so_far },
                value,
            );
        }
    }
}

/// The value given last wins: where a group is read as an alias and does
/// not end in a comma, the group with `, since = "value"` behind it is read
/// as the same alias with `value` for its `since`, whatever `since` was
/// before; and likewise for `note`.
pub proof fn lemma_last_value_wins(tokens: Seq<TokenView>, value: Seq<char>)
    requires
        parsed_body(tokens) is Ok,
        tokens.last() != TokenView::Comma,
    ensures
        parsed_body(tokens + since_pair(value)) == Ok::<DeprecatedView, (Fault, int)>(
            DeprecatedView { since: Some(value), ..parsed_body(tokens)->Ok_0 },
        ),
        parsed_body(tokens + note_pair(value)) == Ok::<DeprecatedView, (Fault, int)>(
            DeprecatedView { note: Some(value), ..parsed_body(tokens)->Ok_0 },
        ),
{
    let start = DeprecatedView { name: tokens[0]->Name_0, since: None, note: None };
    assert((tokens + since_pair(value))[0] == tokens[0]);
    assert((tokens + note_pair(value))[0] == tokens[0]);
    lemma_since_behind(tokens, 1, start, value);
    lemma_note_behind(tokens, 1, start, value);
}

/// The tokens with which a deprecated alias is written between the
/// parentheses: its name, then `since` and `note` where it has them.
pub open spec fn written_body(d: DeprecatedView) -> Seq<TokenView> {
    seq![TokenView::Name(d.name)] + (match d.since {
        Some(since) => since_pair(since),
        None => Seq::empty(),
    }) + (match d.note {
        Some(note) => note_pair(note),
        None => Seq::empty(),
    })
}

/// The tokens with which an alias is written.
pub open spec fn written_entry(alias: AliasView) -> Seq<TreeView> {
    match alias {
        AliasView::Name(name) => seq![TreeView::Leaf(TokenView::Name(name))],
        AliasView::Deprecated(d) => seq![
            TreeView::Leaf(TokenView::Name("deprecated"@)),
            TreeView::Parens(written_body(d)),
        ],
    }
}

/// The tokens with which a list of aliases is written: the entries with a
/// comma between each two of them.
pub open spec fn written(aliases: Seq<AliasView>) -> Seq<TreeView>
    decreases aliases.len(),
{
    if aliases.len() == 0 {
        Seq::empty()
    } else if aliases.len() == 1 {
        written_entry(aliases[0])
    } else {
        written_entry(aliases[0]) + seq![TreeView::Leaf(TokenView::Comma)] + written(
            aliases.skip(1),
        )
    }
}

/// Whether a list of aliases can be written down: no plain alias among
/// them has the name `deprecated`, which as a word opens a deprecated entry.
pub open spec fn can_be_written(aliases: Seq<AliasView>) -> bool {
    forall|i: int|
        0 <= i < aliases.len() ==> ((#[trigger] aliases[i]) matches AliasView::Name(name)
            ==> name != "deprecated"@)
}

/// The word `deprecated` needs its group: where it starts an entry and no
/// parenthesised group follows (the list ends, or a comma or anything else
/// follows), the entry is a fault, reported at the place behind the word.
pub proof fn lemma_deprecated_needs_its_group(trees: Seq<TreeView>, at: int)
    requires
        0 <= at < trees.len(),
        trees[at] == TreeView::Leaf(TokenView::Name("deprecated"@)),
        !(at + 1 < trees.len() && trees[at + 1] is Parens),
    ensures
        parsed_entry(trees, at) == Err::<(AliasView, int), ArgErrorView>(
            ArgErrorView { fault: Fault::ExpectedParentheses, at: at + 1, inside: None },
        ),
        list_from(trees, at, Seq::empty()) is Err,
{
}

proof fn lemma_list_can_be_written(trees: Seq<TreeView>, at: int, so_far: Seq<AliasView>)
    requires
        can_be_written(so_far),
    ensures
        list_from(trees, at, so_far) matches Ok(aliases) ==> can_be_written(aliases),
    decreases trees.len() - at,
{
    if 0 <= at < trees.len() {
        match parsed_entry(trees, at) {
            Err(_) => {},
            Ok((alias, next)) => {
                let longer = so_far.push(alias);
                assert forall|i: int| 0 <= i < longer.len() implies ((#[trigger] longer[i])
                    matches AliasView::Name(name) ==> name != "deprecated"@) by {
                    if i < so_far.len() {
                        assert(longer[i] == so_far[i]);
                    }
                }
                if next < trees.len() && next > at && trees[next] == TreeView::Leaf(
                    TokenView::Comma,
                ) {
                    lemma_list_can_be_written(trees, next + 1, longer);
                }
            },
        }
    }
}

/// No plain alias that is read has the name `deprecated`.
pub proof fn lemma_no_plain_deprecated(trees: Seq<TreeView>)
    ensures
        parsed_aliases(trees) matches Ok(aliases) ==> can_be_written(aliases),
{
    lemma_list_can_be_written(trees, 0, Seq::empty());
}

/// A deprecated alias that is written down is read back as it was.
pub proof fn lemma_body_read_back(d: DeprecatedView)
    ensures
        parsed_body(written_body(d)) == Ok::<DeprecatedView, (Fault, int)>(d),
{
    let name_only = seq![TokenView::Name(d.name)];
    let bare = DeprecatedView { name: d.name, since: None, note: None };
    assert(parsed_body(name_only) == Ok::<DeprecatedView, (Fault, int)>(bare));
    let with_since = match d.since {
        Some(since) => name_only + since_pair(since),
        None => name_only,
    };
    assert(parsed_body(with_since) == Ok::<DeprecatedView, (Fault, int)>(
        DeprecatedView { since: d.since, ..bare },
    ) && with_since.last() != TokenView::Comma) by {
        match d.since {
            Some(since) => {
                lemma_last_value_wins(name_only, since);
            },
            None => {},
        }
    }
    match d.note {
        Some(note) => {
            lemma_last_value_wins(with_since, note);
            assert(written_body(d) =~= with_since + note_pair(note));
        },
        None => {
            assert(written_body(d) =~= with_since);
        },
    }
}

proof fn lemma_list_read_back(before: Seq<TreeView>, rest: Seq<AliasView>, so_far: Seq<AliasView>)
    requires
        rest.len() >= 1,
        can_be_written(rest),
    ensures
        list_from(before + written(rest), before.len() as int, so_far) == Ok::<
            Seq<AliasView>,
            ArgErrorView,
        >(so_far + rest),
    decreases rest.len(),
{
    let all = before + written(rest);
    let at = before.len() as int;
    let first = rest[0];
    let entry = written_entry(first);
    let next = at + entry.len();
    assert(written(rest) =~= if rest.len() == 1 {
        entry
    } else {
        entry + seq![TreeView::Leaf(TokenView::Comma)] + written(rest.skip(1))
    });
    assert forall|k: int| 0 <= k < entry.len() implies all[at + k] == entry[k] by {}
    if rest.len() > 1 {
        assert(all[next] == TreeView::Leaf(TokenView::Comma));
    } else {
        assert(all.len() == next);
    }
    assert(parsed_entry(all, at) == Ok::<(AliasView, int), ArgErrorView>((first, next))) by {
        match first {
            AliasView::Name(name) => {
                assert(all[at] == TreeView::Leaf(TokenView::Name(name)));
            },
            AliasView::Deprecated(d) => {
                assert(all[at] == TreeView::Leaf(TokenView::Name("deprecated"@)));
                assert(all[at + 1] == TreeView::Parens(written_body(d)));
                lemma_body_read_back(d);
            },
        }
    }
    if rest.len() == 1 {
        assert(so_far.push(first) =~= so_far + rest);
    } else {
        let longer = before + entry + seq![TreeView::Leaf(TokenView::Comma)];
        assert(all =~= longer + written(rest.skip(1)));
        assert(longer.len() == next + 1);
        assert forall|i: int| 0 <= i < rest.skip(1).len() implies ((#[trigger] rest.skip(
            1,
        )[i]) matches AliasView::Name(name) ==> name != "deprecated"@) by {
            assert(rest.skip(1)[i] == rest[i + 1]);
        }
        lemma_list_read_back(longer, rest.skip(1), so_far.push(first));
        assert(so_far.push(first) + rest.skip(1) =~= so_far + rest);
    }
}

/// Every list of aliases in which no plain alias is named `deprecated` can
/// be written down, and what is written is read back as the same list in
/// the same order.
pub proof fn lemma_read_back(aliases: Seq<AliasView>)
    requires
        aliases.len() >= 1,
        can_be_written(aliases),
    ensures
        parsed_aliases(written(aliases)) == Ok::<Seq<AliasView>, ArgErrorView>(aliases),
{
    lemma_list_read_back(Seq::empty(), aliases, Seq::empty());
    assert(Seq::<TreeView>::empty() + written(aliases) =~= written(aliases));
    assert(Seq::<AliasView>::empty() + aliases =~= aliases);
}

/// How many pairs stand behind the name, going by the number of tokens:
/// a pair takes four tokens with its comma.
pub open spec fn pair_count(tokens: Seq<TokenView>) -> int {
    (tokens.len() - 1) / 4
}

/// Whether the pair of index `k` behind the name is `, since = "..."` or
/// `, note = "..."`.
pub open spec fn has_pair(tokens: Seq<TokenView>, k: int) -> bool {
    &&& tokens[1 + 4 * k] == TokenView::Comma
    &&& is_pair(tokens, 2 + 4 * k)
    &&& (tokens[2 + 4 * k]->Name_0 == "since"@ || tokens[2 + 4 * k]->Name_0 == "note"@)
}

/// The shape of what may stand between the parentheses of
/// `deprecated(...)`: a name, then pairs, then at most one comma.
pub open spec fn is_body(tokens: Seq<TokenView>) -> bool {
    &&& tokens.len() >= 1
    &&& tokens[0] is Name
    &&& forall|k: int| 0 <= k < pair_count(tokens) ==> has_pair(tokens, k)
    &&& ((tokens.len() - 1) % 4 == 0 || ((tokens.len() - 1) % 4 == 1 && tokens.last()
        == TokenView::Comma))
}

/// The value of the last among the first `count` pairs that has the key
/// `key`, if any of them has it.
pub open spec fn last_value(tokens: Seq<TokenView>, key: Seq<char>, count: int) -> Option<
    Seq<char>,
>
    decreases count,
{
    if count <= 0 {
        None
    } else if tokens[4 * count - 2]->Name_0 == key {
        Some(tokens[4 * count]->Str_0)
    } else {
        last_value(tokens, key, count - 1)
    }
}

proof fn lemma_pairs_meaning(tokens: Seq<TokenView>, j: int, so_far: DeprecatedView)
    requires
        tokens.len() >= 1,
        0 <= j <= pair_count(tokens),
        so_far.since == last_value(tokens, "since"@, j),
        so_far.note == last_value(tokens, "note"@, j),
    ensures
        pairs_from(tokens, 1 + 4 * j, so_far) is Ok <==> {
            &&& forall|k: int| j <= k < pair_count(tokens) ==> has_pair(tokens, k)
            &&& ((tokens.len() - 1) % 4 == 0 || ((tokens.len() - 1) % 4 == 1 && tokens.last()
                == TokenView::Comma))
        },
        pairs_from(tokens, 1 + 4 * j, so_far) matches Ok(d) ==> {
            &&& d.name == so_far.name
            &&& d.since == last_value(tokens, "since"@, pair_count(tokens))
            &&& d.note == last_value(tokens, "note"@, pair_count(tokens))
        },
    decreases pair_count(tokens) - j,
{
    let m = pair_count(tokens);
    let at = 1 + 4 * j;
    lemma_keys_differ();
    if j < m {
        if has_pair(tokens, j) {
            let value = tokens[at + 3]->Str_0;
            let next = if tokens[at + 1]->Name_0 == "since"@ {
                DeprecatedView { since: Some(value), ..so_far }
            } else {
                DeprecatedView { note: Some(value), ..so_far }
            };
            assert(pairs_from(tokens, at, so_far) == pairs_from(tokens, at + 4, next));
            assert(4 * (j + 1) - 2 == at + 1);
            assert(4 * (j + 1) == at + 3);
            lemma_pairs_meaning(tokens, j + 1, next);
        } else {
            assert(pairs_from(tokens, at, so_far) is Err);
        }
    } else {
        assert(at + ((tokens.len() - 1) % 4) == tokens.len());
    }
}

/// What a group means, said without reading it from left to right: it is an
/// alias exactly where it has the shape of a name, pairs and at most one
/// comma; the alias then has the group's first token for its name, and for
/// each key the value of the last pair that has the key.
pub proof fn lemma_body_meaning(tokens: Seq<TokenView>)
    ensures
        parsed_body(tokens) is Ok <==> is_body(tokens),
        parsed_body(tokens) matches Ok(d) ==> {
            &&& d.name == tokens[0]->Name_0
            &&& d.since == last_value(tokens, "since"@, pair_count(tokens))
            &&& d.note == last_value(tokens, "note"@, pair_count(tokens))
        },
{
    if tokens.len() >= 1 && tokens[0] is Name {
        lemma_pairs_meaning(
            tokens,
            0,
            DeprecatedView { name: tokens[0]->Name_0, since: None, note: None },
        );
    }
}

proof fn lemma_list_grows(trees: Seq<TreeView>, at: int, so_far: Seq<AliasView>)
    ensures
        list_from(trees, at, so_far) matches Ok(aliases) ==> aliases.len() >= 1 && aliases.len()
            >= so_far.len(),
    decreases trees.len() - at,
{
    if 0 <= at < trees.len() {
        match parsed_entry(trees, at) {
            Err(_) => {},
            Ok((alias, next)) => {
                if next < trees.len() && next > at && trees[next] == TreeView::Leaf(
                    TokenView::Comma,
                ) {
                    lemma_list_grows(trees, next + 1, so_far.push(alias));
                }
            },
        }
    }
}

/// A list that is read holds at least one alias.
pub proof fn lemma_never_empty(trees: Seq<TreeView>)
    ensures
        parsed_aliases(trees) matches Ok(aliases) ==> aliases.len() >= 1,
{
    lemma_list_grows(trees, 0, Seq::empty());
}

proof fn lemma_comma_behind(trees: Seq<TreeView>, at: int, so_far: Seq<AliasView>)
    requires
        0 <= at < trees.len(),
        trees.last() != TreeView::Leaf(TokenView::Comma),
        list_from(trees, at, so_far) is Ok,
    ensures
        list_from(trees.push(TreeView::Leaf(TokenView::Comma)), at, so_far) == list_from(
            trees,
            at,
            so_far,
        ),
    decreases trees.len() - at,
{
    let longer = trees.push(TreeView::Leaf(TokenView::Comma));
    let n = trees.len() as int;
    assert forall|k: int| 0 <= k < n implies longer[k] == trees[k] by {}
    assert(longer[n] == TreeView::Leaf(TokenView::Comma));
    assert(parsed_entry(longer, at) == parsed_entry(trees, at));
    match parsed_entry(trees, at) {
        Err(_) => {},
        Ok((alias, next)) => {
            if next >= n {
                assert(next == n);
                assert(list_from(longer, n + 1, so_far.push(alias)) == Ok::<
                    Seq<AliasView>,
                    ArgErrorView,
                >(so_far.push(alias)));
            } else {
                assert(trees[next] == TreeView::Leaf(TokenView::Comma));
                assert(next + 1 < n) by {
                    if next + 1 == n {
                        assert(trees.last() == trees[next]);
                    }
                }
                lemma_comma_behind(trees, next + 1, so_far.push(alias));
            }
        },
    }
}

/// One comma may stand behind the last entry: where a list is read and does
/// not end in a comma, the list with a comma behind it is read as the same
/// aliases.
pub proof fn lemma_one_comma_may_end_the_list(trees: Seq<TreeView>)
    requires
        parsed_aliases(trees) is Ok,
        trees.last() != TreeView::Leaf(TokenView::Comma),
    ensures
        parsed_aliases(trees.push(TreeView::Leaf(TokenView::Comma))) == parsed_aliases(trees),
{
    lemma_comma_behind(trees, 0, Seq::empty());
}

/// A declaration with `n` aliases is emitted as `n + 1` declarations, the
/// first of which is the declaration itself.
pub proof fn lemma_one_more_than_aliases(declaration: DeclarationView, aliases: Seq<AliasView>)
    ensures
        duplicated(declaration, aliases).len() == aliases.len() + 1,
        duplicated(declaration, aliases)[0] == declaration,
{
}

/// A duplicate has the kind and the source of its declaration, and its
/// markers are those of the declaration with at most one more in front.
/// Nothing but the name and that marker differs.
pub proof fn lemma_duplicates_keep_the_rest(
    declaration: DeclarationView,
    aliases: Seq<AliasView>,
    i: int,
)
    requires
        0 <= i < aliases.len(),
    ensures
        duplicated(declaration, aliases)[i + 1].kind == declaration.kind,
        duplicated(declaration, aliases)[i + 1].source == declaration.source,
        duplicated(declaration, aliases)[i + 1].markers == declaration.markers || duplicated(
            declaration,
            aliases,
        )[i + 1].markers.skip(1) == declaration.markers,
        duplicated(declaration, aliases)[i + 1] == (DeclarationView {
            name: duplicated(declaration, aliases)[i + 1].name,
            markers: duplicated(declaration, aliases)[i + 1].markers,
            ..declaration
        }),
{
    let duplicate = duplicated(declaration, aliases)[i + 1];
    assert(duplicate == aliased(declaration, aliases[i]));
    match marker_for(aliases[i]) {
        Some(marker) => {
            assert((seq![marker] + declaration.markers).skip(1) =~= declaration.markers);
        },
        None => {},
    }
}

/// The duplicates come in the order of the aliases: the one at place
/// `i + 1` is made for the alias at place `i` and carries its name.
pub proof fn lemma_duplicates_in_order(
    declaration: DeclarationView,
    aliases: Seq<AliasView>,
    i: int,
)
    requires
        0 <= i < aliases.len(),
    ensures
        duplicated(declaration, aliases)[i + 1] == aliased(declaration, aliases[i]),
        duplicated(declaration, aliases)[i + 1].name == Some(aliases[i].ident()),
{
}

/// A duplicate for a plain name gets no marker. A duplicate for a
/// deprecated alias gets one, in front of the markers that the declaration
/// had: the bare marker where neither `since` nor `note` is given, the
/// marker with the one that is given, or the marker with both.
pub proof fn lemma_marker_shapes(declaration: DeclarationView, alias: AliasView)
    ensures
        alias is Name ==> aliased(declaration, alias).markers == declaration.markers,
        alias matches AliasView::Deprecated(d) ==> {
            let markers = aliased(declaration, alias).markers;
            &&& markers.len() == declaration.markers.len() + 1
            &&& markers.skip(1) == declaration.markers
            &&& (d.since is None && d.note is None ==> markers[0] == MarkerView::Bare)
            &&& (d.since is None && d.note is Some ==> markers[0] == MarkerView::Note(
                d.note->Some_0,
            ))
            &&& (d.since is Some && d.note is None ==> markers[0] == MarkerView::Since(
                d.since->Some_0,
            ))
            &&& (d.since is Some && d.note is Some ==> markers[0] == MarkerView::SinceNote(
                d.since->Some_0,
                d.note->Some_0,
            ))
        },
{
    match alias {
        AliasView::Name(_) => {},
        AliasView::Deprecated(d) => {
            let marker = marker_for(alias)->Some_0;
            assert((seq![marker] + declaration.markers).skip(1) =~= declaration.markers);
        },
    }
}

/// A text that is none of the five kinds of declaration is read as no
/// declaration at all.
pub proof fn lemma_other_kinds_are_turned_down(text: Seq<char>)
    requires
        class_of(text) == Class::Unsupported,
    ensures
        read_as(text) == Err::<DeclarationView, AliasErrorView>(
            AliasErrorView::UnsupportedDeclaration,
        ),
{
}

/// Nothing is emitted for a text that is none of the five kinds of
/// declaration, whatever the arguments; where the arguments can be read, the
/// reason given is that the declaration is unsupported.
pub proof fn lemma_nothing_for_other_kinds(args: Seq<char>, input: Seq<char>)
    requires
        class_of(input) == Class::Unsupported,
    ensures
        expansion(args, input) is Err,
        arguments(args) is Ok ==> expansion(args, input) == Err::<Seq<Seq<char>>, AliasErrorView>(
            AliasErrorView::UnsupportedDeclaration,
        ),
{
}

/// What is emitted for `n` aliases is `n + 1` texts in the order of the
/// aliases: the declaration as it was given, then for each alias the
/// declaration under the alias's name, behind the alias's attribute where
/// it has one.
pub proof fn lemma_emitted_texts(args: Seq<char>, input: Seq<char>)
    requires
        expansion(args, input) is Ok,
    ensures
        arguments(args) is Ok,
        class_of(input) is Declares,
        expansion(args, input)->Ok_0.len() == arguments(args)->Ok_0.len() + 1,
        expansion(args, input)->Ok_0[0] == input,
        forall|i: int|
            0 <= i < arguments(args)->Ok_0.len() ==> #[trigger] expansion(args, input)->Ok_0[i + 1]
                == duplicate_text(class_of(input)->Declares_0, input, arguments(args)->Ok_0[i]),
{
    let aliases = arguments(args)->Ok_0;
    let declaration = read_as(input)->Ok_0;
    let texts = expansion(args, input)->Ok_0;
    assert(attributes(declaration.markers) + input =~= input);
    assert forall|i: int| 0 <= i < aliases.len() implies #[trigger] texts[i + 1] == duplicate_text(
        declaration.kind,
        input,
        aliases[i],
    ) by {
        lemma_duplicate_text(declaration, aliases[i]);
    }
}

} // verus!
