//! The selection-to-query translator: recursively composes a graph-query
//! fragment from a selection tree, dispatching each requested field to a
//! type-specific mapping rule.
//!
//! Failures are not cut short: every failing field of a subtree is collected
//! into one composite error, so a single compilation attempt reports every
//! unknown field and invalid argument in the whole tree.

use vstd::prelude::*;
use vstd::string::StringExecFns;

use crate::error::{CompositeErrorView, CompositeQueryCreationError, ErrorView, QueryCreationError};
use crate::fingerprint::{fingerprint, hex_digit_char, spec_fingerprint};
use crate::json::str_eq;
use crate::selection::{Selection, SelectionView};
use crate::validate::{spec_validate_search_args, validate_search_args};

verus! {

/// The closed set of entity types the schema serves.
#[derive(Clone, Copy, PartialEq, Eq, Structural)]
pub enum EntityKind {
    Haiku,
    DiscordUser,
    DiscordChannel,
    DiscordServer,
}

/// The decimal digits of a positive number, most significant first.
pub open spec fn dec_digits(n: int) -> Seq<char>
    decreases n,
{
    if n <= 0 {
        Seq::empty()
    } else {
        dec_digits(n / 10).push(hex_digit_char(n % 10))
    }
}

/// The query fragment one selected field compiles to, or why it cannot.
pub open spec fn spec_field_fragment(kind: EntityKind, child: SelectionView) -> Result<
    Seq<char>,
    ErrorView,
>
    decreases child, 2int,
{
    match kind {
        EntityKind::Haiku => {
            if child.name == "id"@ {
                Ok("id: uid"@)
            } else if child.name == "authors"@ {
                wrap_fragment(
                    spec_inner_query(EntityKind::DiscordUser, child),
                    "authors: author @filter(type(DiscordUser)) { "@,
                    " }"@,
                )
            } else if child.name == "content"@ {
                Ok("content"@)
            } else if child.name == "channel"@ {
                wrap_fragment(
                    spec_inner_query(EntityKind::DiscordChannel, child),
                    "channel @filter(type(DiscordChannel)) { "@,
                    " }"@,
                )
            } else if child.name == "server"@ {
                wrap_fragment(
                    spec_inner_query(EntityKind::DiscordServer, child),
                    "serverChannel: channel @filter(type(DiscordChannel)) { server @filter(type(DiscordServer)) { "@,
                    " } }"@,
                )
            } else {
                Err(ErrorView::UnknownField(child.name))
            }
        },
        EntityKind::DiscordUser => {
            if child.name == "discordSnowflake"@ {
                Ok("discordSnowflake"@)
            } else if child.name == "haikus"@ {
                wrap_fragment(
                    spec_inner_query(EntityKind::Haiku, child),
                    "haikus: ~author @filter(type(Haiku)) { "@,
                    " }"@,
                )
            } else {
                Err(ErrorView::UnknownField(child.name))
            }
        },
        EntityKind::DiscordChannel => {
            if child.name == "discordSnowflake"@ {
                Ok("discordSnowflake"@)
            } else if child.name == "server"@ {
                wrap_fragment(
                    spec_inner_query(EntityKind::DiscordServer, child),
                    "server: server @filter(type(DiscordServer)) { "@,
                    " }"@,
                )
            } else if child.name == "haikus"@ {
                wrap_fragment(
                    spec_inner_query(EntityKind::Haiku, child),
                    "haikus: ~channel @filter(type(Haiku)) { "@,
                    " }"@,
                )
            } else if child.name == "search"@ {
                spec_search_fragment(child)
            } else {
                Err(ErrorView::UnknownField(child.name))
            }
        },
        EntityKind::DiscordServer => {
            if child.name == "discordSnowflake"@ {
                Ok("discordSnowflake"@)
            } else if child.name == "channels"@ {
                wrap_fragment(
                    spec_inner_query(EntityKind::DiscordChannel, child),
                    "channels: ~server @filter(type(DiscordChannel)) { "@,
                    " }"@,
                )
            } else if child.name == "haikus"@ {
                wrap_fragment(
                    spec_inner_query(EntityKind::Haiku, child),
                    "haikuChannels: ~server @filter(type(DiscordChannel)) { haikus: ~channel @filter(type(Haiku)) { "@,
                    " } }"@,
                )
            } else {
                Err(ErrorView::UnknownField(child.name))
            }
        },
    }
}

/// A sub-entity's fragment wrapped in its traversal clause.
pub open spec fn wrap_fragment(
    inner: Result<Seq<char>, ErrorView>,
    prefix: Seq<char>,
    suffix: Seq<char>,
) -> Result<Seq<char>, ErrorView> {
    match inner {
        Ok(q) => Ok(prefix + q + suffix),
        Err(e) => Err(e),
    }
}

/// The parameterized search field of a channel: validated arguments, then a
/// filtered reverse traversal aliased to the arguments' fingerprint.
pub open spec fn spec_search_fragment(child: SelectionView) -> Result<Seq<char>, ErrorView>
    decreases child, 1int,
{
    match spec_validate_search_args(child.args) {
        Err(e) => Err(e),
        Ok((term, first)) => match spec_inner_query(EntityKind::Haiku, child) {
            Err(e) => Err(e),
            Ok(q) => Ok(
                spec_fingerprint("search"@, term, first)
                    + ": ~channel @filter(type(Haiku) AND anyoftext(content, \""@ + term + "\")) (first: "@
                    + dec_digits(first) + ") { "@ + q + " }"@,
            ),
        },
    }
}

/// Fragments of the children that compile and errors of those that do not,
/// both in selection order.
pub open spec fn spec_collect(kind: EntityKind, children: Seq<SelectionView>) -> (
    Seq<Seq<char>>,
    Seq<ErrorView>,
)
    decreases children, 0int,
{
    if children.len() == 0 {
        (Seq::empty(), Seq::empty())
    } else {
        let (fragments, errors) = spec_collect(kind, children.drop_last());
        match spec_field_fragment(kind, children.last()) {
            Ok(f) => (fragments.push(f), errors),
            Err(e) => (fragments, errors.push(e)),
        }
    }
}

/// Fragments joined by single newlines.
pub open spec fn join_newline(fragments: Seq<Seq<char>>) -> Seq<char>
    decreases fragments.len(),
{
    if fragments.len() == 0 {
        Seq::empty()
    } else if fragments.len() == 1 {
        fragments[0]
    } else {
        join_newline(fragments.drop_last()) + seq!['\n'] + fragments.last()
    }
}

/// What a whole selection compiles to against an entity type: its children's
/// fragments joined, or one composite error holding every failing child.
pub open spec fn spec_inner_query(kind: EntityKind, sel: SelectionView) -> Result<
    Seq<char>,
    ErrorView,
>
    decreases sel, 0int,
{
    let (fragments, errors) = spec_collect(kind, sel.children);
    if errors.len() == 0 {
        Ok(join_newline(fragments))
    } else {
        Err(ErrorView::Composite(CompositeErrorView { at_field: sel.name, children: errors }))
    }
}

/// The model of a compilation result: the fragment's characters on success,
/// the error's model on failure.
pub open spec fn res_view(r: Result<String, QueryCreationError>) -> Result<Seq<char>, ErrorView> {
    match r {
        Ok(q) => Ok(q@),
        Err(e) => Err(e@),
    }
}

/// Wraps a compiled sub-fragment in its traversal clause, or passes the
/// failure through.
fn wrap_exec(inner: Result<String, QueryCreationError>, prefix: &str, suffix: &str) -> (r: Result<
    String,
    QueryCreationError,
>)
    ensures
        res_view(r) == wrap_fragment(res_view(inner), prefix@, suffix@),
{
    match inner {
        Ok(q) => {
            let mut out: String = prefix.to_owned();
            out.append(q.as_str());
            out.append(suffix);
            Ok(out)
        },
        Err(e) => Err(e),
    }
}

/// Compiles one selected field against an entity type's mapping rules.
pub fn generate_inner_query_for_field(kind: EntityKind, child: &Selection) -> (r: Result<
    String,
    QueryCreationError,
>)
    ensures
        res_view(r) == spec_field_fragment(kind, child@),
    decreases child, 2int,
{
    let name = child.name.as_str();
    match kind {
        EntityKind::Haiku => {
            if str_eq(name, "id") {
                Ok("id: uid".to_owned())
            } else if str_eq(name, "authors") {
                wrap_exec(
                    generate_inner_query(EntityKind::DiscordUser, child),
                    "authors: author @filter(type(DiscordUser)) { ",
                    " }",
                )
            } else if str_eq(name, "content") {
                Ok("content".to_owned())
            } else if str_eq(name, "channel") {
                wrap_exec(
                    generate_inner_query(EntityKind::DiscordChannel, child),
                    "channel @filter(type(DiscordChannel)) { ",
                    " }",
                )
            } else if str_eq(name, "server") {
                wrap_exec(
                    generate_inner_query(EntityKind::DiscordServer, child),
                    "serverChannel: channel @filter(type(DiscordChannel)) { server @filter(type(DiscordServer)) { ",
                    " } }",
                )
            } else {
                Err(QueryCreationError::UnknownField(child.name.clone()))
            }
        },
        EntityKind::DiscordUser => {
            if str_eq(name, "discordSnowflake") {
                Ok("discordSnowflake".to_owned())
            } else if str_eq(name, "haikus") {
                wrap_exec(
                    generate_inner_query(EntityKind::Haiku, child),
                    "haikus: ~author @filter(type(Haiku)) { ",
                    " }",
                )
            } else {
                Err(QueryCreationError::UnknownField(child.name.clone()))
            }
        },
        EntityKind::DiscordChannel => {
            if str_eq(name, "discordSnowflake") {
                Ok("discordSnowflake".to_owned())
            } else if str_eq(name, "server") {
                wrap_exec(
                    generate_inner_query(EntityKind::DiscordServer, child),
                    "server: server @filter(type(DiscordServer)) { ",
                    " }",
                )
            } else if str_eq(name, "haikus") {
                wrap_exec(
                    generate_inner_query(EntityKind::Haiku, child),
                    "haikus: ~channel @filter(type(Haiku)) { ",
                    " }",
                )
            } else if str_eq(name, "search") {
                generate_search_fragment(child)
            } else {
                Err(QueryCreationError::UnknownField(child.name.clone()))
            }
        },
        EntityKind::DiscordServer => {
            if str_eq(name, "discordSnowflake") {
                Ok("discordSnowflake".to_owned())
            } else if str_eq(name, "channels") {
                wrap_exec(
                    generate_inner_query(EntityKind::DiscordChannel, child),
                    "channels: ~server @filter(type(DiscordChannel)) { ",
                    " }",
                )
            } else if str_eq(name, "haikus") {
                wrap_exec(
                    generate_inner_query(EntityKind::Haiku, child),
                    "haikuChannels: ~server @filter(type(DiscordChannel)) { haikus: ~channel @filter(type(Haiku)) { ",
                    " } }",
                )
            } else {
                Err(QueryCreationError::UnknownField(child.name.clone()))
            }
        },
    }
}

/// Compiles a channel's parameterized search field: validates the arguments,
/// then emits the filtered traversal aliased to their fingerprint.
fn generate_search_fragment(child: &Selection) -> (r: Result<String, QueryCreationError>)
    ensures
        res_view(r) == spec_search_fragment(child@),
    decreases child, 1int,
{
    match validate_search_args(child) {
        Err(e) => Err(e),
        Ok(sa) => match generate_inner_query(EntityKind::Haiku, child) {
            Err(e) => Err(e),
            Ok(q) => {
                assert(crate::validate::valid_search_term(sa.term@) && 1 <= sa.first);
                let mut out = fingerprint("search", sa.term.as_str(), sa.first);
                out.append(": ~channel @filter(type(Haiku) AND anyoftext(content, \"");
                out.append(sa.term.as_str());
                out.append("\")) (first: ");
                push_decimal(&mut out, sa.first as u32);
                out.append(") { ");
                out.append(q.as_str());
                out.append(" }");
                Ok(out)
            },
        },
    }
}

/// Compiles a whole selection against an entity type, joining its children's
/// fragments or collecting every failing child into one composite error.
#[verifier::loop_isolation(false)]
pub fn generate_inner_query(kind: EntityKind, selection: &Selection) -> (r: Result<
    String,
    QueryCreationError,
>)
    ensures
        res_view(r) == spec_inner_query(kind, selection@),
    decreases selection, 0int,
{
    proof {
        crate::selection::lemma_sel_seq_view(selection.children@);
        assert(selection@.children.take(0) =~= Seq::<SelectionView>::empty());
    }
    let mut joined = String::new();
    let mut ok_count: usize = 0;
    let mut errs: Vec<QueryCreationError> = Vec::new();
    let n = selection.children.len();
    for i in 0..n
        invariant
            ok_count <= i,
            crate::error::err_seq_view(errs@) == spec_collect(
                kind,
                selection@.children.take(i as int),
            ).1,
            joined@ == join_newline(spec_collect(kind, selection@.children.take(i as int)).0),
            ok_count as int == spec_collect(kind, selection@.children.take(i as int)).0.len(),
    {
        let ghost prefix = selection@.children.take(i as int);
        let ghost next = selection@.children.take(i + 1);
        proof {
            assert(next.drop_last() =~= prefix);
            assert(next.last() == selection@.children[i as int]);
            assert(selection@.children[i as int] == selection.children@[i as int]@);
        }
        let child = &selection.children[i];
        match generate_inner_query_for_field(kind, child) {
            Ok(fragment) => {
                let ghost fragments = spec_collect(kind, prefix).0;
                if ok_count > 0 {
                    crate::fingerprint::push_char(&mut joined, '\n');
                }
                joined.append(fragment.as_str());
                ok_count += 1;
                proof {
                    if fragments.len() == 0 {
                        assert(joined@ =~= fragment@);
                        assert(join_newline(fragments.push(fragment@)) == fragment@);
                    } else {
                        assert(joined@ =~= join_newline(fragments) + seq!['\n'] + fragment@);
                        assert(fragments.push(fragment@).drop_last() =~= fragments);
                        assert(join_newline(fragments.push(fragment@)) == join_newline(fragments)
                            + seq!['\n'] + fragment@);
                    }
                }
            },
            Err(e) => {
                let ghost errors = errs@;
                errs.push(e);
                proof {
                    assert(errs@.drop_last() =~= errors);
                    assert(crate::error::err_seq_view(errs@) == crate::error::err_seq_view(
                        errors,
                    ).push(e@));
                }
            },
        }
    }
    proof {
        assert(selection@.children.take(n as int) =~= selection@.children);
        crate::error::lemma_err_seq_view(errs@);
    }
    if errs.len() == 0 {
        Ok(joined)
    } else {
        Err(
            QueryCreationError::Composite(
                CompositeQueryCreationError { at_field: selection.name.clone(), children: errs },
            ),
        )
    }
}

/// A field name the entity type defines.
pub open spec fn known_field(kind: EntityKind, name: Seq<char>) -> bool {
    match kind {
        EntityKind::Haiku => name == "id"@ || name == "authors"@ || name == "content"@ || name
            == "channel"@ || name == "server"@,
        EntityKind::DiscordUser => name == "discordSnowflake"@ || name == "haikus"@,
        EntityKind::DiscordChannel => name == "discordSnowflake"@ || name == "server"@ || name
            == "haikus"@ || name == "search"@,
        EntityKind::DiscordServer => name == "discordSnowflake"@ || name == "channels"@ || name
            == "haikus"@,
    }
}

/// One selected field compiles: it is defined on the entity type, its
/// arguments validate, and its nested selection compiles against the edge's
/// entity type. The branches mirror the mapping rules, field by field.
pub open spec fn compilable_field(kind: EntityKind, child: SelectionView) -> bool
    decreases child, 1int,
{
    match kind {
        EntityKind::Haiku => {
            if child.name == "id"@ {
                true
            } else if child.name == "authors"@ {
                compilable(EntityKind::DiscordUser, child)
            } else if child.name == "content"@ {
                true
            } else if child.name == "channel"@ {
                compilable(EntityKind::DiscordChannel, child)
            } else if child.name == "server"@ {
                compilable(EntityKind::DiscordServer, child)
            } else {
                false
            }
        },
        EntityKind::DiscordUser => {
            if child.name == "discordSnowflake"@ {
                true
            } else if child.name == "haikus"@ {
                compilable(EntityKind::Haiku, child)
            } else {
                false
            }
        },
        EntityKind::DiscordChannel => {
            if child.name == "discordSnowflake"@ {
                true
            } else if child.name == "server"@ {
                compilable(EntityKind::DiscordServer, child)
            } else if child.name == "haikus"@ {
                compilable(EntityKind::Haiku, child)
            } else if child.name == "search"@ {
                spec_validate_search_args(child.args) is Ok && compilable(EntityKind::Haiku, child)
            } else {
                false
            }
        },
        EntityKind::DiscordServer => {
            if child.name == "discordSnowflake"@ {
                true
            } else if child.name == "channels"@ {
                compilable(EntityKind::DiscordChannel, child)
            } else if child.name == "haikus"@ {
                compilable(EntityKind::Haiku, child)
            } else {
                false
            }
        },
    }
}

/// Every field of a sequence of selections compiles.
pub open spec fn compilable_children(kind: EntityKind, children: Seq<SelectionView>) -> bool
    decreases children, 2int,
{
    if children.len() == 0 {
        true
    } else {
        compilable_children(kind, children.drop_last()) && compilable_field(kind, children.last())
    }
}

/// A whole selection compiles against an entity type: every requested field
/// does, at every depth.
pub open spec fn compilable(kind: EntityKind, sel: SelectionView) -> bool
    decreases sel, 0int,
{
    compilable_children(kind, sel.children)
}

proof fn lemma_field_fragment_ok(kind: EntityKind, child: SelectionView)
    ensures
        compilable_field(kind, child) <==> spec_field_fragment(kind, child) is Ok,
    decreases child, 2int,
{
    match kind {
        EntityKind::Haiku => {
            lemma_inner_query_ok(EntityKind::DiscordUser, child);
            lemma_inner_query_ok(EntityKind::DiscordChannel, child);
            lemma_inner_query_ok(EntityKind::DiscordServer, child);
        },
        EntityKind::DiscordUser => {
            lemma_inner_query_ok(EntityKind::Haiku, child);
        },
        EntityKind::DiscordChannel => {
            lemma_inner_query_ok(EntityKind::DiscordServer, child);
            lemma_inner_query_ok(EntityKind::Haiku, child);
        },
        EntityKind::DiscordServer => {
            lemma_inner_query_ok(EntityKind::DiscordChannel, child);
            lemma_inner_query_ok(EntityKind::Haiku, child);
        },
    }
}

proof fn lemma_collect_ok(kind: EntityKind, children: Seq<SelectionView>)
    ensures
        spec_collect(kind, children).1.len() == 0 <==> compilable_children(kind, children),
    decreases children, 0int,
{
    if children.len() > 0 {
        lemma_collect_ok(kind, children.drop_last());
        lemma_field_fragment_ok(kind, children.last());
    }
}

/// Law: a selection naming only fields defined on its entity type, with
/// valid arguments, compiles — and only such a selection does. Together
/// with `generate_inner_query`'s contract, which gives the compiled
/// fragment exactly, every requested field's clause stands in the result.
pub proof fn lemma_inner_query_ok(kind: EntityKind, sel: SelectionView)
    ensures
        compilable(kind, sel) <==> spec_inner_query(kind, sel) is Ok,
    decreases sel, 1int,
{
    lemma_collect_ok(kind, sel.children);
}

/// A selected field whose name the entity type does not define./// A selected field whose name the entity type does not define.
pub open spec fn is_unknown_child(kind: EntityKind, child: SelectionView) -> bool {
    !known_field(kind, child.name)
}

/// The unknown-field errors among a sequence of compilation errors, in
/// order.
pub open spec fn unknown_errors(errs: Seq<ErrorView>) -> Seq<ErrorView>
    decreases errs.len(),
{
    if errs.len() == 0 {
        Seq::empty()
    } else if errs.last() is UnknownField {
        unknown_errors(errs.drop_last()).push(errs.last())
    } else {
        unknown_errors(errs.drop_last())
    }
}

/// One unknown-field error for each child the entity type does not define,
/// in selection order.
pub open spec fn unknown_children_errors(kind: EntityKind, children: Seq<SelectionView>) -> Seq<
    ErrorView,
>
    decreases children.len(),
{
    if children.len() == 0 {
        Seq::empty()
    } else if is_unknown_child(kind, children.last()) {
        unknown_children_errors(kind, children.drop_last()).push(
            ErrorView::UnknownField(children.last().name),
        )
    } else {
        unknown_children_errors(kind, children.drop_last())
    }
}

/// A defined field never fails as unknown: its failures are its arguments'
/// or its nested selection's, which surface as argument errors or one
/// composite.
proof fn lemma_known_field_error_shape(kind: EntityKind, child: SelectionView)
    requires
        known_field(kind, child.name),
        spec_field_fragment(kind, child) is Err,
    ensures
        !(spec_field_fragment(kind, child)->Err_0 is UnknownField),
{
}

proof fn lemma_collect_unknown(kind: EntityKind, children: Seq<SelectionView>)
    ensures
        unknown_errors(spec_collect(kind, children).1) =~= unknown_children_errors(kind, children),
    decreases children.len(),
{
    if children.len() > 0 {
        lemma_collect_unknown(kind, children.drop_last());
        let last = children.last();
        let es = spec_collect(kind, children.drop_last()).1;
        if !known_field(kind, last.name) {
            assert(spec_field_fragment(kind, last) == Err::<Seq<char>, ErrorView>(
                ErrorView::UnknownField(last.name),
            ));
            assert(spec_collect(kind, children).1 == es.push(ErrorView::UnknownField(last.name)));
            assert(es.push(ErrorView::UnknownField(last.name)).drop_last() =~= es);
        } else {
            match spec_field_fragment(kind, last) {
                Ok(_) => {
                    assert(spec_collect(kind, children).1 == es);
                },
                Err(e) => {
                    lemma_known_field_error_shape(kind, last);
                    assert(spec_collect(kind, children).1 == es.push(e));
                    assert(es.push(e).drop_last() =~= es);
                },
            }
        }
    }
}

proof fn lemma_unknown_children_nonempty(kind: EntityKind, children: Seq<SelectionView>, i: int)
    requires
        0 <= i < children.len(),
        is_unknown_child(kind, children[i]),
    ensures
        unknown_children_errors(kind, children).len() > 0,
    decreases children.len(),
{
    if i < children.len() - 1 {
        assert(children.drop_last()[i] == children[i]);
        lemma_unknown_children_nonempty(kind, children.drop_last(), i);
    }
}

/// Law: a selection containing unrecognized field names fails with one
/// composite error at the selection's own field, whose children carry
/// exactly one unknown-field error per unrecognized child, in selection
/// order, however many defined fields stand between them.
pub proof fn lemma_unknown_fields_reported(kind: EntityKind, sel: SelectionView, witness: int)
    requires
        0 <= witness < sel.children.len(),
        is_unknown_child(kind, sel.children[witness]),
    ensures
        spec_inner_query(kind, sel) matches Err(e) && e matches ErrorView::Composite(c)
            && c.at_field == sel.name && unknown_errors(c.children) == unknown_children_errors(
            kind,
            sel.children,
        ),
{
    lemma_collect_unknown(kind, sel.children);
    lemma_unknown_children_nonempty(kind, sel.children, witness);
    let es = spec_collect(kind, sel.children).1;
    if es.len() == 0 {
        assert(unknown_errors(es) =~= Seq::empty());
        assert(false);
    }
}

/// The capability of an entity type to translate a selection tree into a
/// query fragment, one mapping rule per field.
pub trait MapsToDgraphQuery {
    /// Which entity type's mapping rules apply.
    spec fn entity_kind() -> EntityKind;

    /// Compiles one selected field of this entity.
    fn generate_inner_query_for_field(child: &Selection) -> (r: Result<String, QueryCreationError>)
        ensures
            res_view(r) == spec_field_fragment(Self::entity_kind(), child@),
    ;

    /// Compiles a whole selection against this entity.
    fn generate_inner_query(selection: &Selection) -> (r: Result<String, QueryCreationError>)
        ensures
            res_view(r) == spec_inner_query(Self::entity_kind(), selection@),
    ;
}

/// Appends `n` in decimal.
fn push_decimal(out: &mut String, n: u32)
    ensures
        final(out)@ == old(out)@ + dec_digits(n as int),
    decreases n,
{
    if n == 0 {
        proof {
            assert(old(out)@ + dec_digits(0) =~= old(out)@);
        }
    } else {
        push_decimal(out, n / 10);
        let d = (n % 10) as u8;
        crate::fingerprint::push_char(out, crate::fingerprint::hex_digit(d));
        proof {
            assert((old(out)@ + dec_digits(n as int / 10)).push(hex_digit_char(n as int % 10))
                =~= old(out)@ + dec_digits(n as int));
        }
    }
}

} // verus!

