//! A small self-referential person schema: its own translator, with a
//! ranked singleton edge, and its resolvers.

use vstd::prelude::*;

use crate::error::{CompositeErrorView, CompositeQueryCreationError, ErrorView, QueryCreationError,
    ResolveError};
use crate::json::{json_get, JsonValue, JsonView};
use crate::selection::{Selection, SelectionView};
use crate::translate::{join_newline, res_view, wrap_fragment};

verus! {

/// A person record as the database answered it.
#[derive(Debug)]
pub struct Person {
    pub result_json: JsonValue,
}

impl View for Person {
    type V = JsonView;

    open spec fn view(&self) -> JsonView {
        self.result_json@
    }
}

/// The query fragment one selected person field compiles to, or why it
/// cannot.
pub open spec fn person_field_fragment(child: SelectionView) -> Result<Seq<char>, ErrorView>
    decreases child, 1int,
{
    if child.name == "friends"@ {
        wrap_fragment(spec_person_query(child), "friend {\n"@, "\n}"@)
    } else if child.name == "bestFriend"@ {
        wrap_fragment(
            spec_person_query(child),
            "bestFriend: friend @facets(orderdesc: score) (first: 1) {\n"@,
            "\n}"@,
        )
    } else {
        Err(ErrorView::UnknownField(child.name))
    }
}

/// Fragments of the person children that compile and errors of those that
/// do not, both in selection order.
pub open spec fn person_collect(children: Seq<SelectionView>) -> (Seq<Seq<char>>, Seq<ErrorView>)
    decreases children, 0int,
{
    if children.len() == 0 {
        (Seq::empty(), Seq::empty())
    } else {
        let (fragments, errors) = person_collect(children.drop_last());
        match person_field_fragment(children.last()) {
            Ok(f) => (fragments.push(f), errors),
            Err(e) => (fragments, errors.push(e)),
        }
    }
}

/// What a whole selection compiles to against the person schema.
pub open spec fn spec_person_query(sel: SelectionView) -> Result<Seq<char>, ErrorView>
    decreases sel, 0int,
{
    let (fragments, errors) = person_collect(sel.children);
    if errors.len() == 0 {
        Ok(join_newline(fragments))
    } else {
        Err(ErrorView::Composite(CompositeErrorView { at_field: sel.name, children: errors }))
    }
}

/// One selected person field compiles: it is one of the two friend edges
/// and its nested selection compiles in turn.
pub open spec fn person_compilable_field(child: SelectionView) -> bool
    decreases child, 1int,
{
    if child.name == "friends"@ {
        person_compilable(child)
    } else if child.name == "bestFriend"@ {
        person_compilable(child)
    } else {
        false
    }
}

/// Every field of a sequence of person selections compiles.
pub open spec fn person_compilable_children(children: Seq<SelectionView>) -> bool
    decreases children, 2int,
{
    if children.len() == 0 {
        true
    } else {
        person_compilable_children(children.drop_last()) && person_compilable_field(
            children.last(),
        )
    }
}

/// A whole selection compiles against the person schema.
pub open spec fn person_compilable(sel: SelectionView) -> bool
    decreases sel, 0int,
{
    person_compilable_children(sel.children)
}

proof fn lemma_person_field_ok(child: SelectionView)
    ensures
        person_compilable_field(child) <==> person_field_fragment(child) is Ok,
    decreases child, 2int,
{
    lemma_person_query_ok(child);
}

proof fn lemma_person_collect_ok(children: Seq<SelectionView>)
    ensures
        person_collect(children).1.len() == 0 <==> person_compilable_children(children),
    decreases children, 0int,
{
    if children.len() > 0 {
        lemma_person_collect_ok(children.drop_last());
        lemma_person_field_ok(children.last());
    }
}

/// Law: a person selection naming only the person schema's edges compiles —
/// and only such a selection does.
pub proof fn lemma_person_query_ok(sel: SelectionView)
    ensures
        person_compilable(sel) <==> spec_person_query(sel) is Ok,
    decreases sel, 1int,
{
    lemma_person_collect_ok(sel.children);
}

/// One unknown-field error for each child the person schema does not
/// define, in selection order.
pub open spec fn person_unknown_children_errors(children: Seq<SelectionView>) -> Seq<ErrorView>
    decreases children.len(),
{
    if children.len() == 0 {
        Seq::empty()
    } else if !(children.last().name == "friends"@ || children.last().name == "bestFriend"@) {
        person_unknown_children_errors(children.drop_last()).push(
            ErrorView::UnknownField(children.last().name),
        )
    } else {
        person_unknown_children_errors(children.drop_last())
    }
}

proof fn lemma_person_collect_unknown(children: Seq<SelectionView>)
    ensures
        crate::translate::unknown_errors(person_collect(children).1)
            =~= person_unknown_children_errors(children),
    decreases children.len(),
{
    if children.len() > 0 {
        lemma_person_collect_unknown(children.drop_last());
        let last = children.last();
        let es = person_collect(children.drop_last()).1;
        match person_field_fragment(last) {
            Ok(_) => {
                assert(person_collect(children).1 == es);
            },
            Err(e) => {
                assert(person_collect(children).1 == es.push(e));
                assert(es.push(e).drop_last() =~= es);
            },
        }
    }
}

proof fn lemma_person_unknown_nonempty(children: Seq<SelectionView>, i: int)
    requires
        0 <= i < children.len(),
        !(children[i].name == "friends"@ || children[i].name == "bestFriend"@),
    ensures
        person_unknown_children_errors(children).len() > 0,
    decreases children.len(),
{
    if i < children.len() - 1 {
        assert(children.drop_last()[i] == children[i]);
        lemma_person_unknown_nonempty(children.drop_last(), i);
    }
}

/// Law: a person selection containing unrecognized field names fails with
/// one composite error whose children carry exactly one unknown-field error
/// per unrecognized child, in selection order.
pub proof fn lemma_person_unknown_fields_reported(sel: SelectionView, witness: int)
    requires
        0 <= witness < sel.children.len(),
        !(sel.children[witness].name == "friends"@ || sel.children[witness].name
            == "bestFriend"@),
    ensures
        spec_person_query(sel) matches Err(e) && e matches ErrorView::Composite(c) && c.at_field
            == sel.name && crate::translate::unknown_errors(c.children)
            == person_unknown_children_errors(sel.children),
{
    lemma_person_collect_unknown(sel.children);
    lemma_person_unknown_nonempty(sel.children, witness);
    let es = person_collect(sel.children).1;
    if es.len() == 0 {
        assert(crate::translate::unknown_errors(es) =~= Seq::empty());
        assert(false);
    }
}

/// Compiles one selected person field.
fn person_query_for_field(child: &Selection) -> (r: Result<String, QueryCreationError>)
    ensures
        res_view(r) == person_field_fragment(child@),
    decreases child, 1int,
{
    let name = child.name.as_str();
    if crate::json::str_eq(name, "friends") {
        match Person::generate_query(child) {
            Ok(inner) => {
                let mut out: String = "friend {\n".to_owned();
                out.append(inner.as_str());
                out.append("\n}");
                Ok(out)
            },
            Err(e) => Err(e),
        }
    } else if crate::json::str_eq(name, "bestFriend") {
        match Person::generate_query(child) {
            Ok(inner) => {
                let mut out: String =
                    "bestFriend: friend @facets(orderdesc: score) (first: 1) {\n".to_owned();
                out.append(inner.as_str());
                out.append("\n}");
                Ok(out)
            },
            Err(e) => Err(e),
        }
    } else {
        Err(QueryCreationError::UnknownField(child.name.clone()))
    }
}

impl Person {
    /// Compiles a whole selection against the person schema, collecting
    /// every failing child into one composite error.
    #[verifier::loop_isolation(false)]
    pub fn generate_query(selection: &Selection) -> (r: Result<String, QueryCreationError>)
        ensures
            res_view(r) == spec_person_query(selection@),
        decreases selection, 0int,
    {
        proof {
            crate::selection::lemma_sel_seq_view(selection.children@);
            assert(selection@.children.take(0) =~= Seq::<SelectionView>::empty());
        }
        let mut joined = String::new();
        let mut ok_count: usize = 0;
        let mut errs: Vec<QueryCreationError> = Vec::new();
        let n = selection.children.len();
        for i in 0..n
            invariant
                ok_count <= i,
                crate::error::err_seq_view(errs@) == person_collect(
                    selection@.children.take(i as int),
                ).1,
                joined@ == join_newline(person_collect(selection@.children.take(i as int)).0),
                ok_count as int == person_collect(selection@.children.take(i as int)).0.len(),
        {
            let ghost prefix = selection@.children.take(i as int);
            let ghost next = selection@.children.take(i + 1);
            proof {
                assert(next.drop_last() =~= prefix);
                assert(next.last() == selection@.children[i as int]);
                assert(selection@.children[i as int] == selection.children@[i as int]@);
            }
            let child = &selection.children[i];
            match person_query_for_field(child) {
                Ok(fragment) => {
                    let ghost fragments = person_collect(prefix).0;
                    if ok_count > 0 {
                        crate::fingerprint::push_char(&mut joined, '\n');
                    }
                    joined.append(fragment.as_str());
                    ok_count += 1;
                    proof {
                        if fragments.len() == 0 {
                            assert(joined@ =~= fragment@);
                            assert(join_newline(fragments.push(fragment@)) == fragment@);
                        } else {
                            assert(joined@ =~= join_newline(fragments) + seq!['\n'] + fragment@);
                            assert(fragments.push(fragment@).drop_last() =~= fragments);
                            assert(join_newline(fragments.push(fragment@)) == join_newline(
                                fragments,
                            ) + seq!['\n'] + fragment@);
                        }
                    }
                },
                Err(e) => {
                    let ghost errors = errs@;
                    errs.push(e);
                    proof {
                        assert(errs@.drop_last() =~= errors);
                        assert(crate::error::err_seq_view(errs@) == crate::error::err_seq_view(
                            errors,
                        ).push(e@));
                    }
                },
            }
        }
        proof {
            assert(selection@.children.take(n as int) =~= selection@.children);
            crate::error::lemma_err_seq_view(errs@);
        }
        if errs.len() == 0 {
            Ok(joined)
        } else {
            Err(
                QueryCreationError::Composite(
                    CompositeQueryCreationError { at_field: selection.name.clone(), children: errs },
                ),
            )
        }
    }

    /// The person's name.
    pub fn name(&self) -> (r: Result<String, ResolveError>)
        ensures
            match r {
                Ok(s) => crate::resolve::str_field(self@, "name"@) == Some(s@),
                Err(_) => crate::resolve::str_field(self@, "name"@) is None,
            },
    {
        match self.result_json.get("name") {
            Some(JsonValue::Str(s)) => Ok(s.clone()),
            _ => Err(ResolveError),
        }
    }

    /// The person's friends, stored under the `friend` edge; absent means
    /// none.
    pub fn friends(&self) -> (r: Result<Vec<Person>, ResolveError>)
        ensures
            match r {
                Ok(ps) => {
                    &&& crate::resolve::lenient_arr_field(self@, "friend"@) matches Some(models)
                    &&& ps@.len() == models.len()
                    &&& forall|i: int| 0 <= i < ps@.len() ==> #[trigger] ps@[i]@ == models[i]
                },
                Err(_) => crate::resolve::lenient_arr_field(self@, "friend"@) is None,
            },
    {
        match self.result_json.get("friend") {
            None => Ok(Vec::new()),
            Some(JsonValue::Arr(items)) => {
                proof {
                    crate::json::lemma_arr_view(items@);
                }
                let mut out: Vec<Person> = Vec::new();
                let n = items.len();
                #[verifier::loop_isolation(false)]
                for i in 0..n
                    invariant
                        out@.len() == i,
                        forall|j: int| 0 <= j < i ==> #[trigger] out@[j]@ == crate::json::arr_view(
                            items@,
                        )[j],
                {
                    out.push(Person { result_json: items[i].deep_copy() });
                }
                Ok(out)
            },
            Some(_) => Err(ResolveError),
        }
    }

    /// The person's best friend: the first element of the ranked singleton
    /// `bestFriend` selection, which must be an array; an empty array means
    /// there is none.
    #[allow(non_snake_case)]
    pub fn bestFriend(&self) -> (r: Result<Option<Person>, ResolveError>)
        ensures
            match r {
                Ok(Some(p)) => {
                    &&& crate::resolve::arr_field(self@, "bestFriend"@) matches Some(models)
                    &&& models.len() > 0
                    &&& p@ == models[0]
                },
                Ok(None) => crate::resolve::arr_field(self@, "bestFriend"@) == Some(
                    Seq::<JsonView>::empty(),
                ),
                Err(_) => crate::resolve::arr_field(self@, "bestFriend"@) is None,
            },
    {
        match self.result_json.get("bestFriend") {
            Some(JsonValue::Arr(items)) => {
                proof {
                    crate::json::lemma_arr_view(items@);
                }
                if items.len() > 0 {
                    Ok(Some(Person { result_json: items[0].deep_copy() }))
                } else {
                    proof {
                        assert(crate::json::arr_view(items@) =~= Seq::<JsonView>::empty());
                    }
                    Ok(None)
                }
            },
            _ => Err(ResolveError),
        }
    }
}

} // verus!
