//! Errors raised while compiling a selection tree into a graph query, and
//! the uniform signals used at resolution time.
//!
//! Compilation errors form a tree that mirrors the selection tree: every
//! failing field of a subtree is kept, so one compilation attempt reports all
//! of a query's mistakes at once. Resolution failures, by contrast, carry no
//! detail: storage-layer anomalies must not leak to API consumers.

use vstd::prelude::*;

verus! {

/// Why one field of a selection could not be compiled, or the collection of
/// such failures across a subtree.
#[derive(Debug, PartialEq, Eq)]
pub enum QueryCreationError {
    Composite(CompositeQueryCreationError),
    UnknownField(String),
    MissingArgument(String),
    InvalidArgument(String, String),
}

/// All compilation failures under one field of the selection tree.
#[derive(Debug, PartialEq, Eq)]
pub struct CompositeQueryCreationError {
    pub at_field: String,
    pub children: Vec<QueryCreationError>,
}

/// The mathematical model of a `QueryCreationError`.
#[verifier::ext_equal]
pub ghost enum ErrorView {
    Composite(CompositeErrorView),
    UnknownField(Seq<char>),
    MissingArgument(Seq<char>),
    InvalidArgument(Seq<char>, Seq<char>),
}

/// The mathematical model of a `CompositeQueryCreationError`.
#[verifier::ext_equal]
pub ghost struct CompositeErrorView {
    pub at_field: Seq<char>,
    pub children: Seq<ErrorView>,
}

/// Model of a sequence of errors, element by element.
pub open spec fn err_seq_view(errs: Seq<QueryCreationError>) -> Seq<ErrorView>
    decreases errs, 0int,
{
    if errs.len() == 0 {
        Seq::empty()
    } else {
        err_seq_view(errs.drop_last()).push(errs.last()@)
    }
}

impl View for QueryCreationError {
    type V = ErrorView;

    open spec fn view(&self) -> ErrorView
        decreases self, 2int,
    {
        match self {
            QueryCreationError::Composite(c) => ErrorView::Composite(c@),
            QueryCreationError::UnknownField(f) => ErrorView::UnknownField(f@),
            QueryCreationError::MissingArgument(a) => ErrorView::MissingArgument(a@),
            QueryCreationError::InvalidArgument(a, m) => ErrorView::InvalidArgument(a@, m@),
        }
    }
}

impl View for CompositeQueryCreationError {
    type V = CompositeErrorView;

    open spec fn view(&self) -> CompositeErrorView
        decreases self, 1int,
    {
        CompositeErrorView { at_field: self.at_field@, children: err_seq_view(self.children@) }
    }
}

/// The model of an error sequence keeps its length and models each element.
pub proof fn lemma_err_seq_view(errs: Seq<QueryCreationError>)
    ensures
        err_seq_view(errs).len() == errs.len(),
        forall|i: int| 0 <= i < errs.len() ==> err_seq_view(errs)[i] == #[trigger] errs[i]@,
    decreases errs.len(),
{
    if errs.len() > 0 {
        lemma_err_seq_view(errs.drop_last());
        assert(err_seq_view(errs) == err_seq_view(errs.drop_last()).push(errs.last()@));
        assert forall|i: int| 0 <= i < errs.len() implies err_seq_view(errs)[i]
            == #[trigger] errs[i]@ by {
            if i < errs.len() - 1 {
                assert(err_seq_view(errs.drop_last())[i] == errs.drop_last()[i]@);
                assert(errs.drop_last()[i] == errs[i]);
            }
        }
    }
}

/// The one-line description of a compilation error; a composite error prints
/// its field name and, between braces, its children's descriptions.
pub open spec fn error_message_view(e: ErrorView) -> Seq<char>
    decreases e, 2int,
{
    match e {
        ErrorView::Composite(c) => composite_message_view(c),
        ErrorView::UnknownField(f) => "Unknown field: "@ + f,
        ErrorView::MissingArgument(a) => "Missing argument: "@ + a,
        ErrorView::InvalidArgument(a, m) => "Invalid argument: "@ + a + " - "@ + m,
    }
}

/// The descriptions of a composite's children, joined by a comma and newline.
pub open spec fn children_messages_view(children: Seq<ErrorView>) -> Seq<char>
    decreases children, 0int,
{
    if children.len() == 0 {
        Seq::empty()
    } else if children.len() == 1 {
        error_message_view(children[0])
    } else {
        children_messages_view(children.drop_last()) + ",\n"@ + error_message_view(
            children.last(),
        )
    }
}

/// The description of a composite error.
pub open spec fn composite_message_view(c: CompositeErrorView) -> Seq<char>
    decreases c, 1int,
{
    c.at_field + ": {\n"@ + children_messages_view(c.children) + "\n}"@
}

impl QueryCreationError {
    /// Renders this error for diagnostics.
    pub fn to_message(&self) -> (r: String)
        ensures
            r@ == error_message_view(self@),
        decreases self,
    {
        match self {
            QueryCreationError::Composite(c) => c.to_message(),
            QueryCreationError::UnknownField(f) => {
                let mut out: String = "Unknown field: ".to_owned();
                out.append(f.as_str());
                out
            },
            QueryCreationError::MissingArgument(a) => {
                let mut out: String = "Missing argument: ".to_owned();
                out.append(a.as_str());
                out
            },
            QueryCreationError::InvalidArgument(a, m) => {
                let mut out: String = "Invalid argument: ".to_owned();
                out.append(a.as_str());
                out.append(" - ");
                out.append(m.as_str());
                out
            },
        }
    }
}

impl CompositeQueryCreationError {
    /// Renders this composite error for diagnostics.
    #[verifier::loop_isolation(false)]
    pub fn to_message(&self) -> (r: String)
        ensures
            r@ == composite_message_view(self@),
        decreases self,
    {
        proof {
            lemma_err_seq_view(self.children@);
        }
        let mut joined: String = String::new();
        let n = self.children.len();
        for i in 0..n
            invariant
                joined@ == children_messages_view(err_seq_view(self.children@).take(i as int)),
        {
            let ghost prefix = err_seq_view(self.children@).take(i as int);
            let ghost next = err_seq_view(self.children@).take(i + 1);
            if i > 0 {
                joined.append(",\n");
            }
            let msg = self.children[i].to_message();
            joined.append(msg.as_str());
            proof {
                assert(next.drop_last() =~= prefix);
                assert(next.last() == err_seq_view(self.children@)[i as int]);
            }
        }
        proof {
            assert(err_seq_view(self.children@).take(n as int) =~= err_seq_view(self.children@));
        }
        let mut out: String = self.at_field.clone();
        out.append(": {\n");
        out.append(joined.as_str());
        out.append("\n}");
        out
    }
}

/// Why a compiled query could not be executed against the database or its
/// answer could not be decoded. Never exposed to API consumers in detail.
#[derive(Debug, PartialEq, Eq)]
pub enum DgraphQueryError {
    /// The database driver itself failed.
    Dgraph,
    /// The database's answer was not valid UTF-8 text.
    InvalidUTF,
    /// The database's answer was not valid JSON.
    InvalidJson,
    /// The database's answer was well-formed but not shaped as an answer to
    /// the query that was sent.
    MalformedResponse,
}

/// The uniform signal for a field that could not be resolved from the
/// database's answer. Deliberately carries no detail.
#[derive(Debug, PartialEq, Eq)]
pub struct ResolveError;

/// The client-visible text of every resolution failure.
pub fn unable_to_resolve_field() -> (r: &'static str)
    ensures
        r@ == "Unable to resolve field"@,
{
    "Unable to resolve field"
}

/// The client-visible text of an identifier that failed lexical validation.
pub fn invalid_input_message() -> (r: &'static str)
    ensures
        r@ == "invalid_input"@,
{
    "invalid_input"
}

} // verus!
