//! The client-chosen field-selection tree, as handed over by the GraphQL
//! execution engine, and its mathematical model.

use vstd::prelude::*;

verus! {

/// An argument value attached to a selected field. Only strings and integers
/// are read by the current field rules; anything else a client may send is
/// kept as `Other` and rejected by argument validation.
#[derive(Debug)]
pub enum ArgValue {
    Str(String),
    Int(i64),
    Other,
}

/// The mathematical model of an `ArgValue`.
#[verifier::ext_equal]
pub ghost enum ArgView {
    Str(Seq<char>),
    Int(int),
    Other,
}

impl View for ArgValue {
    type V = ArgView;

    open spec fn view(&self) -> ArgView {
        match self {
            ArgValue::Str(s) => ArgView::Str(s@),
            ArgValue::Int(i) => ArgView::Int(*i as int),
            ArgValue::Other => ArgView::Other,
        }
    }
}

/// One node of the selection tree: a field name, an optional response alias,
/// the field's arguments, and the nested selections.
#[derive(Debug)]
pub struct Selection {
    pub name: String,
    pub alias: Option<String>,
    pub args: Vec<(String, ArgValue)>,
    pub children: Vec<Selection>,
}

/// The mathematical model of a `Selection`.
#[verifier::ext_equal]
pub ghost struct SelectionView {
    pub name: Seq<char>,
    pub alias: Option<Seq<char>>,
    pub args: Seq<(Seq<char>, ArgView)>,
    pub children: Seq<SelectionView>,
}

/// Model of a sequence of selections, node by node.
pub open spec fn sel_seq_view(nodes: Seq<Selection>) -> Seq<SelectionView>
    decreases nodes, 0int,
{
    if nodes.len() == 0 {
        Seq::empty()
    } else {
        sel_seq_view(nodes.drop_last()).push(nodes.last()@)
    }
}

impl View for Selection {
    type V = SelectionView;

    open spec fn view(&self) -> SelectionView
        decreases self, 1int,
    {
        SelectionView {
            name: self.name@,
            alias: match &self.alias {
                Some(a) => Some(a@),
                None => None,
            },
            args: self.args@.map_values(|arg: (String, ArgValue)| (arg.0@, arg.1@)),
            children: sel_seq_view(self.children@),
        }
    }
}

/// The model of a node sequence keeps its length and models each node.
pub proof fn lemma_sel_seq_view(nodes: Seq<Selection>)
    ensures
        sel_seq_view(nodes).len() == nodes.len(),
        forall|i: int| 0 <= i < nodes.len() ==> sel_seq_view(nodes)[i] == #[trigger] nodes[i]@,
    decreases nodes.len(),
{
    if nodes.len() > 0 {
        lemma_sel_seq_view(nodes.drop_last());
        assert(sel_seq_view(nodes) == sel_seq_view(nodes.drop_last()).push(nodes.last()@));
        assert forall|i: int| 0 <= i < nodes.len() implies sel_seq_view(nodes)[i]
            == #[trigger] nodes[i]@ by {
            if i < nodes.len() - 1 {
                assert(sel_seq_view(nodes.drop_last())[i] == nodes.drop_last()[i]@);
                assert(nodes.drop_last()[i] == nodes[i]);
            }
        }
    }
}

/// First argument of the node whose name equals `name`, if any.
pub open spec fn arg_get(args: Seq<(Seq<char>, ArgView)>, name: Seq<char>) -> Option<ArgView>
    decreases args.len(),
{
    if args.len() == 0 {
        None
    } else if args[0].0 == name {
        Some(args[0].1)
    } else {
        arg_get(args.drop_first(), name)
    }
}

/// The key under which a selected field's result is reported: the declared
/// alias when there is one, else the field name.
pub open spec fn response_key(sel: SelectionView) -> Seq<char> {
    match sel.alias {
        Some(a) => a,
        None => sel.name,
    }
}

impl Selection {
    /// Looks an argument up by name.
    #[verifier::loop_isolation(false)]
    pub fn arg<'a>(&'a self, name: &str) -> (r: Option<&'a ArgValue>)
        ensures
            match r {
                Some(v) => arg_get(self@.args, name@) == Some(v@),
                None => arg_get(self@.args, name@) is None,
            },
    {
        proof {
            assert(self@.args.skip(0) =~= self@.args);
        }
        let n = self.args.len();
        for i in 0..n
            invariant
                arg_get(self@.args, name@) == arg_get(self@.args.skip(i as int), name@),
        {
            let ghost rest = self@.args.skip(i as int);
            assert(rest[0] == self@.args[i as int]);
            if crate::json::str_eq(self.args[i].0.as_str(), name) {
                assert(arg_get(rest, name@) == Some(rest[0].1));
                return Some(&self.args[i].1);
            }
            proof {
                assert(rest.drop_first() =~= self@.args.skip(i + 1));
            }
        }
        None
    }

    /// The key under which this field's result is reported.
    pub fn response_key_str<'a>(&'a self) -> (r: &'a str)
        ensures
            r@ == response_key(self@),
    {
        match &self.alias {
            Some(a) => a.as_str(),
            None => self.name.as_str(),
        }
    }
}

} // verus!
