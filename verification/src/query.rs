//! The API root: identifier validation, the root query block around a
//! compiled selection, and the extraction of the answered record.

use vstd::prelude::*;
use vstd::string::StringExecFns;

use crate::error::{DgraphQueryError, ErrorView, QueryCreationError};
use crate::json::{json_get, JsonView};
use crate::resolve::Haiku;
use crate::response::{parse_json_text, parsed_document};
use crate::selection::{Selection, SelectionView};
use crate::translate::{generate_inner_query, spec_inner_query, EntityKind};
use crate::validate::{is_valid_haiku_id, valid_entity_id};

verus! {

/// The GraphQL query root.
pub struct Query;

/// Why a haiku request failed before any database work: the identifier
/// failed lexical validation, or the selection did not compile.
#[derive(Debug, PartialEq, Eq)]
pub enum HaikuQueryError {
    InvalidInput,
    Creation(QueryCreationError),
}

/// The full query text a haiku selection compiles to: the selection's
/// fragment inside a named query block bound to the external identifier,
/// which the database driver substitutes — it is never spliced into the
/// text.
pub open spec fn spec_haiku_query(sel: SelectionView) -> Result<Seq<char>, ErrorView> {
    match spec_inner_query(EntityKind::Haiku, sel) {
        Ok(q) => Ok(
            "query haiku($id: string){ haiku(func: uid($id)) @filter(type(Haiku)) { "@ + q
                + " } }"@,
        ),
        Err(e) => Err(e),
    }
}

/// The first record under the answer's `haiku` key: `None` when the key is
/// missing altogether (a malformed answer), `Some(None)` when it holds no
/// record, `Some(Some(record))` otherwise.
pub open spec fn first_haiku(doc: JsonView) -> Option<Option<JsonView>> {
    match json_get(doc, "haiku"@) {
        None => None,
        Some(JsonView::Arr(items)) => if items.len() > 0 {
            Some(Some(items[0]))
        } else {
            Some(None)
        },
        Some(_) => Some(None),
    }
}

impl Query {
    /// The version string reported by the API root.
    #[allow(non_snake_case)]
    pub fn apiVersion() -> (r: &'static str)
        ensures
            r@ == "1.0"@,
    {
        "1.0"
    }

    /// Compiles a haiku request: rejects an identifier that fails lexical
    /// validation before anything is compiled, then translates the
    /// selection into the full query text.
    pub fn compile_haiku_query(haiku_id: &str, selection: &Selection) -> (r: Result<
        String,
        HaikuQueryError,
    >)
        ensures
            !valid_entity_id(haiku_id@) ==> r == Err::<String, _>(HaikuQueryError::InvalidInput),
            valid_entity_id(haiku_id@) ==> match r {
                Ok(q) => spec_haiku_query(selection@) == Ok::<_, ErrorView>(q@),
                Err(HaikuQueryError::Creation(e)) => spec_haiku_query(selection@) == Err::<
                    Seq<char>,
                    _,
                >(e@),
                Err(HaikuQueryError::InvalidInput) => false,
            },
    {
        if !is_valid_haiku_id(haiku_id) {
            return Err(HaikuQueryError::InvalidInput);
        }
        match generate_inner_query(EntityKind::Haiku, selection) {
            Ok(q) => {
                let mut out: String =
                    "query haiku($id: string){ haiku(func: uid($id)) @filter(type(Haiku)) { "
                    .to_owned();
                out.append(q.as_str());
                out.append(" } }");
                Ok(out)
            },
            Err(e) => Err(HaikuQueryError::Creation(e)),
        }
    }

    /// Decodes the database's textual answer to a haiku query: the answer
    /// must be JSON whose `haiku` key holds the matching records; no record
    /// is a plain `None`, never an error.
    pub fn decode_haiku_response(text: &str) -> (r: Result<Option<Haiku>, DgraphQueryError>)
        ensures
            match r {
                Ok(Some(h)) => parsed_document(text@) matches Some(doc) && first_haiku(doc)
                    == Some(Some(h@)),
                Ok(None) => parsed_document(text@) matches Some(doc) && first_haiku(doc) == Some(
                    None::<JsonView>,
                ),
                Err(DgraphQueryError::InvalidJson) => parsed_document(text@) is None,
                Err(DgraphQueryError::MalformedResponse) => parsed_document(text@) matches Some(
                    doc,
                ) && first_haiku(doc) is None,
                Err(_) => false,
            },
    {
        let doc = match parse_json_text(text) {
            Ok(doc) => doc,
            Err(e) => {
                return Err(e);
            },
        };
        match doc.get("haiku") {
            None => Err(DgraphQueryError::MalformedResponse),
            Some(haikus) => match haikus.first_item() {
                Some(record) => Ok(Some(Haiku::from_json(record.deep_copy()))),
                None => Ok(None),
            },
        }
    }
}

} // verus!
