//! Stateless lexical guards: the entity-identifier check made at the API
//! entry point, and the validation of search-field arguments.

use vstd::prelude::*;
use vstd::string::StrSliceExecFns;

use crate::error::{ErrorView, QueryCreationError};
use crate::selection::{arg_get, ArgValue, ArgView, Selection};

verus! {

/// A hexadecimal digit.
pub open spec fn is_hex_digit(c: char) -> bool {
    ('0' <= c && c <= '9') || ('a' <= c && c <= 'f') || ('A' <= c && c <= 'F')
}

/// An externally supplied entity identifier: a prefixed hexadecimal form,
/// `0x` followed by at least one hexadecimal digit.
pub open spec fn valid_entity_id(s: Seq<char>) -> bool {
    &&& s.len() >= 3
    &&& s[0] == '0'
    &&& s[1] == 'x'
    &&& forall|i: int| 2 <= i < s.len() ==> is_hex_digit(#[trigger] s[i])
}

/// A letter as the search predicate understands it.
pub open spec fn is_term_letter(c: char) -> bool {
    ('a' <= c && c <= 'z') || ('A' <= c && c <= 'Z')
}

/// A well-formed full-text search term: one or more words of letters,
/// separated by single spaces.
pub open spec fn valid_search_term(s: Seq<char>) -> bool {
    &&& s.len() > 0
    &&& forall|i: int| 0 <= i < s.len() ==> is_term_letter(#[trigger] s[i]) || s[i] == ' '
    &&& s[0] != ' '
    &&& s[s.len() - 1] != ' '
    &&& forall|i: int| 0 <= i < s.len() - 1 ==> !(#[trigger] s[i] == ' ' && s[i + 1] == ' ')
}

/// Decides `valid_entity_id`, the guard every externally supplied identifier
/// must pass before a query is compiled.
pub fn is_valid_haiku_id(id: &str) -> (r: bool)
    ensures
        r == valid_entity_id(id@),
{
    let n = id.unicode_len();
    if n < 3 {
        return false;
    }
    if id.get_char(0) != '0' || id.get_char(1) != 'x' {
        return false;
    }
    let mut i: usize = 2;
    while i < n
        invariant
            2 <= i <= n,
            n == id@.len(),
            id@[0] == '0',
            id@[1] == 'x',
            forall|j: int| 2 <= j < i ==> is_hex_digit(#[trigger] id@[j]),
        decreases n - i,
    {
        let c = id.get_char(i);
        let digit = ('0' <= c && c <= '9') || ('a' <= c && c <= 'f') || ('A' <= c && c <= 'F');
        if !digit {
            return false;
        }
        i += 1;
    }
    true
}

/// Decides `valid_search_term`.
pub fn is_valid_search_term(s: &str) -> (r: bool)
    ensures
        r == valid_search_term(s@),
{
    let n = s.unicode_len();
    if n == 0 {
        return false;
    }
    let mut prev_space = false;
    let mut i: usize = 0;
    while i < n
        invariant
            0 <= i <= n,
            n == s@.len(),
            i > 0 ==> s@[0] != ' ',
            forall|j: int| 0 <= j < i ==> is_term_letter(#[trigger] s@[j]) || s@[j] == ' ',
            forall|j: int| 0 <= j < i - 1 ==> !(#[trigger] s@[j] == ' ' && s@[j + 1] == ' '),
            i > 0 ==> prev_space == (s@[i - 1] == ' '),
        decreases n - i,
    {
        let c = s.get_char(i);
        let is_space = c == ' ';
        let is_letter = ('a' <= c && c <= 'z') || ('A' <= c && c <= 'Z');
        if !is_letter && !is_space {
            return false;
        }
        if is_space {
            if i == 0 {
                return false;
            }
            if prev_space {
                return false;
            }
        }
        prev_space = is_space;
        i += 1;
    }
    !prev_space
}

/// The validated, typed arguments of a bounded full-text search field.
#[derive(Debug)]
pub struct SearchArgs {
    pub term: String,
    pub first: i32,
}

/// What validating a search field's arguments yields: the typed values, or
/// the first failing argument's error. `term` is checked before `first`.
pub open spec fn spec_validate_search_args(args: Seq<(Seq<char>, ArgView)>) -> Result<
    (Seq<char>, int),
    ErrorView,
> {
    match arg_get(args, "term"@) {
        None => Err(ErrorView::MissingArgument("term"@)),
        Some(ArgView::Str(t)) => if !valid_search_term(t) {
            Err(
                ErrorView::InvalidArgument(
                    "term"@,
                    "expected words of letters separated by single spaces"@,
                ),
            )
        } else {
            match arg_get(args, "first"@) {
                None => Err(ErrorView::MissingArgument("first"@)),
                Some(ArgView::Int(n)) => if 1 <= n <= 0x7fffffff {
                    Ok((t, n))
                } else {
                    Err(
                        ErrorView::InvalidArgument(
                            "first"@,
                            "expected a count between 1 and 2147483647"@,
                        ),
                    )
                },
                Some(_) => Err(ErrorView::InvalidArgument("first"@, "expected an integer"@)),
            }
        },
        Some(_) => Err(ErrorView::InvalidArgument("term"@, "expected a string"@)),
    }
}

/// Extracts and type-checks the arguments of a search field, rejecting
/// malformed input before it reaches the query compiler.
pub fn validate_search_args(sel: &Selection) -> (r: Result<SearchArgs, QueryCreationError>)
    ensures
        match r {
            Ok(sa) => spec_validate_search_args(sel@.args) == Ok::<_, ErrorView>(
                (sa.term@, sa.first as int),
            ),
            Err(e) => spec_validate_search_args(sel@.args) == Err::<(Seq<char>, int), _>(e@),
        },
{
    let term: String = match sel.arg("term") {
        None => {
            return Err(QueryCreationError::MissingArgument("term".to_owned()));
        },
        Some(ArgValue::Str(t)) => {
            if !is_valid_search_term(t.as_str()) {
                return Err(
                    QueryCreationError::InvalidArgument(
                        "term".to_owned(),
                        "expected words of letters separated by single spaces".to_owned(),
                    ),
                );
            }
            t.clone()
        },
        Some(_) => {
            return Err(
                QueryCreationError::InvalidArgument(
                    "term".to_owned(),
                    "expected a string".to_owned(),
                ),
            );
        },
    };
    match sel.arg("first") {
        None => Err(QueryCreationError::MissingArgument("first".to_owned())),
        Some(ArgValue::Int(n)) => {
            let n = *n;
            if 1 <= n && n <= 0x7fffffff {
                Ok(SearchArgs { term, first: n as i32 })
            } else {
                Err(
                    QueryCreationError::InvalidArgument(
                        "first".to_owned(),
                        "expected a count between 1 and 2147483647".to_owned(),
                    ),
                )
            }
        },
        Some(_) => Err(
            QueryCreationError::InvalidArgument(
                "first".to_owned(),
                "expected an integer".to_owned(),
            ),
        ),
    }
}

} // verus!
