//! Finding the session token in a response whose shape is not fixed.
//!
//! The remote endpoint has been seen to deliver the token under several
//! names and at several depths. The known places are tried in one fixed
//! order, and the first that holds a non-empty text gives the token.

use crate::json::{Json, JsonModel};
use crate::text::{clone_texts, texts};
use vstd::prelude::*;

verus! {

/// The number of places that are tried.
pub const CANDIDATES: usize = 9;

/// The text that a place holds, if it holds one that is not empty.
pub open spec fn usable(found: Option<JsonModel>) -> Option<Seq<char>> {
    match found {
        Some(JsonModel::Text(s)) => if s.len() > 0 {
            Some(s)
        } else {
            None
        },
        _ => None,
    }
}

/// The member `name` of the response itself.
pub open spec fn top_level(response: JsonModel, name: Seq<char>) -> Option<Seq<char>> {
    usable(response.member(name))
}

/// The member `name` of the object that the response holds under `wrapper`.
pub open spec fn nested(response: JsonModel, wrapper: Seq<char>, name: Seq<char>) -> Option<
    Seq<char>,
> {
    match response.member(wrapper) {
        Some(inner) => usable(inner.member(name)),
        None => None,
    }
}

/// The member `field` of the first record of the array that the response
/// holds under `wrapper`, then `list`.
pub open spec fn first_record(
    response: JsonModel,
    wrapper: Seq<char>,
    list: Seq<char>,
    field: Seq<char>,
) -> Option<Seq<char>> {
    match response.member(wrapper) {
        Some(inner) => match inner.member(list) {
            Some(records) => match records.item(0) {
                Some(record) => usable(record.member(field)),
                None => None,
            },
            None => None,
        },
        None => None,
    }
}

/// The token that the place of the given rank yields. Rank 0 is tried first.
pub open spec fn candidate(response: JsonModel, rank: int) -> Option<Seq<char>> {
    if rank == 0 {
        top_level(response, "SsoHopps"@)
    } else if rank == 1 {
        top_level(response, "ssoHopps"@)
    } else if rank == 2 {
        top_level(response, "token"@)
    } else if rank == 3 {
        top_level(response, "Token"@)
    } else if rank == 4 {
        top_level(response, "access_token"@)
    } else if rank == 5 {
        top_level(response, "accessToken"@)
    } else if rank == 6 {
        nested(response, "tokens"@, "SsoHopps"@)
    } else if rank == 7 {
        nested(response, "shortToken"@, "SsoHopps"@)
    } else if rank == 8 {
        first_record(response, "habilitationAD"@, "SsoHopps"@, "valeur"@)
    } else {
        None
    }
}

/// The token of the first place, from rank `from` on, that yields one.
pub open spec fn first_candidate(response: JsonModel, from: int) -> Option<Seq<char>>
    decreases CANDIDATES - from,
{
    if from < 0 || from >= CANDIDATES {
        None
    } else {
        match candidate(response, from) {
            Some(token) => Some(token),
            None => first_candidate(response, from + 1),
        }
    }
}

/// What extraction gives for a response: the token, or the names of the
/// response's own members when no place yields one.
pub open spec fn extracted(response: JsonModel) -> Result<Seq<char>, Seq<Seq<char>>> {
    match first_candidate(response, 0) {
        Some(token) => Ok(token),
        None => Err(response.member_names()),
    }
}

/// Why no token was extracted.
#[derive(Debug, PartialEq, Eq)]
pub enum ExtractionError {
    /// No known place held a token. `fields` are the names of the members
    /// that the response does have, without their values.
    TokenNotFound { fields: Vec<String> },
}

impl ExtractionError {
    /// The member names that the error reports.
    pub open spec fn field_names(self) -> Seq<Seq<char>> {
        match self {
            ExtractionError::TokenNotFound { fields } => texts(fields@),
        }
    }

    /// The member names that the error reports.
    pub fn fields(&self) -> (r: &Vec<String>)
        ensures
            texts(r@) == self.field_names(),
    {
        match self {
            ExtractionError::TokenNotFound { fields } => fields,
        }
    }
}

impl Clone for ExtractionError {
    fn clone(&self) -> (r: ExtractionError)
        ensures
            r.field_names() == self.field_names(),
    {
        match self {
            ExtractionError::TokenNotFound { fields } => ExtractionError::TokenNotFound {
                fields: clone_texts(fields),
            },
        }
    }
}

fn usable_text(found: Option<&Json>) -> (r: Option<String>)
    ensures
        match r {
            Some(s) => usable(
                match found {
                    Some(j) => Some(j@),
                    None => None,
                },
            ) == Some(s@),
            None => usable(
                match found {
                    Some(j) => Some(j@),
                    None => None,
                },
            ) is None,
        },
{
    match found {
        Some(value) => match value.as_str() {
            Some(s) => if s.unicode_len() > 0 {
                Some(s.to_owned())
            } else {
                None
            },
            None => None,
        },
        None => None,
    }
}

fn probe_top_level(response: &Json, name: &str) -> (r: Option<String>)
    ensures
        match r {
            Some(s) => top_level(response@, name@) == Some(s@),
            None => top_level(response@, name@) is None,
        },
{
    usable_text(response.get(name))
}

fn probe_nested(response: &Json, wrapper: &str, name: &str) -> (r: Option<String>)
    ensures
        match r {
            Some(s) => nested(response@, wrapper@, name@) == Some(s@),
            None => nested(response@, wrapper@, name@) is None,
        },
{
    match response.get(wrapper) {
        Some(inner) => usable_text(inner.get(name)),
        None => None,
    }
}

fn probe_first_record(response: &Json, wrapper: &str, list: &str, field: &str) -> (r: Option<
    String,
>)
    ensures
        match r {
            Some(s) => first_record(response@, wrapper@, list@, field@) == Some(s@),
            None => first_record(response@, wrapper@, list@, field@) is None,
        },
{
    match response.get(wrapper) {
        Some(inner) => match inner.get(list) {
            Some(records) => match records.at(0) {
                Some(record) => usable_text(record.get(field)),
                None => None,
            },
            None => None,
        },
        None => None,
    }
}

/// Tries the place of one rank.
pub fn probe(response: &Json, rank: usize) -> (r: Option<String>)
    ensures
        match r {
            Some(s) => candidate(response@, rank as int) == Some(s@),
            None => candidate(response@, rank as int) is None,
        },
{
    if rank == 0 {
        probe_top_level(response, "SsoHopps")
    } else if rank == 1 {
        probe_top_level(response, "ssoHopps")
    } else if rank == 2 {
        probe_top_level(response, "token")
    } else if rank == 3 {
        probe_top_level(response, "Token")
    } else if rank == 4 {
        probe_top_level(response, "access_token")
    } else if rank == 5 {
        probe_top_level(response, "accessToken")
    } else if rank == 6 {
        probe_nested(response, "tokens", "SsoHopps")
    } else if rank == 7 {
        probe_nested(response, "shortToken", "SsoHopps")
    } else if rank == 8 {
        probe_first_record(response, "habilitationAD", "SsoHopps", "valeur")
    } else {
        None
    }
}

/// Finds the session token in a response.
///
/// The places are tried in the order of their rank; the first that holds a
/// non-empty text wins. When none does, the error names the members that
/// the response has at its top level.
pub fn extract(raw_response: &Json) -> (r: Result<String, ExtractionError>)
    ensures
        match r {
            Ok(token) => extracted(raw_response@) == Ok::<Seq<char>, Seq<Seq<char>>>(token@),
            Err(e) => extracted(raw_response@) == Err::<Seq<char>, Seq<Seq<char>>>(
                e.field_names(),
            ),
        },
{
    let mut rank: usize = 0;
    while rank < CANDIDATES
        invariant
            rank <= CANDIDATES,
            first_candidate(raw_response@, 0) == first_candidate(raw_response@, rank as int),
        decreases CANDIDATES - rank,
    {
        match probe(raw_response, rank) {
            Some(token) => {
                return Ok(token);
            },
            None => {},
        }
        rank += 1;
    }
    Err(ExtractionError::TokenNotFound { fields: raw_response.member_names() })
}

/// A place that yields a token wins over every place of a later rank: when
/// no earlier place yields one, extraction gives exactly its token, whatever
/// the later places hold.
pub proof fn lemma_earlier_place_wins(response: JsonModel, rank: int)
    requires
        0 <= rank < CANDIDATES,
        candidate(response, rank) is Some,
        forall|earlier: int| 0 <= earlier < rank ==> candidate(response, earlier) is None,
    ensures
        extracted(response) == Ok::<Seq<char>, Seq<Seq<char>>>(candidate(response, rank)->0),
{
    lemma_skip_empty_places(response, 0, rank);
}

/// Places that yield nothing are passed over.
proof fn lemma_skip_empty_places(response: JsonModel, from: int, rank: int)
    requires
        0 <= from <= rank < CANDIDATES,
        forall|earlier: int| from <= earlier < rank ==> candidate(response, earlier) is None,
    ensures
        first_candidate(response, from) == first_candidate(response, rank),
    decreases rank - from,
{
    if from < rank {
        lemma_skip_empty_places(response, from + 1, rank);
    }
}

/// Extraction fails exactly when no place yields a token, and then reports
/// the names of the response's own members.
pub proof fn lemma_failure_reports_member_names(response: JsonModel)
    ensures
        extracted(response) is Err <==> forall|rank: int|
            0 <= rank < CANDIDATES ==> candidate(response, rank) is None,
        extracted(response) is Err ==> extracted(response)->Err_0 == response.member_names(),
{
    reveal_with_fuel(first_candidate, 10);
}

} // verus!
