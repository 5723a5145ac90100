use vstd::prelude::*;
use crate::error::AnalysisError;

verus! {

/// `i` is the position of the first header field equal to `name`.
pub open spec fn is_first_match(headers: Seq<Seq<char>>, name: Seq<char>, i: int) -> bool {
    &&& 0 <= i < headers.len()
    &&& headers[i] == name
    &&& forall|j: int| 0 <= j < i ==> headers[j] != name
}

/// Some header field equals `name`.
pub open spec fn has_column(headers: Seq<Seq<char>>, name: Seq<char>) -> bool {
    exists|i: int| 0 <= i < headers.len() && headers[i] == name
}

/// The position of the column named `name`: the first header field equal
/// to it, where there is one.
pub open spec fn column_index(headers: Seq<Seq<char>>, name: Seq<char>) -> int {
    choose|i: int| is_first_match(headers, name, i)
}

/// At most one position is the first match.
pub proof fn lemma_first_match_unique(headers: Seq<Seq<char>>, name: Seq<char>, i: int, j: int)
    requires
        is_first_match(headers, name, i),
        is_first_match(headers, name, j),
    ensures
        i == j,
{
}

/// Position of the first header field that equals `name` exactly
/// (case-sensitive, no trimming).
pub fn find_column(headers: &Vec<String>, name: &str) -> (r: Result<usize, AnalysisError>)
    ensures
        match r {
            Ok(i) => is_first_match(headers.deep_view(), name@, i as int) && i == column_index(
                headers.deep_view(),
                name@,
            ),
            Err(e) => !has_column(headers.deep_view(), name@) && (match e {
                AnalysisError::ColumnNotFound(c) => c@ == name@,
                _ => false,
            }),
        },
{
    let target = String::from_str(name);
    let mut i: usize = 0;
    while i < headers.len()
        invariant
            0 <= i <= headers.len(),
            target@ == name@,
            forall|j: int| 0 <= j < i ==> headers.deep_view()[j] != name@,
        decreases headers.len() - i,
    {
        if headers[i] == target {
            proof {
                let h = headers.deep_view();
                assert(is_first_match(h, name@, i as int));
                lemma_first_match_unique(h, name@, i as int, column_index(h, name@));
            }
            return Ok(i);
        }
        i += 1;
    }
    Err(AnalysisError::ColumnNotFound(target))
}

} // verus!
