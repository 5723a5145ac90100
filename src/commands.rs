use vstd::prelude::*;
use crate::aggregate::{
    count_categories, counted_as, firsts, lemma_tally_determined, lemma_tally_of_nothing,
    observed_pairs, CategoryCounts,
};
use crate::column::{column_index, find_column, has_column};
use crate::error::{same_error, AnalysisError};
use crate::extract::{column_fields, column_pairs, column_values, pair_fields, somes};
use crate::table::{csv_header_of, csv_records_of, read_header, read_records};

verus! {

/// `e` reports that no header field is named `name`.
pub open spec fn is_missing_column(e: AnalysisError, name: Seq<char>) -> bool {
    match e {
        AnalysisError::ColumnNotFound(c) => c@ == name,
        _ => false,
    }
}

/// Some record could not be read.
pub open spec fn has_unreadable(records: Seq<Option<Seq<Seq<char>>>>) -> bool {
    exists|j: int| 0 <= j < records.len() && records[j] is None
}

/// A chart over columns `x` and `y` can go ahead: the header was read and
/// names both.
pub open spec fn chart_columns_ok(header: Option<Seq<Seq<char>>>, x: Seq<char>, y: Seq<char>) -> bool {
    match header {
        Some(h) => has_column(h, x) && has_column(h, y),
        None => false,
    }
}

/// `e` is the first reason why a chart over `x` and `y` cannot go ahead:
/// an unreadable header, else a missing `x`, else a missing `y`.
pub open spec fn chart_columns_error(
    header: Option<Seq<Seq<char>>>,
    x: Seq<char>,
    y: Seq<char>,
    e: AnalysisError,
) -> bool {
    match header {
        None => e == AnalysisError::HeaderUnreadable,
        Some(h) => if !has_column(h, x) {
            is_missing_column(e, x)
        } else {
            !has_column(h, y) && is_missing_column(e, y)
        },
    }
}

/// What describing `column` yields: the texts of the column, or the first
/// reason why not (an unreadable header, a missing column, an unreadable
/// record, in that order).
pub open spec fn describe_result(
    header: Option<Seq<Seq<char>>>,
    records: Seq<Option<Seq<Seq<char>>>>,
    column: Seq<char>,
    r: Result<Vec<String>, AnalysisError>,
) -> bool {
    match header {
        None => r == Err::<Vec<String>, AnalysisError>(AnalysisError::HeaderUnreadable),
        Some(h) => if !has_column(h, column) {
            r is Err && is_missing_column(r->Err_0, column)
        } else if has_unreadable(records) {
            r == Err::<Vec<String>, AnalysisError>(AnalysisError::RecordUnreadable)
        } else {
            r is Ok && r->Ok_0.deep_view() == somes(column_fields(records, column_index(h, column)))
        },
    }
}

/// What the scatter chart is drawn from: the (x, y) texts of each readable
/// record that has both fields, or why the columns do not resolve.
pub open spec fn scatter_result(
    header: Option<Seq<Seq<char>>>,
    records: Seq<Option<Seq<Seq<char>>>>,
    x: Seq<char>,
    y: Seq<char>,
    r: Result<Vec<(String, String)>, AnalysisError>,
) -> bool {
    match r {
        Ok(v) => chart_columns_ok(header, x, y) && v.deep_view() == somes(
            pair_fields(records, column_index(header->0, x), column_index(header->0, y)),
        ),
        Err(e) => !chart_columns_ok(header, x, y) && chart_columns_error(header, x, y, e),
    }
}

/// What the bar chart is drawn from: the counts of the (x, y) pairs and of
/// the x values over the readable records that have both fields, or why the
/// columns do not resolve.
pub open spec fn bar_result(
    header: Option<Seq<Seq<char>>>,
    records: Seq<Option<Seq<Seq<char>>>>,
    x: Seq<char>,
    y: Seq<char>,
    r: Result<CategoryCounts, AnalysisError>,
) -> bool {
    match r {
        Ok(c) => chart_columns_ok(header, x, y) && c.wf() && c.tallies(
            observed_pairs(records, column_index(header->0, x), column_index(header->0, y)),
        ),
        Err(e) => !chart_columns_ok(header, x, y) && chart_columns_error(header, x, y, e),
    }
}

/// Resolves the two columns of a chart.
fn resolve_chart_columns(header: &Option<Vec<String>>, x: &str, y: &str) -> (r: Result<
    (usize, usize),
    AnalysisError,
>)
    ensures
        match r {
            Ok((i, j)) => chart_columns_ok(header.deep_view(), x@, y@) && i == column_index(
                header.deep_view()->0,
                x@,
            ) && j == column_index(header.deep_view()->0, y@),
            Err(e) => !chart_columns_ok(header.deep_view(), x@, y@) && chart_columns_error(
                header.deep_view(),
                x@,
                y@,
                e,
            ),
        },
{
    match header {
        None => Err(AnalysisError::HeaderUnreadable),
        Some(h) => {
            let i = match find_column(h, x) {
                Ok(i) => i,
                Err(e) => {
                    return Err(e);
                },
            };
            let j = match find_column(h, y) {
                Ok(j) => j,
                Err(e) => {
                    return Err(e);
                },
            };
            Ok((i, j))
        },
    }
}

/// Whether every record was read.
fn all_readable(records: &Vec<Option<Vec<String>>>) -> (r: bool)
    ensures
        r == !has_unreadable(records.deep_view()),
{
    let mut i: usize = 0;
    while i < records.len()
        invariant
            0 <= i <= records.len(),
            forall|j: int| 0 <= j < i ==> records.deep_view()[j] is Some,
        decreases records.len() - i,
    {
        if records[i].is_none() {
            assert(records.deep_view()[i as int] is None);
            return false;
        }
        i += 1;
    }
    true
}

/// The texts of the column to describe, from a header and records already
/// read.
pub fn describe_texts(header: &Option<Vec<String>>, records: &Vec<Option<Vec<String>>>, column: &str) -> (r:
    Result<Vec<String>, AnalysisError>)
    ensures
        describe_result(header.deep_view(), records.deep_view(), column@, r),
{
    match header {
        None => Err(AnalysisError::HeaderUnreadable),
        Some(h) => {
            let idx = match find_column(h, column) {
                Ok(i) => i,
                Err(e) => {
                    return Err(e);
                },
            };
            if !all_readable(records) {
                return Err(AnalysisError::RecordUnreadable);
            }
            Ok(column_values(records, idx))
        },
    }
}

/// The (x, y) texts for the scatter chart, from a header and records
/// already read; unreadable records are skipped.
pub fn scatter_texts(header: &Option<Vec<String>>, records: &Vec<Option<Vec<String>>>, x: &str, y: &str) -> (r:
    Result<Vec<(String, String)>, AnalysisError>)
    ensures
        scatter_result(header.deep_view(), records.deep_view(), x@, y@, r),
{
    match resolve_chart_columns(header, x, y) {
        Ok((i, j)) => Ok(column_pairs(records, i, j)),
        Err(e) => Err(e),
    }
}

/// The category counts for the bar chart, from a header and records
/// already read; unreadable records are skipped.
pub fn bar_counts(header: &Option<Vec<String>>, records: &Vec<Option<Vec<String>>>, x: &str, y: &str) -> (r:
    Result<CategoryCounts, AnalysisError>)
    ensures
        bar_result(header.deep_view(), records.deep_view(), x@, y@, r),
{
    match resolve_chart_columns(header, x, y) {
        Ok((i, j)) => Ok(count_categories(records, i, j)),
        Err(e) => Err(e),
    }
}

/// The texts of the column to describe, read from the CSV bytes `data`
/// (header row first). The records are read only once the column is found.
pub fn describe_input(data: &[u8], column: &str) -> (r: Result<Vec<String>, AnalysisError>)
    ensures
        describe_result(csv_header_of(data@), csv_records_of(data@), column@, r),
{
    let header = read_header(data);
    match &header {
        None => {
            return Err(AnalysisError::HeaderUnreadable);
        },
        Some(h) => {
            if let Err(e) = find_column(h, column) {
                return Err(e);
            }
        },
    }
    let records = read_records(data);
    describe_texts(&header, &records, column)
}

/// The (x, y) texts for the scatter chart, read from the CSV bytes `data`.
/// The records are read only once both columns are found.
pub fn scatter_input(data: &[u8], x: &str, y: &str) -> (r: Result<Vec<(String, String)>, AnalysisError>)
    ensures
        scatter_result(csv_header_of(data@), csv_records_of(data@), x@, y@, r),
{
    let header = read_header(data);
    if let Err(e) = resolve_chart_columns(&header, x, y) {
        return Err(e);
    }
    let records = read_records(data);
    scatter_texts(&header, &records, x, y)
}

/// The category counts for the bar chart, read from the CSV bytes `data`.
/// The records are read only once both columns are found.
pub fn bar_input(data: &[u8], x: &str, y: &str) -> (r: Result<CategoryCounts, AnalysisError>)
    ensures
        bar_result(csv_header_of(data@), csv_records_of(data@), x@, y@, r),
{
    let header = read_header(data);
    if let Err(e) = resolve_chart_columns(&header, x, y) {
        return Err(e);
    }
    let records = read_records(data);
    bar_counts(&header, &records, x, y)
}

/// Describing the same input twice gives the same outcome.
pub proof fn lemma_describe_repeatable(
    header: Option<Seq<Seq<char>>>,
    records: Seq<Option<Seq<Seq<char>>>>,
    column: Seq<char>,
    r1: Result<Vec<String>, AnalysisError>,
    r2: Result<Vec<String>, AnalysisError>,
)
    requires
        describe_result(header, records, column, r1),
        describe_result(header, records, column, r2),
    ensures
        r1 is Ok <==> r2 is Ok,
        r1 is Ok ==> r1->Ok_0.deep_view() == r2->Ok_0.deep_view(),
        r1 is Err ==> same_error(r1->Err_0, r2->Err_0),
{
}

/// Preparing the same scatter chart twice gives the same points.
pub proof fn lemma_scatter_repeatable(
    header: Option<Seq<Seq<char>>>,
    records: Seq<Option<Seq<Seq<char>>>>,
    x: Seq<char>,
    y: Seq<char>,
    r1: Result<Vec<(String, String)>, AnalysisError>,
    r2: Result<Vec<(String, String)>, AnalysisError>,
)
    requires
        scatter_result(header, records, x, y, r1),
        scatter_result(header, records, x, y, r2),
    ensures
        r1 is Ok <==> r2 is Ok,
        r1 is Ok ==> r1->Ok_0.deep_view() == r2->Ok_0.deep_view(),
        r1 is Err ==> same_error(r1->Err_0, r2->Err_0),
{
}

/// Preparing the same bar chart twice gives the same bars: the same
/// (category, subcategory) pairs and categories, each with the same count.
pub proof fn lemma_bar_repeatable(
    header: Option<Seq<Seq<char>>>,
    records: Seq<Option<Seq<Seq<char>>>>,
    x: Seq<char>,
    y: Seq<char>,
    r1: Result<CategoryCounts, AnalysisError>,
    r2: Result<CategoryCounts, AnalysisError>,
)
    requires
        bar_result(header, records, x, y, r1),
        bar_result(header, records, x, y, r2),
    ensures
        r1 is Ok <==> r2 is Ok,
        r1 is Err ==> same_error(r1->Err_0, r2->Err_0),
        r1 is Ok ==> {
            let (c1, c2) = (r1->Ok_0, r2->Ok_0);
            &&& c1.pair_keys.deep_view().to_set() == c2.pair_keys.deep_view().to_set()
            &&& forall|i: int|
                0 <= i < c1.pair_keys.len() ==> #[trigger] counted_as(
                    c2.pair_keys.deep_view(),
                    c2.pair_counts@,
                    c1.pair_keys.deep_view()[i],
                    c1.pair_counts[i],
                )
            &&& c1.categories.deep_view().to_set() == c2.categories.deep_view().to_set()
            &&& forall|i: int|
                0 <= i < c1.categories.len() ==> #[trigger] counted_as(
                    c2.categories.deep_view(),
                    c2.category_counts@,
                    c1.categories.deep_view()[i],
                    c1.category_counts[i],
                )
        },
{
    if r1 is Ok {
        let (c1, c2) = (r1->Ok_0, r2->Ok_0);
        let h = header->0;
        let obs = observed_pairs(records, column_index(h, x), column_index(h, y));
        lemma_tally_determined(
            obs,
            c1.pair_keys.deep_view(),
            c1.pair_counts@,
            c2.pair_keys.deep_view(),
            c2.pair_counts@,
        );
        lemma_tally_determined(
            firsts(obs),
            c1.categories.deep_view(),
            c1.category_counts@,
            c2.categories.deep_view(),
            c2.category_counts@,
        );
    }
}

/// A dataset with a header and no rows: a described column that the header
/// names has no values, which is no error.
pub proof fn lemma_no_rows_describe(
    header: Seq<Seq<char>>,
    column: Seq<char>,
    r: Result<Vec<String>, AnalysisError>,
)
    requires
        has_column(header, column),
        describe_result(Some(header), Seq::empty(), column, r),
    ensures
        r is Ok,
        r->Ok_0.len() == 0,
{
    let fields = column_fields(Seq::empty(), column_index(header, column));
    assert(fields =~= Seq::empty());
    assert(r->Ok_0.deep_view().len() == 0);
}

/// A dataset with a header and no rows: a chart over columns that the
/// header names has no points and no bars.
pub proof fn lemma_no_rows_charts(
    header: Seq<Seq<char>>,
    x: Seq<char>,
    y: Seq<char>,
    s: Result<Vec<(String, String)>, AnalysisError>,
    b: Result<CategoryCounts, AnalysisError>,
)
    requires
        has_column(header, x),
        has_column(header, y),
        scatter_result(Some(header), Seq::empty(), x, y, s),
        bar_result(Some(header), Seq::empty(), x, y, b),
    ensures
        s is Ok,
        s->Ok_0.len() == 0,
        b is Ok,
        b->Ok_0.pair_keys.len() == 0,
        b->Ok_0.categories.len() == 0,
{
    let (i, j) = (column_index(header, x), column_index(header, y));
    assert(pair_fields(Seq::empty(), i, j) =~= Seq::empty());
    assert(s->Ok_0.deep_view().len() == 0);
    let obs = observed_pairs(Seq::empty(), i, j);
    assert(obs =~= Seq::empty());
    assert(firsts(obs) =~= Seq::empty());
    let c = b->Ok_0;
    lemma_tally_of_nothing(c.pair_keys.deep_view(), c.pair_counts@);
    lemma_tally_of_nothing(c.categories.deep_view(), c.category_counts@);
}

} // verus!
