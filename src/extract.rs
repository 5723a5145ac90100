use vstd::prelude::*;

verus! {

/// The values held by the `Some` entries of `s`, in order.
pub open spec fn somes<T>(s: Seq<Option<T>>) -> Seq<T>
    decreases s.len(),
{
    if s.len() == 0 {
        Seq::empty()
    } else {
        let prev = somes(s.drop_last());
        match s.last() {
            Some(v) => prev.push(v),
            None => prev,
        }
    }
}

/// How many entries of `s` are `Some`.
pub open spec fn count_somes<T>(s: Seq<Option<T>>) -> nat
    decreases s.len(),
{
    if s.len() == 0 {
        0
    } else {
        count_somes(s.drop_last()) + if s.last() is Some { 1nat } else { 0nat }
    }
}

/// `a` is `b` with some entries left out, the rest kept in order.
pub open spec fn is_subsequence<T>(a: Seq<T>, b: Seq<T>) -> bool
    decreases b.len(),
{
    if a.len() == 0 {
        true
    } else if b.len() == 0 {
        false
    } else if a.last() == b.last() {
        is_subsequence(a.drop_last(), b.drop_last())
    } else {
        is_subsequence(a, b.drop_last())
    }
}

/// Field `idx` of a record, if the record was read and is that long.
pub open spec fn field_of(rec: Option<Seq<Seq<char>>>, idx: int) -> Option<Seq<char>> {
    match rec {
        Some(f) => if 0 <= idx < f.len() {
            Some(f[idx])
        } else {
            None
        },
        None => None,
    }
}

/// Field `idx` of each record, in record order.
pub open spec fn column_fields(records: Seq<Option<Seq<Seq<char>>>>, idx: int) -> Seq<Option<Seq<char>>> {
    records.map_values(|r: Option<Seq<Seq<char>>>| field_of(r, idx))
}

/// Fields `xi` and `yi` of each record, where the record has both.
pub open spec fn pair_fields(records: Seq<Option<Seq<Seq<char>>>>, xi: int, yi: int) -> Seq<
    Option<(Seq<char>, Seq<char>)>,
> {
    records.map_values(
        |r: Option<Seq<Seq<char>>>|
            match (field_of(r, xi), field_of(r, yi)) {
                (Some(x), Some(y)) => Some((x, y)),
                _ => None,
            },
    )
}

/// Entries of `xs` and `ys` at the same position, where both are `Some`.
pub open spec fn both_somes<T>(xs: Seq<Option<T>>, ys: Seq<Option<T>>) -> Seq<Option<(T, T)>> {
    Seq::new(
        xs.len(),
        |i: int|
            match (xs[i], ys[i]) {
                (Some(x), Some(y)) => Some((x, y)),
                _ => None,
            },
    )
}

/// The texts of column `idx`: one for each readable record that has the
/// field, in record order.
pub fn column_values(records: &Vec<Option<Vec<String>>>, idx: usize) -> (r: Vec<String>)
    ensures
        r.deep_view() == somes(column_fields(records.deep_view(), idx as int)),
{
    let ghost fields = column_fields(records.deep_view(), idx as int);
    let mut out: Vec<String> = Vec::new();
    let mut i: usize = 0;
    while i < records.len()
        invariant
            0 <= i <= records.len(),
            fields == column_fields(records.deep_view(), idx as int),
            out.deep_view() == somes(fields.take(i as int)),
        decreases records.len() - i,
    {
        assert(fields.take(i + 1).drop_last() =~= fields.take(i as int));
        match &records[i] {
            Some(rec) => {
                if idx < rec.len() {
                    out.push(rec[idx].clone());
                }
            },
            None => {},
        }
        assert(out.deep_view() =~= somes(fields.take(i + 1)));
        i += 1;
    }
    assert(fields.take(records.len() as int) =~= fields);
    out
}

/// The texts of columns `xi` and `yi`: one pair for each readable record
/// that has both fields, in record order.
pub fn column_pairs(records: &Vec<Option<Vec<String>>>, xi: usize, yi: usize) -> (r: Vec<
    (String, String),
>)
    ensures
        r.deep_view() == somes(pair_fields(records.deep_view(), xi as int, yi as int)),
{
    let ghost fields = pair_fields(records.deep_view(), xi as int, yi as int);
    let mut out: Vec<(String, String)> = Vec::new();
    let mut i: usize = 0;
    while i < records.len()
        invariant
            0 <= i <= records.len(),
            fields == pair_fields(records.deep_view(), xi as int, yi as int),
            out.deep_view() == somes(fields.take(i as int)),
        decreases records.len() - i,
    {
        assert(fields.take(i + 1).drop_last() =~= fields.take(i as int));
        match &records[i] {
            Some(rec) => {
                if xi < rec.len() && yi < rec.len() {
                    out.push((rec[xi].clone(), rec[yi].clone()));
                }
            },
            None => {},
        }
        assert(out.deep_view() =~= somes(fields.take(i + 1)));
        i += 1;
    }
    assert(fields.take(records.len() as int) =~= fields);
    out
}

/// The values that parsed, in order; the entries that did not parse are
/// dropped without a trace.
pub fn keep_parsed<T: Copy>(parsed: &Vec<Option<T>>) -> (r: Vec<T>)
    ensures
        r@ == somes(parsed@),
{
    let mut out: Vec<T> = Vec::new();
    let mut i: usize = 0;
    while i < parsed.len()
        invariant
            0 <= i <= parsed.len(),
            out@ == somes(parsed@.take(i as int)),
        decreases parsed.len() - i,
    {
        assert(parsed@.take(i + 1).drop_last() =~= parsed@.take(i as int));
        match &parsed[i] {
            Some(v) => {
                out.push(*v);
            },
            None => {},
        }
        i += 1;
    }
    assert(parsed@.take(parsed.len() as int) =~= parsed@);
    out
}

/// The pairs of values at the same position of `xs` and `ys` where both
/// parsed, in order.
pub fn keep_parsed_pairs<T: Copy>(xs: &Vec<Option<T>>, ys: &Vec<Option<T>>) -> (r: Vec<(T, T)>)
    requires
        xs.len() == ys.len(),
    ensures
        r@ == somes(both_somes(xs@, ys@)),
{
    let ghost both = both_somes(xs@, ys@);
    let mut out: Vec<(T, T)> = Vec::new();
    let mut i: usize = 0;
    while i < xs.len()
        invariant
            0 <= i <= xs.len(),
            xs.len() == ys.len(),
            both == both_somes(xs@, ys@),
            out@ == somes(both.take(i as int)),
        decreases xs.len() - i,
    {
        assert(both.take(i + 1).drop_last() =~= both.take(i as int));
        match (&xs[i], &ys[i]) {
            (Some(x), Some(y)) => {
                out.push((*x, *y));
            },
            _ => {},
        }
        i += 1;
    }
    assert(both.take(xs.len() as int) =~= both);
    out
}

/// What is kept of a sequence of parse outcomes is exactly the successful
/// ones: as many as there are, in their original order.
pub proof fn lemma_kept_values<T>(s: Seq<Option<T>>)
    ensures
        somes(s).len() == count_somes(s),
        is_subsequence(somes(s).map_values(|v: T| Some(v)), s),
    decreases s.len(),
{
    if s.len() > 0 {
        let prev = s.drop_last();
        lemma_kept_values(prev);
        let a = somes(s).map_values(|v: T| Some(v));
        match s.last() {
            Some(v) => {
                assert(a.drop_last() =~= somes(prev).map_values(|v: T| Some(v)));
            },
            None => {
                assert(a =~= somes(prev).map_values(|v: T| Some(v)));
                if a.len() > 0 {
                    assert(a.last() is Some);
                }
            },
        }
    }
}

} // verus!
