//! A scan: the records of all dependencies, split by whether the license is
//! known, and the pairs of known licenses that the matrix does not allow.

use itertools::Itertools;
use vstd::prelude::*;

use crate::languages::common::LanguageExtractor;
use crate::license::{compatible_in, is_compatibile, matrix_cells, PackageLicense};

verus! {

/// The records with a known license, in their order.
pub open spec fn resolved_of(records: Seq<PackageLicense>) -> Seq<PackageLicense> {
    records.filter(|record: PackageLicense| record.license is Some)
}

/// The records without a known license, in their order.
pub open spec fn unresolved_of(records: Seq<PackageLicense>) -> Seq<PackageLicense> {
    records.filter(|record: PackageLicense| record.license is None)
}

/// Every record is on exactly one side of the split.
pub proof fn lemma_partition_is_complete(records: Seq<PackageLicense>)
    ensures
        resolved_of(records).len() + unresolved_of(records).len() == records.len(),
    decreases records.len(),
{
    reveal(Seq::filter);
    if records.len() > 0 {
        lemma_partition_is_complete(records.drop_last());
    }
}

/// Splits the records of a finished scan into those with a known license and
/// those without, each side in the order of the input.
pub fn partition(records: Vec<PackageLicense>) -> (sides: (Vec<PackageLicense>, Vec<PackageLicense>))
    ensures
        sides.0@ == resolved_of(records@),
        sides.1@ == unresolved_of(records@),
        sides.0.len() + sides.1.len() == records.len(),
{
    let ghost all = records@;
    let mut resolved: Vec<PackageLicense> = Vec::new();
    let mut unresolved: Vec<PackageLicense> = Vec::new();
    for record in it: records
        invariant
            it.seq() == all,
            resolved@ == resolved_of(all.take(it.index() as int)),
            unresolved@ == unresolved_of(all.take(it.index() as int)),
    {
        proof {
            reveal(Seq::filter);
            let seen = all.take(it.index() + 1);
            assert(seen.drop_last() == all.take(it.index() as int));
            assert(seen.last() == record);
        }
        if record.license.is_none() {
            unresolved.push(record);
        } else {
            resolved.push(record);
        }
    }
    proof {
        assert(all.take(all.len() as int) == all);
        lemma_partition_is_complete(all);
    }
    (resolved, unresolved)
}

/// Whether `first` stands before `second` where pairs are ordered by their
/// first position and, among those with the same first, by their second.
pub open spec fn pair_before(first: (int, int), second: (int, int)) -> bool {
    first.0 < second.0 || (first.0 == second.0 && first.1 < second.1)
}

/// Whether `pairs` lists the pairs of two different positions below `count`:
/// each with its lower position first, every one of them, in ascending order
/// and so each once.
pub open spec fn lists_all_pairs(pairs: Seq<(int, int)>, count: int) -> bool {
    &&& forall|k: int| 0 <= k < pairs.len() ==> 0 <= (#[trigger] pairs[k]).0 < pairs[k].1 < count
    &&& forall|i: int, j: int| 0 <= i < j < count ==> #[trigger] pairs.contains((i, j))
    &&& forall|k: int, l: int|
        0 <= k < l < pairs.len() ==> pair_before(#[trigger] pairs[k], #[trigger] pairs[l])
}

/// The pairs whose lower position is at least `first`, row by row: those
/// with the lower position `first`, then those with `first + 1`, and so on.
pub open spec fn pairs_from(first: int, count: int) -> Seq<(int, int)>
    decreases count - first,
{
    if first + 1 >= count {
        Seq::empty()
    } else {
        Seq::new((count - 1 - first) as nat, |k: int| (first, first + 1 + k)) + pairs_from(
            first + 1,
            count,
        )
    }
}

/// All pairs of two different positions below `count`, in ascending order.
pub open spec fn all_pairs(count: int) -> Seq<(int, int)> {
    pairs_from(0, count)
}

/// What `pairs_from` holds, in what order, and how many.
pub proof fn lemma_pairs_from(first: int, count: int)
    requires
        0 <= first,
    ensures
        forall|k: int|
            0 <= k < pairs_from(first, count).len() ==> first <= (#[trigger] pairs_from(
                first,
                count,
            )[k]).0 < pairs_from(first, count)[k].1 < count,
        forall|i: int, j: int|
            first <= i < j < count ==> #[trigger] pairs_from(first, count).contains((i, j)),
        forall|k: int, l: int|
            0 <= k < l < pairs_from(first, count).len() ==> pair_before(
                #[trigger] pairs_from(first, count)[k],
                #[trigger] pairs_from(first, count)[l],
            ),
        first <= count ==> 2 * pairs_from(first, count).len() == (count - first) * (count - first
            - 1),
        first > count ==> pairs_from(first, count).len() == 0,
    decreases count - first,
{
    if first + 1 >= count {
        assert(first <= count ==> (count - first) * (count - first - 1) == 0) by (nonlinear_arith)
            requires
                first + 1 >= count,
        ;
    } else {
        let row = Seq::new((count - 1 - first) as nat, |k: int| (first, first + 1 + k));
        let rest = pairs_from(first + 1, count);
        let whole = pairs_from(first, count);
        lemma_pairs_from(first + 1, count);
        assert(whole == row + rest);
        assert forall|i: int, j: int| first <= i < j < count implies #[trigger] whole.contains(
            (i, j),
        ) by {
            if i == first {
                assert(whole[j - first - 1] == (i, j));
            } else {
                assert(rest.contains((i, j)));
                let at = choose|at: int| 0 <= at < rest.len() && rest[at] == (i, j);
                assert(whole[row.len() + at] == (i, j));
            }
        }
        assert(2 * whole.len() == (count - first) * (count - first - 1)) by (nonlinear_arith)
            requires
                whole.len() == (count - 1 - first) + rest.len(),
                2 * rest.len() == (count - first - 1) * (count - first - 2),
        ;
    }
}

/// Two listings of the pairs below `count` agree up to the length of the
/// first.
proof fn lemma_listings_agree_upto(a: Seq<(int, int)>, b: Seq<(int, int)>, count: int, upto: int)
    requires
        lists_all_pairs(a, count),
        lists_all_pairs(b, count),
        0 <= upto <= a.len(),
    ensures
        upto <= b.len(),
        forall|k: int| 0 <= k < upto ==> a[k] == b[k],
    decreases upto,
{
    if upto > 0 {
        let k = upto - 1;
        lemma_listings_agree_upto(a, b, count, k);
        assert(b.contains(a[k]));
        let in_b = choose|m: int| 0 <= m < b.len() && b[m] == a[k];
        if in_b < k {
            assert(pair_before(a[in_b], a[k]));
        }
        assert(a.contains(b[k]));
        let in_a = choose|m: int| 0 <= m < a.len() && a[m] == b[k];
        if in_a < k {
            assert(pair_before(b[in_a], b[k]));
        }
        if in_b > k && in_a > k {
            assert(pair_before(b[k], b[in_b]));
            assert(pair_before(a[k], a[in_a]));
        }
    }
}

/// There is one listing of the pairs below `count`, and it is `all_pairs`.
pub proof fn lemma_listing_is_unique(pairs: Seq<(int, int)>, count: int)
    requires
        lists_all_pairs(pairs, count),
    ensures
        pairs == all_pairs(count),
{
    let all = all_pairs(count);
    lemma_pairs_from(0, count);
    lemma_listings_agree_upto(pairs, all, count, pairs.len() as int);
    lemma_listings_agree_upto(all, pairs, count, all.len() as int);
    assert(pairs =~= all);
}

/// Over `count` items there are `count * (count - 1) / 2` pairs in a listing,
/// each pair of two different positions is in it once, lower position first,
/// and no pair is in it twice.
pub proof fn lemma_pair_listing_laws(pairs: Seq<(int, int)>, count: int)
    requires
        0 <= count,
        lists_all_pairs(pairs, count),
    ensures
        pairs.len() == count * (count - 1) / 2,
        pairs.no_duplicates(),
        forall|i: int, j: int|
            0 <= i < count && 0 <= j < count && i != j ==> (#[trigger] pairs.contains((i, j)) <==> !pairs.contains((j, i))),
{
    lemma_listing_is_unique(pairs, count);
    lemma_pairs_from(0, count);
    assert(pairs.len() == count * (count - 1) / 2) by (nonlinear_arith)
        requires
            2 * pairs.len() == count * (count - 1),
    ;
    assert forall|k: int, l: int| 0 <= k < pairs.len() && 0 <= l < pairs.len() && k != l implies pairs[k]
        != pairs[l] by {
        if k < l {
            assert(pair_before(pairs[k], pairs[l]));
        } else {
            assert(pair_before(pairs[l], pairs[k]));
        }
    }
    assert forall|i: int, j: int| 0 <= i < count && 0 <= j < count && i != j implies (
    #[trigger] pairs.contains((i, j)) <==> !pairs.contains((j, i))) by {
        if i < j {
            assert(pairs.contains((i, j)));
            if pairs.contains((j, i)) {
                let at = choose|at: int| 0 <= at < pairs.len() && pairs[at] == (j, i);
                assert(pairs[at].0 < pairs[at].1);
            }
        } else {
            assert(pairs.contains((j, i)));
            if pairs.contains((i, j)) {
                let at = choose|at: int| 0 <= at < pairs.len() && pairs[at] == (i, j);
                assert(pairs[at].0 < pairs[at].1);
            }
        }
    }
}

/// The pairs of positions as the mathematical pairs that they stand for.
pub open spec fn positions_of(pairs: Seq<(usize, usize)>) -> Seq<(int, int)> {
    pairs.map_values(|pair: (usize, usize)| (pair.0 as int, pair.1 as int))
}

/// The iterator that `itertools::Itertools::combinations` gives over a range
/// of positions. Its inside is not visible to the verifier; `pairs_left` names
/// what the engine reads of it.
#[verifier::external_body]
pub struct PairStream {
    inner: itertools::structs::Combinations<std::ops::Range<usize>>,
}

/// The pairs of positions that the iterator has yet to yield, in the order in
/// which it will yield them.
pub uninterp spec fn pairs_left(stream: PairStream) -> Seq<(int, int)>;

/// `itertools::Itertools::combinations` with length 2 over the positions
/// `0..count`. The adaptor yields every combination of two of the items,
/// picked in their order, so the lower position comes first; it steps through
/// them in ascending order; and it yields none for fewer than two items.
#[verifier::external_body]
fn pair_stream(count: usize) -> (stream: PairStream)
    ensures
        lists_all_pairs(pairs_left(stream), count as int),
{
    PairStream { inner: (0..count).combinations(2) }
}

/// `Iterator::next` of the combinations: the first of the pairs that were
/// left, which then is left no more, or `None` when none was left.
#[verifier::external_body]
fn next_pair(stream: &mut PairStream) -> (pair: Option<(usize, usize)>)
    ensures
        match pair {
            Some(pair) => {
                &&& pairs_left(*old(stream)).len() > 0
                &&& (pair.0 as int, pair.1 as int) == pairs_left(*old(stream))[0]
                &&& pairs_left(*final(stream)) == pairs_left(*old(stream)).drop_first()
            },
            None => pairs_left(*old(stream)).len() == 0 && pairs_left(*final(stream)).len() == 0,
        },
{
    stream.inner.next().map(|pair| (pair[0], pair[1]))
}

/// The pairs of two different positions below `count`, lower position first,
/// in ascending order: the candidates that a scan of `count` records looks at.
/// There are `count * (count - 1) / 2` of them, which has to be a length that
/// a vector can have.
pub fn candidate_pairs(count: usize) -> (pairs: Vec<(usize, usize)>)
    requires
        count * (count - 1) / 2 <= usize::MAX,
    ensures
        positions_of(pairs@) == all_pairs(count as int),
        lists_all_pairs(positions_of(pairs@), count as int),
        pairs.len() == count * (count - 1) / 2,
{
    let mut stream = pair_stream(count);
    let ghost all = all_pairs(count as int);
    proof {
        lemma_listing_is_unique(pairs_left(stream), count as int);
        lemma_pair_listing_laws(all, count as int);
    }
    let mut pairs: Vec<(usize, usize)> = Vec::new();
    loop
        invariant
            all == all_pairs(count as int),
            all.len() == count * (count - 1) / 2,
            lists_all_pairs(all, count as int),
            pairs.len() <= all.len(),
            positions_of(pairs@) == all.take(pairs.len() as int),
            pairs_left(stream) == all.skip(pairs.len() as int),
        decreases pairs_left(stream).len(),
    {
        match next_pair(&mut stream) {
            None => {
                assert(all.take(all.len() as int) == all);
                return pairs;
            },
            Some(pair) => {
                proof {
                    let done = pairs.len() as int;
                    assert(all.skip(done)[0] == all[done]);
                    assert(all.skip(done).drop_first() == all.skip(done + 1));
                    assert(all.take(done + 1) == all.take(done).push(all[done]));
                    assert(positions_of(pairs@.push(pair)) == positions_of(pairs@).push(
                        (pair.0 as int, pair.1 as int),
                    ));
                }
                pairs.push(pair);
            },
        }
    }
}

/// Whether the cells do not allow combining the records at the two positions,
/// the record at the first position taken as the source.
pub open spec fn conflicts_at(
    records: Seq<PackageLicense>,
    cells: Map<(Seq<char>, Seq<char>), Seq<char>>,
    pair: (int, int),
) -> bool {
    !compatible_in(records[pair.0].license, records[pair.1].license, cells)
}

/// Of the given pairs of positions those whose records conflict, each as the
/// pair of its records.
pub open spec fn conflicts_among(
    pairs: Seq<(int, int)>,
    records: Seq<PackageLicense>,
    cells: Map<(Seq<char>, Seq<char>), Seq<char>>,
) -> Seq<(PackageLicense, PackageLicense)> {
    pairs.filter(|pair: (int, int)| conflicts_at(records, cells, pair)).map_values(
        |pair: (int, int)| (records[pair.0], records[pair.1]),
    )
}

/// The conflicts among the records: every pair of two of them, the earlier
/// one first, that the cells do not allow, in the order of `all_pairs`.
pub open spec fn conflicts_of(
    records: Seq<PackageLicense>,
    cells: Map<(Seq<char>, Seq<char>), Seq<char>>,
) -> Seq<(PackageLicense, PackageLicense)> {
    conflicts_among(all_pairs(records.len() as int), records, cells)
}

/// One more pair adds its records to the conflicts if they conflict, and
/// nothing otherwise.
proof fn lemma_conflicts_among_push(
    pairs: Seq<(int, int)>,
    pair: (int, int),
    records: Seq<PackageLicense>,
    cells: Map<(Seq<char>, Seq<char>), Seq<char>>,
)
    ensures
        conflicts_among(pairs.push(pair), records, cells) == if conflicts_at(records, cells, pair) {
            conflicts_among(pairs, records, cells).push((records[pair.0], records[pair.1]))
        } else {
            conflicts_among(pairs, records, cells)
        },
{
    reveal(Seq::filter);
    let keep = |pair: (int, int)| conflicts_at(records, cells, pair);
    let pick = |pair: (int, int)| (records[pair.0], records[pair.1]);
    assert(pairs.push(pair).drop_last() == pairs);
    if conflicts_at(records, cells, pair) {
        assert(pairs.push(pair).filter(keep) == pairs.filter(keep).push(pair));
        assert(pairs.filter(keep).push(pair).map_values(pick) == pairs.filter(keep).map_values(
            pick,
        ).push(pick(pair)));
    }
}

/// The pairs of records that the matrix does not allow together: of every
/// two records the earlier is looked up as the source and the later as the
/// target. The cost grows with the square of the number of records.
pub fn scan_pairs(resolved: &Vec<PackageLicense>, matrix: &serde_json::Value) -> (conflicts: Vec<
    (PackageLicense, PackageLicense),
>)
    ensures
        conflicts@ == conflicts_of(resolved@, matrix_cells(*matrix)),
{
    let mut stream = pair_stream(resolved.len());
    let ghost all = all_pairs(resolved.len() as int);
    let ghost cells = matrix_cells(*matrix);
    let ghost mut done: int = 0;
    let mut conflicts: Vec<(PackageLicense, PackageLicense)> = Vec::new();
    proof {
        lemma_listing_is_unique(pairs_left(stream), resolved.len() as int);
        assert(all.take(0) == Seq::<(int, int)>::empty());
        reveal(Seq::filter);
    }
    loop
        invariant
            0 <= done <= all.len(),
            all == all_pairs(resolved.len() as int),
            cells == matrix_cells(*matrix),
            lists_all_pairs(all, resolved.len() as int),
            pairs_left(stream) == all.skip(done),
            conflicts@ == conflicts_among(all.take(done), resolved@, cells),
        decreases pairs_left(stream).len(),
    {
        match next_pair(&mut stream) {
            None => {
                assert(all.take(done) == all);
                return conflicts;
            },
            Some((first, second)) => {
                proof {
                    let pair = all[done];
                    assert(all.skip(done)[0] == pair);
                    assert(pair == (first as int, second as int));
                    assert(0 <= pair.0 < pair.1 < resolved.len());
                    assert(all.skip(done).drop_first() == all.skip(done + 1));
                    assert(all.take(done + 1) == all.take(done).push(pair));
                    lemma_conflicts_among_push(all.take(done), pair, resolved@, cells);
                }
                if !is_compatibile(&resolved[first].license, &resolved[second].license, matrix) {
                    conflicts.push((resolved[first].clone(), resolved[second].clone()));
                }
                proof {
                    done = done + 1;
                }
            },
        }
    }
}

/// The record that an extractor makes of one fetched dependency.
pub open spec fn record_of<E: LanguageExtractor>(
    extractor: &E,
    fetched: (String, Option<E::Metadata>),
) -> PackageLicense {
    PackageLicense {
        name: fetched.0,
        license: match fetched.1 {
            Some(metadata) => extractor.license_in(metadata),
            None => None,
        },
    }
}

/// One record for each dependency, in the order given: what the extractor
/// makes of the name and of the metadata that was fetched for it, `None`
/// standing for metadata that could not be had.
pub fn collect_records<E: LanguageExtractor>(
    extractor: &E,
    fetched: Vec<(String, Option<E::Metadata>)>,
) -> (records: Vec<PackageLicense>)
    ensures
        records@ == fetched@.map_values(
            |one: (String, Option<E::Metadata>)| record_of(extractor, one),
        ),
        records.len() == fetched.len(),
{
    let ghost all = fetched@;
    let ghost make = |one: (String, Option<E::Metadata>)| record_of(extractor, one);
    let mut records: Vec<PackageLicense> = Vec::new();
    for one in it: fetched
        invariant
            it.seq() == all,
            make == |one: (String, Option<E::Metadata>)| record_of(extractor, one),
            records@ == all.take(it.index() as int).map_values(make),
    {
        let (name, metadata) = one;
        let record = extractor.get_license(name, metadata);
        assert(record == make(one));
        assert(all.take(it.index() + 1) == all.take(it.index() as int).push(one));
        records.push(record);
    }
    proof {
        assert(all.take(all.len() as int) == all);
    }
    records
}

/// What a finished scan reports.
#[derive(Debug)]
pub struct ScanReport {
    /// How many dependencies were scanned.
    pub dependency_count: usize,
    /// The dependencies whose license is known.
    pub resolved: Vec<PackageLicense>,
    /// The dependencies whose license could not be determined.
    pub unresolved: Vec<PackageLicense>,
    /// The pairs of resolved dependencies whose licenses the matrix does not
    /// allow together.
    pub conflicts: Vec<(PackageLicense, PackageLicense)>,
}

impl ScanReport {
    /// Whether this is the report on the given records under the given cells.
    pub open spec fn describes(
        self,
        records: Seq<PackageLicense>,
        cells: Map<(Seq<char>, Seq<char>), Seq<char>>,
    ) -> bool {
        &&& self.dependency_count == records.len()
        &&& self.resolved@ == resolved_of(records)
        &&& self.unresolved@ == unresolved_of(records)
        &&& self.conflicts@ == conflicts_of(self.resolved@, cells)
    }
}

/// The report on the records of all dependencies: how many there are, which
/// are resolved and which are not, and the conflicts among the resolved ones.
/// The split is made over all records at once, so the counts add up.
pub fn report(records: Vec<PackageLicense>, matrix: &serde_json::Value) -> (report: ScanReport)
    ensures
        report.describes(records@, matrix_cells(*matrix)),
        report.resolved.len() + report.unresolved.len() == records.len(),
{
    let dependency_count = records.len();
    let (resolved, unresolved) = partition(records);
    let conflicts = scan_pairs(&resolved, matrix);
    ScanReport { dependency_count, resolved, unresolved, conflicts }
}

/// The report of a scan, from what was fetched for each dependency.
pub fn scan<E: LanguageExtractor>(
    extractor: &E,
    fetched: Vec<(String, Option<E::Metadata>)>,
    matrix: &serde_json::Value,
) -> (report: ScanReport)
    ensures
        report.describes(
            fetched@.map_values(|one: (String, Option<E::Metadata>)| record_of(extractor, one)),
            matrix_cells(*matrix),
        ),
        report.dependency_count == fetched.len(),
        report.resolved.len() + report.unresolved.len() == fetched.len(),
{
    report(collect_records(extractor, fetched), matrix)
}

} // verus!
