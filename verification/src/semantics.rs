//! The reference semantics of a translated log search: which raw rows a
//! search selects, in what order, and how the page bound cuts them.
//!
//! The query builders state the exact query text; this module states
//! what that query *means* over a sequence of raw rows, as executable,
//! verified code, so the translator's edge-case policy (absent filters
//! exclude nothing, descending order, offset before limit) can be
//! exercised without a store.

use vstd::multiset::Multiset;
use vstd::prelude::*;
use vstd::string::StrSliceExecFns;

use crate::clickhouse::LogSearchParams;
use crate::clickhouse::RawLogRow;
use crate::types::severity_number_of;
use crate::types::LogSeverity;
use crate::types::Timestamp;

verus! {

/// Case-blind ASCII character equality: equal outright, or the same
/// letter in the two ASCII cases.
pub open spec fn char_eq_ci(a: char, b: char) -> bool {
    ||| a == b
    ||| ('A' <= a <= 'Z' && a as int + 32 == b as int)
    ||| ('A' <= b <= 'Z' && b as int + 32 == a as int)
}

/// Whether `needle` matches `hay` at offset `off`, ignoring ASCII case.
pub open spec fn ci_match_at(hay: Seq<char>, needle: Seq<char>, off: int) -> bool {
    forall|i: int| 0 <= i < needle.len() ==> char_eq_ci(#[trigger] hay[off + i], needle[i])
}

/// Whether `hay` holds `needle` somewhere, ignoring ASCII case: the
/// meaning of the store's `ILIKE '%needle%'` predicate for ASCII text.
pub open spec fn contains_ci(hay: Seq<char>, needle: Seq<char>) -> bool {
    exists|off: int|
        0 <= off <= hay.len() - needle.len() && #[trigger] ci_match_at(hay, needle, off)
}

/// The event instant of a raw row.
pub open spec fn row_timestamp(row: RawLogRow) -> Timestamp {
    Timestamp { secs: row.timestamp_secs, nanos: row.timestamp_nanos }
}

/// Whether a search selects a raw row: inside the half-open window, at
/// or above the severity floor if one is set, body holding the text
/// filter if one is set (ignoring ASCII case), and service equal to the
/// service filter if one is set. An absent filter excludes nothing.
pub open spec fn row_matches(row: RawLogRow, p: LogSearchParams) -> bool {
    &&& p.time_range.start.spec_le(&row_timestamp(row))
    &&& row_timestamp(row).spec_lt(&p.time_range.end)
    &&& (p.min_severity matches Some(s) ==> row.severity_number as int >= severity_number_of(s))
    &&& (p.text_query matches Some(q) ==> contains_ci(row.body@, q@))
    &&& (p.service_name matches Some(sv) ==> row.service_name@ == sv@)
}

/// How many of the rows a search selects.
pub open spec fn match_count(rows: Seq<RawLogRow>, p: LogSearchParams) -> int
    decreases rows.len(),
{
    if rows.len() == 0 {
        0
    } else {
        match_count(rows.drop_last(), p) + (if row_matches(rows.last(), p) {
            1int
        } else {
            0int
        })
    }
}

/// How many rows a page shows of `total` matches: what is left after
/// the offset, capped by the limit.
pub open spec fn page_len(total: int, offset: int, limit: int) -> int {
    let rest = if total > offset {
        total - offset
    } else {
        0
    };
    if rest > limit {
        limit
    } else {
        rest
    }
}

/// A row at or above a severity floor is never below the floor's
/// numeric code; with a floor of `Warn`, every selected row has numeric
/// severity at least 13.
pub proof fn lemma_severity_floor_excludes(row: RawLogRow, p: LogSearchParams, s: LogSeverity)
    requires
        p.min_severity == Some(s),
        row_matches(row, p),
    ensures
        row.severity_number as int >= severity_number_of(s),
        s == LogSeverity::Warn ==> row.severity_number >= 13,
{
}

/// The match count grows by one exactly at the rows the search selects.
proof fn lemma_match_count_step(rows: Seq<RawLogRow>, i: int, p: LogSearchParams)
    requires
        0 <= i < rows.len(),
    ensures
        match_count(rows.take(i + 1), p) == match_count(rows.take(i), p) + (if row_matches(
            rows[i],
            p,
        ) {
            1int
        } else {
            0int
        }),
{
    assert(rows.take(i + 1).drop_last() =~= rows.take(i));
    assert(rows.take(i + 1).last() == rows[i]);
}

/// Case-blind ASCII character comparison.
fn char_eq_ci_exec(a: char, b: char) -> (r: bool)
    ensures
        r == char_eq_ci(a, b),
{
    a == b || ('A' <= a && a <= 'Z' && (a as u32) + 32 == (b as u32)) || ('A' <= b && b <= 'Z' && (
    b as u32) + 32 == (a as u32))
}

/// Whether `needle` matches `hay` at `off`, ignoring ASCII case.
fn ci_match_at_exec(hay: &str, needle: &str, off: usize) -> (r: bool)
    requires
        off + needle@.len() <= hay@.len(),
    ensures
        r == ci_match_at(hay@, needle@, off as int),
{
    let hn = hay.unicode_len();
    let nn = needle.unicode_len();
    let mut i: usize = 0;
    while i < nn
        invariant
            0 <= i <= nn,
            nn == needle@.len(),
            hn == hay@.len(),
            off + nn <= hn,
            forall|k: int| 0 <= k < i ==> char_eq_ci(#[trigger] hay@[off + k], needle@[k]),
        decreases nn - i,
    {
        let c1 = hay.get_char(off + i);
        let c2 = needle.get_char(i);
        if !char_eq_ci_exec(c1, c2) {
            assert(!char_eq_ci(hay@[off + i], needle@[i as int]));
            return false;
        }
        i += 1;
    }
    true
}

/// Whether `hay` holds `needle` somewhere, ignoring ASCII case.
fn contains_ci_exec(hay: &str, needle: &str) -> (r: bool)
    ensures
        r == contains_ci(hay@, needle@),
{
    let hn = hay.unicode_len();
    let nn = needle.unicode_len();
    if nn > hn {
        assert(!contains_ci(hay@, needle@));
        return false;
    }
    let mut off: usize = 0;
    while off <= hn - nn
        invariant
            0 <= off,
            nn <= hn,
            hn == hay@.len(),
            nn == needle@.len(),
            forall|o: int| 0 <= o < off ==> !#[trigger] ci_match_at(hay@, needle@, o),
        decreases hn - nn + 1 - off,
    {
        if ci_match_at_exec(hay, needle, off) {
            assert(ci_match_at(hay@, needle@, off as int));
            return true;
        }
        off += 1;
    }
    assert(forall|o: int|
        0 <= o <= hay@.len() - needle@.len() ==> !#[trigger] ci_match_at(hay@, needle@, o));
    false
}

/// Whether a search selects a raw row.
pub fn log_row_matches(row: &RawLogRow, p: &LogSearchParams) -> (r: bool)
    ensures
        r == row_matches(*row, *p),
{
    let ts = Timestamp { secs: row.timestamp_secs, nanos: row.timestamp_nanos };
    if !p.time_range.start.le(&ts) {
        return false;
    }
    if !ts.lt(&p.time_range.end) {
        return false;
    }
    match &p.min_severity {
        Some(s) => {
            if row.severity_number < s.to_severity_number() {
                return false;
            }
        },
        None => {},
    }
    match &p.text_query {
        Some(q) => {
            if !contains_ci_exec(row.body.as_str(), q.as_str()) {
                return false;
            }
        },
        None => {},
    }
    match &p.service_name {
        Some(sv) => {
            if !crate::textfmt::str_eq(row.service_name.as_str(), sv.as_str()) {
                return false;
            }
        },
        None => {},
    }
    true
}

/// A selected row paired with its position in the input.
struct IndexedRow {
    row: RawLogRow,
    idx: usize,
}

/// The raw rows a sequence of working entries carries, in order.
spec fn rows_of(s: Seq<IndexedRow>) -> Seq<RawLogRow> {
    s.map_values(|e: IndexedRow| e.row)
}

/// A sound working entry over the input `rows` and search `p`.
spec fn indexed_ok(rows: Seq<RawLogRow>, p: LogSearchParams, e: IndexedRow) -> bool {
    &&& row_matches(e.row, p)
    &&& 0 <= e.idx < rows.len()
    &&& rows[e.idx as int] == e.row
}

/// The order of a search's results: later instants first, ties broken
/// by input position.
spec fn comes_before(a: IndexedRow, b: IndexedRow) -> bool {
    row_timestamp(b.row).spec_lt(&row_timestamp(a.row)) || (row_timestamp(a.row) == row_timestamp(
        b.row,
    ) && a.idx < b.idx)
}

/// Whether `a` comes before `b` in result order.
fn comes_before_exec(a: &IndexedRow, b: &IndexedRow) -> (r: bool)
    ensures
        r == comes_before(*a, *b),
{
    let ta = Timestamp { secs: a.row.timestamp_secs, nanos: a.row.timestamp_nanos };
    let tb = Timestamp { secs: b.row.timestamp_secs, nanos: b.row.timestamp_nanos };
    tb.lt(&ta) || (ta == tb && a.idx < b.idx)
}

/// Apply a search to a sequence of raw rows: keep the rows the search
/// selects, order them by strictly descending event instant (ties by
/// input position), skip `offset` of them and return at most `limit`.
///
/// This is the documented meaning of the query the translator builds;
/// the store is assumed to agree with it.
pub fn select_log_rows(rows: Vec<RawLogRow>, p: &LogSearchParams) -> (out: Vec<RawLogRow>)
    ensures
        out@.len() == page_len(
            match_count(rows@, *p),
            p.pagination.offset as int,
            p.pagination.limit as int,
        ),
        forall|i: int| 0 <= i < out@.len() ==> row_matches(#[trigger] out@[i], *p),
        forall|i: int|
            0 <= i < out@.len() ==> exists|k: int|
                0 <= k < rows@.len() && rows@[k] == #[trigger] out@[i],
        forall|i: int, j: int|
            0 <= i < j < out@.len() ==> row_timestamp(#[trigger] out@[j]).spec_le(
                &row_timestamp(#[trigger] out@[i]),
            ),
        out@.to_multiset().subset_of(rows@.to_multiset()),
{
    broadcast use vstd::seq_lib::group_to_multiset_ensures;
    broadcast use vstd::multiset::group_multiset_axioms;

    let ghost all = rows@;
    let n = rows.len();

    // Keep the selected rows, remembering their input positions.
    let mut kept: Vec<IndexedRow> = Vec::new();
    let mut feed = rows;
    let mut i: usize = 0;
    while feed.len() > 0
        invariant
            n == all.len(),
            i + feed@.len() == n,
            feed@ == all.subrange(i as int, n as int),
            kept@.len() <= i,
            kept@.len() == match_count(all.take(i as int), *p),
            rows_of(kept@).to_multiset().subset_of(all.take(i as int).to_multiset()),
            forall|j: int| 0 <= j < kept@.len() ==> #[trigger] indexed_ok(all, *p, kept@[j]),
            forall|j: int| 0 <= j < kept@.len() ==> (#[trigger] kept@[j]).idx < i,
            forall|j1: int, j2: int|
                0 <= j1 < j2 < kept@.len() ==> kept@[j1].idx < kept@[j2].idx,
        decreases feed@.len(),
    {
        let row = feed.remove(0);
        assert(row == all[i as int]);
        proof {
            lemma_match_count_step(all, i as int, *p);
            assert(all.take(i as int + 1) =~= all.take(i as int).push(all[i as int]));
        }
        let ghost old_kept = kept@;
        if log_row_matches(&row, p) {
            kept.push(IndexedRow { row, idx: i });
            proof {
                broadcast use vstd::seq_lib::group_to_multiset_ensures;
                broadcast use vstd::multiset::group_multiset_axioms;

                assert(rows_of(kept@) =~= rows_of(old_kept).push(all[i as int]));
                assert(rows_of(old_kept).push(all[i as int]).to_multiset() =~= rows_of(
                    old_kept,
                ).to_multiset().insert(all[i as int]));
                assert(rows_of(kept@).to_multiset() == rows_of(old_kept).push(
                    all[i as int],
                ).to_multiset());
                assert(all.take(i as int).push(all[i as int]).to_multiset() =~= all.take(
                    i as int,
                ).to_multiset().insert(all[i as int]));
                assert(all.take(i as int + 1).to_multiset() == all.take(i as int).push(
                    all[i as int],
                ).to_multiset());
            }
        } else {
            proof {
                broadcast use vstd::seq_lib::group_to_multiset_ensures;
                broadcast use vstd::multiset::group_multiset_axioms;

                assert(all.take(i as int).push(all[i as int]).to_multiset() =~= all.take(
                    i as int,
                ).to_multiset().insert(all[i as int]));
                assert(all.take(i as int + 1).to_multiset() == all.take(i as int).push(
                    all[i as int],
                ).to_multiset());
            }
        }
        i += 1;
        proof {
            assert(feed@ =~= all.subrange(i as int, n as int));
        }
    }
    proof {
        assert(all.take(n as int) =~= all);
    }
    let ghost total = kept@.len() as int;
    let ghost total_ms = rows_of(kept@).to_multiset();
    proof {
        assert(total_ms.subset_of(all.to_multiset()));
    }

    // Order them: latest instant first, ties by input position.
    let mut ordered: Vec<IndexedRow> = Vec::new();
    proof {
        assert(rows_of(ordered@) =~= Seq::<RawLogRow>::empty());
        assert(rows_of(ordered@).to_multiset().len() == 0);
        assert(rows_of(ordered@).to_multiset() =~= Multiset::<RawLogRow>::empty());
        assert(Multiset::<RawLogRow>::empty().add(total_ms) =~= total_ms);
    }
    while kept.len() > 0
        invariant
            ordered@.len() + kept@.len() == total,
            rows_of(ordered@).to_multiset().add(rows_of(kept@).to_multiset()) == total_ms,
            forall|j: int| 0 <= j < ordered@.len() ==> #[trigger] indexed_ok(all, *p, ordered@[j]),
            forall|j: int| 0 <= j < kept@.len() ==> #[trigger] indexed_ok(all, *p, kept@[j]),
            forall|i1: int, j1: int|
                0 <= i1 < j1 < ordered@.len() ==> comes_before(ordered@[i1], ordered@[j1]),
            forall|i1: int, j1: int|
                0 <= i1 < ordered@.len() && 0 <= j1 < kept@.len() ==> comes_before(
                    #[trigger] ordered@[i1],
                    #[trigger] kept@[j1],
                ),
            forall|i1: int, j1: int|
                0 <= i1 < kept@.len() && 0 <= j1 < kept@.len() && i1 != j1
                    ==> (#[trigger] kept@[i1]).idx != (#[trigger] kept@[j1]).idx,
        decreases kept@.len(),
    {
        let mut best: usize = 0;
        let mut j: usize = 1;
        while j < kept.len()
            invariant
                0 <= best < j <= kept@.len(),
                kept@.len() > 0,
                forall|j2: int|
                    0 <= j2 < j && j2 != best ==> !comes_before(
                        #[trigger] kept@[j2],
                        kept@[best as int],
                    ),
            decreases kept@.len() - j,
        {
            if comes_before_exec(&kept[j], &kept[best]) {
                best = j;
            }
            j += 1;
        }
        proof {
            assert forall|x: int| 0 <= x < kept@.len() && x != best implies comes_before(
                kept@[best as int],
                #[trigger] kept@[x],
            ) by {
                assert(!comes_before(kept@[x], kept@[best as int]));
                assert(kept@[x].idx != kept@[best as int].idx);
            }
        }
        let ghost old_ordered = ordered@;
        let ghost old_kept = kept@;
        let chosen = kept.remove(best);
        ordered.push(chosen);
        proof {
            assert(chosen == old_kept[best as int]);
            assert(ordered@ == old_ordered.push(chosen));
            assert(forall|x: int| 0 <= x < best ==> #[trigger] kept@[x] == old_kept[x]);
            assert(forall|x: int|
                best <= x < kept@.len() ==> #[trigger] kept@[x] == old_kept[x + 1]);
            // the moved row leaves one multiset and enters the other
            broadcast use vstd::seq_lib::group_to_multiset_ensures;
            broadcast use vstd::multiset::group_multiset_axioms;

            assert(rows_of(kept@) =~= rows_of(old_kept).remove(best as int));
            assert(rows_of(old_kept)[best as int] == chosen.row);
            assert(rows_of(old_kept).remove(best as int).to_multiset() =~= rows_of(
                old_kept,
            ).to_multiset().remove(rows_of(old_kept)[best as int]));
            assert(rows_of(kept@).to_multiset() == rows_of(old_kept).remove(
                best as int,
            ).to_multiset());
            assert(rows_of(ordered@) =~= rows_of(old_ordered).push(chosen.row));
            assert(rows_of(old_ordered).push(chosen.row).to_multiset() =~= rows_of(
                old_ordered,
            ).to_multiset().insert(chosen.row));
            assert(rows_of(ordered@).to_multiset() == rows_of(old_ordered).push(
                chosen.row,
            ).to_multiset());
            assert(rows_of(old_kept).contains(chosen.row));
            assert(rows_of(old_kept).to_multiset().count(chosen.row) >= 1);
            assert(rows_of(ordered@).to_multiset().add(rows_of(kept@).to_multiset())
                =~= rows_of(old_ordered).to_multiset().add(rows_of(old_kept).to_multiset()));
            assert forall|i1: int, x: int|
                0 <= i1 < ordered@.len() && 0 <= x < kept@.len() implies comes_before(
                #[trigger] ordered@[i1],
                #[trigger] kept@[x],
            ) by {
                let old_x: int = if x < best {
                    x
                } else {
                    x + 1
                };
                assert(kept@[x] == old_kept[old_x]);
                if i1 < old_ordered.len() {
                    assert(comes_before(old_ordered[i1], old_kept[old_x]));
                } else {
                    assert(ordered@[i1] == chosen);
                    assert(comes_before(old_kept[best as int], old_kept[old_x]));
                }
            }
        }
    }
    let ghost ordered_snap = ordered@;
    proof {
        assert(rows_of(kept@) =~= Seq::<RawLogRow>::empty());
        assert(rows_of(kept@).to_multiset().len() == 0);
        assert(rows_of(kept@).to_multiset() =~= Multiset::<RawLogRow>::empty());
        assert(rows_of(ordered_snap).to_multiset().add(Multiset::<RawLogRow>::empty())
            =~= rows_of(ordered_snap).to_multiset());
        assert(rows_of(ordered_snap).to_multiset() == total_ms);
    }

    // Page: drop `offset` results, keep at most `limit`.
    let offset = p.pagination.offset;
    let limit = p.pagination.limit;
    let mut out: Vec<RawLogRow> = Vec::new();
    let mut pos: usize = 0;
    let mut feed2 = ordered;
    proof {
        assert(out@.to_multiset().len() == 0);
        assert(out@.to_multiset() =~= Multiset::<RawLogRow>::empty());
        assert(rows_of(ordered_snap.take(0)) =~= Seq::<RawLogRow>::empty());
    }
    while feed2.len() > 0
        invariant
            total <= n as int,
            pos + feed2@.len() == total,
            out@.to_multiset().subset_of(rows_of(ordered_snap.take(pos as int)).to_multiset()),
            feed2@ == ordered_snap.subrange(pos as int, total),
            out@.len() == page_len(pos as int, offset as int, limit as int),
            forall|j: int|
                0 <= j < out@.len() ==> #[trigger] out@[j] == ordered_snap[offset as int + j].row,
            total == ordered_snap.len(),
            forall|j: int|
                0 <= j < ordered_snap.len() ==> #[trigger] indexed_ok(all, *p, ordered_snap[j]),
            forall|i1: int, j1: int|
                0 <= i1 < j1 < ordered_snap.len() ==> comes_before(
                    ordered_snap[i1],
                    ordered_snap[j1],
                ),
        decreases feed2@.len(),
    {
        let e = feed2.remove(0);
        assert(e == ordered_snap[pos as int]);
        let ghost old_out = out@;
        proof {
            broadcast use vstd::seq_lib::group_to_multiset_ensures;
            broadcast use vstd::multiset::group_multiset_axioms;

            assert(ordered_snap.take(pos as int + 1) =~= ordered_snap.take(pos as int).push(
                ordered_snap[pos as int],
            ));
            assert(rows_of(ordered_snap.take(pos as int + 1)) =~= rows_of(
                ordered_snap.take(pos as int),
            ).push(ordered_snap[pos as int].row));
            assert(rows_of(ordered_snap.take(pos as int)).push(
                ordered_snap[pos as int].row,
            ).to_multiset() =~= rows_of(ordered_snap.take(pos as int)).to_multiset().insert(
                ordered_snap[pos as int].row,
            ));
            assert(rows_of(ordered_snap.take(pos as int + 1)).to_multiset() == rows_of(
                ordered_snap.take(pos as int),
            ).push(ordered_snap[pos as int].row).to_multiset());
        }
        if pos as u64 >= offset && (out.len() as u64) < limit {
            out.push(e.row);
            proof {
                broadcast use vstd::seq_lib::group_to_multiset_ensures;
                broadcast use vstd::multiset::group_multiset_axioms;

                assert(out@ =~= old_out.push(ordered_snap[pos as int].row));
                assert(old_out.push(ordered_snap[pos as int].row).to_multiset()
                    =~= old_out.to_multiset().insert(ordered_snap[pos as int].row));
                assert(out@.to_multiset() == old_out.push(
                    ordered_snap[pos as int].row,
                ).to_multiset());
            }
        }
        pos += 1;
        proof {
            assert(feed2@ =~= ordered_snap.subrange(pos as int, total));
        }
    }
    proof {
        assert(out@.len() == page_len(total, offset as int, limit as int));
        assert(ordered_snap.take(total) =~= ordered_snap);
        assert(out@.to_multiset().subset_of(rows_of(ordered_snap).to_multiset()));
        assert(out@.to_multiset().subset_of(all.to_multiset()));
        assert forall|i1: int| 0 <= i1 < out@.len() implies row_matches(
            #[trigger] out@[i1],
            *p,
        ) by {
            assert(indexed_ok(all, *p, ordered_snap[offset as int + i1]));
        }
        assert forall|i1: int, j1: int| 0 <= i1 < j1 < out@.len() implies row_timestamp(
            #[trigger] out@[j1],
        ).spec_le(&row_timestamp(#[trigger] out@[i1])) by {
            assert(comes_before(ordered_snap[offset as int + i1], ordered_snap[offset as int + j1]));
        }
        assert forall|i1: int| 0 <= i1 < out@.len() implies exists|k: int|
            0 <= k < all.len() && all[k] == #[trigger] out@[i1] by {
            assert(indexed_ok(all, *p, ordered_snap[offset as int + i1]));
            assert(all[ordered_snap[offset as int + i1].idx as int] == out@[i1]);
        }
    }
    out
}

} // verus!
