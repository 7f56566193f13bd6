//! The sort engine: orders the full row set by a selected column and
//! direction before filtering, so that the relative order inside any filtered
//! subset matches the full ordering.
//!
//! Memory sorts on raw bytes (not on the rounded megabytes the table shows),
//! CPU on the normalized tenths of a percent, pid numerically.  The sort is
//! stable: rows with equal keys keep their original relative order.  Columns
//! without a meaningful order (name, command, and the other free-text
//! columns) leave the current order untouched.

use vstd::prelude::*;

use crate::process_data::KillaData;
use crate::row::ColumnKind;
use crate::row::Row;

verus! {

/// Sort direction.  Metrics columns default to descending (largest first).
#[derive(Clone, Copy, Debug, PartialEq, Eq, Structural)]
pub enum SortOrder {
    Ascending,
    Descending,
}

impl Default for SortOrder {
    /// Largest first.
    fn default() -> (r: Self)
        ensures
            r == SortOrder::Descending,
    {
        SortOrder::Descending
    }
}

/// The active sort of the process list: column and direction.
#[derive(Clone, Copy, Debug)]
pub struct ProcessListSort {
    pub column: ColumnKind,
    pub order: SortOrder,
}

/// Does this column order rows at all?
pub open spec fn is_sortable(col: ColumnKind) -> bool {
    col == ColumnKind::Memory || col == ColumnKind::Cpu || col == ColumnKind::Pid
}

/// The value a sortable column compares rows by.
pub open spec fn column_key(col: ColumnKind, r: Row) -> int {
    match col {
        ColumnKind::Memory => r.mem_bytes as int,
        ColumnKind::Cpu => r.cpu_tenths as int,
        ColumnKind::Pid => r.pid as int,
        _ => 0,
    }
}

/// The signed key whose ascending order realizes the requested direction.
pub open spec fn sort_key(col: ColumnKind, ord: SortOrder, r: Row) -> int {
    match ord {
        SortOrder::Ascending => column_key(col, r),
        SortOrder::Descending => -column_key(col, r),
    }
}

/// Strictly earlier in the requested order.
pub open spec fn row_lt(col: ColumnKind, ord: SortOrder, a: Row, b: Row) -> bool {
    sort_key(col, ord, a) < sort_key(col, ord, b)
}

/// The sequence is ordered by the requested key.
pub open spec fn rows_sorted(s: Seq<Row>, col: ColumnKind, ord: SortOrder) -> bool {
    forall|i: int, j: int|
        0 <= i < j < s.len() ==> sort_key(col, ord, #[trigger] s[i]) <= sort_key(
            col,
            ord,
            #[trigger] s[j],
        )
}

/// Stable insertion: the new row goes after every row strictly below it and
/// before everything else, so rows with equal keys keep arrival order.
pub open spec fn insert_sorted(s: Seq<Row>, x: Row, col: ColumnKind, ord: SortOrder) -> Seq<Row>
    decreases s.len(),
{
    if s.len() == 0 {
        seq![x]
    } else if row_lt(col, ord, s[0], x) {
        seq![s[0]] + insert_sorted(s.drop_first(), x, col, ord)
    } else {
        seq![x] + s
    }
}

/// The stable sort of a row sequence: insertion sort, last row first, so the
/// earliest row is inserted last and lands before its equals.
pub open spec fn sort_rows_spec(s: Seq<Row>, col: ColumnKind, ord: SortOrder) -> Seq<Row>
    decreases s.len(),
{
    if s.len() == 0 {
        s
    } else {
        insert_sorted(sort_rows_spec(s.drop_first(), col, ord), s[0], col, ord)
    }
}

/// What `sort_by_column` leaves behind: the stable sort for a sortable
/// column, the untouched row order for any other.
pub open spec fn sort_by_column_spec(rows: Seq<Row>, col: ColumnKind, ord: SortOrder) -> Seq<
    Row,
> {
    if is_sortable(col) {
        sort_rows_spec(rows, col, ord)
    } else {
        rows
    }
}

/// Compare two rows by the signed key of the active sort.
fn row_lt_exec(col: ColumnKind, ord: SortOrder, a: &Row, b: &Row) -> (r: bool)
    ensures
        r == row_lt(col, ord, *a, *b),
{
    let ka = key_exec(col, a);
    let kb = key_exec(col, b);
    match ord {
        SortOrder::Ascending => ka < kb,
        SortOrder::Descending => kb < ka,
    }
}

/// The column key, widened so that negation for descending order never
/// overflows.
fn key_exec(col: ColumnKind, r: &Row) -> (k: i128)
    ensures
        k as int == column_key(col, *r),
{
    match col {
        ColumnKind::Memory => r.mem_bytes as i128,
        ColumnKind::Cpu => r.cpu_tenths as i128,
        ColumnKind::Pid => r.pid as i128,
        _ => 0,
    }
}

/// Inserting at the first position whose row is not strictly below `x` is
/// exactly the stable insertion.
proof fn lemma_insert_at(s: Seq<Row>, x: Row, at: int, col: ColumnKind, ord: SortOrder)
    requires
        0 <= at <= s.len(),
        forall|k: int| 0 <= k < at ==> row_lt(col, ord, #[trigger] s[k], x),
        at < s.len() ==> !row_lt(col, ord, s[at], x),
    ensures
        insert_sorted(s, x, col, ord) == s.subrange(0, at) + seq![x] + s.subrange(
            at,
            s.len() as int,
        ),
    decreases at,
{
    if at == 0 {
        if s.len() == 0 {
            assert(insert_sorted(s, x, col, ord) =~= s.subrange(0, 0) + seq![x] + s.subrange(
                0,
                0,
            ));
        } else {
            assert(insert_sorted(s, x, col, ord) =~= s.subrange(0, 0) + seq![x] + s.subrange(
                0,
                s.len() as int,
            ));
        }
    } else {
        assert(row_lt(col, ord, s[0], x));
        lemma_insert_at(s.drop_first(), x, at - 1, col, ord);
        assert(insert_sorted(s, x, col, ord) =~= s.subrange(0, at) + seq![x] + s.subrange(
            at,
            s.len() as int,
        ));
    }
}

/// Insert one row into an already sorted vector, keeping it sorted and
/// placing the row after all rows strictly below it.
fn insert_row(v: &mut Vec<Row>, x: Row, col: ColumnKind, ord: SortOrder)
    ensures
        final(v)@ == insert_sorted(old(v)@, x, col, ord),
{
    let mut at: usize = 0;
    while at < v.len() && row_lt_exec(col, ord, &v[at], &x)
        invariant
            at <= v@.len(),
            v@ == old(v)@,
            forall|k: int| 0 <= k < at ==> row_lt(col, ord, #[trigger] v@[k], x),
        decreases v@.len() - at,
    {
        at += 1;
    }
    proof {
        lemma_insert_at(v@, x, at as int, col, ord);
    }
    v.insert(at, x);
}

/// Where the stable insertion puts the new row: the first index whose row is
/// not strictly below it.
spec fn insert_pos(s: Seq<Row>, x: Row, col: ColumnKind, ord: SortOrder) -> int
    decreases s.len(),
{
    if s.len() == 0 {
        0
    } else if row_lt(col, ord, s[0], x) {
        1 + insert_pos(s.drop_first(), x, col, ord)
    } else {
        0
    }
}

proof fn lemma_insert_pos_props(s: Seq<Row>, x: Row, col: ColumnKind, ord: SortOrder)
    ensures
        0 <= insert_pos(s, x, col, ord) <= s.len(),
        forall|k: int|
            0 <= k < insert_pos(s, x, col, ord) ==> row_lt(col, ord, #[trigger] s[k], x),
        insert_pos(s, x, col, ord) < s.len() ==> !row_lt(col, ord, s[insert_pos(s, x, col, ord)], x),
    decreases s.len(),
{
    if s.len() == 0 || !row_lt(col, ord, s[0], x) {
    } else {
        lemma_insert_pos_props(s.drop_first(), x, col, ord);
        assert forall|k: int| 0 <= k < insert_pos(s, x, col, ord) implies row_lt(
            col,
            ord,
            #[trigger] s[k],
            x,
        ) by {
            if k > 0 {
                assert(s[k] == s.drop_first()[k - 1]);
            }
        }
    }
}

/// Filtering a one-row sequence keeps or drops that row.
proof fn lemma_filter_singleton(x: Row, pred: spec_fn(Row) -> bool)
    ensures
        seq![x].filter(pred) == if pred(x) {
            seq![x]
        } else {
            Seq::<Row>::empty()
        },
{
    reveal_with_fuel(Seq::filter, 2);
    assert(seq![x].drop_last() =~= Seq::<Row>::empty());
    if pred(x) {
        assert(seq![x].filter(pred) =~= seq![x]);
    } else {
        assert(seq![x].filter(pred) =~= Seq::<Row>::empty());
    }
}

/// Filtering the empty sequence yields the empty sequence.
proof fn lemma_filter_empty(pred: spec_fn(Row) -> bool)
    ensures
        Seq::<Row>::empty().filter(pred) == Seq::<Row>::empty(),
{
    reveal(Seq::filter);
}

/// The stable insertion in explicit form: the sequence split at the insertion
/// point with the new row in between.
proof fn lemma_insert_form(s: Seq<Row>, x: Row, col: ColumnKind, ord: SortOrder)
    ensures
        insert_sorted(s, x, col, ord) == s.subrange(0, insert_pos(s, x, col, ord)) + seq![x]
            + s.subrange(insert_pos(s, x, col, ord), s.len() as int),
{
    lemma_insert_pos_props(s, x, col, ord);
    lemma_insert_at(s, x, insert_pos(s, x, col, ord), col, ord);
}

proof fn lemma_insert_keeps_sorted(s: Seq<Row>, x: Row, col: ColumnKind, ord: SortOrder)
    requires
        rows_sorted(s, col, ord),
    ensures
        rows_sorted(insert_sorted(s, x, col, ord), col, ord),
{
    lemma_insert_form(s, x, col, ord);
    lemma_insert_pos_props(s, x, col, ord);
    let p = insert_pos(s, x, col, ord);
    let ins = insert_sorted(s, x, col, ord);
    assert forall|i: int, j: int| 0 <= i < j < ins.len() implies sort_key(
        col,
        ord,
        #[trigger] ins[i],
    ) <= sort_key(col, ord, #[trigger] ins[j]) by {
        assert(i < p ==> ins[i] == s[i]);
        assert(i == p ==> ins[i] == x);
        assert(i > p ==> ins[i] == s[i - 1]);
        assert(j < p ==> ins[j] == s[j]);
        assert(j == p ==> ins[j] == x);
        assert(j > p ==> ins[j] == s[j - 1]);
        if i < p && j == p {
            assert(row_lt(col, ord, s[i], x));
        } else if i == p && j > p {
            assert(!row_lt(col, ord, s[p], x));
            assert(sort_key(col, ord, s[p]) <= sort_key(col, ord, s[j - 1]));
        } else if i < p && j > p {
            assert(sort_key(col, ord, s[i]) <= sort_key(col, ord, s[j - 1]));
        }
    }
}

pub broadcast proof fn lemma_sort_rows_sorted(s: Seq<Row>, col: ColumnKind, ord: SortOrder)
    ensures
        rows_sorted(#[trigger] sort_rows_spec(s, col, ord), col, ord),
    decreases s.len(),
{
    if s.len() > 0 {
        lemma_sort_rows_sorted(s.drop_first(), col, ord);
        lemma_insert_keeps_sorted(sort_rows_spec(s.drop_first(), col, ord), s[0], col, ord);
    }
}

proof fn lemma_insert_multiset(s: Seq<Row>, x: Row, col: ColumnKind, ord: SortOrder)
    ensures
        insert_sorted(s, x, col, ord).to_multiset() == s.to_multiset().insert(x),
{
    broadcast use vstd::seq_lib::to_multiset_insert;

    lemma_insert_form(s, x, col, ord);
    lemma_insert_pos_props(s, x, col, ord);
    let p = insert_pos(s, x, col, ord);
    assert(insert_sorted(s, x, col, ord) =~= s.insert(p, x));
}

/// The sort rearranges the rows and loses or invents none: the multiset of
/// rows is unchanged.
pub broadcast proof fn lemma_sort_rows_permutes(s: Seq<Row>, col: ColumnKind, ord: SortOrder)
    ensures
        #[trigger] sort_rows_spec(s, col, ord).to_multiset() == s.to_multiset(),
    decreases s.len(),
{
    broadcast use vstd::seq_lib::group_to_multiset_ensures;

    if s.len() > 0 {
        lemma_sort_rows_permutes(s.drop_first(), col, ord);
        lemma_insert_multiset(sort_rows_spec(s.drop_first(), col, ord), s[0], col, ord);
        assert(s =~= seq![s[0]] + s.drop_first());
        assert(seq![s[0]] + s.drop_first() =~= s.drop_first().insert(0, s[0]));
    }
}

/// The rows of one key class of a column, in their current order.
pub open spec fn class_rows(s: Seq<Row>, col: ColumnKind, k: int) -> Seq<Row> {
    s.filter(|r: Row| column_key(col, r) == k)
}

/// Every row a filter keeps was in the original sequence.
proof fn lemma_filter_members(s: Seq<Row>, pred: spec_fn(Row) -> bool)
    ensures
        forall|i: int| 0 <= i < s.filter(pred).len() ==> s.contains(#[trigger] s.filter(pred)[i]),
    decreases s.len(),
{
    reveal(Seq::filter);
    if s.len() > 0 {
        lemma_filter_members(s.drop_last(), pred);
        assert forall|i: int| 0 <= i < s.filter(pred).len() implies s.contains(
            #[trigger] s.filter(pred)[i],
        ) by {
            if i < s.drop_last().filter(pred).len() {
                assert(s.drop_last().contains(s.drop_last().filter(pred)[i]));
                let at = choose|at: int|
                    0 <= at < s.drop_last().len() && s.drop_last()[at] == s.drop_last().filter(
                        pred,
                    )[i];
                assert(s[at] == s.filter(pred)[i]);
            } else {
                assert(s.filter(pred)[i] == s.last());
            }
        }
    }
}

/// A class decomposes over the first row: the head joins its own class and
/// every class continues in the tail.
proof fn lemma_class_decompose(s: Seq<Row>, col: ColumnKind, k: int)
    requires
        s.len() > 0,
    ensures
        class_rows(s, col, k) == if column_key(col, s[0]) == k {
            seq![s[0]] + class_rows(s.drop_first(), col, k)
        } else {
            class_rows(s.drop_first(), col, k)
        },
{
    broadcast use vstd::prelude::Seq::filter_distributes_over_add;

    let pred = |r: Row| column_key(col, r) == k;
    assert(s =~= seq![s[0]] + s.drop_first());
    lemma_filter_singleton(s[0], pred);
    if pred(s[0]) {
        assert(class_rows(s, col, k) =~= seq![s[0]] + class_rows(s.drop_first(), col, k));
    } else {
        assert(class_rows(s, col, k) =~= class_rows(s.drop_first(), col, k));
    }
}

/// Stable insertion changes only the class of the inserted row, and puts the
/// row at that class's front.
proof fn lemma_insert_class(s: Seq<Row>, x: Row, col: ColumnKind, ord: SortOrder, k: int)
    ensures
        class_rows(insert_sorted(s, x, col, ord), col, k) == if column_key(col, x) == k {
            seq![x] + class_rows(s, col, k)
        } else {
            class_rows(s, col, k)
        },
    decreases s.len(),
{
    let pred = |r: Row| column_key(col, r) == k;
    if s.len() == 0 {
        assert(insert_sorted(s, x, col, ord) =~= seq![x]);
        lemma_filter_singleton(x, pred);
        lemma_filter_empty(pred);
        assert(s =~= Seq::<Row>::empty());
        if pred(x) {
            assert(class_rows(insert_sorted(s, x, col, ord), col, k) =~= seq![x] + class_rows(
                s,
                col,
                k,
            ));
        }
    } else if row_lt(col, ord, s[0], x) {
        lemma_insert_class(s.drop_first(), x, col, ord, k);
        lemma_class_decompose(s, col, k);
        let ins = insert_sorted(s, x, col, ord);
        assert(ins == seq![s[0]] + insert_sorted(s.drop_first(), x, col, ord));
        assert(ins.len() > 0 && ins[0] == s[0]);
        assert(ins.drop_first() =~= insert_sorted(s.drop_first(), x, col, ord));
        lemma_class_decompose(ins, col, k);
        if column_key(col, x) == k {
            // The head is strictly below x, so it cannot share x's class.
            assert(sort_key(col, ord, s[0]) < sort_key(col, ord, x));
            assert(column_key(col, s[0]) != k);
            assert(class_rows(ins, col, k) =~= seq![x] + class_rows(s, col, k));
        } else {
            if pred(s[0]) {
                assert(class_rows(ins, col, k) =~= class_rows(s, col, k));
            }
        }
    } else {
        let ins = insert_sorted(s, x, col, ord);
        assert(ins == seq![x] + s);
        assert(ins.len() > 0 && ins[0] == x);
        assert(ins.drop_first() =~= s);
        lemma_class_decompose(ins, col, k);
    }
}

/// The sort keeps every key class of its column in the original order: it is
/// stable.
pub broadcast proof fn lemma_sort_rows_stable(s: Seq<Row>, col: ColumnKind, ord: SortOrder, k: int)
    ensures
        #[trigger] class_rows(sort_rows_spec(s, col, ord), col, k) == class_rows(s, col, k),
    decreases s.len(),
{
    if s.len() > 0 {
        lemma_sort_rows_stable(s.drop_first(), col, ord, k);
        lemma_insert_class(sort_rows_spec(s.drop_first(), col, ord), s[0], col, ord, k);
        lemma_class_decompose(s, col, k);
    }
}

/// Two sequences sorted the same way whose key classes agree are equal.
proof fn lemma_stable_sorted_unique(s1: Seq<Row>, s2: Seq<Row>, col: ColumnKind, ord: SortOrder)
    requires
        rows_sorted(s1, col, ord),
        rows_sorted(s2, col, ord),
        forall|k: int| #[trigger] class_rows(s1, col, k) == class_rows(s2, col, k),
    ensures
        s1 == s2,
    decreases s1.len(),
{
    if s1.len() == 0 && s2.len() == 0 {
        assert(s1 =~= s2);
    } else if s1.len() == 0 {
        let k0 = column_key(col, s2[0]);
        lemma_class_decompose(s2, col, k0);
        assert(s1 =~= Seq::<Row>::empty());
        lemma_filter_empty(|r: Row| column_key(col, r) == k0);
        assert(class_rows(s1, col, k0).len() == 0);
        assert(false);
    } else if s2.len() == 0 {
        let k0 = column_key(col, s1[0]);
        lemma_class_decompose(s1, col, k0);
        assert(s2 =~= Seq::<Row>::empty());
        lemma_filter_empty(|r: Row| column_key(col, r) == k0);
        assert(class_rows(s2, col, k0).len() == 0);
        assert(false);
    } else {
        let k1 = column_key(col, s1[0]);
        let k2 = column_key(col, s2[0]);
        lemma_class_decompose(s1, col, k1);
        lemma_class_decompose(s2, col, k2);
        // s2 holds a row of s1's head class, so s2's head key is not above it;
        // and symmetrically.  Hence the head keys agree.
        let e1 = class_rows(s2, col, k1)[0];
        assert(class_rows(s2, col, k1).len() > 0);
        lemma_filter_members(s2, |r: Row| column_key(col, r) == k1);
        vstd::prelude::Seq::lemma_filter_pred(s2, |r: Row| column_key(col, r) == k1, 0);
        assert(s2.contains(e1));
        let at1 = choose|at: int| 0 <= at < s2.len() && s2[at] == e1;
        assert(sort_key(col, ord, s2[0]) <= sort_key(col, ord, e1));
        let e2 = class_rows(s1, col, k2)[0];
        assert(class_rows(s1, col, k2).len() > 0);
        lemma_filter_members(s1, |r: Row| column_key(col, r) == k2);
        vstd::prelude::Seq::lemma_filter_pred(s1, |r: Row| column_key(col, r) == k2, 0);
        assert(s1.contains(e2));
        let at2 = choose|at: int| 0 <= at < s1.len() && s1[at] == e2;
        assert(sort_key(col, ord, s1[0]) <= sort_key(col, ord, e2));
        assert(sort_key(col, ord, s1[0]) == sort_key(col, ord, s2[0]));
        assert(k1 == k2);
        assert(s1[0] == class_rows(s1, col, k1)[0]);
        assert(s2[0] == class_rows(s2, col, k1)[0]);
        assert(s1[0] == s2[0]);
        let t1 = s1.drop_first();
        let t2 = s2.drop_first();
        assert forall|i: int, j: int| 0 <= i < j < t1.len() implies sort_key(
            col,
            ord,
            #[trigger] t1[i],
        ) <= sort_key(col, ord, #[trigger] t1[j]) by {
            assert(t1[i] == s1[i + 1] && t1[j] == s1[j + 1]);
        }
        assert forall|i: int, j: int| 0 <= i < j < t2.len() implies sort_key(
            col,
            ord,
            #[trigger] t2[i],
        ) <= sort_key(col, ord, #[trigger] t2[j]) by {
            assert(t2[i] == s2[i + 1] && t2[j] == s2[j + 1]);
        }
        assert forall|k: int| #[trigger] class_rows(t1, col, k) == class_rows(t2, col, k) by {
            lemma_class_decompose(s1, col, k);
            lemma_class_decompose(s2, col, k);
            if k == k1 {
                assert(seq![s1[0]] + class_rows(t1, col, k) == seq![s2[0]] + class_rows(
                    t2,
                    col,
                    k,
                ));
                assert(class_rows(t1, col, k) =~= (seq![s1[0]] + class_rows(
                    t1,
                    col,
                    k,
                )).drop_first());
                assert(class_rows(t2, col, k) =~= (seq![s2[0]] + class_rows(
                    t2,
                    col,
                    k,
                )).drop_first());
            }
        }
        lemma_stable_sorted_unique(t1, t2, col, ord);
        assert(s1.len() == s2.len());
        assert forall|i: int| 0 <= i < s1.len() implies s1[i] == s2[i] by {
            if i > 0 {
                assert(s1[i] == t1[i - 1]);
                assert(s2[i] == t2[i - 1]);
            }
        }
        assert(s1 =~= s2);
    }
}

/// Law: narrowing a sorted row sequence keeps it sorted.  This is why the
/// pipeline sorts before filtering: the relative order inside any filtered
/// subset matches the full ordering.
pub proof fn lemma_filter_keeps_sorted(
    s: Seq<Row>,
    pred: spec_fn(Row) -> bool,
    col: ColumnKind,
    ord: SortOrder,
)
    requires
        rows_sorted(s, col, ord),
    ensures
        rows_sorted(s.filter(pred), col, ord),
    decreases s.len(),
{
    reveal(Seq::filter);
    if s.len() > 0 {
        let front = s.drop_last();
        assert forall|i: int, j: int| 0 <= i < j < front.len() implies sort_key(
            col,
            ord,
            #[trigger] front[i],
        ) <= sort_key(col, ord, #[trigger] front[j]) by {
            assert(front[i] == s[i] && front[j] == s[j]);
        }
        lemma_filter_keeps_sorted(front, pred, col, ord);
        if pred(s.last()) {
            let kept = front.filter(pred);
            lemma_filter_members(front, pred);
            assert forall|i: int, j: int| 0 <= i < j < kept.push(s.last()).len() implies sort_key(
                col,
                ord,
                #[trigger] kept.push(s.last())[i],
            ) <= sort_key(col, ord, #[trigger] kept.push(s.last())[j]) by {
                if j == kept.len() {
                    assert(front.contains(kept[i]));
                    let at = choose|at: int| 0 <= at < front.len() && front[at] == kept[i];
                    assert(sort_key(col, ord, s[at]) <= sort_key(col, ord, s.last()));
                }
            }
        }
    }
}

/// Law: for any column, sorting ascending, then descending, then ascending
/// again restores exactly the first ascending order.  The two later sorts are
/// stable, so they keep each key class in the order the first sort left it.
pub proof fn lemma_sort_direction_round_trip(rows: Seq<Row>, col: ColumnKind)
    ensures
        sort_by_column_spec(
            sort_by_column_spec(
                sort_by_column_spec(rows, col, SortOrder::Ascending),
                col,
                SortOrder::Descending,
            ),
            col,
            SortOrder::Ascending,
        ) == sort_by_column_spec(rows, col, SortOrder::Ascending),
{
    if is_sortable(col) {
        let first = sort_rows_spec(rows, col, SortOrder::Ascending);
        let flipped = sort_rows_spec(first, col, SortOrder::Descending);
        let again = sort_rows_spec(flipped, col, SortOrder::Ascending);
        lemma_sort_rows_sorted(rows, col, SortOrder::Ascending);
        lemma_sort_rows_sorted(flipped, col, SortOrder::Ascending);
        assert forall|k: int| #[trigger] class_rows(again, col, k) == class_rows(
            first,
            col,
            k,
        ) by {
            lemma_sort_rows_stable(flipped, col, SortOrder::Ascending, k);
            lemma_sort_rows_stable(first, col, SortOrder::Descending, k);
        }
        lemma_stable_sorted_unique(again, first, col, SortOrder::Ascending);
    }
}

impl KillaData {
    /// Reorder the rows by the given column and direction.  A sortable column
    /// (memory, CPU, pid) yields the stable sort by its key; any other column
    /// is a no-op.  The memory totals are untouched.
    pub fn sort_by_column(&mut self, col: ColumnKind, order: SortOrder)
        ensures
            final(self).rows@ == sort_by_column_spec(old(self).rows@, col, order),
            final(self).memory == old(self).memory,
    {
        let sortable = match col {
            ColumnKind::Memory => true,
            ColumnKind::Cpu => true,
            ColumnKind::Pid => true,
            _ => false,
        };
        if !sortable {
            return ;
        }
        let mut out: Vec<Row> = Vec::new();
        let n = self.rows.len();
        let mut i: usize = n;
        proof {
            assert(self.rows@.subrange(n as int, n as int) =~= Seq::<Row>::empty());
        }
        while i > 0
            invariant
                i <= n,
                n == self.rows@.len(),
                is_sortable(col),
                out@ == sort_rows_spec(self.rows@.subrange(i as int, n as int), col, order),
            decreases i,
        {
            i -= 1;
            let ghost tail = self.rows@.subrange(i as int, n as int);
            proof {
                assert(tail.drop_first() =~= self.rows@.subrange(i + 1, n as int));
                assert(tail[0] == self.rows@[i as int]);
            }
            insert_row(&mut out, self.rows[i].clone(), col, order);
        }
        proof {
            assert(self.rows@.subrange(0, n as int) =~= self.rows@);
        }
        self.rows = out;
    }
}

} // verus!
