//! The searchable process table: the snapshot aggregate (`KillaData`), the
//! search query language and its evaluation.
//!
//! The search string is split on whitespace; every token narrows the row set
//! (logical AND).  A token is `[-][column:]phrase`: a leading `-` negates it,
//! the optional column prefix targets one field, and the phrase is matched
//! case-insensitively.  A token whose column prefix is unknown never matches
//! (it fails closed), and a token with an empty phrase always matches.

use vstd::prelude::*;

use crate::row::MemHarvest;
use crate::row::Row;
use crate::text::contains_str;
use crate::text::contains_sub;
use crate::text::first_colon;
use crate::text::lemma_first_colon_exact;
use crate::text::lower_of;
use crate::text::pid_digits;
use crate::text::pid_to_digits;
use crate::text::split_words;
use crate::text::split_ws;
use crate::text::str_eq;
use crate::text::str_eq_chars;
use crate::text::to_lowercase;

verus! {

/// The column a search token targets.
#[derive(Clone, Copy, Debug, PartialEq, Eq, Structural)]
pub enum SearchFilterColumn {
    Any,
    Name,
    Pid,
    Command,
}

/// A column prefix that names no known column.  The token is kept (folded to
/// lowercase) so the presentation layer can show a syntax hint.
#[derive(Debug)]
pub struct UnknownColumnError {
    pub token: String,
}

/// One parsed search token: negation flag, target column (which may have
/// failed to parse) and the case-folded phrase.  An empty phrase is legal but
/// makes the token vacuous.
#[derive(Debug)]
pub struct SearchFilter {
    pub is_negative: bool,
    pub column: Result<SearchFilterColumn, UnknownColumnError>,
    pub phrase: String,
}

/// The mathematical shape of one parsed token.
pub struct SearchFilterSpec {
    pub is_negative: bool,
    pub column: Result<SearchFilterColumn, Seq<char>>,
    pub phrase: Seq<char>,
}

impl View for SearchFilter {
    type V = SearchFilterSpec;

    open spec fn view(&self) -> SearchFilterSpec {
        SearchFilterSpec {
            is_negative: self.is_negative,
            column: match self.column {
                Ok(c) => Ok(c),
                Err(ref e) => Err(e.token@),
            },
            phrase: self.phrase@,
        }
    }
}

impl Default for SearchFilter {
    /// A vacuous token: not negated, targeting any column, empty phrase.
    fn default() -> (r: Self)
        ensures
            !r@.is_negative,
            r@.column == Ok::<SearchFilterColumn, Seq<char>>(SearchFilterColumn::Any),
            r@.phrase.len() == 0,
    {
        SearchFilter {
            is_negative: false,
            column: Ok(SearchFilterColumn::Any),
            phrase: String::new(),
        }
    }
}

/// What parsing a column prefix yields: the column named by the case-folded
/// token, or the folded token itself when it names none.
pub open spec fn column_of_token(t: Seq<char>) -> Result<SearchFilterColumn, Seq<char>> {
    let folded = lower_of(t);
    if folded == "any"@ || folded == "*"@ {
        Ok(SearchFilterColumn::Any)
    } else if folded == "name"@ {
        Ok(SearchFilterColumn::Name)
    } else if folded == "pid"@ || folded == "id"@ {
        Ok(SearchFilterColumn::Pid)
    } else if folded == "cmd"@ || folded == "command"@ {
        Ok(SearchFilterColumn::Command)
    } else {
        Err(folded)
    }
}

impl SearchFilterColumn {
    /// Parse a column prefix, case-insensitively.
    pub fn try_from(value: &str) -> (r: Result<SearchFilterColumn, UnknownColumnError>)
        ensures
            (match r {
                Ok(c) => column_of_token(value@) == Ok::<SearchFilterColumn, Seq<char>>(c),
                Err(e) => column_of_token(value@) == Err::<SearchFilterColumn, Seq<char>>(
                    e.token@,
                ),
            }),
    {
        let folded = to_lowercase(value);
        let f = folded.as_str();
        if str_eq(f, "any") || str_eq(f, "*") {
            Ok(SearchFilterColumn::Any)
        } else if str_eq(f, "name") {
            Ok(SearchFilterColumn::Name)
        } else if str_eq(f, "pid") || str_eq(f, "id") {
            Ok(SearchFilterColumn::Pid)
        } else if str_eq(f, "cmd") || str_eq(f, "command") {
            Ok(SearchFilterColumn::Command)
        } else {
            Err(UnknownColumnError { token: folded })
        }
    }
}

/// What parsing one whitespace-free token yields.
pub open spec fn parse_token(w: Seq<char>) -> SearchFilterSpec {
    let neg = w.len() > 0 && w[0] == '-';
    let rest = if neg {
        w.drop_first()
    } else {
        w
    };
    if first_colon(rest) < rest.len() {
        let i = first_colon(rest);
        SearchFilterSpec {
            is_negative: neg,
            column: column_of_token(rest.subrange(0, i)),
            phrase: lower_of(rest.subrange(i + 1, rest.len() as int)),
        }
    } else {
        SearchFilterSpec {
            is_negative: neg,
            column: Ok(SearchFilterColumn::Any),
            phrase: lower_of(rest),
        }
    }
}

/// What parsing a whole search string yields: one parsed token per word.
pub open spec fn parse_query(s: Seq<char>) -> Seq<SearchFilterSpec> {
    split_words(s).map_values(|w: Seq<char>| parse_token(w))
}

/// Parse one token.
fn parse_one(w: &str) -> (f: SearchFilter)
    ensures
        f@ == parse_token(w@),
{
    let len = w.unicode_len();
    let neg = len > 0 && w.get_char(0) == '-';
    let rest: &str = if neg {
        w.substring_char(1, len)
    } else {
        w
    };
    let rlen = rest.unicode_len();
    let mut i: usize = 0;
    while i < rlen && rest.get_char(i) != ':'
        invariant
            i <= rlen,
            rlen == rest@.len(),
            forall|j: int| 0 <= j < i ==> rest@[j] != ':',
        decreases rlen - i,
    {
        i += 1;
    }
    proof {
        lemma_first_colon_exact(rest@, i as int);
    }
    if i < rlen {
        let col_tok = rest.substring_char(0, i);
        let phr = rest.substring_char(i + 1, rlen);
        let column = SearchFilterColumn::try_from(col_tok);
        let phrase = to_lowercase(phr);
        SearchFilter { is_negative: neg, column, phrase }
    } else {
        let phrase = to_lowercase(rest);
        SearchFilter { is_negative: neg, column: Ok(SearchFilterColumn::Any), phrase }
    }
}

/// A parsed search query: the conjunction of its tokens.
#[derive(Debug)]
pub struct SearchFilters(pub Vec<SearchFilter>);

impl SearchFilters {
    /// The parsed tokens, as mathematical values.
    pub open spec fn view_filters(&self) -> Seq<SearchFilterSpec> {
        self.0@.map_values(|f: SearchFilter| f@)
    }

    /// Parse a search string.  Parsing never rejects the input outright:
    /// an unknown column prefix is recorded in the token and fails closed
    /// at evaluation.
    pub fn best_effort_parse_from_string(search_phrase: &str) -> (r: Self)
        ensures
            r.view_filters() == parse_query(search_phrase@),
    {
        let ghost ws = split_words(search_phrase@);
        let words = split_ws(search_phrase);
        let mut out: Vec<SearchFilter> = Vec::new();
        let mut i: usize = 0;
        proof {
            assert(words@.len() == ws.len());
        }
        while i < words.len()
            invariant
                i <= words@.len(),
                out@.len() == i,
                ws == split_words(search_phrase@),
                words@.map_values(|t: String| t@) == ws,
                words@.len() == ws.len(),
                forall|j: int| 0 <= j < i ==> (#[trigger] out@[j])@ == parse_token(ws[j]),
            decreases words@.len() - i,
        {
            proof {
                assert(words@.map_values(|t: String| t@)[i as int] == words@[i as int]@);
            }
            let f = parse_one(words[i].as_str());
            out.push(f);
            i += 1;
        }
        let r = SearchFilters(out);
        proof {
            assert forall|j: int| 0 <= j < ws.len() implies r.view_filters()[j] == parse_query(
                search_phrase@,
            )[j] by {
                assert(r.view_filters()[j] == r.0@[j]@);
                assert(parse_query(search_phrase@)[j] == parse_token(ws[j]));
            }
            assert(r.view_filters() =~= parse_query(search_phrase@));
        }
        r
    }
}

/// Does the row hit the token's column with the token's phrase, before
/// negation is applied?
pub open spec fn column_hit(col: SearchFilterColumn, phrase: Seq<char>, row: Row) -> bool {
    match col {
        SearchFilterColumn::Any => contains_sub(row.program_name_lowercase@, phrase)
            || contains_sub(row.command_lowercase@, phrase) || pid_digits(row.pid as int)
            == phrase,
        SearchFilterColumn::Name => contains_sub(row.program_name_lowercase@, phrase),
        SearchFilterColumn::Pid => pid_digits(row.pid as int) == phrase,
        SearchFilterColumn::Command => contains_sub(row.command_lowercase@, phrase),
    }
}

/// Does the row satisfy one token?  An empty phrase is vacuously true; an
/// unknown column fails closed (negation does not apply to it).
pub open spec fn filter_matches_row(f: SearchFilterSpec, row: Row) -> bool {
    if f.phrase.len() == 0 {
        true
    } else {
        match f.column {
            Ok(col) => column_hit(col, f.phrase, row) != f.is_negative,
            Err(_) => false,
        }
    }
}

/// Does the row satisfy every token of the query?
pub open spec fn query_matches_row(q: Seq<SearchFilterSpec>, row: Row) -> bool {
    forall|i: int| 0 <= i < q.len() ==> filter_matches_row(#[trigger] q[i], row)
}

/// Evaluate one token against one row.
fn matches_filter(f: &SearchFilter, row: &Row) -> (r: bool)
    ensures
        r == filter_matches_row(f@, *row),
{
    if f.phrase.as_str().is_empty() {
        return true;
    }
    match &f.column {
        Err(_) => false,
        Ok(col) => {
            let hit = match col {
                SearchFilterColumn::Any => {
                    if contains_str(row.program_name_lowercase.as_str(), f.phrase.as_str()) {
                        true
                    } else if contains_str(row.command_lowercase.as_str(), f.phrase.as_str()) {
                        true
                    } else {
                        let digits = pid_to_digits(row.pid);
                        str_eq_chars(f.phrase.as_str(), &digits)
                    }
                },
                SearchFilterColumn::Name => contains_str(
                    row.program_name_lowercase.as_str(),
                    f.phrase.as_str(),
                ),
                SearchFilterColumn::Pid => {
                    let digits = pid_to_digits(row.pid);
                    str_eq_chars(f.phrase.as_str(), &digits)
                },
                SearchFilterColumn::Command => contains_str(
                    row.command_lowercase.as_str(),
                    f.phrase.as_str(),
                ),
            };
            hit != f.is_negative
        },
    }
}

/// Evaluate a whole query against one row: every token must hold.
pub fn matches_query(filters: &SearchFilters, row: &Row) -> (r: bool)
    ensures
        r == query_matches_row(filters.view_filters(), *row),
{
    let n = filters.0.len();
    let mut i: usize = 0;
    while i < n
        invariant
            i <= n,
            n == filters.0@.len(),
            forall|j: int|
                0 <= j < i ==> filter_matches_row(#[trigger] filters.view_filters()[j], *row),
        decreases n - i,
    {
        if !matches_filter(&filters.0[i], row) {
            assert(!filter_matches_row(filters.view_filters()[i as int], *row));
            return false;
        }
        i += 1;
    }
    true
}

/// A filter keeping every row keeps the sequence as it is.
proof fn lemma_filter_all(s: Seq<Row>, pred: spec_fn(Row) -> bool)
    requires
        forall|i: int| 0 <= i < s.len() ==> pred(#[trigger] s[i]),
    ensures
        s.filter(pred) == s,
    decreases s.len(),
{
    reveal(Seq::filter);
    if s.len() > 0 {
        lemma_filter_all(s.drop_last(), pred);
        assert(s.filter(pred) =~= s.drop_last().push(s.last()));
        assert(s.drop_last().push(s.last()) =~= s);
    } else {
        assert(s.filter(pred) =~= s);
    }
}

/// A filter keeping no row empties the sequence.
proof fn lemma_filter_none(s: Seq<Row>, pred: spec_fn(Row) -> bool)
    requires
        forall|i: int| 0 <= i < s.len() ==> !pred(#[trigger] s[i]),
    ensures
        s.filter(pred) == Seq::<Row>::empty(),
    decreases s.len(),
{
    reveal(Seq::filter);
    if s.len() > 0 {
        lemma_filter_none(s.drop_last(), pred);
    }
}

/// Law: a query whose tokens all carry an empty phrase keeps the row set
/// unchanged, whatever columns and negations the tokens name.
pub proof fn lemma_empty_phrases_keep_all(q: Seq<SearchFilterSpec>, rows: Seq<Row>)
    requires
        forall|i: int| 0 <= i < q.len() ==> (#[trigger] q[i]).phrase.len() == 0,
    ensures
        rows.filter(|row: Row| query_matches_row(q, row)) == rows,
{
    assert forall|i: int| 0 <= i < rows.len() implies query_matches_row(
        q,
        #[trigger] rows[i],
    ) by {
        assert forall|j: int| 0 <= j < q.len() implies filter_matches_row(
            #[trigger] q[j],
            rows[i],
        ) by {
            assert(q[j].phrase.len() == 0);
        }
    }
    lemma_filter_all(rows, |row: Row| query_matches_row(q, row));
}

/// Law: a token with an unknown column and a non-empty phrase fails closed:
/// any query containing it matches no row at all.  (With an empty phrase the
/// token is vacuous and matches everything, so that case is excluded.)
pub proof fn lemma_unknown_column_matches_nothing(
    q: Seq<SearchFilterSpec>,
    rows: Seq<Row>,
    at: int,
)
    requires
        0 <= at < q.len(),
        q[at].column is Err,
        q[at].phrase.len() > 0,
    ensures
        rows.filter(|row: Row| query_matches_row(q, row)) == Seq::<Row>::empty(),
{
    assert forall|i: int| 0 <= i < rows.len() implies !query_matches_row(
        q,
        #[trigger] rows[i],
    ) by {
        assert(!filter_matches_row(q[at], rows[i]));
    }
    lemma_filter_none(rows, |row: Row| query_matches_row(q, row));
}

/// The same token with the negation flag flipped.
pub open spec fn negated(f: SearchFilterSpec) -> SearchFilterSpec {
    SearchFilterSpec { is_negative: !f.is_negative, column: f.column, phrase: f.phrase }
}

/// Two complementary predicates split a sequence into the original multiset.
proof fn lemma_complementary_filters(
    s: Seq<Row>,
    kept: spec_fn(Row) -> bool,
    dropped: spec_fn(Row) -> bool,
)
    requires
        forall|r: Row| #[trigger] kept(r) == !dropped(r),
    ensures
        s.filter(kept).to_multiset().add(s.filter(dropped).to_multiset()) == s.to_multiset(),
    decreases s.len(),
{
    broadcast use vstd::seq_lib::group_to_multiset_ensures;

    reveal(Seq::filter);
    if s.len() == 0 {
        assert(s.filter(kept).to_multiset().add(s.filter(dropped).to_multiset())
            =~= s.to_multiset());
    } else {
        lemma_complementary_filters(s.drop_last(), kept, dropped);
        let front = s.drop_last();
        assert(front.push(s.last()) =~= s);
        if kept(s.last()) {
            assert(s.filter(kept) == front.filter(kept).push(s.last()));
            assert(s.filter(kept).to_multiset() =~= front.filter(kept).to_multiset().insert(
                s.last(),
            ));
            assert(s.filter(kept).to_multiset().add(s.filter(dropped).to_multiset())
                =~= s.to_multiset());
        } else {
            assert(s.filter(dropped) == front.filter(dropped).push(s.last()));
            assert(s.filter(dropped).to_multiset() =~= front.filter(dropped).to_multiset().insert(
                s.last(),
            ));
            assert(s.filter(kept).to_multiset().add(s.filter(dropped).to_multiset())
                =~= s.to_multiset());
        }
    }
}

/// Law: a single-token query with a known column and a non-empty phrase, and
/// the same query negated, split the row set in two: no row satisfies both,
/// and together (as multisets) they are exactly the original rows.
pub proof fn lemma_negation_partitions(f: SearchFilterSpec, rows: Seq<Row>)
    requires
        f.phrase.len() > 0,
        f.column is Ok,
    ensures
        forall|row: Row|
            !(#[trigger] query_matches_row(seq![f], row) && query_matches_row(
                seq![negated(f)],
                row,
            )),
        rows.filter(|row: Row| query_matches_row(seq![f], row)).to_multiset().add(
            rows.filter(|row: Row| query_matches_row(seq![negated(f)], row)).to_multiset(),
        ) == rows.to_multiset(),
{
    assert forall|row: Row| #[trigger]
        query_matches_row(seq![f], row) == !query_matches_row(seq![negated(f)], row) by {
        assert(seq![f][0] == f);
        assert(seq![negated(f)][0] == negated(f));
        assert(query_matches_row(seq![f], row) == filter_matches_row(f, row));
        assert(query_matches_row(seq![negated(f)], row) == filter_matches_row(
            negated(f),
            row,
        ));
    }
    lemma_complementary_filters(
        rows,
        |row: Row| query_matches_row(seq![f], row),
        |row: Row| query_matches_row(seq![negated(f)], row),
    );
}

/// The snapshot aggregate: the full collected state at one point in time.
#[derive(Debug)]
pub struct KillaData {
    pub rows: Vec<Row>,
    pub memory: MemHarvest,
}

/// The mathematical shape of a snapshot: its row sequence and memory totals.
pub struct SnapshotModel {
    pub rows: Seq<Row>,
    pub memory: MemHarvest,
}

impl View for KillaData {
    type V = SnapshotModel;

    open spec fn view(&self) -> SnapshotModel {
        SnapshotModel { rows: self.rows@, memory: self.memory }
    }
}

impl Clone for KillaData {
    /// A deep copy: same rows, same memory totals.
    fn clone(&self) -> (r: Self)
        ensures
            r.rows@ == self.rows@,
            r.memory == self.memory,
    {
        let mut rows: Vec<Row> = Vec::new();
        let mut i: usize = 0;
        while i < self.rows.len()
            invariant
                i <= self.rows@.len(),
                rows@ == self.rows@.subrange(0, i as int),
            decreases self.rows@.len() - i,
        {
            rows.push(self.rows[i].clone());
            proof {
                assert(rows@ =~= self.rows@.subrange(0, i + 1));
            }
            i += 1;
        }
        proof {
            assert(self.rows@.subrange(0, self.rows@.len() as int) =~= self.rows@);
        }
        KillaData { rows, memory: self.memory }
    }
}

impl Default for KillaData {
    /// No rows, empty memory totals.
    fn default() -> (r: Self)
        ensures
            r.rows@.len() == 0,
            r.memory == (MemHarvest { used_bytes: 0, total_bytes: 0 }),
    {
        KillaData { rows: Vec::new(), memory: MemHarvest { used_bytes: 0, total_bytes: 0 } }
    }
}

impl KillaData {
    /// Narrow the row set to the rows matching the search string: a row is
    /// kept exactly when it satisfies every token of the parsed query.
    /// Relative order and the memory totals are untouched.
    pub fn search(self, search_phrase: &str) -> (r: Self)
        ensures
            r.rows@ == self.rows@.filter(
                |row: Row| query_matches_row(parse_query(search_phrase@), row),
            ),
            r.memory == self.memory,
    {
        let ghost pred = |row: Row| query_matches_row(parse_query(search_phrase@), row);
        let filters = SearchFilters::best_effort_parse_from_string(search_phrase);
        let mut kept: Vec<Row> = Vec::new();
        let mut i: usize = 0;
        proof {
            reveal(Seq::filter);
            assert(kept@ =~= self.rows@.subrange(0, 0).filter(pred));
        }
        while i < self.rows.len()
            invariant
                i <= self.rows@.len(),
                filters.view_filters() == parse_query(search_phrase@),
                kept@ == self.rows@.subrange(0, i as int).filter(pred),
                pred == (|row: Row| query_matches_row(parse_query(search_phrase@), row)),
            decreases self.rows@.len() - i,
        {
            let keep = matches_query(&filters, &self.rows[i]);
            proof {
                reveal(Seq::filter);
                let prefix = self.rows@.subrange(0, i as int);
                let next = self.rows@.subrange(0, i + 1);
                assert(next.drop_last() =~= prefix);
                assert(next.last() == self.rows@[i as int]);
            }
            if keep {
                kept.push(self.rows[i].clone());
            }
            i += 1;
        }
        proof {
            assert(self.rows@.subrange(0, self.rows@.len() as int) =~= self.rows@);
        }
        KillaData { rows: kept, memory: self.memory }
    }

    /// Hand the rows out, in their current order.
    pub fn into_rows(self) -> (r: Vec<Row>)
        ensures
            r@ == self.rows@,
    {
        self.rows
    }
}

} // verus!
