use vstd::prelude::*;
use vstd::string::*;

use crate::text::{split_words, words};

verus! {

pub const GENRE_COLUMN: &'static str = "genre";
pub const TITLE_COLUMN: &'static str = "title";
pub const CAST_COLUMN: &'static str = "cast";
pub const LANGUAGE_COLUMN: &'static str = "language";
pub const COUNTRY_COLUMN: &'static str = "country";
pub const DIRECTOR_COLUMN: &'static str = "director";
pub const PLOT_COLUMN: &'static str = "plot";

pub const QUERY_HEAD: &'static str = "SELECT * FROM nf_imdb WHERE";
pub const QUERY_TAIL: &'static str = "last_sync IS NOT NULL ORDER BY imdb_rating DESC;";

/// One term of a filter: a text that a column must, or must not, hold.
#[derive(Debug, Clone)]
pub enum QueryTerm {
    And(String),
    Not(String),
}

impl QueryTerm {
    /// Whether the term is negated, and its text.
    pub open spec fn spec_view(&self) -> (bool, Seq<char>) {
        match self {
            QueryTerm::And(s) => (false, s@),
            QueryTerm::Not(s) => (true, s@),
        }
    }
}

/// The term that a word of a filter stands for: a word that starts with `!`
/// is negated; `!` alone stands for nothing.
pub open spec fn term_of_word(w: Seq<char>) -> Option<(bool, Seq<char>)> {
    if w.len() > 0 && w[0] == '!' {
        if w.len() == 1 {
            None
        } else {
            Some((true, w.drop_first()))
        }
    } else {
        Some((false, w))
    }
}

/// The terms of the words `ws`, in order.
pub open spec fn terms_of_words(ws: Seq<Seq<char>>) -> Seq<(bool, Seq<char>)>
    decreases ws.len(),
{
    if ws.len() == 0 {
        Seq::empty()
    } else {
        let prev = terms_of_words(ws.drop_last());
        match term_of_word(ws.last()) {
            Some(t) => prev.push(t),
            None => prev,
        }
    }
}

/// The terms of the filter text `q`.
pub open spec fn query_terms(q: Seq<char>) -> Seq<(bool, Seq<char>)> {
    terms_of_words(words(q))
}

/// Splits a filter text into its terms.
pub fn destructure_query_filter(q: &str) -> (r: Vec<QueryTerm>)
    ensures
        r@.len() == query_terms(q@).len(),
        forall|k: int| 0 <= k < r@.len() ==> #[trigger] r@[k].spec_view() == query_terms(q@)[k],
{
    let ws = split_words(q);
    let ghost all = words(q@);
    let mut r: Vec<QueryTerm> = Vec::new();
    let mut i: usize = 0;
    while i < ws.len()
        invariant
            i <= ws@.len() == all.len(),
            forall|k: int| 0 <= k < ws@.len() ==> #[trigger] ws@[k]@ == all[k],
            r@.len() == terms_of_words(all.subrange(0, i as int)).len(),
            forall|k: int|
                0 <= k < r@.len() ==> #[trigger] r@[k].spec_view() == terms_of_words(
                    all.subrange(0, i as int),
                )[k],
        decreases ws.len() - i,
    {
        assert(all.subrange(0, i + 1).drop_last() =~= all.subrange(0, i as int));
        let w = ws[i].as_str();
        let n = w.unicode_len();
        if n > 0 && w.get_char(0) == '!' {
            if n > 1 {
                let rest = w.substring_char(1, n);
                assert(rest@ =~= w@.drop_first());
                r.push(QueryTerm::Not(String::from_str(rest)));
            }
        } else {
            r.push(QueryTerm::And(String::from_str(w)));
        }
        i = i + 1;
    }
    assert(all.subrange(0, ws@.len() as int) =~= all);
    r
}

/// A filter text is valid where it has at least one term.
pub fn is_valid_query_filter(q: &str) -> (r: bool)
    ensures
        r == (query_terms(q@).len() > 0),
{
    destructure_query_filter(q).len() > 0
}

/// Which titles a listing shows.
#[derive(Debug, Clone, Copy, PartialEq, Eq, Structural)]
pub enum ItemType {
    Movie,
    Series,
    Both,
}

pub open spec fn item_filter_of(item_type: ItemType) -> Seq<char> {
    match item_type {
        ItemType::Movie => "\n  AND type = 'movie'"@,
        ItemType::Series => "\n  AND type = 'series'"@,
        ItemType::Both => Seq::empty(),
    }
}

/// The condition on the type of title that follows the text filters.
fn get_item_filter(item_type: &ItemType) -> (r: String)
    ensures
        r@ == item_filter_of(*item_type),
{
    match item_type {
        ItemType::Movie => String::from_str("\n  AND type = 'movie'"),
        ItemType::Series => String::from_str("\n  AND type = 'series'"),
        ItemType::Both => String::new(),
    }
}

pub open spec fn sorted_query_of(item_type: ItemType) -> Seq<char> {
    match item_type {
        ItemType::Movie => QUERY_HEAD@ + "\n type = 'movie'\n AND "@ + QUERY_TAIL@,
        ItemType::Series => QUERY_HEAD@ + "\n type = 'series'\n AND "@ + QUERY_TAIL@,
        ItemType::Both => QUERY_HEAD@ + "\n "@ + QUERY_TAIL@,
    }
}

/// The query for every reconciled title of `item_type`, best rated first.
pub fn build_sorted_query(item_type: &ItemType) -> (r: String)
    ensures
        r@ == sorted_query_of(*item_type),
{
    let mut q = String::from_str(QUERY_HEAD);
    match item_type {
        ItemType::Movie => q.append("\n type = 'movie'\n AND "),
        ItemType::Series => q.append("\n type = 'series'\n AND "),
        ItemType::Both => q.append("\n "),
    }
    q.append(QUERY_TAIL);
    q
}

/// A filter on one column of the catalogue.
#[derive(Debug, Clone)]
pub struct ColumnFilter {
    pub column: String,
    pub query: String,
}

/// How a column is named in a query: `cast` is quoted.
pub open spec fn column_sql(column: Seq<char>) -> Seq<char> {
    if column == CAST_COLUMN@ {
        "'cast'"@
    } else {
        column
    }
}

pub open spec fn and_sql(first: bool) -> Seq<char> {
    if first {
        Seq::empty()
    } else {
        " AND"@
    }
}

/// The condition that the word `w` of a filter puts on the column `col`;
/// `first` where no condition comes before it.
pub open spec fn fragment_of(w: Seq<char>, col: Seq<char>, first: bool) -> Option<Seq<char>> {
    if w.len() > 0 && w[0] == '!' {
        if w.len() == 1 {
            None
        } else {
            Some("\n "@ + and_sql(first) + " NOT "@ + col + " LIKE '%"@ + w.drop_first() + "%'"@)
        }
    } else {
        Some("\n "@ + and_sql(first) + " "@ + col + " LIKE '%"@ + w + "%'"@)
    }
}

/// The conditions of the words `ws` on the column `col`. Every word, `!`
/// alone too, makes the words after it follow with `AND`.
pub open spec fn fragments_of(ws: Seq<Seq<char>>, col: Seq<char>, matched_before: bool) -> Seq<
    Seq<char>,
>
    decreases ws.len(),
{
    if ws.len() == 0 {
        Seq::empty()
    } else {
        let prev = fragments_of(ws.drop_last(), col, matched_before);
        match fragment_of(ws.last(), col, !matched_before && ws.len() == 1) {
            Some(f) => prev.push(f),
            None => prev,
        }
    }
}

impl ColumnFilter {
    pub fn new(column: &str, query: &str) -> (r: ColumnFilter)
        ensures
            r.column@ == column@,
            r.query@ == query@,
    {
        ColumnFilter { column: String::from_str(column), query: String::from_str(query) }
    }

    pub open spec fn spec_fragments(&self, matched_before: bool) -> Seq<Seq<char>> {
        fragments_of(words(self.query@), column_sql(self.column@), matched_before)
    }

    /// The conditions of this filter, one per term; `matched_before` where a
    /// condition of another filter comes before them.
    pub fn sql_fragments(&self, matched_before: bool) -> (r: Vec<String>)
        ensures
            r@.len() == self.spec_fragments(matched_before).len(),
            forall|k: int|
                0 <= k < r@.len() ==> #[trigger] r@[k]@ == self.spec_fragments(matched_before)[k],
    {
        let is_cast = self.column == String::from_str(CAST_COLUMN);
        let column = if is_cast {
            String::from_str("'cast'")
        } else {
            self.column.clone()
        };
        let ghost col = column_sql(self.column@);
        let ws = split_words(self.query.as_str());
        let ghost all = words(self.query@);
        let mut r: Vec<String> = Vec::new();
        let mut i: usize = 0;
        while i < ws.len()
            invariant
                column@ == col,
                i <= ws@.len() == all.len(),
                forall|k: int| 0 <= k < ws@.len() ==> #[trigger] ws@[k]@ == all[k],
                r@.len() == fragments_of(all.subrange(0, i as int), col, matched_before).len(),
                forall|k: int|
                    0 <= k < r@.len() ==> #[trigger] r@[k]@ == fragments_of(
                        all.subrange(0, i as int),
                        col,
                        matched_before,
                    )[k],
            decreases ws.len() - i,
        {
            assert(all.subrange(0, i + 1).drop_last() =~= all.subrange(0, i as int));
            assert(all.subrange(0, i + 1).last() == all[i as int]);
            let first = !matched_before && i == 0;
            let w = ws[i].as_str();
            let n = w.unicode_len();
            let mut f = String::from_str("\n ");
            if !first {
                f.append(" AND");
            }
            assert(f@ == "\n "@ + and_sql(first));
            if n > 0 && w.get_char(0) == '!' {
                if n > 1 {
                    let rest = w.substring_char(1, n);
                    assert(rest@ =~= w@.drop_first());
                    f.append(" NOT ");
                    f.append(column.as_str());
                    f.append(" LIKE '%");
                    f.append(rest);
                    f.append("%'");
                    r.push(f);
                }
            } else {
                f.append(" ");
                f.append(column.as_str());
                f.append(" LIKE '%");
                f.append(w);
                f.append("%'");
                r.push(f);
            }
            i = i + 1;
        }
        assert(all.subrange(0, ws@.len() as int) =~= all);
        r
    }
}

/// The characters of `parts`, one after the other.
pub open spec fn joined(parts: Seq<Seq<char>>) -> Seq<char>
    decreases parts.len(),
{
    if parts.len() == 0 {
        Seq::empty()
    } else {
        joined(parts.drop_last()) + parts.last()
    }
}

/// The conditions of the filters `fs`, joined, and whether there was any.
pub open spec fn filters_sql(fs: Seq<ColumnFilter>) -> (Seq<char>, bool)
    decreases fs.len(),
{
    if fs.len() == 0 {
        (Seq::empty(), false)
    } else {
        let (prev, matched) = filters_sql(fs.drop_last());
        let frs = fs.last().spec_fragments(matched);
        (prev + joined(frs), matched || frs.len() > 0)
    }
}

pub open spec fn sorted_filtered_query_of(fs: Seq<ColumnFilter>, item_type: ItemType) -> Seq<
    char,
> {
    QUERY_HEAD@ + filters_sql(fs).0 + item_filter_of(item_type) + "\n  AND "@ + QUERY_TAIL@
}

/// The query for the reconciled titles of `item_type` that pass every
/// filter, best rated first.
pub fn build_sorted_filtered_query(filters: Vec<ColumnFilter>, item_type: &ItemType) -> (r: String)
    ensures
        r@ == sorted_filtered_query_of(filters@, *item_type),
{
    let mut q = String::from_str(QUERY_HEAD);
    let mut matched_before = false;
    let mut i: usize = 0;
    while i < filters.len()
        invariant
            i <= filters@.len(),
            q@ == QUERY_HEAD@ + filters_sql(filters@.subrange(0, i as int)).0,
            matched_before == filters_sql(filters@.subrange(0, i as int)).1,
        decreases filters.len() - i,
    {
        let ghost before = q@;
        assert(filters@.subrange(0, i + 1).drop_last() =~= filters@.subrange(0, i as int));
        let frs = filters[i].sql_fragments(matched_before);
        let ghost sf = filters@[i as int].spec_fragments(matched_before);
        let mut j: usize = 0;
        while j < frs.len()
            invariant
                j <= frs@.len() == sf.len(),
                forall|k: int| 0 <= k < frs@.len() ==> #[trigger] frs@[k]@ == sf[k],
                q@ == before + joined(sf.subrange(0, j as int)),
            decreases frs.len() - j,
        {
            assert(sf.subrange(0, j + 1).drop_last() =~= sf.subrange(0, j as int));
            q.append(frs[j].as_str());
            assert(q@ =~= before + joined(sf.subrange(0, j + 1)));
            j = j + 1;
        }
        assert(sf.subrange(0, sf.len() as int) =~= sf);
        matched_before = matched_before || frs.len() > 0;
        i = i + 1;
    }
    assert(filters@.subrange(0, filters@.len() as int) =~= filters@);
    let item_filter = get_item_filter(item_type);
    q.append(item_filter.as_str());
    q.append("\n  AND ");
    q.append(QUERY_TAIL);
    q
}

} // verus!
