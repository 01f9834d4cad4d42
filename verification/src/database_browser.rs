//! Looking into a database: which queries may run, and what they hand back.
use crate::command::texts;
use crate::text::{chars_of, contains, has_substring, starts_with, trim, trimmed};
use vstd::prelude::*;

verus! {

/// A table of a database and the number of its rows.
#[derive(Debug, Clone)]
pub struct TableInfo {
    pub name: String,
    pub row_count: u32,
}

/// The rows that a query gave, each with one text per column.
#[derive(Debug, Clone)]
pub struct QueryResult {
    pub columns: Vec<String>,
    pub rows: Vec<Vec<String>>,
    pub row_count: usize,
}

impl QueryResult {
    /// The result that holds these columns and rows.
    pub fn new(columns: Vec<String>, rows: Vec<Vec<String>>) -> (result: QueryResult)
        ensures
            result.columns == columns,
            result.rows == rows,
            result.row_count == rows@.len(),
    {
        let row_count = rows.len();
        QueryResult { columns, rows, row_count }
    }
}

/// Why a query is not run.
#[derive(Debug, Clone, PartialEq, Eq)]
pub enum QueryRejection {
    /// The query does not start with `SELECT`.
    NotSelect,
    /// The query holds a word that changes a database.
    ForbiddenKeyword { keyword: String },
}

/// The mathematical content of a [`QueryRejection`].
pub enum QueryRejectionView {
    NotSelect,
    ForbiddenKeyword { keyword: Seq<char> },
}

impl View for QueryRejection {
    type V = QueryRejectionView;

    open spec fn view(&self) -> QueryRejectionView {
        match *self {
            QueryRejection::NotSelect => QueryRejectionView::NotSelect,
            QueryRejection::ForbiddenKeyword { keyword } => QueryRejectionView::ForbiddenKeyword {
                keyword: keyword@,
            },
        }
    }
}

impl QueryRejection {
    /// The rejection in words.
    pub fn message(&self) -> (text: String)
        ensures
            match self@ {
                QueryRejectionView::NotSelect => text@
                    == "Only SELECT queries are allowed for safety"@,
                QueryRejectionView::ForbiddenKeyword { keyword } => text@
                    == "Query contains forbidden keyword: "@ + keyword,
            },
    {
        match self {
            QueryRejection::NotSelect => "Only SELECT queries are allowed for safety".to_owned(),
            QueryRejection::ForbiddenKeyword { keyword } => {
                "Query contains forbidden keyword: ".to_owned().concat(keyword.as_str())
            },
        }
    }
}

/// The text in upper case, as the standard library makes it.
pub uninterp spec fn uppercase(text: Seq<char>) -> Seq<char>;

/// The text in upper case.
///
/// This calls `str::to_uppercase` of the standard library, which goes by
/// the Unicode tables for upper case. What it returns depends on the text
/// alone, and that is all that is claimed of it: the result is named
/// [`uppercase`].
#[verifier::external_body]
fn to_uppercase(text: &str) -> (upper: String)
    ensures
        upper@ == uppercase(text@),
{
    text.to_uppercase()
}

/// The words that change a database, in the order in which a query is
/// searched for them.
pub open spec fn forbidden_keywords() -> Seq<Seq<char>> {
    seq!["DROP"@, "DELETE"@, "UPDATE"@, "INSERT"@, "ALTER"@, "CREATE"@, "TRUNCATE"@]
}

/// The first of `keywords` that stands somewhere in `text`.
pub open spec fn first_keyword_in(text: Seq<char>, keywords: Seq<Seq<char>>) -> Option<Seq<char>>
    decreases keywords.len(),
{
    if keywords.len() == 0 {
        None
    } else if has_substring(text, keywords[0]) {
        Some(keywords[0])
    } else {
        first_keyword_in(text, keywords.drop_first())
    }
}

/// Whether a query in upper case may run: it has to start with `SELECT`,
/// and to hold none of the [`forbidden_keywords`], not even inside another
/// word. Otherwise the rejection says what is wrong, and names the first
/// forbidden keyword that the query holds.
pub open spec fn checked_query(upper: Seq<char>) -> Result<(), QueryRejectionView> {
    if !"SELECT"@.is_prefix_of(upper) {
        Err(QueryRejectionView::NotSelect)
    } else {
        match first_keyword_in(upper, forbidden_keywords()) {
            Some(keyword) => Err(QueryRejectionView::ForbiddenKeyword { keyword }),
            None => Ok(()),
        }
    }
}

/// The view of the outcome of a check.
pub open spec fn check_view(result: Result<(), QueryRejection>) -> Result<(), QueryRejectionView> {
    match result {
        Ok(()) => Ok(()),
        Err(e) => Err(e@),
    }
}

/// The [`forbidden_keywords`].
fn forbidden_keyword_list() -> (keywords: Vec<String>)
    ensures
        texts(keywords@) == forbidden_keywords(),
{
    let mut keywords: Vec<String> = Vec::new();
    keywords.push("DROP".to_owned());
    keywords.push("DELETE".to_owned());
    keywords.push("UPDATE".to_owned());
    keywords.push("INSERT".to_owned());
    keywords.push("ALTER".to_owned());
    keywords.push("CREATE".to_owned());
    keywords.push("TRUNCATE".to_owned());
    assert(texts(keywords@) == forbidden_keywords());
    keywords
}

/// Says whether a query may run, given the query without the white space
/// around it and in upper case.
pub fn check_normalized_query(upper: &str) -> (result: Result<(), QueryRejection>)
    ensures
        check_view(result) == checked_query(upper@),
{
    let text = chars_of(upper);
    let select = chars_of("SELECT");
    if !starts_with(&text, &select) {
        return Err(QueryRejection::NotSelect);
    }
    let keywords = forbidden_keyword_list();
    let mut i: usize = 0;
    assert(texts(keywords@).skip(0) == texts(keywords@));
    while i < keywords.len()
        invariant
            i <= keywords.len(),
            text@ == upper@,
            "SELECT"@.is_prefix_of(upper@),
            texts(keywords@) == forbidden_keywords(),
            first_keyword_in(upper@, forbidden_keywords()) == first_keyword_in(
                upper@,
                texts(keywords@).skip(i as int),
            ),
        decreases keywords.len() - i,
    {
        let ghost rest = texts(keywords@).skip(i as int);
        assert(rest[0] == keywords@[i as int]@);
        assert(rest.drop_first() == texts(keywords@).skip(i + 1));
        let keyword = chars_of(keywords[i].as_str());
        if contains(&text, &keyword) {
            let found = keywords[i].clone();
            assert(found@ == rest[0]);
            assert(first_keyword_in(upper@, rest) == Some(found@));
            return Err(QueryRejection::ForbiddenKeyword { keyword: found });
        }
        i = i + 1;
    }
    assert(texts(keywords@).skip(i as int).len() == 0);
    Ok(())
}

/// Says whether a query may run. Only queries that read are let through:
/// the query is taken without the white space around it and in upper case,
/// and then has to pass [`checked_query`].
pub fn check_query(query: &str) -> (result: Result<(), QueryRejection>)
    ensures
        check_view(result) == checked_query(uppercase(trimmed(query@))),
{
    let upper = to_uppercase(trim(query));
    check_normalized_query(upper.as_str())
}

} // verus!
