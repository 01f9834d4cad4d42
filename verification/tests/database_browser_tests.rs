use daily_tasks_management::database_browser::{
    check_normalized_query, check_query, QueryRejection, QueryResult, TableInfo,
};
use daily_tasks_management::text::trim;

fn forbidden(keyword: &str) -> Result<(), QueryRejection> {
    Err(QueryRejection::ForbiddenKeyword { keyword: keyword.to_string() })
}

#[test]
fn select_queries_may_run() {
    assert_eq!(check_query("SELECT * FROM tasks"), Ok(()));
    assert_eq!(check_query("select * from tasks"), Ok(()));
    assert_eq!(check_query("  \n Select id, title From tasks Where id = 1 ;  "), Ok(()));
    assert_eq!(check_query("SELECT"), Ok(()));
    assert_eq!(check_query("selectx"), Ok(()));
}

#[test]
fn other_queries_are_not_select() {
    for query in ["", "   ", "PRAGMA table_info(tasks)", "SELEC", "(SELECT 1)", "-- SELECT", "drop table tasks"] {
        assert_eq!(check_query(query), Err(QueryRejection::NotSelect), "{:?}", query);
    }
    assert_eq!(
        QueryRejection::NotSelect.message(),
        "Only SELECT queries are allowed for safety"
    );
}

#[test]
fn forbidden_keywords_are_refused() {
    assert_eq!(check_query("SELECT 1; DROP TABLE tasks"), forbidden("DROP"));
    assert_eq!(check_query("select 1; delete from tasks"), forbidden("DELETE"));
    assert_eq!(check_query("select 1; update tasks set id = 2"), forbidden("UPDATE"));
    assert_eq!(check_query("select 1; insert into t values (1)"), forbidden("INSERT"));
    assert_eq!(check_query("select 1; alter table t"), forbidden("ALTER"));
    assert_eq!(check_query("select 1; create table t (a)"), forbidden("CREATE"));
    assert_eq!(check_query("select 1; truncate t"), forbidden("TRUNCATE"));
    assert_eq!(
        forbidden("DROP").unwrap_err().message(),
        "Query contains forbidden keyword: DROP"
    );
}

#[test]
fn a_keyword_inside_a_word_is_refused_too() {
    assert_eq!(check_query("SELECT created_at FROM tasks"), forbidden("CREATE"));
    assert_eq!(check_query("SELECT updated FROM tasks"), forbidden("UPDATE"));
    assert_eq!(check_query("SELECT * FROM dropbox"), forbidden("DROP"));
}

#[test]
fn the_first_keyword_of_the_list_is_named() {
    assert_eq!(check_query("SELECT 1; TRUNCATE t; CREATE t; DROP t"), forbidden("DROP"));
    assert_eq!(check_query("SELECT 1; TRUNCATE t; ALTER t; INSERT"), forbidden("INSERT"));
    assert_eq!(check_query("SELECT 1; TRUNCATE t; CREATE t"), forbidden("CREATE"));
}

#[test]
fn the_normalized_check_does_not_change_its_input() {
    assert_eq!(check_normalized_query("SELECT 1"), Ok(()));
    assert_eq!(check_normalized_query("select 1"), Err(QueryRejection::NotSelect));
    assert_eq!(check_normalized_query(" SELECT 1"), Err(QueryRejection::NotSelect));
    assert_eq!(check_normalized_query("SELECT drop"), Ok(()));
    assert_eq!(check_normalized_query("SELECT DROP"), forbidden("DROP"));
}

#[test]
fn upper_case_goes_by_unicode() {
    assert_eq!(check_query("\u{17f}elect 1"), Ok(()));
    assert_eq!(check_query("select 1 -- \u{fb01}x dro\u{1e9e}"), Ok(()));
    assert_eq!(check_query("select in\u{17f}ert"), forbidden("INSERT"));
}

#[test]
fn trimming_is_what_std_does() {
    let samples = [
        "", " ", "a", " a", "a ", "  a b  ", "\t\n a \r\n", "\u{a0}x\u{3000}", "\u{200b} x ",
        " \u{2003}inner  space\u{2003} ", "no-space", " \u{1f600} ",
    ];
    for sample in samples {
        assert_eq!(trim(sample), sample.trim(), "{:?}", sample);
    }
}

#[test]
fn a_query_result_counts_its_rows() {
    let columns = vec!["id".to_string(), "title".to_string()];
    let rows = vec![
        vec!["1".to_string(), "a".to_string()],
        vec!["2".to_string(), "NULL".to_string()],
    ];
    let result = QueryResult::new(columns.clone(), rows.clone());
    assert_eq!(result.columns, columns);
    assert_eq!(result.rows, rows);
    assert_eq!(result.row_count, 2);
    let empty = QueryResult::new(columns, Vec::new());
    assert_eq!(empty.row_count, 0);

    let info = TableInfo { name: "tasks".to_string(), row_count: 3 };
    assert_eq!(info.name, "tasks");
    assert_eq!(info.row_count, 3);
}
