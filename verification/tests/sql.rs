use libsql_plugin::utils::sql::{first_keyword, is_wrappable, returns_rows, strip_trailing_semicolons};

#[test]
fn detects_first_keyword_case_insensitively() {
    assert_eq!(first_keyword("  SELECT 1"), "select");
    assert_eq!(first_keyword("\nWITH x AS (...)"), "with");
    assert_eq!(first_keyword("INSERT INTO t VALUES(1)"), "insert");
    assert_eq!(first_keyword("(select 1)"), "select");
}

#[test]
fn classifies_row_returning_statements() {
    assert!(returns_rows("select * from t"));
    assert!(returns_rows("PRAGMA table_info(t)"));
    assert!(returns_rows("EXPLAIN QUERY PLAN select 1"));
    assert!(!returns_rows("insert into t values (1)"));
    assert!(!returns_rows("update t set a = 1"));
    assert!(!returns_rows("create table t (id integer)"));
}

#[test]
fn only_selects_are_wrappable() {
    assert!(is_wrappable("select 1"));
    assert!(is_wrappable("WITH a AS (select 1) select * from a"));
    assert!(!is_wrappable("pragma table_info(t)"));
    assert!(!is_wrappable("insert into t values (1)"));
}

#[test]
fn strips_trailing_semicolons() {
    assert_eq!(strip_trailing_semicolons("select 1; "), "select 1");
    assert_eq!(strip_trailing_semicolons("select 1 ;;"), "select 1");
}

#[test]
fn first_keyword_of_blank_statement_is_empty() {
    assert_eq!(first_keyword(""), "");
    assert_eq!(first_keyword("   ((  "), "");
    assert!(!returns_rows(""));
}

#[test]
fn values_statements_return_rows_but_do_not_wrap() {
    assert!(returns_rows("VALUES (1), (2)"));
    assert!(!is_wrappable("VALUES (1), (2)"));
    // Every wrappable statement returns rows.
    for s in ["select 1", "with a as (select 1) select * from a", "SeLeCt *from t"] {
        assert!(is_wrappable(s));
        assert!(returns_rows(s));
    }
}

#[test]
fn stripping_removes_the_whole_trailing_run() {
    assert_eq!(strip_trailing_semicolons("select 1; ;"), "select 1");
    assert_eq!(strip_trailing_semicolons("  select ';' ; ; \n"), "select ';'");
    assert_eq!(strip_trailing_semicolons(";;;"), "");
    assert_eq!(strip_trailing_semicolons("a;b;"), "a;b");
    for s in ["select 1; ;", " x ;\t;", "", "select ';'"] {
        let once = strip_trailing_semicolons(s);
        assert!(!once.ends_with(';'));
        assert_eq!(once, once.trim());
        assert!(s.contains(once));
        assert_eq!(strip_trailing_semicolons(once), once);
    }
}

#[test]
fn leading_comments_are_skipped() {
    assert_eq!(first_keyword("-- note\nSELECT 1"), "select");
    assert_eq!(first_keyword("/* note */ SELECT 1"), "select");
    assert_eq!(first_keyword("  /* a */(with x as (select 1) select * from x)"), "with");
    assert_eq!(first_keyword("/*/ still comment */pragma t"), "pragma");
    assert_eq!(first_keyword("-- only a comment"), "");
    assert_eq!(first_keyword("/* unterminated select"), "");
    assert!(returns_rows("-- note\nSELECT 1"));
    assert!(is_wrappable("/* note */ SELECT 1"));
    assert!(!returns_rows("-- note\nDELETE FROM t"));
}
