use vectorize::chunker::ChunkError;
use vectorize::provision::chunk_table;
use vectorize::provision::create_chunked_table;
use vectorize::provision::insert_chunk_into_table;
use vectorize::provision::row_has_text;
use vectorize::provision::source_row;
use vectorize::provision::MissingKey;
use vectorize::provision::SourceRow;

fn row(primary_key: i32, texts: Vec<Option<&str>>) -> SourceRow {
    SourceRow { primary_key, texts: texts.into_iter().map(|t| t.map(String::from)).collect() }
}

#[test]
fn create_statement_names_schema_and_table() {
    let sql = create_chunked_table("docs_chunked", vec!["body".to_string()], "public");
    assert_eq!(
        sql,
        "CREATE TABLE public.docs_chunked (
            id SERIAL PRIMARY KEY,
            original_id INTEGER,
            chunk TEXT
        );"
    );
}

#[test]
fn insert_carries_the_chunk_and_the_key() {
    let insert = insert_chunk_into_table("docs_chunked", "some text".to_string(), 42, "app");
    assert_eq!(insert.sql, "INSERT INTO app.docs_chunked (original_id, chunk) VALUES ($1, $2);");
    assert_eq!(insert.original_id, 42);
    assert_eq!(insert.chunk, "some text");
}

#[test]
fn plan_orders_by_row_then_column_then_chunk() {
    let rows = vec![
        row(7, vec![Some("abcdef"), Some("xy")]),
        row(3, vec![None, Some("0123456")]),
    ];
    let plan = chunk_table("docs", &rows, 4, 2, "docs_chunked", "public").unwrap();
    let got: Vec<(i32, &str)> =
        plan.inserts.iter().map(|i| (i.original_id, i.chunk.as_str())).collect();
    assert_eq!(
        got,
        vec![(7, "abcd"), (7, "cdef"), (7, "xy"), (3, "0123"), (3, "2345"), (3, "456")]
    );
    for insert in &plan.inserts {
        assert_eq!(
            insert.sql,
            "INSERT INTO public.docs_chunked (original_id, chunk) VALUES ($1, $2);"
        );
    }
    assert_eq!(plan.create_sql, create_chunked_table("docs_chunked", vec![], "public"));
    assert_eq!(plan.message, "Data from docs successfully chunked into docs_chunked");
}

#[test]
fn rows_without_text_give_no_inserts() {
    let rows = vec![row(1, vec![None]), row(2, vec![Some("hello")]), row(3, vec![None, None])];
    let plan = chunk_table("t", &rows, 1000, 200, "t_chunked", "public").unwrap();
    let ids: Vec<i32> = plan.inserts.iter().map(|i| i.original_id).collect();
    assert_eq!(ids, vec![2]);
    assert_eq!(plan.inserts[0].chunk, "hello");
}

#[test]
fn keys_in_the_plan_are_the_keys_of_rows_with_text() {
    let rows = vec![
        row(10, vec![Some("aaaaaaaaaa")]),
        row(11, vec![None]),
        row(12, vec![Some("")]),
        row(13, vec![None, Some("bbbbb")]),
    ];
    let plan = chunk_table("t", &rows, 4, 1, "t_chunked", "public").unwrap();
    let mut ids: Vec<i32> = plan.inserts.iter().map(|i| i.original_id).collect();
    ids.dedup();
    assert_eq!(ids, vec![10, 12, 13]);
}

#[test]
fn empty_source_gives_an_empty_table() {
    let rows: Vec<SourceRow> = Vec::new();
    let plan = chunk_table("t", &rows, 1000, 200, "t_chunked", "s").unwrap();
    assert!(plan.inserts.is_empty());
    assert_eq!(plan.message, "Data from t successfully chunked into t_chunked");
}

#[test]
fn unusable_chunk_parameters_fail_before_anything_is_planned() {
    let rows = vec![row(1, vec![Some("hello")])];
    let refused = Err(ChunkError::OverlapNotBelowSize);
    assert_eq!(chunk_table("t", &rows, 4, 4, "o", "s").map(|p| p.message), refused);
    assert_eq!(chunk_table("t", &rows, 4, -1, "o", "s").map(|p| p.message), refused);
    assert_eq!(chunk_table("t", &rows, 0, 0, "o", "s").map(|p| p.message), refused);
    assert_eq!(chunk_table("t", &rows, -5, 0, "o", "s").map(|p| p.message), refused);
    let none: Vec<SourceRow> = Vec::new();
    assert_eq!(chunk_table("t", &none, 4, 4, "o", "s").map(|p| p.message), refused);
}

#[test]
fn each_key_has_as_many_rows_as_its_texts_have_chunks() {
    // 10 characters at size 4, overlap 1: 3 chunks; 5 characters: 2 chunks
    let rows = vec![
        row(10, vec![Some("aaaaaaaaaa"), Some("bbbbb")]),
        row(11, vec![None, None]),
        row(12, vec![Some("")]),
        row(10, vec![Some("cc")]),
    ];
    let plan = chunk_table("t", &rows, 4, 1, "t_chunked", "public").unwrap();
    let count = |id: i32| plan.inserts.iter().filter(|i| i.original_id == id).count();
    assert_eq!(count(10), 3 + 2 + 1);
    assert_eq!(count(11), 0);
    assert_eq!(count(12), 1);
    assert_eq!(plan.inserts.len(), 7);
}

#[test]
fn fetched_row_without_key_is_dropped_or_refused() {
    let texts = |t: Vec<Option<&str>>| -> Vec<Option<String>> {
        t.into_iter().map(|t| t.map(String::from)).collect()
    };
    assert!(row_has_text(&texts(vec![None, Some("a")])));
    assert!(!row_has_text(&texts(vec![None, None])));
    assert!(!row_has_text(&texts(vec![])));
    let kept = source_row(Some(5), texts(vec![None, Some("a")])).unwrap().unwrap();
    assert_eq!(kept.primary_key, 5);
    assert_eq!(kept.texts, texts(vec![None, Some("a")]));
    let kept = source_row(Some(6), texts(vec![None])).unwrap().unwrap();
    assert_eq!(kept.primary_key, 6);
    assert!(source_row(None, texts(vec![None, None])).unwrap().is_none());
    assert_eq!(source_row(None, texts(vec![Some("a")])).map(|r| r.is_some()), Err(MissingKey {}));
}
