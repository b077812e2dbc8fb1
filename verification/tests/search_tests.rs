use vectorize::job::IndexDist;
use vectorize::job::TableMethod;
use vectorize::model::Model;
use vectorize::registry::JobRegistry;
use vectorize::search::is_best_first;
use vectorize::search::limit_results;
use vectorize::search::search;
use vectorize::transform::RequestError;

fn columns(names: &[&str]) -> Vec<String> {
    names.iter().map(|n| n.to_string()).collect()
}

fn registry() -> JobRegistry {
    let mut registry = JobRegistry::new();
    let registered = registry.init_table(
        "job1",
        "public",
        "docs",
        columns(&["body"]),
        "id",
        None,
        IndexDist::PgvHnswCosine,
        &Model::new("openai/text-embedding-3-small").unwrap(),
        TableMethod::Join,
        "realtime",
    );
    assert!(registered.is_ok());
    registry
}

#[test]
fn search_request_keeps_what_was_asked() {
    let request = search(
        &registry(),
        "job1",
        "red shoes",
        Some("key".to_string()),
        columns(&["title", "price"]),
        10,
        Some("price < 100".to_string()),
    )
    .unwrap();
    assert_eq!(request.job_name, "job1");
    assert_eq!(request.model, Model::new("openai/text-embedding-3-small").unwrap());
    assert_eq!(request.query, "red shoes");
    assert_eq!(request.api_key, Some("key".to_string()));
    assert!(!request.all_columns);
    assert_eq!(request.return_columns, columns(&["title", "price"]));
    assert_eq!(request.num_results, 10);
    assert_eq!(request.where_sql, Some("price < 100".to_string()));
}

#[test]
fn search_on_an_unknown_job_is_refused() {
    let registry = registry();
    assert_eq!(
        search(&registry, "job2", "q", None, columns(&["*"]), 10, None),
        Err(RequestError::UnknownJob)
    );
    assert_eq!(
        search(&registry, "job2", "q", None, columns(&["*"]), -1, None),
        Err(RequestError::UnknownJob)
    );
    assert_eq!(
        search(&JobRegistry::new(), "job1", "q", None, columns(&["*"]), 10, None),
        Err(RequestError::UnknownJob)
    );
}

#[test]
fn star_asks_for_all_columns() {
    let r = registry();
    assert!(search(&r, "job1", "q", None, columns(&["*"]), 10, None).unwrap().all_columns);
    assert!(search(&r, "job1", "q", None, columns(&["id", "*"]), 10, None).unwrap().all_columns);
    assert!(!search(&r, "job1", "q", None, columns(&["**"]), 10, None).unwrap().all_columns);
    assert!(!search(&r, "job1", "q", None, columns(&[]), 10, None).unwrap().all_columns);
}

#[test]
fn negative_number_of_results_is_refused() {
    let r = registry();
    assert_eq!(
        search(&r, "job1", "q", None, columns(&["*"]), -1, None),
        Err(RequestError::NegativeCount)
    );
    assert_eq!(search(&r, "job1", "q", None, columns(&["*"]), 0, None).unwrap().num_results, 0);
}

#[test]
fn no_more_results_than_asked_for_are_kept() {
    let ranked = vec![(0.9, "a"), (0.7, "b"), (0.7, "c"), (0.1, "d")];
    assert_eq!(limit_results(ranked.clone(), 2), vec![(0.9, "a"), (0.7, "b")]);
    assert_eq!(limit_results(ranked.clone(), 4), ranked);
    assert_eq!(limit_results(ranked.clone(), 9), ranked);
    assert_eq!(limit_results(ranked.clone(), 0), vec![]);
    let kept = limit_results(ranked, 3);
    assert!(kept.len() <= 3);
    assert!(kept.windows(2).all(|pair| pair[0].0 >= pair[1].0));
}

#[test]
fn ranking_is_best_first_when_similarities_never_rise() {
    assert!(is_best_first(&vec![]));
    assert!(is_best_first(&vec![5]));
    assert!(is_best_first(&vec![9, 7, 7, -3]));
    assert!(!is_best_first(&vec![9, 7, 8]));
    assert!(!is_best_first(&vec![1, 2]));
    assert!(!is_best_first(&vec![9, 9, 9, 10]));
    assert!(is_best_first(&limit_results(vec![9, 7, 7, -3], 2)));
}
