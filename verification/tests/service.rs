use post_service::errors::{status_of, ServiceError};
use post_service::json::{render_body, render_post_json, render_posts_json};
use post_service::handlers::{handle_create, handle_delete, handle_list, handle_update, hello, Body};
use post_service::params::{parse_path_id, parse_query};
use post_service::pool::{apply_all, startup_config, SchemaState};
use post_service::post::Post;
use post_service::store::PostStore;

fn filled_store(entries: &[(&str, &str)]) -> PostStore {
    let mut st = PostStore::new();
    for (title, text) in entries {
        st.insert(title.to_string(), text.to_string());
    }
    st
}

fn ids(posts: &[Post]) -> Vec<i32> {
    posts.iter().map(|p| p.id).collect()
}

#[test]
fn insert_assigns_fresh_ids_and_lists_the_new_post() {
    let mut st = filled_store(&[("one", "1"), ("two", "2")]);
    let created = st.insert("three".to_string(), "3".to_string());
    assert_eq!(created.id, 3);
    let page = st.list_page(1, 10);
    assert_eq!(ids(&page), vec![1, 2, 3]);
    assert!(page.iter().any(|p| p.id == created.id && p.title == "three" && p.text == "3"));
}

#[test]
fn deleted_id_is_never_reused() {
    let mut st = filled_store(&[("one", "1"), ("two", "2")]);
    assert_eq!(st.delete_by_id(2), 1);
    let created = st.insert("three".to_string(), "3".to_string());
    // id 2 was used once and stays retired
    assert_eq!(created.id, 3);
}

#[test]
fn list_page_is_ordered_ascending_by_id() {
    let mut st = filled_store(&[("a", "x"), ("b", "y"), ("c", "z"), ("d", "w")]);
    st.delete_by_id(2);
    st.insert("e".to_string(), "v".to_string());
    let page = st.list_page(1, 10);
    let got = ids(&page);
    let mut sorted = got.clone();
    sorted.sort();
    assert_eq!(got, sorted);
    assert_eq!(got, vec![1, 3, 4, 5]);
}

#[test]
fn list_page_slices_exactly() {
    let st = filled_store(&[("a", "1"), ("b", "2"), ("c", "3"), ("d", "4"), ("e", "5")]);
    assert_eq!(ids(&st.list_page(1, 2)), vec![1, 2]);
    assert_eq!(ids(&st.list_page(2, 2)), vec![3, 4]);
    assert_eq!(ids(&st.list_page(3, 2)), vec![5]);
}

#[test]
fn page_beyond_the_data_is_empty_not_an_error() {
    let st = filled_store(&[("a", "1"), ("b", "2")]);
    assert!(st.list_page(2, 25).is_empty());
    assert!(st.list_page(1000, 1000).is_empty());
    assert!(st.list_page(usize::MAX, usize::MAX).is_empty());
    let empty = PostStore::new();
    assert!(empty.list_page(1, 25).is_empty());
}

#[test]
fn update_fully_replaces_both_fields() {
    let mut st = filled_store(&[("a", "1"), ("b", "2")]);
    let updated = st.update(1, "new title".to_string(), "".to_string()).unwrap();
    assert_eq!(updated.id, 1);
    assert_eq!(updated.title, "new title");
    // an omitted field is blanked, not merged
    assert_eq!(updated.text, "");
    let page = st.list_page(1, 10);
    let row = page.iter().find(|p| p.id == 1).unwrap();
    assert_eq!(row.title, "new title");
    assert_eq!(row.text, "");
    let other = page.iter().find(|p| p.id == 2).unwrap();
    assert_eq!(other.title, "b");
    assert_eq!(other.text, "2");
}

#[test]
fn update_of_an_absent_id_is_not_found_and_changes_nothing() {
    let mut st = filled_store(&[("a", "1")]);
    let r = st.update(7, "x".to_string(), "y".to_string());
    assert!(matches!(r, Err(ServiceError::NotFound)));
    let page = st.list_page(1, 10);
    assert_eq!(ids(&page), vec![1]);
    assert_eq!(page[0].title, "a");
}

#[test]
fn delete_removes_from_all_subsequent_listings() {
    let mut st = filled_store(&[("a", "1"), ("b", "2"), ("c", "3")]);
    assert_eq!(st.delete_by_id(2), 1);
    assert_eq!(ids(&st.list_page(1, 10)), vec![1, 3]);
    assert_eq!(ids(&st.list_page(1, 1)), vec![1]);
    assert_eq!(ids(&st.list_page(2, 1)), vec![3]);
}

#[test]
fn delete_of_an_absent_id_reports_zero_rows_affected() {
    let mut st = filled_store(&[("a", "1")]);
    assert_eq!(st.delete_by_id(9), 0);
    assert_eq!(ids(&st.list_page(1, 10)), vec![1]);
}

#[test]
fn query_parsing_exact_values() {
    let p = parse_query(b"page=2&posts_per_page=10").unwrap();
    assert_eq!(p.page, Some(2));
    assert_eq!(p.posts_per_page, Some(10));
    let p = parse_query(b"").unwrap();
    assert_eq!(p.page, None);
    assert_eq!(p.posts_per_page, None);
    let p = parse_query(b"posts_per_page=1").unwrap();
    assert_eq!(p.page, None);
    assert_eq!(p.posts_per_page, Some(1));
    // unknown keys are ignored
    let p = parse_query(b"order=desc&page=3").unwrap();
    assert_eq!(p.page, Some(3));
    // leading zeros are plain decimal notation
    let p = parse_query(b"page=007").unwrap();
    assert_eq!(p.page, Some(7));
    // the largest value the machine's word holds still parses
    let p = parse_query(b"page=18446744073709551615").unwrap();
    assert_eq!(p.page, Some(usize::MAX));
    // one more does not
    assert!(parse_query(b"page=18446744073709551616").is_err());
}

#[test]
fn malformed_queries_are_validation_errors() {
    for q in [
        &b"page=0"[..],
        b"page=abc",
        b"page=",
        b"page",
        b"page=1&page=2",
        b"posts_per_page=0",
        b"posts_per_page=99999999999999999999999999",
        b"page=-1",
    ] {
        assert!(matches!(parse_query(q), Err(ServiceError::Validation)), "{:?}", q);
    }
}

#[test]
fn path_ids_parse_exactly() {
    assert_eq!(parse_path_id(b"1"), Ok(1));
    assert_eq!(parse_path_id(b"0"), Ok(0));
    assert_eq!(parse_path_id(b"-7"), Ok(-7));
    assert_eq!(parse_path_id(b"007"), Ok(7));
    assert_eq!(parse_path_id(b"2147483647"), Ok(i32::MAX));
    assert_eq!(parse_path_id(b"-2147483648"), Ok(i32::MIN));
    for seg in [
        &b""[..],
        b"-",
        b"12a",
        b"+5",
        b"2147483648",
        b"-2147483649",
        b"99999999999999999999",
        b"1.5",
    ] {
        assert!(matches!(parse_path_id(seg), Err(ServiceError::Validation)), "{:?}", seg);
    }
}

#[test]
fn every_error_maps_to_its_status() {
    assert_eq!(status_of(ServiceError::Validation), 400);
    assert_eq!(status_of(ServiceError::NotFound), 404);
    assert_eq!(status_of(ServiceError::Config), 500);
    assert_eq!(status_of(ServiceError::Migration), 500);
    assert_eq!(status_of(ServiceError::PoolExhausted), 500);
    assert_eq!(status_of(ServiceError::Connection), 500);
    assert_eq!(status_of(ServiceError::Store), 500);
}

#[test]
fn list_handler_defaults_and_rejections() {
    let st = filled_store(&[("a", "1"), ("b", "2")]);
    let r = handle_list(&st, b"");
    assert_eq!(r.status, 200);
    match r.body {
        Body::Many(v) => assert_eq!(ids(&v), vec![1, 2]),
        _ => panic!("expected a list body"),
    }
    let r = handle_list(&st, b"page=2");
    assert_eq!(r.status, 200);
    match r.body {
        Body::Many(v) => assert!(v.is_empty()),
        _ => panic!("expected a list body"),
    }
    let r = handle_list(&st, b"page=zero");
    assert_eq!(r.status, 400);
    assert!(matches!(r.body, Body::Empty));
}

#[test]
fn crud_scenario_over_the_handlers() {
    let mut st = PostStore::new();

    let r = handle_create(&mut st, "a".to_string(), "b".to_string());
    assert_eq!(r.status, 201);
    match r.body {
        Body::One(p) => {
            assert_eq!(p.id, 1);
            assert_eq!(p.title, "a");
            assert_eq!(p.text, "b");
        },
        _ => panic!("expected the created post"),
    }

    let r = handle_list(&st, b"page=1&posts_per_page=25");
    assert_eq!(r.status, 200);
    match r.body {
        Body::Many(v) => {
            assert_eq!(v.len(), 1);
            assert_eq!(v[0].id, 1);
            assert_eq!(v[0].title, "a");
            assert_eq!(v[0].text, "b");
        },
        _ => panic!("expected a list body"),
    }

    let r = handle_update(&mut st, 1, "c".to_string(), "d".to_string());
    assert_eq!(r.status, 200);
    match r.body {
        Body::One(p) => {
            assert_eq!(p.id, 1);
            assert_eq!(p.title, "c");
            assert_eq!(p.text, "d");
        },
        _ => panic!("expected the updated post"),
    }

    let r = handle_delete(&mut st, 1);
    assert_eq!(r.status, 200);
    assert!(matches!(r.body, Body::Empty));

    let r = handle_list(&st, b"");
    assert_eq!(r.status, 200);
    match r.body {
        Body::Many(v) => assert!(v.is_empty()),
        _ => panic!("expected a list body"),
    }
}

#[test]
fn update_handler_reports_not_found() {
    let mut st = PostStore::new();
    let r = handle_update(&mut st, 1, "c".to_string(), "d".to_string());
    assert_eq!(r.status, 404);
    assert!(matches!(r.body, Body::Empty));
}

#[test]
fn delete_handler_succeeds_on_an_absent_id() {
    let mut st = filled_store(&[("a", "1")]);
    let r = handle_delete(&mut st, 42);
    assert_eq!(r.status, 200);
    assert!(matches!(r.body, Body::Empty));
    assert_eq!(ids(&st.list_page(1, 10)), vec![1]);
}

#[test]
fn posts_render_as_exact_json() {
    let p = Post::new(1, "a".to_string(), "b".to_string());
    assert_eq!(render_post_json(&p), br#"{"id":1,"title":"a","text":"b"}"#.to_vec());
    let p = Post { id: 120, title: "".to_string(), text: "0".to_string() };
    assert_eq!(render_post_json(&p), br#"{"id":120,"title":"","text":"0"}"#.to_vec());
    let p = Post { id: 0, title: "t".to_string(), text: "x".to_string() };
    assert_eq!(render_post_json(&p), br#"{"id":0,"title":"t","text":"x"}"#.to_vec());
    let p = Post { id: -7, title: "t".to_string(), text: "x".to_string() };
    assert_eq!(render_post_json(&p), br#"{"id":-7,"title":"t","text":"x"}"#.to_vec());
}

#[test]
fn json_rendering_escapes_text() {
    let p = Post { id: 5, title: "say \"hi\"".to_string(), text: "a\\b\nc".to_string() };
    assert_eq!(
        render_post_json(&p),
        br#"{"id":5,"title":"say \"hi\"","text":"a\\b\u000ac"}"#.to_vec()
    );
    let p = Post { id: 6, title: "caf\u{e9}".to_string(), text: "\u{2603}".to_string() };
    // multi-byte characters pass through unescaped
    assert_eq!(
        render_post_json(&p),
        "{\"id\":6,\"title\":\"caf\u{e9}\",\"text\":\"\u{2603}\"}".as_bytes().to_vec()
    );
}

#[test]
fn listings_render_as_exact_json() {
    assert_eq!(render_posts_json(&Vec::new()), b"[]".to_vec());
    let ps = vec![
        Post { id: 1, title: "a".to_string(), text: "b".to_string() },
        Post { id: 2, title: "c".to_string(), text: "d".to_string() },
    ];
    assert_eq!(
        render_posts_json(&ps),
        br#"[{"id":1,"title":"a","text":"b"},{"id":2,"title":"c","text":"d"}]"#.to_vec()
    );
}

#[test]
fn response_bodies_render_through_the_handlers() {
    let mut st = PostStore::new();
    let r = handle_create(&mut st, "a".to_string(), "b".to_string());
    assert_eq!(render_body(&r.body), br#"{"id":1,"title":"a","text":"b"}"#.to_vec());
    let r = handle_list(&st, b"page=1&posts_per_page=25");
    assert_eq!(render_body(&r.body), br#"[{"id":1,"title":"a","text":"b"}]"#.to_vec());
    let r = handle_delete(&mut st, 1);
    assert!(render_body(&r.body).is_empty());
    let r = handle_list(&st, b"");
    assert_eq!(render_body(&r.body), b"[]".to_vec());
}

#[test]
fn hello_serves_the_liveness_body() {
    assert_eq!(hello(), "Hello World!");
}

#[test]
fn startup_pool_configuration() {
    let cfg = startup_config("postgres://localhost/posts".to_string());
    assert_eq!(cfg.url, "postgres://localhost/posts");
    assert_eq!(cfg.max_connections, 100);
    assert_eq!(cfg.min_connections, 5);
    assert_eq!(cfg.connect_timeout_secs, 8);
    assert_eq!(cfg.idle_timeout_secs, 8);
    assert_eq!(cfg.max_lifetime_secs, 8);
    assert!(cfg.sqlx_logging);
}

#[test]
fn migration_is_idempotent() {
    let mut schema = SchemaState { post_table: false };
    apply_all(&mut schema);
    assert!(schema.post_table);
    let after_once = schema;
    apply_all(&mut schema);
    assert_eq!(schema, after_once);
}
