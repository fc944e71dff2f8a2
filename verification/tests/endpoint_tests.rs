//! Endpoint URL builders and request parameters.

use elastic::RequestParams;
use elastic::{cat, delete, indices, ingest, scroll, search, snapshot};

#[test]
fn request_builder_params() {
    let params = RequestParams::new("http://eshost:9200")
        .url_param("pretty", "true")
        .url_param("refresh", "true");

    let query = params.get_url_qry();

    assert_eq!("http://eshost:9200", params.base_url);
    assert_eq!("?pretty=true&refresh=true", query);
}

#[test]
fn url_params_replace_seen_keys() {
    let params = RequestParams::new("http://eshost:9200")
        .url_param("pretty", "true")
        .url_param("pretty", "false");

    assert_eq!(1, params.url_params.len());
    assert_eq!("?pretty=false", params.get_url_qry());
}

#[test]
fn url_params_can_be_set_in_bulk() {
    let params = RequestParams::new("http://eshost:9200").url_params(vec![
        (String::from("pretty"), String::from("true")),
        (String::from("refresh"), String::from("true")),
    ]);

    assert_eq!("?pretty=true&refresh=true", params.get_url_qry());
}

#[test]
fn empty_params_give_an_empty_query() {
    assert_eq!("", RequestParams::new("http://eshost:9200").get_url_qry());
}

#[test]
fn query_values_are_form_encoded() {
    let params = RequestParams::new("http://eshost:9200").url_param("q", "a b&c=d");

    assert_eq!("?q=a+b%26c%3Dd", params.get_url_qry());
}

#[test]
fn index_urls_assemble() {
    let base = || String::from("http://localhost:9200");
    assert_eq!(
        "http://localhost:9200/_refresh",
        indices::refresh::post(base())
    );
    assert_eq!(
        "http://localhost:9200/idx/_refresh",
        indices::refresh::post_index(base(), String::from("idx"))
    );
    assert_eq!(
        "http://localhost:9200/idx/_flush/synced",
        indices::flush_synced::get_index(base(), String::from("idx"))
    );
    assert_eq!(
        "http://localhost:9200/idx/_alias/al",
        indices::get_alias::get_index_name(base(), String::from("idx"), String::from("al"))
    );
    assert_eq!(
        "http://localhost:9200/_aliases/al",
        indices::get_aliases::get_name(base(), String::from("al"))
    );
    assert_eq!(
        "http://localhost:9200/idx/ty/_mapping",
        indices::put_mapping::put_index_type(base(), String::from("idx"), String::from("ty"))
    );
    assert_eq!(
        "http://localhost:9200/_mapping/ty",
        indices::put_mapping::put_type(base(), String::from("ty"))
    );
    assert_eq!(
        "http://localhost:9200/idx/_stats/docs",
        indices::stats::get_index_metric(base(), String::from("idx"), String::from("docs"))
    );
    assert_eq!(
        "http://localhost:9200/idx/ty/_validate/query",
        indices::validate_query::post_index_type(base(), String::from("idx"), String::from("ty"))
    );
    assert_eq!(
        "http://localhost:9200/idx",
        indices::delete::delete_index("http://localhost:9200", "idx")
    );
    assert_eq!(
        "http://localhost:9200/idx/_mapping/ty",
        indices::get_mapping::get_index_type("http://localhost:9200", "idx", "ty")
    );
    assert_eq!(
        "http://localhost:9200/idx/ty/_warmer/w",
        indices::get_warmer::get_index_type_name("http://localhost:9200", "idx", "ty", "w")
    );
}

#[test]
fn search_scroll_and_delete_urls_assemble() {
    assert_eq!(
        "http://localhost:9200/idx/ty/_search",
        search::get_index_type("http://localhost:9200", "idx", "ty")
    );
    assert_eq!("http://localhost:9200/_search", search::post("http://localhost:9200"));
    assert_eq!(
        "http://localhost:9200/_search/scroll/abc",
        scroll::post_scroll_id(String::from("http://localhost:9200"), String::from("abc"))
    );
    assert_eq!(
        "http://localhost:9200/idx/ty/1",
        delete::delete_index_type_id("http://localhost:9200", "idx", "ty", "1")
    );
}

#[test]
fn cat_snapshot_and_ingest_urls_assemble() {
    assert_eq!(
        "http://localhost:9200/_cat/count/idx",
        cat::count::get_index("http://localhost:9200", "idx")
    );
    assert_eq!(
        "http://localhost:9200/_cat/segments",
        cat::segments::get("http://localhost:9200")
    );
    let params = RequestParams::new("http://localhost:9200").url_param("v", "true");
    assert_eq!(
        "http://localhost:9200/_cat/health?v=true",
        cat::health::get(&params)
    );
    assert_eq!(
        "http://localhost:9200/_snapshot/repo/snap?v=true",
        snapshot::get::get_repository_snapshot(&params, "repo", "snap")
    );
    assert_eq!(
        "http://localhost:9200/_snapshot/repo",
        snapshot::get_repository::get_repository("http://localhost:9200", "repo")
    );
    assert_eq!(
        "http://localhost:9200/_snapshot/repo/_verify",
        snapshot::verify_repository::post_repository("http://localhost:9200", "repo")
    );
    assert_eq!(
        "http://localhost:9200/_ingest/pipeline/p/_simulate?v=true",
        ingest::simulate::post_id(&params, "p")
    );
}
