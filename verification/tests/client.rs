use zotero_mcp::client::{
    in_sending, in_step, pluralise, read_add_doi_response, read_add_url_response, read_children_response,
    read_fulltext_response, read_patch_response, read_response, read_tags_response,
    read_translator_response, ClientError, LibraryRef, Method, Request, ZoteroClient,
};
use zotero_mcp::config::Config;
use zotero_mcp::json::{single, Json};
use zotero_mcp::tools::pick_client;

fn local() -> ZoteroClient {
    ZoteroClient::new(&Config::default()).unwrap()
}

fn group() -> ZoteroClient {
    ZoteroClient::new(&Config {
        api_base: "http://test:1234/api".into(),
        api_key: Some("secret".into()),
        user_id: Some(99),
        library_type: "group".into(),
    })
    .unwrap()
}

fn headers(r: &Request) -> Vec<(&str, &str)> {
    r.headers.iter().map(|h| (h.0.as_str(), h.1.as_str())).collect()
}

#[test]
fn libraries_are_named_in_the_plural() {
    assert_eq!(pluralise("user"), "users");
    assert_eq!(pluralise("group"), "groups");
    assert_eq!(pluralise("publications"), "publications");
}

#[test]
fn the_path_names_the_library() {
    assert_eq!(local().lib_path(), "/users/0");
    assert_eq!(group().lib_path(), "/groups/99");
    let other = group().with_library(LibraryRef { library_type: "user".into(), id: 5 });
    assert_eq!(other.lib_path(), "/users/5");
    assert_eq!(other.get("K").url, "http://test:1234/api/users/5/items/K?v=3");
    assert_eq!(headers(&other.get("K")), vec![("Zotero-API-Key", "secret")]);
    assert_eq!(group().clone().lib_path(), "/groups/99");
}

#[test]
fn reading_requests() {
    let base = "http://localhost:23119/api/users/0";
    let c = local();
    for (request, rest) in [
        (c.get("ABCD1234"), "/items/ABCD1234?v=3"),
        (c.children("ABCD1234"), "/items/ABCD1234/children?v=3"),
        (c.fulltext("ABCD1234"), "/items/ABCD1234/fulltext?v=3"),
        (c.collections(), "/collections?v=3"),
        (c.collection_items("COL"), "/collections/COL/items?v=3"),
        (c.tags(), "/tags?v=3"),
        (c.recent(10), "/items?sort=dateAdded&direction=desc&limit=10&v=3"),
        (c.search("deep learning", 25), "/items?q=deep%20learning&limit=25&v=3"),
        (
            c.export_citation(&vec!["AAA".to_string(), "BBB".to_string()], "bibtex"),
            "/items?itemKey=AAA,BBB&format=bibtex&v=3",
        ),
    ] {
        assert_eq!(request.url, format!("{base}{rest}"));
        assert_eq!(request.method, Method::Get);
        assert!(request.headers.is_empty());
        assert!(request.body.is_none());
        assert_eq!(request.timeout, 30);
    }
    assert_eq!(headers(&group().tags()), vec![("Zotero-API-Key", "secret")]);
}

#[test]
fn a_query_is_percent_encoded() {
    let query = |q: &str| {
        let url = local().search(q, 1).url;
        let rest = url.split("q=").nth(1).unwrap().to_string();
        rest.strip_suffix("&limit=1&v=3").unwrap().to_string()
    };
    assert_eq!(query("aZ09-_.~"), "aZ09-_.~");
    assert_eq!(query("a&b=c?d#e/f+g%"), "a%26b%3Dc%3Fd%23e%2Ff%2Bg%25");
    assert_eq!(query("é日😀"), "%C3%A9%E6%97%A5%F0%9F%98%80");
    assert_eq!(query(""), "");
}

#[test]
fn a_change_names_the_version() {
    let r = group().patch_item("ABCD1234", 17, &Json::Object(single("title", Json::text("T"))));
    assert_eq!(r.method, Method::Patch);
    assert_eq!(r.url, "http://test:1234/api/groups/99/items/ABCD1234?v=3");
    assert_eq!(
        headers(&r),
        vec![
            ("Content-Type", "application/json"),
            ("If-Unmodified-Since-Version", "17"),
            ("Zotero-API-Key", "secret"),
        ]
    );
    assert_eq!(r.body.as_deref(), Some("{\"title\":\"T\"}"));
    assert_eq!(r.timeout, 30);
}

#[test]
fn the_trash_is_a_change() {
    let r = local().trash_item("ABCD1234", 8);
    assert_eq!(r.method, Method::Patch);
    assert_eq!(r.url, "http://localhost:23119/api/users/0/items/ABCD1234?v=3");
    assert_eq!(r.body.as_deref(), Some("{\"deleted\":1}"));
    assert_eq!(
        headers(&r),
        vec![("Content-Type", "application/json"), ("If-Unmodified-Since-Version", "8")]
    );
}

#[test]
fn a_doi_is_posted() {
    let r = group().add_doi("10.1234/example");
    assert_eq!(r.method, Method::Post);
    assert_eq!(r.url, "http://test:1234/api/groups/99/items?v=3");
    assert_eq!(
        r.body.as_deref(),
        Some("[{\"DOI\":\"10.1234/example\",\"itemType\":\"journalArticle\"}]")
    );
    assert_eq!(
        headers(&r),
        vec![("Content-Type", "application/json"), ("Zotero-API-Key", "secret")]
    );
}

#[test]
fn a_doi_goes_to_the_library_of_the_call() {
    let library = Some(LibraryRef { library_type: "group".into(), id: 42 });
    let r = pick_client(&local(), library).add_doi("10.1234/example");
    assert_eq!(r.method, Method::Post);
    assert_eq!(r.url, "http://localhost:23119/api/groups/42/items?v=3");
    assert_eq!(
        r.body.as_deref(),
        Some("[{\"DOI\":\"10.1234/example\",\"itemType\":\"journalArticle\"}]")
    );
    assert_eq!(
        pick_client(&local(), None).add_doi("10.1234/example").url,
        "http://localhost:23119/api/users/0/items?v=3"
    );
}

#[test]
fn a_web_address_goes_to_the_translator() {
    let r = group().add_url("https://example.org/a?b=\"c\"");
    assert_eq!(r.method, Method::Post);
    assert_eq!(r.url, "http://localhost:1969/web");
    assert_eq!(
        r.body.as_deref(),
        Some("{\"sessionID\":\"zotero-cli\",\"url\":\"https://example.org/a?b=\\\"c\\\"\"}")
    );
    assert_eq!(headers(&r), vec![("Content-Type", "application/json")]);
    assert_eq!(r.timeout, 30);
}

#[test]
fn responses_are_judged_by_their_status() {
    let ok = || Ok::<String, String>("body".to_string());
    let bad = || Err::<String, String>("invalid utf-8".to_string());
    assert_eq!(read_response(200, ok()).unwrap(), "body");
    assert_eq!(read_response(399, ok()).unwrap(), "body");
    assert_eq!(
        read_response(400, ok()).unwrap_err().message(),
        "Zotero API error 400: body"
    );
    assert_eq!(
        read_response(500, bad()).unwrap_err().message(),
        "Zotero API error 500: "
    );
    assert_eq!(
        read_response(200, bad()).unwrap_err().message(),
        "reading response body: invalid utf-8"
    );
    assert_eq!(
        read_translator_response(501, ok()).unwrap_err().message(),
        "Zotero translator error 501: body"
    );
    assert_eq!(read_translator_response(201, ok()).unwrap(), "body");
}

#[test]
fn a_version_conflict_is_reported() {
    let ok = || Ok::<String, String>("body".to_string());
    assert!(matches!(read_patch_response(412, ok()), Err(ClientError::VersionConflict)));
    assert_eq!(
        read_patch_response(412, ok()).unwrap_err().message(),
        "item was modified since it was retrieved (version conflict) -- retry"
    );
    assert_eq!(
        read_patch_response(413, ok()).unwrap_err().message(),
        "Zotero API error 413: body"
    );
    assert_eq!(read_patch_response(204, Ok(String::new())).unwrap(), "");
}

#[test]
fn an_item_without_a_text_is_no_error() {
    let ok = || Ok::<String, String>("body".to_string());
    assert!(matches!(read_fulltext_response(404, ok()), Ok(None)));
    assert_eq!(read_fulltext_response(200, ok()).unwrap().as_deref(), Some("body"));
    assert_eq!(
        read_fulltext_response(403, ok()).unwrap_err().message(),
        "Zotero API error 403: body"
    );
}

#[test]
fn lists_are_read_from_responses() {
    let children = read_children_response(200, Ok("[{\"key\":\"A\"}, 1]".to_string())).unwrap();
    assert_eq!(children.len(), 2);
    assert_eq!(children[0].get("key").unwrap().as_str(), Some("A"));
    assert_eq!(children[1].as_u64(), Some(1));
    assert_eq!(
        read_children_response(200, Ok("{}".to_string())).unwrap_err().message(),
        "parsing children: invalid type: map, expected a sequence at line 1 column 0"
    );
    assert_eq!(
        read_tags_response(200, Ok("".to_string())).unwrap_err().message(),
        "parsing tags: EOF while parsing a value at line 1 column 0"
    );
    assert_eq!(
        read_tags_response(500, Ok("no".to_string())).unwrap_err().message(),
        "Zotero API error 500: no"
    );
    assert_eq!(
        read_tags_response(200, Err("bad".to_string())).unwrap_err().message(),
        "reading response body: bad"
    );
    assert_eq!(read_tags_response(200, Ok("[]".to_string())).unwrap().len(), 0);
}

#[test]
fn values_are_read_from_responses() {
    let added = read_add_doi_response(200, Ok("{\"successful\": {}}".to_string())).unwrap();
    assert_eq!(added.to_text(), "{\"successful\":{}}");
    assert_eq!(
        read_add_doi_response(200, Ok("[".to_string())).unwrap_err().message(),
        "parsing add doi response: EOF while parsing a list at line 1 column 1"
    );
    assert_eq!(
        read_add_doi_response(400, Ok("no".to_string())).unwrap_err().message(),
        "Zotero API error 400: no"
    );
    let added = read_add_url_response(200, Ok("[1]".to_string())).unwrap();
    assert_eq!(added.to_text(), "[1]");
    assert_eq!(
        read_add_url_response(200, Ok("".to_string())).unwrap_err().message(),
        "parsing add url response: EOF while parsing a value at line 1 column 0"
    );
    assert_eq!(
        read_add_url_response(400, Ok("no".to_string())).unwrap_err().message(),
        "Zotero translator error 400: no"
    );
}

#[test]
fn a_failed_step_is_named() {
    let failed: Result<u8, ClientError> = in_step(Err("refused".to_string()), "sending request");
    assert_eq!(failed.unwrap_err().message(), "sending request: refused");
    assert_eq!(in_step(Ok(5u8), "sending request").unwrap(), 5);
    let failed: Result<u8, ClientError> = in_sending(Err("refused".to_string()), Method::Get);
    assert_eq!(failed.unwrap_err().message(), "sending request: refused");
    let failed: Result<u8, ClientError> = in_sending(Err("refused".to_string()), Method::Patch);
    assert_eq!(failed.unwrap_err().message(), "sending PATCH request: refused");
    assert_eq!(in_sending(Ok(5u8), Method::Post).unwrap(), 5);
}
