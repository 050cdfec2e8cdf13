//! Laws of the requests to the API and of the reading of its responses.

use crate::client::{
    encoded_byte, in_sending, in_step, percent_encoded, read_add_doi_response,
    read_add_url_response, read_children_response, read_fulltext_response, read_patch_response,
    read_response, read_tags_response, read_translator_response, ClientError, ClientView,
    LibraryRef, Method, Request, ZoteroClient,
};
use crate::config::Config;
use crate::json::{
    compact_text, field, object, parsed_list, parsed_value, views, Entries, Json, JsonView,
};
use crate::laws::json::law_object;
use crate::laws::text::{law_decimal_injective, law_decimal_reads_back};
use crate::text::{decimal, digits_value, joined, signed_decimal, texts};
use vstd::prelude::*;
use vstd::string::*;

verus! {

/// The name of a library in an address: the kind in the plural and the number, which is 0
/// where none is set.
pub open spec fn is_library(c: ClientView, name: Seq<char>) -> bool {
    let id = if c.user_id is Some {
        c.user_id->0 as nat
    } else {
        0nat
    };
    &&& c.library_type == "user"@ ==> name == "/users/"@ + decimal(id)
    &&& c.library_type == "group"@ ==> name == "/groups/"@ + decimal(id)
    &&& c.library_type != "user"@ && c.library_type != "group"@ ==> name == "/"@ + c.library_type
        + "/"@ + decimal(id)
}

/// The part of an address that names the library.
pub proof fn law_library(client: &ZoteroClient, r: String)
    requires
        call_ensures(ZoteroClient::lib_path, (client,), r),
    ensures
        is_library(client@, r@),
        r@ == client@.prefix(),
{
    lemma_library(client@);
}

proof fn lemma_library(c: ClientView)
    ensures
        is_library(c, c.prefix()),
{
    reveal_strlit("/users/");
    reveal_strlit("/groups/");
    reveal_strlit("/");
    reveal_strlit("users");
    reveal_strlit("groups");
    reveal_strlit("user");
    reveal_strlit("group");
    assert("user"@.len() != "group"@.len());
    assert("/"@ + "users"@ + "/"@ =~= "/users/"@);
    assert("/"@ + "groups"@ + "/"@ =~= "/groups/"@);
}

/// Whether a request asks the library for what stands below a path: it reads, carries the
/// key where there is one and no other header, has no body and may take 30 seconds.
pub open spec fn asks_for(c: ClientView, r: Request, path: Seq<char>) -> bool {
    &&& r.method == Method::Get
    &&& exists|name: Seq<char>| #[trigger]
        is_library(c, name) && r.url@ == c.base + name + path
    &&& r.body is None
    &&& r.timeout == 30
    &&& c.api_key is None ==> r.headers@.len() == 0
    &&& c.api_key is Some ==> {
        &&& r.headers@.len() == 1
        &&& r.headers@[0].0@ == "Zotero-API-Key"@
        &&& r.headers@[0].1@ == c.api_key->0
    }
}

pub proof fn lemma_asks_for(c: ClientView, r: Request, path: Seq<char>)
    requires
        r@ == c.reading(c.url(path)),
    ensures
        asks_for(c, r, path),
        r.url@ == c.base + c.prefix() + path,
{
    lemma_library(c);
    let h = r@.headers;
    assert(h == c.key_header());
    assert(h.len() == r.headers@.len());
    if c.api_key is Some {
        assert(h[0] == (r.headers@[0].0@, r.headers@[0].1@));
        assert(h[0] == ("Zotero-API-Key"@, c.api_key->0));
    }
    assert(is_library(c, c.prefix()) && r.url@ == c.base + c.prefix() + path);
}

/// The client of a configuration speaks to the configured address, library and user, with
/// the configured key.
pub proof fn law_client(cfg: &Config, r: Result<ZoteroClient, ClientError>)
    requires
        call_ensures(ZoteroClient::new, (cfg,), r),
    ensures
        r is Ok,
        r->Ok_0@.base == cfg.api_base@,
        r->Ok_0@.api_key is Some <==> cfg.api_key is Some,
        cfg.api_key is Some ==> r->Ok_0@.api_key->0 == cfg.api_key->0@,
        r->Ok_0@.user_id == cfg.user_id,
        r->Ok_0@.library_type == cfg.library_type@,
{
}

/// The client of another library speaks to the same address with the same key, of the
/// library that is given.
pub proof fn law_other_library(client: &ZoteroClient, library: LibraryRef, r: ZoteroClient)
    requires
        call_ensures(ZoteroClient::with_library, (client, library), r),
    ensures
        r@.base == client@.base,
        r@.api_key == client@.api_key,
        r@.user_id == Some(library.id),
        r@.library_type == library.library_type@,
{
}

/// The request for the items that were added last asks for as many as it is told: the
/// digits behind `limit=` read back as that number, and the rest of the address is fixed.
pub proof fn law_recent(client: &ZoteroClient, n: usize, r: Request)
    requires
        call_ensures(ZoteroClient::recent, (client, n), r),
    ensures
        exists|digits: Seq<char>|
            {
                &&& #[trigger] digits_value(digits) == n
                &&& forall|i: int| 0 <= i < digits.len() ==> '0' <= #[trigger] digits[i] <= '9'
                &&& asks_for(
                    client@,
                    r,
                    "/items?sort=dateAdded&direction=desc&limit="@ + digits + "&v=3"@,
                )
            },
{
    let digits = decimal(n as nat);
    law_decimal_reads_back(n as nat);
    lemma_version();
    let path = "/items?sort=dateAdded&direction=desc&limit="@ + digits + "&v=3"@;
    assert("/items?sort=dateAdded&direction=desc&limit="@ + digits + "&v="@ + "3"@ =~= path);
    lemma_asks_for(client@, r, path);
    assert(digits_value(digits) == n);
}

/// Requests for different numbers of items have different addresses.
pub proof fn law_recent_distinct(
    client: &ZoteroClient,
    n: usize,
    m: usize,
    r: Request,
    s: Request,
)
    requires
        call_ensures(ZoteroClient::recent, (client, n), r),
        call_ensures(ZoteroClient::recent, (client, m), s),
        r.url@ == s.url@,
    ensures
        n == m,
{
    let front = client@.base + client@.prefix()
        + "/items?sort=dateAdded&direction=desc&limit="@;
    lemma_version();
    let a = decimal(n as nat);
    let b = decimal(m as nat);
    assert(r.url@ =~= front + a + "&v=3"@);
    assert(s.url@ =~= front + b + "&v=3"@);
    let k = front.len() as int;
    assert(a.len() == b.len());
    assert(a =~= r.url@.subrange(k, k + a.len()));
    assert(b =~= s.url@.subrange(k, k + b.len()));
    law_decimal_injective(n as nat, m as nat);
}

proof fn lemma_version()
    ensures
        "&v="@ + "3"@ == "&v=3"@,
        "?v="@ + "3"@ == "?v=3"@,
{
    reveal_strlit("&v=");
    reveal_strlit("?v=");
    reveal_strlit("3");
    reveal_strlit("&v=3");
    reveal_strlit("?v=3");
    assert("&v="@ + "3"@ =~= "&v=3"@);
    assert("?v="@ + "3"@ =~= "?v=3"@);
}

/// The value of a hexadecimal digit.
pub open spec fn hex_value(c: char) -> int {
    if '0' <= c <= '9' {
        c as int - '0' as int
    } else {
        c as int - 'A' as int + 10
    }
}

/// Whether a byte is a letter, a digit or one of `-`, `_`, `.`, `~`.
pub open spec fn stands_for_itself(b: u8) -> bool {
    ||| 'a' as int <= b as int <= 'z' as int
    ||| 'A' as int <= b as int <= 'Z' as int
    ||| '0' as int <= b as int <= '9' as int
    ||| b as int == '-' as int
    ||| b as int == '_' as int
    ||| b as int == '.' as int
    ||| b as int == '~' as int
}

/// Of encoded bytes each letter, each digit and each of `-`, `_`, `.`, `~` stands for
/// itself; any other byte is written as `%` and two digits from `0` to `9` and `A` to `F`,
/// which read back as the byte.
pub proof fn law_percent_encoded(bytes: Seq<u8>, b: u8)
    ensures
        percent_encoded(Seq::empty()) == Seq::<char>::empty(),
        stands_for_itself(b) ==> percent_encoded(bytes.push(b)) == percent_encoded(bytes).push(
            b as char,
        ),
        !stands_for_itself(b) ==> exists|high: char, low: char|
            {
                &&& percent_encoded(bytes.push(b)) == percent_encoded(bytes) + #[trigger] seq![
                    '%',
                    high,
                    low,
                ]
                &&& 16 * hex_value(high) + hex_value(low) == b
                &&& '0' <= high <= '9' || 'A' <= high <= 'F'
                &&& '0' <= low <= '9' || 'A' <= low <= 'F'
            },
{
    assert(bytes.push(b).drop_last() =~= bytes);
    if stands_for_itself(b) {
        assert(percent_encoded(bytes.push(b)) =~= percent_encoded(bytes).push(b as char));
    } else {
        let e = encoded_byte(b);
        assert(e =~= seq!['%', e[1], e[2]]);
        assert(percent_encoded(bytes.push(b)) == percent_encoded(bytes) + seq!['%', e[1], e[2]]);
    }
}

/// A search asks for the items that match the encoded query, and for no more than the
/// limit.
pub proof fn law_search_request(client: &ZoteroClient, query: &str, limit: usize, r: Request)
    requires
        call_ensures(ZoteroClient::search, (client, query, limit), r),
    ensures
        asks_for(
            client@,
            r,
            "/items?q="@ + percent_encoded(query.spec_bytes()) + "&limit="@ + decimal(
                limit as nat,
            ) + "&v=3"@,
        ),
        digits_value(decimal(limit as nat)) == limit,
{
    lemma_version();
    law_decimal_reads_back(limit as nat);
    let q = percent_encoded(query.spec_bytes());
    let n = decimal(limit as nat);
    let path = "/items?q="@ + q + "&limit="@ + n + "&v=3"@;
    assert("/items?q="@ + q + "&limit="@ + n + "&v="@ + "3"@ =~= path);
    lemma_asks_for(client@, r, path);
}

/// The request for an item names its key.
pub proof fn law_get_request(client: &ZoteroClient, key: &str, r: Request)
    requires
        call_ensures(ZoteroClient::get, (client, key), r),
    ensures
        asks_for(client@, r, "/items/"@ + key@ + "?v=3"@),
{
    lemma_version();
    let path = "/items/"@ + key@ + "?v=3"@;
    assert("/items/"@ + key@ + "?v="@ + "3"@ =~= path);
    lemma_asks_for(client@, r, path);
}

/// The request for the children of an item names its key.
pub proof fn law_children_request(client: &ZoteroClient, key: &str, r: Request)
    requires
        call_ensures(ZoteroClient::children, (client, key), r),
    ensures
        asks_for(client@, r, "/items/"@ + key@ + "/children?v=3"@),
{
    reveal_strlit("/children?v=");
    reveal_strlit("3");
    reveal_strlit("/children?v=3");
    let path = "/items/"@ + key@ + "/children?v=3"@;
    assert("/children?v="@ + "3"@ =~= "/children?v=3"@);
    assert("/items/"@ + key@ + "/children?v="@ + "3"@ =~= path);
    lemma_asks_for(client@, r, path);
}

/// The request for the full text of an attachment names its key.
pub proof fn law_fulltext_request(client: &ZoteroClient, key: &str, r: Request)
    requires
        call_ensures(ZoteroClient::fulltext, (client, key), r),
    ensures
        asks_for(client@, r, "/items/"@ + key@ + "/fulltext?v=3"@),
{
    reveal_strlit("/fulltext?v=");
    reveal_strlit("3");
    reveal_strlit("/fulltext?v=3");
    let path = "/items/"@ + key@ + "/fulltext?v=3"@;
    assert("/fulltext?v="@ + "3"@ =~= "/fulltext?v=3"@);
    assert("/items/"@ + key@ + "/fulltext?v="@ + "3"@ =~= path);
    lemma_asks_for(client@, r, path);
}

/// The request for the collections.
pub proof fn law_collections_request(client: &ZoteroClient, r: Request)
    requires
        call_ensures(ZoteroClient::collections, (client,), r),
    ensures
        asks_for(client@, r, "/collections?v=3"@),
{
    reveal_strlit("/collections?v=");
    reveal_strlit("3");
    reveal_strlit("/collections?v=3");
    assert("/collections?v="@ + "3"@ =~= "/collections?v=3"@);
    lemma_asks_for(client@, r, "/collections?v=3"@);
}

/// The request for the items of a collection names the collection.
pub proof fn law_collection_items_request(client: &ZoteroClient, id: &str, r: Request)
    requires
        call_ensures(ZoteroClient::collection_items, (client, id), r),
    ensures
        asks_for(client@, r, "/collections/"@ + id@ + "/items?v=3"@),
{
    reveal_strlit("/items?v=");
    reveal_strlit("3");
    reveal_strlit("/items?v=3");
    let path = "/collections/"@ + id@ + "/items?v=3"@;
    assert("/items?v="@ + "3"@ =~= "/items?v=3"@);
    assert("/collections/"@ + id@ + "/items?v="@ + "3"@ =~= path);
    lemma_asks_for(client@, r, path);
}

/// The request for the tags.
pub proof fn law_tags_request(client: &ZoteroClient, r: Request)
    requires
        call_ensures(ZoteroClient::tags, (client,), r),
    ensures
        asks_for(client@, r, "/tags?v=3"@),
{
    reveal_strlit("/tags?v=");
    reveal_strlit("3");
    reveal_strlit("/tags?v=3");
    assert("/tags?v="@ + "3"@ =~= "/tags?v=3"@);
    lemma_asks_for(client@, r, "/tags?v=3"@);
}

/// The request for citations names the keys of all items, with commas between them, and
/// the format.
pub proof fn law_citation_request(
    client: &ZoteroClient,
    keys: &Vec<String>,
    format: &str,
    r: Request,
)
    requires
        call_ensures(ZoteroClient::export_citation, (client, keys, format), r),
    ensures
        asks_for(
            client@,
            r,
            "/items?itemKey="@ + joined(texts(keys@), ","@) + "&format="@ + format@ + "&v=3"@,
        ),
{
    lemma_version();
    let k = joined(texts(keys@), ","@);
    let path = "/items?itemKey="@ + k + "&format="@ + format@ + "&v=3"@;
    assert("/items?itemKey="@ + k + "&format="@ + format@ + "&v="@ + "3"@ =~= path);
    lemma_asks_for(client@, r, path);
}

/// Whether a request changes an item: it names the key in the address, says in a header
/// that the item must still have the version, carries the value as its body and the key
/// where there is one, and may take 30 seconds.
pub open spec fn changes_item(
    c: ClientView,
    r: Request,
    key: Seq<char>,
    version: u64,
    value: JsonView,
) -> bool {
    &&& r.method == Method::Patch
    &&& exists|name: Seq<char>| #[trigger]
        is_library(c, name) && r.url@ == c.base + name + "/items/"@ + key + "?v=3"@
    &&& r.body is Some
    &&& r.body->0@ == compact_text(value)
    &&& r.timeout == 30
    &&& r.headers@.len() == 2 + if c.api_key is Some {
        1int
    } else {
        0int
    }
    &&& r.headers@[0].0@ == "Content-Type"@
    &&& r.headers@[0].1@ == "application/json"@
    &&& r.headers@[1].0@ == "If-Unmodified-Since-Version"@
    &&& r.headers@[1].1@ == decimal(version as nat)
    &&& c.api_key is Some ==> r.headers@[2].0@ == "Zotero-API-Key"@ && r.headers@[2].1@
        == c.api_key->0
}

proof fn lemma_changes_item(
    c: ClientView,
    r: Request,
    key: Seq<char>,
    version: u64,
    value: JsonView,
)
    requires
        r@ == c.patching(c.item_url(key), value, version),
    ensures
        changes_item(c, r, key, version, value),
{
    lemma_library(c);
    lemma_version();
    let h = r@.headers;
    assert(h.len() == r.headers@.len());
    assert(h[0] == (r.headers@[0].0@, r.headers@[0].1@));
    assert(h[1] == (r.headers@[1].0@, r.headers@[1].1@));
    if c.api_key is Some {
        assert(h[2] == (r.headers@[2].0@, r.headers@[2].1@));
        assert(h[2] == ("Zotero-API-Key"@, c.api_key->0));
    }
    assert(r.url@ =~= c.base + c.prefix() + "/items/"@ + key + "?v=3"@);
    assert(r.body.deep_view() == Some(compact_text(value)));
    assert(is_library(c, c.prefix()) && r.url@ == c.base + c.prefix() + "/items/"@ + key
        + "?v=3"@);
}

/// The change of an item sends the fields that are given, for the version that is given.
pub proof fn law_patch_request(
    client: &ZoteroClient,
    key: &str,
    version: u64,
    data: &Json,
    r: Request,
)
    requires
        call_ensures(ZoteroClient::patch_item, (client, key, version, data), r),
    ensures
        changes_item(client@, r, key@, version, data@),
{
    lemma_changes_item(client@, r, key@, version, data@);
}

/// Moving an item to the trash sets its field `deleted` to 1 and no other field.
pub proof fn law_trash_request(
    client: &ZoteroClient,
    key: &str,
    version: u64,
    r: Request,
    k: Seq<char>,
)
    requires
        call_ensures(ZoteroClient::trash_item, (client, key, version), r),
    ensures
        exists|value: JsonView|
            {
                &&& #[trigger] changes_item(client@, r, key@, version, value)
                &&& field(value, "deleted"@) == Some(JsonView::Unsigned(1))
                &&& k != "deleted"@ ==> field(value, k) is None
            },
{
    let pairs: Entries = seq![("deleted"@, JsonView::Unsigned(1))];
    assert(pairs[0].0 == "deleted"@);
    law_object(pairs, "deleted"@);
    law_object(pairs, k);
    let value = JsonView::Object(object(pairs));
    lemma_changes_item(client@, r, key@, version, value);
}

/// Adding an article by its DOI posts to the items of the library a list of one new item:
/// a journal article with that DOI and no other field.
pub proof fn law_add_doi_request(client: &ZoteroClient, doi: &str, r: Request, k: Seq<char>)
    requires
        call_ensures(ZoteroClient::add_doi, (client, doi), r),
    ensures
        r.method == Method::Post,
        exists|name: Seq<char>| #[trigger]
            is_library(client@, name) && r.url@ == client@.base + name + "/items?v=3"@,
        r.timeout == 30,
        r.headers@.len() == 1 + if client@.api_key is Some {
            1int
        } else {
            0int
        },
        r.headers@[0].0@ == "Content-Type"@,
        r.headers@[0].1@ == "application/json"@,
        client@.api_key is Some ==> r.headers@[1].0@ == "Zotero-API-Key"@ && r.headers@[1].1@
            == client@.api_key->0,
        r.body is Some,
        exists|item: JsonView|
            {
                &&& r.body->0@ == compact_text(JsonView::Array(#[trigger] seq![item]))
                &&& field(item, "itemType"@) == Some(JsonView::Text("journalArticle"@))
                &&& field(item, "DOI"@) == Some(JsonView::Text(doi@))
                &&& k != "itemType"@ && k != "DOI"@ ==> field(item, k) is None
            },
{
    let c = client@;
    lemma_library(c);
    reveal_strlit("/items?v=");
    reveal_strlit("3");
    reveal_strlit("/items?v=3");
    reveal_strlit("itemType");
    reveal_strlit("DOI");
    assert("itemType"@.len() != "DOI"@.len());
    assert("/items?v="@ + "3"@ =~= "/items?v=3"@);
    assert(is_library(c, c.prefix()) && r.url@ == c.base + c.prefix() + "/items?v=3"@);
    let h = r@.headers;
    assert(h.len() == r.headers@.len());
    assert(h[0] == (r.headers@[0].0@, r.headers@[0].1@));
    if c.api_key is Some {
        assert(h[1] == (r.headers@[1].0@, r.headers@[1].1@));
        assert(h[1] == ("Zotero-API-Key"@, c.api_key->0));
    }
    let pairs: Entries = seq![
        ("itemType"@, JsonView::Text("journalArticle"@)),
        ("DOI"@, JsonView::Text(doi@)),
    ];
    assert(pairs[0].0 == "itemType"@ && pairs[1].0 == "DOI"@);
    law_object(pairs, "itemType"@);
    law_object(pairs, "DOI"@);
    law_object(pairs, k);
    let item = JsonView::Object(object(pairs));
    assert(r.body.deep_view() == Some(compact_text(JsonView::Array(seq![item]))));
}

/// Adding what stands at a web address posts that address to the translator service on
/// this machine, under the session of the command line tool and without the key.
pub proof fn law_add_url_request(client: &ZoteroClient, url: &str, r: Request, k: Seq<char>)
    requires
        call_ensures(ZoteroClient::add_url, (client, url), r),
    ensures
        r.method == Method::Post,
        r.url@ == "http://localhost:1969/web"@,
        r.timeout == 30,
        r.headers@.len() == 1,
        r.headers@[0].0@ == "Content-Type"@,
        r.headers@[0].1@ == "application/json"@,
        r.body is Some,
        exists|value: JsonView|
            {
                &&& r.body->0@ == #[trigger] compact_text(value)
                &&& field(value, "url"@) == Some(JsonView::Text(url@))
                &&& field(value, "sessionID"@) == Some(JsonView::Text("zotero-cli"@))
                &&& k != "url"@ && k != "sessionID"@ ==> field(value, k) is None
            },
{
    reveal_strlit("url");
    reveal_strlit("sessionID");
    assert("url"@.len() != "sessionID"@.len());
    let h = r@.headers;
    assert(h.len() == r.headers@.len());
    assert(h[0] == (r.headers@[0].0@, r.headers@[0].1@));
    let pairs: Entries = seq![
        ("url"@, JsonView::Text(url@)),
        ("sessionID"@, JsonView::Text("zotero-cli"@)),
    ];
    assert(pairs[0].0 == "url"@ && pairs[1].0 == "sessionID"@);
    law_object(pairs, "url"@);
    law_object(pairs, "sessionID"@);
    law_object(pairs, k);
    let value = JsonView::Object(object(pairs));
    assert(r.body.deep_view() == Some(compact_text(value)));
}

/// What the errors of the client say.
pub proof fn law_error_text(e: &ClientError, r: String)
    requires
        call_ensures(ClientError::message, (e,), r),
    ensures
        r@ == e.text(),
        *e matches ClientError::Failed { step, detail } ==> r@ == step@ + ": "@ + detail@,
        *e matches ClientError::Api { status, body } ==> r@ == "Zotero API error "@
            + signed_decimal(status as int) + ": "@ + body@,
        *e matches ClientError::Translator { status, body } ==> r@ == "Zotero translator error "@
            + signed_decimal(status as int) + ": "@ + body@,
        *e is VersionConflict ==> r@
            == "item was modified since it was retrieved (version conflict) -- retry"@,
{
}

/// Whether an outcome is the failure of a step, with the reason.
pub open spec fn failed_in<T>(r: Result<T, ClientError>, step: Seq<char>, why: Seq<char>) -> bool {
    &&& r is Err
    &&& r->Err_0 is Failed
    &&& r->Err_0->step@ == step
    &&& r->Err_0->detail@ == why
}

/// Whether an outcome is an error of the API with a status and the body of the response,
/// or an empty one where the body could not be read.
pub open spec fn api_error<T>(
    r: Result<T, ClientError>,
    status: i32,
    body: Result<String, String>,
) -> bool {
    &&& r is Err
    &&& r->Err_0 is Api
    &&& r->Err_0->Api_status == status
    &&& body is Ok ==> r->Err_0->Api_body@ == body->Ok_0@
    &&& body is Err ==> r->Err_0->Api_body@.len() == 0
}

/// Whether an outcome is an error of the translator service with a status and the body of
/// the response, or an empty one where the body could not be read.
pub open spec fn translator_error<T>(
    r: Result<T, ClientError>,
    status: i32,
    body: Result<String, String>,
) -> bool {
    &&& r is Err
    &&& r->Err_0 is Translator
    &&& r->Err_0->Translator_status == status
    &&& body is Ok ==> r->Err_0->Translator_body@ == body->Ok_0@
    &&& body is Err ==> r->Err_0->Translator_body@.len() == 0
}

/// A response of the API with a status of 400 or above is an error with that status and
/// the body; any other is its body, or the failure to read it.
pub proof fn law_response(
    status: i32,
    body: Result<String, String>,
    r: Result<String, ClientError>,
)
    requires
        call_ensures(read_response, (status, body), r),
    ensures
        status >= 400 ==> api_error(r, status, body),
        status < 400 && body is Ok ==> r is Ok && r->Ok_0@ == body->Ok_0@,
        status < 400 && body is Err ==> failed_in(r, "reading response body"@, body->Err_0@),
{
}

/// A response to a change says with the status 412, and with no other, that the item has
/// another version by now.
pub proof fn law_patch_response(
    status: i32,
    body: Result<String, String>,
    r: Result<String, ClientError>,
)
    requires
        call_ensures(read_patch_response, (status, body), r),
    ensures
        status == 412 <==> r is Err && r->Err_0 is VersionConflict,
        status >= 400 && status != 412 ==> api_error(r, status, body),
        status < 400 && body is Ok ==> r is Ok && r->Ok_0@ == body->Ok_0@,
        status < 400 && body is Err ==> failed_in(r, "reading response body"@, body->Err_0@),
{
}

/// A response to a request for a full text says with the status 404, and with no other,
/// that there is none.
pub proof fn law_fulltext_response(
    status: i32,
    body: Result<String, String>,
    r: Result<Option<String>, ClientError>,
)
    requires
        call_ensures(read_fulltext_response, (status, body), r),
    ensures
        status == 404 <==> r is Ok && r->Ok_0 is None,
        status >= 400 && status != 404 ==> api_error(r, status, body),
        status < 400 && body is Ok ==> r is Ok && r->Ok_0 is Some && r->Ok_0->0@ == body->Ok_0@,
        status < 400 && body is Err ==> failed_in(r, "reading response body"@, body->Err_0@),
{
}

/// A response of the translator service is read as one of the API, with errors of its own.
pub proof fn law_translator_response(
    status: i32,
    body: Result<String, String>,
    r: Result<String, ClientError>,
)
    requires
        call_ensures(read_translator_response, (status, body), r),
    ensures
        status >= 400 ==> translator_error(r, status, body),
        status < 400 && body is Ok ==> r is Ok && r->Ok_0@ == body->Ok_0@,
        status < 400 && body is Err ==> failed_in(r, "reading response body"@, body->Err_0@),
{
}

/// Whether a list was read from a response of the API, or why it was not.
pub open spec fn reads_list(
    status: i32,
    body: Result<String, String>,
    step: Seq<char>,
    r: Result<Vec<Json>, ClientError>,
) -> bool {
    &&& status >= 400 ==> api_error(r, status, body)
    &&& status < 400 && body is Err ==> failed_in(r, "reading response body"@, body->Err_0@)
    &&& status < 400 && body is Ok && parsed_list(body->Ok_0@) is Ok ==> r is Ok && views(
        r->Ok_0@,
    ) == parsed_list(body->Ok_0@)->Ok_0
    &&& status < 400 && body is Ok && parsed_list(body->Ok_0@) is Err ==> failed_in(
        r,
        step,
        parsed_list(body->Ok_0@)->Err_0,
    )
}

/// The children of an item are the list in the response.
pub proof fn law_children_response(
    status: i32,
    body: Result<String, String>,
    r: Result<Vec<Json>, ClientError>,
)
    requires
        call_ensures(read_children_response, (status, body), r),
    ensures
        reads_list(status, body, "parsing children"@, r),
{
}

/// The tags are the list in the response.
pub proof fn law_tags_response(
    status: i32,
    body: Result<String, String>,
    r: Result<Vec<Json>, ClientError>,
)
    requires
        call_ensures(read_tags_response, (status, body), r),
    ensures
        reads_list(status, body, "parsing tags"@, r),
{
}

/// Whether a value was read from the body of a response, or why it was not.
pub open spec fn reads_value(
    body: Result<String, String>,
    step: Seq<char>,
    r: Result<Json, ClientError>,
) -> bool {
    &&& body is Err ==> failed_in(r, "reading response body"@, body->Err_0@)
    &&& body is Ok && parsed_value(body->Ok_0@) is Ok ==> r is Ok && r->Ok_0@ == parsed_value(
        body->Ok_0@,
    )->Ok_0
    &&& body is Ok && parsed_value(body->Ok_0@) is Err ==> failed_in(
        r,
        step,
        parsed_value(body->Ok_0@)->Err_0,
    )
}

/// What was added by its DOI is the value in the response.
pub proof fn law_add_doi_response(
    status: i32,
    body: Result<String, String>,
    r: Result<Json, ClientError>,
)
    requires
        call_ensures(read_add_doi_response, (status, body), r),
    ensures
        status >= 400 ==> api_error(r, status, body),
        status < 400 ==> reads_value(body, "parsing add doi response"@, r),
{
}

/// What was added by its web address is the value in the response.
pub proof fn law_add_url_response(
    status: i32,
    body: Result<String, String>,
    r: Result<Json, ClientError>,
)
    requires
        call_ensures(read_add_url_response, (status, body), r),
    ensures
        status >= 400 ==> translator_error(r, status, body),
        status < 400 ==> reads_value(body, "parsing add url response"@, r),
{
}

/// The outcome of a step is its result, or an error that names the step and the reason.
pub proof fn law_step<T>(
    outcome: Result<T, String>,
    step: &str,
    r: Result<T, ClientError>,
)
    requires
        call_ensures(in_step::<T>, (outcome, step), r),
    ensures
        outcome is Ok ==> r is Ok && r->Ok_0 == outcome->Ok_0,
        outcome is Err ==> failed_in(r, step@, outcome->Err_0@),
{
}

/// The outcome of sending a request is the response, or an error that says whether a
/// change or another request could not be sent.
pub proof fn law_sending<T>(
    outcome: Result<T, String>,
    method: Method,
    r: Result<T, ClientError>,
)
    requires
        call_ensures(in_sending::<T>, (outcome, method), r),
    ensures
        outcome is Ok ==> r is Ok && r->Ok_0 == outcome->Ok_0,
        outcome is Err && method == Method::Patch ==> failed_in(
            r,
            "sending PATCH request"@,
            outcome->Err_0@,
        ),
        outcome is Err && method != Method::Patch ==> failed_in(
            r,
            "sending request"@,
            outcome->Err_0@,
        ),
{
}

} // verus!
