//! The requests to the Zotero API and the reading of its responses. A request is
//! built here and sent elsewhere.

use crate::config::Config;
use crate::json::{
    compact_text, lemma_array_view, object, parse_list, parsed_list, parsed_value, put_field,
    single, views, Entries, Json, JsonObject, JsonView,
};
use crate::text::{
    decimal, decimal_text, join, joined, same_text, signed_decimal, signed_decimal_text, texts,
};
use vstd::prelude::*;
use vstd::string::*;

verus! {

/// The version of the API that every request asks for.
pub const API_VERSION: &'static str = "3";

/// The address of the translator service.
pub const TRANSLATOR_URL: &'static str = "http://localhost:1969/web";

/// How many seconds a request may take.
pub const TIMEOUT_SECONDS: u64 = 30;

/// The method of a request.
#[derive(Debug, Clone, Copy, PartialEq, Eq, Structural)]
pub enum Method {
    Get,
    Post,
    Patch,
}

/// A request to be sent.
#[derive(Debug)]
pub struct Request {
    pub method: Method,
    pub url: String,
    pub headers: Vec<(String, String)>,
    pub body: Option<String>,
    pub timeout: u64,
}

/// The mathematical value of a [`Request`].
pub struct RequestView {
    pub method: Method,
    pub url: Seq<char>,
    pub headers: Seq<(Seq<char>, Seq<char>)>,
    pub body: Option<Seq<char>>,
    pub timeout: u64,
}

impl View for Request {
    type V = RequestView;

    open spec fn view(&self) -> RequestView {
        RequestView {
            method: self.method,
            url: self.url@,
            headers: self.headers@.map_values(|h: (String, String)| (h.0@, h.1@)),
            body: self.body.deep_view(),
            timeout: self.timeout,
        }
    }
}

/// A library other than the configured one.
#[derive(Debug, Clone)]
pub struct LibraryRef {
    /// "user" or "group".
    pub library_type: String,
    pub id: u64,
}

/// Speaks to one library of the API.
#[derive(Debug)]
pub struct ZoteroClient {
    base: String,
    api_key: Option<String>,
    user_id: Option<u64>,
    library_type: String,
}

/// The mathematical value of a [`ZoteroClient`].
pub struct ClientView {
    pub base: Seq<char>,
    pub api_key: Option<Seq<char>>,
    pub user_id: Option<u64>,
    pub library_type: Seq<char>,
}

impl View for ZoteroClient {
    type V = ClientView;

    closed spec fn view(&self) -> ClientView {
        ClientView {
            base: self.base@,
            api_key: self.api_key.deep_view(),
            user_id: self.user_id,
            library_type: self.library_type@,
        }
    }
}

impl Clone for ZoteroClient {
    fn clone(&self) -> (r: ZoteroClient)
        ensures
            r@ == self@,
    {
        ZoteroClient {
            base: self.base.clone(),
            api_key: self.api_key.clone(),
            user_id: self.user_id,
            library_type: self.library_type.clone(),
        }
    }
}

/// The plural under which the API lists the libraries of a kind.
pub open spec fn plural(s: Seq<char>) -> Seq<char> {
    if s == "user"@ {
        "users"@
    } else if s == "group"@ {
        "groups"@
    } else {
        s
    }
}

/// Puts the kind of a library in the plural.
pub fn pluralise(s: &str) -> (r: &str)
    ensures
        r@ == plural(s@),
{
    if same_text(s, "user") {
        "users"
    } else if same_text(s, "group") {
        "groups"
    } else {
        s
    }
}

impl ClientView {
    /// The part of the path that names the library. The user 0 is the one who is
    /// logged in.
    pub open spec fn prefix(self) -> Seq<char> {
        "/"@ + plural(self.library_type) + "/"@ + decimal(
            match self.user_id {
                Some(id) => id as nat,
                None => 0,
            },
        )
    }

    /// An address below the library.
    pub open spec fn url(self, rest: Seq<char>) -> Seq<char> {
        self.base + self.prefix() + rest
    }

    /// The header with the key, where there is one.
    pub open spec fn key_header(self) -> Seq<(Seq<char>, Seq<char>)> {
        match self.api_key {
            Some(key) => seq![("Zotero-API-Key"@, key)],
            None => Seq::empty(),
        }
    }

    /// A request that reads an address.
    pub open spec fn reading(self, url: Seq<char>) -> RequestView {
        RequestView {
            method: Method::Get,
            url,
            headers: self.key_header(),
            body: None,
            timeout: TIMEOUT_SECONDS,
        }
    }

    /// A request that posts a value.
    pub open spec fn posting(self, url: Seq<char>, payload: JsonView) -> RequestView {
        RequestView {
            method: Method::Post,
            url,
            headers: seq![("Content-Type"@, "application/json"@)] + self.key_header(),
            body: Some(compact_text(payload)),
            timeout: TIMEOUT_SECONDS,
        }
    }

    /// A request that changes an item, provided that the item still has the given
    /// version.
    pub open spec fn patching(
        self,
        url: Seq<char>,
        payload: JsonView,
        version: u64,
    ) -> RequestView {
        RequestView {
            method: Method::Patch,
            url,
            headers: seq![
                ("Content-Type"@, "application/json"@),
                ("If-Unmodified-Since-Version"@, decimal(version as nat)),
            ] + self.key_header(),
            body: Some(compact_text(payload)),
            timeout: TIMEOUT_SECONDS,
        }
    }

    /// The address of the items that were added last.
    pub open spec fn recent_url(self, n: nat) -> Seq<char> {
        self.url(
            "/items?sort=dateAdded&direction=desc&limit="@ + decimal(n) + "&v="@ + API_VERSION@,
        )
    }

    /// The address of the citations of items in a format.
    pub open spec fn citation_url(self, keys: Seq<Seq<char>>, format: Seq<char>) -> Seq<char> {
        self.url(
            "/items?itemKey="@ + joined(keys, ","@) + "&format="@ + format + "&v="@
                + API_VERSION@,
        )
    }

    /// The address of an item.
    pub open spec fn item_url(self, key: Seq<char>) -> Seq<char> {
        self.url("/items/"@ + key + "?v="@ + API_VERSION@)
    }
}

/// Whether a byte stands for itself in an address: letters, digits and `-`, `_`,
/// `.`, `~`.
pub open spec fn unreserved(b: u8) -> bool {
    ||| 0x30 <= b <= 0x39
    ||| 0x41 <= b <= 0x5a
    ||| 0x61 <= b <= 0x7a
    ||| b == 0x2d
    ||| b == 0x5f
    ||| b == 0x2e
    ||| b == 0x7e
}

/// The upper-case hexadecimal digit of a number below sixteen.
pub open spec fn hex_digit(d: int) -> char {
    if d < 10 {
        (0x30 + d) as char
    } else {
        (0x37 + d) as char
    }
}

/// A byte in an address.
pub open spec fn encoded_byte(b: u8) -> Seq<char> {
    if unreserved(b) {
        seq![b as char]
    } else {
        seq!['%', hex_digit(b as int / 16), hex_digit(b as int % 16)]
    }
}

/// Bytes in an address: each byte that does not stand for itself is written as
/// `%` and two hexadecimal digits.
pub open spec fn percent_encoded(bytes: Seq<u8>) -> Seq<char>
    decreases bytes.len(),
{
    if bytes.len() == 0 {
        Seq::empty()
    } else {
        percent_encoded(bytes.drop_last()) + encoded_byte(bytes.last())
    }
}

/// A character that an encoded text can hold.
pub open spec fn encoded_character(c: char) -> bool {
    ||| '0' <= c <= '9'
    ||| 'A' <= c <= 'Z'
    ||| 'a' <= c <= 'z'
    ||| c == '-'
    ||| c == '_'
    ||| c == '.'
    ||| c == '~'
    ||| c == '%'
}

/// An encoded text holds letters, digits and `-`, `_`, `.`, `~`, `%` only: none of the
/// characters that part an address, so that a query stays one value.
pub proof fn lemma_encoded_characters(bytes: Seq<u8>)
    ensures
        forall|i: int|
            0 <= i < percent_encoded(bytes).len() ==> encoded_character(
                #[trigger] percent_encoded(bytes)[i],
            ),
    decreases bytes.len(),
{
    if bytes.len() > 0 {
        lemma_encoded_characters(bytes.drop_last());
        let front = percent_encoded(bytes.drop_last());
        let last = encoded_byte(bytes.last());
        assert forall|i: int| 0 <= i < last.len() implies encoded_character(
            #[trigger] last[i],
        ) by {}
        assert forall|i: int| 0 <= i < percent_encoded(bytes).len() implies encoded_character(
            #[trigger] percent_encoded(bytes)[i],
        ) by {
            if i < front.len() {
                assert(percent_encoded(bytes)[i] == front[i]);
            } else {
                assert(percent_encoded(bytes)[i] == last[i - front.len()]);
            }
        }
    }
}

/// Calls `urlencoding::encode`, which percent-encodes every byte of the UTF-8 text
/// but letters, digits and `-`, `_`, `.`, `~`.
#[verifier::external_body]
fn url_encode(s: &str) -> (r: String)
    ensures
        r@ == percent_encoded(s.spec_bytes()),
{
    urlencoding::encode(s).into_owned()
}

impl ZoteroClient {
    /// A client for the configured library.
    pub fn new(cfg: &Config) -> (r: Result<ZoteroClient, ClientError>)
        ensures
            r is Ok,
            r->Ok_0@ == (ClientView {
                base: cfg.api_base@,
                api_key: cfg.api_key.deep_view(),
                user_id: cfg.user_id,
                library_type: cfg.library_type@,
            }),
    {
        Ok(
            ZoteroClient {
                base: cfg.api_base.clone(),
                api_key: cfg.api_key.clone(),
                user_id: cfg.user_id,
                library_type: cfg.library_type.clone(),
            },
        )
    }

    /// The same client for another library.
    pub fn with_library(&self, library: LibraryRef) -> (r: ZoteroClient)
        ensures
            r@ == (ClientView {
                user_id: Some(library.id),
                library_type: library.library_type@,
                ..self@
            }),
    {
        ZoteroClient {
            base: self.base.clone(),
            api_key: self.api_key.clone(),
            user_id: Some(library.id),
            library_type: library.library_type,
        }
    }

    /// The part of the path that names the library, such as `/users/123` or
    /// `/groups/456`.
    pub fn lib_path(&self) -> (r: String)
        ensures
            r@ == self@.prefix(),
    {
        let id: u64 = match self.user_id {
            Some(id) => id,
            None => 0,
        };
        let mut out = "/".to_owned();
        out.append(pluralise(self.library_type.as_str()));
        out.append("/");
        out.append(decimal_text(id).as_str());
        out
    }

    /// An address below the library.
    fn library_url(&self, rest: &str) -> (r: String)
        ensures
            r@ == self@.url(rest@),
    {
        let mut out = self.base.clone();
        out.append(self.lib_path().as_str());
        out.append(rest);
        out
    }

    fn push_key_header(&self, headers: &mut Vec<(String, String)>)
        ensures
            headers_view(final(headers)@) == headers_view(old(headers)@) + self@.key_header(),
    {
        let ghost first = headers_view(headers@);
        match &self.api_key {
            Some(key) => {
                headers.push(("Zotero-API-Key".to_owned(), key.clone()));
            },
            None => {},
        }
        assert(headers_view(headers@) =~= first + self@.key_header());
    }

    fn get_json(&self, url: String) -> (r: Request)
        ensures
            r@ == self@.reading(url@),
    {
        let mut headers: Vec<(String, String)> = Vec::new();
        self.push_key_header(&mut headers);
        assert(headers_view(headers@) =~= self@.key_header());
        Request { method: Method::Get, url, headers, body: None, timeout: TIMEOUT_SECONDS }
    }

    fn post_json(&self, url: String, payload: &Json) -> (r: Request)
        ensures
            r@ == self@.posting(url@, payload@),
    {
        let mut headers: Vec<(String, String)> = Vec::new();
        headers.push(("Content-Type".to_owned(), "application/json".to_owned()));
        assert(headers_view(headers@) =~= seq![("Content-Type"@, "application/json"@)]);
        self.push_key_header(&mut headers);
        Request {
            method: Method::Post,
            url,
            headers,
            body: Some(payload.to_text()),
            timeout: TIMEOUT_SECONDS,
        }
    }

    fn patch_json(&self, url: String, payload: &Json, version: u64) -> (r: Request)
        ensures
            r@ == self@.patching(url@, payload@, version),
    {
        let mut headers: Vec<(String, String)> = Vec::new();
        headers.push(("Content-Type".to_owned(), "application/json".to_owned()));
        headers.push(("If-Unmodified-Since-Version".to_owned(), decimal_text(version)));
        assert(headers_view(headers@) =~= seq![
            ("Content-Type"@, "application/json"@),
            ("If-Unmodified-Since-Version"@, decimal(version as nat)),
        ]);
        self.push_key_header(&mut headers);
        Request {
            method: Method::Patch,
            url,
            headers,
            body: Some(payload.to_text()),
            timeout: TIMEOUT_SECONDS,
        }
    }

    /// Asks for the items that match a query.
    pub fn search(&self, query: &str, limit: usize) -> (r: Request)
        ensures
            r@ == self@.reading(
                self@.url(
                    "/items?q="@ + percent_encoded(query.spec_bytes()) + "&limit="@ + decimal(
                        limit as nat,
                    ) + "&v="@ + API_VERSION@,
                ),
            ),
    {
        let mut rest = "/items?q=".to_owned();
        rest.append(url_encode(query).as_str());
        rest.append("&limit=");
        rest.append(decimal_text(limit as u64).as_str());
        rest.append("&v=");
        rest.append(API_VERSION);
        self.get_json(self.library_url(rest.as_str()))
    }

    fn item_url(&self, key: &str) -> (r: String)
        ensures
            r@ == self@.item_url(key@),
    {
        let mut rest = "/items/".to_owned();
        rest.append(key);
        rest.append("?v=");
        rest.append(API_VERSION);
        self.library_url(rest.as_str())
    }

    /// Asks for an item.
    pub fn get(&self, key: &str) -> (r: Request)
        ensures
            r@ == self@.reading(self@.item_url(key@)),
    {
        self.get_json(self.item_url(key))
    }

    /// Asks for the notes, attachments and annotations of an item.
    pub fn children(&self, key: &str) -> (r: Request)
        ensures
            r@ == self@.reading(
                self@.url("/items/"@ + key@ + "/children?v="@ + API_VERSION@),
            ),
    {
        let mut rest = "/items/".to_owned();
        rest.append(key);
        rest.append("/children?v=");
        rest.append(API_VERSION);
        self.get_json(self.library_url(rest.as_str()))
    }

    /// Asks for the indexed full text of an attachment.
    pub fn fulltext(&self, key: &str) -> (r: Request)
        ensures
            r@ == self@.reading(
                self@.url("/items/"@ + key@ + "/fulltext?v="@ + API_VERSION@),
            ),
    {
        let mut rest = "/items/".to_owned();
        rest.append(key);
        rest.append("/fulltext?v=");
        rest.append(API_VERSION);
        self.get_json(self.library_url(rest.as_str()))
    }

    /// Asks for the collections.
    pub fn collections(&self) -> (r: Request)
        ensures
            r@ == self@.reading(self@.url("/collections?v="@ + API_VERSION@)),
    {
        let mut rest = "/collections?v=".to_owned();
        rest.append(API_VERSION);
        self.get_json(self.library_url(rest.as_str()))
    }

    /// Asks for the items of a collection.
    pub fn collection_items(&self, id: &str) -> (r: Request)
        ensures
            r@ == self@.reading(
                self@.url("/collections/"@ + id@ + "/items?v="@ + API_VERSION@),
            ),
    {
        let mut rest = "/collections/".to_owned();
        rest.append(id);
        rest.append("/items?v=");
        rest.append(API_VERSION);
        self.get_json(self.library_url(rest.as_str()))
    }

    /// Asks for the tags.
    pub fn tags(&self) -> (r: Request)
        ensures
            r@ == self@.reading(self@.url("/tags?v="@ + API_VERSION@)),
    {
        let mut rest = "/tags?v=".to_owned();
        rest.append(API_VERSION);
        self.get_json(self.library_url(rest.as_str()))
    }

    /// Asks for the items that were added last.
    pub fn recent(&self, n: usize) -> (r: Request)
        ensures
            r@ == self@.reading(self@.recent_url(n as nat)),
    {
        let mut rest = "/items?sort=dateAdded&direction=desc&limit=".to_owned();
        rest.append(decimal_text(n as u64).as_str());
        rest.append("&v=");
        rest.append(API_VERSION);
        self.get_json(self.library_url(rest.as_str()))
    }

    /// Asks for the citations of items in a format, all in one request.
    pub fn export_citation(&self, keys: &Vec<String>, format: &str) -> (r: Request)
        ensures
            r@ == self@.reading(self@.citation_url(texts(keys@), format@)),
    {
        let mut rest = "/items?itemKey=".to_owned();
        rest.append(join(keys, ",").as_str());
        rest.append("&format=");
        rest.append(format);
        rest.append("&v=");
        rest.append(API_VERSION);
        self.get_json(self.library_url(rest.as_str()))
    }

    /// Changes fields of an item that has the given version.
    pub fn patch_item(&self, key: &str, version: u64, data: &Json) -> (r: Request)
        ensures
            r@ == self@.patching(self@.item_url(key@), data@, version),
    {
        self.patch_json(self.item_url(key), data, version)
    }

    /// Moves an item that has the given version to the trash.
    pub fn trash_item(&self, key: &str, version: u64) -> (r: Request)
        ensures
            r@ == self@.patching(self@.item_url(key@), trash_payload(), version),
    {
        let payload = Json::Object(single("deleted", Json::Unsigned(1)));
        self.patch_json(self.item_url(key), &payload, version)
    }

    /// Adds a journal article to the library by its DOI.
    pub fn add_doi(&self, doi: &str) -> (r: Request)
        ensures
            r@ == self@.posting(self@.url("/items?v="@ + API_VERSION@), doi_payload(doi@)),
    {
        let mut rest = "/items?v=".to_owned();
        rest.append(API_VERSION);
        let url = self.library_url(rest.as_str());
        let ghost all = seq![
            ("itemType"@, JsonView::Text("journalArticle"@)),
            ("DOI"@, JsonView::Text(doi@)),
        ];
        let mut o = JsonObject::new();
        assert(all.take(0) =~= Entries::empty());
        put_field(&mut o, Ghost(all), Ghost(0), "itemType", Json::text("journalArticle"));
        put_field(&mut o, Ghost(all), Ghost(1), "DOI", Json::text(doi));
        assert(all.take(2) =~= all);
        let mut items: Vec<Json> = Vec::new();
        items.push(Json::Object(o));
        proof {
            lemma_array_view(items);
            assert(views(items@) =~= seq![JsonView::Object(object(all))]);
        }
        self.post_json(url, &Json::Array(items))
    }

    /// Asks the translator service to add what stands at a web address.
    pub fn add_url(&self, add_url: &str) -> (r: Request)
        ensures
            r@ == (RequestView {
                method: Method::Post,
                url: TRANSLATOR_URL@,
                headers: seq![("Content-Type"@, "application/json"@)],
                body: Some(compact_text(url_payload(add_url@))),
                timeout: TIMEOUT_SECONDS,
            }),
    {
        let ghost all = seq![
            ("url"@, JsonView::Text(add_url@)),
            ("sessionID"@, JsonView::Text("zotero-cli"@)),
        ];
        let mut o = JsonObject::new();
        assert(all.take(0) =~= Entries::empty());
        put_field(&mut o, Ghost(all), Ghost(0), "url", Json::text(add_url));
        put_field(&mut o, Ghost(all), Ghost(1), "sessionID", Json::text("zotero-cli"));
        assert(all.take(2) =~= all);
        let mut headers: Vec<(String, String)> = Vec::new();
        headers.push(("Content-Type".to_owned(), "application/json".to_owned()));
        assert(headers_view(headers@) =~= seq![("Content-Type"@, "application/json"@)]);
        Request {
            method: Method::Post,
            url: TRANSLATOR_URL.to_owned(),
            headers,
            body: Some(Json::Object(o).to_text()),
            timeout: TIMEOUT_SECONDS,
        }
    }
}

/// The characters of headers.
pub open spec fn headers_view(h: Seq<(String, String)>) -> Seq<(Seq<char>, Seq<char>)> {
    h.map_values(|h: (String, String)| (h.0@, h.1@))
}

/// The change that moves an item to the trash.
pub open spec fn trash_payload() -> JsonView {
    JsonView::Object(object(seq![("deleted"@, JsonView::Unsigned(1))]))
}

/// A new journal article with a DOI.
pub open spec fn doi_payload(doi: Seq<char>) -> JsonView {
    JsonView::Array(
        seq![
            JsonView::Object(
                object(
                    seq![
                        ("itemType"@, JsonView::Text("journalArticle"@)),
                        ("DOI"@, JsonView::Text(doi)),
                    ],
                ),
            ),
        ],
    )
}

/// A web address for the translator service.
pub open spec fn url_payload(url: Seq<char>) -> JsonView {
    JsonView::Object(
        object(
            seq![
                ("url"@, JsonView::Text(url)),
                ("sessionID"@, JsonView::Text("zotero-cli"@)),
            ],
        ),
    )
}

/// What went wrong with a request.
#[derive(Debug)]
pub enum ClientError {
    /// A step failed; the detail says why.
    Failed { step: String, detail: String },
    /// The API answered with an error.
    Api { status: i32, body: String },
    /// The translator service answered with an error.
    Translator { status: i32, body: String },
    /// The item has another version than the one that was to be changed.
    VersionConflict,
}

impl ClientError {
    /// What the error says.
    pub open spec fn text(self) -> Seq<char> {
        match self {
            ClientError::Failed { step, detail } => step@ + ": "@ + detail@,
            ClientError::Api { status, body } => "Zotero API error "@ + signed_decimal(
                status as int,
            ) + ": "@ + body@,
            ClientError::Translator { status, body } => "Zotero translator error "@
                + signed_decimal(status as int) + ": "@ + body@,
            ClientError::VersionConflict =>
                "item was modified since it was retrieved (version conflict) -- retry"@,
        }
    }

    /// What the error says.
    pub fn message(&self) -> (r: String)
        ensures
            r@ == self.text(),
    {
        match self {
            ClientError::Failed { step, detail } => {
                let mut out = step.clone();
                out.append(": ");
                out.append(detail.as_str());
                out
            },
            ClientError::Api { status, body } => status_message("Zotero API error ", *status, body),
            ClientError::Translator { status, body } => {
                status_message("Zotero translator error ", *status, body)
            },
            ClientError::VersionConflict => {
                "item was modified since it was retrieved (version conflict) -- retry".to_owned()
            },
        }
    }
}

fn status_message(label: &str, status: i32, body: &String) -> (r: String)
    ensures
        r@ == label@ + signed_decimal(status as int) + ": "@ + body@,
{
    let mut out = label.to_owned();
    out.append(signed_decimal_text(status as i64).as_str());
    out.append(": ");
    out.append(body.as_str());
    out
}

/// The outcome of a step: its result, or an error that names the step.
pub fn in_step<T>(outcome: Result<T, String>, step: &str) -> (r: Result<T, ClientError>)
    ensures
        match outcome {
            Ok(value) => r == Ok::<T, ClientError>(value),
            Err(why) => is_failure(r, step@, why@),
        },
{
    match outcome {
        Ok(value) => Ok(value),
        Err(detail) => Err(ClientError::Failed { step: step.to_owned(), detail }),
    }
}

/// Whether the outcome is the failure of a step for a reason.
pub open spec fn is_failure<T>(r: Result<T, ClientError>, step: Seq<char>, why: Seq<char>) -> bool {
    r matches Err(ClientError::Failed { step: s, detail }) && s@ == step && detail@ == why
}

/// What the sending of a request is called where it fails.
pub open spec fn sending(method: Method) -> Seq<char> {
    if method == Method::Patch {
        "sending PATCH request"@
    } else {
        "sending request"@
    }
}

/// The outcome of the sending of a request: the response, or an error that says that
/// the sending failed.
pub fn in_sending<T>(outcome: Result<T, String>, method: Method) -> (r: Result<T, ClientError>)
    ensures
        match outcome {
            Ok(response) => r == Ok::<T, ClientError>(response),
            Err(why) => is_failure(r, sending(method), why@),
        },
{
    match method {
        Method::Patch => in_step(outcome, "sending PATCH request"),
        _ => in_step(outcome, "sending request"),
    }
}

/// The body of a response with an error, empty where it is no text.
fn body_or_empty(body: Result<String, String>) -> (r: String)
    ensures
        r@ == error_body(body),
{
    match body {
        Ok(text) => text,
        Err(_) => String::new(),
    }
}

/// The body that an error reports.
pub open spec fn error_body(body: Result<String, String>) -> Seq<char> {
    match body {
        Ok(text) => text@,
        Err(_) => Seq::empty(),
    }
}

/// Whether the outcome is the body of a response, or the failure to read it as a
/// text.
pub open spec fn is_body(body: Result<String, String>, r: Result<String, ClientError>) -> bool {
    match body {
        Ok(text) => r matches Ok(b) && b@ == text@,
        Err(why) => is_failure(r, "reading response body"@, why@),
    }
}

/// The body of a response of the API, or the error where the status is 400 or
/// above. `body` is the text of the body or the reason why it is none.
pub fn read_response(status: i32, body: Result<String, String>) -> (r: Result<String, ClientError>)
    ensures
        status >= 400 ==> (r matches Err(ClientError::Api { status: s, body: b }) && s == status
            && b@ == error_body(body)),
        status < 400 ==> is_body(body, r),
{
    if status >= 400 {
        Err(ClientError::Api { status, body: body_or_empty(body) })
    } else {
        in_step(body, "reading response body")
    }
}

/// The body of the response to a change of an item; the status 412 says that the
/// item has another version by now.
pub fn read_patch_response(status: i32, body: Result<String, String>) -> (r: Result<
    String,
    ClientError,
>)
    ensures
        status == 412 ==> r == Err::<String, ClientError>(ClientError::VersionConflict),
        status >= 400 && status != 412 ==> (r matches Err(
            ClientError::Api { status: s, body: b },
        ) && s == status && b@ == error_body(body)),
        status < 400 ==> is_body(body, r),
{
    if status == 412 {
        Err(ClientError::VersionConflict)
    } else {
        read_response(status, body)
    }
}

/// The body of the response to a request for a full text; the status 404 says that
/// there is none.
pub fn read_fulltext_response(status: i32, body: Result<String, String>) -> (r: Result<
    Option<String>,
    ClientError,
>)
    ensures
        status == 404 ==> r == Ok::<Option<String>, ClientError>(None),
        status >= 400 && status != 404 ==> (r matches Err(
            ClientError::Api { status: s, body: b },
        ) && s == status && b@ == error_body(body)),
        status < 400 ==> match r {
            Ok(Some(text)) => is_body(body, Ok(text)),
            Ok(None) => false,
            Err(e) => is_body(body, Err(e)),
        },
{
    if status == 404 {
        return Ok(None);
    }
    match read_response(status, body) {
        Ok(text) => Ok(Some(text)),
        Err(e) => Err(e),
    }
}

/// The body of a response of the translator service, or the error where the status
/// is 400 or above.
pub fn read_translator_response(status: i32, body: Result<String, String>) -> (r: Result<
    String,
    ClientError,
>)
    ensures
        status >= 400 ==> (r matches Err(ClientError::Translator { status: s, body: b }) && s
            == status && b@ == error_body(body)),
        status < 400 ==> is_body(body, r),
{
    if status >= 400 {
        Err(ClientError::Translator { status, body: body_or_empty(body) })
    } else {
        in_step(body, "reading response body")
    }
}

/// Whether the outcome is the list that the body of a response holds, or the error
/// that the response, its body or its text gives; `step` names the reading of the text.
pub open spec fn is_list(
    status: i32,
    body: Result<String, String>,
    step: Seq<char>,
    r: Result<Vec<Json>, ClientError>,
) -> bool {
    if status >= 400 {
        r matches Err(ClientError::Api { status: s, body: b }) && s == status && b@ == error_body(
            body,
        )
    } else {
        match body {
            Ok(text) => match parsed_list(text@) {
                Ok(values) => r matches Ok(v) && views(v@) == values,
                Err(why) => is_failure(r, step, why),
            },
            Err(why) => is_failure(r, "reading response body"@, why@),
        }
    }
}

fn read_list(status: i32, body: Result<String, String>, step: &str) -> (r: Result<
    Vec<Json>,
    ClientError,
>)
    ensures
        is_list(status, body, step@, r),
{
    match read_response(status, body) {
        Ok(text) => in_step(parse_list(text.as_str()), step),
        Err(e) => Err(e),
    }
}

/// The children in the response to [`ZoteroClient::children`].
pub fn read_children_response(status: i32, body: Result<String, String>) -> (r: Result<
    Vec<Json>,
    ClientError,
>)
    ensures
        is_list(status, body, "parsing children"@, r),
{
    read_list(status, body, "parsing children")
}

/// The tags in the response to [`ZoteroClient::tags`].
pub fn read_tags_response(status: i32, body: Result<String, String>) -> (r: Result<
    Vec<Json>,
    ClientError,
>)
    ensures
        is_list(status, body, "parsing tags"@, r),
{
    read_list(status, body, "parsing tags")
}

/// Whether the outcome is the value that the body of a response holds, or the error
/// that its body or its text gives; `step` names the reading of the text.
pub open spec fn is_value(
    body: Result<String, String>,
    step: Seq<char>,
    r: Result<Json, ClientError>,
) -> bool {
    match body {
        Ok(text) => match parsed_value(text@) {
            Ok(value) => r matches Ok(j) && j@ == value,
            Err(why) => is_failure(r, step, why),
        },
        Err(why) => is_failure(r, "reading response body"@, why@),
    }
}

/// What the response to [`ZoteroClient::add_doi`] holds.
pub fn read_add_doi_response(status: i32, body: Result<String, String>) -> (r: Result<
    Json,
    ClientError,
>)
    ensures
        status >= 400 ==> (r matches Err(ClientError::Api { status: s, body: b }) && s == status
            && b@ == error_body(body)),
        status < 400 ==> is_value(body, "parsing add doi response"@, r),
{
    match read_response(status, body) {
        Ok(text) => in_step(Json::parse(text.as_str()), "parsing add doi response"),
        Err(e) => Err(e),
    }
}

/// What the response to [`ZoteroClient::add_url`] holds.
pub fn read_add_url_response(status: i32, body: Result<String, String>) -> (r: Result<
    Json,
    ClientError,
>)
    ensures
        status >= 400 ==> (r matches Err(ClientError::Translator { status: s, body: b }) && s
            == status && b@ == error_body(body)),
        status < 400 ==> is_value(body, "parsing add url response"@, r),
{
    match read_translator_response(status, body) {
        Ok(text) => in_step(Json::parse(text.as_str()), "parsing add url response"),
        Err(e) => Err(e),
    }
}

} // verus!
