//! The context of one HTTP request: what was asked, the response being
//! built, and the juno representation of the request that handlers receive.

use vstd::prelude::*;
use vstd::utf8::*;
use vstd::slice::slice_to_vec;
use vstd::pervasive::VecAdditionalExecFns;
use crate::config::HttpConfig;
use crate::entries::{
    entries_view, first_key_index, key_position, lemma_first_key_exists, find_entry, has_key, insert_entry, insert_entry_value, lemma_first_key_unique,
    lemma_insert_has_key, lemma_lookup_insert_other, lemma_lookup_insert_same,
    lemma_insert_keeps_unique, lemma_remove_key_absent, lemma_remove_keeps_unique, lookup,
    remove_entries, remove_key, unique_keys,
};
use crate::json::{json_body, read_json_body};
use crate::text::{append_decimal, decimal, text_eq, text_from_utf8};
use vstd::string::StringExecFns;
use crate::value::{JunoValue, JunoValueView};

verus! {

/// A cookie sent with the request.
#[derive(Clone, Debug, PartialEq, Eq)]
pub struct Cookie {
    pub key: String,
    pub value: String,
}

/// The `SameSite` attribute of a cookie.
#[derive(Clone, Copy, Debug, PartialEq, Eq, Structural)]
pub enum SameSite {
    Strict,
    Lax,
}

/// The attributes of a cookie set in a response.
#[derive(Debug, PartialEq, Eq)]
pub struct CookieOptions {
    pub domain: String,
    pub path: String,
    pub expires: u64,
    pub http_only: bool,
    pub max_age: u64,
    pub secure: bool,
    pub same_site: Option<SameSite>,
}

/// The parts of an HTTP request that the context reads.
#[derive(Clone, Debug, PartialEq, Eq)]
pub struct RequestParts {
    pub method: String,
    pub path: String,
    pub body: String,
    pub version: u8,
    pub params: Vec<(String, String)>,
    pub headers: Vec<(String, String)>,
}

/// What a finished context answers: the status code and the body.
#[derive(Debug, PartialEq, Eq)]
pub struct ResponseParts {
    pub status: u32,
    pub body: Vec<u8>,
}

/// The context of one request. Header, parameter and representation lists
/// are read as maps: the first entry with a key counts. The fields are
/// public so that a context can be put together directly, since `new`
/// cannot complete (see there).
#[derive(Clone, Debug)]
pub struct HttpContext {
    pub response_body: Vec<u8>,
    pub cookies: Vec<Cookie>,
    pub params: Vec<(String, String)>,
    pub query_params: Vec<(String, String)>,
    pub request: RequestParts,
    pub status: u32,
    pub headers: Vec<(String, String)>,
    pub matched_route: String,
    pub http_version: u8,
    pub juno_representation: Vec<(String, JunoValue)>,
    pub http_configs: Vec<HttpConfig>,
    pub data: JunoValue,
}

/// The content of the request parts.
pub struct RequestView {
    pub method: Seq<char>,
    pub path: Seq<char>,
    pub body: Seq<char>,
    pub version: u8,
    pub params: Seq<(Seq<char>, Seq<char>)>,
    pub headers: Seq<(Seq<char>, Seq<char>)>,
}

/// The content of a context.
pub struct HttpContextView {
    pub response_body: Seq<u8>,
    pub cookies: Seq<(Seq<char>, Seq<char>)>,
    pub params: Seq<(Seq<char>, Seq<char>)>,
    pub query_params: Seq<(Seq<char>, Seq<char>)>,
    pub request: RequestView,
    pub status: u32,
    pub headers: Seq<(Seq<char>, Seq<char>)>,
    pub matched_route: Seq<char>,
    pub http_version: u8,
    pub juno_representation: Seq<(Seq<char>, JunoValueView)>,
    pub http_configs: Seq<HttpConfig>,
    pub data: JunoValueView,
}

/// The key and value of each cookie.
pub open spec fn cookie_pairs(cookies: Seq<Cookie>) -> Seq<(Seq<char>, Seq<char>)> {
    Seq::new(cookies.len(), |i: int| (cookies[i].key@, cookies[i].value@))
}

impl View for RequestParts {
    type V = RequestView;

    open spec fn view(&self) -> RequestView {
        RequestView {
            method: self.method@,
            path: self.path@,
            body: self.body@,
            version: self.version,
            params: entries_view(self.params@),
            headers: entries_view(self.headers@),
        }
    }
}

impl View for HttpContext {
    type V = HttpContextView;

    open spec fn view(&self) -> HttpContextView {
        HttpContextView {
            response_body: self.response_body@,
            cookies: cookie_pairs(self.cookies@),
            params: entries_view(self.params@),
            query_params: entries_view(self.query_params@),
            request: self.request@,
            status: self.status,
            headers: entries_view(self.headers@),
            matched_route: self.matched_route@,
            http_version: self.http_version,
            juno_representation: entries_view(self.juno_representation@),
            http_configs: self.http_configs@,
            data: self.data@,
        }
    }
}

/// The text of a response body: its UTF-8 decoding, or empty text when it is
/// not UTF-8.
pub open spec fn body_text(bytes: Seq<u8>) -> Seq<char> {
    if valid_utf8(bytes) {
        decode_utf8(bytes)
    } else {
        Seq::empty()
    }
}

/// An object holding each pair's value as a string, later pairs overwriting
/// earlier ones with the same key.
pub open spec fn object_of_pairs(pairs: Seq<(Seq<char>, Seq<char>)>) -> Seq<(Seq<char>, JunoValueView)>
    decreases pairs.len(),
{
    if pairs.len() == 0 {
        Seq::empty()
    } else {
        insert_entry(
            object_of_pairs(pairs.drop_last()),
            pairs.last().0,
            JunoValueView::String(pairs.last().1),
        )
    }
}

/// Every header name followed by its value, as strings.
pub open spec fn raw_headers(pairs: Seq<(Seq<char>, Seq<char>)>) -> Seq<JunoValueView>
    decreases pairs.len(),
{
    if pairs.len() == 0 {
        Seq::empty()
    } else {
        raw_headers(pairs.drop_last()).push(JunoValueView::String(pairs.last().0)).push(
            JunoValueView::String(pairs.last().1),
        )
    }
}

/// The body as the representation holds it: read as JSON when the headers
/// say `Content-Type: application/json`, as text otherwise.
pub open spec fn represented_body(
    headers: Seq<(Seq<char>, Seq<char>)>,
    response_body: Seq<u8>,
) -> JunoValueView {
    if lookup(headers, "Content-Type"@) == Some("application/json"@) {
        json_body(body_text(response_body))
    } else {
        JunoValueView::String(body_text(response_body))
    }
}

impl HttpContextView {
    /// The juno representation of the request that this context describes.
    pub open spec fn representation(self) -> Seq<(Seq<char>, JunoValueView)> {
        seq![
            ("httpVersion"@, JunoValueView::String(decimal(self.http_version as nat))),
            ("headers"@, JunoValueView::Object(object_of_pairs(self.headers))),
            ("rawHeaders"@, JunoValueView::Array(raw_headers(self.headers))),
            ("url"@, JunoValueView::String(self.request.path)),
            ("method"@, JunoValueView::String(self.request.method)),
            ("params"@, JunoValueView::Object(object_of_pairs(self.params))),
            ("query"@, JunoValueView::Object(object_of_pairs(self.query_params))),
            ("cookies"@, JunoValueView::Object(object_of_pairs(self.cookies))),
            ("body"@, represented_body(self.headers, self.response_body)),
        ]
    }

    /// The header, parameter, query and representation lists each read as a
    /// map: no two entries of one list share a key.
    pub open spec fn keys_unique(self) -> bool {
        &&& unique_keys(self.headers)
        &&& unique_keys(self.params)
        &&& unique_keys(self.query_params)
        &&& unique_keys(self.juno_representation)
    }

    /// The representation holds a `headers` entry, which setting a header updates.
    pub open spec fn has_header_map(self) -> bool {
        has_key(self.juno_representation, "headers"@)
    }

    /// The context after setting header `key` to `value`: the header list
    /// takes the value, and so does the `headers` object of the
    /// representation when that entry is an object.
    pub open spec fn after_set(self, key: Seq<char>, value: Seq<char>) -> HttpContextView {
        let headers = insert_entry(self.headers, key, value);
        let repr = match lookup(self.juno_representation, "headers"@) {
            Some(JunoValueView::Object(o)) => insert_entry(
                self.juno_representation,
                "headers"@,
                JunoValueView::Object(insert_entry(o, key, JunoValueView::String(value))),
            ),
            _ => self.juno_representation,
        };
        HttpContextView { headers: headers, juno_representation: repr, ..self }
    }
}

/// Setting a header keeps the representation's `headers` entry.
pub proof fn lemma_set_keeps_header_map(c: HttpContextView, key: Seq<char>, value: Seq<char>)
    requires
        c.has_header_map(),
    ensures
        c.after_set(key, value).has_header_map(),
{
    if let Some(JunoValueView::Object(o)) = lookup(c.juno_representation, "headers"@) {
        lemma_insert_has_key(
            c.juno_representation,
            "headers"@,
            JunoValueView::Object(insert_entry(o, key, JunoValueView::String(value))),
            "headers"@,
        );
    }
}

/// `pieces` joined with `sep` between each two.
pub open spec fn join_pieces(pieces: Seq<Seq<char>>, sep: Seq<char>) -> Seq<char>
    decreases pieces.len(),
{
    if pieces.len() == 0 {
        Seq::empty()
    } else if pieces.len() == 1 {
        pieces[0]
    } else {
        join_pieces(pieces.drop_last(), sep) + sep + pieces.last()
    }
}

/// `s` with `x` added at the end when `cond` holds.
pub open spec fn push_if(s: Seq<Seq<char>>, cond: bool, x: Seq<char>) -> Seq<Seq<char>> {
    if cond {
        s.push(x)
    } else {
        s
    }
}

/// The attributes that a cookie's options write, in order: the path, then
/// the expiry time, the maximum age, the domain, `Secure`, `HttpOnly` and
/// the same-site rule, each only when set.
pub open spec fn cookie_pieces(o: CookieOptions) -> Seq<Seq<char>> {
    let p = seq!["Path="@ + o.path@];
    let p = push_if(p, o.expires > 0, "Expires="@ + decimal(o.expires as nat));
    let p = push_if(p, o.max_age > 0, "Max-Age="@ + decimal(o.max_age as nat));
    let p = push_if(p, o.domain@.len() > 0, "Domain="@ + o.domain@);
    let p = push_if(p, o.secure, "Secure"@);
    let p = push_if(p, o.http_only, "HttpOnly"@);
    match o.same_site {
        Some(SameSite::Strict) => p.push("SameSite=Strict"@),
        Some(SameSite::Lax) => p.push("SameSite=Lax"@),
        None => p,
    }
}

/// The content of a list of texts.
pub open spec fn texts(v: Seq<String>) -> Seq<Seq<char>> {
    Seq::new(v.len(), |i: int| v[i]@)
}

/// The `Set-Cookie` text for one cookie: `name=value; ` and its attributes
/// joined with `, `.
pub open spec fn cookie_text(name: Seq<char>, value: Seq<char>, o: CookieOptions) -> Seq<char> {
    name + "="@ + value + "; "@ + join_pieces(cookie_pieces(o), ", "@)
}

impl HttpContextView {
    /// The context after setting the content type: the `Content-Type`
    /// header, then the representation's `body`, read as JSON for
    /// `application/json` and as text otherwise.
    pub open spec fn after_content_type(self, c_type: Seq<char>) -> HttpContextView {
        let s = self.after_set("Content-Type"@, c_type);
        let body = if c_type == "application/json"@ {
            json_body(body_text(s.response_body))
        } else {
            JunoValueView::String(body_text(s.response_body))
        };
        HttpContextView { juno_representation: insert_entry(s.juno_representation, "body"@, body), ..s }
    }

    /// The context after a redirect: status 302 and the `Location` header.
    pub open spec fn after_redirect(self, destination: Seq<char>) -> HttpContextView {
        (HttpContextView { status: 302, ..self }).after_set("Location"@, destination)
    }

    /// The context after setting a cookie: its text is appended, after `, `,
    /// to the `Set-Cookie` header, or becomes that header.
    pub open spec fn after_set_cookie(self, name: Seq<char>, value: Seq<char>, o: CookieOptions) -> HttpContextView {
        let c = cookie_text(name, value, o);
        let v = match lookup(self.headers, "Set-Cookie"@) {
            Some(existing) => existing + ", "@ + c,
            None => c,
        };
        self.after_set("Set-Cookie"@, v)
    }
}

/// What the body was set to is what reading the body gives back.
pub proof fn lemma_body_read_back(c: HttpContextView, text: Seq<char>)
    ensures
        body_text((HttpContextView { response_body: encode_utf8(text), ..c }).response_body) == text,
{
    encode_utf8_valid_utf8(text);
    encode_utf8_decode_utf8(text);
}

/// The value of the last pair named `k`, if any.
pub open spec fn last_value(pairs: Seq<(Seq<char>, Seq<char>)>, k: Seq<char>) -> Option<Seq<char>>
    decreases pairs.len(),
{
    if pairs.len() == 0 {
        None
    } else if pairs.last().0 == k {
        Some(pairs.last().1)
    } else {
        last_value(pairs.drop_last(), k)
    }
}

/// An object built from pairs holds, under each key, the value of the last
/// pair with that key, as a string (as collecting pairs into a map does).
pub proof fn lemma_object_of_pairs_lookup(pairs: Seq<(Seq<char>, Seq<char>)>, k: Seq<char>)
    ensures
        lookup(object_of_pairs(pairs), k) == match last_value(pairs, k) {
            Some(v) => Some(JunoValueView::String(v)),
            None => None,
        },
    decreases pairs.len(),
{
    if pairs.len() == 0 {
        assert(!has_key(object_of_pairs(pairs), k));
    } else {
        let rest = object_of_pairs(pairs.drop_last());
        lemma_object_of_pairs_lookup(pairs.drop_last(), k);
        let last = pairs.last();
        if last.0 == k {
            lemma_lookup_insert_same(rest, k, JunoValueView::String(last.1));
        } else {
            lemma_lookup_insert_other(rest, last.0, JunoValueView::String(last.1), k);
        }
    }
}

/// Setting a header keeps every list's keys unique.
pub proof fn lemma_set_keeps_unique(c: HttpContextView, key: Seq<char>, value: Seq<char>)
    requires
        c.keys_unique(),
    ensures
        c.after_set(key, value).keys_unique(),
{
    lemma_insert_keeps_unique(c.headers, key, value);
    if let Some(JunoValueView::Object(o)) = lookup(c.juno_representation, "headers"@) {
        lemma_insert_keeps_unique(
            c.juno_representation,
            "headers"@,
            JunoValueView::Object(insert_entry(o, key, JunoValueView::String(value))),
        );
    }
}

/// With unique keys, the last pair named `k` is the only one, which is the
/// one a lookup reads: an object built from a map's pairs agrees with the map.
pub proof fn lemma_unique_pairs_object(pairs: Seq<(Seq<char>, Seq<char>)>, k: Seq<char>)
    requires
        unique_keys(pairs),
    ensures
        last_value(pairs, k) == lookup(pairs, k),
        lookup(object_of_pairs(pairs), k) == match lookup(pairs, k) {
            Some(v) => Some(JunoValueView::String(v)),
            None => None,
        },
    decreases pairs.len(),
{
    lemma_object_of_pairs_lookup(pairs, k);
    if pairs.len() > 0 {
        let prev = pairs.drop_last();
        assert(unique_keys(prev)) by {
            assert forall|i: int, j: int| 0 <= i < prev.len() && 0 <= j < prev.len() && i != j implies prev[i].0 != prev[j].0 by {
                assert(prev[i] == pairs[i] && prev[j] == pairs[j]);
            }
        }
        lemma_unique_pairs_object(prev, k);
        let n = pairs.len() - 1;
        if pairs.last().0 == k {
            assert(first_key_index(pairs, k, n));
            lemma_first_key_unique(pairs, k, n);
        } else if has_key(prev, k) {
            lemma_first_key_exists(prev, k);
            let p = key_position(prev, k);
            assert(first_key_index(pairs, k, p));
            lemma_first_key_unique(pairs, k, p);
        } else {
            assert(!has_key(pairs, k)) by {
                if has_key(pairs, k) {
                    let i = choose|i: int| 0 <= i < pairs.len() && pairs[i].0 == k;
                    assert(prev[i] == pairs[i]);
                }
            }
        }
    } else {
        assert(!has_key(pairs, k));
    }
}

/// An object built from pairs has unique keys.
pub proof fn lemma_object_of_pairs_unique(pairs: Seq<(Seq<char>, Seq<char>)>)
    ensures
        unique_keys(object_of_pairs(pairs)),
    decreases pairs.len(),
{
    if pairs.len() > 0 {
        lemma_object_of_pairs_unique(pairs.drop_last());
        lemma_insert_keeps_unique(
            object_of_pairs(pairs.drop_last()),
            pairs.last().0,
            JunoValueView::String(pairs.last().1),
        );
    }
}

/// The representation's nine members have distinct names.
pub proof fn lemma_representation_unique(c: HttpContextView)
    ensures
        unique_keys(c.representation()),
{
    reveal_strlit("httpVersion");
    reveal_strlit("headers");
    reveal_strlit("rawHeaders");
    reveal_strlit("url");
    reveal_strlit("method");
    reveal_strlit("params");
    reveal_strlit("query");
    reveal_strlit("cookies");
    reveal_strlit("body");
    let r = c.representation();
    assert forall|i: int, j: int| 0 <= i < r.len() && 0 <= j < r.len() && i != j implies r[i].0 != r[j].0 by {
        if r[i].0.len() == r[j].0.len() {
            assert(r[i].0[0] != r[j].0[0]);
        }
    }
}

/// A freshly built representation has the `headers` entry that setting a
/// header updates.
pub proof fn lemma_representation_has_header_map(c: HttpContextView)
    ensures
        (HttpContextView { juno_representation: c.representation(), ..c }).has_header_map(),
{
    assert(c.representation()[1].0 == "headers"@);
}

/// Setting a header makes it read back, in the header list and, when the
/// representation's `headers` entry is an object, in that object; other
/// headers read as before.
pub proof fn lemma_set_header_reads_back(c: HttpContextView, key: Seq<char>, value: Seq<char>, other: Seq<char>)
    requires
        other != key,
    ensures
        lookup(c.after_set(key, value).headers, key) == Some(value),
        lookup(c.after_set(key, value).headers, other) == lookup(c.headers, other),
        lookup(c.juno_representation, "headers"@) matches Some(JunoValueView::Object(o)) ==> lookup(
            c.after_set(key, value).juno_representation,
            "headers"@,
        ) matches Some(JunoValueView::Object(o2)) && lookup(o2, key) == Some(JunoValueView::String(value))
            && lookup(o2, other) == lookup(o, other),
{
    lemma_lookup_insert_same(c.headers, key, value);
    lemma_lookup_insert_other(c.headers, key, value, other);
    if let Some(JunoValueView::Object(o)) = lookup(c.juno_representation, "headers"@) {
        let o2 = insert_entry(o, key, JunoValueView::String(value));
        lemma_lookup_insert_same(c.juno_representation, "headers"@, JunoValueView::Object(o2));
        lemma_lookup_insert_same(o, key, JunoValueView::String(value));
        lemma_lookup_insert_other(o, key, JunoValueView::String(value), other);
    }
}

/// A removed header no longer reads.
pub proof fn lemma_removed_header_absent(c: HttpContextView, key: Seq<char>)
    ensures
        lookup(remove_key(c.headers, key), key) is None,
{
    lemma_remove_key_absent(c.headers, key);
}

/// A redirect answers with status 302 and the destination as `Location`.
pub proof fn lemma_redirect(c: HttpContextView, destination: Seq<char>)
    ensures
        c.after_redirect(destination).status == 302,
        lookup(c.after_redirect(destination).headers, "Location"@) == Some(destination),
{
    lemma_lookup_insert_same(c.headers, "Location"@, destination);
}

/// A cookie set on a context without a `Set-Cookie` header becomes that
/// header; on one with it, it is appended after `, `.
pub proof fn lemma_set_cookie_header(c: HttpContextView, name: Seq<char>, value: Seq<char>, o: CookieOptions)
    ensures
        lookup(c.after_set_cookie(name, value, o).headers, "Set-Cookie"@) == Some(
            match lookup(c.headers, "Set-Cookie"@) {
                Some(existing) => existing + ", "@ + cookie_text(name, value, o),
                None => cookie_text(name, value, o),
            },
        ),
{
    let v = match lookup(c.headers, "Set-Cookie"@) {
        Some(existing) => existing + ", "@ + cookie_text(name, value, o),
        None => cookie_text(name, value, o),
    };
    lemma_lookup_insert_same(c.headers, "Set-Cookie"@, v);
}

/// What each member of the representation reads back: the `url` member is
/// the request's path (not the route pattern that matched it), `method` the
/// request's method, `httpVersion` the version in decimal, `headers`,
/// `params`, `query` and `cookies` objects built from the context's own
/// lists of those, `rawHeaders` the headers as a flat list, and `body` the
/// response body as text (read as JSON under `Content-Type: application/json`).
pub proof fn lemma_representation_members(c: HttpContextView)
    ensures
        lookup(c.representation(), "url"@) == Some(JunoValueView::String(c.request.path)),
        lookup(c.representation(), "method"@) == Some(JunoValueView::String(c.request.method)),
        lookup(c.representation(), "httpVersion"@) == Some(JunoValueView::String(decimal(c.http_version as nat))),
        lookup(c.representation(), "headers"@) == Some(JunoValueView::Object(object_of_pairs(c.headers))),
        lookup(c.representation(), "rawHeaders"@) == Some(JunoValueView::Array(raw_headers(c.headers))),
        lookup(c.representation(), "params"@) == Some(JunoValueView::Object(object_of_pairs(c.params))),
        lookup(c.representation(), "query"@) == Some(JunoValueView::Object(object_of_pairs(c.query_params))),
        lookup(c.representation(), "cookies"@) == Some(JunoValueView::Object(object_of_pairs(c.cookies))),
        lookup(c.representation(), "body"@) == Some(represented_body(c.headers, c.response_body)),
{
    let r = c.representation();
    lemma_representation_unique(c);
    assert forall|i: int| 0 <= i < r.len() implies first_key_index(r, #[trigger] r[i].0, i) by {}
    lemma_first_key_unique(r, r[0].0, 0);
    lemma_first_key_unique(r, r[1].0, 1);
    lemma_first_key_unique(r, r[2].0, 2);
    lemma_first_key_unique(r, r[3].0, 3);
    lemma_first_key_unique(r, r[4].0, 4);
    lemma_first_key_unique(r, r[5].0, 5);
    lemma_first_key_unique(r, r[6].0, 6);
    lemma_first_key_unique(r, r[7].0, 7);
    lemma_first_key_unique(r, r[8].0, 8);
}

proof fn lemma_push_if_contains(s: Seq<Seq<char>>, cond: bool, x: Seq<char>, y: Seq<char>)
    ensures
        push_if(s, cond, x).contains(y) <==> s.contains(y) || (cond && x == y),
{
    if cond {
        let t = s.push(x);
        if s.contains(y) {
            let i = choose|i: int| 0 <= i < s.len() && s[i] == y;
            assert(t[i] == y);
        }
        if t.contains(y) && !s.contains(y) {
            let i = choose|i: int| 0 <= i < t.len() && t[i] == y;
            if i < s.len() {
                assert(s[i] == y);
            }
        }
        if x == y {
            assert(t[s.len() as int] == y);
        }
    }
}

/// A cookie's attributes hold `Secure` exactly when its `secure` option is
/// set, and `HttpOnly` exactly when its `http_only` option is set; the path
/// attribute is always there.
pub proof fn lemma_cookie_flags(o: CookieOptions)
    ensures
        cookie_pieces(o).contains("Secure"@) <==> o.secure,
        cookie_pieces(o).contains("HttpOnly"@) <==> o.http_only,
        cookie_pieces(o)[0] == "Path="@ + o.path@,
{
    reveal_strlit("Path=");
    reveal_strlit("Expires=");
    reveal_strlit("Max-Age=");
    reveal_strlit("Domain=");
    reveal_strlit("Secure");
    reveal_strlit("HttpOnly");
    reveal_strlit("SameSite=Strict");
    reveal_strlit("SameSite=Lax");
    let path = "Path="@ + o.path@;
    let exp = "Expires="@ + decimal(o.expires as nat);
    let age = "Max-Age="@ + decimal(o.max_age as nat);
    let dom = "Domain="@ + o.domain@;
    let p0 = seq![path];
    let p1 = push_if(p0, o.expires > 0, exp);
    let p2 = push_if(p1, o.max_age > 0, age);
    let p3 = push_if(p2, o.domain@.len() > 0, dom);
    let p4 = push_if(p3, o.secure, "Secure"@);
    let p5 = push_if(p4, o.http_only, "HttpOnly"@);
    assert(path[0] == 'P');
    assert(exp[0] == 'E');
    assert(age[0] == 'M');
    assert(dom[0] == 'D');
    assert("Secure"@[0] == 'S' && "HttpOnly"@[0] == 'H');
    assert(path != "Secure"@ && path != "HttpOnly"@);
    assert(exp != "Secure"@ && exp != "HttpOnly"@);
    assert(age != "Secure"@ && age != "HttpOnly"@);
    assert(dom != "Secure"@ && dom != "HttpOnly"@);
    assert("Secure"@ != "HttpOnly"@);
    assert("SameSite=Strict"@.len() != "Secure"@.len() && "SameSite=Strict"@.len() != "HttpOnly"@.len());
    assert("SameSite=Lax"@.len() != "Secure"@.len() && "SameSite=Lax"@.len() != "HttpOnly"@.len());
    assert(p0.contains("Secure"@) == false) by {
        if p0.contains("Secure"@) {
            let i = choose|i: int| 0 <= i < p0.len() && p0[i] == "Secure"@;
            assert(p0[i] == path);
        }
    }
    assert(p0.contains("HttpOnly"@) == false) by {
        if p0.contains("HttpOnly"@) {
            let i = choose|i: int| 0 <= i < p0.len() && p0[i] == "HttpOnly"@;
            assert(p0[i] == path);
        }
    }
    lemma_push_if_contains(p0, o.expires > 0, exp, "Secure"@);
    lemma_push_if_contains(p1, o.max_age > 0, age, "Secure"@);
    lemma_push_if_contains(p2, o.domain@.len() > 0, dom, "Secure"@);
    lemma_push_if_contains(p3, o.secure, "Secure"@, "Secure"@);
    lemma_push_if_contains(p4, o.http_only, "HttpOnly"@, "Secure"@);
    lemma_push_if_contains(p0, o.expires > 0, exp, "HttpOnly"@);
    lemma_push_if_contains(p1, o.max_age > 0, age, "HttpOnly"@);
    lemma_push_if_contains(p2, o.domain@.len() > 0, dom, "HttpOnly"@);
    lemma_push_if_contains(p3, o.secure, "Secure"@, "HttpOnly"@);
    lemma_push_if_contains(p4, o.http_only, "HttpOnly"@, "HttpOnly"@);
    match o.same_site {
        Some(SameSite::Strict) => {
            lemma_push_if_contains(p5, true, "SameSite=Strict"@, "Secure"@);
            lemma_push_if_contains(p5, true, "SameSite=Strict"@, "HttpOnly"@);
        },
        Some(SameSite::Lax) => {
            lemma_push_if_contains(p5, true, "SameSite=Lax"@, "Secure"@);
            lemma_push_if_contains(p5, true, "SameSite=Lax"@, "HttpOnly"@);
        },
        None => {},
    }
    assert(p1[0] == path && p2[0] == path && p3[0] == path && p4[0] == path && p5[0] == path);
}

/// Joins texts with a separator between each two.
pub fn join_texts(pieces: &Vec<String>, sep: &str) -> (r: String)
    ensures
        r@ == join_pieces(texts(pieces@), sep@),
{
    let ghost p = texts(pieces@);
    let mut out = String::new();
    let mut i: usize = 0;
    while i < pieces.len()
        invariant
            p == texts(pieces@),
            i <= pieces@.len(),
            out@ == join_pieces(p.take(i as int), sep@),
        decreases pieces@.len() - i,
    {
        proof {
            assert(p.take(i + 1).drop_last() =~= p.take(i as int));
            assert(p.take(i + 1).last() == pieces@[i as int]@);
        }
        if i > 0 {
            out.append(sep);
        } else {
            assert(p.take(0) =~= Seq::<Seq<char>>::empty());
            assert(out@ =~= Seq::<char>::empty());
        }
        out.append(pieces[i].as_str());
        proof {
            if i == 0 {
                assert(p.take(1)[0] == pieces@[0]@);
                assert(out@ =~= join_pieces(p.take(1), sep@));
            }
        }
        i = i + 1;
    }
    assert(p.take(pieces@.len() as int) =~= p);
    out
}

/// Adds `x` to a list of texts when `cond` holds.
fn push_text_if(pieces: &mut Vec<String>, cond: bool, x: String)
    ensures
        texts(final(pieces)@) == push_if(texts(old(pieces)@), cond, x@),
{
    let ghost before = texts(pieces@);
    if cond {
        pieces.push(x);
        assert(texts(pieces@) =~= before.push(x@));
    }
}

/// The text `prefix` followed by the decimal numeral of `n`.
fn numbered_text(prefix: &str, n: u64) -> (r: String)
    ensures
        r@ == prefix@ + decimal(n as nat),
{
    let mut p = prefix.to_owned();
    append_decimal(&mut p, n);
    p
}

/// The text `prefix` followed by `rest`.
fn joined_text(prefix: &str, rest: &str) -> (r: String)
    ensures
        r@ == prefix@ + rest@,
{
    let mut p = prefix.to_owned();
    p.append(rest);
    p
}

/// The texts of a cookie's attributes, in order.
fn cookie_attribute_texts(options: &CookieOptions) -> (r: Vec<String>)
    ensures
        texts(r@) == cookie_pieces(*options),
{
    let mut pieces: Vec<String> = Vec::new();
    pieces.push(joined_text("Path=", options.path.as_str()));
    assert(texts(pieces@) =~= seq!["Path="@ + options.path@]);
    push_text_if(&mut pieces, options.expires > 0, numbered_text("Expires=", options.expires));
    push_text_if(&mut pieces, options.max_age > 0, numbered_text("Max-Age=", options.max_age));
    push_text_if(&mut pieces, !options.domain.as_str().is_empty(), joined_text("Domain=", options.domain.as_str()));
    push_text_if(&mut pieces, options.secure, "Secure".to_owned());
    push_text_if(&mut pieces, options.http_only, "HttpOnly".to_owned());
    let ghost before = texts(pieces@);
    match options.same_site {
        Some(SameSite::Strict) => pieces.push("SameSite=Strict".to_owned()),
        Some(SameSite::Lax) => pieces.push("SameSite=Lax".to_owned()),
        None => {},
    }
    assert(texts(pieces@) =~= match options.same_site {
        Some(SameSite::Strict) => before.push("SameSite=Strict"@),
        Some(SameSite::Lax) => before.push("SameSite=Lax"@),
        None => before,
    });
    pieces
}

/// A copy of a list of text pairs.
pub fn clone_pairs(pairs: &Vec<(String, String)>) -> (r: Vec<(String, String)>)
    ensures
        entries_view(r@) == entries_view(pairs@),
{
    let mut out: Vec<(String, String)> = Vec::new();
    let mut i: usize = 0;
    while i < pairs.len()
        invariant
            i <= pairs@.len(),
            out@.len() == i,
            forall|j: int|
                0 <= j < i ==> #[trigger] out@[j].0@ == pairs@[j].0@ && out@[j].1@ == pairs@[j].1@,
        decreases pairs@.len() - i,
    {
        out.push((pairs[i].0.clone(), pairs[i].1.clone()));
        i = i + 1;
    }
    assert(entries_view(out@) =~= entries_view(pairs@));
    out
}

/// The content of an object built from entries.
pub proof fn lemma_object_content(entries: Vec<(String, JunoValue)>)
    ensures
        JunoValue::Object(entries)@ == JunoValueView::Object(entries_view(entries@)),
{
    let v = JunoValue::Object(entries);
    if let JunoValueView::Object(o) = v@ {
        assert(o =~= entries_view(entries@));
    }
}

/// The content of an array built from values.
pub proof fn lemma_array_content(items: Vec<JunoValue>)
    ensures
        JunoValue::Array(items)@ == JunoValueView::Array(Seq::new(items@.len(), |i: int| items@[i]@)),
{
    let v = JunoValue::Array(items);
    if let JunoValueView::Array(a) = v@ {
        assert(a =~= Seq::new(items@.len(), |i: int| items@[i]@));
    }
}

/// An object holding each pair's value as a string, later pairs overwriting
/// earlier ones with the same key.
pub fn object_from_pairs(pairs: &Vec<(String, String)>) -> (r: Vec<(String, JunoValue)>)
    ensures
        entries_view(r@) == object_of_pairs(entries_view(pairs@)),
{
    let ghost p = entries_view(pairs@);
    let mut out: Vec<(String, JunoValue)> = Vec::new();
    let mut i: usize = 0;
    while i < pairs.len()
        invariant
            p == entries_view(pairs@),
            i <= pairs@.len(),
            entries_view(out@) == object_of_pairs(p.take(i as int)),
        decreases pairs@.len() - i,
    {
        proof {
            assert(p.take(i + 1).drop_last() =~= p.take(i as int));
            assert(p.take(i + 1).last() == p[i as int]);
        }
        let value = JunoValue::String(pairs[i].1.clone());
        insert_entry_value(&mut out, pairs[i].0.as_str(), value);
        i = i + 1;
    }
    assert(p.take(pairs@.len() as int) =~= p);
    out
}

/// An object holding each cookie's value under its key, later cookies
/// overwriting earlier ones with the same key.
pub fn object_from_cookies(cookies: &Vec<Cookie>) -> (r: Vec<(String, JunoValue)>)
    ensures
        entries_view(r@) == object_of_pairs(cookie_pairs(cookies@)),
{
    let ghost p = cookie_pairs(cookies@);
    let mut out: Vec<(String, JunoValue)> = Vec::new();
    let mut i: usize = 0;
    while i < cookies.len()
        invariant
            p == cookie_pairs(cookies@),
            i <= cookies@.len(),
            entries_view(out@) == object_of_pairs(p.take(i as int)),
        decreases cookies@.len() - i,
    {
        proof {
            assert(p.take(i + 1).drop_last() =~= p.take(i as int));
            assert(p.take(i + 1).last() == p[i as int]);
        }
        let value = JunoValue::String(cookies[i].value.clone());
        insert_entry_value(&mut out, cookies[i].key.as_str(), value);
        i = i + 1;
    }
    assert(p.take(cookies@.len() as int) =~= p);
    out
}

/// Every header name followed by its value, as strings.
pub fn raw_header_values(pairs: &Vec<(String, String)>) -> (r: Vec<JunoValue>)
    ensures
        Seq::new(r@.len(), |i: int| r@[i]@) == raw_headers(entries_view(pairs@)),
{
    let ghost p = entries_view(pairs@);
    let mut out: Vec<JunoValue> = Vec::new();
    let mut i: usize = 0;
    while i < pairs.len()
        invariant
            p == entries_view(pairs@),
            i <= pairs@.len(),
            Seq::new(out@.len(), |j: int| out@[j]@) == raw_headers(p.take(i as int)),
        decreases pairs@.len() - i,
    {
        proof {
            assert(p.take(i + 1).drop_last() =~= p.take(i as int));
            assert(p.take(i + 1).last() == p[i as int]);
        }
        let ghost before = Seq::new(out@.len(), |j: int| out@[j]@);
        out.push(JunoValue::String(pairs[i].0.clone()));
        out.push(JunoValue::String(pairs[i].1.clone()));
        proof {
            assert(Seq::new(out@.len(), |j: int| out@[j]@) =~= before.push(JunoValueView::String(p[i as int].0)).push(
                JunoValueView::String(p[i as int].1),
            ));
        }
        i = i + 1;
    }
    assert(p.take(pairs@.len() as int) =~= p);
    out
}

/// The context that `HttpContext::new` starts from, before it sets the
/// `Server` header and builds the representation.
pub open spec fn fresh_context(
    request: RequestView,
    matched_route: Seq<char>,
    http_configs: Seq<HttpConfig>,
) -> HttpContextView {
    HttpContextView {
        response_body: encode_utf8(request.body),
        cookies: Seq::empty(),
        params: request.params,
        query_params: Seq::empty(),
        request: request,
        status: 200,
        headers: request.headers,
        matched_route: matched_route,
        http_version: request.version,
        juno_representation: Seq::empty(),
        http_configs: http_configs,
        data: JunoValueView::Null,
    }
}

impl HttpContext {
    /// Creates the context of a request: status 200, the request's headers
    /// and parameters, its body as the response body, the `Server: Thruster`
    /// header, and then the representation.
    ///
    /// The `Server` header is set before the representation exists, and
    /// setting a header needs the representation's `headers` entry: that
    /// entry is the precondition here, and an empty representation never
    /// has it, so no call can meet it.
    pub fn new(request: RequestParts, matched_route: String, http_configs: Vec<HttpConfig>) -> (r: Self)
        requires
            has_key(Seq::<(Seq<char>, JunoValueView)>::empty(), "headers"@),
        ensures
            ({
                let s = fresh_context(request@, matched_route@, http_configs@).after_set("Server"@, "Thruster"@);
                r@ == (HttpContextView { juno_representation: s.representation(), ..s })
            }),
    {
        let body = request.body.clone();
        let http_version = request.version;
        let params = clone_pairs(&request.params);
        let headers = clone_pairs(&request.headers);
        let mut context = HttpContext {
            response_body: Vec::new(),
            cookies: Vec::new(),
            params,
            query_params: Vec::new(),
            headers,
            request,
            status: 200,
            matched_route,
            http_version,
            juno_representation: Vec::new(),
            http_configs,
            data: JunoValue::Null,
        };
        context.body(body.as_str());
        proof {
            assert(entries_view(context.juno_representation@) =~= Seq::<(Seq<char>, JunoValueView)>::empty());
            assert(cookie_pairs(context.cookies@) =~= Seq::empty());
            assert(entries_view(context.query_params@) =~= Seq::empty());
        }
        context.set("Server", "Thruster");
        context.generate_juno_representation();
        context
    }

    /// The route that the request matched.
    pub fn matched_route(&self) -> (r: &String)
        ensures
            r@ == self@.matched_route,
    {
        &self.matched_route
    }

    /// Sets the response body to the UTF-8 encoding of `body_string`.
    pub fn body(&mut self, body_string: &str)
        ensures
            final(self)@ == (HttpContextView { response_body: encode_utf8(body_string@), ..old(self)@ }),
    {
        self.response_body = slice_to_vec(body_string.as_bytes());
    }

    /// The response body as text: empty when it is not UTF-8.
    pub fn get_body(&self) -> (r: String)
        ensures
            r@ == body_text(self@.response_body),
    {
        match text_from_utf8(self.response_body.as_slice()) {
            Some(text) => text,
            None => String::new(),
        }
    }

    /// Sets the status code of the response.
    pub fn status(&mut self, code: u32)
        ensures
            final(self)@ == (HttpContextView { status: code, ..old(self)@ }),
    {
        self.status = code;
    }

    /// Sets header `key` to `value`, in the header list and in the `headers`
    /// object of the representation.
    pub fn set(&mut self, key: &str, value: &str)
        requires
            old(self)@.has_header_map(),
        ensures
            final(self)@ == old(self)@.after_set(key@, value@),
            final(self)@.has_header_map(),
            old(self)@.keys_unique() ==> final(self)@.keys_unique(),
    {
        proof {
            lemma_set_keeps_header_map(self@, key@, value@);
            if self@.keys_unique() {
                lemma_set_keeps_unique(self@, key@, value@);
            }
        }
        let ghost before = self@;
        insert_entry_value(&mut self.headers, key, value.to_owned());
        let found = find_entry(&self.juno_representation, "headers");
        if let Some(i) = found {
            proof {
                lemma_first_key_unique(before.juno_representation, "headers"@, i as int);
            }
            let mut entry: (String, JunoValue) = (String::new(), JunoValue::Null);
            self.juno_representation.set_and_swap(i, &mut entry);
            let (name, current) = entry;
            let updated = match current {
                JunoValue::Object(mut members) => {
                    proof {
                        crate::http_context::lemma_object_content(members);
                    }
                    insert_entry_value(&mut members, key, JunoValue::String(value.to_owned()));
                    proof {
                        crate::http_context::lemma_object_content(members);
                    }
                    JunoValue::Object(members)
                },
                other => other,
            };
            let mut back = (name, updated);
            self.juno_representation.set_and_swap(i, &mut back);
            proof {
                assert(entries_view(self.juno_representation@) =~= before.after_set(key@, value@).juno_representation);
            }
        }
        assert(self@ == before.after_set(key@, value@));
    }

    /// The path of the request.
    pub fn route(&self) -> (r: &str)
        ensures
            r@ == self@.request.path,
    {
        self.request.path.as_str()
    }

    /// The method of the request.
    pub fn method(&self) -> (r: &str)
        ensures
            r@ == self@.request.method,
    {
        self.request.method.as_str()
    }

    /// The HTTP version of the request.
    pub fn http_version(&self) -> (r: u8)
        ensures
            r == self@.http_version,
    {
        self.http_version
    }

    /// The juno representation of the request.
    pub fn juno_representation(&self) -> (r: &Vec<(String, JunoValue)>)
        ensures
            entries_view(r@) == self@.juno_representation,
    {
        &self.juno_representation
    }

    /// Rebuilds the juno representation from the request, headers,
    /// parameters, query parameters, cookies and body.
    pub fn generate_juno_representation(&mut self)
        ensures
            final(self)@ == (HttpContextView {
                juno_representation: old(self)@.representation(),
                ..old(self)@
            }),
            final(self)@.has_header_map(),
            unique_keys(old(self)@.headers) && unique_keys(old(self)@.params) && unique_keys(
                old(self)@.query_params,
            ) ==> final(self)@.keys_unique(),
    {
        proof {
            lemma_representation_has_header_map(self@);
            lemma_representation_unique(self@);
        }
        let ghost before = self@;
        let mut map: Vec<(String, JunoValue)> = Vec::new();

        let mut version = String::new();
        append_decimal(&mut version, self.http_version as u64);
        map.push(("httpVersion".to_owned(), JunoValue::String(version)));

        let headers = object_from_pairs(&self.headers);
        proof {
            lemma_object_content(headers);
        }
        map.push(("headers".to_owned(), JunoValue::Object(headers)));

        let raw = raw_header_values(&self.headers);
        proof {
            lemma_array_content(raw);
        }
        map.push(("rawHeaders".to_owned(), JunoValue::Array(raw)));

        map.push(("url".to_owned(), JunoValue::String(self.route().to_owned())));
        map.push(("method".to_owned(), JunoValue::String(self.method().to_owned())));

        let params = object_from_pairs(&self.params);
        proof {
            lemma_object_content(params);
        }
        map.push(("params".to_owned(), JunoValue::Object(params)));

        let query = object_from_pairs(&self.query_params);
        proof {
            lemma_object_content(query);
        }
        map.push(("query".to_owned(), JunoValue::Object(query)));

        let cookies = object_from_cookies(&self.cookies);
        proof {
            lemma_object_content(cookies);
        }
        map.push(("cookies".to_owned(), JunoValue::Object(cookies)));

        let is_json = match find_entry(&self.headers, "Content-Type") {
            Some(i) => {
                proof {
                    lemma_first_key_unique(before.headers, "Content-Type"@, i as int);
                }
                text_eq(self.headers[i].1.as_str(), "application/json")
            },
            None => false,
        };
        let body = if is_json {
            read_json_body(self.get_body().as_str())
        } else {
            JunoValue::String(self.get_body())
        };
        map.push(("body".to_owned(), body));

        self.juno_representation = map;
        proof {
            reveal_strlit("httpVersion");
            reveal_strlit("headers");
            reveal_strlit("rawHeaders");
            reveal_strlit("url");
            reveal_strlit("method");
            reveal_strlit("params");
            reveal_strlit("query");
            reveal_strlit("cookies");
            reveal_strlit("body");
            assert(entries_view(self.juno_representation@) =~= before.representation());
        }
    }

    /// Sets the `Content-Type` header and updates the representation's `body`:
    /// read as JSON for `application/json`, as text otherwise.
    pub fn set_content_type(&mut self, c_type: &str)
        requires
            old(self)@.has_header_map(),
        ensures
            final(self)@ == old(self)@.after_content_type(c_type@),
            final(self)@.has_header_map(),
            old(self)@.keys_unique() ==> final(self)@.keys_unique(),
    {
        self.set("Content-Type", c_type);
        let body = if text_eq(c_type, "application/json") {
            read_json_body(self.get_body().as_str())
        } else {
            JunoValue::String(self.get_body())
        };
        let ghost before = entries_view(self.juno_representation@);
        let ghost body_view = body@;
        insert_entry_value(&mut self.juno_representation, "body", body);
        proof {
            lemma_insert_has_key(before, "body"@, body_view, "headers"@);
            if old(self)@.keys_unique() {
                lemma_insert_keeps_unique(before, "body"@, body_view);
            }
        }
    }

    /// Redirects: status 302 and the `Location` header.
    pub fn redirect(&mut self, destination: &str)
        requires
            old(self)@.has_header_map(),
        ensures
            final(self)@ == old(self)@.after_redirect(destination@),
            final(self)@.has_header_map(),
            old(self)@.keys_unique() ==> final(self)@.keys_unique(),
    {
        self.status(302);
        self.set("Location", destination);
    }

    /// Sets a cookie: its text is appended, after `, `, to the `Set-Cookie`
    /// header, or becomes that header.
    pub fn set_cookie(&mut self, name: &str, value: &str, options: &CookieOptions)
        requires
            old(self)@.has_header_map(),
        ensures
            final(self)@ == old(self)@.after_set_cookie(name@, value@, *options),
            final(self)@.has_header_map(),
            old(self)@.keys_unique() ==> final(self)@.keys_unique(),
    {
        let ghost before = self@;
        let cookie_value = match find_entry(&self.headers, "Set-Cookie") {
            Some(i) => {
                proof {
                    lemma_first_key_unique(before.headers, "Set-Cookie"@, i as int);
                }
                let mut v = self.headers[i].1.clone();
                v.append(", ");
                let c = self.cookify_options(name, value, options);
                v.append(c.as_str());
                v
            },
            None => self.cookify_options(name, value, options),
        };
        self.set("Set-Cookie", cookie_value.as_str());
    }

    /// The `Set-Cookie` text for a cookie.
    fn cookify_options(&self, name: &str, value: &str, options: &CookieOptions) -> (r: String)
        ensures
            r@ == cookie_text(name@, value@, *options),
    {
        let pieces = cookie_attribute_texts(options);
        let joined = join_texts(&pieces, ", ");
        let mut out = name.to_owned();
        out.append("=");
        out.append(value);
        out.append("; ");
        out.append(joined.as_str());
        out
    }

    /// The finished response: the status code and the body.
    pub fn get_response(self) -> (r: ResponseParts)
        ensures
            r.status == self@.status,
            r.body@ == self@.response_body,
    {
        ResponseParts { status: self.status, body: self.response_body }
    }

    /// Sets the response body to `body`.
    pub fn set_body(&mut self, body: Vec<u8>)
        ensures
            final(self)@ == (HttpContextView { response_body: body@, ..old(self)@ }),
    {
        self.response_body = body;
    }

    /// Sets the response body to a copy of `body_bytes`.
    pub fn set_body_bytes(&mut self, body_bytes: &[u8])
        ensures
            final(self)@ == (HttpContextView { response_body: body_bytes@, ..old(self)@ }),
    {
        self.response_body = slice_to_vec(body_bytes);
    }

    /// Replaces the query parameters.
    pub fn set_query_params(&mut self, query_params: Vec<(String, String)>)
        ensures
            final(self)@ == (HttpContextView { query_params: entries_view(query_params@), ..old(self)@ }),
            old(self)@.keys_unique() && unique_keys(entries_view(query_params@)) ==> final(self)@.keys_unique(),
    {
        self.query_params = query_params;
    }

    /// Replaces the cookies.
    pub fn set_cookies(&mut self, cookies: Vec<Cookie>)
        ensures
            final(self)@ == (HttpContextView { cookies: cookie_pairs(cookies@), ..old(self)@ }),
    {
        self.cookies = cookies;
    }

    /// The headers of the request, as it arrived.
    pub fn headers(&self) -> (r: Vec<(String, String)>)
        ensures
            entries_view(r@) == self@.request.headers,
    {
        clone_pairs(&self.request.headers)
    }

    /// Removes header `key` from the header list.
    pub fn remove(&mut self, key: &str)
        ensures
            final(self)@ == (HttpContextView { headers: remove_key(old(self)@.headers, key@), ..old(self)@ }),
            old(self)@.keys_unique() ==> final(self)@.keys_unique(),
    {
        proof {
            lemma_remove_keeps_unique(self@.headers, key@);
        }
        remove_entries(&mut self.headers, key);
    }
}

} // verus!
