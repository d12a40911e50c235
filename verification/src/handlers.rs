//! The decisions of the two request handlers: which juno function a request
//! goes to, and what a function's reply does to the response.

use vstd::prelude::*;
use vstd::utf8::encode_utf8;
use crate::config::{HttpConfig, MiddlewareType, capitalized_name};
use crate::entries::{entries_view, find_entry, lemma_first_key_unique, lemma_lookup_insert_same, lookup};
use crate::http_context::{HttpContext, HttpContextView, lemma_object_content};
use crate::json::{json_text, write_json};
use crate::text::{text_eq, text_starts_with};
use crate::value::{JunoNumber, JunoValue, JunoValueView};

verus! {

/// A route configuration handles a request when its method's name is the
/// request's method and its path is the matched route.
pub open spec fn route_matches(c: HttpConfig, method: Seq<char>, route: Seq<char>) -> bool {
    method == capitalized_name(c.config_type) && route == c.path@
}

/// A middleware configuration runs for a request when it is a `Use`
/// configuration whose path is a prefix (byte for byte) of the matched route.
pub open spec fn middleware_matches(c: HttpConfig, route: Seq<char>) -> bool {
    c.config_type == MiddlewareType::Use && encode_utf8(c.path@).is_prefix_of(encode_utf8(route))
}

/// The configuration that handles a request: the first one whose method and
/// path match.
pub fn select_route_config(configs: &Vec<HttpConfig>, method: &str, matched_route: &str) -> (r: Option<usize>)
    ensures
        match r {
            Some(i) => i < configs@.len() && route_matches(configs@[i as int], method@, matched_route@)
                && forall|j: int| 0 <= j < i ==> !route_matches(#[trigger] configs@[j], method@, matched_route@),
            None => forall|j: int| 0 <= j < configs@.len() ==> !route_matches(#[trigger] configs@[j], method@, matched_route@),
        },
{
    let mut i: usize = 0;
    while i < configs.len()
        invariant
            i <= configs@.len(),
            forall|j: int| 0 <= j < i ==> !route_matches(#[trigger] configs@[j], method@, matched_route@),
        decreases configs@.len() - i,
    {
        let config = &configs[i];
        if text_eq(method, config.config_type.to_capitalized_string()) && text_eq(matched_route, config.path.as_str()) {
            return Some(i);
        }
        i = i + 1;
    }
    None
}

/// The middleware that runs for a request: the first `Use` configuration
/// whose path starts the matched route.
pub fn select_middleware_config(configs: &Vec<HttpConfig>, matched_route: &str) -> (r: Option<usize>)
    ensures
        match r {
            Some(i) => i < configs@.len() && middleware_matches(configs@[i as int], matched_route@)
                && forall|j: int| 0 <= j < i ==> !middleware_matches(#[trigger] configs@[j], matched_route@),
            None => forall|j: int| 0 <= j < configs@.len() ==> !middleware_matches(#[trigger] configs@[j], matched_route@),
        },
{
    let mut i: usize = 0;
    while i < configs.len()
        invariant
            i <= configs@.len(),
            forall|j: int| 0 <= j < i ==> !middleware_matches(#[trigger] configs@[j], matched_route@),
        decreases configs@.len() - i,
    {
        let config = &configs[i];
        if config.config_type == MiddlewareType::Use && text_starts_with(matched_route, config.path.as_str()) {
            return Some(i);
        }
        i = i + 1;
    }
    None
}

/// What a handler does after a juno function replied.
#[derive(Clone, Copy, Debug, PartialEq, Eq, Structural)]
pub enum ResponseDecision {
    /// The reply was not an object: pass the request on (and report it).
    NotAnObject,
    /// The reply asked for the next handler: pass the request on.
    Next,
    /// The reply answered the request: send the response.
    Respond,
}

/// The text a reply holds under `key`, when that member is a string.
pub open spec fn member_text(o: Seq<(Seq<char>, JunoValueView)>, key: Seq<char>) -> Option<Seq<char>> {
    match lookup(o, key) {
        Some(JunoValueView::String(s)) => Some(s),
        _ => None,
    }
}

/// The member `key` of a reply, when the reply is an object that has one.
pub open spec fn reply_member(reply: JunoValueView, key: Seq<char>) -> Option<JunoValueView> {
    match reply {
        JunoValueView::Object(o) => lookup(o, key),
        _ => None,
    }
}

/// The reply asks for the next handler: its `next` member is `true`.
pub open spec fn asks_next(o: Seq<(Seq<char>, JunoValueView)>) -> bool {
    lookup(o, "next"@) == Some(JunoValueView::Bool(true))
}

/// What a handler decides on a reply.
pub open spec fn decision_of(reply: JunoValueView) -> ResponseDecision {
    match reply {
        JunoValueView::Object(o) => if asks_next(o) {
            ResponseDecision::Next
        } else {
            ResponseDecision::Respond
        },
        _ => ResponseDecision::NotAnObject,
    }
}

/// The context after a reply that answers the request without redirecting:
/// the content type (`contentType`, `text/html` when it is not a string),
/// the status (`status`, when a non-negative integer, cut to 32 bits), and
/// the body: `json` written as JSON with content type `application/json`,
/// or else the `body` text (empty when absent or not a string). A `headers`
/// member is not applied.
pub open spec fn after_answer(ctx: HttpContextView, o: Seq<(Seq<char>, JunoValueView)>) -> HttpContextView {
    let c1 = match lookup(o, "contentType"@) {
        Some(JunoValueView::String(t)) => ctx.after_content_type(t),
        Some(_) => ctx.after_content_type("text/html"@),
        None => ctx,
    };
    let c2 = match lookup(o, "status"@) {
        Some(JunoValueView::Number(JunoNumber::PosInt(n))) => HttpContextView {
            status: (n % 0x1_0000_0000) as u32,
            ..c1
        },
        _ => c1,
    };
    match lookup(o, "json"@) {
        Some(j) => {
            let c3 = c2.after_content_type("application/json"@);
            HttpContextView { response_body: encode_utf8(json_text(j)), ..c3 }
        },
        None => {
            let text = match member_text(o, "body"@) {
                Some(b) => b,
                None => Seq::empty(),
            };
            HttpContextView { response_body: encode_utf8(text), ..c2 }
        },
    }
}

/// The context after a handler applied a juno function's reply.
pub open spec fn after_reply(ctx: HttpContextView, reply: JunoValueView) -> HttpContextView {
    match reply {
        JunoValueView::Object(o) => if asks_next(o) {
            match lookup(o, "data"@) {
                Some(d) => HttpContextView { data: d, ..ctx },
                None => ctx,
            }
        } else {
            match member_text(o, "redirect"@) {
                Some(url) => ctx.after_redirect(url),
                None => after_answer(ctx, o),
            }
        },
        _ => ctx,
    }
}

/// The reply sets a header: it answers the request (no `next: true`) and
/// redirects, names a content type, or carries `json`.
pub open spec fn reply_sets_header(reply: JunoValueView) -> bool {
    match reply {
        JunoValueView::Object(o) => !asks_next(o) && (member_text(o, "redirect"@) is Some || lookup(
            o,
            "contentType"@,
        ) is Some || lookup(o, "json"@) is Some),
        _ => false,
    }
}

/// Whether applying the reply sets a header (and so needs the
/// representation's `headers` entry).
pub fn reply_sets_headers(reply: &JunoValue) -> (r: bool)
    ensures
        r == reply_sets_header(reply@),
{
    let members = match reply {
        JunoValue::Object(members) => members,
        _ => {
            return false;
        },
    };
    proof {
        lemma_object_content(*members);
    }
    let asks = match find_member(members, "next") {
        Some(JunoValue::Bool(b)) => *b,
        _ => false,
    };
    if asks {
        return false;
    }
    let redirects = match find_member(members, "redirect") {
        Some(JunoValue::String(_)) => true,
        _ => false,
    };
    redirects || find_member(members, "contentType").is_some() || find_member(members, "json").is_some()
}

/// Applies a juno function's reply to the context of the request it was
/// called for, and says whether to pass the request on or to respond.
pub fn apply_function_response(context: &mut HttpContext, reply: &JunoValue) -> (r: ResponseDecision)
    requires
        reply_sets_header(reply@) ==> old(context)@.has_header_map(),
    ensures
        r == decision_of(reply@),
        final(context)@ == after_reply(old(context)@, reply@),
        old(context)@.has_header_map() ==> final(context)@.has_header_map(),
        old(context)@.keys_unique() ==> final(context)@.keys_unique(),
{
    let members = match reply {
        JunoValue::Object(members) => members,
        _ => {
            return ResponseDecision::NotAnObject;
        },
    };
    let ghost o = entries_view(members@);
    proof {
        lemma_object_content(*members);
    }
    let next = find_member(members, "next");
    let asks = match next {
        Some(v) => match v {
            JunoValue::Bool(b) => *b,
            _ => false,
        },
        None => false,
    };
    if asks {
        if let Some(data) = find_member(members, "data") {
            context.data = data.deep_clone();
        }
        return ResponseDecision::Next;
    }
    if let Some(JunoValue::String(url)) = find_member(members, "redirect") {
        context.redirect(url.as_str());
        return ResponseDecision::Respond;
    }
    match find_member(members, "contentType") {
        Some(JunoValue::String(t)) => context.set_content_type(t.as_str()),
        Some(_) => context.set_content_type("text/html"),
        None => {},
    }
    if let Some(JunoValue::Number(JunoNumber::PosInt(n))) = find_member(members, "status") {
        context.status((*n % 0x1_0000_0000) as u32);
    }
    match find_member(members, "json") {
        Some(json) => {
            context.set_content_type("application/json");
            let text = write_json(json);
            context.body(text.as_str());
        },
        None => {
            match find_member(members, "body") {
                Some(JunoValue::String(b)) => context.body(b.as_str()),
                _ => {
                    proof {
                        reveal_strlit("");
                    }
                    context.body("");
                },
            }
        },
    }
    ResponseDecision::Respond
}

/// The reply of a juno function call as a value: `None` when the call could
/// not be made or failed.
pub open spec fn reply_view(reply: Option<JunoValue>) -> Option<JunoValueView> {
    match reply {
        Some(v) => Some(v@),
        None => None,
    }
}

/// What a handler does once its juno function has been called: a failed
/// call passes the request on untouched; a reply decides as
/// `decision_of` says and changes the context as `after_reply` says.
pub open spec fn handler_outcome(ctx: HttpContextView, reply: Option<JunoValueView>) -> (ResponseDecision, HttpContextView) {
    match reply {
        Some(v) => (decision_of(v), after_reply(ctx, v)),
        None => (ResponseDecision::Next, ctx),
    }
}

/// Finishes a handler with the reply of its juno function (`None` when the
/// call could not be made or failed): applies the reply to the context and
/// says whether to pass the request on or to respond.
pub fn finish_handler(context: &mut HttpContext, reply: &Option<JunoValue>) -> (r: ResponseDecision)
    requires
        reply matches Some(v) && reply_sets_header(v@) ==> old(context)@.has_header_map(),
    ensures
        (r, final(context)@) == handler_outcome(old(context)@, reply_view(*reply)),
        old(context)@.has_header_map() ==> final(context)@.has_header_map(),
        old(context)@.keys_unique() ==> final(context)@.keys_unique(),
{
    match reply {
        Some(v) => apply_function_response(context, v),
        None => ResponseDecision::Next,
    }
}

/// Some configuration handles the request on its matched route.
pub open spec fn has_route_config(ctx: HttpContextView) -> bool {
    exists|j: int|
        0 <= j < ctx.http_configs.len() && route_matches(
            #[trigger] ctx.http_configs[j],
            ctx.request.method,
            ctx.matched_route,
        )
}

/// Some middleware configuration runs for the request's matched route.
pub open spec fn has_middleware_config(ctx: HttpContextView) -> bool {
    exists|j: int|
        0 <= j < ctx.http_configs.len() && middleware_matches(#[trigger] ctx.http_configs[j], ctx.matched_route)
}

/// The juno function that `handle_data` calls for a request: that of the
/// first configuration whose method and path match, `None` when none does.
pub fn route_function(context: &HttpContext) -> (r: Option<String>)
    ensures
        r is Some <==> has_route_config(context@),
        r matches Some(f) ==> exists|i: int|
            0 <= i < context@.http_configs.len() && f@ == context@.http_configs[i].func_name@ && route_matches(
                #[trigger] context@.http_configs[i],
                context@.request.method,
                context@.matched_route,
            ) && forall|j: int|
                0 <= j < i ==> !route_matches(
                    #[trigger] context@.http_configs[j],
                    context@.request.method,
                    context@.matched_route,
                ),
{
    match select_route_config(&context.http_configs, context.method(), context.matched_route().as_str()) {
        Some(i) => {
            assert(route_matches(context@.http_configs[i as int], context@.request.method, context@.matched_route));
            Some(context.http_configs[i].func_name.clone())
        },
        None => None,
    }
}

/// The juno function that `handle_middleware` calls for a request: that of
/// the first `Use` configuration whose path starts the matched route, `None`
/// when none does.
pub fn middleware_function(context: &HttpContext) -> (r: Option<String>)
    ensures
        r is Some <==> has_middleware_config(context@),
        r matches Some(f) ==> exists|i: int|
            0 <= i < context@.http_configs.len() && f@ == context@.http_configs[i].func_name@
                && middleware_matches(#[trigger] context@.http_configs[i], context@.matched_route)
                && forall|j: int|
                0 <= j < i ==> !middleware_matches(#[trigger] context@.http_configs[j], context@.matched_route),
{
    match select_middleware_config(&context.http_configs, context.matched_route().as_str()) {
        Some(i) => {
            assert(middleware_matches(context@.http_configs[i as int], context@.matched_route));
            Some(context.http_configs[i].func_name.clone())
        },
        None => None,
    }
}

/// What `handle_data` does with a request, given the reply of the function
/// it calls: with no route configuration it passes the request on untouched.
pub open spec fn data_handler_outcome(ctx: HttpContextView, reply: Option<JunoValueView>) -> (ResponseDecision, HttpContextView) {
    if has_route_config(ctx) {
        handler_outcome(ctx, reply)
    } else {
        (ResponseDecision::Next, ctx)
    }
}

/// What `handle_middleware` does with a request, given the reply of the
/// function it calls: with no middleware configuration it passes the
/// request on untouched.
pub open spec fn middleware_handler_outcome(ctx: HttpContextView, reply: Option<JunoValueView>) -> (ResponseDecision, HttpContextView) {
    if has_middleware_config(ctx) {
        handler_outcome(ctx, reply)
    } else {
        (ResponseDecision::Next, ctx)
    }
}

/// When both handlers find a configuration for a request and their juno
/// functions give the same reply (or both calls fail), they make the same
/// decision and leave the same context: they differ only in which function
/// they call.
pub proof fn lemma_handlers_agree(ctx: HttpContextView, reply: Option<JunoValueView>)
    requires
        has_route_config(ctx),
        has_middleware_config(ctx),
    ensures
        data_handler_outcome(ctx, reply) == middleware_handler_outcome(ctx, reply),
        data_handler_outcome(ctx, reply) == handler_outcome(ctx, reply),
{
}

/// A reply that asks for the next handler leaves the response alone: only
/// the context's data may change, to the reply's `data` member.
pub proof fn lemma_next_keeps_response(ctx: HttpContextView, reply: JunoValueView)
    requires
        reply matches JunoValueView::Object(o) && asks_next(o),
    ensures
        after_reply(ctx, reply) == (HttpContextView { data: after_reply(ctx, reply).data, ..ctx }),
{
}

/// A reply that does not ask for the next handler and names a `redirect`
/// text answers with status 302 and that text as `Location`, whatever else
/// it holds.
pub proof fn lemma_redirect_reply(ctx: HttpContextView, reply: JunoValueView, url: Seq<char>)
    requires
        reply matches JunoValueView::Object(o) && !asks_next(o) && member_text(o, "redirect"@) == Some(url),
    ensures
        decision_of(reply) == ResponseDecision::Respond,
        after_reply(ctx, reply).status == 302,
        lookup(after_reply(ctx, reply).headers, "Location"@) == Some(url),
        after_reply(ctx, reply).response_body == ctx.response_body,
{
    crate::http_context::lemma_redirect(ctx, url);
}

/// A reply that answers with a `json` member sends that value written as
/// JSON, with content type `application/json`; a non-negative 32-bit
/// `status` member becomes the status.
pub proof fn lemma_json_reply(ctx: HttpContextView, reply: JunoValueView, j: JunoValueView, n: u64)
    requires
        reply matches JunoValueView::Object(o) && !asks_next(o) && member_text(o, "redirect"@) is None
            && lookup(o, "json"@) == Some(j),
    ensures
        after_reply(ctx, reply).response_body == encode_utf8(json_text(j)),
        lookup(after_reply(ctx, reply).headers, "Content-Type"@) == Some("application/json"@),
        reply_member(reply, "status"@) == Some(JunoValueView::Number(JunoNumber::PosInt(n))) && n
            < 0x1_0000_0000 ==> after_reply(ctx, reply).status == n,
{
    if let JunoValueView::Object(o) = reply {
        let c1 = match lookup(o, "contentType"@) {
            Some(JunoValueView::String(t)) => ctx.after_content_type(t),
            Some(_) => ctx.after_content_type("text/html"@),
            None => ctx,
        };
        let c2 = match lookup(o, "status"@) {
            Some(JunoValueView::Number(JunoNumber::PosInt(n))) => HttpContextView {
                status: (n % 0x1_0000_0000) as u32,
                ..c1
            },
            _ => c1,
        };
        lemma_lookup_insert_same(c2.headers, "Content-Type"@, "application/json"@);
    }
}

/// A reply that answers the request without redirecting and without `json`
/// sends its `body` text (empty when it has none), and its `contentType`
/// member, when present, sets the `Content-Type` header: to that text when
/// it is a string, to `text/html` otherwise. Without one the header stays.
pub proof fn lemma_content_type_reply(ctx: HttpContextView, reply: JunoValueView)
    requires
        reply matches JunoValueView::Object(o) && !asks_next(o) && member_text(o, "redirect"@) is None
            && lookup(o, "json"@) is None,
    ensures
        decision_of(reply) == ResponseDecision::Respond,
        reply matches JunoValueView::Object(o) && lookup(after_reply(ctx, reply).headers, "Content-Type"@) == match lookup(
            o,
            "contentType"@,
        ) {
            Some(JunoValueView::String(t)) => Some(t),
            Some(_) => Some("text/html"@),
            None => lookup(ctx.headers, "Content-Type"@),
        } && after_reply(ctx, reply).response_body == encode_utf8(
            match member_text(o, "body"@) {
                Some(b) => b,
                None => Seq::<char>::empty(),
            },
        ) && after_reply(ctx, reply).status == match lookup(o, "status"@) {
            Some(JunoValueView::Number(JunoNumber::PosInt(n))) => (n % 0x1_0000_0000) as u32,
            _ => ctx.status,
        } && after_reply(ctx, reply).data == ctx.data,
{
    if let JunoValueView::Object(o) = reply {
        match lookup(o, "contentType"@) {
            Some(JunoValueView::String(t)) => {
                lemma_lookup_insert_same(ctx.headers, "Content-Type"@, t);
            },
            Some(_) => {
                lemma_lookup_insert_same(ctx.headers, "Content-Type"@, "text/html"@);
            },
            None => {},
        }
    }
}

/// A reply that asks for the next handler passes the request on: the
/// context takes the reply's `data` member when it has one and keeps
/// everything else (status, headers, body).
pub proof fn lemma_next_reply(ctx: HttpContextView, reply: JunoValueView)
    requires
        reply matches JunoValueView::Object(o) && asks_next(o),
    ensures
        decision_of(reply) == ResponseDecision::Next,
        reply matches JunoValueView::Object(o) && after_reply(ctx, reply).data == match lookup(o, "data"@) {
            Some(d) => d,
            None => ctx.data,
        },
        after_reply(ctx, reply).status == ctx.status,
        after_reply(ctx, reply).headers == ctx.headers,
        after_reply(ctx, reply).response_body == ctx.response_body,
        after_reply(ctx, reply).juno_representation == ctx.juno_representation,
{
}

/// A reply that is not an object passes the request on and changes nothing.
pub proof fn lemma_non_object_reply(ctx: HttpContextView, reply: JunoValueView)
    requires
        !(reply is Object),
    ensures
        decision_of(reply) == ResponseDecision::NotAnObject,
        after_reply(ctx, reply) == ctx,
{
}

/// A configuration handles a request only when its path is exactly the
/// matched route and its method's name is the request's method: a path that
/// merely starts the route does not match. So some configuration handles a
/// request exactly when one has that route and method.
pub proof fn lemma_route_match_exact(ctx: HttpContextView, c: HttpConfig, method: Seq<char>, route: Seq<char>)
    ensures
        route_matches(c, method, route) ==> c.path@ == route && method == capitalized_name(c.config_type),
        c.path@ != route ==> !route_matches(c, method, route),
        c.path@ == route && method == capitalized_name(c.config_type) ==> route_matches(c, method, route),
        has_route_config(ctx) <==> exists|j: int|
            0 <= j < ctx.http_configs.len() && (#[trigger] ctx.http_configs[j]).path@ == ctx.matched_route
                && ctx.request.method == capitalized_name(ctx.http_configs[j].config_type),
{
}

/// A middleware configuration runs only when it is a `Use` configuration,
/// and a `Use` configuration whose path is the matched route runs.
pub proof fn lemma_middleware_match(c: HttpConfig, route: Seq<char>)
    ensures
        middleware_matches(c, route) ==> c.config_type == MiddlewareType::Use,
        c.config_type == MiddlewareType::Use && c.path@ == route ==> middleware_matches(c, route),
{
    assert(encode_utf8(route).is_prefix_of(encode_utf8(route)));
}

/// The value of the first member named `key`.
pub fn find_member<'a>(members: &'a Vec<(String, JunoValue)>, key: &str) -> (r: Option<&'a JunoValue>)
    ensures
        match r {
            Some(v) => lookup(entries_view(members@), key@) == Some(v@),
            None => lookup(entries_view(members@), key@) is None,
        },
{
    match find_entry(members, key) {
        Some(i) => {
            proof {
                lemma_first_key_unique(entries_view(members@), key@, i as int);
            }
            Some(&members[i].1)
        },
        None => None,
    }
}

} // verus!
