//! The registering functions that keep the handler configurations in a list
//! of their own, the `listen` function that starts a server from that list,
//! and the pieces of a request's handling that do not call juno.

use vstd::prelude::*;
use vstd::utf8::*;
use crate::config::{HttpConfig, MiddlewareType, clone_configs};
use crate::entries::{entries_view, lookup};
use crate::http_context::{HttpContext, HttpContextView, RequestParts};
use crate::http_server::{ListenAddress, ServerLaunch, route_configs, routed_configs};
use crate::juno_module::{listen_command, port_argument, requested_config, requested_config_of, socket_argument};
use crate::value::{JunoValue, JunoValueView};
use vstd::string::StringExecFns;

verus! {

/// The list of configurations after a registering function: one more
/// configuration at the end when the `function` argument is a string,
/// unchanged otherwise.
pub open spec fn registered(
    before: Seq<HttpConfig>,
    after: Seq<HttpConfig>,
    t: MiddlewareType,
    args: Seq<(Seq<char>, JunoValueView)>,
) -> bool {
    ||| after == before && requested_config(t, args, None)
    ||| after.len() == before.len() + 1 && after.drop_last() == before && requested_config(
        t,
        args,
        Some(after.last()),
    )
}

/// Registers the configuration that the arguments ask for, of kind `t`.
fn register(t: MiddlewareType, http_config: &mut Vec<HttpConfig>, args: &Vec<(String, JunoValue)>) -> (r: JunoValue)
    ensures
        r@ == JunoValueView::Null,
        registered(old(http_config)@, final(http_config)@, t, entries_view(args@)),
{
    match requested_config_of(t, args) {
        Some(config) => {
            http_config.push(config);
            assert(http_config@.drop_last() =~= old(http_config)@);
        },
        None => {},
    }
    JunoValue::Null
}

/// Registers a `DELETE` route from the `path` and `function` arguments.
pub fn app_delete(http_config: &mut Vec<HttpConfig>, args: &Vec<(String, JunoValue)>) -> (r: JunoValue)
    ensures
        r@ == JunoValueView::Null,
        registered(old(http_config)@, final(http_config)@, MiddlewareType::Delete, entries_view(args@)),
{
    register(MiddlewareType::Delete, http_config, args)
}

/// Registers a `GET` route from the `path` and `function` arguments.
pub fn app_get(http_config: &mut Vec<HttpConfig>, args: &Vec<(String, JunoValue)>) -> (r: JunoValue)
    ensures
        r@ == JunoValueView::Null,
        registered(old(http_config)@, final(http_config)@, MiddlewareType::Get, entries_view(args@)),
{
    register(MiddlewareType::Get, http_config, args)
}

/// Registers an `OPTIONS` route from the `path` and `function` arguments.
pub fn app_options(http_config: &mut Vec<HttpConfig>, args: &Vec<(String, JunoValue)>) -> (r: JunoValue)
    ensures
        r@ == JunoValueView::Null,
        registered(old(http_config)@, final(http_config)@, MiddlewareType::Options, entries_view(args@)),
{
    register(MiddlewareType::Options, http_config, args)
}

/// Registers a `PATCH` route from the `path` and `function` arguments.
pub fn app_patch(http_config: &mut Vec<HttpConfig>, args: &Vec<(String, JunoValue)>) -> (r: JunoValue)
    ensures
        r@ == JunoValueView::Null,
        registered(old(http_config)@, final(http_config)@, MiddlewareType::Patch, entries_view(args@)),
{
    register(MiddlewareType::Patch, http_config, args)
}

/// Registers a `POST` route from the `path` and `function` arguments.
pub fn app_post(http_config: &mut Vec<HttpConfig>, args: &Vec<(String, JunoValue)>) -> (r: JunoValue)
    ensures
        r@ == JunoValueView::Null,
        registered(old(http_config)@, final(http_config)@, MiddlewareType::Post, entries_view(args@)),
{
    register(MiddlewareType::Post, http_config, args)
}

/// Registers a `PUT` route from the `path` and `function` arguments.
pub fn app_put(http_config: &mut Vec<HttpConfig>, args: &Vec<(String, JunoValue)>) -> (r: JunoValue)
    ensures
        r@ == JunoValueView::Null,
        registered(old(http_config)@, final(http_config)@, MiddlewareType::Put, entries_view(args@)),
{
    register(MiddlewareType::Put, http_config, args)
}

/// Registers a middleware (`use`) from the `path` and `function` arguments.
pub fn app_use(http_config: &mut Vec<HttpConfig>, args: &Vec<(String, JunoValue)>) -> (r: JunoValue)
    ensures
        r@ == JunoValueView::Null,
        registered(old(http_config)@, final(http_config)@, MiddlewareType::Use, entries_view(args@)),
{
    register(MiddlewareType::Use, http_config, args)
}

/// Forgets every registered configuration.
pub fn clear_config(http_config: &mut Vec<HttpConfig>, _args: &Vec<(String, JunoValue)>) -> (r: JunoValue)
    ensures
        r@ == JunoValueView::Null,
        final(http_config)@ == Seq::<HttpConfig>::empty(),
{
    http_config.clear();
    JunoValue::Null
}

/// The `listen` function: with a `socket` argument, the server to start on
/// that host (`127.0.0.1` when it is not a string) and the `port` argument,
/// with the registered configurations; without one, nothing is started.
/// Listening while a server already listens is an error that ends the
/// program, so the caller says that no server is listening.
pub fn listen(http_config: &Vec<HttpConfig>, listener_running: bool, args: &Vec<(String, JunoValue)>) -> (r: (
    JunoValue,
    Option<ServerLaunch>,
))
    requires
        !listener_running,
    ensures
        r.0@ == JunoValueView::Null,
        match lookup(entries_view(args@), "socket"@) {
            None => r.1 is None,
            Some(_) => r.1 matches Some(launch) && launch.address.ip@ == socket_argument(entries_view(args@))
                && launch.address.port == port_argument(entries_view(args@)) && launch.configs@
                == http_config@ && launch.routes@ == route_configs(http_config@),
        },
{
    let configs = clone_configs(http_config);
    let routes = routed_configs(http_config);
    match crate::handlers::find_member(args, "socket") {
        None => (JunoValue::Null, None),
        Some(_) => {
            let address = listen_command(args);
            (JunoValue::Null, Some(ServerLaunch { address, configs, routes }))
        },
    }
}

/// The body that answers a request no route matched: `Cannot <method> <path>`.
pub open spec fn not_found_text(method: Seq<char>, path: Seq<char>) -> Seq<char> {
    "Cannot "@ + method + " "@ + path
}

/// Answers a request that no route matched: status 404 and
/// `Cannot <method> <path>` as the body.
pub fn handle_404(context: &mut HttpContext)
    ensures
        final(context)@ == (HttpContextView {
            status: 404,
            response_body: encode_utf8(not_found_text(old(context)@.request.method, old(context)@.request.path)),
            ..old(context)@
        }),
{
    context.status(404);
    let mut text = "Cannot ".to_owned();
    text.append(context.method());
    text.append(" ");
    text.append(context.route());
    context.body(text.as_str());
}

/// The route a request matched: the framework's route key with its first
/// `method.len() + 4` bytes (the method and its markers) cut off.
pub fn matched_route_of(method: &str, path: &str) -> (r: String)
    requires
        is_char_boundary(encode_utf8(path@), encode_utf8(method@).len() + 4int),
        encode_utf8(path@).len() <= usize::MAX,
    ensures
        encode_utf8(r@) == encode_utf8(path@).subrange(
            encode_utf8(method@).len() + 4int,
            encode_utf8(path@).len() as int,
        ),
{
    proof {
        encode_utf8_valid_utf8(path@);
        let bytes = encode_utf8(path@);
        let index = encode_utf8(method@).len() + 4int;
        assert(index <= bytes.len()) by {
            if bytes.len() < index {
                assert(!is_char_boundary(bytes, index));
            }
        }
    }
    let start = method.len() + 4;
    let (_, rest) = path.split_at(start);
    rest.to_owned()
}

/// The context of a request: the matched route from the route key, then
/// `HttpContext::new`, whose precondition no call meets.
pub fn generate_context(request: RequestParts, http_configs: &Vec<HttpConfig>, path: &str) -> (r: HttpContext)
    requires
        is_char_boundary(encode_utf8(path@), encode_utf8(request.method@).len() + 4int),
        encode_utf8(path@).len() <= usize::MAX,
        crate::entries::has_key(Seq::<(Seq<char>, JunoValueView)>::empty(), "headers"@),
{
    let matched_route = matched_route_of(request.method.as_str(), path);
    HttpContext::new(request, matched_route, clone_configs(http_configs))
}

} // verus!
