use juno_http::config::{clone_configs, HttpConfig, MiddlewareType};
use juno_http::handlers::{
    apply_function_response, find_member, finish_handler, middleware_function, reply_sets_headers, route_function,
    select_middleware_config, select_route_config, ResponseDecision,
};
use juno_http::http_context::{Cookie, CookieOptions, HttpContext, RequestParts, SameSite};
use juno_http::http_server::{apply_command, routed_configs, run_commands, HttpServerCommands, ListenAddress};
use juno_http::json::{parse_json, read_json_body, write_json};
use juno_http::juno_module::{
    add_app_command, choose_connection, declared_functions, listen_command, requested_config_of, ConnectionChoice,
    JunoFunction,
};
use juno_http::server::{
    app_delete, app_get, app_options, app_patch, app_post, app_put, app_use, clear_config, handle_404, listen,
    matched_route_of,
};
use juno_http::text::{append_decimal, parse_u16, text_eq, text_starts_with};
use juno_http::value::{JunoNumber, JunoValue};

fn s(x: &str) -> String {
    x.to_string()
}

fn config(t: MiddlewareType, f: &str, p: &str) -> HttpConfig {
    HttpConfig { config_type: t, func_name: s(f), path: s(p) }
}

fn text(x: &str) -> JunoValue {
    JunoValue::String(s(x))
}

fn object(entries: Vec<(&str, JunoValue)>) -> JunoValue {
    JunoValue::Object(entries.into_iter().map(|(k, v)| (s(k), v)).collect())
}

fn args(entries: Vec<(&str, JunoValue)>) -> Vec<(String, JunoValue)> {
    entries.into_iter().map(|(k, v)| (s(k), v)).collect()
}

fn member<'a>(v: &'a [(String, JunoValue)], key: &str) -> Option<&'a JunoValue> {
    v.iter().find(|(k, _)| k == key).map(|(_, v)| v)
}

fn header<'a>(ctx: &'a HttpContext, key: &str) -> Option<&'a str> {
    ctx.headers.iter().find(|(k, _)| k == key).map(|(_, v)| v.as_str())
}

fn context(method: &str, path: &str, body: &str, headers: Vec<(&str, &str)>) -> HttpContext {
    let headers: Vec<(String, String)> = headers.into_iter().map(|(k, v)| (s(k), s(v))).collect();
    HttpContext {
        response_body: body.as_bytes().to_vec(),
        cookies: vec![],
        params: vec![(s("id"), s("7"))],
        query_params: vec![(s("q"), s("x"))],
        request: RequestParts {
            method: s(method),
            path: s(path),
            body: s(body),
            version: 11,
            params: vec![(s("id"), s("7"))],
            headers: headers.clone(),
        },
        status: 200,
        headers,
        matched_route: s(path),
        http_version: 11,
        juno_representation: vec![],
        http_configs: vec![],
        data: JunoValue::Null,
    }
}

fn ready_context(method: &str, path: &str, body: &str, headers: Vec<(&str, &str)>) -> HttpContext {
    let mut ctx = context(method, path, body, headers);
    ctx.generate_juno_representation();
    ctx
}

#[test]
fn capitalized_names() {
    assert_eq!(MiddlewareType::Delete.to_capitalized_string(), "DELETE");
    assert_eq!(MiddlewareType::Get.to_capitalized_string(), "GET");
    assert_eq!(MiddlewareType::Options.to_capitalized_string(), "OPTIONS");
    assert_eq!(MiddlewareType::Patch.to_capitalized_string(), "PATCH");
    assert_eq!(MiddlewareType::Post.to_capitalized_string(), "POST");
    assert_eq!(MiddlewareType::Put.to_capitalized_string(), "PUT");
    assert_eq!(MiddlewareType::Use.to_capitalized_string(), "USE");
}

#[test]
fn clone_configs_copies_entries() {
    let v = vec![config(MiddlewareType::Get, "f", "/a"), config(MiddlewareType::Use, "g", "/")];
    assert_eq!(clone_configs(&v), v);
}

#[test]
fn server_loop_adds_clears_and_listens() {
    let mut configs = vec![];
    assert!(apply_command(&mut configs, HttpServerCommands::AddConfig(config(MiddlewareType::Get, "a", "/a"))).is_none());
    assert!(apply_command(&mut configs, HttpServerCommands::ClearConfig).is_none());
    assert!(configs.is_empty());
    apply_command(&mut configs, HttpServerCommands::AddConfig(config(MiddlewareType::Use, "mw", "/")));
    apply_command(&mut configs, HttpServerCommands::AddConfig(config(MiddlewareType::Post, "b", "/b")));
    let launch = apply_command(
        &mut configs,
        HttpServerCommands::Listen(ListenAddress { ip: s("127.0.0.1"), port: 8080 }),
    )
    .unwrap();
    assert_eq!(launch.address, ListenAddress { ip: s("127.0.0.1"), port: 8080 });
    assert_eq!(launch.configs, vec![config(MiddlewareType::Use, "mw", "/"), config(MiddlewareType::Post, "b", "/b")]);
    assert_eq!(launch.routes, vec![config(MiddlewareType::Post, "b", "/b")]);
    assert_eq!(configs.len(), 2);
}

#[test]
fn routes_skip_middleware() {
    let v = vec![
        config(MiddlewareType::Use, "m", "/"),
        config(MiddlewareType::Delete, "d", "/d"),
        config(MiddlewareType::Use, "m2", "/x"),
        config(MiddlewareType::Patch, "p", "/p"),
    ];
    assert_eq!(
        routed_configs(&v),
        vec![config(MiddlewareType::Delete, "d", "/d"), config(MiddlewareType::Patch, "p", "/p")]
    );
}

#[test]
fn route_selection_takes_first_match() {
    let v = vec![
        config(MiddlewareType::Get, "a", "/x"),
        config(MiddlewareType::Post, "b", "/y"),
        config(MiddlewareType::Post, "c", "/y"),
    ];
    assert_eq!(select_route_config(&v, "POST", "/y"), Some(1));
    assert_eq!(select_route_config(&v, "GET", "/x"), Some(0));
    assert_eq!(select_route_config(&v, "GET", "/y"), None);
    assert_eq!(select_route_config(&v, "get", "/x"), None);
}

#[test]
fn middleware_selection_by_prefix() {
    let v = vec![
        config(MiddlewareType::Get, "a", "/api"),
        config(MiddlewareType::Use, "m1", "/admin"),
        config(MiddlewareType::Use, "m2", "/api"),
    ];
    assert_eq!(select_middleware_config(&v, "/api/users"), Some(2));
    assert_eq!(select_middleware_config(&v, "/admin"), Some(1));
    assert_eq!(select_middleware_config(&v, "/other"), None);
}

#[test]
fn text_helpers() {
    assert!(text_eq("héllo", "héllo"));
    assert!(!text_eq("a", "ab"));
    assert!(text_starts_with("/api/x", "/api"));
    assert!(!text_starts_with("/ap", "/api"));
    assert!(text_starts_with("/x", ""));
}

#[test]
fn decimal_numbers() {
    let mut out = s("n=");
    append_decimal(&mut out, 0);
    assert_eq!(out, "n=0");
    let mut out = String::new();
    append_decimal(&mut out, 18446744073709551615);
    assert_eq!(out, "18446744073709551615");
}

#[test]
fn port_parsing() {
    assert_eq!(parse_u16("2203"), Some(2203));
    assert_eq!(parse_u16("+80"), Some(80));
    assert_eq!(parse_u16("0065535"), Some(65535));
    assert_eq!(parse_u16("65536"), None);
    assert_eq!(parse_u16(""), None);
    assert_eq!(parse_u16("+"), None);
    assert_eq!(parse_u16("-1"), None);
    assert_eq!(parse_u16("12a"), None);
    assert_eq!(parse_u16("99999999999"), None);
}

#[test]
fn json_is_read_with_juno_numbers() {
    let v = parse_json("{\"a\": 1, \"b\": [true, null, -2, \"x\"], \"c\": 18446744073709551615}").unwrap();
    assert_eq!(
        v,
        object(vec![
            ("a", JunoValue::Number(JunoNumber::NegInt(1))),
            (
                "b",
                JunoValue::Array(vec![
                    JunoValue::Bool(true),
                    JunoValue::Null,
                    JunoValue::Number(JunoNumber::NegInt(-2)),
                    text("x"),
                ])
            ),
            ("c", JunoValue::Number(JunoNumber::PosInt(18446744073709551615))),
        ])
    );
    assert_eq!(parse_json("not json"), None);
    assert_eq!(parse_json("null"), Some(JunoValue::Null));
    assert_eq!(read_json_body("not json"), JunoValue::Null);
    assert_eq!(read_json_body("[2]"), JunoValue::Array(vec![JunoValue::Number(JunoNumber::NegInt(2))]));
    match parse_json("1.5").unwrap() {
        JunoValue::Number(JunoNumber::Float(n)) => assert_eq!(n.to_string(), "1.5"),
        other => panic!("expected a float, got {:?}", other),
    }
}

#[test]
fn json_is_written_compactly() {
    let v = object(vec![
        ("k", text("v\"q")),
        ("n", JunoValue::Number(JunoNumber::PosInt(3))),
        ("l", JunoValue::Array(vec![JunoValue::Null, JunoValue::Bool(false)])),
    ]);
    let out = write_json(&v);
    assert!(out == "{\"k\":\"v\\\"q\",\"l\":[null,false],\"n\":3}" || out == "{\"k\":\"v\\\"q\",\"n\":3,\"l\":[null,false]}");
    assert_eq!(write_json(&JunoValue::Number(JunoNumber::NegInt(-4))), "-4");
}

#[test]
fn representation_of_a_request() {
    let ctx = ready_context(
        "GET",
        "/users",
        "hello",
        vec![("Host", "example.com"), ("Accept", "*/*")],
    );
    let repr = &ctx.juno_representation;
    let keys: Vec<&str> = repr.iter().map(|(k, _)| k.as_str()).collect();
    assert_eq!(
        keys,
        vec!["httpVersion", "headers", "rawHeaders", "url", "method", "params", "query", "cookies", "body"]
    );
    assert_eq!(member(repr, "httpVersion"), Some(&text("11")));
    assert_eq!(
        member(repr, "headers"),
        Some(&object(vec![("Host", text("example.com")), ("Accept", text("*/*"))]))
    );
    assert_eq!(
        member(repr, "rawHeaders"),
        Some(&JunoValue::Array(vec![text("Host"), text("example.com"), text("Accept"), text("*/*")]))
    );
    assert_eq!(member(repr, "url"), Some(&text("/users")));
    assert_eq!(member(repr, "method"), Some(&text("GET")));
    assert_eq!(member(repr, "params"), Some(&object(vec![("id", text("7"))])));
    assert_eq!(member(repr, "query"), Some(&object(vec![("q", text("x"))])));
    assert_eq!(member(repr, "cookies"), Some(&object(vec![])));
    assert_eq!(member(repr, "body"), Some(&text("hello")));
}

#[test]
fn json_body_is_parsed_in_representation() {
    let mut ctx = context("POST", "/x", "{\"n\": 5}", vec![("Content-Type", "application/json")]);
    ctx.set_cookies(vec![Cookie { key: s("a"), value: s("1") }, Cookie { key: s("a"), value: s("2") }]);
    ctx.generate_juno_representation();
    let repr = ctx.juno_representation();
    assert_eq!(member(repr, "body"), Some(&object(vec![("n", JunoValue::Number(JunoNumber::NegInt(5)))])));
    assert_eq!(member(repr, "cookies"), Some(&object(vec![("a", text("2"))])));
}

#[test]
fn body_reads_back() {
    let mut ctx = ready_context("GET", "/", "", vec![]);
    ctx.body("ünïcode body");
    assert_eq!(ctx.get_body(), "ünïcode body");
    ctx.set_body(vec![0xff, 0xfe]);
    assert_eq!(ctx.get_body(), "");
    ctx.set_body_bytes(b"raw");
    assert_eq!(ctx.get_body(), "raw");
}

#[test]
fn set_and_remove_headers() {
    let mut ctx = ready_context("GET", "/", "", vec![("A", "1")]);
    ctx.set("B", "2");
    ctx.set("A", "3");
    assert_eq!(header(&ctx, "A"), Some("3"));
    assert_eq!(header(&ctx, "B"), Some("2"));
    assert_eq!(
        member(&ctx.juno_representation, "headers"),
        Some(&object(vec![("A", text("3")), ("B", text("2"))]))
    );
    ctx.remove("A");
    assert_eq!(header(&ctx, "A"), None);
    assert_eq!(header(&ctx, "B"), Some("2"));
    assert_eq!(ctx.headers(), vec![(s("A"), s("1"))]);
}

#[test]
fn redirect_sets_status_and_location() {
    let mut ctx = ready_context("GET", "/", "", vec![]);
    ctx.redirect("/login");
    assert_eq!(ctx.status, 302);
    assert_eq!(header(&ctx, "Location"), Some("/login"));
    let response = ctx.get_response();
    assert_eq!(response.status, 302);
}

#[test]
fn content_type_rereads_body() {
    let mut ctx = ready_context("GET", "/", "[1]", vec![]);
    assert_eq!(member(&ctx.juno_representation, "body"), Some(&text("[1]")));
    ctx.set_content_type("application/json");
    assert_eq!(header(&ctx, "Content-Type"), Some("application/json"));
    assert_eq!(
        member(&ctx.juno_representation, "body"),
        Some(&JunoValue::Array(vec![JunoValue::Number(JunoNumber::NegInt(1))]))
    );
    ctx.set_content_type("text/plain");
    assert_eq!(member(&ctx.juno_representation, "body"), Some(&text("[1]")));
}

#[test]
fn cookies_are_written_and_appended() {
    let mut ctx = ready_context("GET", "/", "", vec![]);
    let full = CookieOptions {
        domain: s("x.com"),
        path: s("/"),
        expires: 10,
        http_only: true,
        max_age: 20,
        secure: true,
        same_site: Some(SameSite::Strict),
    };
    ctx.set_cookie("a", "b", &full);
    assert_eq!(
        header(&ctx, "Set-Cookie"),
        Some("a=b; Path=/, Expires=10, Max-Age=20, Domain=x.com, Secure, HttpOnly, SameSite=Strict")
    );
    let plain = CookieOptions {
        domain: s(""),
        path: s("/p"),
        expires: 0,
        http_only: false,
        max_age: 0,
        secure: false,
        same_site: Some(SameSite::Lax),
    };
    ctx.set_cookie("c", "d", &plain);
    assert_eq!(
        header(&ctx, "Set-Cookie"),
        Some("a=b; Path=/, Expires=10, Max-Age=20, Domain=x.com, Secure, HttpOnly, SameSite=Strict, c=d; Path=/p, SameSite=Lax")
    );
}

#[test]
fn reply_that_is_not_an_object() {
    let mut ctx = ready_context("GET", "/", "b", vec![]);
    assert_eq!(apply_function_response(&mut ctx, &text("x")), ResponseDecision::NotAnObject);
    assert_eq!(ctx.status, 200);
    assert_eq!(ctx.get_body(), "b");
}

#[test]
fn reply_asking_for_next_keeps_data() {
    let mut ctx = ready_context("GET", "/", "b", vec![]);
    let reply = object(vec![("next", JunoValue::Bool(true)), ("data", text("d")), ("status", JunoValue::Number(JunoNumber::PosInt(500)))]);
    assert_eq!(apply_function_response(&mut ctx, &reply), ResponseDecision::Next);
    assert_eq!(ctx.data, text("d"));
    assert_eq!(ctx.status, 200);
    assert_eq!(ctx.get_body(), "b");
}

#[test]
fn reply_with_redirect() {
    let mut ctx = ready_context("GET", "/", "b", vec![]);
    let reply = object(vec![("next", JunoValue::Bool(false)), ("redirect", text("/there")), ("body", text("ignored"))]);
    assert_eq!(apply_function_response(&mut ctx, &reply), ResponseDecision::Respond);
    assert_eq!(ctx.status, 302);
    assert_eq!(header(&ctx, "Location"), Some("/there"));
    assert_eq!(ctx.get_body(), "b");
}

#[test]
fn reply_with_json_and_status() {
    let mut ctx = ready_context("GET", "/", "b", vec![]);
    let reply = object(vec![
        ("json", object(vec![("ok", JunoValue::Bool(true))])),
        ("status", JunoValue::Number(JunoNumber::PosInt(201))),
        ("headers", object(vec![("X", text("y"))])),
    ]);
    assert_eq!(apply_function_response(&mut ctx, &reply), ResponseDecision::Respond);
    assert_eq!(ctx.status, 201);
    assert_eq!(ctx.get_body(), "{\"ok\":true}");
    assert_eq!(header(&ctx, "Content-Type"), Some("application/json"));
    assert_eq!(header(&ctx, "X"), None);
}

#[test]
fn reply_with_body_and_content_type() {
    let mut ctx = ready_context("GET", "/", "b", vec![]);
    let reply = object(vec![("body", text("<p>hi</p>")), ("contentType", JunoValue::Number(JunoNumber::PosInt(1)))]);
    assert_eq!(apply_function_response(&mut ctx, &reply), ResponseDecision::Respond);
    assert_eq!(header(&ctx, "Content-Type"), Some("text/html"));
    assert_eq!(ctx.get_body(), "<p>hi</p>");
    let mut ctx = ready_context("GET", "/", "b", vec![]);
    let reply = object(vec![("status", JunoValue::Number(JunoNumber::PosInt(4294967296 + 404)))]);
    apply_function_response(&mut ctx, &reply);
    assert_eq!(ctx.status, 404);
    assert_eq!(ctx.get_body(), "");
}

#[test]
fn find_member_reads_first_entry() {
    let v = args(vec![("a", text("1")), ("a", text("2"))]);
    assert_eq!(find_member(&v, "a"), Some(&text("1")));
    assert_eq!(find_member(&v, "b"), None);
}

#[test]
fn registering_commands_from_arguments() {
    let cmd = add_app_command(MiddlewareType::Get, &args(vec![("function", text("f")), ("path", text("/p"))]));
    assert_eq!(cmd, Some(HttpServerCommands::AddConfig(config(MiddlewareType::Get, "f", "/p"))));
    let cmd = add_app_command(MiddlewareType::Put, &args(vec![("function", text("f")), ("path", JunoValue::Null)]));
    assert_eq!(cmd, Some(HttpServerCommands::AddConfig(config(MiddlewareType::Put, "f", "/"))));
    assert_eq!(add_app_command(MiddlewareType::Get, &args(vec![("path", text("/p"))])), None);
    assert_eq!(requested_config_of(MiddlewareType::Use, &args(vec![("function", JunoValue::Bool(true))])), None);
}

#[test]
fn listen_arguments() {
    let a = listen_command(&args(vec![("socket", text("0.0.0.0")), ("port", JunoValue::Number(JunoNumber::PosInt(8080)))]));
    assert_eq!(a, ListenAddress { ip: s("0.0.0.0"), port: 8080 });
    let a = listen_command(&args(vec![("port", JunoValue::Number(JunoNumber::NegInt(8080)))]));
    assert_eq!(a, ListenAddress { ip: s("127.0.0.1"), port: 3000 });
    let a = listen_command(&args(vec![("port", JunoValue::Number(JunoNumber::PosInt(70000)))]));
    assert_eq!(a.port, 4464);
}

#[test]
fn server_registration_functions() {
    let mut configs = vec![];
    let f = |p: &str| args(vec![("function", text("fn")), ("path", text(p))]);
    assert_eq!(app_delete(&mut configs, &f("/d")), JunoValue::Null);
    app_get(&mut configs, &f("/g"));
    app_options(&mut configs, &f("/o"));
    app_patch(&mut configs, &f("/pa"));
    app_post(&mut configs, &f("/po"));
    app_put(&mut configs, &f("/pu"));
    app_use(&mut configs, &f("/u"));
    app_get(&mut configs, &args(vec![("path", text("/none"))]));
    let kinds: Vec<MiddlewareType> = configs.iter().map(|c| c.config_type).collect();
    assert_eq!(
        kinds,
        vec![
            MiddlewareType::Delete,
            MiddlewareType::Get,
            MiddlewareType::Options,
            MiddlewareType::Patch,
            MiddlewareType::Post,
            MiddlewareType::Put,
            MiddlewareType::Use
        ]
    );
    let (v, launch) = listen(&configs, false, &args(vec![("port", JunoValue::Number(JunoNumber::PosInt(1)))]));
    assert_eq!(v, JunoValue::Null);
    assert!(launch.is_none());
    let (_, launch) = listen(&configs, false, &args(vec![("socket", JunoValue::Null)]));
    let launch = launch.unwrap();
    assert_eq!(launch.address, ListenAddress { ip: s("127.0.0.1"), port: 3000 });
    assert_eq!(launch.routes.len(), 6);
    assert_eq!(launch.configs.len(), 7);
    assert_eq!(clear_config(&mut configs, &vec![]), JunoValue::Null);
    assert!(configs.is_empty());
}

#[test]
fn not_found_answer() {
    let mut ctx = ready_context("DELETE", "/missing", "x", vec![]);
    handle_404(&mut ctx);
    assert_eq!(ctx.status, 404);
    assert_eq!(ctx.get_body(), "Cannot DELETE /missing");
}

#[test]
fn matched_route_cuts_method_key() {
    assert_eq!(matched_route_of("GET", "__GET__/users/1"), "/users/1");
    assert_eq!(matched_route_of("DELETE", "__DELETE__"), "");
}

#[test]
fn connection_choices() {
    assert_eq!(
        choose_connection(false, None, None, None, s("/cwd/../juno.sock")),
        ConnectionChoice::Unix { path: s("/cwd/../juno.sock") }
    );
    assert_eq!(
        choose_connection(false, Some(s("/tmp/j.sock")), None, Some(s("h")), s("/d")),
        ConnectionChoice::Unix { path: s("/tmp/j.sock") }
    );
    assert_eq!(
        choose_connection(false, None, Some(s("9000")), None, s("/d")),
        ConnectionChoice::Inet { host: s("127.0.0.1"), port: 9000 }
    );
    assert_eq!(
        choose_connection(true, None, None, Some(s("10.0.0.1")), s("/d")),
        ConnectionChoice::Inet { host: s("10.0.0.1"), port: 2203 }
    );
}

#[test]
fn decimal_port_reads_back() {
    for n in [0u16, 7, 80, 2203, 65535] {
        let mut text = String::new();
        append_decimal(&mut text, n as u64);
        assert_eq!(parse_u16(&text), Some(n));
    }
}

#[test]
fn context_accessors() {
    let mut ctx = ready_context("PUT", "/items/3", "", vec![("H", "v")]);
    assert_eq!(ctx.method(), "PUT");
    assert_eq!(ctx.route(), "/items/3");
    assert_eq!(ctx.matched_route(), "/items/3");
    assert_eq!(ctx.http_version(), 11);
    ctx.set_query_params(vec![(s("a"), s("1")), (s("a"), s("2"))]);
    ctx.generate_juno_representation();
    assert_eq!(member(ctx.juno_representation(), "query"), Some(&object(vec![("a", text("2"))])));
    ctx.status(418);
    ctx.body("teapot");
    let response = ctx.get_response();
    assert_eq!(response.status, 418);
    assert_eq!(response.body, b"teapot".to_vec());
}

#[test]
fn values_clone_deeply() {
    let v = object(vec![("a", JunoValue::Array(vec![text("x"), JunoValue::Number(JunoNumber::NegInt(-1))]))]);
    assert_eq!(v.deep_clone(), v);
    assert_eq!(v.clone(), v);
}

#[test]
fn unparseable_json_body_reads_as_null() {
    let ctx = ready_context("POST", "/x", "{oops", vec![("Content-Type", "application/json")]);
    assert_eq!(member(&ctx.juno_representation, "body"), Some(&JunoValue::Null));
}

#[test]
fn body_reply_needs_no_header_map() {
    let mut ctx = context("GET", "/", "b", vec![]);
    let reply = object(vec![("body", text("done")), ("status", JunoValue::Number(JunoNumber::PosInt(200)))]);
    assert!(!reply_sets_headers(&reply));
    assert_eq!(apply_function_response(&mut ctx, &reply), ResponseDecision::Respond);
    assert_eq!(ctx.get_body(), "done");
    assert!(reply_sets_headers(&object(vec![("json", JunoValue::Null)])));
    assert!(reply_sets_headers(&object(vec![("redirect", text("/a"))])));
    assert!(!reply_sets_headers(&object(vec![("next", JunoValue::Bool(true)), ("json", JunoValue::Null)])));
    assert!(!reply_sets_headers(&text("x")));
}

#[test]
fn run_of_commands_listens_with_configs_since_last_clear() {
    let address = |port: u16| ListenAddress { ip: s("127.0.0.1"), port };
    let commands = vec![
        HttpServerCommands::AddConfig(config(MiddlewareType::Get, "old", "/old")),
        HttpServerCommands::ClearConfig,
        HttpServerCommands::AddConfig(config(MiddlewareType::Get, "f", "/a")),
        HttpServerCommands::AddConfig(config(MiddlewareType::Use, "m", "/")),
        HttpServerCommands::Listen(address(80)),
        HttpServerCommands::AddConfig(config(MiddlewareType::Post, "g", "/b")),
        HttpServerCommands::Listen(address(81)),
        HttpServerCommands::ClearConfig,
        HttpServerCommands::Listen(address(82)),
    ];
    let launches = run_commands(&commands);
    assert_eq!(launches.len(), commands.len());
    for k in [0, 1, 2, 3, 5, 7] {
        assert!(launches[k].is_none());
    }
    let first = launches[4].as_ref().unwrap();
    assert_eq!(first.address, address(80));
    assert_eq!(first.configs, vec![config(MiddlewareType::Get, "f", "/a"), config(MiddlewareType::Use, "m", "/")]);
    assert_eq!(first.routes, vec![config(MiddlewareType::Get, "f", "/a")]);
    let second = launches[6].as_ref().unwrap();
    assert_eq!(second.address, address(81));
    assert_eq!(
        second.configs,
        vec![
            config(MiddlewareType::Get, "f", "/a"),
            config(MiddlewareType::Use, "m", "/"),
            config(MiddlewareType::Post, "g", "/b"),
        ]
    );
    assert_eq!(second.routes, vec![config(MiddlewareType::Get, "f", "/a"), config(MiddlewareType::Post, "g", "/b")]);
    let third = launches[8].as_ref().unwrap();
    assert_eq!(third.address, address(82));
    assert!(third.configs.is_empty());
    assert!(third.routes.is_empty());
}

#[test]
fn commands_clone_entry_for_entry() {
    let add = HttpServerCommands::AddConfig(config(MiddlewareType::Put, "f", "/p"));
    assert_eq!(add.clone(), add);
    let listen = HttpServerCommands::Listen(ListenAddress { ip: s("::1"), port: 9 });
    assert_eq!(listen.clone(), listen);
    assert_eq!(HttpServerCommands::ClearConfig.clone(), HttpServerCommands::ClearConfig);
}

#[test]
fn declared_function_names_and_kinds() {
    let table = declared_functions();
    let expected = vec![
        ("delete", JunoFunction::AddConfig(MiddlewareType::Delete)),
        ("get", JunoFunction::AddConfig(MiddlewareType::Get)),
        ("options", JunoFunction::AddConfig(MiddlewareType::Options)),
        ("patch", JunoFunction::AddConfig(MiddlewareType::Patch)),
        ("post", JunoFunction::AddConfig(MiddlewareType::Post)),
        ("put", JunoFunction::AddConfig(MiddlewareType::Put)),
        ("use", JunoFunction::AddConfig(MiddlewareType::Use)),
        ("listen", JunoFunction::Listen),
        ("clearConfig", JunoFunction::ClearConfig),
    ];
    assert_eq!(table, expected);
}

#[test]
fn handler_functions_are_chosen_by_route_and_prefix() {
    let mut ctx = ready_context("GET", "/api/items", "", vec![]);
    ctx.http_configs = vec![
        config(MiddlewareType::Post, "post_items", "/api/items"),
        config(MiddlewareType::Get, "get_items", "/api/items"),
        config(MiddlewareType::Get, "second", "/api/items"),
        config(MiddlewareType::Use, "api_mw", "/api"),
        config(MiddlewareType::Use, "root_mw", "/"),
    ];
    assert_eq!(route_function(&ctx), Some(s("get_items")));
    assert_eq!(middleware_function(&ctx), Some(s("api_mw")));
    ctx.http_configs = vec![config(MiddlewareType::Use, "other", "/other")];
    assert_eq!(route_function(&ctx), None);
    assert_eq!(middleware_function(&ctx), None);
}

#[test]
fn failed_call_passes_request_on_untouched() {
    let mut ctx = ready_context("GET", "/", "b", vec![]);
    let before = ctx.clone();
    assert_eq!(finish_handler(&mut ctx, &None), ResponseDecision::Next);
    assert_eq!(ctx.status, before.status);
    assert_eq!(ctx.headers, before.headers);
    assert_eq!(ctx.response_body, before.response_body);
    assert_eq!(ctx.data, before.data);
}

#[test]
fn both_handlers_apply_the_same_reply_alike() {
    let reply = object(vec![("status", JunoValue::Number(JunoNumber::PosInt(418))), ("body", text("tea"))]);
    let mut by_route = ready_context("GET", "/t", "b", vec![]);
    by_route.http_configs = vec![config(MiddlewareType::Get, "f", "/t"), config(MiddlewareType::Use, "m", "/")];
    let mut by_middleware = by_route.clone();
    assert!(route_function(&by_route).is_some());
    assert!(middleware_function(&by_middleware).is_some());
    let d1 = finish_handler(&mut by_route, &Some(reply.clone()));
    let d2 = finish_handler(&mut by_middleware, &Some(reply));
    assert_eq!(d1, ResponseDecision::Respond);
    assert_eq!(d1, d2);
    assert_eq!(by_route.status, 418);
    assert_eq!(by_route.status, by_middleware.status);
    assert_eq!(by_route.headers, by_middleware.headers);
    assert_eq!(by_route.get_body(), "tea");
    assert_eq!(by_route.response_body, by_middleware.response_body);
    assert_eq!(by_route.data, by_middleware.data);
}
