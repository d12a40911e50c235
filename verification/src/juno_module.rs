//! The juno functions that this module declares, read from their arguments,
//! and the choice of the socket that connects the module to juno.

use vstd::prelude::*;
use crate::config::{HttpConfig, MiddlewareType};
use crate::entries::{entries_view, lookup};
use crate::handlers::{find_member, member_text};
use crate::http_server::{HttpServerCommands, ListenAddress};
use crate::text::{parse_u16, parsed_u16};
use crate::value::{JunoNumber, JunoValue, JunoValueView};

verus! {

/// The `path` argument: its text, or `/` when it is absent or not a string.
pub open spec fn path_argument(args: Seq<(Seq<char>, JunoValueView)>) -> Seq<char> {
    match member_text(args, "path"@) {
        Some(p) => p,
        None => "/"@,
    }
}

/// The `socket` argument: its text, or `127.0.0.1` when it is absent or not a string.
pub open spec fn socket_argument(args: Seq<(Seq<char>, JunoValueView)>) -> Seq<char> {
    match member_text(args, "socket"@) {
        Some(s) => s,
        None => "127.0.0.1"@,
    }
}

/// The `port` argument: a non-negative integer cut to 16 bits, or 3000 when
/// it is absent or anything else.
pub open spec fn port_argument(args: Seq<(Seq<char>, JunoValueView)>) -> u16 {
    match lookup(args, "port"@) {
        Some(JunoValueView::Number(JunoNumber::PosInt(n))) => (n % 0x10000) as u16,
        _ => 3000,
    }
}

/// A `port` argument that fits in 16 bits is the port; anything that is not a
/// non-negative integer gives 3000.
pub proof fn lemma_port_argument(args: Seq<(Seq<char>, JunoValueView)>, n: u64)
    ensures
        lookup(args, "port"@) == Some(JunoValueView::Number(JunoNumber::PosInt(n))) && n <= 65535
            ==> port_argument(args) == n,
        !(lookup(args, "port"@) matches Some(JunoValueView::Number(JunoNumber::PosInt(_))))
            ==> port_argument(args) == 3000,
{
}

/// The configuration that a registering function (`get`, `post`, `use`, ...)
/// is asked for: present when the `function` argument is a string.
pub open spec fn requested_config(
    t: MiddlewareType,
    args: Seq<(Seq<char>, JunoValueView)>,
    c: Option<HttpConfig>,
) -> bool {
    match member_text(args, "function"@) {
        Some(f) => c matches Some(cfg) && cfg.config_type == t && cfg.func_name@ == f && cfg.path@
            == path_argument(args),
        None => c is None,
    }
}

/// The text of the member `key`, or `default` when it is absent or not a string.
fn member_text_or(args: &Vec<(String, JunoValue)>, key: &str, default: &str) -> (r: String)
    ensures
        r@ == match member_text(entries_view(args@), key@) {
            Some(t) => t,
            None => default@,
        },
{
    match find_member(args, key) {
        Some(JunoValue::String(s)) => s.clone(),
        _ => default.to_owned(),
    }
}

/// The configuration asked for by a registering function: `None` when the
/// `function` argument is not a string.
pub fn requested_config_of(middleware_type: MiddlewareType, args: &Vec<(String, JunoValue)>) -> (r: Option<HttpConfig>)
    ensures
        requested_config(middleware_type, entries_view(args@), r),
{
    let path = member_text_or(args, "path", "/");
    match find_member(args, "function") {
        Some(JunoValue::String(f)) => Some(HttpConfig { config_type: middleware_type, func_name: f.clone(), path }),
        _ => None,
    }
}

/// What a registering juno function sends to the HTTP server: the
/// configuration to add, or nothing when the `function` argument is not a string.
pub fn add_app_command(middleware_type: MiddlewareType, args: &Vec<(String, JunoValue)>) -> (r: Option<HttpServerCommands>)
    ensures
        match r {
            Some(HttpServerCommands::AddConfig(c)) => requested_config(middleware_type, entries_view(args@), Some(c)),
            Some(_) => false,
            None => requested_config(middleware_type, entries_view(args@), None),
        },
{
    match requested_config_of(middleware_type, args) {
        Some(config) => Some(HttpServerCommands::AddConfig(config)),
        None => None,
    }
}

/// Where the `listen` function asks the server to listen: the `socket`
/// argument as the host (to be read as an IP address) and the `port` argument.
pub fn listen_command(args: &Vec<(String, JunoValue)>) -> (r: ListenAddress)
    ensures
        r.ip@ == socket_argument(entries_view(args@)),
        r.port == port_argument(entries_view(args@)),
{
    let ip = member_text_or(args, "socket", "127.0.0.1");
    let port: u16 = match find_member(args, "port") {
        Some(JunoValue::Number(JunoNumber::PosInt(n))) => (*n % 0x10000) as u16,
        _ => 3000,
    };
    ListenAddress { ip, port }
}

/// What a juno function of this module does when it is called.
#[derive(Clone, Copy, Debug, PartialEq, Eq, Structural)]
pub enum JunoFunction {
    /// Registers a handler of this kind (`add_app_command`).
    AddConfig(MiddlewareType),
    /// Starts a server (`listen_command`).
    Listen,
    /// Forgets the registered handlers.
    ClearConfig,
}

/// The functions the module declares to juno, by name, in the order of
/// declaration.
pub open spec fn declared_function_table() -> Seq<(Seq<char>, JunoFunction)> {
    seq![
        ("delete"@, JunoFunction::AddConfig(MiddlewareType::Delete)),
        ("get"@, JunoFunction::AddConfig(MiddlewareType::Get)),
        ("options"@, JunoFunction::AddConfig(MiddlewareType::Options)),
        ("patch"@, JunoFunction::AddConfig(MiddlewareType::Patch)),
        ("post"@, JunoFunction::AddConfig(MiddlewareType::Post)),
        ("put"@, JunoFunction::AddConfig(MiddlewareType::Put)),
        ("use"@, JunoFunction::AddConfig(MiddlewareType::Use)),
        ("listen"@, JunoFunction::Listen),
        ("clearConfig"@, JunoFunction::ClearConfig),
    ]
}

/// The functions to declare to juno, each with what it does: one
/// registering function per handler kind, then `listen` and `clearConfig`.
pub fn declared_functions() -> (r: Vec<(&'static str, JunoFunction)>)
    ensures
        r@.len() == declared_function_table().len(),
        forall|i: int|
            0 <= i < r@.len() ==> (#[trigger] r@[i]).0@ == declared_function_table()[i].0 && r@[i].1
                == declared_function_table()[i].1,
{
    let r: Vec<(&'static str, JunoFunction)> = vec![
        ("delete", JunoFunction::AddConfig(MiddlewareType::Delete)),
        ("get", JunoFunction::AddConfig(MiddlewareType::Get)),
        ("options", JunoFunction::AddConfig(MiddlewareType::Options)),
        ("patch", JunoFunction::AddConfig(MiddlewareType::Patch)),
        ("post", JunoFunction::AddConfig(MiddlewareType::Post)),
        ("put", JunoFunction::AddConfig(MiddlewareType::Put)),
        ("use", JunoFunction::AddConfig(MiddlewareType::Use)),
        ("listen", JunoFunction::Listen),
        ("clearConfig", JunoFunction::ClearConfig),
    ];
    r
}

/// How the module connects to juno.
#[derive(Debug, PartialEq, Eq)]
pub enum ConnectionChoice {
    /// A TCP socket at a host and port.
    Inet { host: String, port: u16 },
    /// A unix socket at a path.
    Unix { path: String },
}

/// The port text to read: the `port` option, or `2203`.
pub open spec fn port_text(port: Option<Seq<char>>) -> Seq<char> {
    match port {
        Some(p) => p,
        None => "2203"@,
    }
}

/// The text of an optional string.
pub open spec fn opt_text(s: Option<String>) -> Option<Seq<char>> {
    match s {
        Some(t) => Some(t@),
        None => None,
    }
}

/// The connection chosen from the command line: on windows, or when a port
/// is given, TCP to the host (`127.0.0.1` by default) on the port (`2203` by
/// default); otherwise the unix socket at the given location, or at
/// `default_socket_location`.
pub open spec fn chosen_connection(
    is_windows: bool,
    socket_location: Option<Seq<char>>,
    port: Option<Seq<char>>,
    host: Option<Seq<char>>,
    default_socket_location: Seq<char>,
    r: ConnectionChoice,
) -> bool {
    if is_windows || port is Some {
        r matches ConnectionChoice::Inet { host: h, port: p } && h@ == (match host {
            Some(h) => h,
            None => "127.0.0.1"@,
        }) && Some(p) == parsed_u16(port_text(port))
    } else {
        r matches ConnectionChoice::Unix { path } && path@ == (match socket_location {
            Some(s) => s,
            None => default_socket_location,
        })
    }
}

/// The module connects over TCP exactly on windows or when a port is given,
/// and then to the `--host` option when one is given (on every platform),
/// `127.0.0.1` otherwise, on the port option read as a number (`2203` when
/// absent); otherwise over the unix socket at the socket location, or the
/// default one.
pub proof fn lemma_connection_choice(
    is_windows: bool,
    socket_location: Option<Seq<char>>,
    port: Option<Seq<char>>,
    host: Option<Seq<char>>,
    default_socket_location: Seq<char>,
    r: ConnectionChoice,
)
    requires
        chosen_connection(is_windows, socket_location, port, host, default_socket_location, r),
    ensures
        r is Inet <==> (is_windows || port is Some),
        r matches ConnectionChoice::Inet { host: h, .. } ==> (host matches Some(given) ==> h@ == given) && (
        host is None ==> h@ == "127.0.0.1"@),
        r matches ConnectionChoice::Inet { port: p, .. } ==> parsed_u16(port_text(port)) == Some(p),
        r matches ConnectionChoice::Unix { path } ==> (socket_location matches Some(given) ==> path@ == given)
            && (socket_location is None ==> path@ == default_socket_location),
{
}

/// Chooses how to connect to juno from the command-line options. A socket
/// location on windows, and a port that does not read as a 16-bit number,
/// are errors that end the program before this choice is made.
pub fn choose_connection(
    is_windows: bool,
    socket_location: Option<String>,
    port: Option<String>,
    host: Option<String>,
    default_socket_location: String,
) -> (r: ConnectionChoice)
    requires
        is_windows ==> socket_location is None,
        (is_windows || port is Some) ==> parsed_u16(port_text(opt_text(port))) is Some,
    ensures
        chosen_connection(
            is_windows,
            opt_text(socket_location),
            opt_text(port),
            opt_text(host),
            default_socket_location@,
            r,
        ),
{
    if is_windows || port.is_some() {
        let host_text = match host {
            Some(h) => h,
            None => "127.0.0.1".to_owned(),
        };
        let port_string = match port {
            Some(p) => p,
            None => "2203".to_owned(),
        };
        let parsed = parse_u16(port_string.as_str());
        ConnectionChoice::Inet { host: host_text, port: parsed.unwrap() }
    } else {
        let path = match socket_location {
            Some(s) => s,
            None => default_socket_location,
        };
        ConnectionChoice::Unix { path }
    }
}

} // verus!
