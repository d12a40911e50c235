//! The HTTP server's configuration loop: commands that add or clear handler
//! configurations, and the command that starts a server with them.

use vstd::prelude::*;
use crate::config::{HttpConfig, MiddlewareType, clone_configs};

verus! {

/// The address a server is asked to listen on: an IP address in text and a port.
#[derive(Debug, PartialEq, Eq)]
pub struct ListenAddress {
    pub ip: String,
    pub port: u16,
}

impl Clone for ListenAddress {
    fn clone(&self) -> (r: Self)
        ensures
            r == *self,
    {
        ListenAddress { ip: self.ip.clone(), port: self.port }
    }
}

/// A command to the HTTP server loop.
#[derive(Debug, PartialEq, Eq)]
pub enum HttpServerCommands {
    /// Register one more handler configuration.
    AddConfig(HttpConfig),
    /// Forget every handler configuration registered so far.
    ClearConfig,
    /// Start a server on the address with the configurations registered so far.
    Listen(ListenAddress),
}

impl Clone for HttpServerCommands {
    fn clone(&self) -> (r: Self)
        ensures
            r == *self,
    {
        match self {
            HttpServerCommands::AddConfig(c) => HttpServerCommands::AddConfig(c.clone()),
            HttpServerCommands::ClearConfig => HttpServerCommands::ClearConfig,
            HttpServerCommands::Listen(a) => HttpServerCommands::Listen(a.clone()),
        }
    }
}

/// What the loop does on a `Listen` command: start a server on `address`,
/// give every request the configurations `configs`, and bind `handle_data`
/// to each of `routes` (with the global middleware on `/`).
#[derive(Debug, PartialEq, Eq)]
pub struct ServerLaunch {
    pub address: ListenAddress,
    pub configs: Vec<HttpConfig>,
    pub routes: Vec<HttpConfig>,
}

/// Whether a configuration is bound to a route of its own (every kind but `Use`).
pub open spec fn is_route(c: HttpConfig) -> bool {
    c.config_type != MiddlewareType::Use
}

/// The configurations of `configs` that are bound to routes, in order.
pub open spec fn route_configs(configs: Seq<HttpConfig>) -> Seq<HttpConfig>
    decreases configs.len(),
{
    if configs.len() == 0 {
        configs
    } else {
        let rest = route_configs(configs.drop_last());
        if is_route(configs.last()) {
            rest.push(configs.last())
        } else {
            rest
        }
    }
}

/// The configurations after one command.
pub open spec fn configs_after_command(configs: Seq<HttpConfig>, command: HttpServerCommands) -> Seq<HttpConfig> {
    match command {
        HttpServerCommands::AddConfig(c) => configs.push(c),
        HttpServerCommands::ClearConfig => Seq::empty(),
        HttpServerCommands::Listen(_) => configs,
    }
}

/// The configurations after a run of commands, starting from none.
pub open spec fn configs_after_commands(commands: Seq<HttpServerCommands>) -> Seq<HttpConfig>
    decreases commands.len(),
{
    if commands.len() == 0 {
        Seq::empty()
    } else {
        configs_after_command(configs_after_commands(commands.drop_last()), commands.last())
    }
}

/// The configurations that the `AddConfig` commands of a run carry, in order.
pub open spec fn added_configs(commands: Seq<HttpServerCommands>) -> Seq<HttpConfig>
    decreases commands.len(),
{
    if commands.len() == 0 {
        Seq::empty()
    } else {
        let rest = added_configs(commands.drop_last());
        match commands.last() {
            HttpServerCommands::AddConfig(c) => rest.push(c),
            _ => rest,
        }
    }
}

/// The configurations that a run of commands leaves are those added after its
/// last `ClearConfig` (after its start when there is none), in the order they
/// were added.
pub proof fn lemma_configs_since_last_clear(commands: Seq<HttpServerCommands>, k: int)
    requires
        0 <= k <= commands.len(),
        k == 0 || commands[k - 1] is ClearConfig,
        forall|i: int| k <= i < commands.len() ==> !(#[trigger] commands[i] is ClearConfig),
    ensures
        configs_after_commands(commands) == added_configs(commands.skip(k)),
    decreases commands.len(),
{
    if commands.len() == k {
        assert(commands.skip(k) =~= Seq::<HttpServerCommands>::empty());
        if k > 0 {
            assert(commands.last() is ClearConfig);
        }
    } else {
        let prev = commands.drop_last();
        assert forall|i: int| k <= i < prev.len() implies !(#[trigger] prev[i] is ClearConfig) by {
            assert(prev[i] == commands[i]);
        }
        if k > 0 {
            assert(prev[k - 1] == commands[k - 1]);
        }
        lemma_configs_since_last_clear(prev, k);
        assert(commands.skip(k).drop_last() =~= prev.skip(k));
        assert(commands.skip(k).last() == commands.last());
        assert(!(commands[commands.len() - 1] is ClearConfig));
    }
}

/// Where the configurations of a run start: just after its last
/// `ClearConfig`, or at its start when it has none.
pub open spec fn last_clear_end(commands: Seq<HttpServerCommands>) -> int
    decreases commands.len(),
{
    if commands.len() == 0 {
        0
    } else if commands.last() is ClearConfig {
        commands.len() as int
    } else {
        last_clear_end(commands.drop_last())
    }
}

/// The configurations added since the last `ClearConfig` of a run (since
/// its start when there is none), in the order they were added.
pub open spec fn configs_since_last_clear(commands: Seq<HttpServerCommands>) -> Seq<HttpConfig> {
    added_configs(commands.skip(last_clear_end(commands)))
}

proof fn lemma_last_clear_end(commands: Seq<HttpServerCommands>)
    ensures
        0 <= last_clear_end(commands) <= commands.len(),
        last_clear_end(commands) == 0 || commands[last_clear_end(commands) - 1] is ClearConfig,
        forall|i: int| last_clear_end(commands) <= i < commands.len() ==> !(#[trigger] commands[i] is ClearConfig),
    decreases commands.len(),
{
    if commands.len() > 0 && !(commands.last() is ClearConfig) {
        let prev = commands.drop_last();
        lemma_last_clear_end(prev);
        let k = last_clear_end(prev);
        if k > 0 {
            assert(commands[k - 1] == prev[k - 1]);
        }
        assert forall|i: int| k <= i < commands.len() implies !(#[trigger] commands[i] is ClearConfig) by {
            if i < prev.len() {
                assert(commands[i] == prev[i]);
            }
        }
    }
}

/// After any run of commands, the configurations are those added since the
/// run's last `ClearConfig`, in the order they were added.
pub proof fn lemma_configs_after_commands(commands: Seq<HttpServerCommands>)
    ensures
        configs_after_commands(commands) == configs_since_last_clear(commands),
{
    lemma_last_clear_end(commands);
    lemma_configs_since_last_clear(commands, last_clear_end(commands));
}

/// The configurations bound to routes, in the order they were registered.
pub fn routed_configs(configs: &Vec<HttpConfig>) -> (r: Vec<HttpConfig>)
    ensures
        r@ == route_configs(configs@),
{
    let mut out: Vec<HttpConfig> = Vec::new();
    let mut i: usize = 0;
    while i < configs.len()
        invariant
            i <= configs@.len(),
            out@ == route_configs(configs@.take(i as int)),
        decreases configs@.len() - i,
    {
        proof {
            assert(configs@.take(i + 1).drop_last() =~= configs@.take(i as int));
            assert(configs@.take(i + 1).last() == configs@[i as int]);
        }
        if configs[i].config_type != MiddlewareType::Use {
            out.push(configs[i].clone());
        }
        i = i + 1;
    }
    assert(configs@.take(configs@.len() as int) =~= configs@);
    out
}

/// One step of the server loop: `AddConfig` appends its configuration,
/// `ClearConfig` empties the list, and `Listen` leaves the list as it is and
/// returns the server to start with a copy of it.
pub fn apply_command(configs: &mut Vec<HttpConfig>, command: HttpServerCommands) -> (r: Option<ServerLaunch>)
    ensures
        final(configs)@ == configs_after_command(old(configs)@, command),
        match command {
            HttpServerCommands::Listen(address) => r matches Some(launch) && launch.address == address
                && launch.configs@ == old(configs)@ && launch.routes@ == route_configs(old(configs)@),
            _ => r is None,
        },
{
    match command {
        HttpServerCommands::AddConfig(config) => {
            configs.push(config);
            None
        },
        HttpServerCommands::ClearConfig => {
            configs.clear();
            None
        },
        HttpServerCommands::Listen(address) => {
            let snapshot = clone_configs(configs);
            let routes = routed_configs(configs);
            Some(ServerLaunch { address, configs: snapshot, routes })
        },
    }
}

/// Runs the server loop over a sequence of commands, from no
/// configurations: for each command, the server it starts. A `Listen` starts
/// a server with the configurations added since the last `ClearConfig`
/// before it, in order, and binds those of them that are routes; the other
/// commands start none.
pub fn run_commands(commands: &Vec<HttpServerCommands>) -> (r: Vec<Option<ServerLaunch>>)
    ensures
        r@.len() == commands@.len(),
        forall|k: int|
            #![trigger r@[k]]
            0 <= k < commands@.len() ==> match commands@[k] {
                HttpServerCommands::Listen(address) => r@[k] matches Some(launch) && launch.address == address
                    && launch.configs@ == configs_since_last_clear(commands@.take(k)) && launch.routes@
                    == route_configs(configs_since_last_clear(commands@.take(k))),
                _ => r@[k] is None,
            },
{
    let mut configs: Vec<HttpConfig> = Vec::new();
    let mut launches: Vec<Option<ServerLaunch>> = Vec::new();
    let mut i: usize = 0;
    assert(commands@.take(0) =~= Seq::<HttpServerCommands>::empty());
    while i < commands.len()
        invariant
            i <= commands@.len(),
            launches@.len() == i,
            configs@ == configs_after_commands(commands@.take(i as int)),
            forall|k: int|
                #![trigger launches@[k]]
                0 <= k < i ==> match commands@[k] {
                    HttpServerCommands::Listen(address) => launches@[k] matches Some(launch) && launch.address
                        == address && launch.configs@ == configs_since_last_clear(commands@.take(k))
                        && launch.routes@ == route_configs(configs_since_last_clear(commands@.take(k))),
                    _ => launches@[k] is None,
                },
        decreases commands@.len() - i,
    {
        proof {
            lemma_configs_after_commands(commands@.take(i as int));
            assert(commands@.take(i + 1).drop_last() =~= commands@.take(i as int));
            assert(commands@.take(i + 1).last() == commands@[i as int]);
        }
        let command = commands[i].clone();
        let launch = apply_command(&mut configs, command);
        launches.push(launch);
        i = i + 1;
    }
    launches
}

} // verus!
