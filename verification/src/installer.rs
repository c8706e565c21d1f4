//! The invocations of the target tools that install and remove MCP servers
//! and plugins, and what their outcome means.
//!
//! Nothing here runs a process: a function gives the invocation to run, and
//! another reads the output that came back.

use vstd::prelude::*;
use crate::component::Component;
use crate::component::ComponentType;
use crate::mcp::McpScope;
use crate::mcp::McpServer;
use crate::mcp::McpStatus;
use crate::platform::Platform;
use crate::plugin::Plugin;
use crate::plugin::PluginStatus;
use crate::text::concat;
use crate::text::contains;
use crate::text::contains_text;
use crate::text::ends_with;
use crate::text::has_suffix;
use crate::text::split_words;
use crate::text::to_chars;
use crate::text::trim;
use crate::text::trimmed;
use crate::text::words;

verus! {

/// The command-line grammar of a target tool.
#[derive(Clone, Copy, Debug, PartialEq, Eq, Structural)]
pub enum TargetCli {
    /// Scope and name first, then `-e` variables, then `-t http` and the
    /// address or `--` and the command.
    Assistant,
    /// `--env` variables first, then the name, then `--url` and the address
    /// or `--` and the command.
    Codex,
}

/// A target tool: its grammar, the name of its program, and the host.
#[derive(Debug)]
pub struct Cli {
    pub grammar: TargetCli,
    pub program: String,
    pub platform: Platform,
}

/// One run of a program. Its input is closed and its output is captured.
#[derive(Debug)]
pub struct Invocation {
    pub program: String,
    pub args: Vec<String>,
    /// The directory to run in, where it is not the current one.
    pub working_dir: Option<String>,
}

/// What a run gave back.
#[derive(Debug)]
pub struct CommandOutput {
    /// Whether the exit status was zero.
    pub success: bool,
    pub stdout: String,
    pub stderr: String,
}

/// The arguments, as text.
pub open spec fn args_view(args: Seq<String>) -> Seq<Seq<char>> {
    Seq::new(args.len(), |i: int| args[i]@)
}

/// A directory, as text.
pub open spec fn dir_view(d: Option<String>) -> Option<Seq<char>> {
    match d {
        Some(t) => Some(t@),
        None => None,
    }
}

/// The program that starts the tool: the tool itself, or the command shell
/// on Windows.
pub open spec fn launcher(program: Seq<char>, platform: Platform) -> Seq<char> {
    if platform == Platform::Windows {
        "cmd"@
    } else {
        program
    }
}

/// The arguments that start the tool: none, or `/c` and the tool's name for
/// the command shell on Windows.
pub open spec fn launcher_args(program: Seq<char>, platform: Platform) -> Seq<Seq<char>> {
    if platform == Platform::Windows {
        seq!["/c"@, program]
    } else {
        Seq::empty()
    }
}

/// Appends one argument.
fn push_arg(args: &mut Vec<String>, a: String)
    ensures
        args_view(final(args)@) == args_view(old(args)@).push(a@),
{
    let ghost before = args@;
    args.push(a);
    assert(args_view(args@) =~= args_view(before).push(a@));
}

/// Appends one argument.
fn push_text(args: &mut Vec<String>, a: &str)
    ensures
        args_view(final(args)@) == args_view(old(args)@).push(a@),
{
    push_arg(args, a.to_owned());
}

/// The invocation that starts the tool without arguments of its own.
pub fn create_cli_command(cli: &Cli) -> (r: Invocation)
    ensures
        r.program@ == launcher(cli.program@, cli.platform),
        args_view(r.args@) == launcher_args(cli.program@, cli.platform),
        r.working_dir is None,
{
    let mut args: Vec<String> = Vec::new();
    assert(args_view(args@) =~= Seq::<Seq<char>>::empty());
    match cli.platform {
        Platform::Windows => {
            push_text(&mut args, "/c");
            push_arg(&mut args, cli.program.clone());
            assert(args_view(args@) =~= seq!["/c"@, cli.program@]);
            Invocation { program: "cmd".to_owned(), args, working_dir: None }
        },
        _ => Invocation { program: cli.program.clone(), args, working_dir: None },
    }
}

/// The arguments that hand over environment variables: for each variable the
/// flag and `NAME=value`, in order.
pub open spec fn env_args(env: Seq<(String, String)>, flag: Seq<char>) -> Seq<Seq<char>>
    decreases env.len(),
{
    if env.len() == 0 {
        Seq::empty()
    } else {
        env_args(env.drop_last(), flag).push(flag).push(env.last().0@ + "="@ + env.last().1@)
    }
}

/// The command of a server, word by word; nothing where it has none.
pub open spec fn command_words(command: Option<String>) -> Seq<Seq<char>> {
    match command {
        Some(c) => words(c@),
        None => Seq::empty(),
    }
}

/// How the server is reached, in the first grammar: `-t http` and the
/// address, or `--` and the words of the command.
pub open spec fn assistant_target(server: McpServer) -> Seq<Seq<char>> {
    if server.http() {
        seq!["-t"@, "http"@, server.def.url->0@]
    } else {
        seq!["--"@] + command_words(server.def.command)
    }
}

/// How the server is reached, in the second grammar: `--url` and the
/// address, or `--` and the words of the command.
pub open spec fn codex_target(server: McpServer) -> Seq<Seq<char>> {
    if server.http() {
        seq!["--url"@, server.def.url->0@]
    } else {
        seq!["--"@] + command_words(server.def.command)
    }
}

/// The arguments that register a server, after those that start the tool.
pub open spec fn mcp_add_args(
    server: McpServer,
    scope: McpScope,
    env: Seq<(String, String)>,
    grammar: TargetCli,
) -> Seq<Seq<char>> {
    match grammar {
        TargetCli::Assistant => seq!["mcp"@, "add"@, "--scope"@, scope.label(), server.def.name@]
            + env_args(env, "-e"@) + assistant_target(server),
        TargetCli::Codex => seq!["mcp"@, "add"@] + env_args(env, "--env"@) + seq![
            server.def.name@,
        ] + codex_target(server),
    }
}

/// Appends the arguments that hand over environment variables.
fn push_env(args: &mut Vec<String>, env: &Vec<(String, String)>, flag: &str)
    ensures
        args_view(final(args)@) == args_view(old(args)@) + env_args(env@, flag@),
{
    let ghost start = args_view(args@);
    let mut i: usize = 0;
    assert(env@.subrange(0, 0) =~= Seq::<(String, String)>::empty());
    assert(start + Seq::<Seq<char>>::empty() =~= start);
    while i < env.len()
        invariant
            i <= env.len(),
            args_view(args@) == start + env_args(env@.subrange(0, i as int), flag@),
        decreases env.len() - i,
    {
        let ghost done = env@.subrange(0, i as int);
        let ghost next = env@.subrange(0, i + 1);
        assert(next.drop_last() =~= done);
        assert(next.last() == env@[i as int]);
        let head = concat(env[i].0.as_str(), "=");
        let pair = concat(head.as_str(), env[i].1.as_str());
        push_text(args, flag);
        push_arg(args, pair);
        assert(args_view(args@) =~= start + env_args(next, flag@));
        i += 1;
    }
    assert(env@.subrange(0, env@.len() as int) =~= env@);
}

/// Appends `--` and the words of the server's command.
fn push_command(args: &mut Vec<String>, command: &Option<String>)
    ensures
        args_view(final(args)@) == args_view(old(args)@) + (seq!["--"@] + command_words(*command)),
{
    let ghost start = args_view(args@);
    push_text(args, "--");
    match command {
        Some(c) => {
            let parts = split_words(c.as_str());
            let ghost all = words(c@);
            let mut i: usize = 0;
            while i < parts.len()
                invariant
                    i <= parts.len(),
                    parts@.len() == all.len(),
                    forall|k: int| 0 <= k < parts@.len() ==> (#[trigger] parts@[k])@ == all[k],
                    args_view(args@) == start + (seq!["--"@] + all.subrange(0, i as int)),
                decreases parts.len() - i,
            {
                push_arg(args, parts[i].clone());
                assert(args_view(args@) =~= start + (seq!["--"@] + all.subrange(0, i + 1)));
                i += 1;
            }
            assert(all.subrange(0, all.len() as int) =~= all);
        },
        None => {
            assert(args_view(args@) =~= start + (seq!["--"@] + Seq::<Seq<char>>::empty()));
        },
    }
}

/// The invocation that registers an MCP server with the target tool. In the
/// first grammar the scope and the name come first and the invocation runs
/// in the project's directory where one is given; in the second the
/// variables come first and the scope is not named.
pub fn install_mcp_server(
    server: &McpServer,
    scope: McpScope,
    project_path: Option<&str>,
    env_values: &Vec<(String, String)>,
    cli: &Cli,
) -> (r: Invocation)
    ensures
        r.program@ == launcher(cli.program@, cli.platform),
        args_view(r.args@) == launcher_args(cli.program@, cli.platform) + mcp_add_args(
            *server,
            scope,
            env_values@,
            cli.grammar,
        ),
        dir_view(r.working_dir) == match (cli.grammar, project_path) {
            (TargetCli::Assistant, Some(p)) => Some(p@),
            _ => None,
        },
{
    let base = create_cli_command(cli);
    let program = base.program;
    let mut args = base.args;
    let ghost start = args_view(args@);
    push_text(&mut args, "mcp");
    push_text(&mut args, "add");
    let mut working_dir: Option<String> = None;
    match cli.grammar {
        TargetCli::Assistant => {
            push_text(&mut args, "--scope");
            push_text(&mut args, scope.display());
            push_arg(&mut args, server.def.name.clone());
            assert(args_view(args@) =~= start + seq![
                "mcp"@,
                "add"@,
                "--scope"@,
                scope.label(),
                server.def.name@,
            ]);
            push_env(&mut args, env_values, "-e");
            let ghost mid = args_view(args@);
            match &server.def.url {
                Some(url) => {
                    push_text(&mut args, "-t");
                    push_text(&mut args, "http");
                    push_arg(&mut args, url.clone());
                    assert(args_view(args@) =~= mid + seq!["-t"@, "http"@, url@]);
                },
                None => {
                    push_command(&mut args, &server.def.command);
                },
            }
            working_dir = match project_path {
                Some(p) => Some(p.to_owned()),
                None => None,
            };
            assert(args_view(args@) =~= start + mcp_add_args(
                *server,
                scope,
                env_values@,
                cli.grammar,
            ));
        },
        TargetCli::Codex => {
            assert(args_view(args@) =~= start + seq!["mcp"@, "add"@]);
            push_env(&mut args, env_values, "--env");
            push_arg(&mut args, server.def.name.clone());
            let ghost mid = args_view(args@);
            match &server.def.url {
                Some(url) => {
                    push_text(&mut args, "--url");
                    push_arg(&mut args, url.clone());
                    assert(args_view(args@) =~= mid + seq!["--url"@, url@]);
                },
                None => {
                    push_command(&mut args, &server.def.command);
                },
            }
            assert(args_view(args@) =~= start + mcp_add_args(
                *server,
                scope,
                env_values@,
                cli.grammar,
            ));
        },
    }
    Invocation { program, args, working_dir }
}


/// What a failed run is reported as: what was attempted, the name of what it
/// was attempted on, a colon, and the error output without the white space
/// around it.
pub open spec fn failure_message(what: Seq<char>, name: Seq<char>, stderr: Seq<char>) -> Seq<
    char,
> {
    what + name + ": "@ + trimmed(stderr)
}

/// What a failed run is reported as.
fn failure(what: &str, name: &str, stderr: &str) -> (r: String)
    ensures
        r@ == failure_message(what@, name@, stderr@),
{
    let a = concat(what, name);
    let b = concat(a.as_str(), ": ");
    let t = trim(stderr);
    concat(b.as_str(), t.as_str())
}

/// The outcome of a run whose output is not shown: nothing, or the failure.
pub open spec fn quiet_outcome(
    r: Result<(), String>,
    what: Seq<char>,
    name: Seq<char>,
    output: CommandOutput,
) -> bool {
    if output.success {
        r is Ok
    } else {
        r matches Err(m) && m@ == failure_message(what, name, output.stderr@)
    }
}

/// What registering an MCP server came to: an empty message, or the failure
/// with the error output.
pub fn mcp_install_outcome(server: &McpServer, output: &CommandOutput) -> (r: Result<
    String,
    String,
>)
    ensures
        if output.success {
            r matches Ok(m) && m@.len() == 0
        } else {
            r matches Err(m) && m@ == failure_message(
                "Failed to install MCP server "@,
                server.def.name@,
                output.stderr@,
            )
        },
{
    if output.success {
        Ok(String::new())
    } else {
        Err(
            failure(
                "Failed to install MCP server ",
                server.def.name.as_str(),
                output.stderr.as_str(),
            ),
        )
    }
}

/// The invocation that removes an MCP server from the target tool.
pub fn remove_mcp_server(server: &McpServer, cli: &Cli) -> (r: Invocation)
    ensures
        r.program@ == launcher(cli.program@, cli.platform),
        args_view(r.args@) == launcher_args(cli.program@, cli.platform) + seq![
            "mcp"@,
            "remove"@,
            server.def.name@,
        ],
        r.working_dir is None,
{
    let base = create_cli_command(cli);
    let program = base.program;
    let mut args = base.args;
    let ghost start = args_view(args@);
    push_text(&mut args, "mcp");
    push_text(&mut args, "remove");
    push_arg(&mut args, server.def.name.clone());
    assert(args_view(args@) =~= start + seq!["mcp"@, "remove"@, server.def.name@]);
    Invocation { program, args, working_dir: None }
}

/// What removing an MCP server came to.
pub fn mcp_remove_outcome(server: &McpServer, output: &CommandOutput) -> (r: Result<(), String>)
    ensures
        quiet_outcome(r, "Failed to remove MCP server "@, server.def.name@, *output),
{
    if output.success {
        Ok(())
    } else {
        Err(
            failure(
                "Failed to remove MCP server ",
                server.def.name.as_str(),
                output.stderr.as_str(),
            ),
        )
    }
}

/// The invocation `plugin` followed by the given words.
fn plugin_command(cli: &Cli, first: &str, rest: Vec<String>) -> (r: Invocation)
    ensures
        r.program@ == launcher(cli.program@, cli.platform),
        args_view(r.args@) == launcher_args(cli.program@, cli.platform) + seq![
            "plugin"@,
            first@,
        ] + args_view(rest@),
        r.working_dir is None,
{
    let base = create_cli_command(cli);
    let program = base.program;
    let mut args = base.args;
    let ghost start = args_view(args@);
    push_text(&mut args, "plugin");
    push_text(&mut args, first);
    let mut i: usize = 0;
    assert(args_view(args@) =~= start + seq!["plugin"@, first@] + args_view(rest@).subrange(0, 0));
    while i < rest.len()
        invariant
            i <= rest.len(),
            args_view(args@) == start + seq!["plugin"@, first@] + args_view(rest@).subrange(
                0,
                i as int,
            ),
        decreases rest.len() - i,
    {
        push_arg(&mut args, rest[i].clone());
        assert(args_view(args@) =~= start + seq!["plugin"@, first@] + args_view(rest@).subrange(
            0,
            i + 1,
        ));
        i += 1;
    }
    assert(args_view(rest@).subrange(0, rest@.len() as int) =~= args_view(rest@));
    Invocation { program, args, working_dir: None }
}

/// The invocation that lists the marketplaces registered with the tool: the
/// first step of making sure that a plugin's marketplace is registered.
pub fn ensure_marketplace_added(plugin: &Plugin, cli: &Cli) -> (r: Invocation)
    ensures
        r.program@ == launcher(cli.program@, cli.platform),
        args_view(r.args@) == launcher_args(cli.program@, cli.platform) + seq![
            "plugin"@,
            "marketplace"@,
            "list"@,
        ],
        r.working_dir is None,
{
    let mut rest: Vec<String> = Vec::new();
    rest.push("list".to_owned());
    assert(args_view(rest@) =~= seq!["list"@]);
    let r = plugin_command(cli, "marketplace", rest);
    assert(seq!["plugin"@, "marketplace"@] + seq!["list"@] =~= seq![
        "plugin"@,
        "marketplace"@,
        "list"@,
    ]);
    assert(args_view(r.args@) =~= launcher_args(cli.program@, cli.platform) + seq![
        "plugin"@,
        "marketplace"@,
        "list"@,
    ]);
    r
}

/// The invocation that registers a plugin's marketplace by its address.
pub fn add_marketplace(plugin: &Plugin, cli: &Cli) -> (r: Invocation)
    ensures
        r.program@ == launcher(cli.program@, cli.platform),
        args_view(r.args@) == launcher_args(cli.program@, cli.platform) + seq![
            "plugin"@,
            "marketplace"@,
            "add"@,
            plugin.def.source@,
        ],
        r.working_dir is None,
{
    let mut rest: Vec<String> = Vec::new();
    rest.push("add".to_owned());
    rest.push(plugin.def.source.clone());
    assert(args_view(rest@) =~= seq!["add"@, plugin.def.source@]);
    let r = plugin_command(cli, "marketplace", rest);
    assert(args_view(r.args@) =~= launcher_args(cli.program@, cli.platform) + seq![
        "plugin"@,
        "marketplace"@,
        "add"@,
        plugin.def.source@,
    ]);
    r
}

/// The reference to a plugin on the command line: its name, `@` and its
/// marketplace.
pub open spec fn plugin_ref(plugin: Plugin) -> Seq<char> {
    plugin.def.name@ + "@"@ + plugin.def.marketplace@
}

/// The invocation that installs a plugin from its marketplace.
pub fn install_plugin(plugin: &Plugin, cli: &Cli) -> (r: Invocation)
    ensures
        r.program@ == launcher(cli.program@, cli.platform),
        args_view(r.args@) == launcher_args(cli.program@, cli.platform) + seq![
            "plugin"@,
            "install"@,
            plugin_ref(*plugin),
        ],
        r.working_dir is None,
{
    let head = concat(plugin.def.name.as_str(), "@");
    let reference = concat(head.as_str(), plugin.def.marketplace.as_str());
    let mut rest: Vec<String> = Vec::new();
    rest.push(reference);
    assert(args_view(rest@) =~= seq![plugin_ref(*plugin)]);
    let r = plugin_command(cli, "install", rest);
    assert(args_view(r.args@) =~= launcher_args(cli.program@, cli.platform) + seq![
        "plugin"@,
        "install"@,
        plugin_ref(*plugin),
    ]);
    r
}

/// The invocation that removes a plugin.
pub fn remove_plugin(plugin: &Plugin, cli: &Cli) -> (r: Invocation)
    ensures
        r.program@ == launcher(cli.program@, cli.platform),
        args_view(r.args@) == launcher_args(cli.program@, cli.platform) + seq![
            "plugin"@,
            "uninstall"@,
            plugin.def.name@,
        ],
        r.working_dir is None,
{
    let mut rest: Vec<String> = Vec::new();
    rest.push(plugin.def.name.clone());
    assert(args_view(rest@) =~= seq![plugin.def.name@]);
    let r = plugin_command(cli, "uninstall", rest);
    assert(args_view(r.args@) =~= launcher_args(cli.program@, cli.platform) + seq![
        "plugin"@,
        "uninstall"@,
        plugin.def.name@,
    ]);
    r
}

/// What removing a plugin came to.
pub fn plugin_remove_outcome(plugin: &Plugin, output: &CommandOutput) -> (r: Result<(), String>)
    ensures
        quiet_outcome(r, "Failed to remove plugin "@, plugin.def.name@, *output),
{
    if output.success {
        Ok(())
    } else {
        Err(failure("Failed to remove plugin ", plugin.def.name.as_str(), output.stderr.as_str()))
    }
}

/// Where the installation of a plugin stands: which invocation is awaited.
#[derive(Clone, Copy, Debug, PartialEq, Eq, Structural)]
pub enum PluginInstallState {
    /// The list of registered marketplaces.
    ListingMarketplaces,
    /// The registration of the plugin's marketplace.
    AddingMarketplace,
    /// The installation itself.
    Installing,
}

/// What follows an invocation of the installation of a plugin.
#[derive(Debug)]
pub enum PluginInstallStep {
    /// Run this invocation next and come back in the given state.
    Run(PluginInstallState, Invocation),
    /// The installation is over: the tool's message, or the failure.
    Done(Result<String, String>),
}

/// The list of marketplaces shows the plugin's marketplace as registered: the
/// listing succeeded and its output contains the marketplace's name.
pub open spec fn marketplace_listed(plugin: Plugin, output: CommandOutput) -> bool {
    output.success && contains_text(output.stdout@, plugin.def.marketplace@)
}

/// The step is to run, in `state`, an invocation of the tool with the given
/// arguments.
pub open spec fn runs(
    step: PluginInstallStep,
    state: PluginInstallState,
    cli: Cli,
    args: Seq<Seq<char>>,
) -> bool {
    &&& step matches PluginInstallStep::Run(s, inv)
    &&& s == state
    &&& inv.program@ == launcher(cli.program@, cli.platform)
    &&& args_view(inv.args@) == launcher_args(cli.program@, cli.platform) + args
    &&& inv.working_dir is None
}

/// The next step of installing a plugin, given the state and the output of
/// the invocation that was awaited. A marketplace that the list does not
/// show is registered before the plugin is installed; one that it shows is
/// not registered again. A failed registration or installation ends the
/// installation with its error output; a failed listing does not.
pub fn plugin_install_step(
    plugin: &Plugin,
    cli: &Cli,
    state: PluginInstallState,
    output: &CommandOutput,
) -> (r: PluginInstallStep)
    ensures
        match state {
            PluginInstallState::ListingMarketplaces => if marketplace_listed(*plugin, *output) {
                runs(
                    r,
                    PluginInstallState::Installing,
                    *cli,
                    seq!["plugin"@, "install"@, plugin_ref(*plugin)],
                )
            } else {
                runs(
                    r,
                    PluginInstallState::AddingMarketplace,
                    *cli,
                    seq!["plugin"@, "marketplace"@, "add"@, plugin.def.source@],
                )
            },
            PluginInstallState::AddingMarketplace => if output.success {
                runs(
                    r,
                    PluginInstallState::Installing,
                    *cli,
                    seq!["plugin"@, "install"@, plugin_ref(*plugin)],
                )
            } else {
                r matches PluginInstallStep::Done(Err(m)) && m@ == failure_message(
                    "Failed to add marketplace "@,
                    plugin.def.marketplace@,
                    output.stderr@,
                )
            },
            PluginInstallState::Installing => if output.success {
                r matches PluginInstallStep::Done(Ok(m)) && m@ == trimmed(output.stdout@)
            } else {
                r matches PluginInstallStep::Done(Err(m)) && m@ == failure_message(
                    "Failed to install plugin "@,
                    plugin.def.name@,
                    output.stderr@,
                )
            },
        },
{
    match state {
        PluginInstallState::ListingMarketplaces => {
            if output.success && contains(
                output.stdout.as_str(),
                plugin.def.marketplace.as_str(),
            ) {
                PluginInstallStep::Run(PluginInstallState::Installing, install_plugin(plugin, cli))
            } else {
                PluginInstallStep::Run(
                    PluginInstallState::AddingMarketplace,
                    add_marketplace(plugin, cli),
                )
            }
        },
        PluginInstallState::AddingMarketplace => {
            if output.success {
                PluginInstallStep::Run(PluginInstallState::Installing, install_plugin(plugin, cli))
            } else {
                PluginInstallStep::Done(
                    Err(
                        failure(
                            "Failed to add marketplace ",
                            plugin.def.marketplace.as_str(),
                            output.stderr.as_str(),
                        ),
                    ),
                )
            }
        },
        PluginInstallState::Installing => {
            if output.success {
                PluginInstallStep::Done(Ok(trim(output.stdout.as_str())))
            } else {
                PluginInstallStep::Done(
                    Err(
                        failure(
                            "Failed to install plugin ",
                            plugin.def.name.as_str(),
                            output.stderr.as_str(),
                        ),
                    ),
                )
            }
        },
    }
}

/// How a component is installed.
#[derive(Clone, Copy, Debug, PartialEq, Eq, Structural)]
pub enum InstallPlan {
    /// Copy the file to its destination, and make it executable where told.
    Copy { executable: bool },
    /// Copy the hook's binary, then register the hook in the settings.
    CopyAndRegister { executable: bool },
    /// Merge the file into the settings at the destination.
    MergeSettings,
}

/// The path names a shell script: a file name that ends with `.sh` after at
/// least one other character.
pub open spec fn is_shell_script(path: Seq<char>) -> bool {
    ends_with(path, ".sh"@) && path.len() > 3 && path[path.len() - 4] != '/'
}

/// Whether the copy of a component is made executable: a status-line script
/// or a shell script.
pub open spec fn needs_executable(component: Component) -> bool {
    component.component_type == ComponentType::Statusline || is_shell_script(
        component.source_path@,
    )
}

/// How a component is installed: a hook is copied, and registered where it
/// has a manifest; the settings file is merged; anything else is copied.
pub open spec fn plan_of(component: Component) -> InstallPlan {
    if component.component_type == ComponentType::Hooks {
        if component.hook_config is Some {
            InstallPlan::CopyAndRegister { executable: needs_executable(component) }
        } else {
            InstallPlan::Copy { executable: needs_executable(component) }
        }
    } else if component.component_type == ComponentType::ConfigFile && component.name@
        == "settings.json"@ {
        InstallPlan::MergeSettings
    } else {
        InstallPlan::Copy { executable: needs_executable(component) }
    }
}

/// Whether the path names a shell script.
fn shell_script(path: &str) -> (r: bool)
    ensures
        r == is_shell_script(path@),
{
    if !has_suffix(path, ".sh") {
        return false;
    }
    let v = to_chars(path);
    v.len() > 3 && v[v.len() - 4] != '/'
}

/// How a component is installed.
pub fn install_component(component: &Component) -> (r: InstallPlan)
    ensures
        r == plan_of(*component),
{
    let executable = match component.component_type {
        ComponentType::Statusline => true,
        _ => shell_script(component.source_path.as_str()),
    };
    match component.component_type {
        ComponentType::Hooks => {
            if component.hook_config.is_some() {
                InstallPlan::CopyAndRegister { executable }
            } else {
                InstallPlan::Copy { executable }
            }
        },
        ComponentType::ConfigFile => {
            let settings = "settings.json".to_owned();
            if component.name == settings {
                InstallPlan::MergeSettings
            } else {
                InstallPlan::Copy { executable }
            }
        },
        _ => InstallPlan::Copy { executable },
    }
}


/// The invocation that lists what the tool has of a sort: `mcp list` for the
/// servers, `plugin list` for the plugins.
pub fn list_command(cli: &Cli, sort: &str) -> (r: Invocation)
    ensures
        r.program@ == launcher(cli.program@, cli.platform),
        args_view(r.args@) == launcher_args(cli.program@, cli.platform) + seq![sort@, "list"@],
        r.working_dir is None,
{
    let base = create_cli_command(cli);
    let program = base.program;
    let mut args = base.args;
    let ghost start = args_view(args@);
    push_text(&mut args, sort);
    push_text(&mut args, "list");
    assert(args_view(args@) =~= start + seq![sort@, "list"@]);
    Invocation { program, args, working_dir: None }
}

/// The text in which installed things are looked for: the output of the
/// listing where it succeeded, no text where it failed.
pub open spec fn listing_of(output: CommandOutput) -> Seq<char> {
    if output.success {
        output.stdout@
    } else {
        Seq::empty()
    }
}

/// Whether a server is installed: its name occurs in the listing.
pub fn mcp_status(listing: &CommandOutput, name: &str) -> (r: McpStatus)
    ensures
        r == if contains_text(listing_of(*listing), name@) {
            McpStatus::Installed
        } else {
            McpStatus::NotInstalled
        },
{
    if listing.success {
        if contains(listing.stdout.as_str(), name) {
            McpStatus::Installed
        } else {
            McpStatus::NotInstalled
        }
    } else {
        let nothing = String::new();
        if contains(nothing.as_str(), name) {
            McpStatus::Installed
        } else {
            McpStatus::NotInstalled
        }
    }
}

/// Whether a plugin is installed: its name occurs in the listing.
pub fn plugin_status(listing: &CommandOutput, name: &str) -> (r: PluginStatus)
    ensures
        r == if contains_text(listing_of(*listing), name@) {
            PluginStatus::Installed
        } else {
            PluginStatus::NotInstalled
        },
{
    match mcp_status(listing, name) {
        McpStatus::Installed => PluginStatus::Installed,
        McpStatus::NotInstalled => PluginStatus::NotInstalled,
    }
}

} // verus!
