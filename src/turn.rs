use vstd::prelude::*;
use crate::json::{json_literal, json_literal_of};
use crate::stream::opt_text;
use crate::text::{text_copy, text_is};

verus! {

/// An integration the user has set up: an MCP server (`mcp`), or an API key put
/// into the assistant's environment (`api-key`).
pub struct IntegrationConfig {
    pub id: String,
    pub name: String,
    pub integration_type: String,
    pub server_command: Option<String>,
    pub server_args: Option<Vec<String>>,
    pub env_variable: Option<String>,
    pub api_key: Option<String>,
}

/// One server of the generated MCP configuration.
pub struct McpServer {
    pub id: String,
    pub command: String,
    pub args: Vec<String>,
}

pub struct ServerModel {
    pub id: Seq<char>,
    pub command: Seq<char>,
    pub args: Seq<Seq<char>>,
}

pub open spec fn texts_view(v: Seq<String>) -> Seq<Seq<char>> {
    v.map_values(|s: String| s@)
}

impl View for McpServer {
    type V = ServerModel;

    open spec fn view(&self) -> ServerModel {
        ServerModel { id: self.id@, command: self.command@, args: texts_view(self.args@) }
    }
}

/// What an assistant turn takes from the integrations: the MCP servers, keyed by
/// integration id, and the environment variables to set, in order.
pub struct IntegrationPlan {
    pub servers: Vec<McpServer>,
    pub env: Vec<(String, String)>,
    /// Some API key was put into the environment.
    pub has_api_key: bool,
}

pub struct PlanModel {
    pub servers: Seq<ServerModel>,
    pub env: Seq<(Seq<char>, Seq<char>)>,
    pub has_api_key: bool,
}

pub open spec fn servers_view(v: Seq<McpServer>) -> Seq<ServerModel> {
    v.map_values(|s: McpServer| s@)
}

pub open spec fn env_view(v: Seq<(String, String)>) -> Seq<(Seq<char>, Seq<char>)> {
    v.map_values(|p: (String, String)| (p.0@, p.1@))
}

impl View for IntegrationPlan {
    type V = PlanModel;

    open spec fn view(&self) -> PlanModel {
        PlanModel {
            servers: servers_view(self.servers@),
            env: env_view(self.env@),
            has_api_key: self.has_api_key,
        }
    }
}

/// The first position at or after `i` of a server with this id, or the length.
pub open spec fn server_position(s: Seq<ServerModel>, id: Seq<char>, i: int) -> int
    decreases s.len() - i,
{
    if 0 <= i < s.len() {
        if s[i].id == id {
            i
        } else {
            server_position(s, id, i + 1)
        }
    } else {
        s.len() as int
    }
}

/// Adds a server, in place of the one with the same id where there is one.
pub open spec fn upsert(s: Seq<ServerModel>, e: ServerModel) -> Seq<ServerModel> {
    let p = server_position(s, e.id, 0);
    if p < s.len() {
        s.update(p, e)
    } else {
        s.push(e)
    }
}

pub open spec fn empty_plan() -> PlanModel {
    PlanModel { servers: Seq::empty(), env: Seq::empty(), has_api_key: false }
}

/// The plan after one more integration.
pub open spec fn plan_step(p: PlanModel, i: IntegrationConfig) -> PlanModel {
    if i.integration_type@ == "mcp"@ {
        if i.server_command is Some && i.server_args is Some {
            PlanModel {
                servers: upsert(
                    p.servers,
                    ServerModel {
                        id: i.id@,
                        command: i.server_command->0@,
                        args: texts_view(i.server_args->0@),
                    },
                ),
                ..p
            }
        } else {
            p
        }
    } else if i.integration_type@ == "api-key"@ {
        if i.env_variable is Some && i.api_key is Some && i.api_key->0@.len() > 0 {
            PlanModel {
                env: p.env.push((i.env_variable->0@, i.api_key->0@)),
                has_api_key: true,
                ..p
            }
        } else {
            p
        }
    } else {
        p
    }
}

pub open spec fn plan_of(ints: Seq<IntegrationConfig>) -> PlanModel
    decreases ints.len(),
{
    if ints.len() == 0 {
        empty_plan()
    } else {
        plan_step(plan_of(ints.drop_last()), ints.last())
    }
}

/// A configuration file is written where there is a server, or where an API key
/// was set: an empty configuration still keeps out the machine's own servers.
pub open spec fn writes_config(p: PlanModel) -> bool {
    p.servers.len() > 0 || p.has_api_key
}

fn copy_texts(v: &Vec<String>) -> (r: Vec<String>)
    ensures
        r@ == v@,
{
    let mut r: Vec<String> = Vec::new();
    let mut i: usize = 0;
    while i < v.len()
        invariant
            0 <= i <= v@.len(),
            r@ == v@.take(i as int),
        decreases v@.len() - i,
    {
        r.push(v[i].clone());
        assert(r@ =~= v@.take(i + 1));
        i = i + 1;
    }
    assert(v@.take(v@.len() as int) =~= v@);
    r
}

fn add_server(servers: &mut Vec<McpServer>, e: McpServer)
    ensures
        servers_view(final(servers)@) == upsert(servers_view(old(servers)@), e@),
{
    let ghost s = servers_view(servers@);
    let mut i: usize = 0;
    while i < servers.len()
        invariant
            0 <= i <= servers@.len(),
            servers@ == old(servers)@,
            s == servers_view(servers@),
            server_position(s, e@.id, 0) == server_position(s, e@.id, i as int),
        decreases servers@.len() - i,
    {
        if servers[i].id == e.id {
            servers.remove(i);
            servers.insert(i, e);
            assert(servers_view(servers@) =~= s.update(i as int, e@));
            return;
        }
        i = i + 1;
    }
    servers.push(e);
    assert(servers_view(servers@) =~= s.push(e@));
}

/// Sorts the integrations into the servers of the MCP configuration and the
/// environment of the assistant.
pub fn plan_integrations(ints: &Vec<IntegrationConfig>) -> (r: IntegrationPlan)
    ensures
        r@ == plan_of(ints@),
{
    let mut plan = IntegrationPlan { servers: Vec::new(), env: Vec::new(), has_api_key: false };
    let mut i: usize = 0;
    assert(plan@.servers =~= Seq::<ServerModel>::empty());
    assert(plan@.env =~= Seq::<(Seq<char>, Seq<char>)>::empty());
    while i < ints.len()
        invariant
            0 <= i <= ints@.len(),
            plan@ == plan_of(ints@.take(i as int)),
        decreases ints@.len() - i,
    {
        let item = &ints[i];
        assert(ints@.take(i + 1).drop_last() =~= ints@.take(i as int));
        if text_is(&item.integration_type, "mcp") {
            match (&item.server_command, &item.server_args) {
                (Some(command), Some(args)) => {
                    let e = McpServer { id: item.id.clone(), command: command.clone(), args: copy_texts(args) };
                    add_server(&mut plan.servers, e);
                },
                _ => {},
            }
        } else if text_is(&item.integration_type, "api-key") {
            match (&item.env_variable, &item.api_key) {
                (Some(var), Some(key)) => {
                    if key.as_str().unicode_len() > 0 {
                        let ghost before = plan@.env;
                        plan.env.push((var.clone(), key.clone()));
                        plan.has_api_key = true;
                        assert(plan@.env =~= before.push((var@, key@)));
                    }
                },
                _ => {},
            }
        }
        i = i + 1;
    }
    assert(ints@.take(ints@.len() as int) =~= ints@);
    plan
}

impl IntegrationPlan {
    /// Whether the turn writes an MCP configuration file.
    pub fn writes_config(&self) -> (r: bool)
        ensures
            r == writes_config(self@),
    {
        self.servers.len() > 0 || self.has_api_key
    }
}

/// Texts as JSON string literals, separated by commas.
pub open spec fn literal_list(items: Seq<Seq<char>>) -> Seq<char>
    decreases items.len(),
{
    if items.len() == 0 {
        Seq::empty()
    } else if items.len() == 1 {
        json_literal_of(items[0])
    } else {
        literal_list(items.drop_last()) + ","@ + json_literal_of(items.last())
    }
}

/// One member of the `mcpServers` object.
pub open spec fn server_entry(s: ServerModel) -> Seq<char> {
    json_literal_of(s.id) + ":{\"command\":"@ + json_literal_of(s.command) + ",\"args\":["@
        + literal_list(s.args) + "]}"@
}

pub open spec fn server_entries(s: Seq<ServerModel>) -> Seq<char>
    decreases s.len(),
{
    if s.len() == 0 {
        Seq::empty()
    } else if s.len() == 1 {
        server_entry(s[0])
    } else {
        server_entries(s.drop_last()) + ","@ + server_entry(s.last())
    }
}

/// The MCP configuration document: `{"mcpServers":{<id>:{"command":..,"args":[..]},..}}`.
pub open spec fn config_document(s: Seq<ServerModel>) -> Seq<char> {
    "{\"mcpServers\":{"@ + server_entries(s) + "}}"@
}

fn write_literal_list(out: &mut String, items: &Vec<String>)
    ensures
        final(out)@ == old(out)@ + literal_list(texts_view(items@)),
{
    let ghost start = out@;
    let mut i: usize = 0;
    while i < items.len()
        invariant
            0 <= i <= items@.len(),
            out@ == start + literal_list(texts_view(items@.take(i as int))),
        decreases items@.len() - i,
    {
        let ghost prev = texts_view(items@.take(i as int));
        let ghost next = texts_view(items@.take(i + 1));
        assert(next.drop_last() =~= prev);
        assert(next.last() == items@[i as int]@);
        if i > 0 {
            out.append(",");
        }
        let lit = json_literal(items[i].as_str());
        out.append(lit.as_str());
        assert(out@ =~= start + literal_list(next));
        i = i + 1;
    }
    assert(items@.take(items@.len() as int) =~= items@);
}

fn write_server_entry(out: &mut String, s: &McpServer)
    ensures
        final(out)@ == old(out)@ + server_entry(s@),
{
    let ghost start = out@;
    let id = json_literal(s.id.as_str());
    out.append(id.as_str());
    out.append(":{\"command\":");
    let command = json_literal(s.command.as_str());
    out.append(command.as_str());
    out.append(",\"args\":[");
    write_literal_list(out, &s.args);
    out.append("]}");
    assert(out@ =~= start + server_entry(s@));
}

/// Writes the MCP configuration document for these servers.
pub fn config_text(servers: &Vec<McpServer>) -> (r: String)
    ensures
        r@ == config_document(servers_view(servers@)),
{
    let mut out = text_copy("{\"mcpServers\":{");
    let ghost start = out@;
    let mut i: usize = 0;
    while i < servers.len()
        invariant
            0 <= i <= servers@.len(),
            out@ == start + server_entries(servers_view(servers@.take(i as int))),
        decreases servers@.len() - i,
    {
        let ghost prev = servers_view(servers@.take(i as int));
        let ghost next = servers_view(servers@.take(i + 1));
        assert(next.drop_last() =~= prev);
        assert(next.last() == servers@[i as int]@);
        if i > 0 {
            out.append(",");
        }
        write_server_entry(&mut out, &servers[i]);
        assert(out@ =~= start + server_entries(next));
        i = i + 1;
    }
    assert(servers@.take(servers@.len() as int) =~= servers@);
    out.append("}}");
    out
}

/// The assistant's tool permissions for a turn: every tool allowed, none denied.
pub const TOOL_SETTINGS: &'static str = "{\"permissions\":{\"allow\":[\"Bash(*)\",\"Read(*)\",\"Write(*)\",\"Edit(*)\",\"WebFetch(*)\"],\"deny\":[]}}";

pub open spec fn flag_pair(flag: Seq<char>, value: Option<Seq<char>>) -> Seq<Seq<char>> {
    match value {
        Some(v) => seq![flag, v],
        None => Seq::empty(),
    }
}

/// The assistant's arguments for a turn: resume the session where one is given,
/// the system prompt, the MCP configuration file, the streaming output mode, the
/// permissions, and last the user's message, as one argument of its own.
pub open spec fn assistant_arguments(
    session_id: Option<Seq<char>>,
    system_prompt: Option<Seq<char>>,
    config_path: Option<Seq<char>>,
    message: Seq<char>,
) -> Seq<Seq<char>> {
    flag_pair("--resume"@, session_id) + flag_pair("--system-prompt"@, system_prompt) + flag_pair(
        "--mcp-config"@,
        config_path,
    ) + seq![
        "--print"@,
        "--output-format"@,
        "stream-json"@,
        "--verbose"@,
        "--permission-mode"@,
        "bypassPermissions"@,
        "--settings"@,
        TOOL_SETTINGS@,
        message,
    ]
}

fn push_text(v: &mut Vec<String>, s: &str)
    ensures
        texts_view(final(v)@) == texts_view(old(v)@).push(s@),
{
    v.push(text_copy(s));
    assert(texts_view(v@) =~= texts_view(old(v)@).push(s@));
}

fn push_flag_pair(v: &mut Vec<String>, flag: &str, value: &Option<String>)
    ensures
        texts_view(final(v)@) == texts_view(old(v)@) + flag_pair(flag@, opt_text(*value)),
{
    match value {
        Some(x) => {
            push_text(v, flag);
            push_text(v, x.as_str());
            assert(texts_view(v@) =~= texts_view(old(v)@) + flag_pair(flag@, opt_text(*value)));
        },
        None => {
            assert(texts_view(v@) =~= texts_view(old(v)@) + flag_pair(flag@, opt_text(*value)));
        },
    }
}

/// The assistant's command-line arguments for a turn.
pub fn assistant_args(
    session_id: &Option<String>,
    system_prompt: &Option<String>,
    config_path: &Option<String>,
    message: &str,
) -> (r: Vec<String>)
    ensures
        texts_view(r@) == assistant_arguments(
            opt_text(*session_id),
            opt_text(*system_prompt),
            opt_text(*config_path),
            message@,
        ),
{
    let mut v: Vec<String> = Vec::new();
    assert(texts_view(v@) =~= Seq::<Seq<char>>::empty());
    push_flag_pair(&mut v, "--resume", session_id);
    push_flag_pair(&mut v, "--system-prompt", system_prompt);
    push_flag_pair(&mut v, "--mcp-config", config_path);
    let ghost head = texts_view(v@);
    push_text(&mut v, "--print");
    push_text(&mut v, "--output-format");
    push_text(&mut v, "stream-json");
    push_text(&mut v, "--verbose");
    push_text(&mut v, "--permission-mode");
    push_text(&mut v, "bypassPermissions");
    push_text(&mut v, "--settings");
    push_text(&mut v, TOOL_SETTINGS);
    push_text(&mut v, message);
    assert(texts_view(v@) =~= assistant_arguments(
        opt_text(*session_id),
        opt_text(*system_prompt),
        opt_text(*config_path),
        message@,
    ));
    v
}

/// The hidden file name of a conversation's MCP configuration, for the application
/// called `app`.
pub open spec fn config_file_name_of(app: Seq<char>, conversation_id: Seq<char>) -> Seq<char> {
    "."@ + app + "-mcp-"@ + conversation_id + ".json"@
}

/// The file name of a conversation's MCP configuration, placed in the working
/// directory or the system's temporary directory.
pub fn config_file_name(app: &str, conversation_id: &str) -> (r: String)
    ensures
        r@ == config_file_name_of(app@, conversation_id@),
{
    let mut r = text_copy(".");
    r.append(app);
    r.append("-mcp-");
    r.append(conversation_id);
    r.append(".json");
    r
}

/// The topic on which a conversation's response events are published, under the
/// assistant's topic prefix.
pub fn response_topic(prefix: &str, conversation_id: &str) -> (r: String)
    ensures
        r@ == prefix@ + "-response-"@ + conversation_id@,
{
    let mut r = text_copy(prefix);
    r.append("-response-");
    r.append(conversation_id);
    r
}

/// The topic on which a service's output events are published.
pub fn service_topic(service_id: &str) -> (r: String)
    ensures
        r@ == "service-output-"@ + service_id@,
{
    let mut r = text_copy("service-output-");
    r.append(service_id);
    r
}

/// The greeting for a name.
pub fn greet(name: &str) -> (r: String)
    ensures
        r@ == "Hello, "@ + name@ + "! You've been greeted from Rust!"@,
{
    let mut r = text_copy("Hello, ");
    r.append(name);
    r.append("! You've been greeted from Rust!");
    r
}

} // verus!
