//! The Model Context Protocol side of tool use: the JSON-RPC messages sent to
//! a tool server, the reading of its replies, and the book of running servers
//! that routes each tool call to the server that offers the tool.
use vstd::prelude::*;
use crate::json::{Json, JsonValue, NumberKind, json_get, json_parse, member_str, number_kind, lemma_object_view, lemma_array_view};
use crate::text::{owned, append_str, str_is};
use crate::error::VidaError;
use crate::models::McpServerConfigRow;

verus! {

/// A tool offered by an MCP server.
#[derive(Debug)]
pub struct McpTool {
    pub name: String,
    pub description: String,
    pub input_schema: JsonValue,
    pub server_name: String,
}

/// A server as shown to the user.
#[derive(Debug)]
pub struct McpServerInfo {
    pub name: String,
    pub command: String,
    pub running: bool,
    pub tool_count: usize,
    pub tools: Vec<McpTool>,
}

/// What a tool call produced.
#[derive(Debug, Clone)]
pub struct McpToolResult {
    pub content: Vec<McpToolResultContent>,
    pub is_error: bool,
}

/// One part of a tool's output.
#[derive(Debug, Clone)]
pub struct McpToolResultContent {
    pub content_type: String,
    pub text: String,
}

/// Why an MCP operation failed.
#[derive(Debug)]
pub enum McpError {
    Io(String),
    Json(String),
    ServerNotFound(String),
    ToolNotFound(String),
    AlreadyRunning(String),
    Protocol(String),
    ToolError(String),
}

/// The message that explains `e`.
pub open spec fn mcp_error_text(e: McpError) -> Seq<char> {
    match e {
        McpError::Io(m) => "IO error: "@ + m@,
        McpError::Json(m) => "JSON error: "@ + m@,
        McpError::ServerNotFound(m) => "Server not found: "@ + m@,
        McpError::ToolNotFound(m) => "Tool not found: "@ + m@,
        McpError::AlreadyRunning(m) => "Server already running: "@ + m@,
        McpError::Protocol(m) => "Protocol error: "@ + m@,
        McpError::ToolError(m) => "Tool call error: "@ + m@,
    }
}

impl McpError {
    /// The message that explains the failure.
    pub fn message(&self) -> (r: String)
        ensures
            r@ == mcp_error_text(*self),
    {
        let (mut r, m) = match self {
            McpError::Io(m) => (owned("IO error: "), m),
            McpError::Json(m) => (owned("JSON error: "), m),
            McpError::ServerNotFound(m) => (owned("Server not found: "), m),
            McpError::ToolNotFound(m) => (owned("Tool not found: "), m),
            McpError::AlreadyRunning(m) => (owned("Server already running: "), m),
            McpError::Protocol(m) => (owned("Protocol error: "), m),
            McpError::ToolError(m) => (owned("Tool call error: "), m),
        };
        append_str(&mut r, m.as_str());
        r
    }
}

impl McpTool {
    /// A copy of the tool.
    pub fn copy(&self) -> (r: McpTool)
        ensures
            r.name@ == self.name@,
            r.description@ == self.description@,
            r.input_schema@ == self.input_schema@,
            r.server_name@ == self.server_name@,
    {
        McpTool {
            name: self.name.clone(),
            description: self.description.clone(),
            input_schema: self.input_schema.deep_copy(),
            server_name: self.server_name.clone(),
        }
    }
}

/// `s`, or `default` where there is none.
pub open spec fn text_or(s: Option<Seq<char>>, default: Seq<char>) -> Seq<char> {
    match s {
        Some(t) => t,
        None => default,
    }
}

/// The list under `result.tools` of a `tools/list` reply, if there is one.
pub open spec fn tools_array(response: Json) -> Option<Seq<Json>> {
    match json_get(response, "result"@) {
        Some(result) => match json_get(result, "tools"@) {
            Some(Json::Array(items)) => Some(items),
            _ => None,
        },
        None => None,
    }
}

/// `tool` is what the listing entry `entry` of server `server` describes: a
/// missing name reads as `unknown`, a missing description as empty, a missing
/// schema as the empty object.
pub open spec fn tool_from_entry(tool: McpTool, entry: Json, server: Seq<char>) -> bool {
    &&& tool.name@ == text_or(member_str(entry, "name"@), "unknown"@)
    &&& tool.description@ == text_or(member_str(entry, "description"@), ""@)
    &&& tool.input_schema@ == match json_get(entry, "inputSchema"@) {
        Some(s) => s,
        None => Json::Object(Seq::empty()),
    }
    &&& tool.server_name@ == server
}

/// Reads the tools that a server lists in reply to `tools/list`.
pub fn parse_tools_response(response: &JsonValue, server_name: &str) -> (r: Result<
    Vec<McpTool>,
    McpError,
>)
    ensures
        match r {
            Ok(tools) => tools_array(response@) matches Some(items) && tools@.len() == items.len()
                && (forall|i: int|
                0 <= i < items.len() ==> tool_from_entry(
                    #[trigger] tools@[i],
                    items[i],
                    server_name@,
                )),
            Err(e) => tools_array(response@) is None && (e matches McpError::Protocol(m) && m@
                == "No tools array in response"@),
        },
{
    let items = match response.get("result") {
        Some(result) => match result.get("tools") {
            Some(JsonValue::Array(items)) => items,
            _ => {
                return Err(McpError::Protocol(owned("No tools array in response")));
            },
        },
        None => {
            return Err(McpError::Protocol(owned("No tools array in response")));
        },
    };
    proof {
        lemma_array_view(*items);
    }
    let ghost js = Seq::new(items@.len(), |k: int| items@[k]@);
    assert(tools_array(response@) == Some(js));
    let mut tools: Vec<McpTool> = Vec::new();
    let mut i: usize = 0;
    while i < items.len()
        invariant
            i <= items@.len(),
            tools@.len() == i,
            js == Seq::new(items@.len(), |k: int| items@[k]@),
            forall|k: int| 0 <= k < i ==> tool_from_entry(#[trigger] tools@[k], js[k], server_name@),
        decreases items@.len() - i,
    {
        let entry = &items[i];
        assert(js[i as int] == entry@);
        let name = match entry.get_str("name") {
            Some(n) => n.clone(),
            None => owned("unknown"),
        };
        let description = match entry.get_str("description") {
            Some(d) => d.clone(),
            None => owned(""),
        };
        let input_schema = match entry.get("inputSchema") {
            Some(s) => s.deep_copy(),
            None => JsonValue::empty_object(),
        };
        let tool = McpTool { name, description, input_schema, server_name: owned(server_name) };
        assert(tool_from_entry(tool, js[i as int], server_name@));
        tools.push(tool);
        i = i + 1;
    }
    Ok(tools)
}

/// `part` is what the content item `item` of a tool reply describes: a missing
/// type reads as `text`, a missing text as empty.
pub open spec fn content_from_item(part: McpToolResultContent, item: Json) -> bool {
    &&& part.content_type@ == text_or(member_str(item, "type"@), "text"@)
    &&& part.text@ == text_or(member_str(item, "text"@), ""@)
}

/// The `isError` flag of a tool reply's result; `false` where it is missing.
pub open spec fn error_flag(result: Json) -> bool {
    match json_get(result, "isError"@) {
        Some(Json::Bool(b)) => b,
        _ => false,
    }
}

/// The content items of a tool reply's result; none where they are missing.
pub open spec fn content_items(result: Json) -> Seq<Json> {
    match json_get(result, "content"@) {
        Some(Json::Array(items)) => items,
        _ => Seq::empty(),
    }
}

/// Reads the reply to a `tools/call` request. A JSON-RPC error is a tool
/// error carrying its message.
pub fn parse_tool_call_response(response: &JsonValue) -> (r: Result<McpToolResult, McpError>)
    ensures
        match json_get(response@, "error"@) {
            Some(err) => r matches Err(McpError::ToolError(m)) && m@ == text_or(
                member_str(err, "message"@),
                "Unknown error"@,
            ),
            None => match json_get(response@, "result"@) {
                None => r matches Err(McpError::Protocol(m)) && m@
                    == "No result in tool call response"@,
                Some(result) => r matches Ok(res) && res.is_error == error_flag(result)
                    && res.content@.len() == content_items(result).len() && (forall|i: int|
                    0 <= i < res.content@.len() ==> content_from_item(
                        #[trigger] res.content@[i],
                        content_items(result)[i],
                    )),
            },
        },
{
    if let Some(err) = response.get("error") {
        let m = match err.get_str("message") {
            Some(m) => m.clone(),
            None => owned("Unknown error"),
        };
        return Err(McpError::ToolError(m));
    }
    let result = match response.get("result") {
        Some(result) => result,
        None => {
            return Err(McpError::Protocol(owned("No result in tool call response")));
        },
    };
    let is_error = match result.get("isError") {
        Some(JsonValue::Bool(b)) => *b,
        _ => false,
    };
    let mut content: Vec<McpToolResultContent> = Vec::new();
    if let Some(JsonValue::Array(items)) = result.get("content") {
        proof {
            lemma_array_view(*items);
        }
        let ghost js = Seq::new(items@.len(), |k: int| items@[k]@);
        assert(content_items(result@) == js);
        let mut i: usize = 0;
        while i < items.len()
            invariant
                i <= items@.len(),
                content@.len() == i,
                js == Seq::new(items@.len(), |k: int| items@[k]@),
                forall|k: int| 0 <= k < i ==> content_from_item(#[trigger] content@[k], js[k]),
            decreases items@.len() - i,
        {
            let item = &items[i];
            assert(js[i as int] == item@);
            let content_type = match item.get_str("type") {
                Some(t) => t.clone(),
                None => owned("text"),
            };
            let text = match item.get_str("text") {
                Some(t) => t.clone(),
                None => owned(""),
            };
            content.push(McpToolResultContent { content_type, text });
            i = i + 1;
        }
    }
    Ok(McpToolResult { content, is_error })
}

// ── JSON-RPC requests ──
/// `j` is a JSON number holding `u`.
pub open spec fn is_number(j: Json, u: u64) -> bool {
    j matches Json::Number(n) && number_kind(n) == NumberKind::PosInt(u)
}

/// An object document with the given members, in the given order.
pub(crate) fn object_of(entries: Vec<(String, JsonValue)>) -> (r: JsonValue)
    ensures
        r@ == Json::Object(Seq::new(entries@.len(), |i: int| (entries@[i].0@, entries@[i].1@))),
{
    proof {
        lemma_object_view(entries);
    }
    JsonValue::Object(entries)
}

/// A member of a JSON-RPC object.
pub(crate) fn member(name: &str, value: JsonValue) -> (r: (String, JsonValue))
    ensures
        r.0@ == name@,
        r.1@ == value@,
{
    (owned(name), value)
}

/// `j` is a JSON-RPC 2.0 request object with id `id`, method `method` and
/// params `params`, members listed by name.
pub open spec fn is_request(j: Json, id: u64, method: Seq<char>, params: Json) -> bool {
    j matches Json::Object(m) && m.len() == 4 && m[0].0 == "id"@ && is_number(m[0].1, id) && m[1]
        == ("jsonrpc"@, Json::Str("2.0"@)) && m[2] == ("method"@, Json::Str(method)) && m[3] == (
    "params"@, params)
}

/// The params of the `initialize` request: the protocol version spoken and
/// who the client is.
pub open spec fn initialize_params() -> Json {
    Json::Object(
        seq![
            ("capabilities"@, Json::Object(Seq::empty())),
            ("clientInfo"@, Json::Object(
                seq![("name"@, Json::Str("vida-ai"@)), ("version"@, Json::Str("0.5.0"@))],
            )),
            ("protocolVersion"@, Json::Str("2024-11-05"@)),
        ],
    )
}

/// The `initialize` request that opens a session with a server.
pub fn initialize_request(id: u64) -> (r: JsonValue)
    ensures
        is_request(r@, id, "initialize"@, initialize_params()),
{
    let client = object_of(
        vec![
            member("name", JsonValue::from_str("vida-ai")),
            member("version", JsonValue::from_str("0.5.0")),
        ],
    );
    let params = object_of(
        vec![
            member("capabilities", JsonValue::empty_object()),
            member("clientInfo", client),
            member("protocolVersion", JsonValue::from_str("2024-11-05")),
        ],
    );
    let ghost client_members = seq![("name"@, Json::Str("vida-ai"@)), ("version"@, Json::Str("0.5.0"@))];
    assert(client@->Object_0 =~= client_members);
    let ghost members = seq![
        ("capabilities"@, Json::Object(Seq::empty())),
        ("clientInfo"@, Json::Object(client_members)),
        ("protocolVersion"@, Json::Str("2024-11-05"@)),
    ];
    assert(params@->Object_0 =~= members);
    request(id, "initialize", params)
}

/// A request with the given id, method and params.
fn request(id: u64, method: &str, params: JsonValue) -> (r: JsonValue)
    ensures
        is_request(r@, id, method@, params@),
{
    let number = JsonValue::from_u64(id);
    let r = object_of(
        vec![
            member("id", number),
            member("jsonrpc", JsonValue::from_str("2.0")),
            member("method", JsonValue::from_str(method)),
            member("params", params),
        ],
    );
    r
}

/// The notification that the session is set up.
pub fn initialized_notification() -> (r: JsonValue)
    ensures
        r@ == Json::Object(
            seq![
                ("jsonrpc"@, Json::Str("2.0"@)),
                ("method"@, Json::Str("notifications/initialized"@)),
            ],
        ),
{
    let r = object_of(
        vec![
            member("jsonrpc", JsonValue::from_str("2.0")),
            member("method", JsonValue::from_str("notifications/initialized")),
        ],
    );
    assert(r@->Object_0 =~= seq![
        ("jsonrpc"@, Json::Str("2.0"@)),
        ("method"@, Json::Str("notifications/initialized"@)),
    ]);
    r
}

/// The request for the list of a server's tools.
pub fn tools_list_request(id: u64) -> (r: JsonValue)
    ensures
        is_request(r@, id, "tools/list"@, Json::Object(Seq::empty())),
{
    request(id, "tools/list", JsonValue::empty_object())
}

/// The request that runs tool `name` with `arguments`.
pub fn tool_call_request(id: u64, name: &str, arguments: JsonValue) -> (r: JsonValue)
    ensures
        is_request(
            r@,
            id,
            "tools/call"@,
            Json::Object(seq![("arguments"@, arguments@), ("name"@, Json::Str(name@))]),
        ),
{
    let ghost a = arguments@;
    let params = object_of(
        vec![member("arguments", arguments), member("name", JsonValue::from_str(name))],
    );
    assert(params@->Object_0 =~= seq![("arguments"@, a), ("name"@, Json::Str(name@))]);
    request(id, "tools/call", params)
}

// ── The book of running servers ──
/// The request id of the `initialize` request that opens a server's session.
pub const INITIALIZE_ID: u64 = 1;

/// The request id of the `tools/list` request sent while a server starts.
pub const TOOLS_LIST_ID: u64 = 2;

/// A running server: its name, the command that started it, its tools, and
/// the id of its next request.
struct ServerEntry {
    name: String,
    command: String,
    tools: Vec<McpTool>,
    next_id: u64,
}

/// The names of `tools`.
pub open spec fn tool_names(tools: Seq<McpTool>) -> Seq<Seq<char>> {
    Seq::new(tools.len(), |i: int| tools[i].name@)
}

/// What a tool offers: its name, its description, the schema of its input,
/// and the server that offers it.
pub struct ToolView {
    pub name: Seq<char>,
    pub description: Seq<char>,
    pub input_schema: Json,
    pub server_name: Seq<char>,
}

/// What `tool` offers.
pub open spec fn tool_view(tool: McpTool) -> ToolView {
    ToolView {
        name: tool.name@,
        description: tool.description@,
        input_schema: tool.input_schema@,
        server_name: tool.server_name@,
    }
}

/// What `tools` offer, one by one.
pub open spec fn tool_views(tools: Seq<McpTool>) -> Seq<ToolView> {
    Seq::new(tools.len(), |i: int| tool_view(tools[i]))
}

/// The tools of the first `n` servers, server by server.
spec fn tool_views_upto(servers: Seq<ServerEntry>, n: int) -> Seq<ToolView>
    decreases n,
{
    if n <= 0 || n > servers.len() {
        Seq::empty()
    } else {
        tool_views_upto(servers, n - 1) + tool_views(servers[n - 1].tools@)
    }
}

/// The names of the tools of the first `n` servers, server by server.
spec fn tool_names_upto(servers: Seq<ServerEntry>, n: int) -> Seq<Seq<char>>
    decreases n,
{
    if n <= 0 || n > servers.len() {
        Seq::empty()
    } else {
        tool_names_upto(servers, n - 1) + tool_names(servers[n - 1].tools@)
    }
}

/// The running servers, and the tools through which calls are routed to them.
pub struct McpManager {
    servers: Vec<ServerEntry>,
}

impl McpManager {
    /// No two running servers share a name.
    #[verifier::type_invariant]
    spec fn names_unique(&self) -> bool {
        forall|i: int, j: int|
            0 <= i < j < self.servers@.len() ==> #[trigger] self.servers@[i].name@
                != #[trigger] self.servers@[j].name@
    }

    /// The names of the running servers, in the order they were started.
    pub closed spec fn server_names(&self) -> Seq<Seq<char>> {
        Seq::new(self.servers@.len(), |i: int| self.servers@[i].name@)
    }

    /// The names of the tools that running server `i` offers.
    pub closed spec fn server_tools(&self, i: int) -> Seq<Seq<char>> {
        tool_names(self.servers@[i].tools@)
    }

    /// The tools that running server `i` offers, as it listed them.
    pub closed spec fn server_tool_list(&self, i: int) -> Seq<ToolView> {
        tool_views(self.servers@[i].tools@)
    }

    /// All the tools on offer, server by server.
    pub closed spec fn all_tools(&self) -> Seq<ToolView> {
        tool_views_upto(self.servers@, self.servers@.len() as int)
    }

    /// The command that started running server `i`.
    pub closed spec fn server_command(&self, i: int) -> Seq<char> {
        self.servers@[i].command@
    }

    /// The id that the next request to running server `i` will carry.
    pub closed spec fn server_next_id(&self, i: int) -> u64 {
        self.servers@[i].next_id
    }

    /// The names of all the tools on offer, server by server.
    pub closed spec fn all_tool_names(&self) -> Seq<Seq<char>> {
        tool_names_upto(self.servers@, self.servers@.len() as int)
    }

    /// A book with no server running.
    pub fn new() -> (r: McpManager)
        ensures
            r.server_names() == Seq::<Seq<char>>::empty(),
            r.all_tool_names() == Seq::<Seq<char>>::empty(),
            r.all_tools() == Seq::<ToolView>::empty(),
    {
        let r = McpManager { servers: Vec::new() };
        assert(r.server_names() =~= Seq::<Seq<char>>::empty());
        r
    }

    /// How many servers run.
    pub fn running_count(&self) -> (r: usize)
        ensures
            r == self.server_names().len(),
    {
        self.servers.len()
    }

    fn index_of(&self, name: &str) -> (r: Option<usize>)
        ensures
            match r {
                Some(i) => i < self.server_names().len() && self.server_names()[i as int] == name@,
                None => !self.server_names().contains(name@),
            },
    {
        let mut i: usize = 0;
        while i < self.servers.len()
            invariant
                i <= self.servers@.len(),
                forall|k: int| 0 <= k < i ==> self.servers@[k].name@ != name@,
            decreases self.servers@.len() - i,
        {
            if str_is(self.servers[i].name.as_str(), name) {
                return Some(i);
            }
            i = i + 1;
        }
        assert forall|k: int| 0 <= k < self.server_names().len() implies self.server_names()[k]
            != name@ by {
            assert(self.servers@[k].name@ != name@);
        }
        None
    }

    /// Whether a server of that name runs.
    pub fn is_running(&self, name: &str) -> (r: bool)
        ensures
            r == self.server_names().contains(name@),
    {
        match self.index_of(name) {
            Some(i) => {
                assert(self.server_names()[i as int] == name@);
                true
            },
            None => false,
        }
    }

    /// Whether a server of that name may start: none of that name runs yet.
    pub fn check_can_start(&self, name: &str) -> (r: Result<(), McpError>)
        ensures
            r is Ok <==> !self.server_names().contains(name@),
            r matches Err(e) ==> (e matches McpError::AlreadyRunning(n) && n@ == name@),
    {
        if self.is_running(name) {
            Err(McpError::AlreadyRunning(owned(name)))
        } else {
            Ok(())
        }
    }

    /// Records a server that has started and listed `tools`; its next request
    /// follows the two sent while it started.
    pub fn add_server(&mut self, name: &str, command: &str, tools: Vec<McpTool>) -> (r: Result<
        (),
        McpError,
    >)
        ensures
            r is Ok <==> !old(self).server_names().contains(name@),
            r matches Err(e) ==> (e matches McpError::AlreadyRunning(n) && n@ == name@),
            r is Ok ==> final(self).server_names() == old(self).server_names().push(name@),
            r is Ok ==> final(self).server_tools(old(self).server_names().len() as int)
                == tool_names(tools@),
            r is Ok ==> final(self).server_tool_list(old(self).server_names().len() as int)
                == tool_views(tools@),
            r is Ok ==> final(self).all_tools() == old(self).all_tools() + tool_views(tools@),
            r is Ok ==> final(self).server_next_id(old(self).server_names().len() as int)
                == TOOLS_LIST_ID + 1,
            r is Ok ==> forall|i: int|
                0 <= i < old(self).server_names().len() ==> final(self).server_tools(i) == old(
                    self,
                ).server_tools(i) && final(self).server_tool_list(i) == old(self).server_tool_list(i)
                    && final(self).server_next_id(i) == old(self).server_next_id(i),
            r is Err ==> final(self).server_names() == old(self).server_names(),
    {
        proof {
            use_type_invariant(&*self);
        }
        if self.is_running(name) {
            return Err(McpError::AlreadyRunning(owned(name)));
        }
        let entry = ServerEntry {
            name: owned(name),
            command: owned(command),
            tools,
            next_id: TOOLS_LIST_ID + 1,
        };
        let ghost old_servers = self.servers@;
        assert forall|k: int| 0 <= k < old_servers.len() implies old_servers[k].name@ != name@ by {
            assert(self.server_names()[k] == old_servers[k].name@);
        }
        let mut servers: Vec<ServerEntry> = Vec::new();
        std::mem::swap(&mut servers, &mut self.servers);
        servers.push(entry);
        self.servers = servers;
        assert(self.server_names() =~= old(self).server_names().push(name@));
        proof {
            lemma_views_upto_prefix(old_servers, self.servers@, old_servers.len() as int);
        }
        Ok(())
    }

    /// Removes a server from the book; the caller then ends its process.
    pub fn stop_server(&mut self, name: &str) -> (r: Result<(), McpError>)
        ensures
            r is Ok <==> old(self).server_names().contains(name@),
            r matches Err(e) ==> (e matches McpError::ServerNotFound(n) && n@ == name@),
            !final(self).server_names().contains(name@),
            forall|n: Seq<char>|
                n != name@ ==> (final(self).server_names().contains(n) <==> old(
                    self,
                ).server_names().contains(n)),
    {
        proof {
            use_type_invariant(&*self);
        }
        match self.index_of(name) {
            None => Err(McpError::ServerNotFound(owned(name))),
            Some(i) => {
                let ghost old_names = self.server_names();
                let ghost old_servers = self.servers@;
                let mut servers: Vec<ServerEntry> = Vec::new();
                std::mem::swap(&mut servers, &mut self.servers);
                servers.remove(i);
                assert forall|a: int, b: int|
                    0 <= a < b < servers@.len() implies #[trigger] servers@[a].name@
                        != #[trigger] servers@[b].name@ by {
                    let oa = if a < i { a } else { a + 1 };
                    let ob = if b < i { b } else { b + 1 };
                    assert(servers@[a] == old_servers[oa]);
                    assert(servers@[b] == old_servers[ob]);
                }
                self.servers = servers;
                assert(self.server_names() =~= old_names.remove(i as int));
                assert forall|k: int| 0 <= k < self.server_names().len() implies self.server_names()[k]
                    != name@ by {
                    if k < i {
                        assert(old_servers[k].name@ != old_servers[i as int].name@);
                    } else {
                        assert(old_servers[k + 1].name@ != old_servers[i as int].name@);
                    }
                }
                assert forall|n: Seq<char>| n != name@ implies (self.server_names().contains(n)
                    <==> old_names.contains(n)) by {
                    if old_names.contains(n) {
                        let k = choose|k: int| 0 <= k < old_names.len() && old_names[k] == n;
                        if k < i {
                            assert(self.server_names()[k] == n);
                        } else {
                            assert(k != i);
                            assert(self.server_names()[k - 1] == n);
                        }
                    }
                }
                Ok(())
            },
        }
    }

    /// The running servers, each with its tools.
    pub fn list_servers(&self) -> (r: Vec<McpServerInfo>)
        ensures
            r@.len() == self.server_names().len(),
            forall|i: int|
                0 <= i < r@.len() ==> (#[trigger] r@[i]).name@ == self.server_names()[i]
                    && r@[i].running && r@[i].tool_count == self.server_tools(i).len()
                    && tool_names(r@[i].tools@) == self.server_tools(i)
                    && tool_views(r@[i].tools@) == self.server_tool_list(i),
    {
        let mut out: Vec<McpServerInfo> = Vec::new();
        let mut i: usize = 0;
        while i < self.servers.len()
            invariant
                i <= self.servers@.len(),
                out@.len() == i,
                forall|k: int|
                    0 <= k < i ==> (#[trigger] out@[k]).name@ == self.server_names()[k]
                        && out@[k].running && out@[k].tool_count == self.server_tools(k).len()
                        && tool_names(out@[k].tools@) == self.server_tools(k)
                        && tool_views(out@[k].tools@) == self.server_tool_list(k),
            decreases self.servers@.len() - i,
        {
            let entry = &self.servers[i];
            let tools = copy_tools(&entry.tools);
            out.push(
                McpServerInfo {
                    name: entry.name.clone(),
                    command: entry.command.clone(),
                    running: true,
                    tool_count: entry.tools.len(),
                    tools,
                },
            );
            i = i + 1;
        }
        out
    }

    /// The saved servers as shown to the user: a running one as it runs,
    /// any other as stopped, without tools.
    pub fn list_configured(&self, configs: &[McpServerConfigRow]) -> (r: Vec<McpServerInfo>)
        ensures
            r@.len() == configs@.len(),
            forall|i: int|
                0 <= i < configs@.len() ==> (#[trigger] r@[i]).name@ == configs@[i].name@ && match
                    self.server_names().index_of_first(configs@[i].name@) {
                    Some(j) => r@[i].running && r@[i].command@ == self.server_command(j)
                        && r@[i].tool_count == self.server_tools(j).len() && tool_names(
                        r@[i].tools@,
                    ) == self.server_tools(j),
                    None => !r@[i].running && r@[i].command@ == configs@[i].command@
                        && r@[i].tool_count == 0 && r@[i].tools@.len() == 0,
                },
    {
        let mut out: Vec<McpServerInfo> = Vec::new();
        let mut i: usize = 0;
        while i < configs.len()
            invariant
                i <= configs@.len(),
                out@.len() == i,
                forall|k: int|
                    0 <= k < i ==> (#[trigger] out@[k]).name@ == configs@[k].name@ && match
                        self.server_names().index_of_first(configs@[k].name@) {
                        Some(j) => out@[k].running && out@[k].command@ == self.server_command(j)
                            && out@[k].tool_count == self.server_tools(j).len() && tool_names(
                            out@[k].tools@,
                        ) == self.server_tools(j),
                        None => !out@[k].running && out@[k].command@ == configs@[k].command@
                            && out@[k].tool_count == 0 && out@[k].tools@.len() == 0,
                    },
            decreases configs@.len() - i,
        {
            let c = &configs[i];
            let ghost names = self.server_names();
            proof {
                names.index_of_first_ensures(c.name@);
            }
            match self.index_of(c.name.as_str()) {
                Some(j) => {
                    proof {
                        use_type_invariant(self);
                        let f = names.index_of_first(c.name@);
                        assert(f matches Some(fj) && fj == j) by {
                            match f {
                                Some(fj) => {
                                    if fj < j {
                                        assert(self.servers@[fj].name@ != self.servers@[j as int].name@);
                                    } else if fj > j {
                                        assert(self.servers@[j as int].name@ != self.servers@[fj].name@);
                                    }
                                },
                                None => {
                                    assert(names[j as int] == c.name@);
                                },
                            }
                        }
                    }
                    let entry = &self.servers[j];
                    let tools = copy_tools(&entry.tools);
                    out.push(
                        McpServerInfo {
                            name: c.name.clone(),
                            command: entry.command.clone(),
                            running: true,
                            tool_count: entry.tools.len(),
                            tools,
                        },
                    );
                },
                None => {
                    assert(names.index_of_first(c.name@) is None);
                    out.push(
                        McpServerInfo {
                            name: c.name.clone(),
                            command: c.command.clone(),
                            running: false,
                            tool_count: 0,
                            tools: Vec::new(),
                        },
                    );
                },
            }
            i = i + 1;
        }
        out
    }

    /// All the tools on offer, server by server.
    pub fn list_tools(&self) -> (r: Vec<McpTool>)
        ensures
            tool_names(r@) == self.all_tool_names(),
            tool_views(r@) == self.all_tools(),
    {
        let mut out: Vec<McpTool> = Vec::new();
        let mut i: usize = 0;
        while i < self.servers.len()
            invariant
                i <= self.servers@.len(),
                tool_names(out@) == tool_names_upto(self.servers@, i as int),
                tool_views(out@) == tool_views_upto(self.servers@, i as int),
            decreases self.servers@.len() - i,
        {
            let tools = &self.servers[i].tools;
            let ghost before = out@;
            let mut k: usize = 0;
            while k < tools.len()
                invariant
                    k <= tools@.len(),
                    tools@ == self.servers@[i as int].tools@,
                    tool_names(out@) == tool_names(before) + tool_names(tools@.take(k as int)),
                    tool_views(out@) == tool_views(before) + tool_views(tools@.take(k as int)),
                decreases tools@.len() - k,
            {
                let ghost prev = out@;
                let t = tools[k].copy();
                out.push(t);
                assert(tool_views(out@) =~= tool_views(prev).push(tool_view(tools@[k as int])));
                assert(tool_views(tools@.take(k + 1)) =~= tool_views(tools@.take(k as int)).push(
                    tool_view(tools@[k as int]),
                ));
                assert(tool_views(out@) =~= tool_views(before) + tool_views(tools@.take(k + 1)));
                assert(tool_names(out@) =~= tool_names(prev).push(tools@[k as int].name@));
                assert(tool_names(tools@.take(k + 1)) =~= tool_names(tools@.take(k as int)).push(
                    tools@[k as int].name@,
                ));
                assert(tool_names(out@) =~= tool_names(before) + tool_names(tools@.take(k + 1)));
                k = k + 1;
            }
            assert(tools@.take(tools@.len() as int) =~= tools@);
            i = i + 1;
        }
        out
    }

    /// Routes a call of `tool_name` to the first running server that offers
    /// it: gives that server's name and the request to send it, and uses up
    /// the server's next request id.
    pub fn route_tool_call(&mut self, tool_name: &str, arguments: JsonValue) -> (r: Result<
        (String, JsonValue),
        McpError,
    >)
        ensures
            final(self).server_names() == old(self).server_names(),
            final(self).all_tools() == old(self).all_tools(),
            forall|i: int|
                0 <= i < old(self).server_names().len() ==> final(self).server_tool_list(i) == old(
                    self,
                ).server_tool_list(i),
            match r {
                Err(e) => (e matches McpError::ToolNotFound(n) && n@ == tool_name@) && (forall|
                    i: int,
                | 0 <= i < old(self).server_names().len() ==> !old(self).server_tools(i).contains(
                    tool_name@,
                )),
                Ok((server, request)) => exists|i: int|
                    0 <= i < old(self).server_names().len() && old(self).server_tools(i).contains(
                        tool_name@,
                    ) && (forall|k: int|
                        0 <= k < i ==> !old(self).server_tools(k).contains(tool_name@))
                        && server@ == old(self).server_names()[i] && is_request(
                        request@,
                        old(self).server_next_id(i),
                        "tools/call"@,
                        Json::Object(
                            seq![("arguments"@, arguments@), ("name"@, Json::Str(tool_name@))],
                        ),
                    ) && final(self).server_next_id(i) == (old(self).server_next_id(
                        i,
                    ) as int + 1) % 0x1_0000_0000_0000_0000,
            },
    {
        proof {
            use_type_invariant(&*self);
        }
        let mut i: usize = 0;
        while i < self.servers.len()
            invariant
                i <= self.servers@.len(),
                self.servers@ == old(self).servers@,
                forall|a: int, b: int|
                    0 <= a < b < self.servers@.len() ==> #[trigger] self.servers@[a].name@
                        != #[trigger] self.servers@[b].name@,
                forall|k: int| 0 <= k < i ==> !self.server_tools(k).contains(tool_name@),
            decreases self.servers@.len() - i,
        {
            if offers(&self.servers[i].tools, tool_name) {
                assert forall|k: int| 0 <= k < i implies !old(self).server_tools(k).contains(
                    tool_name@,
                ) by {
                    assert(!self.server_tools(k).contains(tool_name@));
                }
                let id = self.servers[i].next_id;
                let server = self.servers[i].name.clone();
                let request = tool_call_request(id, tool_name, arguments);
                let ghost old_servers = self.servers@;
                let mut servers: Vec<ServerEntry> = Vec::new();
                std::mem::swap(&mut servers, &mut self.servers);
                let mut entry = servers.remove(i);
                entry.next_id = id.wrapping_add(1);
                servers.insert(i, entry);
                assert forall|a: int, b: int|
                    0 <= a < b < servers@.len() implies #[trigger] servers@[a].name@
                        != #[trigger] servers@[b].name@ by {
                    assert(servers@[a].name@ == old_servers[a].name@);
                    assert(servers@[b].name@ == old_servers[b].name@);
                }
                assert forall|k: int| 0 <= k < servers@.len() implies servers@[k].tools@
                    == old_servers[k].tools@ by {
                    if k != i {
                        assert(servers@[k] == old_servers[k]);
                    }
                }
                proof {
                    lemma_views_upto_same_tools(old_servers, servers@, servers@.len() as int);
                }
                self.servers = servers;
                assert(self.server_names() =~= old(self).server_names());
                assert(old(self).server_tools(i as int).contains(tool_name@));
                assert(self.server_next_id(i as int) == (old(self).server_next_id(i as int) as int
                    + 1) % 0x1_0000_0000_0000_0000);
                assert(server@ == old(self).server_names()[i as int]);
                assert(is_request(
                    request@,
                    old(self).server_next_id(i as int),
                    "tools/call"@,
                    Json::Object(seq![("arguments"@, arguments@), ("name"@, Json::Str(tool_name@))]),
                ));
                return Ok((server, request));
            }
            i = i + 1;
        }
        assert forall|k: int| 0 <= k < old(self).server_names().len() implies !old(
            self,
        ).server_tools(k).contains(tool_name@) by {
            assert(!self.server_tools(k).contains(tool_name@));
        }
        Err(McpError::ToolNotFound(owned(tool_name)))
    }
}

impl Default for McpManager {
    fn default() -> (r: McpManager)
        ensures
            r.server_names() == Seq::<Seq<char>>::empty(),
    {
        McpManager::new()
    }
}

/// Copies of `tools`.
fn copy_tools(tools: &Vec<McpTool>) -> (r: Vec<McpTool>)
    ensures
        tool_names(r@) == tool_names(tools@),
        tool_views(r@) == tool_views(tools@),
{
    let mut out: Vec<McpTool> = Vec::new();
    let mut k: usize = 0;
    while k < tools.len()
        invariant
            k <= tools@.len(),
            tool_names(out@) == tool_names(tools@.take(k as int)),
            tool_views(out@) == tool_views(tools@.take(k as int)),
        decreases tools@.len() - k,
    {
        let ghost prev = out@;
        let t = tools[k].copy();
        out.push(t);
        assert(tool_views(out@) =~= tool_views(prev).push(tool_view(tools@[k as int])));
        assert(tool_views(tools@.take(k + 1)) =~= tool_views(tools@.take(k as int)).push(
            tool_view(tools@[k as int]),
        ));
        assert(tool_names(out@) =~= tool_names(prev).push(tools@[k as int].name@));
        assert(tool_names(tools@.take(k + 1)) =~= tool_names(tools@.take(k as int)).push(
            tools@[k as int].name@,
        ));
        k = k + 1;
    }
    assert(tools@.take(tools@.len() as int) =~= tools@);
    out
}

/// Adding a server after the first `n` leaves their tools as they were.
proof fn lemma_views_upto_prefix(a: Seq<ServerEntry>, b: Seq<ServerEntry>, n: int)
    requires
        0 <= n <= a.len(),
        a.len() + 1 == b.len(),
        forall|k: int| 0 <= k < a.len() ==> b[k] == a[k],
    ensures
        tool_views_upto(b, n) == tool_views_upto(a, n),
        tool_views_upto(b, b.len() as int) == tool_views_upto(a, a.len() as int) + tool_views(
            b[a.len() as int].tools@,
        ),
{
    lemma_views_upto_prefix_step(a, b, n);
    lemma_views_upto_prefix_step(a, b, a.len() as int);
    assert(tool_views_upto(b, b.len() as int) == tool_views_upto(b, a.len() as int) + tool_views(
        b[a.len() as int].tools@,
    ));
}

proof fn lemma_views_upto_prefix_step(a: Seq<ServerEntry>, b: Seq<ServerEntry>, n: int)
    requires
        0 <= n <= a.len(),
        a.len() + 1 == b.len(),
        forall|k: int| 0 <= k < a.len() ==> b[k] == a[k],
    ensures
        tool_views_upto(b, n) == tool_views_upto(a, n),
    decreases n,
{
    if n > 0 {
        lemma_views_upto_prefix_step(a, b, n - 1);
    }
}

/// Servers with the same tools offer the same tools in all.
proof fn lemma_views_upto_same_tools(a: Seq<ServerEntry>, b: Seq<ServerEntry>, n: int)
    requires
        a.len() == b.len(),
        0 <= n <= a.len(),
        forall|k: int| 0 <= k < a.len() ==> b[k].tools@ == a[k].tools@,
    ensures
        tool_views_upto(b, n) == tool_views_upto(a, n),
    decreases n,
{
    if n > 0 {
        lemma_views_upto_same_tools(a, b, n - 1);
    }
}

/// Whether one of `tools` is named `name`.
fn offers(tools: &Vec<McpTool>, name: &str) -> (r: bool)
    ensures
        r == tool_names(tools@).contains(name@),
{
    let mut k: usize = 0;
    while k < tools.len()
        invariant
            k <= tools@.len(),
            forall|m: int| 0 <= m < k ==> tools@[m].name@ != name@,
        decreases tools@.len() - k,
    {
        if str_is(tools[k].name.as_str(), name) {
            assert(tool_names(tools@)[k as int] == name@);
            return true;
        }
        k = k + 1;
    }
    assert forall|m: int| 0 <= m < tool_names(tools@).len() implies tool_names(tools@)[m] != name@ by {
        assert(tools@[m].name@ != name@);
    }
    false
}

// ── Saved server settings ──
/// The first saved server named `name`.
pub open spec fn first_config_named(configs: Seq<McpServerConfigRow>, name: Seq<char>, i: int) -> bool {
    &&& 0 <= i < configs.len()
    &&& configs[i].name@ == name
    &&& forall|k: int| 0 <= k < i ==> configs[k].name@ != name
}

/// The saved settings of the server named `name`.
pub fn find_server_config<'a>(configs: &'a [McpServerConfigRow], name: &str) -> (r: Result<
    &'a McpServerConfigRow,
    VidaError,
>)
    ensures
        match r {
            Ok(c) => exists|i: int| first_config_named(configs@, name@, i) && *c == configs@[i],
            Err(e) => (forall|k: int| 0 <= k < configs@.len() ==> configs@[k].name@ != name@)
                && (e matches VidaError::Config(m) && m@ == "MCP server config not found: "@ + name@),
        },
{
    let mut i: usize = 0;
    while i < configs.len()
        invariant
            i <= configs@.len(),
            forall|k: int| 0 <= k < i ==> configs@[k].name@ != name@,
        decreases configs@.len() - i,
    {
        if str_is(configs[i].name.as_str(), name) {
            assert(first_config_named(configs@, name@, i as int));
            return Ok(&configs[i]);
        }
        i = i + 1;
    }
    let mut m = owned("MCP server config not found: ");
    append_str(&mut m, name);
    Err(VidaError::Config(m))
}

/// Every item is a string.
pub open spec fn all_strings(items: Seq<Json>) -> bool {
    forall|i: int| 0 <= i < items.len() ==> (#[trigger] items[i]) is Str
}

/// The command-line arguments saved as a JSON list of strings; none where
/// nothing is saved or the text is not such a list.
pub open spec fn saved_args(args_json: Option<Seq<char>>) -> Seq<Seq<char>> {
    match args_json {
        Some(t) => match json_parse(t) {
            Some(Json::Array(items)) => if all_strings(items) {
                Seq::new(items.len(), |i: int| items[i]->Str_0)
            } else {
                Seq::empty()
            },
            _ => Seq::empty(),
        },
        None => Seq::empty(),
    }
}

/// Every member's value is a string.
pub open spec fn all_string_members(entries: Seq<(Seq<char>, Json)>) -> bool {
    forall|i: int| 0 <= i < entries.len() ==> (#[trigger] entries[i]).1 is Str
}

/// The environment saved as a JSON object of strings, member by member;
/// none where nothing is saved or the text is not such an object.
pub open spec fn saved_env(env_json: Option<Seq<char>>) -> Seq<(Seq<char>, Seq<char>)> {
    match env_json {
        Some(t) => match json_parse(t) {
            Some(Json::Object(entries)) => if all_string_members(entries) {
                Seq::new(entries.len(), |i: int| (entries[i].0, entries[i].1->Str_0))
            } else {
                Seq::empty()
            },
            _ => Seq::empty(),
        },
        None => Seq::empty(),
    }
}

/// The saved command-line arguments of a server.
pub fn server_args(args_json: Option<&String>) -> (r: Vec<String>)
    ensures
        r@.map_values(|s: String| s@) == saved_args(
            match args_json {
                Some(t) => Some(t@),
                None => None,
            },
        ),
{
    let text = match args_json {
        Some(t) => t,
        None => {
            let r: Vec<String> = Vec::new();
            assert(r@.map_values(|s: String| s@) =~= Seq::<Seq<char>>::empty());
            return r;
        },
    };
    let mut out: Vec<String> = Vec::new();
    match JsonValue::parse(text.as_str()) {
        Some(JsonValue::Array(items)) => {
            proof {
                lemma_array_view(items);
            }
            let ghost js = Seq::new(items@.len(), |k: int| items@[k]@);
            let mut i: usize = 0;
            while i < items.len()
                invariant
                    i <= items@.len(),
                    js == Seq::new(items@.len(), |k: int| items@[k]@),
                    json_parse(text@) == Some(Json::Array(js)),
                    args_json matches Some(t) && t@ == text@,
                    forall|k: int| 0 <= k < i ==> (#[trigger] js[k]) is Str,
                    out@.map_values(|s: String| s@) == Seq::new(i as nat, |k: int| js[k]->Str_0),
                decreases items@.len() - i,
            {
                assert(js[i as int] == items@[i as int]@);
                match &items[i] {
                    JsonValue::Str(s) => {
                        let ghost before = out@.map_values(|s: String| s@);
                        assert(js[i as int] == Json::Str(s@));
                        out.push(s.clone());
                        assert(out@.map_values(|s: String| s@) =~= before.push(s@));
                        assert(out@.map_values(|s: String| s@) =~= Seq::new(
                            (i + 1) as nat,
                            |k: int| js[k]->Str_0,
                        ));
                    },
                    _ => {
                        assert(!(js[i as int] is Str));
                        assert(!all_strings(js));
                        let r: Vec<String> = Vec::new();
                        assert(r@.map_values(|s: String| s@) =~= Seq::<Seq<char>>::empty());
                        return r;
                    },
                }
                i = i + 1;
            }
            assert(all_strings(js));
            out
        },
        _ => {
            assert(out@.map_values(|s: String| s@) =~= Seq::<Seq<char>>::empty());
            out
        },
    }
}

/// The saved environment of a server, variable by variable.
pub fn server_env(env_json: Option<&String>) -> (r: Vec<(String, String)>)
    ensures
        r@.map_values(|p: (String, String)| (p.0@, p.1@)) == saved_env(
            match env_json {
                Some(t) => Some(t@),
                None => None,
            },
        ),
{
    let text = match env_json {
        Some(t) => t,
        None => {
            let r: Vec<(String, String)> = Vec::new();
            assert(r@.map_values(|p: (String, String)| (p.0@, p.1@)) =~= Seq::<
                (Seq<char>, Seq<char>),
            >::empty());
            return r;
        },
    };
    let mut out: Vec<(String, String)> = Vec::new();
    match JsonValue::parse(text.as_str()) {
        Some(JsonValue::Object(entries)) => {
            proof {
                lemma_object_view(entries);
            }
            let ghost es = Seq::new(entries@.len(), |k: int| (entries@[k].0@, entries@[k].1@));
            let mut i: usize = 0;
            while i < entries.len()
                invariant
                    i <= entries@.len(),
                    es == Seq::new(entries@.len(), |k: int| (entries@[k].0@, entries@[k].1@)),
                    json_parse(text@) == Some(Json::Object(es)),
                    env_json matches Some(t) && t@ == text@,
                    forall|k: int| 0 <= k < i ==> (#[trigger] es[k]).1 is Str,
                    out@.map_values(|p: (String, String)| (p.0@, p.1@)) == Seq::new(
                        i as nat,
                        |k: int| (es[k].0, es[k].1->Str_0),
                    ),
                decreases entries@.len() - i,
            {
                assert(es[i as int] == (entries@[i as int].0@, entries@[i as int].1@));
                let (k, v) = &entries[i];
                match v {
                    JsonValue::Str(s) => {
                        let ghost before = out@.map_values(|p: (String, String)| (p.0@, p.1@));
                        assert(es[i as int] == (k@, Json::Str(s@)));
                        out.push((k.clone(), s.clone()));
                        assert(out@.map_values(|p: (String, String)| (p.0@, p.1@)) =~= before.push((k@, s@)));
                        assert(out@.map_values(|p: (String, String)| (p.0@, p.1@)) =~= Seq::new(
                            (i + 1) as nat,
                            |j: int| (es[j].0, es[j].1->Str_0),
                        ));
                    },
                    _ => {
                        assert(!(es[i as int].1 is Str));
                        assert(!all_string_members(es));
                        let r: Vec<(String, String)> = Vec::new();
                        assert(r@.map_values(|p: (String, String)| (p.0@, p.1@)) =~= Seq::<
                            (Seq<char>, Seq<char>),
                        >::empty());
                        return r;
                    },
                }
                i = i + 1;
            }
            assert(all_string_members(es));
            out
        },
        _ => {
            assert(out@.map_values(|p: (String, String)| (p.0@, p.1@)) =~= Seq::<
                (Seq<char>, Seq<char>),
            >::empty());
            out
        },
    }
}

} // verus!
