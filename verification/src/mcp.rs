//! Model Context Protocol (MCP) export: publishing a decision template as an
//! agent tool.
//!
//! The library derives the tool's name and description, plans the output
//! JSON schema from the template's typed questions, and renders the
//! standalone stdio server script. Rendering the schema plan as JSON (with
//! the score questions' ranges) is the caller's part.

use vstd::prelude::*;
use crate::somi::TypedQuestion;
use crate::text::{chars_of, contains_seq, occurs_at, push_char, to_lowercase, unicode_lowercase};

verus! {

/// Server identity announced in an MCP manifest.
pub struct McpServerInfo {
    pub name: String,
    pub version: String,
}

/// Spaces and hyphens become underscores in tool names.
pub open spec fn tool_name_char(c: char) -> char {
    if c == ' ' || c == '-' {
        '_'
    } else {
        c
    }
}

/// The tool name for an already lowercased template name.
pub open spec fn tool_name_spec(lowered: Seq<char>) -> Seq<char> {
    "decide_"@ + lowered.map_values(|c: char| tool_name_char(c))
}

/// The tool name for a lowercased template name: `decide_` followed by the
/// name with spaces and hyphens replaced by underscores.
pub fn tool_name_from_lowercase(lowered: &str) -> (name: String)
    ensures
        name@ == tool_name_spec(lowered@),
{
    let cs = chars_of(lowered);
    let mut name = String::from_str("decide_");
    let mut i: usize = 0;
    while i < cs.len()
        invariant
            i <= cs.len(),
            name@ == "decide_"@ + cs@.take(i as int).map_values(|c: char| tool_name_char(c)),
        decreases cs.len() - i,
    {
        let c = cs[i];
        let d = if c == ' ' || c == '-' { '_' } else { c };
        let ghost before = name@;
        push_char(&mut name, d);
        assert(cs@.take(i + 1).map_values(|c: char| tool_name_char(c)) =~= cs@.take(
            i as int,
        ).map_values(|c: char| tool_name_char(c)).push(d));
        i = i + 1;
    }
    assert(cs@.take(cs.len() as int) =~= cs@);
    name
}

/// The MCP tool name for a template: its name lowercased, with spaces and
/// hyphens turned into underscores, after `decide_`.
pub fn mcp_tool_name(template_name: &str) -> (name: String)
    ensures
        name@ == tool_name_spec(unicode_lowercase(template_name@)),
{
    let lowered = to_lowercase(template_name);
    tool_name_from_lowercase(lowered.as_str())
}

/// The MCP tool description for a template.
pub fn mcp_tool_description(template_name: &str) -> (d: String)
    ensures
        d@ == "Executes typed decision template: "@ + template_name@,
{
    let mut d = String::from_str("Executes typed decision template: ");
    d.append(template_name);
    d
}

/// The JSON-schema shape of one output property.
pub enum SchemaKind {
    /// A string restricted to the listed option ids.
    StringEnum(Vec<String>),
    /// A boolean.
    Boolean,
    /// A number within the range of the score question at this index.
    ScoreNumber(usize),
    /// The post-calibrated confidence: a number in `[0, 1]`.
    Confidence,
}

/// One property of a tool's output schema.
pub struct SchemaProperty {
    pub name: String,
    pub kind: SchemaKind,
    pub description: String,
}

/// The output schema of a tool: its properties in order and the required
/// property names.
pub struct OutputSchemaPlan {
    pub properties: Vec<SchemaProperty>,
    pub required: Vec<String>,
}

/// The schema property planned for question `k` of `qs`.
pub open spec fn property_matches(qs: Seq<TypedQuestion>, k: int, p: SchemaProperty) -> bool {
    &&& p.name@ == qs[k].id_view()
    &&& p.description@ == qs[k].text_view()
    &&& match qs[k] {
        TypedQuestion::Choice { options, .. } => match p.kind {
            SchemaKind::StringEnum(ids) => ids@.len() == options@.len() && forall|j: int|
                0 <= j < ids@.len() ==> #[trigger] ids@[j]@ == options@[j].id@,
            _ => false,
        },
        TypedQuestion::Noul { .. } => p.kind is Boolean,
        TypedQuestion::Score { .. } => p.kind matches SchemaKind::ScoreNumber(qi) && qi == k,
    }
}

fn option_ids(options: &Vec<crate::somi::ChoiceOption>) -> (ids: Vec<String>)
    ensures
        ids@.len() == options@.len(),
        forall|j: int| 0 <= j < ids@.len() ==> #[trigger] ids@[j]@ == options@[j].id@,
{
    let mut ids: Vec<String> = Vec::new();
    let mut j: usize = 0;
    while j < options.len()
        invariant
            j <= options.len(),
            ids@.len() == j,
            forall|k: int| 0 <= k < j ==> #[trigger] ids@[k]@ == options@[k].id@,
        decreases options.len() - j,
    {
        ids.push(options[j].id.clone());
        j = j + 1;
    }
    ids
}

/// Plans the output schema of the tool for a template's questions: one
/// property per question, in order (a string enum of the option ids for a
/// choice, a boolean for a noul, a ranged number for a score, each
/// described by the question text), then the calibrated `confidence`; every
/// property is required.
pub fn output_schema_plan(questions: &[TypedQuestion]) -> (plan: OutputSchemaPlan)
    ensures
        plan.properties@.len() == questions.len() + 1,
        plan.required@.len() == questions.len() + 1,
        forall|k: int|
            0 <= k < questions.len() ==> #[trigger] property_matches(
                questions@,
                k,
                plan.properties@[k],
            ),
        forall|k: int| 0 <= k < questions.len() ==> #[trigger] plan.required@[k]@ == questions@[k].id_view(),
        plan.properties@[questions.len() as int].name@ == "confidence"@,
        plan.properties@[questions.len() as int].kind is Confidence,
        plan.properties@[questions.len() as int].description@ == "Post-calibrated confidence score"@,
        plan.required@[questions.len() as int]@ == "confidence"@,
{
    let mut properties: Vec<SchemaProperty> = Vec::new();
    let mut required: Vec<String> = Vec::new();
    let mut k: usize = 0;
    while k < questions.len()
        invariant
            k <= questions.len(),
            properties@.len() == k,
            required@.len() == k,
            forall|j: int| 0 <= j < k ==> #[trigger] property_matches(questions@, j, properties@[j]),
            forall|j: int| 0 <= j < k ==> #[trigger] required@[j]@ == questions@[j].id_view(),
        decreases questions.len() - k,
    {
        let p = match &questions[k] {
            TypedQuestion::Choice { id, text, options } => SchemaProperty {
                name: id.clone(),
                kind: SchemaKind::StringEnum(option_ids(options)),
                description: text.clone(),
            },
            TypedQuestion::Noul { id, text } => SchemaProperty {
                name: id.clone(),
                kind: SchemaKind::Boolean,
                description: text.clone(),
            },
            TypedQuestion::Score { id, text } => SchemaProperty {
                name: id.clone(),
                kind: SchemaKind::ScoreNumber(k),
                description: text.clone(),
            },
        };
        let r = p.name.clone();
        assert(property_matches(questions@, k as int, p));
        properties.push(p);
        required.push(r);
        k = k + 1;
    }
    properties.push(
        SchemaProperty {
            name: String::from_str("confidence"),
            kind: SchemaKind::Confidence,
            description: String::from_str("Post-calibrated confidence score"),
        },
    );
    required.push(String::from_str("confidence"));
    OutputSchemaPlan { properties, required }
}

/// The tool derived from a decision template: its name, its description and
/// the plan of its output schema. Its input schema is fixed: an object with
/// a required `state` object.
pub struct McpToolPlan {
    pub name: String,
    pub description: String,
    pub output: OutputSchemaPlan,
}

/// Derives the MCP tool for the template named `template_name` with the
/// typed `questions`.
pub fn generate_mcp_tool_from_template(template_name: &str, questions: &[TypedQuestion]) -> (t: McpToolPlan)
    ensures
        t.name@ == tool_name_spec(unicode_lowercase(template_name@)),
        t.description@ == "Executes typed decision template: "@ + template_name@,
        t.output.properties@.len() == questions.len() + 1,
        t.output.required@.len() == questions.len() + 1,
        forall|k: int|
            0 <= k < questions.len() ==> #[trigger] property_matches(
                questions@,
                k,
                t.output.properties@[k],
            ),
        forall|k: int| 0 <= k < questions.len() ==> #[trigger] t.output.required@[k]@ == questions@[k].id_view(),
        t.output.properties@[questions.len() as int].name@ == "confidence"@,
        t.output.properties@[questions.len() as int].kind is Confidence,
        t.output.properties@[questions.len() as int].description@ == "Post-calibrated confidence score"@,
        t.output.required@[questions.len() as int]@ == "confidence"@,
{
    McpToolPlan {
        name: mcp_tool_name(template_name),
        description: mcp_tool_description(template_name),
        output: output_schema_plan(questions),
    }
}

// ─────────────────────────────────────────────────────────────────────────────
// Standalone stdio server export
// ─────────────────────────────────────────────────────────────────────────────

/// The call by which an exported server forwards a tool call: a POST to
/// the decide route of the local SOMI server.
pub open spec fn mcp_decide_call() -> Seq<char> {
    "fetch(`${TINY_DECISION_ENDPOINT}/v1/decide`, {\n    method: \"POST\","@
}

/// The opening of the server script, up to the call that forwards a tool
/// call.
pub open spec fn mcp_script_head(tool_name: Seq<char>, description: Seq<char>, input_schema_json: Seq<char>) -> Seq<char> {
    "#!/usr/bin/env node\n// Auto-generated MCP Server for Tiny Decision tool: "@
        + tool_name
        + "\n// Protocol: Model Context Protocol (MCP) stdio transport\nimport { Server } from \"@modelcontextprotocol/sdk/server/index.js\";\nimport { StdioServerTransport } from \"@modelcontextprotocol/sdk/server/stdio.js\";\nimport { CallToolRequestSchema, ListToolsRequestSchema } from \"@modelcontextprotocol/sdk/types.js\";\n\nconst TINY_DECISION_ENDPOINT = process.env.TINY_DECISION_ENDPOINT || \"http://127.0.0.1:11535\";\n\nconst server = new Server(\n  { name: \"tiny-decision-"@
        + tool_name
        + "\", version: \"1.0.0\" },\n  { capabilities: { tools: {} } }\n);\n\nserver.setRequestHandler(ListToolsRequestSchema, async () => ({\n  tools: [{\n    name: \""@
        + tool_name
        + "\",\n    description: \""@
        + description
        + "\",\n    inputSchema: "@
        + input_schema_json
        + "\n  }]\n}));\n\nserver.setRequestHandler(CallToolRequestSchema, async (request) => {\n  if (request.params.name !== \""@
        + tool_name
        + "\") {\n    throw new Error(`Unknown tool: ${request.params.name}`);\n  }\n\n  const state = request.params.arguments?.state || {};\n  const resp = await "@
}

/// The rest of the server script, after the forwarding call.
pub open spec fn mcp_script_tail(tool_name: Seq<char>) -> Seq<char> {
    "\n    headers: { \"Content-Type\": \"application/json\" },\n    body: JSON.stringify({\n      model: \"default\",\n      state: state,\n      questions: []\n    })\n  });\n\n  const data = await resp.json();\n  return {\n    content: [{ type: \"text\", text: JSON.stringify(data) }]\n  };\n});\n\nconst transport = new StdioServerTransport();\nawait server.connect(transport);\nconsole.error(\"Tiny Decision MCP stdio server running for "@
        + tool_name
        + "\");\n"@
}

/// The Node.js stdio MCP server script exposing the tool `tool_name` with the given description and input JSON schema text.
pub open spec fn mcp_server_script(tool_name: Seq<char>, description: Seq<char>, input_schema_json: Seq<char>) -> Seq<char> {
    mcp_script_head(tool_name, description, input_schema_json) + mcp_decide_call() + mcp_script_tail(tool_name)
}

/// Every exported server forwards its tool calls with a POST to the decide
/// route that the local SOMI server serves, `/v1/decide`.
pub proof fn lemma_mcp_script_posts_to_decide(tool_name: Seq<char>, description: Seq<char>, input_schema_json: Seq<char>)
    ensures
        contains_seq(
            mcp_server_script(tool_name, description, input_schema_json),
            "fetch(`${TINY_DECISION_ENDPOINT}/v1/decide`, {\n    method: \"POST\","@,
        ),
{
    let head = mcp_script_head(tool_name, description, input_schema_json);
    let pat = "fetch(`${TINY_DECISION_ENDPOINT}/v1/decide`, {\n    method: \"POST\","@;
    let script = mcp_server_script(tool_name, description, input_schema_json);
    assert(script.subrange(head.len() as int, (head.len() + pat.len()) as int) =~= pat);
    assert(occurs_at(script, pat, head.len() as int));
}

/// Exports a standalone Node.js stdio MCP server script for one tool.
pub fn export_standalone_mcp_server(tool_name: &str, description: &str, input_schema_json: &str) -> (text: String)
    ensures
        text@ == mcp_server_script(tool_name@, description@, input_schema_json@),
{
    let mut text = String::from_str("#!/usr/bin/env node\n// Auto-generated MCP Server for Tiny Decision tool: ");
    text.append(tool_name);
    text.append("\n// Protocol: Model Context Protocol (MCP) stdio transport\nimport { Server } from \"@modelcontextprotocol/sdk/server/index.js\";\nimport { StdioServerTransport } from \"@modelcontextprotocol/sdk/server/stdio.js\";\nimport { CallToolRequestSchema, ListToolsRequestSchema } from \"@modelcontextprotocol/sdk/types.js\";\n\nconst TINY_DECISION_ENDPOINT = process.env.TINY_DECISION_ENDPOINT || \"http://127.0.0.1:11535\";\n\nconst server = new Server(\n  { name: \"tiny-decision-");
    text.append(tool_name);
    text.append("\", version: \"1.0.0\" },\n  { capabilities: { tools: {} } }\n);\n\nserver.setRequestHandler(ListToolsRequestSchema, async () => ({\n  tools: [{\n    name: \"");
    text.append(tool_name);
    text.append("\",\n    description: \"");
    text.append(description);
    text.append("\",\n    inputSchema: ");
    text.append(input_schema_json);
    text.append("\n  }]\n}));\n\nserver.setRequestHandler(CallToolRequestSchema, async (request) => {\n  if (request.params.name !== \"");
    text.append(tool_name);
    text.append("\") {\n    throw new Error(`Unknown tool: ${request.params.name}`);\n  }\n\n  const state = request.params.arguments?.state || {};\n  const resp = await ");
    text.append("fetch(`${TINY_DECISION_ENDPOINT}/v1/decide`, {\n    method: \"POST\",");
    text.append("\n    headers: { \"Content-Type\": \"application/json\" },\n    body: JSON.stringify({\n      model: \"default\",\n      state: state,\n      questions: []\n    })\n  });\n\n  const data = await resp.json();\n  return {\n    content: [{ type: \"text\", text: JSON.stringify(data) }]\n  };\n});\n\nconst transport = new StdioServerTransport();\nawait server.connect(transport);\nconsole.error(\"Tiny Decision MCP stdio server running for ");
    text.append(tool_name);
    text.append("\");\n");
    text
}

} // verus!
