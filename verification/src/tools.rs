//! The tools that the assistant can call: their names, their definitions
//! for the chat API, and which tool answers a call.
use vstd::prelude::*;

use crate::json::{json_text_at, json_value_text_at};
use crate::parser::entity::opt_view;
use crate::text::str_eq;

verus! {

/// A tool that the assistant can call.
#[derive(Debug, Clone, Copy, PartialEq, Eq, Structural)]
pub enum ToolKind {
    /// Snippets from the user's own code base.
    SearchCode,
    /// A search of the knowledge base.
    SearchKnowledgeBase,
    /// A search of the web.
    WebSearch,
}

/// The name under which the chat API calls a tool.
pub open spec fn tool_name_of(kind: ToolKind) -> &'static str {
    match kind {
        ToolKind::SearchCode => "search_code",
        ToolKind::SearchKnowledgeBase => "search_knowledge_base",
        ToolKind::WebSearch => "web_search",
    }
}

/// The definition of a tool for the chat API, as JSON text.
pub open spec fn tool_definition_of(kind: ToolKind) -> &'static str {
    match kind {
        ToolKind::SearchCode => SEARCH_CODE_DEFINITION,
        ToolKind::SearchKnowledgeBase => SEARCH_KNOWLEDGE_BASE_DEFINITION,
        ToolKind::WebSearch => WEB_SEARCH_DEFINITION,
    }
}

/// The definition of the code search tool.
pub const SEARCH_CODE_DEFINITION: &'static str = "{\"type\": \"function\", \"function\": {\"name\": \"search_code\", \"description\": \"Get snippets from personal codebase for a particular programming language or project\", \"parameters\": {\"type\": \"object\", \"properties\": {\"language\": {\"type\": \"string\", \"description\": \"The programming language used in the project\"}, \"project\": {\"type\": \"string\", \"description\": \"The name of the project\"}}}}}";

/// The definition of the knowledge base search tool.
pub const SEARCH_KNOWLEDGE_BASE_DEFINITION: &'static str = "{\"type\": \"function\", \"function\": {\"name\": \"search_knowledge_base\", \"description\": \"Search the knowledge base for a particular query\", \"parameters\": {\"type\": \"object\", \"properties\": {\"query\": {\"type\": \"string\", \"description\": \"query to use with opensearch vector store\"}, \"index\": {\"type\": \"string\", \"description\": \"The name of the index which corresponds to the context\"}}}}}";

/// The definition of the web search tool.
pub const WEB_SEARCH_DEFINITION: &'static str = "{\"type\": \"function\", \"function\": {\"name\": \"web_search\", \"description\": \"Search the internet, using webscraping for being updated with the information\", \"parameters\": {\"type\": \"object\", \"properties\": {\"query\": {\"type\": \"string\", \"description\": \"the search query\"}}}}}";

impl ToolKind {
    /// The name under which the chat API calls the tool.
    pub fn name(&self) -> (r: &'static str)
        ensures
            r == tool_name_of(*self),
    {
        match self {
            ToolKind::SearchCode => "search_code",
            ToolKind::SearchKnowledgeBase => "search_knowledge_base",
            ToolKind::WebSearch => "web_search",
        }
    }

    /// The definition of the tool for the chat API, as JSON text.
    pub fn get_tool_call(&self) -> (r: &'static str)
        ensures
            r == tool_definition_of(*self),
    {
        match self {
            ToolKind::SearchCode => SEARCH_CODE_DEFINITION,
            ToolKind::SearchKnowledgeBase => SEARCH_KNOWLEDGE_BASE_DEFINITION,
            ToolKind::WebSearch => WEB_SEARCH_DEFINITION,
        }
    }
}

/// The tools that answer calls, each under its name.
pub struct BaseToolCall {
    available_tools: Vec<ToolKind>,
}

/// The tools available, in order.
pub open spec fn all_tools() -> Seq<ToolKind> {
    seq![ToolKind::SearchCode, ToolKind::SearchKnowledgeBase, ToolKind::WebSearch]
}

/// The tool that answers a call by name, among the tools available.
pub open spec fn tool_named(tools: Seq<ToolKind>, name: Seq<char>) -> Option<ToolKind>
    decreases tools.len(),
{
    if tools.len() == 0 {
        None
    } else if tool_name_of(tools[0])@ == name {
        Some(tools[0])
    } else {
        tool_named(tools.drop_first(), name)
    }
}

/// The tools that answer a list of calls, in order; a call whose name no
/// tool has is left out.
pub open spec fn tools_for_calls(tools: Seq<ToolKind>, names: Seq<Seq<char>>) -> Seq<ToolKind>
    decreases names.len(),
{
    if names.len() == 0 {
        seq![]
    } else {
        tools_for_calls(tools, names.drop_last()) + match tool_named(tools, names.last()) {
            Some(t) => seq![t],
            None => seq![],
        }
    }
}

/// A call of a tool that the chat model asked for: the tool's name and its
/// arguments as JSON text.
#[derive(Debug, Clone, PartialEq, Eq)]
pub struct ToolCall {
    pub name: String,
    pub arguments: String,
}

/// The name and arguments of each call.
pub open spec fn call_views(calls: Seq<ToolCall>) -> Seq<(Seq<char>, Seq<char>)> {
    calls.map_values(|c: ToolCall| (c.name@, c.arguments@))
}

/// A tool to run, with the arguments the model gave it as JSON text.
#[derive(Debug, Clone, PartialEq, Eq)]
pub struct ToolRun {
    pub tool: ToolKind,
    pub arguments: String,
}

/// The tool and arguments of each run.
pub open spec fn run_views(runs: Seq<ToolRun>) -> Seq<(ToolKind, Seq<char>)> {
    runs.map_values(|r: ToolRun| (r.tool, r.arguments@))
}

/// The runs that answer a list of calls, in order: each call whose name a
/// tool has is run by that tool with the call's arguments; any other call
/// is left out.
pub open spec fn tool_runs_of(tools: Seq<ToolKind>, calls: Seq<(Seq<char>, Seq<char>)>) -> Seq<
    (ToolKind, Seq<char>),
>
    decreases calls.len(),
{
    if calls.len() == 0 {
        seq![]
    } else {
        tool_runs_of(tools, calls.drop_last()) + match tool_named(tools, calls.last().0) {
            Some(t) => seq![(t, calls.last().1)],
            None => seq![],
        }
    }
}

/// JSON text found in a document, or JSON `null` when none was found.
pub open spec fn or_null(found: Option<Seq<char>>) -> Seq<char> {
    match found {
        Some(t) => t,
        None => "null"@,
    }
}

/// JSON text found in a document, or JSON `null` when none was found.
pub fn text_or_null(found: Option<String>) -> (r: String)
    ensures
        r@ == or_null(opt_view(found)),
{
    match found {
        Some(t) => t,
        None => String::from_str("null"),
    }
}

/// What the web search looks for: the `query` argument of the call as JSON
/// text (a string keeps its quotes), or `null` when the arguments hold none.
pub fn web_search_query(arguments: &str) -> (r: String)
    ensures
        r@ == or_null(json_text_at(arguments@, "/query"@)),
{
    text_or_null(json_value_text_at(arguments, "/query"))
}

impl BaseToolCall {
    /// The tools available.
    pub closed spec fn tools(&self) -> Seq<ToolKind> {
        self.available_tools@
    }

    /// The code search, knowledge base search and web search tools.
    pub fn new() -> (r: Self)
        ensures
            r.tools() == all_tools(),
    {
        let mut available_tools: Vec<ToolKind> = Vec::new();
        available_tools.push(ToolKind::SearchCode);
        available_tools.push(ToolKind::SearchKnowledgeBase);
        available_tools.push(ToolKind::WebSearch);
        proof {
            assert(available_tools@ =~= all_tools());
        }
        BaseToolCall { available_tools }
    }

    /// The definitions of the tools available, as JSON text, in order.
    pub fn get_available_tool_definitions(&self) -> (r: Vec<&'static str>)
        ensures
            r@ == self.tools().map_values(|t: ToolKind| tool_definition_of(t)),
    {
        let mut out: Vec<&'static str> = Vec::new();
        let mut i: usize = 0;
        while i < self.available_tools.len()
            invariant
                i <= self.available_tools@.len(),
                out@ == self.available_tools@.take(i as int).map_values(
                    |t: ToolKind| tool_definition_of(t),
                ),
            decreases self.available_tools@.len() - i,
        {
            out.push(self.available_tools[i].get_tool_call());
            i = i + 1;
            proof {
                assert(self.available_tools@.take(i as int) =~= self.available_tools@.take(
                    i - 1,
                ).push(self.available_tools@[i - 1]));
                assert(out@ =~= self.available_tools@.take(i as int).map_values(
                    |t: ToolKind| tool_definition_of(t),
                ));
            }
        }
        proof {
            assert(self.available_tools@.take(self.available_tools@.len() as int)
                =~= self.available_tools@);
        }
        out
    }

    /// The tool available under a name, if any.
    pub fn tool_for_name(&self, name: &str) -> (r: Option<ToolKind>)
        ensures
            r == tool_named(self.tools(), name@),
    {
        let mut i: usize = 0;
        proof {
            assert(self.available_tools@.skip(0) =~= self.available_tools@);
        }
        while i < self.available_tools.len()
            invariant
                i <= self.available_tools@.len(),
                tool_named(self.available_tools@, name@) == tool_named(
                    self.available_tools@.skip(i as int),
                    name@,
                ),
            decreases self.available_tools@.len() - i,
        {
            let t = self.available_tools[i];
            proof {
                assert(self.available_tools@.skip(i as int)[0] == t);
                assert(self.available_tools@.skip(i as int).drop_first() =~= self.available_tools@.skip(
                    i + 1,
                ));
            }
            if str_eq(t.name(), name) {
                return Some(t);
            }
            i = i + 1;
        }
        None
    }

    /// The tools that answer the calls named, in order; a call whose name no
    /// tool has is left out.
    pub fn respective_tools(&self, names: &Vec<String>) -> (r: Vec<ToolKind>)
        ensures
            r@ == tools_for_calls(self.tools(), crate::text::string_views(names@)),
    {
        let ghost nv = crate::text::string_views(names@);
        let mut out: Vec<ToolKind> = Vec::new();
        let mut i: usize = 0;
        while i < names.len()
            invariant
                i <= names@.len(),
                nv == crate::text::string_views(names@),
                out@ == tools_for_calls(self.tools(), nv.take(i as int)),
            decreases names@.len() - i,
        {
            let found = self.tool_for_name(names[i].as_str());
            proof {
                assert(nv.take(i + 1).drop_last() =~= nv.take(i as int));
                assert(nv.take(i + 1).last() == names@[i as int]@);
            }
            match found {
                Some(t) => {
                    out.push(t);
                },
                None => {},
            }
            i = i + 1;
            proof {
                assert(out@ =~= tools_for_calls(self.tools(), nv.take(i as int)));
            }
        }
        proof {
            assert(nv.take(names@.len() as int) =~= nv);
        }
        out
    }

    /// The runs that answer the calls the chat model asked for, in order; a
    /// call whose name no tool has is left out.
    pub fn tool_runs(&self, calls: &Vec<ToolCall>) -> (r: Vec<ToolRun>)
        ensures
            run_views(r@) == tool_runs_of(self.tools(), call_views(calls@)),
    {
        let ghost cv = call_views(calls@);
        let mut out: Vec<ToolRun> = Vec::new();
        let mut i: usize = 0;
        while i < calls.len()
            invariant
                i <= calls@.len(),
                cv == call_views(calls@),
                run_views(out@) == tool_runs_of(self.tools(), cv.take(i as int)),
            decreases calls@.len() - i,
        {
            let call = &calls[i];
            let found = self.tool_for_name(call.name.as_str());
            let ghost before = run_views(out@);
            proof {
                assert(cv.take(i + 1).drop_last() =~= cv.take(i as int));
                assert(cv.take(i + 1).last() == (calls@[i as int].name@, calls@[i as int].arguments@));
            }
            match found {
                Some(t) => {
                    out.push(ToolRun { tool: t, arguments: call.arguments.clone() });
                    proof {
                        assert(run_views(out@) =~= before.push((t, calls@[i as int].arguments@)));
                    }
                },
                None => {
                    proof {
                        assert(run_views(out@) =~= before);
                    }
                },
            }
            i = i + 1;
            proof {
                assert(run_views(out@) =~= tool_runs_of(self.tools(), cv.take(i as int)));
            }
        }
        proof {
            assert(cv.take(calls@.len() as int) =~= cv);
        }
        out
    }
}

} // verus!
