//! Tool trait: functions that agents can invoke.
use vstd::prelude::*;
use comp_cat_rs::effect::io::Io;
use serde_json::Value;
use crate::effect::io_suspend;
use crate::error::Error;
use crate::json::{json_map_insert, json_map_new, json_object, json_object_of,
    json_string, json_text};

verus! {

/// A tool definition: metadata sent to the LLM so it knows
/// what tools are available and how to call them.
#[derive(Debug, Clone)]
pub struct ToolDefinition {
    name: String,
    description: String,
    parameters_schema: Value,
}

impl View for ToolDefinition {
    /// The name, the description and the JSON schema of the parameters.
    type V = (Seq<char>, Seq<char>, Value);

    closed spec fn view(&self) -> (Seq<char>, Seq<char>, Value) {
        (self.name@, self.description@, self.parameters_schema)
    }
}

/// The JSON structure that LLM tool-calling APIs expect for a tool:
/// `{"type": "function", "function": {"name": .., "description": ..,
/// "parameters": ..}}`.
pub open spec fn api_json(name: Seq<char>, description: Seq<char>, schema: Value) -> Value {
    json_object(
        Map::empty().insert("type"@, json_text("function"@)).insert(
            "function"@,
            json_object(
                Map::empty().insert("name"@, json_text(name)).insert(
                    "description"@,
                    json_text(description),
                ).insert("parameters"@, schema),
            ),
        ),
    )
}

/// The text of the error for a tool name that no tool has.
pub open spec fn unknown_tool_field(name: Seq<char>) -> Seq<char> {
    "unknown tool: "@ + name
}

impl ToolDefinition {
    pub fn new(name: String, description: String, parameters_schema: Value) -> (d: Self)
        ensures
            d@ == (name@, description@, parameters_schema),
    {
        ToolDefinition { name, description, parameters_schema }
    }

    pub fn name(&self) -> (n: &str)
        ensures
            n@ == self@.0,
    {
        self.name.as_str()
    }

    pub fn description(&self) -> (d: &str)
        ensures
            d@ == self@.1,
    {
        self.description.as_str()
    }

    pub fn parameters_schema(&self) -> (s: &Value)
        ensures
            *s == self@.2,
    {
        &self.parameters_schema
    }

    /// Format as the JSON structure expected by LLM tool-calling APIs.
    pub fn to_api_json(&self) -> (v: Value)
        ensures
            v == api_json(self@.0, self@.1, self@.2),
    {
        proof {
            reveal_strlit("type");
            reveal_strlit("function");
            reveal_strlit("name");
            reveal_strlit("description");
            reveal_strlit("parameters");
        }
        let mut function = json_map_new();
        assert(crate::json::json_entries(function) =~= Map::empty());
        json_map_insert(&mut function, String::from_str("name"), json_string(self.name.clone()));
        json_map_insert(
            &mut function,
            String::from_str("description"),
            json_string(self.description.clone()),
        );
        json_map_insert(
            &mut function,
            String::from_str("parameters"),
            self.parameters_schema.clone(),
        );
        let mut outer = json_map_new();
        assert(crate::json::json_entries(outer) =~= Map::empty());
        json_map_insert(&mut outer, String::from_str("type"), json_string(String::from_str("function")));
        json_map_insert(&mut outer, String::from_str("function"), json_object_of(function));
        json_object_of(outer)
    }
}

/// The error for a tool name that no tool has.
pub fn unknown_tool(name: &str) -> (e: Error)
    ensures
        e matches Error::Config { field } && field@ == unknown_tool_field(name@),
{
    let mut field = String::from_str("unknown tool: ");
    field.append(name);
    proof {
        reveal_strlit("unknown tool: ");
    }
    Error::Config { field }
}

/// A tool that an agent can call during reasoning.
///
/// Tools receive JSON arguments and return a JSON result,
/// wrapped in `Io` for effect tracking.
pub trait Tool {
    /// The tool's definition (name, description, schema).
    fn definition(&self) -> ToolDefinition;

    /// Execute the tool with the given JSON arguments.
    fn call(&self, args: Value) -> Io<Error, Value>;
}

/// A collection of tools available to an agent.
///
/// Generic over the tool type `T` to avoid `dyn Trait`.
/// All tools in a toolbox must be the same concrete type.
/// For heterogeneous tools, use an enum that implements `Tool`.
pub struct Toolbox<T: Tool> {
    tools: Vec<T>,
}

impl<T: Tool> View for Toolbox<T> {
    /// The tools, in the order they were added.
    type V = Seq<T>;

    closed spec fn view(&self) -> Seq<T> {
        self.tools@
    }
}

impl<T: Tool> Default for Toolbox<T> {
    fn default() -> (b: Self)
        ensures
            b@ == Seq::<T>::empty(),
    {
        Self::new()
    }
}

impl<T: Tool> Toolbox<T> {
    /// Create an empty toolbox.
    pub fn new() -> (b: Self)
        ensures
            b@ == Seq::<T>::empty(),
    {
        Toolbox { tools: Vec::new() }
    }

    /// Add a tool to the toolbox, after those already in it.
    pub fn with_tool(self, tool: T) -> (b: Self)
        ensures
            b@ == self@.push(tool),
    {
        let mut tools = self.tools;
        tools.push(tool);
        Toolbox { tools }
    }

    /// The number of tools.
    pub fn len(&self) -> (n: usize)
        ensures
            n == self@.len(),
    {
        self.tools.len()
    }

    /// Look up the first tool whose definition has the given name and
    /// invoke it with `args`; where no tool has that name, the computation
    /// fails with the error of `unknown_tool`.  The definitions are read in
    /// order, up to the first one with the name; `tool_position` decides
    /// from their names which tool is called.
    pub fn invoke(&self, name: &str, args: Value) -> (r: Io<Error, Value>)
        ensures
            exists|defs: Seq<ToolDefinition>|
                {
                    &&& defs.len() <= self@.len()
                    &&& forall|i: int|
                        #![trigger defs[i]]
                        0 <= i < defs.len() ==> call_ensures(T::definition, (&self@[i],), defs[i])
                    &&& match first_named(definition_names(defs), name@) {
                        Some(k) => k == defs.len() - 1 && call_ensures(T::call, (&self@[k], args), r),
                        None => defs.len() == self@.len(),
                    }
                },
    {
        let n = self.tools.len();
        let target = String::from_str(name);
        let mut names: Vec<String> = Vec::new();
        let ghost mut defs: Seq<ToolDefinition> = Seq::empty();
        let mut i: usize = 0;
        while i < n
            invariant_except_break
                i == names@.len(),
                first_named(definition_names(defs), name@) is None,
            invariant
                n == self.tools@.len(),
                i <= n,
                target@ == name@,
                names@.len() == defs.len(),
                defs.len() <= n,
                name_views(names@) == definition_names(defs),
                forall|j: int|
                    #![trigger defs[j]]
                    0 <= j < defs.len() ==> call_ensures(T::definition, (&self@[j],), defs[j]),
            ensures
                first_named(definition_names(defs), name@) == Some((defs.len() - 1) as int) || (
                defs.len() == n && first_named(definition_names(defs), name@) is None),
            decreases n - i,
        {
            let definition = self.tools[i].definition();
            let found = String::from_str(definition.name());
            let hit = found == target;
            let ghost before = defs;
            proof {
                defs = defs.push(definition);
                assert(definition_names(defs).drop_last() =~= definition_names(before));
                assert(definition_names(defs).last() == definition@.0);
            }
            let ghost old_names = names@;
            proof {
                assert(found@ == definition@.0);
            }
            names.push(found);
            assert(names@ == old_names.push(found));
            assert(name_views(names@) =~= name_views(old_names).push(definition@.0));
            assert(definition_names(defs) =~= definition_names(before).push(definition@.0));
            if hit {
                break;
            }
            i = i + 1;
        }
        match tool_position(names.as_slice(), name) {
            Some(k) => self.tools[k].call(args),
            None => {
                let error = unknown_tool(name);
                io_suspend(move || Err(error))
            },
        }
    }

    /// Get tool definitions for sending to the LLM, one per tool, in order:
    /// `api_definitions` of the tools' definitions.
    pub fn definitions(&self) -> (d: Vec<Value>)
        ensures
            d@.len() == self@.len(),
            exists|defs: Seq<ToolDefinition>|
                {
                    &&& defs.len() == self@.len()
                    &&& forall|i: int|
                        #![trigger defs[i]]
                        0 <= i < defs.len() ==> call_ensures(T::definition, (&self@[i],), defs[i])
                    &&& d@ == api_list(defs)
                },
    {
        let n = self.tools.len();
        let mut defs: Vec<ToolDefinition> = Vec::new();
        let mut i: usize = 0;
        while i < n
            invariant
                n == self.tools@.len(),
                i <= n,
                defs@.len() == i,
                forall|j: int|
                    #![trigger defs@[j]]
                    0 <= j < i ==> call_ensures(T::definition, (&self@[j],), defs@[j]),
            decreases n - i,
        {
            defs.push(self.tools[i].definition());
            i = i + 1;
        }
        api_definitions(&defs)
    }
}

/// The names of tool definitions, in order.
pub open spec fn definition_names(defs: Seq<ToolDefinition>) -> Seq<Seq<char>> {
    defs.map_values(|d: ToolDefinition| d@.0)
}

/// The position of the first of `names` that equals `name`.
pub open spec fn first_named(names: Seq<Seq<char>>, name: Seq<char>) -> Option<int>
    decreases names.len(),
{
    if names.len() == 0 {
        None
    } else {
        match first_named(names.drop_last(), name) {
            Some(i) => Some(i),
            None => if names.last() == name {
                Some(names.len() - 1)
            } else {
                None
            },
        }
    }
}

/// `first_named` is the least position holding the name, and is absent
/// exactly where no position holds it.
pub proof fn lemma_first_named(names: Seq<Seq<char>>, name: Seq<char>)
    ensures
        first_named(names, name) matches Some(i) ==> 0 <= i < names.len() && names[i] == name
            && forall|j: int| 0 <= j < i ==> #[trigger] names[j] != name,
        first_named(names, name) is None ==> forall|j: int|
            0 <= j < names.len() ==> #[trigger] names[j] != name,
    decreases names.len(),
{
    if names.len() > 0 {
        let p = names.drop_last();
        lemma_first_named(p, name);
        match first_named(p, name) {
            Some(i) => {
                assert(names[i] == p[i]);
                assert forall|j: int| 0 <= j < i implies #[trigger] names[j] != name by {
                    assert(names[j] == p[j]);
                }
            },
            None => {
                assert forall|j: int| 0 <= j < names.len() - 1 implies #[trigger] names[j]
                    != name by {
                    assert(names[j] == p[j]);
                }
            },
        }
    }
}

/// Appending a name never shadows an earlier one: where some of `names`
/// equals `name`, the first such position is the same after `extra` is
/// appended.
pub proof fn law_appending_never_shadows(names: Seq<Seq<char>>, extra: Seq<char>, name: Seq<char>)
    requires
        first_named(names, name) is Some,
    ensures
        first_named(names.push(extra), name) == first_named(names, name),
{
    assert(names.push(extra).drop_last() =~= names);
}

/// The views of a sequence of strings.
pub open spec fn name_views(names: Seq<String>) -> Seq<Seq<char>> {
    names.map_values(|s: String| s@)
}

/// Which tool is called for `name`, given the names of the tools'
/// definitions in order: the position of the first that equals `name`, or
/// none where no name does.
pub fn tool_position(names: &[String], name: &str) -> (r: Option<usize>)
    ensures
        r matches Some(i) ==> first_named(name_views(names@), name@) == Some(i as int),
        r is None ==> first_named(name_views(names@), name@) is None,
        r matches Some(i) ==> i < names@.len() && names@[i as int]@ == name@ && forall|j: int|
            0 <= j < i ==> #[trigger] names@[j]@ != name@,
        r is None ==> forall|j: int| 0 <= j < names@.len() ==> #[trigger] names@[j]@ != name@,
{
    let target = String::from_str(name);
    let n = names.len();
    let ghost views = name_views(names@);
    let mut i: usize = 0;
    while i < n
        invariant
            n == names@.len(),
            i <= n,
            target@ == name@,
            views == name_views(names@),
            first_named(views.take(i as int), name@) is None,
        decreases n - i,
    {
        proof {
            assert(views.take(i + 1).drop_last() =~= views.take(i as int));
            assert(views[i as int] == names@[i as int]@);
        }
        if names[i] == target {
            proof {
                assert(first_named(views.take(i + 1), name@) == Some(i as int));
                lemma_first_named(views, name@);
                lemma_prefix_first_named(views, name@, i as int);
                assert forall|j: int| 0 <= j < i implies #[trigger] names@[j]@ != name@ by {
                    assert(views[j] == names@[j]@);
                }
            }
            return Some(i);
        }
        i = i + 1;
    }
    proof {
        assert(views.take(n as int) =~= views);
        lemma_first_named(views, name@);
        assert forall|j: int| 0 <= j < n implies #[trigger] names@[j]@ != name@ by {
            assert(views[j] == names@[j]@);
        }
    }
    None
}

/// Where the first `k + 1` names already hold `name`, the first position
/// of it is the same in the whole sequence.
proof fn lemma_prefix_first_named(names: Seq<Seq<char>>, name: Seq<char>, k: int)
    requires
        0 <= k < names.len(),
        first_named(names.take(k + 1), name) is Some,
    ensures
        first_named(names, name) == first_named(names.take(k + 1), name),
    decreases names.len(),
{
    if names.len() > k + 1 {
        assert(names.drop_last().take(k + 1) =~= names.take(k + 1));
        lemma_prefix_first_named(names.drop_last(), name, k);
    } else {
        assert(names.take(k + 1) =~= names);
    }
}

/// The API forms of tool definitions.
pub open spec fn api_list(defs: Seq<ToolDefinition>) -> Seq<Value> {
    defs.map_values(|d: ToolDefinition| api_json(d@.0, d@.1, d@.2))
}

/// Appending a definition appends its API form and leaves those before it
/// unchanged.
pub proof fn law_api_list_appends(defs: Seq<ToolDefinition>, extra: ToolDefinition)
    ensures
        api_list(defs.push(extra)) == api_list(defs).push(api_json(extra@.0, extra@.1, extra@.2)),
{
    assert(api_list(defs.push(extra)) =~= api_list(defs).push(api_json(extra@.0, extra@.1, extra@.2)));
}

/// The definitions in the form LLM tool-calling APIs expect, in order.
pub fn api_definitions(defs: &Vec<ToolDefinition>) -> (d: Vec<Value>)
    ensures
        d@ == api_list(defs@),
{
    let n = defs.len();
    let mut out: Vec<Value> = Vec::new();
    let mut i: usize = 0;
    while i < n
        invariant
            n == defs@.len(),
            i <= n,
            out@ =~= api_list(defs@).take(i as int),
        decreases n - i,
    {
        out.push(defs[i].to_api_json());
        i = i + 1;
    }
    assert(out@ =~= api_list(defs@));
    out
}

} // verus!
