//! Tool choice: which tools the model may invoke.
//!
//! A choice is read by its shape: a plain string; an object with `mode`
//! (the allowed-tools form); an object whose `type` names an MCP server
//! tool, `apply_patch`, the bare `shell`, a named tool, or a built-in
//! tool type. Each shape is then read as `serde` reads the struct it
//! stands for.
use vstd::prelude::*;
use crate::items::{opt_string_member, string_member};
use crate::json::{owned, str_eq};
use crate::models::opt_view;
use crate::value::{fields_view, group_json_view, seq_view, Json, JsonV};
use crate::ws::{element, opt_ref_view};

verus! {

broadcast use group_json_view;

/// A tool allowed by the allowed-tools form.
#[derive(Debug)]
pub struct SimplifiedTool {
    pub type_: String,
    pub name: Option<String>,
    pub server_label: Option<String>,
}

pub ghost struct SimplifiedToolV {
    pub type_: Seq<char>,
    pub name: Option<Seq<char>>,
    pub server_label: Option<Seq<char>>,
}

impl View for SimplifiedTool {
    type V = SimplifiedToolV;

    open spec fn view(&self) -> SimplifiedToolV {
        SimplifiedToolV { type_: self.type_@, name: opt_view(self.name), server_label: opt_view(self.server_label) }
    }
}

/// The allowed-tools form: a mode and the tools it allows.
#[derive(Debug)]
pub struct ToolChoiceMode {
    pub type_: String,
    pub mode: String,
    pub tools: Vec<SimplifiedTool>,
}

/// A named tool (function, custom, or a named shell).
#[derive(Debug)]
pub struct ToolChoiceSpecific {
    pub tool_type: String,
    pub name: String,
}

/// A tool on an MCP server, or the whole server when no name is given.
#[derive(Debug)]
pub struct ToolChoiceMcp {
    pub tool_type: String,
    pub server_label: String,
    pub name: Option<String>,
}

#[derive(Debug)]
pub struct ToolChoiceApplyPatch {
    pub tool_type: String,
}

#[derive(Debug)]
pub struct ToolChoiceShell {
    pub tool_type: String,
}

/// A built-in tool, by its type alone.
#[derive(Debug)]
pub struct ToolChoiceTypes {
    pub tool_type: String,
}

/// Controls which tools the model may invoke.
#[derive(Debug)]
pub enum ToolChoice {
    String(String),
    Mode(ToolChoiceMode),
    Mcp(ToolChoiceMcp),
    ApplyPatch(ToolChoiceApplyPatch),
    Shell(ToolChoiceShell),
    Specific(ToolChoiceSpecific),
    Types(ToolChoiceTypes),
}

pub ghost enum ToolChoiceV {
    String(Seq<char>),
    Mode { type_: Seq<char>, mode: Seq<char>, tools: Seq<SimplifiedToolV> },
    Mcp { tool_type: Seq<char>, server_label: Seq<char>, name: Option<Seq<char>> },
    ApplyPatch { tool_type: Seq<char> },
    Shell { tool_type: Seq<char> },
    Specific { tool_type: Seq<char>, name: Seq<char> },
    Types { tool_type: Seq<char> },
}

impl View for ToolChoice {
    type V = ToolChoiceV;

    open spec fn view(&self) -> ToolChoiceV {
        match self {
            ToolChoice::String(s) => ToolChoiceV::String(s@),
            ToolChoice::Mode(m) => ToolChoiceV::Mode {
                type_: m.type_@,
                mode: m.mode@,
                tools: m.tools@.map_values(|t: SimplifiedTool| t@),
            },
            ToolChoice::Mcp(m) => ToolChoiceV::Mcp {
                tool_type: m.tool_type@,
                server_label: m.server_label@,
                name: opt_view(m.name),
            },
            ToolChoice::ApplyPatch(a) => ToolChoiceV::ApplyPatch { tool_type: a.tool_type@ },
            ToolChoice::Shell(s) => ToolChoiceV::Shell { tool_type: s.tool_type@ },
            ToolChoice::Specific(s) => ToolChoiceV::Specific { tool_type: s.tool_type@, name: s.name@ },
            ToolChoice::Types(t) => ToolChoiceV::Types { tool_type: t.tool_type@ },
        }
    }
}

/// The `type` that the allowed-tools form takes when it gives none.
pub fn default_allowed_tools_type() -> (r: String)
    ensures
        r@ == "allowed_tools"@,
{
    owned("allowed_tools")
}

// ─── How each shape reads ───────────────────────────────────────────────

pub open spec fn simplified_from(
    type_: Option<Seq<char>>,
    name: Option<Option<Seq<char>>>,
    server_label: Option<Option<Seq<char>>>,
) -> Option<SimplifiedToolV> {
    match (type_, name, server_label) {
        (Some(t), Some(n), Some(s)) => Some(SimplifiedToolV { type_: t, name: n, server_label: s }),
        _ => None,
    }
}

/// A tool of the allowed-tools form: an object by member names, or an
/// array of one to three members in field order.
pub open spec fn simplified_of(v: JsonV) -> Option<SimplifiedToolV> {
    match v {
        JsonV::Object(_) => simplified_from(
            string_member(v.get("type"@)),
            opt_string_member(v.get("name"@)),
            opt_string_member(v.get("server_label"@)),
        ),
        JsonV::Array(a) => if 1 <= a.len() <= 3 {
            simplified_from(
                string_member(element(a, 0)),
                opt_string_member(element(a, 1)),
                opt_string_member(element(a, 2)),
            )
        } else {
            None
        },
        _ => None,
    }
}

pub open spec fn simplified_prefix(a: Seq<JsonV>, n: int) -> Option<Seq<SimplifiedToolV>>
    decreases n,
{
    if n <= 0 {
        Some(Seq::empty())
    } else {
        match (simplified_prefix(a, n - 1), simplified_of(a[n - 1])) {
            (Some(t), Some(x)) => Some(t.push(x)),
            _ => None,
        }
    }
}

/// An array of allowed tools, every one of which reads.
pub open spec fn simplified_list(v: Option<JsonV>) -> Option<Seq<SimplifiedToolV>> {
    match v {
        Some(JsonV::Array(a)) => simplified_prefix(a, a.len() as int),
        _ => None,
    }
}

/// The `type` of the allowed-tools form: `allowed_tools` when absent.
pub open spec fn mode_type_member(v: Option<JsonV>) -> Option<Seq<char>> {
    match v {
        None => Some("allowed_tools"@),
        Some(JsonV::Str(s)) => Some(s),
        _ => None,
    }
}

/// The allowed-tools form, read from an object.
pub open spec fn mode_of(v: JsonV) -> Option<ToolChoiceV> {
    match (
        mode_type_member(v.get("type"@)),
        string_member(v.get("mode"@)),
        simplified_list(v.get("tools"@)),
    ) {
        (Some(t), Some(m), Some(tools)) => Some(ToolChoiceV::Mode { type_: t, mode: m, tools }),
        _ => None,
    }
}

pub open spec fn has_key(v: JsonV, key: Seq<char>) -> bool {
    v.get(key) is Some
}

/// How a tool choice reads; `None` where `serde` fails.
pub open spec fn tool_choice_of(v: JsonV) -> Option<ToolChoiceV> {
    match v {
        JsonV::Str(s) => Some(ToolChoiceV::String(s)),
        JsonV::Object(f) => if has_key(v, "mode"@) {
            mode_of(v)
        } else {
            match v.get_str("type"@) {
                None => None,
                Some(t) => if t == "mcp"@ && has_key(v, "server_label"@) {
                    match (string_member(v.get("server_label"@)), opt_string_member(v.get("name"@))) {
                        (Some(l), Some(n)) => Some(ToolChoiceV::Mcp { tool_type: t, server_label: l, name: n }),
                        _ => None,
                    }
                } else if t == "apply_patch"@ {
                    Some(ToolChoiceV::ApplyPatch { tool_type: t })
                } else if t == "shell"@ && f.len() == 1 {
                    Some(ToolChoiceV::Shell { tool_type: t })
                } else if has_key(v, "name"@) {
                    match string_member(v.get("name"@)) {
                        Some(n) => Some(ToolChoiceV::Specific { tool_type: t, name: n }),
                        None => None,
                    }
                } else {
                    Some(ToolChoiceV::Types { tool_type: t })
                },
            }
        },
        _ => None,
    }
}

// ─── Reading ────────────────────────────────────────────────────────────

fn string_of(v: Option<&Json>) -> (r: Option<String>)
    ensures
        opt_view(r) == string_member(opt_ref_view(v)),
{
    match v {
        Some(Json::String(s)) => Some(s.clone()),
        _ => None,
    }
}

fn opt_string_of(v: Option<&Json>) -> (r: Option<Option<String>>)
    ensures
        match r {
            Some(s) => opt_string_member(opt_ref_view(v)) == Some(opt_view(s)),
            None => opt_string_member(opt_ref_view(v)) is None,
        },
{
    match v {
        None => Some(None),
        Some(Json::Null) => Some(None),
        Some(Json::String(s)) => Some(Some(s.clone())),
        _ => None,
    }
}

fn simplified_from_parts(
    type_: Option<String>,
    name: Option<Option<String>>,
    server_label: Option<Option<String>>,
) -> (r: Option<SimplifiedTool>)
    ensures
        match r {
            Some(t) => simplified_from(
                opt_view(type_),
                match name {
                    Some(n) => Some(opt_view(n)),
                    None => None,
                },
                match server_label {
                    Some(s) => Some(opt_view(s)),
                    None => None,
                },
            ) == Some(t@),
            None => simplified_from(
                opt_view(type_),
                match name {
                    Some(n) => Some(opt_view(n)),
                    None => None,
                },
                match server_label {
                    Some(s) => Some(opt_view(s)),
                    None => None,
                },
            ) is None,
        },
{
    match (type_, name, server_label) {
        (Some(t), Some(n), Some(s)) => Some(SimplifiedTool { type_: t, name: n, server_label: s }),
        _ => None,
    }
}

/// Reads a tool of the allowed-tools form (see [`simplified_of`]).
pub fn simplified_tool_from_json(v: &Json) -> (r: Option<SimplifiedTool>)
    ensures
        match r {
            Some(t) => simplified_of(v@) == Some(t@),
            None => simplified_of(v@) is None,
        },
{
    match v {
        Json::Object(_) => simplified_from_parts(
            string_of(v.get("type")),
            opt_string_of(v.get("name")),
            opt_string_of(v.get("server_label")),
        ),
        Json::Array(a) => {
            if 1 <= a.len() && a.len() <= 3 {
                simplified_from_parts(
                    string_of(crate::ws::element_of(a, 0)),
                    opt_string_of(crate::ws::element_of(a, 1)),
                    opt_string_of(crate::ws::element_of(a, 2)),
                )
            } else {
                None
            }
        },
        _ => None,
    }
}

proof fn lemma_simplified_prefix_none(a: Seq<JsonV>, n: int, m: int)
    requires
        1 <= n <= m,
        simplified_prefix(a, n) is None,
    ensures
        simplified_prefix(a, m) is None,
    decreases m - n,
{
    if n < m {
        lemma_simplified_prefix_none(a, n, m - 1);
    }
}

fn simplified_list_of(v: Option<&Json>) -> (r: Option<Vec<SimplifiedTool>>)
    ensures
        match r {
            Some(t) => simplified_list(opt_ref_view(v)) == Some(t@.map_values(|x: SimplifiedTool| x@)),
            None => simplified_list(opt_ref_view(v)) is None,
        },
{
    match v {
        Some(Json::Array(a)) => {
            let ghost av = seq_view(a@);
            let mut out: Vec<SimplifiedTool> = Vec::new();
            let mut i: usize = 0;
            while i < a.len()
                invariant
                    i <= a@.len(),
                    av == seq_view(a@),
                    opt_ref_view(v) == Some(JsonV::Array(av)),
                    simplified_prefix(av, i as int) == Some(out@.map_values(|x: SimplifiedTool| x@)),
                decreases a.len() - i,
            {
                assert(av[i as int] == a@[i as int]@);
                match simplified_tool_from_json(&a[i]) {
                    Some(t) => {
                        let ghost before = out@;
                        out.push(t);
                        assert(out@.map_values(|x: SimplifiedTool| x@) =~= before.map_values(
                            |x: SimplifiedTool| x@,
                        ).push(t@));
                    },
                    None => {
                        proof {
                            lemma_simplified_prefix_none(av, i as int + 1, av.len() as int);
                        }
                        return None;
                    },
                }
                i = i + 1;
            }
            Some(out)
        },
        _ => None,
    }
}

fn mode_type_of(v: Option<&Json>) -> (r: Option<String>)
    ensures
        opt_view(r) == mode_type_member(opt_ref_view(v)),
{
    match v {
        None => Some(default_allowed_tools_type()),
        Some(Json::String(s)) => Some(s.clone()),
        _ => None,
    }
}

fn has_member(v: &Json, key: &str) -> (r: bool)
    ensures
        r == has_key(v@, key@),
{
    v.get(key).is_some()
}

impl ToolChoice {
    /// Reads a tool choice by its shape (see [`tool_choice_of`]).
    pub fn from_json(v: &Json) -> (r: Option<ToolChoice>)
        ensures
            match r {
                Some(c) => tool_choice_of(v@) == Some(c@),
                None => tool_choice_of(v@) is None,
            },
    {
        match v {
            Json::String(s) => Some(ToolChoice::String(s.clone())),
            Json::Object(f) => {
                assert(fields_view(f@).len() == f@.len());
                if has_member(v, "mode") {
                    return match (mode_type_of(v.get("type")), string_of(v.get("mode")), simplified_list_of(v.get("tools"))) {
                        (Some(t), Some(m), Some(tools)) => Some(ToolChoice::Mode(ToolChoiceMode { type_: t, mode: m, tools })),
                        _ => None,
                    };
                }
                let t = match v.get_str("type") {
                    Some(t) => t,
                    None => {
                        return None;
                    },
                };
                if str_eq(t, "mcp") && has_member(v, "server_label") {
                    match (string_of(v.get("server_label")), opt_string_of(v.get("name"))) {
                        (Some(l), Some(n)) => Some(ToolChoice::Mcp(ToolChoiceMcp { tool_type: owned(t), server_label: l, name: n })),
                        _ => None,
                    }
                } else if str_eq(t, "apply_patch") {
                    Some(ToolChoice::ApplyPatch(ToolChoiceApplyPatch { tool_type: owned(t) }))
                } else if str_eq(t, "shell") && f.len() == 1 {
                    Some(ToolChoice::Shell(ToolChoiceShell { tool_type: owned(t) }))
                } else if has_member(v, "name") {
                    match string_of(v.get("name")) {
                        Some(n) => Some(ToolChoice::Specific(ToolChoiceSpecific { tool_type: owned(t), name: n })),
                        None => None,
                    }
                } else {
                    Some(ToolChoice::Types(ToolChoiceTypes { tool_type: owned(t) }))
                }
            },
            _ => None,
        }
    }
}

} // verus!
