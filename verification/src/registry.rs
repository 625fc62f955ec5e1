//! The tools that are offered to a model.
use vstd::prelude::*;

use crate::goal_edit::edit_spec;
use crate::goal_edit::edit_tool_spec;
use crate::goal_edit::Authority;
use crate::goal_edit::EDIT_TOOL_NAME;
use crate::goal_resume::resume_spec;
use crate::goal_resume::resume_tool_spec;
use crate::goal_resume::RESUME_TOOL_NAME;
use crate::goal_supervisor::tools::kind_name;
use crate::goal_supervisor::tools::kind_spec;
use crate::goal_supervisor::tools::Kind;
use crate::tool_spec::saffron_tool;
use crate::tool_spec::ToolName;
use crate::tool_spec::ToolSpec;
use crate::tool_spec::ToolSpecView;
use crate::tool_spec::NAMESPACE;

verus! {

/// A tool that is offered to a model.
#[derive(Clone, Copy, Debug, PartialEq, Eq, Structural)]
pub enum RegisteredTool {
    /// Edits the objective of the active goal.
    EditGoal(Authority),
    /// Resumes the durable goal.
    ResumeGoal,
    /// Carries out an action of a supervisor helper.
    Supervisor(Kind),
}

/// The name of a tool within its namespace.
pub open spec fn registered_name(tool: RegisteredTool) -> Seq<char> {
    match tool {
        RegisteredTool::EditGoal(_) => EDIT_TOOL_NAME@,
        RegisteredTool::ResumeGoal => RESUME_TOOL_NAME@,
        RegisteredTool::Supervisor(kind) => kind_name(kind),
    }
}

/// What a model is told of a tool.
pub open spec fn registered_spec(tool: RegisteredTool) -> ToolSpecView {
    match tool {
        RegisteredTool::EditGoal(_) => edit_spec(),
        RegisteredTool::ResumeGoal => resume_spec(),
        RegisteredTool::Supervisor(kind) => kind_spec(kind),
    }
}

impl RegisteredTool {
    /// The name of the tool.  Every tool is in the library's own namespace.
    pub fn tool_name(&self) -> (name: ToolName)
        ensures
            name.namespace@ == NAMESPACE@,
            name.name@ == registered_name(*self),
    {
        match self {
            RegisteredTool::EditGoal(_) => saffron_tool(EDIT_TOOL_NAME),
            RegisteredTool::ResumeGoal => saffron_tool(RESUME_TOOL_NAME),
            RegisteredTool::Supervisor(kind) => kind.tool_name(),
        }
    }

    /// Tells a model of the tool.
    pub fn tool_spec(&self) -> (spec: ToolSpec)
        ensures
            spec@ == registered_spec(*self),
    {
        match self {
            RegisteredTool::EditGoal(_) => edit_tool_spec(),
            RegisteredTool::ResumeGoal => resume_tool_spec(),
            RegisteredTool::Supervisor(kind) => kind.spec(),
        }
    }
}

/// A model is told of a tool under the name by which the tool is called.
pub proof fn tools_are_told_of_by_name(tool: RegisteredTool)
    ensures
        registered_spec(tool).namespace == NAMESPACE@,
        registered_spec(tool).name == registered_name(tool),
{
}

/// The tools that are offered to a model, in the order they were added.
#[derive(Debug)]
pub struct ToolRegistry {
    tools: Vec<RegisteredTool>,
}

impl View for ToolRegistry {
    type V = Seq<RegisteredTool>;

    closed spec fn view(&self) -> Seq<RegisteredTool> {
        self.tools@
    }
}

impl ToolRegistry {
    /// No tool is offered.
    pub fn new() -> (registry: Self)
        ensures
            registry@ == Seq::<RegisteredTool>::empty(),
    {
        ToolRegistry { tools: Vec::new() }
    }

    /// Offers a tool.
    pub fn add(&mut self, tool: RegisteredTool)
        ensures
            final(self)@ == old(self)@.push(tool),
    {
        self.tools.push(tool);
    }

    /// The tools that are offered.
    pub fn tools(&self) -> (tools: &Vec<RegisteredTool>)
        ensures
            tools@ == self@,
    {
        &self.tools
    }
}

} // verus!
