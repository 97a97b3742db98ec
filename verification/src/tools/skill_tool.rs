//! Shell-based tool derived from a skill's `[[tools]]` section.
//!
//! Each skill tool with `kind = "shell"` or `kind = "script"` becomes a
//! [`SkillShellTool`]. The tool name is prefixed with the skill name (e.g.
//! `my_skill.run_lint`) to avoid collisions with built-in tools.

use std::sync::Arc;
use vstd::prelude::*;
use crate::shell::engine::ShellEngine;
use crate::text::{chars_of, clone_pairs, replace_all, replace_all_chars, string_of, views};
use crate::tools::result::{ParamProp, ParamSchema};

verus! {

/// A skill's `[[tools]]` entry; `args` maps each argument name to its
/// description, in declaration order, with no name twice.
pub struct SkillTool {
    pub name: String,
    pub description: String,
    pub kind: String,
    pub command: String,
    pub args: Vec<(String, String)>,
}

/// A tool derived from a skill's `[[tools]]` section that executes shell commands.
pub struct SkillShellTool<P, S, R, B> {
    tool_name: String,
    tool_description: String,
    command_template: String,
    args: Vec<(String, String)>,
    security: P,
    shell_engine: Arc<ShellEngine<S, R, B>>,
}

/// `{{key}}`.
pub open spec fn placeholder(key: Seq<char>) -> Seq<char> {
    "{{"@ + key + "}}"@
}

/// The value substituted for an argument: its text, or empty when it is not a string.
pub open spec fn arg_text(v: Option<String>) -> Seq<char> {
    match v {
        Some(s) => s@,
        None => Seq::empty(),
    }
}

/// `template` after substituting the arguments from index `i` on, in order.
pub open spec fn substitute_from(template: Seq<char>, args: Seq<(String, Option<String>)>, i: int) -> Seq<char>
    decreases args.len() - i,
{
    if i >= args.len() {
        template
    } else {
        substitute_from(
            replace_all(template, placeholder(args[i].0@), arg_text(args[i].1)),
            args,
            i + 1,
        )
    }
}

impl<P, S, R, B> SkillShellTool<P, S, R, B> {
    pub closed spec fn spec_name(&self) -> Seq<char> {
        self.tool_name@
    }

    pub closed spec fn spec_description(&self) -> Seq<char> {
        self.tool_description@
    }

    pub closed spec fn spec_template(&self) -> Seq<char> {
        self.command_template@
    }

    pub closed spec fn spec_args(&self) -> Seq<(String, String)> {
        self.args@
    }

    pub closed spec fn spec_security(&self) -> P {
        self.security
    }

    pub closed spec fn spec_engine(&self) -> Arc<ShellEngine<S, R, B>> {
        self.shell_engine
    }

    /// The tool name is `skill_name.tool_name`, so it cannot collide with built-in tools.
    pub fn new(skill_name: &str, tool: &SkillTool, security: P, shell_engine: Arc<ShellEngine<S, R, B>>) -> (r: Self)
        ensures
            r.spec_name() == skill_name@ + "."@ + tool.name@,
            r.spec_description() == tool.description@,
            r.spec_template() == tool.command@,
            r.spec_args() == tool.args@,
            r.spec_security() == security,
            r.spec_engine() == shell_engine,
    {
        let mut tool_name = skill_name.to_owned();
        tool_name.push_str(".");
        tool_name.push_str(tool.name.as_str());
        let args = clone_pairs(&tool.args);
        SkillShellTool {
            tool_name,
            tool_description: tool.description.clone(),
            command_template: tool.command.clone(),
            args,
            security,
            shell_engine,
        }
    }

    pub fn name(&self) -> (r: &str)
        ensures
            r@ == self.spec_name(),
    {
        self.tool_name.as_str()
    }

    pub fn description(&self) -> (r: &str)
        ensures
            r@ == self.spec_description(),
    {
        self.tool_description.as_str()
    }

    /// Declared arguments (name, description), for the parameter schema.
    pub fn args(&self) -> (r: &Vec<(String, String)>)
        ensures
            r@ == self.spec_args(),
    {
        &self.args
    }

    /// The shared engine that runs the substituted command (as approved).
    pub fn engine(&self) -> (r: &Arc<ShellEngine<S, R, B>>)
        ensures
            *r == self.spec_engine(),
    {
        &self.shell_engine
    }

    /// Parameters: every declared argument as a string property with its
    /// description, all of them required, in declaration order.
    pub fn build_parameters_schema(&self) -> (r: ParamSchema)
        ensures
            r.properties@.len() == self.spec_args().len(),
            forall|k: int| 0 <= k < r.properties@.len() ==> {
                let p = #[trigger] r.properties@[k];
                &&& p.name@ == self.spec_args()[k].0@
                &&& p.kind@ == "string"@
                &&& p.description@ == self.spec_args()[k].1@
                &&& !p.default_false
            },
            views(r.required@) == self.spec_args().map_values(|a: (String, String)| a.0@),
    {
        let mut properties: Vec<ParamProp> = Vec::new();
        let mut required: Vec<String> = Vec::new();
        let mut i: usize = 0;
        while i < self.args.len()
            invariant
                i <= self.args@.len(),
                properties@.len() == i,
                forall|k: int| 0 <= k < i ==> {
                    let p = #[trigger] properties@[k];
                    &&& p.name@ == self.args@[k].0@
                    &&& p.kind@ == "string"@
                    &&& p.description@ == self.args@[k].1@
                    &&& !p.default_false
                },
                views(required@) == self.args@.subrange(0, i as int).map_values(|a: (String, String)| a.0@),
            decreases self.args@.len() - i,
        {
            let (n, d) = (&self.args[i].0, &self.args[i].1);
            properties.push(ParamProp { name: n.clone(), kind: "string".to_owned(), description: d.clone(), default_false: false });
            let ghost before = required@;
            required.push(n.clone());
            proof {
                assert(views(required@) =~= views(before).push(n@));
                assert(self.args@.subrange(0, i + 1).map_values(|a: (String, String)| a.0@) =~= self.args@.subrange(
                    0,
                    i as int,
                ).map_values(|a: (String, String)| a.0@).push(n@));
            }
            i = i + 1;
        }
        proof {
            assert(self.args@.subrange(0, self.args@.len() as int) =~= self.args@);
        }
        ParamSchema { properties, required }
    }

    /// Substitute `{{arg_name}}` placeholders in the command template with the
    /// provided argument values, one argument after another; a value that is
    /// not a string substitutes the empty text; unknown placeholders are left as-is.
    pub fn substitute_args(&self, args: &Vec<(String, Option<String>)>) -> (r: String)
        ensures
            r@ == substitute_from(self.spec_template(), args@, 0),
    {
        let mut command = chars_of(self.command_template.as_str());
        let mut i: usize = 0;
        while i < args.len()
            invariant
                i <= args@.len(),
                substitute_from(self.command_template@, args@, 0) == substitute_from(command@, args@, i as int),
            decreases args@.len() - i,
        {
            let mut pat = chars_of("{{");
            let key = chars_of(args[i].0.as_str());
            let mut k: usize = 0;
            while k < key.len()
                invariant
                    k <= key@.len(),
                    pat@ == "{{"@ + key@.subrange(0, k as int),
                decreases key@.len() - k,
            {
                pat.push(key[k]);
                proof {
                    assert(key@.subrange(0, k + 1) =~= key@.subrange(0, k as int).push(key@[k as int]));
                }
                k = k + 1;
            }
            let close = chars_of("}}");
            let mut k2: usize = 0;
            let ghost p0 = pat@;
            while k2 < close.len()
                invariant
                    k2 <= close@.len(),
                    pat@ == p0 + close@.subrange(0, k2 as int),
                decreases close@.len() - k2,
            {
                pat.push(close[k2]);
                proof {
                    assert(close@.subrange(0, k2 + 1) =~= close@.subrange(0, k2 as int).push(close@[k2 as int]));
                }
                k2 = k2 + 1;
            }
            proof {
                assert(key@.subrange(0, key@.len() as int) =~= key@);
                assert(close@.subrange(0, close@.len() as int) =~= close@);
                reveal_strlit("{{");
                reveal_strlit("}}");
                assert(pat@ == placeholder(args@[i as int].0@));
                assert(pat@.len() > 0);
            }
            let rep = match &args[i].1 {
                Some(v) => chars_of(v.as_str()),
                None => Vec::new(),
            };
            command = replace_all_chars(&command, &pat, &rep);
            i = i + 1;
        }
        string_of(&command)
    }
}

} // verus!
