//! Shell tool — delegates to [`crate::shell::engine::ShellEngine`].

use std::sync::Arc;
use vstd::prelude::*;
use crate::shell::config::{normalize_name, ShellSection};
use crate::shell::engine::{NoopSandbox, ShellEngine};
use crate::shell::profiles::{builtin_kind, resolution, ShellProfileKind};
use crate::text::{lower, skip_ws, trim, trim_end_idx, views};
use crate::tools::result::{ParamProp, ParamSchema};

verus! {

/// Shell command execution tool with sandboxing (profile-driven engine).
pub struct ShellTool<S, R, B> {
    engine: Arc<ShellEngine<S, R, B>>,
}

/// Arguments of one `shell` tool call: `command` (required) and `approved`
/// (defaults to `false`), as far as they are present with the right JSON type.
pub struct ShellToolArgs {
    pub command: Option<String>,
    pub approved: Option<bool>,
}

/// The default `[shell]` section resolves (to the `safe` tier).
pub proof fn lemma_default_section_resolves(shell: ShellSection)
    requires
        shell.profile@ == "safe"@,
    ensures
        resolution(shell) == Ok::<(ShellProfileKind, Option<Seq<char>>), (bool, Seq<char>)>((ShellProfileKind::Safe, None)),
{
    reveal_strlit("safe");
    let s = shell.profile@;
    assert(skip_ws(s, 0) == 0);
    assert(trim_end_idx(s, 4) == 4);
    assert(s.subrange(0, 4) =~= s);
    assert(trim(s) == s);
    assert(lower(s) =~= s);
    assert(normalize_name(s) == s);
    assert(builtin_kind(s) == Some(ShellProfileKind::Safe));
}

impl<S, R, B> ShellTool<S, R, B> {
    pub closed spec fn spec_engine(&self) -> Arc<ShellEngine<S, R, B>> {
        self.engine
    }

    /// Build from an existing engine (preferred when sharing with skill tools).
    pub fn from_engine(engine: Arc<ShellEngine<S, R, B>>) -> (r: Self)
        ensures
            r.spec_engine() == engine,
    {
        ShellTool { engine }
    }

    /// A tool over the default `[shell]` section and the given sandbox.
    pub fn new_with_sandbox(security: S, runtime: R, sandbox: B) -> (r: Self)
        ensures
            r.spec_engine().spec_shell().profile@ == "safe"@,
            r.spec_engine().spec_kind() == ShellProfileKind::Safe,
            r.spec_engine().spec_custom_id() is None,
            r.spec_engine().spec_security() == security,
            r.spec_engine().spec_runtime() == runtime,
            r.spec_engine().spec_sandbox() == sandbox,
    {
        let shell = ShellSection::default_section();
        proof {
            lemma_default_section_resolves(shell);
        }
        let engine = ShellEngine::new(shell, security, runtime, sandbox).unwrap();
        ShellTool { engine: Arc::new(engine) }
    }

    /// Shared engine handle (e.g. for skill shell tools).
    pub fn engine(&self) -> (r: &Arc<ShellEngine<S, R, B>>)
        ensures
            *r == self.spec_engine(),
    {
        &self.engine
    }

    pub fn name(&self) -> (r: &'static str)
        ensures
            r@ == "shell"@,
    {
        "shell"
    }

    pub fn description(&self) -> (r: &'static str)
        ensures
            r@ == "Execute a shell command in the workspace directory"@,
    {
        "Execute a shell command in the workspace directory"
    }

    /// Parameters: `command` (string, required) and `approved` (boolean,
    /// default `false`).
    pub fn parameters_schema(&self) -> (r: ParamSchema)
        ensures
            r.properties@.len() == 2,
            r.properties@[0].name@ == "command"@ && r.properties@[0].kind@ == "string"@
                && r.properties@[0].description@ == "The shell command to execute"@ && !r.properties@[0].default_false,
            r.properties@[1].name@ == "approved"@ && r.properties@[1].kind@ == "boolean"@
                && r.properties@[1].description@ == "Set true to explicitly approve medium/high-risk commands in supervised mode"@
                && r.properties@[1].default_false,
            views(r.required@) == seq!["command"@],
    {
        let mut properties: Vec<ParamProp> = Vec::new();
        properties.push(
            ParamProp {
                name: "command".to_owned(),
                kind: "string".to_owned(),
                description: "The shell command to execute".to_owned(),
                default_false: false,
            },
        );
        properties.push(
            ParamProp {
                name: "approved".to_owned(),
                kind: "boolean".to_owned(),
                description: "Set true to explicitly approve medium/high-risk commands in supervised mode".to_owned(),
                default_false: true,
            },
        );
        let mut required: Vec<String> = Vec::new();
        required.push("command".to_owned());
        proof {
            assert(views(required@) =~= seq!["command"@]);
        }
        ParamSchema { properties, required }
    }

    /// The command to run and its approval flag, or the error for a missing command.
    pub fn command_from_args(&self, args: ShellToolArgs) -> (r: Result<(String, bool), String>)
        ensures
            match args.command {
                None => r matches Err(e) && e@ == "Missing 'command' parameter"@,
                Some(c) => r matches Ok((rc, ra)) && rc@ == c@ && ra == match args.approved {
                    Some(a) => a,
                    None => false,
                },
            },
    {
        match args.command {
            None => Err("Missing 'command' parameter".to_owned()),
            Some(c) => {
                let approved = match args.approved {
                    Some(a) => a,
                    None => false,
                };
                Ok((c, approved))
            },
        }
    }
}

impl<S, R> ShellTool<S, R, NoopSandbox> {
    /// A tool over the default `[shell]` section with no sandbox wrapping.
    pub fn new(security: S, runtime: R) -> (r: Self)
        ensures
            r.spec_engine().spec_shell().profile@ == "safe"@,
            r.spec_engine().spec_kind() == ShellProfileKind::Safe,
            r.spec_engine().spec_custom_id() is None,
            r.spec_engine().spec_security() == security,
            r.spec_engine().spec_runtime() == runtime,
    {
        Self::new_with_sandbox(security, runtime, NoopSandbox)
    }
}

} // verus!
