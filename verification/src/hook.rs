//! The hook script that an application may name: a shell command that is run
//! once the files of the application are in place on a target.

use vstd::prelude::*;

verus! {

/// A command to run: the program, its arguments, and the bindings that are
/// added to the environment of the running process.
#[derive(Debug, PartialEq, Eq)]
pub struct HookCommand {
    pub program: String,
    pub arguments: Vec<String>,
    pub environment: Vec<(String, String)>,
}

/// What a command holds, as plain texts.
pub struct CommandView {
    pub program: Seq<char>,
    pub arguments: Seq<Seq<char>>,
    pub environment: Seq<(Seq<char>, Seq<char>)>,
}

impl View for HookCommand {
    type V = CommandView;

    open spec fn view(&self) -> CommandView {
        CommandView {
            program: self.program@,
            arguments: self.arguments@.map_values(|s: String| s@),
            environment: self.environment@.map_values(|b: (String, String)| (b.0@, b.1@)),
        }
    }
}

/// The command that runs a hook script: the shell runs the script as one
/// command, with the source directory of the application bound to `in` and
/// its output directory bound to `out`.
pub open spec fn hook_command_of(script: Seq<char>, app_dir: Seq<char>, out_dir: Seq<char>) -> CommandView {
    CommandView {
        program: "bash"@,
        arguments: seq!["-c"@, script],
        environment: seq![("in"@, app_dir), ("out"@, out_dir)],
    }
}

/// Makes the command that runs a hook script.
pub fn hook_command(script: &str, app_dir: &str, out_dir: &str) -> (r: HookCommand)
    ensures
        r@ == hook_command_of(script@, app_dir@, out_dir@),
{
    let mut arguments: Vec<String> = Vec::new();
    arguments.push("-c".to_owned());
    arguments.push(script.to_owned());
    let mut environment: Vec<(String, String)> = Vec::new();
    environment.push(("in".to_owned(), app_dir.to_owned()));
    environment.push(("out".to_owned(), out_dir.to_owned()));
    let r = HookCommand { program: "bash".to_owned(), arguments, environment };
    proof {
        assert(r@.arguments =~= seq!["-c"@, script@]);
        assert(r@.environment =~= seq![("in"@, app_dir@), ("out"@, out_dir@)]);
    }
    r
}

} // verus!
