//! The commands of the `hermes` tool: those of `cli`, plus `watch` and
//! `configure`.

use vstd::prelude::*;
use crate::cli::commands::{Flash, Load, Watch, Run, is_target_of, command_args};
use crate::hermes::configure::Configure;
use crate::text::same_text;

verus! {

broadcast use vstd::string::group_string_axioms;

/// The commands of the `hermes` tool.
pub enum Command {
    Flash(Flash),
    Load(Load),
    Watch(Watch),
    Configure(Configure),
}

/// The names of the `hermes` commands.
pub open spec fn is_command_name(name: Seq<char>) -> bool {
    name == "flash"@ || name == "load"@ || name == "watch"@ || name == "configure"@
}

/// `c` is the command `name` with the arguments `args`.
pub open spec fn is_command(c: Command, name: Seq<char>, args: Seq<String>) -> bool {
    match c {
        Command::Flash(f) => name == "flash"@ && f@ == args,
        Command::Load(l) => name == "load"@ && l@ == args,
        Command::Watch(w) => name == "watch"@ && w@ == args,
        Command::Configure(c) => name == "configure"@ && c@ == args,
    }
}

impl Command {
    /// Whether `name` names a command of the tool.
    pub fn is_known(name: &str) -> (r: bool)
        ensures
            r == is_command_name(name@),
            r == (name@ == "flash"@ || name@ == "load"@ || name@ == "watch"@ || name@
                == "configure"@),
    {
        same_text(name, "flash") || same_text(name, "load") || same_text(name, "watch")
            || same_text(name, "configure")
    }

    /// The command of the given name, with its arguments.
    pub fn cmd_from_str(command: &str, args: Vec<String>) -> (r: Command)
        requires
            is_command_name(command@),
        ensures
            is_command(r, command@, args@),
    {
        if same_text(command, "flash") {
            Command::Flash(Flash::new(args))
        } else if same_text(command, "load") {
            Command::Load(Load::new(args))
        } else if same_text(command, "watch") {
            Command::Watch(Watch::new(args))
        } else {
            Command::Configure(Configure::new(args))
        }
    }

    /// The command named on the command line `program command args...`;
    /// `None` when no command is named.
    pub fn from_args(args: Vec<String>) -> (r: Option<Command>)
        requires
            args.len() >= 2 ==> is_command_name(args@[1]@),
        ensures
            r is None <==> args.len() < 2,
            r matches Some(c) ==> is_command(c, args@[1]@, command_args(args@)),
    {
        if args.len() < 2 {
            return None;
        }
        let mut args = args;
        let rest = args.split_off(2);
        Some(Command::cmd_from_str(args[1].as_str(), rest))
    }

    /// Decides what running the command takes: for `load` and `watch`, the
    /// file and host named by their arguments.
    pub fn exec(&self) -> (r: Run)
        ensures
            match self {
                Command::Flash(_) => r is Flash,
                Command::Load(l) => r matches Run::Load(t) && is_target_of(t, l@),
                Command::Watch(w) => r matches Run::Watch(t) && is_target_of(t, w@),
                Command::Configure(_) => r is Configure,
            },
    {
        match self {
            Command::Flash(_) => Run::Flash,
            Command::Load(l) => Run::Load(l.target()),
            Command::Watch(w) => Run::Watch(w.target()),
            Command::Configure(_) => Run::Configure,
        }
    }
}


/// The tool knows exactly the commands `flash`, `load`, `watch` and
/// `configure`.
pub proof fn law_command_names(name: Seq<char>)
    ensures
        is_command_name(name) <==> (name == "flash"@ || name == "load"@ || name == "watch"@
            || name == "configure"@),
{
}

/// The command built for a name is the one of that name, and it carries the
/// given arguments.
pub proof fn law_command_of_name(c: Command, name: Seq<char>, args: Seq<String>)
    requires
        is_command(c, name, args),
    ensures
        name == "flash"@ <==> c is Flash,
        c matches Command::Flash(f) ==> f@ == args,
        name == "load"@ <==> c is Load,
        c matches Command::Load(l) ==> l@ == args,
        name == "watch"@ <==> c is Watch,
        c matches Command::Watch(w) ==> w@ == args,
        name == "configure"@ <==> c is Configure,
        c matches Command::Configure(k) ==> k@ == args,
{
    reveal_strlit("flash");
    reveal_strlit("load");
    assert("flash"@[0] == 'f' && "load"@[0] == 'l');
    reveal_strlit("watch");
    reveal_strlit("configure");
    assert("watch"@[0] == 'w' && "configure"@[0] == 'c');
}

} // verus!
