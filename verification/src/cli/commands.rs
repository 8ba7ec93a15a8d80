//! The commands of the `cli` tool and what each needs before it touches a
//! board, a file or the network.

use vstd::prelude::*;
use crate::path::{file_name, file_name_of};
use crate::text::same_text;

verus! {

broadcast use vstd::string::group_string_axioms;

/// The `flash` command: writes the bundled firmware to a board.
pub struct Flash {
    args: Vec<String>,
}

/// The `load` command: compiles a source file and uploads the bytecode to a
/// board.
pub struct Load {
    args: Vec<String>,
}

/// The `watch` command: uploads a source file again each time it changes.
pub struct Watch {
    args: Vec<String>,
}

impl View for Flash {
    type V = Seq<String>;

    closed spec fn view(&self) -> Seq<String> {
        self.args@
    }
}

impl View for Load {
    type V = Seq<String>;

    closed spec fn view(&self) -> Seq<String> {
        self.args@
    }
}

impl View for Watch {
    type V = Seq<String>;

    closed spec fn view(&self) -> Seq<String> {
        self.args@
    }
}

/// Why a `load` or `watch` command cannot start.
#[derive(PartialEq, Eq, Structural)]
pub enum TargetError {
    /// It needs a file path and a host.
    MissingArguments,
    /// The path names no file.
    NoFileName,
}

/// The file to upload and where to.
pub struct UploadTarget {
    /// The path of the source file.
    pub path: String,
    /// The module name: the file name of the path.
    pub module_name: String,
    /// The base address of the board.
    pub host: String,
}

/// What the arguments `<filepath> <host>` give: the path, its file name as the
/// module name, and the host.
pub open spec fn target_of(args: Seq<String>) -> Result<
    (Seq<char>, Seq<char>, Seq<char>),
    TargetError,
> {
    if args.len() < 2 {
        Err(TargetError::MissingArguments)
    } else {
        match file_name_of(args[0]@) {
            None => Err(TargetError::NoFileName),
            Some(name) => Ok((args[0]@, name, args[1]@)),
        }
    }
}

/// The result matches what the arguments give.
pub open spec fn is_target_of(r: Result<UploadTarget, TargetError>, args: Seq<String>) -> bool {
    match r {
        Ok(t) => target_of(args) == Ok::<_, TargetError>((t.path@, t.module_name@, t.host@)),
        Err(e) => target_of(args) == Err::<(Seq<char>, Seq<char>, Seq<char>), _>(e),
    }
}

/// The upload target named by the arguments `<filepath> <host>`.
pub fn upload_target(args: &Vec<String>) -> (r: Result<UploadTarget, TargetError>)
    ensures
        is_target_of(r, args@),
        r matches Ok(t) ==> args@.len() >= 2 && t.path@ == args@[0]@ && t.host@ == args@[1]@
            && file_name_of(t.path@) == Some(t.module_name@),
        r matches Err(e) ==> (e == TargetError::MissingArguments <==> args@.len() < 2),
        r matches Err(e) ==> (e == TargetError::NoFileName <==> args@.len() >= 2
            && file_name_of(args@[0]@) is None),
{
    if args.len() < 2 {
        return Err(TargetError::MissingArguments);
    }
    match file_name(args[0].as_str()) {
        None => Err(TargetError::NoFileName),
        Some(module_name) => Ok(
            UploadTarget {
                path: args[0].clone(),
                module_name,
                host: args[1].clone(),
            },
        ),
    }
}

impl Flash {
    /// The command with its arguments.
    pub fn new(args: Vec<String>) -> (r: Flash)
        ensures
            r@ == args@,
    {
        Flash { args }
    }
}

impl Load {
    /// The command with its arguments.
    pub fn new(args: Vec<String>) -> (r: Load)
        ensures
            r@ == args@,
    {
        Load { args }
    }

    /// The file to compile and the board to upload it to.
    pub fn target(&self) -> (r: Result<UploadTarget, TargetError>)
        ensures
            is_target_of(r, self@),
    {
        upload_target(&self.args)
    }
}

impl Watch {
    /// The command with its arguments.
    pub fn new(args: Vec<String>) -> (r: Watch)
        ensures
            r@ == args@,
    {
        Watch { args }
    }

    /// The file to watch and the board to upload it to.
    pub fn target(&self) -> (r: Result<UploadTarget, TargetError>)
        ensures
            is_target_of(r, self@),
    {
        upload_target(&self.args)
    }
}


/// What running a command takes, as decided before any work is done.
pub enum Run {
    /// Flash the bundled firmware.
    Flash,
    /// Compile and upload a file once, if its target could be read.
    Load(Result<UploadTarget, TargetError>),
    /// Watch a file and upload it on each change, if its target could be read.
    Watch(Result<UploadTarget, TargetError>),
    /// Send Wi-Fi credentials to a board.
    Configure,
}

/// The commands of the `cli` tool.
pub enum Command {
    Flash(Flash),
    Load(Load),
}

/// The names of the `cli` commands.
pub open spec fn is_command_name(name: Seq<char>) -> bool {
    name == "flash"@ || name == "load"@
}

/// `c` is the command `name` with the arguments `args`.
pub open spec fn is_command(c: Command, name: Seq<char>, args: Seq<String>) -> bool {
    match c {
        Command::Flash(f) => name == "flash"@ && f@ == args,
        Command::Load(l) => name == "load"@ && l@ == args,
    }
}

/// The arguments after the program name and the command name.
pub open spec fn command_args(args: Seq<String>) -> Seq<String> {
    args.subrange(2, args.len() as int)
}

impl Command {
    /// Whether `name` names a command of the tool.
    pub fn is_known(name: &str) -> (r: bool)
        ensures
            r == is_command_name(name@),
            r == (name@ == "flash"@ || name@ == "load"@),
    {
        same_text(name, "flash") || same_text(name, "load")
    }

    /// The command of the given name, with its arguments.
    pub fn cmd_from_str(command: &str, args: Vec<String>) -> (r: Command)
        requires
            is_command_name(command@),
        ensures
            is_command(r, command@, args@),
    {
        if same_text(command, "flash") {
            Command::Flash(Flash::new(args))
        } else {
            Command::Load(Load::new(args))
        }
    }

    /// The command named on the command line `program command args...`;
    /// `None` when no command is named.
    pub fn from_args(args: Vec<String>) -> (r: Option<Command>)
        requires
            args.len() >= 2 ==> is_command_name(args@[1]@),
        ensures
            r is None <==> args.len() < 2,
            r matches Some(c) ==> is_command(c, args@[1]@, command_args(args@)),
    {
        if args.len() < 2 {
            return None;
        }
        let mut args = args;
        let rest = args.split_off(2);
        Some(Command::cmd_from_str(args[1].as_str(), rest))
    }

    /// Decides what running the command takes: for `load`, the file and host
    /// named by its arguments.
    pub fn exec(&self) -> (r: Run)
        ensures
            match self {
                Command::Flash(_) => r is Flash,
                Command::Load(l) => r matches Run::Load(t) && is_target_of(t, l@),
            },
    {
        match self {
            Command::Flash(_) => Run::Flash,
            Command::Load(l) => Run::Load(l.target()),
        }
    }
}


/// The command line knows exactly the commands `flash` and `load`.
pub proof fn law_command_names(name: Seq<char>)
    ensures
        is_command_name(name) <==> (name == "flash"@ || name == "load"@),
{
}

/// The command built for a name is the one of that name, and it carries the
/// given arguments.
pub proof fn law_command_of_name(c: Command, name: Seq<char>, args: Seq<String>)
    requires
        is_command(c, name, args),
    ensures
        name == "flash"@ <==> c is Flash,
        c matches Command::Flash(f) ==> f@ == args,
        name == "load"@ <==> c is Load,
        c matches Command::Load(l) ==> l@ == args,
{
    reveal_strlit("flash");
    reveal_strlit("load");
    assert("flash"@[0] == 'f' && "load"@[0] == 'l');
}

/// The arguments of a command are those after the program and command names,
/// all of them, in order.
pub proof fn law_command_args(args: Seq<String>)
    requires
        args.len() >= 2,
    ensures
        command_args(args).len() == args.len() - 2,
        forall|i: int| 0 <= i < args.len() - 2 ==> #[trigger] command_args(args)[i] == args[i + 2],
{
}

/// A `load` or `watch` target is the path and host given, in that order, and
/// the module name is the file name of the path; the target is missing only
/// for fewer than two arguments, and has no name only for a path that names
/// no file.
pub proof fn law_target_is_path_name_host(r: Result<UploadTarget, TargetError>, args: Seq<String>)
    requires
        is_target_of(r, args),
    ensures
        r matches Ok(t) ==> args.len() >= 2 && t.path@ == args[0]@ && t.host@ == args[1]@
            && file_name_of(t.path@) == Some(t.module_name@),
        r is Ok <==> args.len() >= 2 && file_name_of(args[0]@) is Some,
        r matches Err(e) ==> (e == TargetError::MissingArguments <==> args.len() < 2),
{
}

} // verus!
