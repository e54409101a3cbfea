//! The external programs that build, uninstall and delete, as plain command
//! lines. The caller runs them.

use vstd::prelude::*;
use vstd::string::*;
use crate::location::{base_text, base_url};
use crate::text::{followed_by, join, joined, texts};

verus! {

/// Exit code reported for a program that could not be started or that was
/// ended by a signal.
pub const FAILURE_CODE: i32 = 1;

/// A program and its arguments.
#[derive(Debug)]
pub struct Command {
    pub program: String,
    pub args: Vec<String>,
}

/// A command as sequences of characters.
pub ghost struct CommandView {
    pub program: Seq<char>,
    pub args: Seq<Seq<char>>,
}

impl View for Command {
    type V = CommandView;

    open spec fn view(&self) -> CommandView {
        CommandView { program: self.program@, args: texts(self.args@) }
    }
}

/// The build of the package `name`: `makepkg -sirc name`, with `--noconfirm`
/// unless the build is to ask.
pub open spec fn build_spec(name: Seq<char>, interactive: bool) -> CommandView {
    CommandView {
        program: "makepkg"@,
        args: if interactive {
            seq!["-sirc"@, name]
        } else {
            seq!["-sirc"@, name, "--noconfirm"@]
        },
    }
}

/// The uninstall of the package `name`: `pacman -Rns name`, with
/// `--noconfirm` unless the uninstall is to ask, and run through `sudo` unless
/// the user is root already.
pub open spec fn uninstall_spec(name: Seq<char>, interactive: bool, as_root: bool) -> CommandView {
    let args = if interactive {
        seq!["-Rns"@, name]
    } else {
        seq!["-Rns"@, name, "--noconfirm"@]
    };
    if as_root {
        CommandView { program: "pacman"@, args }
    } else {
        CommandView { program: "sudo"@, args: seq!["pacman"@] + args }
    }
}

/// The forced deletion of the directory `path`: `rm -rf path`.
pub open spec fn delete_spec(path: Seq<char>) -> CommandView {
    CommandView { program: "rm"@, args: seq!["-rf"@, path] }
}

/// The line that shows a command: `> `, the program, and the arguments, with
/// one space between each two.
pub open spec fn display_spec(command: CommandView) -> Seq<char> {
    "> "@ + command.program + " "@ + joined(command.args, " "@)
}

/// The exit code of a program, given whether it could be started and, if so,
/// the code it ended with, if any.
pub open spec fn exit_code_spec(status: Option<Option<i32>>) -> i32 {
    match status {
        Some(Some(code)) => code,
        _ => FAILURE_CODE,
    }
}

/// The address that searches the package index for `keywords`.
pub open spec fn search_url_spec(keywords: Seq<Seq<char>>) -> Seq<char> {
    base_url() + "rpc/?v=5&type=search&arg="@ + joined(keywords, " "@)
}

/// The command that builds the package `name` in its working copy.
pub fn build_command(name: &str, interactive: bool) -> (command: Command)
    ensures
        command@ == build_spec(name@, interactive),
{
    let mut args: Vec<String> = Vec::new();
    args.push("-sirc".to_owned());
    args.push(name.to_owned());
    if !interactive {
        args.push("--noconfirm".to_owned());
    }
    let command = Command { program: "makepkg".to_owned(), args };
    assert(command@.args =~= build_spec(name@, interactive).args);
    command
}

/// Whether the user named `user` is root. No name means that the user is not
/// known, and so not root.
pub fn is_root(user: Option<&str>) -> (as_root: bool)
    ensures
        as_root == (user matches Some(name) && name@ == "root"@),
{
    match user {
        Some(name) => name.to_owned() == "root".to_owned(),
        None => false,
    }
}

/// The command that uninstalls the package `name`.
pub fn uninstall_command(name: &str, interactive: bool, as_root: bool) -> (command: Command)
    ensures
        command@ == uninstall_spec(name@, interactive, as_root),
{
    let mut args: Vec<String> = Vec::new();
    if !as_root {
        args.push("pacman".to_owned());
    }
    args.push("-Rns".to_owned());
    args.push(name.to_owned());
    if !interactive {
        args.push("--noconfirm".to_owned());
    }
    let program = if as_root {
        "pacman".to_owned()
    } else {
        "sudo".to_owned()
    };
    let command = Command { program, args };
    assert(command@.args =~= uninstall_spec(name@, interactive, as_root).args);
    command
}

/// The command that deletes the directory `path` and all below it.
pub fn delete_command(path: &str) -> (command: Command)
    ensures
        command@ == delete_spec(path@),
{
    let mut args: Vec<String> = Vec::new();
    args.push("-rf".to_owned());
    args.push(path.to_owned());
    let command = Command { program: "rm".to_owned(), args };
    assert(command@.args =~= delete_spec(path@).args);
    command
}

impl Command {
    /// The line that shows this command before it is run.
    pub fn display(&self) -> (line: String)
        ensures
            line@ == display_spec(self@),
    {
        let mut line = followed_by("> ", self.program.as_str());
        line.append(" ");
        let args = join(&self.args, " ");
        line.append(args.as_str());
        line
    }
}

/// The exit code of a program that was run.
pub fn exit_code(status: Option<Option<i32>>) -> (code: i32)
    ensures
        code == exit_code_spec(status),
{
    match status {
        Some(Some(code)) => code,
        _ => FAILURE_CODE,
    }
}

/// The address to ask for the packages that match `keywords`.
pub fn search_url(keywords: &Vec<String>) -> (url: String)
    ensures
        url@ == search_url_spec(texts(keywords@)),
{
    let mut url = followed_by(base_text(), "rpc/?v=5&type=search&arg=");
    let arg = join(keywords, " ");
    url.append(arg.as_str());
    url
}

} // verus!
