use vstd::prelude::*;

verus! {

/// A program run for a user after that user authenticates.
///
/// `name` labels the command so that adding another with the same label
/// replaces it; `path` is the working directory (the current one when
/// absent); `command` is the program, invoked without arguments.
#[derive(Debug, Default)]
pub struct UserCommand {
    pub name: Option<String>,
    pub path: Option<String>,
    pub command: String,
}

/// The text of an optional string.
pub open spec fn opt_view(o: Option<String>) -> Option<Seq<char>> {
    match o {
        Some(s) => Some(s@),
        None => None,
    }
}

/// What a command holds, as text.
pub struct CommandModel {
    pub name: Option<Seq<char>>,
    pub path: Option<Seq<char>>,
    pub command: Seq<char>,
}

impl View for UserCommand {
    type V = CommandModel;

    open spec fn view(&self) -> CommandModel {
        CommandModel { name: opt_view(self.name), path: opt_view(self.path), command: self.command@ }
    }
}

/// The one-line shell rendering of a command: `cd <dir> && <program>`.
pub open spec fn describe_spec(c: CommandModel) -> Seq<char> {
    let dir = match c.path {
        Some(p) => p,
        None => seq!['.'],
    };
    seq!['c', 'd', ' '] + dir + seq![' ', '&', '&', ' '] + c.command
}

fn clone_opt(o: &Option<String>) -> (r: Option<String>)
    ensures
        r == *o,
{
    match o {
        Some(s) => Some(s.clone()),
        None => None,
    }
}

impl Clone for UserCommand {
    fn clone(&self) -> (r: Self)
        ensures
            r == *self,
    {
        UserCommand {
            name: clone_opt(&self.name),
            path: clone_opt(&self.path),
            command: self.command.clone(),
        }
    }
}

impl UserCommand {
    pub fn new(name: Option<String>, path: Option<String>, command: String) -> (r: UserCommand)
        ensures
            r.name == name,
            r.path == path,
            r.command == command,
    {
        UserCommand { name, path, command }
    }

    /// Renders the command as `cd <dir> && <program>`, for logs.
    pub fn describe(&self) -> (r: String)
        ensures
            r@ == describe_spec(self@),
    {
        let mut r = String::new();
        r.append("cd ");
        match &self.path {
            Some(p) => r.append(p.as_str()),
            None => r.append("."),
        }
        r.append(" && ");
        r.append(self.command.as_str());
        proof {
            reveal_strlit("cd ");
            reveal_strlit(".");
            reveal_strlit(" && ");
            assert(r@ =~= describe_spec(self@));
        }
        r
    }
}

} // verus!
