//! The commands that a client sends over the control channel.

use vstd::prelude::*;

verus! {

/// Pause the timer.
#[derive(Debug, PartialEq)]
pub struct PauseArgs {}

/// Resume the timer.
#[derive(Debug, PartialEq)]
pub struct ResumeArgs {}

/// Toggle the state of the timer.
#[derive(Debug, PartialEq)]
pub struct ToggleArgs {}

/// Jump to the next session.
#[derive(Debug, PartialEq)]
pub struct NextArgs {}

/// Jump to the previous session.
#[derive(Debug, PartialEq)]
pub struct PrevArgs {}

/// Finish the current session at once, invoking its command.
#[derive(Debug, PartialEq)]
pub struct FinishArgs {}

/// Jump to the session with the given id.
#[derive(Debug, PartialEq)]
pub struct JumpArgs {
    pub id: String,
}

/// Reload the configuration.
#[derive(Debug, PartialEq)]
pub struct ReloadArgs {}

/// Fetch timer information, written in the given format.
#[derive(Debug, PartialEq)]
pub struct FetchArgs {
    pub format: String,
}

/// Receive the time continuously, under the named override where one is given.
#[derive(Debug, PartialEq)]
pub struct ListenArgs {
    pub overrid: Option<String>,
}

/// One command, as one connection carries it.
#[derive(Debug, PartialEq)]
pub enum Command {
    Pause(PauseArgs),
    Resume(ResumeArgs),
    Toggle(ToggleArgs),
    Next(NextArgs),
    Prev(PrevArgs),
    Finish(FinishArgs),
    Jump(JumpArgs),
    Reload(ReloadArgs),
    Fetch(FetchArgs),
    Listen(ListenArgs),
}

/// A `Command` as plain values.
pub ghost enum CommandView {
    Pause,
    Resume,
    Toggle,
    Next,
    Prev,
    Finish,
    Jump(Seq<char>),
    Reload,
    Fetch(Seq<char>),
    Listen(Option<Seq<char>>),
}

impl DeepView for Command {
    type V = CommandView;

    open spec fn deep_view(&self) -> CommandView {
        match self {
            Command::Pause(_) => CommandView::Pause,
            Command::Resume(_) => CommandView::Resume,
            Command::Toggle(_) => CommandView::Toggle,
            Command::Next(_) => CommandView::Next,
            Command::Prev(_) => CommandView::Prev,
            Command::Finish(_) => CommandView::Finish,
            Command::Jump(args) => CommandView::Jump(args.id@),
            Command::Reload(_) => CommandView::Reload,
            Command::Fetch(args) => CommandView::Fetch(args.format@),
            Command::Listen(args) => CommandView::Listen(args.overrid.deep_view()),
        }
    }
}

/// Where the control socket lies: under the runtime directory where one is
/// set, else under the directory for temporary files, else under `/tmp`.
pub open spec fn socket_path(xdg_runtime_dir: Option<Seq<char>>, tmp_dir: Option<Seq<char>>)
    -> Seq<char> {
    match xdg_runtime_dir {
        Some(dir) => dir + "/uair.sock"@,
        None => match tmp_dir {
            Some(dir) => dir + "/uair.sock"@,
            None => "/tmp/uair.sock"@,
        },
    }
}

/// The path of the control socket, given the values of `XDG_RUNTIME_DIR`
/// and of `TMPDIR`, where they are set.
pub fn get_socket_path(xdg_runtime_dir: Option<String>, tmp_dir: Option<String>) -> (path:
    String)
    ensures
        path@ == socket_path(xdg_runtime_dir.deep_view(), tmp_dir.deep_view()),
{
    match xdg_runtime_dir {
        Some(dir) => dir.concat("/uair.sock"),
        None => match tmp_dir {
            Some(dir) => dir.concat("/uair.sock"),
            None => "/tmp/uair.sock".to_owned(),
        },
    }
}

} // verus!
