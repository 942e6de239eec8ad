//! External programs that the selector asks the caller to run.

use vstd::prelude::*;
use crate::text::strings;

verus! {

/// A program invocation: the program, its arguments, and whether it runs
/// with `LC_ALL=C` so that its output is not localised.
#[derive(Debug, Clone)]
pub struct ExternalCommand {
    pub program: String,
    pub args: Vec<String>,
    pub c_locale: bool,
}

/// The model of an [`ExternalCommand`].
pub struct CommandView {
    pub program: Seq<char>,
    pub args: Seq<Seq<char>>,
    pub c_locale: bool,
}

impl View for ExternalCommand {
    type V = CommandView;

    open spec fn view(&self) -> CommandView {
        CommandView { program: self.program@, args: strings(self.args@), c_locale: self.c_locale }
    }
}

/// `pactl` with the given arguments, stopped by `timeout` after `secs`.
pub open spec fn pactl(secs: Seq<char>, args: Seq<Seq<char>>) -> CommandView {
    CommandView { program: "timeout"@, args: seq![secs, "pactl"@] + args, c_locale: true }
}

/// `bluetoothctl` with the given arguments.
pub open spec fn bluetoothctl(args: Seq<Seq<char>>) -> CommandView {
    CommandView { program: "bluetoothctl"@, args: args, c_locale: false }
}

/// `pactl` with `args`, stopped by `timeout` after `secs`.
pub fn pactl_command(secs: &str, args: Vec<String>) -> (c: ExternalCommand)
    ensures
        c@ == pactl(secs@, strings(args@)),
{
    let mut all: Vec<String> = Vec::new();
    all.push(secs.to_owned());
    all.push("pactl".to_owned());
    let ghost head = strings(all@);
    let mut rest = args;
    let ghost tail = strings(rest@);
    all.append(&mut rest);
    proof {
        assert(head =~= seq![secs@, "pactl"@]);
        assert(strings(all@) =~= head + tail);
    }
    ExternalCommand { program: "timeout".to_owned(), args: all, c_locale: true }
}

/// `bluetoothctl` with `args`.
pub fn bluetoothctl_command(args: Vec<String>) -> (c: ExternalCommand)
    ensures
        c@ == bluetoothctl(strings(args@)),
{
    ExternalCommand { program: "bluetoothctl".to_owned(), args: args, c_locale: false }
}

} // verus!
