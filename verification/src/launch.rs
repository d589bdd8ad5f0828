//! Programs started for the user: the terminal emulators tried, and the opener of files.
use vstd::prelude::*;

use crate::text::{chars_of, copy_string, string_from_chars};

verus! {

/// A program to start: its name and arguments.
pub struct Launch {
    pub program: String,
    pub args: Vec<String>,
    /// Run it in `directory` (rather than passing the directory as an argument).
    pub in_directory: bool,
}

pub struct LaunchView {
    pub program: Seq<char>,
    pub args: Seq<Seq<char>>,
    pub in_directory: bool,
}

impl View for Launch {
    type V = LaunchView;

    open spec fn view(&self) -> LaunchView {
        LaunchView { program: self.program@, args: self.args.deep_view(), in_directory: self.in_directory }
    }
}

/// Terminal emulators tried in order to open a terminal at `dir`: the desktop's default one
/// started in `dir`, then each known one given `dir` after its working-directory option.
pub open spec fn terminal_attempts_of(dir: Seq<char>) -> Seq<LaunchView> {
    seq![
        LaunchView { program: "x-terminal-emulator"@, args: Seq::empty(), in_directory: true },
        LaunchView { program: "kitty"@, args: seq!["--directory"@, dir], in_directory: false },
        LaunchView { program: "alacritty"@, args: seq!["--working-directory"@, dir], in_directory: false },
        LaunchView { program: "wezterm"@, args: seq!["start"@, "--cwd"@, dir], in_directory: false },
        LaunchView { program: "konsole"@, args: seq!["--workdir"@, dir], in_directory: false },
        LaunchView { program: "gnome-terminal"@, args: seq!["--working-directory"@, dir], in_directory: false },
        LaunchView { program: "xfce4-terminal"@, args: seq!["--working-directory"@, dir], in_directory: false },
        LaunchView { program: "tilix"@, args: seq!["--working-directory"@, dir], in_directory: false },
    ]
}

fn text(s: &str) -> (r: String)
    ensures
        r@ == s@,
{
    string_from_chars(&chars_of(s))
}

fn with_dir(program: &str, options: Vec<String>, dir: &str) -> (r: Launch)
    ensures
        r@ == (LaunchView { program: program@, args: options.deep_view().push(dir@), in_directory: false }),
{
    let mut args = options;
    let ghost before = args.deep_view();
    args.push(text(dir));
    assert(args.deep_view() =~= before.push(dir@));
    Launch { program: text(program), args, in_directory: false }
}

fn one(s: &str) -> (r: Vec<String>)
    ensures
        r.deep_view() == seq![s@],
{
    let mut v: Vec<String> = Vec::new();
    v.push(text(s));
    assert(v.deep_view() =~= seq![s@]);
    v
}

/// The terminal emulators to try, in order, to open a terminal at `dir`.
pub fn terminal_attempts(dir: &str) -> (r: Vec<Launch>)
    ensures
        r@.map_values(|l: Launch| l@) == terminal_attempts_of(dir@),
{
    let ghost d = dir@;
    let ghost want = terminal_attempts_of(d);
    let mut out: Vec<Launch> = Vec::new();
    let none: Vec<String> = Vec::new();
    assert(none.deep_view() =~= Seq::<Seq<char>>::empty());
    out.push(Launch { program: text("x-terminal-emulator"), args: none, in_directory: true });
    assert(out@[0]@ == want[0]);
    out.push(with_dir("kitty", one("--directory"), dir));
    assert(seq!["--directory"@].push(d) =~= seq!["--directory"@, d]);
    assert(out@[1]@ == want[1]);
    out.push(with_dir("alacritty", one("--working-directory"), dir));
    assert(seq!["--working-directory"@].push(d) =~= seq!["--working-directory"@, d]);
    assert(out@[2]@ == want[2]);
    let mut wez: Vec<String> = Vec::new();
    wez.push(text("start"));
    wez.push(text("--cwd"));
    assert(wez.deep_view() =~= seq!["start"@, "--cwd"@]);
    out.push(with_dir("wezterm", wez, dir));
    assert(seq!["start"@, "--cwd"@].push(d) =~= seq!["start"@, "--cwd"@, d]);
    assert(out@[3]@ == want[3]);
    out.push(with_dir("konsole", one("--workdir"), dir));
    assert(seq!["--workdir"@].push(d) =~= seq!["--workdir"@, d]);
    assert(out@[4]@ == want[4]);
    out.push(with_dir("gnome-terminal", one("--working-directory"), dir));
    assert(out@[5]@ == want[5]);
    out.push(with_dir("xfce4-terminal", one("--working-directory"), dir));
    assert(out@[6]@ == want[6]);
    out.push(with_dir("tilix", one("--working-directory"), dir));
    assert(out@[7]@ == want[7]);
    assert(out@.map_values(|l: Launch| l@) =~= want);
    out
}

/// The program that opens `path` with the desktop's default application.
pub fn open_command(path: &str) -> (r: Launch)
    ensures
        r@ == (LaunchView { program: "xdg-open"@, args: seq![path@], in_directory: false }),
{
    Launch { program: text("xdg-open"), args: one(path), in_directory: false }
}

} // verus!
