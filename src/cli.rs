//! The command-line surface: what each command takes, and how a start-up
//! is decided before any command runs.

use vstd::prelude::*;
use crate::usecase::{ConnectInput, EditProfileInput};

verus! {

/// The whole command line.
pub struct Cli {
    /// Never open the interactive picker.
    pub no_interactive: bool,
    /// Insist on the interactive picker.
    pub interactive: bool,
    pub command: Option<Command>,
}

pub enum Command {
    /// Create the database tables.
    Init,
    /// Serve the web front end (not implemented).
    Gui(GuiArgs),
    Profile(ProfileArgs),
    Connect(ConnectArgs),
    Password(PasswordArgs),
    /// Completion helper for shells.
    Complete(CompleteArgs),
}

pub struct ProfileArgs {
    pub cmd: ProfileCommand,
}

pub enum ProfileCommand {
    Add(EditProfileArgs),
    /// Change an existing profile in place.
    Update(EditProfileArgs),
    Rm(RmArgs),
    Show(ShowArgs),
    List,
}

/// The fields of a profile to create or change.
pub struct EditProfileArgs {
    pub label: String,
    pub host: Option<String>,
    pub user: Option<String>,
    pub port: Option<u16>,
    pub mode: Option<String>,
    pub tags: Option<String>,
    pub note: Option<String>,
    /// Jump chain labels; a non-empty list replaces the whole chain.
    pub jumps: Vec<String>,
}

pub struct ConnectArgs {
    /// The label of the profile to connect to.
    pub target: Option<String>,
    /// The numeric id of the profile; wins over the label.
    pub id: Option<u32>,
}

pub struct RmArgs {
    pub label: String,
}

pub struct ShowArgs {
    pub label: String,
}

pub struct ProfileWithoutArgs {
    pub label: String,
}

pub struct PasswordArgs {
    pub cmd: PasswordCommand,
}

pub enum PasswordCommand {
    /// Prompt for a password and keep it.
    Store(PasswordLabelArgs),
    Show(PasswordLabelArgs),
    Clear(PasswordLabelArgs),
}

pub struct PasswordLabelArgs {
    pub label: String,
}

pub struct CompleteArgs {
    pub cmd: CompleteSubcommand,
}

pub enum CompleteSubcommand {
    /// Print every profile label.
    Labels,
}

pub struct GuiArgs {
    pub bind: String,
    pub port: u16,
    pub no_open: bool,
    pub endpoint: Option<String>,
}

/// What to do once the command line is read.
#[derive(Debug, Clone, Copy, PartialEq, Eq, Structural)]
pub enum StartMode {
    /// The picker was demanded but there is no terminal: fail.
    NeedsTerminal,
    /// No command was given and the picker may not open: fail.
    MissingSubcommand,
    /// No command was given: pick a profile and connect to it.
    Pick,
    /// Run the given command.
    Run,
}

/// How a start-up goes, given the flags, whether a command was named and
/// whether both standard input and output are terminals.
pub open spec fn start_mode_of(interactive: bool, no_interactive: bool, has_command: bool, is_tty: bool) -> StartMode {
    if interactive && !is_tty {
        StartMode::NeedsTerminal
    } else if has_command {
        StartMode::Run
    } else if !no_interactive && is_tty {
        StartMode::Pick
    } else {
        StartMode::MissingSubcommand
    }
}

/// How a start-up goes for `cli` when the terminal state is `is_tty`.
pub fn start_mode(cli: &Cli, is_tty: bool) -> (r: StartMode)
    ensures
        r == start_mode_of(cli.interactive, cli.no_interactive, cli.command is Some, is_tty),
{
    if cli.interactive && !is_tty {
        StartMode::NeedsTerminal
    } else if cli.command.is_some() {
        StartMode::Run
    } else if !cli.no_interactive && is_tty {
        StartMode::Pick
    } else {
        StartMode::MissingSubcommand
    }
}

/// The edit request that `args` make.
pub fn edit_input(args: EditProfileArgs) -> (r: EditProfileInput)
    ensures
        r.label == args.label,
        r.host == args.host,
        r.user == args.user,
        r.port == args.port,
        r.mode == args.mode,
        r.tags == args.tags,
        r.notes == args.note,
        r.jumps == args.jumps,
{
    EditProfileInput {
        label: args.label,
        host: args.host,
        user: args.user,
        port: args.port,
        mode: args.mode,
        tags: args.tags,
        notes: args.note,
        jumps: args.jumps,
    }
}

/// The connect request that `args` make; a missing label is empty.
pub fn connect_input(args: ConnectArgs) -> (r: ConnectInput)
    ensures
        r.id == args.id,
        args.target matches Some(t) ==> r.target == t,
        args.target is None ==> r.target@ == Seq::<char>::empty(),
{
    let target = match args.target {
        Some(t) => t,
        None => String::new(),
    };
    ConnectInput { target, id: args.id }
}

} // verus!
