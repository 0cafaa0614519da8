//! What is asked of the system's tools, and what they hand back.
//!
//! The library runs nothing. It says which commands make up a piece of
//! work, and what a finished command's status means.

use vstd::prelude::*;
use vstd::string::StringExecFns;
use crate::number::{decimal_digits, decimal_text};

verus! {

/// What a finished command left behind: whether it reported success, and
/// the text that it wrote to its two streams.
#[derive(Debug)]
pub struct CommandOutput {
    pub success: bool,
    pub stdout: String,
    pub stderr: String,
}

/// Why a command did not do what was asked of it.
#[derive(Debug)]
pub struct CommandError {
    pub message: String,
}

/// One command: the program and its arguments. Where the command is to
/// stop the work when it reports failure, `failure` names what failed; a
/// command without it is run and not looked at.
#[derive(Debug)]
pub struct CommandLine {
    pub program: String,
    pub args: Vec<String>,
    pub failure: Option<String>,
}

/// One command: the mathematical value of a `CommandLine`.
pub struct Line {
    pub program: Seq<char>,
    pub args: Seq<Seq<char>>,
    pub failure: Option<Seq<char>>,
}

impl View for CommandLine {
    type V = Line;

    open spec fn view(&self) -> Line {
        Line {
            program: self.program@,
            args: self.args@.map_values(|a: String| a@),
            failure: match self.failure {
                Some(words) => Some(words@),
                None => None,
            },
        }
    }
}

/// A piece of work for the system's tools.
#[derive(Debug)]
pub enum Operation {
    /// List the links, one to a line.
    ListLinks,
    /// List the IPv4 addresses of the interface.
    ListAddresses { interface: String },
    /// Describe the wireless interface.
    ReadInfo { interface: String },
    /// Scan for networks with the interface.
    Scan { interface: String },
    /// Put the interface into monitor mode.
    EnableMonitor { interface: String },
    /// Put the interface back into managed mode.
    DisableMonitor { interface: String },
    /// Bring the interface up.
    BringUp { interface: String },
    /// Bring the interface down.
    BringDown { interface: String },
    /// Give the interface the name.
    Rename { interface: String, name: String },
    /// Restart the network manager.
    RestartNetworkManager,
    /// Give the interface the hardware address.
    SpoofMac { interface: String, address: String },
    /// Tune the interface to the channel.
    SetChannel { interface: String, channel: u32 },
}

/// The commands as mathematical values.
pub open spec fn lines_of(commands: Seq<CommandLine>) -> Seq<Line> {
    commands.map_values(|c: CommandLine| c@)
}

/// What a failed command is reported as: what failed, and what the command
/// complained of.
pub open spec fn failure_report(failure: Seq<char>, complaint: Seq<char>) -> Seq<char> {
    failure + ": "@ + complaint
}

/// A command that is run and not looked at.
pub open spec fn plain(program: Seq<char>, args: Seq<Seq<char>>) -> Line {
    Line { program, args, failure: None }
}

/// A command whose failure stops the work and is reported as `failure`.
pub open spec fn checked(program: Seq<char>, args: Seq<Seq<char>>, failure: Seq<char>) -> Line {
    Line { program, args, failure: Some(failure) }
}

/// The command that takes the interface down or up.
pub open spec fn link_set(interface: Seq<char>, state: Seq<char>) -> Line {
    plain("ip"@, seq!["link"@, "set"@, interface, state])
}

/// The command that sets the type of the wireless interface.
pub open spec fn set_type(interface: Seq<char>, kind: Seq<char>, failure: Seq<char>) -> Line {
    checked("iw"@, seq!["dev"@, interface, "set"@, "type"@, kind], failure)
}

/// The commands that make up the work, in the order in which they run.
/// An interface is taken down before its type, name or address changes,
/// and brought up after.
pub open spec fn plan(operation: Operation) -> Seq<Line> {
    match operation {
        Operation::ListLinks => seq![plain("ip"@, seq!["-o"@, "link"@, "show"@])],
        Operation::ListAddresses { interface } => seq![
            plain("ip"@, seq!["-4"@, "addr"@, "show"@, interface@]),
        ],
        Operation::ReadInfo { interface } => seq![
            plain("iw"@, seq!["dev"@, interface@, "info"@]),
        ],
        Operation::Scan { interface } => seq![plain("iw"@, seq!["dev"@, interface@, "scan"@])],
        Operation::EnableMonitor { interface } => seq![
            link_set(interface@, "down"@),
            set_type(interface@, "monitor"@, "Failed to set monitor mode"@),
            link_set(interface@, "up"@),
        ],
        Operation::DisableMonitor { interface } => seq![
            link_set(interface@, "down"@),
            set_type(interface@, "managed"@, "Failed to set managed mode"@),
            link_set(interface@, "up"@),
        ],
        Operation::BringUp { interface } => seq![
            checked(
                "ip"@,
                seq!["link"@, "set"@, interface@, "up"@],
                "Failed to bring up interface"@,
            ),
        ],
        Operation::BringDown { interface } => seq![
            checked(
                "ip"@,
                seq!["link"@, "set"@, interface@, "down"@],
                "Failed to bring down interface"@,
            ),
        ],
        Operation::Rename { interface, name } => seq![
            link_set(interface@, "down"@),
            checked(
                "ip"@,
                seq!["link"@, "set"@, interface@, "name"@, name@],
                "Failed to rename interface"@,
            ),
            link_set(name@, "up"@),
        ],
        Operation::RestartNetworkManager => seq![
            checked(
                "systemctl"@,
                seq!["restart"@, "NetworkManager"@],
                "Failed to restart NetworkManager"@,
            ),
        ],
        Operation::SpoofMac { interface, address } => seq![
            link_set(interface@, "down"@),
            checked(
                "ip"@,
                seq!["link"@, "set"@, interface@, "address"@, address@],
                "Failed to change MAC address"@,
            ),
            link_set(interface@, "up"@),
        ],
        Operation::SetChannel { interface, channel } => seq![
            checked(
                "iw"@,
                seq!["dev"@, interface@, "set"@, "channel"@, decimal_digits(channel as nat)],
                "Failed to set channel"@,
            ),
        ],
    }
}

/// How long the work may take, in seconds, where it is bounded: a scan is
/// given ten seconds.
pub open spec fn time_allowed(operation: Operation) -> Option<u64> {
    match operation {
        Operation::Scan { interface } => Some(10u64),
        _ => None,
    }
}

/// The words as strings of their own.
fn words(parts: &[&str]) -> (owned: Vec<String>)
    ensures
        owned@.map_values(|a: String| a@) == parts@.map_values(|p: &str| p@),
{
    let mut owned: Vec<String> = Vec::new();
    let mut i: usize = 0;
    while i < parts.len()
        invariant
            i <= parts.len(),
            owned@.map_values(|a: String| a@) == parts@.take(i as int).map_values(|p: &str| p@),
        decreases parts.len() - i,
    {
        let word = String::from_str(parts[i]);
        proof {
            let before = owned@.map_values(|a: String| a@);
            let after = owned@.push(word).map_values(|a: String| a@);
            assert(after == before.push(word@));
            let taken = parts@.take(i + 1).map_values(|p: &str| p@);
            assert(taken == parts@.take(i as int).map_values(|p: &str| p@).push(parts@[i as int]@));
        }
        owned.push(word);
        i += 1;
    }
    assert(parts@.take(i as int) == parts@);
    owned
}

/// A command that is run and not looked at.
fn plain_command(program: &str, parts: &[&str]) -> (command: CommandLine)
    ensures
        command@ == plain(program@, parts@.map_values(|p: &str| p@)),
{
    CommandLine { program: String::from_str(program), args: words(parts), failure: None }
}

/// A command whose failure stops the work.
fn checked_command(program: &str, parts: &[&str], failure: &str) -> (command: CommandLine)
    ensures
        command@ == checked(program@, parts@.map_values(|p: &str| p@), failure@),
{
    CommandLine {
        program: String::from_str(program),
        args: words(parts),
        failure: Some(String::from_str(failure)),
    }
}

/// The command that takes the interface down or up.
fn link_set_command(interface: &str, state: &str) -> (command: CommandLine)
    ensures
        command@ == link_set(interface@, state@),
{
    let parts: [&str; 4] = ["link", "set", interface, state];
    let command = plain_command("ip", parts.as_slice());
    assert(command@.args =~= seq!["link"@, "set"@, interface@, state@]);
    command
}

/// The command that sets the type of the wireless interface.
fn set_type_command(interface: &str, kind: &str, failure: &str) -> (command: CommandLine)
    ensures
        command@ == set_type(interface@, kind@, failure@),
{
    let parts: [&str; 5] = ["dev", interface, "set", "type", kind];
    let command = checked_command("iw", parts.as_slice(), failure);
    assert(command@.args =~= seq!["dev"@, interface@, "set"@, "type"@, kind@]);
    command
}

/// The one command as a list.
fn alone(command: CommandLine) -> (commands: Vec<CommandLine>)
    ensures
        lines_of(commands@) == seq![command@],
{
    let mut commands: Vec<CommandLine> = Vec::new();
    commands.push(command);
    assert(lines_of(commands@) =~= seq![command@]);
    commands
}

/// The three commands as a list.
fn in_turn(first: CommandLine, second: CommandLine, third: CommandLine) -> (commands: Vec<
    CommandLine,
>)
    ensures
        lines_of(commands@) == seq![first@, second@, third@],
{
    let mut commands: Vec<CommandLine> = Vec::new();
    commands.push(first);
    commands.push(second);
    commands.push(third);
    assert(lines_of(commands@) =~= seq![first@, second@, third@]);
    commands
}

impl Operation {
    /// The commands that make up the work, in the order in which they run.
    pub fn commands(&self) -> (commands: Vec<CommandLine>)
        ensures
            lines_of(commands@) == plan(*self),
    {
        match self {
            Operation::ListLinks => {
                let parts: [&str; 3] = ["-o", "link", "show"];
                let command = plain_command("ip", parts.as_slice());
                assert(command@.args =~= seq!["-o"@, "link"@, "show"@]);
                alone(command)
            },
            Operation::ListAddresses { interface } => {
                let parts: [&str; 4] = ["-4", "addr", "show", interface.as_str()];
                let command = plain_command("ip", parts.as_slice());
                assert(command@.args =~= seq!["-4"@, "addr"@, "show"@, interface@]);
                alone(command)
            },
            Operation::ReadInfo { interface } => {
                let parts: [&str; 3] = ["dev", interface.as_str(), "info"];
                let command = plain_command("iw", parts.as_slice());
                assert(command@.args =~= seq!["dev"@, interface@, "info"@]);
                alone(command)
            },
            Operation::Scan { interface } => {
                let parts: [&str; 3] = ["dev", interface.as_str(), "scan"];
                let command = plain_command("iw", parts.as_slice());
                assert(command@.args =~= seq!["dev"@, interface@, "scan"@]);
                alone(command)
            },
            Operation::EnableMonitor { interface } => in_turn(
                link_set_command(interface.as_str(), "down"),
                set_type_command(interface.as_str(), "monitor", "Failed to set monitor mode"),
                link_set_command(interface.as_str(), "up"),
            ),
            Operation::DisableMonitor { interface } => in_turn(
                link_set_command(interface.as_str(), "down"),
                set_type_command(interface.as_str(), "managed", "Failed to set managed mode"),
                link_set_command(interface.as_str(), "up"),
            ),
            Operation::BringUp { interface } => {
                let parts: [&str; 4] = ["link", "set", interface.as_str(), "up"];
                let command = checked_command("ip", parts.as_slice(), "Failed to bring up interface");
                assert(command@.args =~= seq!["link"@, "set"@, interface@, "up"@]);
                alone(command)
            },
            Operation::BringDown { interface } => {
                let parts: [&str; 4] = ["link", "set", interface.as_str(), "down"];
                let command = checked_command(
                    "ip",
                    parts.as_slice(),
                    "Failed to bring down interface",
                );
                assert(command@.args =~= seq!["link"@, "set"@, interface@, "down"@]);
                alone(command)
            },
            Operation::Rename { interface, name } => {
                let parts: [&str; 5] = ["link", "set", interface.as_str(), "name", name.as_str()];
                let command = checked_command("ip", parts.as_slice(), "Failed to rename interface");
                assert(command@.args =~= seq!["link"@, "set"@, interface@, "name"@, name@]);
                in_turn(
                    link_set_command(interface.as_str(), "down"),
                    command,
                    link_set_command(name.as_str(), "up"),
                )
            },
            Operation::RestartNetworkManager => {
                let parts: [&str; 2] = ["restart", "NetworkManager"];
                let command = checked_command(
                    "systemctl",
                    parts.as_slice(),
                    "Failed to restart NetworkManager",
                );
                assert(command@.args =~= seq!["restart"@, "NetworkManager"@]);
                alone(command)
            },
            Operation::SpoofMac { interface, address } => {
                let parts: [&str; 5] = [
                    "link",
                    "set",
                    interface.as_str(),
                    "address",
                    address.as_str(),
                ];
                let command = checked_command(
                    "ip",
                    parts.as_slice(),
                    "Failed to change MAC address",
                );
                assert(command@.args =~= seq!["link"@, "set"@, interface@, "address"@, address@]);
                in_turn(
                    link_set_command(interface.as_str(), "down"),
                    command,
                    link_set_command(interface.as_str(), "up"),
                )
            },
            Operation::SetChannel { interface, channel } => {
                let number = decimal_text(*channel as usize);
                let parts: [&str; 5] = [
                    "dev",
                    interface.as_str(),
                    "set",
                    "channel",
                    number.as_str(),
                ];
                let command = checked_command("iw", parts.as_slice(), "Failed to set channel");
                assert(command@.args =~= seq![
                    "dev"@,
                    interface@,
                    "set"@,
                    "channel"@,
                    decimal_digits(*channel as nat),
                ]);
                alone(command)
            },
        }
    }

    /// How long the work may take, in seconds, where it is bounded.
    pub fn timeout_secs(&self) -> (secs: Option<u64>)
        ensures
            secs == time_allowed(*self),
    {
        match self {
            Operation::Scan { interface } => Some(10),
            _ => None,
        }
    }
}

impl CommandOutput {
    /// Whether the command did what was asked of it. One that reported
    /// failure gives the error that says so; `failure` names what failed.
    pub fn check(&self, failure: &str) -> (result: Result<(), CommandError>)
        ensures
            match result {
                Ok(_) => self.success,
                Err(error) => !self.success && error.message@ == failure_report(
                    failure@,
                    self.stderr@,
                ),
            },
    {
        if self.success {
            Ok(())
        } else {
            let mut message = String::from_str(failure);
            message.append(": ");
            message.append(self.stderr.as_str());
            Err(CommandError { message })
        }
    }
}

} // verus!
