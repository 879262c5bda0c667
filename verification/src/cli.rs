//! The tunnel client's command line: what it reports for each command.

use vstd::prelude::*;
use crate::text::{decimal, lemma_parse_decimal, parsed_u16, u16_to_decimal};

verus! {

/// The commands of the tunnel client.
pub enum Commands {
    /// Authentication.
    Auth { token: String },
    /// Start a TCP tunnel to a local port.
    Tcp { port: u16 },
    /// Start a UDP tunnel to a local port.
    Udp { port: u16 },
}

/// The line the client prints for `command`.
pub open spec fn command_notice_text(command: Commands) -> Seq<char> {
    match command {
        Commands::Auth { token } => "token "@ + token@,
        Commands::Tcp { port } => "forwarding tcp connections to "@ + decimal(port as nat),
        Commands::Udp { port } => "forwarding udp connections to "@ + decimal(port as nat),
    }
}

/// The line the client prints for `command`.
pub fn command_notice(command: &Commands) -> (r: String)
    ensures
        r@ == command_notice_text(*command),
{
    match command {
        Commands::Auth { token } => {
            let mut line = String::from_str("token ");
            line.append(token.as_str());
            line
        },
        Commands::Tcp { port } => {
            let mut line = String::from_str("forwarding tcp connections to ");
            let digits = u16_to_decimal(*port);
            line.append(digits.as_str());
            line
        },
        Commands::Udp { port } => {
            let mut line = String::from_str("forwarding udp connections to ");
            let digits = u16_to_decimal(*port);
            line.append(digits.as_str());
            line
        },
    }
}

/// What each notice says, for every command: a TCP command's notice is
/// `forwarding tcp connections to ` and a UDP command's is
/// `forwarding udp connections to `, each followed by the port in decimal,
/// which reads back as the port; an auth command's is `token ` followed by
/// the token as given.
pub proof fn lemma_command_notice_reads_back(command: Commands)
    ensures
        match command {
            Commands::Auth { token } => {
                &&& command_notice_text(command).take(6) =~= seq!['t', 'o', 'k', 'e', 'n', ' ']
                &&& command_notice_text(command).skip(6) == token@
            },
            Commands::Tcp { port } => {
                &&& command_notice_text(command).take(30) =~= "forwarding "@ + seq!['t', 'c', 'p']
                    + " connections to "@
                &&& command_notice_text(command)[11] == 't'
                &&& parsed_u16(command_notice_text(command).skip(30)) == Some(port)
            },
            Commands::Udp { port } => {
                &&& command_notice_text(command).take(30) =~= "forwarding "@ + seq!['u', 'd', 'p']
                    + " connections to "@
                &&& command_notice_text(command)[11] == 'u'
                &&& parsed_u16(command_notice_text(command).skip(30)) == Some(port)
            },
        },
{
    reveal_strlit("token ");
    reveal_strlit("forwarding tcp connections to ");
    reveal_strlit("forwarding udp connections to ");
    reveal_strlit("forwarding ");
    reveal_strlit(" connections to ");
    let t = command_notice_text(command);
    match command {
        Commands::Auth { token } => {
            assert(t.skip(6) =~= token@);
        },
        Commands::Tcp { port } => {
            lemma_parse_decimal(port);
            assert(t.skip(30) =~= decimal(port as nat));
        },
        Commands::Udp { port } => {
            lemma_parse_decimal(port);
            assert(t.skip(30) =~= decimal(port as nat));
        },
    }
}

} // verus!
