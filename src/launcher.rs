//! The supervisor's own decisions: which program a name stands for, how its
//! executable and arguments are formed, and when a stopping child is killed.

use vstd::prelude::*;

verus! {

#[derive(Debug, PartialEq, Eq, Structural)]
pub enum LauncherError {
    TGBotError,
    ServerError,
    RouterError,
}

#[derive(Debug, PartialEq, Eq, Structural)]
pub enum ProgramName {
    TGBot,
    GrpcServer,
    Router,
}

/// Relies on std's `str` equality: true exactly when both hold the same
/// characters.
#[verifier::external_body]
fn same_text(a: &str, b: &str) -> (r: bool)
    ensures
        r == (a@ == b@),
{
    a == b
}

/// The program a launcher name stands for.
pub open spec fn program_named(s: Seq<char>) -> Option<ProgramName> {
    if s == "telegram_bot"@ {
        Some(ProgramName::TGBot)
    } else if s == "grpc_server"@ {
        Some(ProgramName::GrpcServer)
    } else if s == "router"@ {
        Some(ProgramName::Router)
    } else {
        None
    }
}

/// The executable's file name for each program.
pub open spec fn executable_name(p: ProgramName) -> Seq<char> {
    match p {
        ProgramName::TGBot => "telegram_bot"@,
        ProgramName::GrpcServer => "server"@,
        ProgramName::Router => "router"@,
    }
}

/// Where development builds of the executables live.
pub open spec fn debug_prefix() -> Seq<char> {
    "/Users/amarkov/Documents/Projects/rust/batching_service/target/debug/"@
}

/// The decimal digits of `n`, most significant first, without leading zeros.
pub open spec fn decimal(n: nat) -> Seq<char>
    decreases n,
{
    if n < 10 {
        seq!["0123456789"@[n as int]]
    } else {
        decimal(n / 10) + seq!["0123456789"@[(n % 10) as int]]
    }
}

/// Appends the decimal digits of `n`.
fn push_decimal(s: &mut String, n: u16)
    ensures
        final(s)@ == old(s)@ + decimal(n as nat),
    decreases n,
{
    let digits: &str = "0123456789";
    proof {
        reveal_strlit("0123456789");
    }
    if n >= 10 {
        push_decimal(s, n / 10);
    }
    let d: usize = (n % 10) as usize;
    let one = digits.substring_char(d, d + 1);
    proof {
        assert(one@ =~= seq!["0123456789"@[d as int]]);
    }
    s.append(one);
    proof {
        assert(s@ =~= old(s)@ + decimal(n as nat));
    }
}

/// `address:port`.
pub open spec fn host_port(address: Seq<char>, port: u16) -> Seq<char> {
    address + ":"@ + decimal(port as nat)
}

fn format_host_port(address: &str, port: u16) -> (r: String)
    ensures
        r@ == host_port(address@, port),
{
    let mut s = String::from_str(address);
    s.append(":");
    push_decimal(&mut s, port);
    s
}

impl ProgramName {
    pub fn from_str(program_name: &str) -> (r: Option<Self>)
        ensures
            r == program_named(program_name@),
    {
        if same_text(program_name, "telegram_bot") {
            Some(ProgramName::TGBot)
        } else if same_text(program_name, "grpc_server") {
            Some(ProgramName::GrpcServer)
        } else if same_text(program_name, "router") {
            Some(ProgramName::Router)
        } else {
            None
        }
    }

    /// The error reported when this program cannot be started.
    pub fn get_error(&self) -> (r: LauncherError)
        ensures
            r == match *self {
                ProgramName::TGBot => LauncherError::TGBotError,
                ProgramName::GrpcServer => LauncherError::ServerError,
                ProgramName::Router => LauncherError::RouterError,
            },
    {
        match self {
            ProgramName::TGBot => LauncherError::TGBotError,
            ProgramName::GrpcServer => LauncherError::ServerError,
            ProgramName::Router => LauncherError::RouterError,
        }
    }

    /// The executable to run: its bare name, or under the development build
    /// directory in debug mode.
    pub fn get_executable(&self, debug: bool) -> (r: String)
        ensures
            r@ == if debug { debug_prefix() + executable_name(*self) } else { executable_name(*self) },
    {
        let name: &str = match self {
            ProgramName::TGBot => "telegram_bot",
            ProgramName::GrpcServer => "server",
            ProgramName::Router => "router",
        };
        if debug {
            let prefix = String::from_str("/Users/amarkov/Documents/Projects/rust/batching_service/target/debug/");
            prefix.concat(name)
        } else {
            String::from_str(name)
        }
    }
}

/// What the launcher was started with.
pub struct LaunchArgs {
    pub reply_server_address: String,
    pub reply_server_port: u16,
    pub grpc_port: u16,
    pub tg_token: String,
    pub debug: bool,
}

/// The command-line arguments each program is started with.
pub open spec fn arguments_for(a: LaunchArgs, p: ProgramName) -> Seq<Seq<char>> {
    match p {
        ProgramName::GrpcServer => seq!["--port"@, decimal(a.grpc_port as nat)],
        ProgramName::Router => seq![
            "--address"@,
            host_port(a.reply_server_address@, a.reply_server_port),
            "--grpc-address"@,
            host_port("127.0.0.1"@, a.grpc_port),
        ],
        ProgramName::TGBot => seq![
            "--reply-server-address"@,
            host_port(a.reply_server_address@, a.reply_server_port),
            "--tg-token"@,
            a.tg_token@,
        ],
    }
}

pub open spec fn strings_of(v: Seq<String>) -> Seq<Seq<char>> {
    v.map_values(|s: String| s@)
}

impl LaunchArgs {
    pub fn get_arguments(&self, program_name: &ProgramName) -> (r: Vec<String>)
        ensures
            strings_of(r@) == arguments_for(*self, *program_name),
    {
        let mut v: Vec<String> = Vec::new();
        match program_name {
            ProgramName::GrpcServer => {
                v.push(String::from_str("--port"));
                let mut port = String::new();
                push_decimal(&mut port, self.grpc_port);
                v.push(port);
            },
            ProgramName::Router => {
                v.push(String::from_str("--address"));
                v.push(format_host_port(self.reply_server_address.as_str(), self.reply_server_port));
                v.push(String::from_str("--grpc-address"));
                v.push(format_host_port("127.0.0.1", self.grpc_port));
            },
            ProgramName::TGBot => {
                v.push(String::from_str("--reply-server-address"));
                v.push(format_host_port(self.reply_server_address.as_str(), self.reply_server_port));
                v.push(String::from_str("--tg-token"));
                v.push(self.tg_token.clone());
            },
        }
        proof {
            assert(strings_of(v@) =~= arguments_for(*self, *program_name));
        }
        v
    }
}

/// What to do next with a child that was asked to terminate.
#[derive(Debug, PartialEq, Eq, Structural)]
pub enum StopAction {
    /// It has exited: done.
    Done,
    /// Check again after a pause.
    Wait,
    /// The grace period is over: kill it.
    Kill,
}

/// The graceful-then-forced shutdown of one child: it may exit on its own
/// until `elapsed_ms` reaches `grace_ms`, after which it is killed.
pub fn stop_step(exited: bool, elapsed_ms: u64, grace_ms: u64) -> (r: StopAction)
    ensures
        exited ==> r == StopAction::Done,
        !exited && elapsed_ms < grace_ms ==> r == StopAction::Wait,
        !exited && elapsed_ms >= grace_ms ==> r == StopAction::Kill,
{
    if exited {
        StopAction::Done
    } else if elapsed_ms < grace_ms {
        StopAction::Wait
    } else {
        StopAction::Kill
    }
}

} // verus!
