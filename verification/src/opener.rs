//! What to do with one decoded request: which command to run, and what to
//! answer once it has been tried.
//!
//! Opening is best effort. The answer to the caller is the same whether the
//! opener ran, failed, or could not be started at all; a failure only leaves
//! a line for the error log.

use vstd::prelude::*;

verus! {

/// The largest request body, in bytes, that is taken in.
pub const MAX_BODY_BYTES: u64 = 32768;

/// The status of every answer to a decoded request.
pub const STATUS_OK: u16 = 200;

/// A request to open a URL, as decoded from a request body.
#[derive(Clone, Debug, PartialEq, Eq)]
pub struct Url {
    /// The URL to open. It is passed on as it came, unchecked.
    pub url: String,
}

/// A command to run: the program and its arguments, in order.
#[derive(Clone, Debug, PartialEq, Eq)]
pub struct Invocation {
    pub program: String,
    pub args: Vec<String>,
}

/// What an [`Invocation`] says, as plain text.
pub struct InvocationView {
    pub program: Seq<char>,
    pub args: Seq<Seq<char>>,
}

impl View for Invocation {
    type V = InvocationView;

    open spec fn view(&self) -> InvocationView {
        InvocationView {
            program: self.program@,
            args: Seq::new(self.args@.len(), |i: int| self.args@[i]@),
        }
    }
}

/// How running the opener went.
#[derive(Clone, Debug, PartialEq, Eq)]
pub enum Launch {
    /// The opener was started and has exited, with whatever status.
    Completed,
    /// The opener could not be started or run; the text says why.
    Failed(String),
}

/// An answer to the caller.
#[derive(Clone, Debug, PartialEq, Eq)]
pub struct Reply {
    pub status: u16,
    pub body: Vec<u8>,
}

/// How a request ends: the answer, and a line for the error log if there is
/// something to report.
#[derive(Clone, Debug, PartialEq, Eq)]
pub struct Outcome {
    pub reply: Reply,
    pub error_log: Option<String>,
}

/// The name of the opener program.
pub open spec fn opener_program() -> Seq<char> {
    "wslview"@
}

/// The command that opens `url`: the opener, with the URL as its only
/// argument. The mode flag has no effect on it.
pub open spec fn open_command(url: Seq<char>, wsl: bool) -> InvocationView {
    InvocationView { program: opener_program(), args: seq![url] }
}

/// Plans the handling of a decoded request: the opener, with the URL as its
/// only argument. The URL is moved into the command as it is.
pub fn handle_url(url: Url, wsl: bool) -> (cmd: Invocation)
    ensures
        cmd@ == open_command(url.url@, wsl),
        cmd.args@ == seq![url.url],
{
    let mut args: Vec<String> = Vec::new();
    args.push(url.url);
    let cmd = Invocation { program: "wslview".to_owned(), args };
    proof {
        assert(cmd@.args =~= seq![url.url@]);
    }
    cmd
}

/// Settles a request once the opener has been tried. The answer is always
/// an empty success; a failure is handed to the error log and goes no
/// further.
pub fn conclude(launch: Launch) -> (out: Outcome)
    ensures
        out.reply.status == STATUS_OK,
        out.reply.body@ == Seq::<u8>::empty(),
        match launch {
            Launch::Completed => out.error_log is None,
            Launch::Failed(why) => out.error_log == Some(why),
        },
{
    let reply = Reply { status: STATUS_OK, body: Vec::new() };
    match launch {
        Launch::Completed => Outcome { reply, error_log: None },
        Launch::Failed(why) => Outcome { reply, error_log: Some(why) },
    }
}

/// The mode flag is inert: the same command opens a URL with and without it.
pub proof fn lemma_mode_flag_is_inert(url: Seq<char>)
    ensures
        open_command(url, true) == open_command(url, false),
{
}

} // verus!
