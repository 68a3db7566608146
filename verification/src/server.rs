//! The decisions of the HTTP service: what each request is answered with.

use crate::mac::parse_mac;
use crate::packet::{create_magic_packet, magic_packet, MagicPacket};
use crate::text::{is_whitespace, lemma_trimmed_empty, trimmed};
use crate::wake::SendError;
use vstd::prelude::*;
use vstd::string::StringExecFns;

verus! {

/// The status of an answer to a request that was served.
pub const STATUS_OK: u16 = 200;

/// The status of an answer to a request that cannot be served as it is.
pub const STATUS_BAD_REQUEST: u16 = 400;

/// The status of an answer to a request that the service failed to serve.
pub const STATUS_INTERNAL_SERVER_ERROR: u16 = 500;

/// An answer of the service: a status and the message that goes with it.
#[derive(Debug, PartialEq, Eq)]
pub struct Reply {
    /// The HTTP status code.
    pub status: u16,
    /// What the answer says.
    pub message: String,
}

/// What a successful wake-up is answered with.
pub open spec fn sent_text(mac: Seq<char>) -> Seq<char> {
    "Magic packet sent to "@ + mac
}

/// What a greeting says.
pub open spec fn greeting_text(name: Seq<char>) -> Seq<char> {
    "Hello, "@ + name + "!"@
}

/// Takes a request to wake the machine with the address `mac`: gives the
/// magic packet to send or, where `mac` is no address, the answer that
/// refuses the request and says why.
pub fn wakeup(mac: &str) -> (r: Result<MagicPacket, Reply>)
    ensures
        match r {
            Ok(packet) => parse_mac(mac@) is Ok && packet@ == magic_packet(parse_mac(mac@)->Ok_0),
            Err(reply) => parse_mac(mac@) is Err && reply.status == STATUS_BAD_REQUEST
                && reply.message@ == parse_mac(mac@)->Err_0.message(),
        },
{
    match create_magic_packet(mac) {
        Ok(packet) => Ok(packet),
        Err(e) => Err(Reply { status: STATUS_BAD_REQUEST, message: e.to_string() }),
    }
}

/// Answers a request to wake the machine with the address `mac` once the
/// packet has been handed to the network, or has not.
pub fn wakeup_reply(mac: &str, sent: Result<(), SendError>) -> (reply: Reply)
    ensures
        match sent {
            Ok(_) => reply.status == STATUS_OK && reply.message@ == sent_text(mac@),
            Err(e) => reply.status == STATUS_INTERNAL_SERVER_ERROR && reply.message@
                == e.message(),
        },
{
    match sent {
        Ok(_) => Reply {
            status: STATUS_OK,
            message: String::from_str("Magic packet sent to ").concat(mac),
        },
        Err(e) => Reply { status: STATUS_INTERNAL_SERVER_ERROR, message: e.to_string() },
    }
}

/// Greets `name`, without the white space around it; a name of nothing but
/// white space is refused.
pub fn greet(name: &str) -> (reply: Reply)
    ensures
        if forall|i: int| 0 <= i < name@.len() ==> is_whitespace(name@[i]) {
            reply.status == STATUS_BAD_REQUEST && reply.message@ == "name cannot be empty"@
        } else {
            reply.status == STATUS_OK && reply.message@ == greeting_text(trimmed(name@))
        },
{
    proof {
        lemma_trimmed_empty(name@);
    }
    let name = name.trim();
    if name.is_empty() {
        Reply { status: STATUS_BAD_REQUEST, message: String::from_str("name cannot be empty") }
    } else {
        let mut message = String::from_str("Hello, ");
        message.append(name);
        message.append("!");
        Reply { status: STATUS_OK, message }
    }
}

/// How many worker threads the service runs, and what was done to the
/// number that was asked for.
#[derive(Debug, Clone, Copy, PartialEq, Eq)]
pub struct Threads {
    /// The number of threads to run.
    pub count: usize,
    /// Whether no thread was asked for, and one is run.
    pub raised: bool,
    /// Whether more threads than processors were asked for, and as many as
    /// there are processors are run.
    pub capped: bool,
}

/// The number of threads that is asked for: the number given on the command
/// line, else the environment's, else the default.
pub open spec fn wanted_threads(
    default_threads: usize,
    env_threads: Option<usize>,
    threads: Option<usize>,
) -> usize {
    match (threads, env_threads) {
        (Some(n), _) => n,
        (None, Some(n)) => n,
        (None, None) => default_threads,
    }
}

/// Settles how many worker threads the service runs.
///
/// `cores` is the number of processors and `default_threads` the number to
/// run where nothing else is said. At least one thread is run, and no more
/// than there are processors.
pub fn get_num_threads(
    cores: usize,
    default_threads: usize,
    env_threads: Option<usize>,
    threads: Option<usize>,
) -> (chosen: Threads)
    ensures
        chosen.raised == (wanted_threads(default_threads, env_threads, threads) == 0),
        chosen.capped == if chosen.raised {
            1 > cores
        } else {
            wanted_threads(default_threads, env_threads, threads) > cores
        },
        chosen.count == if chosen.capped {
            cores
        } else if chosen.raised {
            1
        } else {
            wanted_threads(default_threads, env_threads, threads)
        },
{
    let mut num_threads = default_threads;
    if let Some(env_threads) = env_threads {
        num_threads = env_threads;
    }
    if let Some(threads) = threads {
        num_threads = threads;
    }
    let raised = num_threads == 0;
    if raised {
        num_threads = 1;
    }
    let capped = num_threads > cores;
    if capped {
        num_threads = cores;
    }
    Threads { count: num_threads, raised, capped }
}

} // verus!
