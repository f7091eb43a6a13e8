//! Rules about the containers that the bot manages.

use vstd::prelude::*;
use crate::clock::Span;
use crate::text::{numeral, same};

verus! {

/// The containers that the bot manages.
pub const ALLOWED: [&'static str; 2] = ["mc", "mc-backup"];

pub open spec fn managed(name: Seq<char>) -> bool {
    exists|i: int| 0 <= i < ALLOWED@.len() && name == (#[trigger] ALLOWED@[i])@
}

/// The server and its backup are the containers that the bot manages, and no
/// other is.
pub proof fn law_two_containers_are_managed(name: Seq<char>)
    ensures
        managed(name) <==> name == "mc"@ || name == "mc-backup"@,
{
    assert(ALLOWED@[0]@ == "mc"@ && ALLOWED@[1]@ == "mc-backup"@);
}

/// The bot was asked about a container that it does not manage.
#[derive(Debug, Clone, PartialEq, Eq)]
pub struct Unmanaged {
    pub name: String,
}

/// Refuses every container but the managed ones.
pub fn guard(name: &str) -> (r: Result<(), Unmanaged>)
    ensures
        match r {
            Ok(_) => managed(name@),
            Err(e) => !managed(name@) && e.name@ == name@,
        },
{
    let allowed = ALLOWED;
    for i in 0..allowed.len()
        invariant
            allowed == ALLOWED,
            forall|j: int| 0 <= j < i ==> name@ != (#[trigger] ALLOWED@[j])@,
    {
        if same(name, allowed[i]) {
            assert(name@ == ALLOWED@[i as int]@);
            return Ok(());
        }
    }
    Err(Unmanaged { name: name.to_owned() })
}

/// A string in quotes, with its special characters escaped, as the `Debug`
/// formatting of `str` writes it.
pub uninterp spec fn debug_of(s: Seq<char>) -> Seq<char>;

/// `format!("{:?}", s)`, which is the `Debug` formatting of `str`. Its result
/// depends on the string alone; how it escapes is left unsaid.
#[verifier::external_body]
fn quoted(s: &str) -> (r: String)
    ensures
        r@ == debug_of(s@),
{
    format!("{s:?}")
}

/// The refusal in words, around the quoted name.
pub fn refusal(quoted_name: &str) -> (r: String)
    ensures
        r@ == "container "@ + quoted_name@ + " is not managed by this bot"@,
{
    let mut s = String::from_str("container ");
    s.append(quoted_name);
    s.append(" is not managed by this bot");
    s
}

impl Unmanaged {
    /// The error in words.
    pub fn message(&self) -> (r: String)
        ensures
            r@ == "container "@ + debug_of(self.name@) + " is not managed by this bot"@,
    {
        refusal(quoted(self.name.as_str()).as_str())
    }
}

/// A container status from which neither a start nor a restart recovers.
pub open spec fn wedged(status: Option<Seq<char>>) -> bool {
    ||| status == Some("stopping"@)
    ||| status == Some("removing"@)
    ||| status == Some("dead"@)
    ||| status == Some("paused"@)
}

/// Statuses that podman reports for a container stuck in the middle of its
/// life cycle rather than cleanly stopped or running. Only a removal and
/// re-creation on the host recovers such a container.
pub fn is_wedged(status: Option<&str>) -> (r: bool)
    ensures
        r == wedged(crate::text::opt(status)),
{
    match status {
        Some(s) => same(s, "stopping") || same(s, "removing") || same(s, "dead") || same(
            s,
            "paused",
        ),
        None => false,
    }
}

/// The four statuses of a container that is stuck; a missing status is none of
/// them.
pub proof fn law_four_statuses_are_wedges(status: Option<Seq<char>>)
    ensures
        wedged(status) <==> (status matches Some(word) && (word == "stopping"@ || word
            == "removing"@ || word == "dead"@ || word == "paused"@)),
{
}

// ---------------------------------------------------------------------------
// Replies of the container API
// ---------------------------------------------------------------------------

/// A failed call of the container API.
#[derive(Debug, Clone, PartialEq, Eq)]
pub enum Fault {
    /// The server answered with an error of its own.
    Server { status_code: u16, message: String },
    /// Anything else, in words.
    Other(String),
}

/// A failed call in words, with the server's own explanation kept.
pub open spec fn described(op: Seq<char>, fault: Fault) -> Seq<char> {
    match fault {
        Fault::Server { status_code, message } => op + " failed (HTTP "@ + crate::text::decimal(
            status_code as nat,
        ) + "): "@ + message@,
        Fault::Other(words) => op + " failed: "@ + words@,
    }
}

pub fn describe(op: &str, fault: &Fault) -> (r: String)
    ensures
        r@ == described(op@, *fault),
{
    let mut s = String::from_str(op);
    match fault {
        Fault::Server { status_code, message } => {
            s.append(" failed (HTTP ");
            s.append(numeral(*status_code as u128).as_str());
            s.append("): ");
            s.append(message.as_str());
        },
        Fault::Other(words) => {
            s.append(" failed: ");
            s.append(words.as_str());
        },
    }
    s
}

/// A failed call keeps the operation and everything that the server said.
pub proof fn law_descriptions_keep_the_cause(op: Seq<char>, fault: Fault)
    ensures
        crate::text::occurs_at(described(op, fault), op + " failed"@, 0),
        fault matches Fault::Server { status_code, message } ==> {
            &&& described(op, fault) == op + " failed (HTTP "@ + crate::text::decimal(
                status_code as nat,
            ) + "): "@ + message@
            &&& crate::text::contains(described(op, fault), message@)
            &&& crate::text::contains(
                described(op, fault),
                crate::text::decimal(status_code as nat),
            )
        },
        fault matches Fault::Other(words) ==> crate::text::contains(
            described(op, fault),
            words@,
        ),
{
    reveal_strlit(" failed");
    reveal_strlit(" failed: ");
    reveal_strlit(" failed (HTTP ");
    reveal_strlit("): ");
    let d = described(op, fault);
    assert(d.subrange(0, (op + " failed"@).len() as int) == op + " failed"@);
    match fault {
        Fault::Server { status_code, message } => {
            let code = crate::text::decimal(status_code as nat);
            let i = op.len() as int + 14;
            let j = i + code.len() + 3;
            assert(d.subrange(i, i + code.len()) == code);
            assert(crate::text::occurs_at(d, code, i));
            assert(d.subrange(j, j + message@.len()) == message@);
            assert(crate::text::occurs_at(d, message@, j));
        },
        Fault::Other(words) => {
            let i = op.len() as int + 9;
            assert(d.subrange(i, i + words@.len()) == words@);
            assert(crate::text::occurs_at(d, words@, i));
        },
    }
}

#[derive(Debug, Clone, Copy, PartialEq, Eq, Structural)]
pub enum StartOutcome {
    Started,
    AlreadyRunning,
}

/// What a reply to a start means: the server answers 304 to a container that
/// is running already.
pub fn start_outcome(reply: Result<(), Fault>) -> (r: Result<StartOutcome, String>)
    ensures
        match (reply, r) {
            (Ok(_), r) => r == Ok::<StartOutcome, String>(StartOutcome::Started),
            (Err(Fault::Server { status_code: 304, .. }), r) => r == Ok::<StartOutcome, String>(
                StartOutcome::AlreadyRunning,
            ),
            (Err(f), Err(words)) => words@ == described("start"@, f),
            (Err(_), Ok(_)) => false,
        },
{
    match reply {
        Ok(_) => Ok(StartOutcome::Started),
        Err(fault) => {
            if let Fault::Server { status_code, .. } = &fault {
                if *status_code == 304 {
                    return Ok(StartOutcome::AlreadyRunning);
                }
            }
            Err(describe("start", &fault))
        },
    }
}

/// What a reply to a stop means, where `op` is what the stop is for.
pub fn stop_outcome(op: &str, reply: Result<(), Fault>) -> (r: Result<(), String>)
    ensures
        match (reply, r) {
            (Ok(_), Ok(_)) => true,
            (Err(f), Err(words)) => words@ == described(op@, f),
            _ => false,
        },
{
    match reply {
        Ok(_) => Ok(()),
        Err(fault) => Err(describe(op, &fault)),
    }
}

/// The state of a container. `status` is the server's own word for it:
/// "created", "running", "paused", "restarting", "removing", "exited", "dead",
/// or podman's "stopping".
#[derive(Debug, Clone, PartialEq, Eq)]
pub struct ContainerStatus {
    pub running: bool,
    pub health: Option<String>,
    pub started_at: Option<String>,
    pub exit_code: Option<i64>,
    pub status: Option<String>,
}

/// The state in a reply to an inspection, where every part may be missing.
#[derive(Debug, Clone, PartialEq, Eq)]
pub struct Inspected {
    pub running: Option<bool>,
    pub health: Option<String>,
    pub started_at: Option<String>,
    pub exit_code: Option<i64>,
    pub status: Option<String>,
}

/// The state that a reply tells of.
pub open spec fn status_of(state: Option<Inspected>) -> ContainerStatus {
    match state {
        Some(s) => ContainerStatus {
            running: s.running == Some(true),
            health: s.health,
            started_at: s.started_at,
            exit_code: s.exit_code,
            status: s.status,
        },
        None => ContainerStatus {
            running: false,
            health: None,
            started_at: None,
            exit_code: None,
            status: None,
        },
    }
}

/// What an inspection tells: a container runs only if the reply says so, and
/// everything else is as the reply has it, or missing.
pub proof fn law_an_inspection_is_taken_as_it_is(state: Option<Inspected>)
    ensures
        status_of(state).running <==> (state matches Some(s) && s.running == Some(true)),
        state matches Some(s) ==> {
            &&& status_of(state).health == s.health
            &&& status_of(state).started_at == s.started_at
            &&& status_of(state).exit_code == s.exit_code
            &&& status_of(state).status == s.status
        },
        state is None ==> {
            &&& status_of(state).health is None
            &&& status_of(state).started_at is None
            &&& status_of(state).exit_code is None
            &&& status_of(state).status is None
        },
{
}

/// What a reply to an inspection means: the server answers 404 where there is
/// no such container.
pub fn inspect_outcome(reply: Result<Option<Inspected>, Fault>) -> (r: Result<
    Option<ContainerStatus>,
    String,
>)
    ensures
        match (reply, r) {
            (Ok(state), r) => r == Ok::<Option<ContainerStatus>, String>(Some(status_of(state))),
            (Err(Fault::Server { status_code: 404, .. }), r) => r == Ok::<
                Option<ContainerStatus>,
                String,
            >(None),
            (Err(f), Err(words)) => words@ == described("inspect"@, f),
            (Err(_), Ok(_)) => false,
        },
{
    match reply {
        Ok(Some(s)) => {
            let running: bool = match s.running {
                Some(b) => b,
                None => false,
            };
            Ok(
                Some(
                    ContainerStatus {
                        running,
                        health: s.health,
                        started_at: s.started_at,
                        exit_code: s.exit_code,
                        status: s.status,
                    },
                ),
            )
        },
        Ok(None) => Ok(
            Some(
                ContainerStatus {
                    running: false,
                    health: None,
                    started_at: None,
                    exit_code: None,
                    status: None,
                },
            ),
        ),
        Err(fault) => {
            if let Fault::Server { status_code, .. } = &fault {
                if *status_code == 404 {
                    return Ok(None);
                }
            }
            Err(describe("inspect", &fault))
        },
    }
}

/// Memory in use and its limit, where the server told of both.
pub fn memory(usage: Option<u64>, limit: Option<u64>) -> (r: Option<(u64, u64)>)
    ensures
        r == (match (usage, limit) {
            (Some(u), Some(l)) => Some((u, l)),
            _ => None::<(u64, u64)>,
        }),
{
    match (usage, limit) {
        (Some(u), Some(l)) => Some((u, l)),
        _ => None,
    }
}

// ---------------------------------------------------------------------------
// Restarting
// ---------------------------------------------------------------------------

/// How long a stopped container may take to settle.
pub const SETTLE_SECS: u64 = 150;

/// A status from which a container can be started again.
pub open spec fn settled(status: Option<Seq<char>>) -> bool {
    status == Some("exited"@) || status == Some("created"@)
}

/// What to do next about a container that was stopped to be restarted.
#[derive(Debug, Clone, PartialEq, Eq)]
pub enum Restart {
    Start,
    Wait,
    GiveUp(String),
}

/// The status in words, or `unknown`.
pub open spec fn status_word(status: Option<Seq<char>>, unknown: Seq<char>) -> Seq<char> {
    match status {
        Some(s) => s,
        None => unknown,
    }
}

pub fn word_or<'a>(status: Option<&'a str>, unknown: &'a str) -> (r: &'a str)
    ensures
        r@ == status_word(crate::text::opt(status), unknown@),
{
    match status {
        Some(word) => word,
        None => unknown,
    }
}

/// A container may be started again once it has exited or was only created;
/// and a status is told in its own word, if there is one.
pub proof fn law_what_settles(status: Option<Seq<char>>, unknown: Seq<char>)
    ensures
        settled(status) <==> (status matches Some(word) && (word == "exited"@ || word
            == "created"@)),
        status matches Some(word) ==> status_word(status, unknown) == word,
        status is None ==> status_word(status, unknown) == unknown,
        settled(status) ==> !wedged(status),
{
    reveal_strlit("exited");
    reveal_strlit("created");
    reveal_strlit("stopping");
    reveal_strlit("removing");
    reveal_strlit("dead");
    reveal_strlit("paused");
    assert("exited"@[0] == 'e' && "created"@[0] == 'c');
    assert("stopping"@[0] == 's' && "removing"@[0] == 'r');
    assert("dead"@[0] == 'd' && "paused"@[0] == 'p');
}

/// A restart waits until the container has settled, and gives up rather than
/// start it unsettled. `since_stop` is the time since the stop was answered.
pub fn restart_step(status: Option<&str>, since_stop: Span) -> (r: Restart)
    ensures
        r is Wait ==> since_stop@ < 150_000_000_000,
        r is GiveUp ==> since_stop@ >= 150_000_000_000,
        match r {
            Restart::Start => settled(crate::text::opt(status)),
            Restart::Wait => !settled(crate::text::opt(status)) && since_stop@
                < crate::clock::seconds(SETTLE_SECS as int),
            Restart::GiveUp(words) => !settled(crate::text::opt(status)) && since_stop@
                >= crate::clock::seconds(SETTLE_SECS as int) && words@
                == "restart failed: container did not settle within 150s after stop (status: "@
                + status_word(crate::text::opt(status), "unknown"@) + ")"@,
        },
{
    let is_settled = match status {
        Some(s) => same(s, "exited") || same(s, "created"),
        None => false,
    };
    if is_settled {
        Restart::Start
    } else if since_stop.nanos >= Span::from_secs(SETTLE_SECS).nanos {
        let mut s = String::from_str(
            "restart failed: container did not settle within 150s after stop (status: ",
        );
        s.append(word_or(status, "unknown"));
        s.append(")");
        Restart::GiveUp(s)
    } else {
        Restart::Wait
    }
}

// ---------------------------------------------------------------------------
// Connecting
// ---------------------------------------------------------------------------

/// How often a failed connection is tried again.
pub const RETRIES: u32 = 10;

/// The number of the next try after a failed one; none once all were made.
pub fn next_attempt(attempt: u32) -> (r: Option<u32>)
    ensures
        r is Some <==> attempt < 10,
        r == (if attempt < RETRIES {
            Some((attempt + 1) as u32)
        } else {
            None
        }),
{
    if attempt < RETRIES {
        Some(attempt + 1)
    } else {
        None
    }
}

} // verus!
