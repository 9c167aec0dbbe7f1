use vstd::prelude::*;

use crate::text::{chars_of, split_chars, split_on};

verus! {

// ---------------------------------------------------------------------------
// Reconnecting to PipeWire.
// ---------------------------------------------------------------------------

/// The delay before a reconnection attempt, in milliseconds: 250 ms, 500 ms, 1 s, 2 s,
/// then 5 s for every later attempt.
pub open spec fn reconnect_delay_spec(attempt: u32) -> u64 {
    if attempt == 0 {
        250
    } else if attempt == 1 {
        500
    } else if attempt == 2 {
        1000
    } else if attempt == 3 {
        2000
    } else {
        5000
    }
}

/// The delay before a reconnection attempt, in milliseconds.
pub fn reconnect_delay_ms(attempt: u32) -> (d: u64)
    ensures
        d == reconnect_delay_spec(attempt),
{
    match attempt {
        0 => 250,
        1 => 500,
        2 => 1000,
        3 => 2000,
        _ => 5000,
    }
}

/// Later attempts never wait less, and no attempt waits more than five seconds.
pub proof fn lemma_reconnect_delay_grows(a: u32, b: u32)
    requires
        a <= b,
    ensures
        reconnect_delay_spec(a) <= reconnect_delay_spec(b) <= 5000,
{
}

/// The kinds of I/O error that a connection reports.
#[derive(Debug, Clone, Copy, PartialEq, Eq, Structural)]
pub enum IoErrorKind {
    NotConnected,
    ConnectionAborted,
    ConnectionRefused,
    ConnectionReset,
    BrokenPipe,
    UnexpectedEof,
    Other,
}

/// Whether an I/O error means that the connection is gone.
pub fn is_connection_error(kind: IoErrorKind) -> (r: bool)
    ensures
        r == (kind != IoErrorKind::Other),
{
    match kind {
        IoErrorKind::Other => false,
        _ => true,
    }
}

/// What the volume module does next about its PipeWire connection.
#[derive(Debug, Clone, Copy, PartialEq, Eq, Structural)]
pub enum ConnectionAction {
    /// Nothing.
    Wait,
    /// Send a health check on the connection.
    CheckHealth,
    /// Try to connect again after this many milliseconds.
    ReconnectAfter(u64),
}

/// The connection bookkeeping of the volume module: whether it is connected, whether a
/// reconnection is under way and how many have failed in a row, and the health check that
/// waits for its answer (its sequence number).
#[derive(Debug, Clone, Copy, PartialEq, Eq, Structural)]
pub struct ConnectionState {
    pub connected: bool,
    pub reconnect_in_flight: bool,
    pub reconnect_attempt: u32,
    pub pending_health_check: Option<u32>,
}

/// The state and action after a reconnection was asked for.
pub open spec fn schedule_spec(s: ConnectionState) -> (ConnectionState, ConnectionAction) {
    if s.reconnect_in_flight {
        (s, ConnectionAction::Wait)
    } else {
        (
            ConnectionState {
                reconnect_in_flight: true,
                reconnect_attempt: if s.reconnect_attempt == u32::MAX { u32::MAX } else { (s.reconnect_attempt + 1) as u32 },
                ..s
            },
            ConnectionAction::ReconnectAfter(reconnect_delay_spec(s.reconnect_attempt)),
        )
    }
}

/// The state and action after the connection was lost: it is dropped, and a reconnection
/// is asked for.
pub open spec fn lost_spec(s: ConnectionState) -> (ConnectionState, ConnectionAction) {
    schedule_spec(ConnectionState { connected: false, pending_health_check: None, ..s })
}

impl ConnectionState {
    /// Connected, nothing pending.
    pub fn connected() -> (s: Self)
        ensures
            s == (ConnectionState { connected: true, reconnect_in_flight: false, reconnect_attempt: 0, pending_health_check: None }),
    {
        ConnectionState { connected: true, reconnect_in_flight: false, reconnect_attempt: 0, pending_health_check: None }
    }

    /// Asks for a reconnection, unless one is under way: it waits by the number of
    /// failures so far.
    pub fn schedule_reconnect(&mut self) -> (a: ConnectionAction)
        ensures
            (*final(self), a) == schedule_spec(*old(self)),
    {
        if self.reconnect_in_flight {
            return ConnectionAction::Wait;
        }
        self.reconnect_in_flight = true;
        let delay = reconnect_delay_ms(self.reconnect_attempt);
        self.reconnect_attempt = self.reconnect_attempt.saturating_add(1);
        ConnectionAction::ReconnectAfter(delay)
    }

    /// The connection was lost.
    pub fn connection_lost(&mut self) -> (a: ConnectionAction)
        ensures
            (*final(self), a) == lost_spec(*old(self)),
    {
        self.pending_health_check = None;
        self.connected = false;
        self.schedule_reconnect()
    }

    /// A reconnection ended: on success the failures are forgotten; on failure another
    /// one is asked for.
    pub fn reconnect_finished(&mut self, succeeded: bool) -> (a: ConnectionAction)
        ensures
            succeeded ==> a == ConnectionAction::Wait && *final(self) == ConnectionState::connected_spec(),
            !succeeded ==> (*final(self), a) == schedule_spec(ConnectionState { reconnect_in_flight: false, ..*old(self) }),
    {
        self.reconnect_in_flight = false;
        if succeeded {
            self.connected = true;
            self.reconnect_attempt = 0;
            self.pending_health_check = None;
            ConnectionAction::Wait
        } else {
            self.schedule_reconnect()
        }
    }

    /// The periodic health check. Nothing is done while reconnecting; a check that waits
    /// for its answer either timed out (the connection is lost) or keeps waiting; without a
    /// connection a reconnection is asked for; else a new check is sent.
    pub fn health_tick(&mut self, pending_timed_out: bool) -> (a: ConnectionAction)
        ensures
            old(self).reconnect_in_flight ==> a == ConnectionAction::Wait && *final(self) == *old(self),
            !old(self).reconnect_in_flight && old(self).pending_health_check is Some ==> if pending_timed_out {
                (*final(self), a) == lost_spec(*old(self))
            } else {
                a == ConnectionAction::Wait && *final(self) == *old(self)
            },
            !old(self).reconnect_in_flight && old(self).pending_health_check is None ==> if !old(self).connected {
                (*final(self), a) == schedule_spec(*old(self))
            } else {
                a == ConnectionAction::CheckHealth && *final(self) == *old(self)
            },
    {
        if self.reconnect_in_flight {
            return ConnectionAction::Wait;
        }
        if self.pending_health_check.is_some() {
            if pending_timed_out {
                return self.connection_lost();
            }
            return ConnectionAction::Wait;
        }
        if !self.connected {
            return self.schedule_reconnect();
        }
        ConnectionAction::CheckHealth
    }

    /// A health check was sent (its sequence number) or failed to be sent.
    pub fn health_check_sent(&mut self, sent: Result<u32, String>) -> (a: ConnectionAction)
        ensures
            sent matches Ok(seq) ==> a == ConnectionAction::Wait
                && *final(self) == (ConnectionState { pending_health_check: Some(seq), ..*old(self) }),
            sent is Err ==> (*final(self), a) == lost_spec(*old(self)),
    {
        match sent {
            Ok(seq) => {
                self.pending_health_check = Some(seq);
                ConnectionAction::Wait
            },
            Err(_) => self.connection_lost(),
        }
    }

    /// The answer to the health check with this sequence number arrived.
    pub fn health_check_answered(&mut self, seq: u32)
        ensures
            old(self).pending_health_check == Some(seq) ==> *final(self) == (ConnectionState { pending_health_check: None, ..*old(self) }),
            old(self).pending_health_check != Some(seq) ==> *final(self) == *old(self),
    {
        if self.pending_health_check == Some(seq) {
            self.pending_health_check = None;
        }
    }

    /// Connected with nothing pending.
    pub open spec fn connected_spec() -> ConnectionState {
        ConnectionState { connected: true, reconnect_in_flight: false, reconnect_attempt: 0, pending_health_check: None }
    }
}

/// At most one reconnection is under way: asking again while one runs does nothing.
pub proof fn lemma_single_reconnect_in_flight(s: ConnectionState)
    ensures
        schedule_spec(schedule_spec(s).0).1 == ConnectionAction::Wait,
        schedule_spec(s).0.reconnect_in_flight,
{
}

// ---------------------------------------------------------------------------
// Restarting the daemon's services.
// ---------------------------------------------------------------------------

/// The wait before a failed service is started again, in seconds: it starts at one and
/// doubles after each failure, up to thirty.
pub open spec fn next_backoff_spec(secs: u64) -> u64 {
    if secs * 2 < 30 { (secs * 2) as u64 } else { 30 }
}

/// The wait after the next failure.
pub fn next_backoff(secs: u64) -> (r: u64)
    ensures
        r == next_backoff_spec(secs),
{
    if secs < 15 { secs * 2 } else { 30 }
}

/// The wait never exceeds thirty seconds.
pub proof fn lemma_backoff_bounded(secs: u64)
    ensures
        next_backoff_spec(secs) <= 30,
{
}

// ---------------------------------------------------------------------------
// Node names and the service manager.
// ---------------------------------------------------------------------------

/// The properties of a PipeWire node that name it, most preferred first.
pub open spec fn node_name_keys_spec() -> Seq<Seq<char>> {
    seq![
        "node.nick"@,
        "node.description"@,
        "media.name"@,
        "application.name"@,
        "device.description"@,
        "alsa.card_name"@,
        "alsa.long_card_name"@,
        "node.name"@,
        "object.serial"@,
    ]
}

/// The properties of a PipeWire node that name it, most preferred first.
pub fn node_name_keys() -> (v: Vec<&'static str>)
    ensures
        v@.map_values(|s: &'static str| s@) == node_name_keys_spec(),
{
    let v = vec![
        "node.nick",
        "node.description",
        "media.name",
        "application.name",
        "device.description",
        "alsa.card_name",
        "alsa.long_card_name",
        "node.name",
        "object.serial",
    ];
    assert(v@.map_values(|s: &'static str| s@) =~= node_name_keys_spec());
    v
}

/// The first value that is present.
pub open spec fn first_present(values: Seq<Option<String>>) -> Option<Seq<char>>
    decreases values.len(),
{
    if values.len() == 0 {
        None
    } else {
        match values[0] {
            Some(v) => Some(v@),
            None => first_present(values.skip(1)),
        }
    }
}

/// What serde_json finds in a text read as a JSON value: the string under the key
/// `name`, or none when the text is no JSON, has no such key, or holds no string there.
pub uninterp spec fn json_name_field(text: Seq<char>) -> Option<Seq<char>>;

/// serde_json's `from_str` into a `serde_json::Value`, then `get("name")` and `as_str`.
/// Which texts parse, and what they hold, is serde_json's and only named here.
#[verifier::external_body]
fn parse_json_name(text: &str) -> (r: Option<String>)
    ensures
        json_name_field(text@) == match r {
            Some(s) => Some(s@),
            None => None,
        },
{
    let json: serde_json::Value = match serde_json::from_str(text) {
        Ok(v) => v,
        Err(_) => return None,
    };
    match json.get("name") {
        Some(v) => match v.as_str() {
            Some(s) => Some(s.to_owned()),
            None => None,
        },
        None => None,
    }
}

/// The name of the default audio node, from the value that PipeWire's metadata holds for
/// it: the JSON object's `name` string.
pub fn default_node_name(value: Option<&str>) -> (r: Option<String>)
    ensures
        value is None ==> r is None,
        value matches Some(v) ==> match json_name_field(v@) {
            Some(n) => r matches Some(s) && s@ == n,
            None => r is None,
        },
{
    match value {
        Some(v) => parse_json_name(v),
        None => None,
    }
}

/// The name of a node: the first of its naming properties (read in the order of
/// `node_name_keys`) that it has.
pub fn node_name(values: &Vec<Option<String>>) -> (r: Option<String>)
    ensures
        match r {
            Some(s) => first_present(values@) == Some(s@),
            None => first_present(values@) is None,
        },
{
    let mut i: usize = 0;
    assert(values@.skip(0) =~= values@);
    while i < values.len()
        invariant
            i <= values@.len(),
            first_present(values@) == first_present(values@.skip(i as int)),
        decreases values@.len() - i,
    {
        assert(values@.skip(i as int)[0] == values@[i as int]);
        assert(values@.skip(i as int).skip(1) =~= values@.skip(i + 1));
        if let Some(v) = &values[i] {
            return Some(v.clone());
        }
        i = i + 1;
    }
    None
}

/// Whether a text ends with `.service`.
pub open spec fn is_service_unit(part: Seq<char>) -> bool {
    let suffix = ".service"@;
    suffix.len() <= part.len() && part.skip(part.len() - suffix.len()) == suffix
}

/// A line without the carriage return that may end it.
pub open spec fn without_cr(line: Seq<char>) -> Seq<char> {
    if line.len() > 0 && line.last() == '\r' { line.drop_last() } else { line }
}

/// The path of a cgroup line: what follows its last `:`, or the whole line (a carriage
/// return at its end left out).
pub open spec fn cgroup_path(line: Seq<char>) -> Seq<char> {
    split_on(without_cr(line), ':').last()
}

/// Whether a process runs as a service of the service manager: some line of its cgroup
/// file has a path with a component that ends in `.service`.
pub open spec fn runs_as_service_spec(cgroup: Seq<char>) -> bool {
    exists|i: int, j: int|
        0 <= i < split_on(cgroup, '\n').len()
        && 0 <= j < split_on(cgroup_path(split_on(cgroup, '\n')[i]), '/').len()
        && is_service_unit(#[trigger] split_on(cgroup_path(split_on(cgroup, '\n')[i]), '/')[j])
}

fn ends_with_service(part: &[char]) -> (r: bool)
    ensures
        r == is_service_unit(part@),
{
    let suffix = chars_of(".service");
    if suffix.len() > part.len() {
        return false;
    }
    let n = part.len();
    let start = n - suffix.len();
    let mut k: usize = 0;
    while k < suffix.len()
        invariant
            k <= suffix@.len(),
            n == part@.len(),
            start + suffix@.len() == part@.len(),
            suffix@ == ".service"@,
            forall|j: int| 0 <= j < k ==> part@[start + j] == suffix@[j],
        decreases suffix@.len() - k,
    {
        if part[start + k] != suffix[k] {
            assert(part@.skip(start as int)[k as int] != suffix@[k as int]);
            return false;
        }
        k = k + 1;
    }
    assert(part@.skip(start as int) =~= suffix@);
    true
}

/// Whether a process with this cgroup file content runs as a service. Lines are separated
/// by newlines (`\r\n` counts as one).
pub fn runs_as_service(cgroup: &str) -> (r: bool)
    ensures
        r == runs_as_service_spec(cgroup@),
{
    let text = chars_of(cgroup);
    let lines = split_chars(text.as_slice(), '\n');
    let ghost ls = split_on(cgroup@, '\n');
    assert(lines@.map_values(|p: Vec<char>| p@) == ls);
    let mut i: usize = 0;
    while i < lines.len()
        invariant
            i <= lines@.len(),
            lines@.map_values(|p: Vec<char>| p@) == ls,
            ls == split_on(cgroup@, '\n'),
            forall|a: int, b: int| 0 <= a < i && 0 <= b < split_on(cgroup_path(ls[a]), '/').len()
                ==> !is_service_unit(#[trigger] split_on(cgroup_path(ls[a]), '/')[b]),
        decreases lines@.len() - i,
    {
        assert(lines@[i as int]@ == ls[i as int]);
        let line = lines[i].as_slice();
        let n = line.len();
        let trimmed = if n > 0 && line[n - 1] == '\r' { &line[0..n - 1] } else { line };
        assert(trimmed@ == without_cr(ls[i as int]));
        let parts_of_line = split_chars(trimmed, ':');
        proof {
            crate::text::lemma_split_on_len(without_cr(ls[i as int]), ':');
        }
        let last = parts_of_line.len() - 1;
        assert(parts_of_line@[last as int]@ == cgroup_path(ls[i as int]));
        let parts = split_chars(parts_of_line[last].as_slice(), '/');
        let mut j: usize = 0;
        while j < parts.len()
            invariant
                j <= parts@.len(),
                parts@.map_values(|p: Vec<char>| p@) == split_on(cgroup_path(ls[i as int]), '/'),
                ls == split_on(cgroup@, '\n'),
                i < ls.len(),
                forall|b: int| 0 <= b < j ==> !is_service_unit(#[trigger] split_on(cgroup_path(ls[i as int]), '/')[b]),
            decreases parts@.len() - j,
        {
            assert(parts@[j as int]@ == split_on(cgroup_path(ls[i as int]), '/')[j as int]);
            if ends_with_service(parts[j].as_slice()) {
                assert(is_service_unit(split_on(cgroup_path(split_on(cgroup@, '\n')[i as int]), '/')[j as int]));
                return true;
            }
            j = j + 1;
        }
        i = i + 1;
    }
    false
}

} // verus!
