use vstd::prelude::*;

use crate::text::{push_str, str_eq};

verus! {

// ---------------------------------------------------------------------------
// Journal filters of the command line tool.
// ---------------------------------------------------------------------------

/// A component of the desktop whose logs can be read.
#[derive(Debug, Clone, Copy, PartialEq, Eq, Structural)]
pub enum LogComponent {
    Bar,
    Daemon,
    FileManager,
    Indexer,
    Launcher,
    Logout,
    Settings,
}

/// Every component, in the order the tool lists them.
pub open spec fn all_components_spec() -> Seq<LogComponent> {
    seq![
        LogComponent::Bar,
        LogComponent::Daemon,
        LogComponent::FileManager,
        LogComponent::Indexer,
        LogComponent::Launcher,
        LogComponent::Logout,
        LogComponent::Settings,
    ]
}

/// Every component.
pub fn all_log_components() -> (v: Vec<LogComponent>)
    ensures
        v@ == all_components_spec(),
{
    let v = vec![
        LogComponent::Bar,
        LogComponent::Daemon,
        LogComponent::FileManager,
        LogComponent::Indexer,
        LogComponent::Launcher,
        LogComponent::Logout,
        LogComponent::Settings,
    ];
    assert(v@ =~= all_components_spec());
    v
}

/// The syslog identifier and the log target of a component's program.
pub open spec fn component_names(c: LogComponent) -> (Seq<char>, Seq<char>) {
    match c {
        LogComponent::Bar => ("polarbar"@, "bar"@),
        LogComponent::Daemon => ("permafrostd"@, "daemon"@),
        LogComponent::FileManager => ("file-manager"@, "file_manager"@),
        LogComponent::Indexer => ("icepickd"@, "indexer"@),
        LogComponent::Launcher => ("avalaunch"@, "launcher"@),
        LogComponent::Logout => ("iceout"@, "logout"@),
        LogComponent::Settings => ("snowconf"@, "settings"@),
    }
}

/// The journal fields that select a component's entries: its syslog identifier, or its
/// log target.
pub open spec fn log_fields_spec(c: LogComponent) -> Seq<(Seq<char>, Seq<char>)> {
    seq![("SYSLOG_IDENTIFIER"@, component_names(c).0), ("TARGET"@, component_names(c).1)]
}

/// A list of journal matches viewed as character sequences.
pub open spec fn fields_view(v: Seq<(&'static str, &'static str)>) -> Seq<(Seq<char>, Seq<char>)> {
    v.map_values(|p: (&'static str, &'static str)| (p.0@, p.1@))
}

/// The journal fields of a component.
pub fn log_fields(c: LogComponent) -> (v: Vec<(&'static str, &'static str)>)
    ensures
        fields_view(v@) == log_fields_spec(c),
{
    let (identifier, target): (&'static str, &'static str) = match c {
        LogComponent::Bar => ("polarbar", "bar"),
        LogComponent::Daemon => ("permafrostd", "daemon"),
        LogComponent::FileManager => ("file-manager", "file_manager"),
        LogComponent::Indexer => ("icepickd", "indexer"),
        LogComponent::Launcher => ("avalaunch", "launcher"),
        LogComponent::Logout => ("iceout", "logout"),
        LogComponent::Settings => ("snowconf", "settings"),
    };
    let v = vec![("SYSLOG_IDENTIFIER", identifier), ("TARGET", target)];
    assert(fields_view(v@) =~= log_fields_spec(c));
    v
}

/// The fields of several components, one after the other.
pub open spec fn fields_of(cs: Seq<LogComponent>) -> Seq<(Seq<char>, Seq<char>)>
    decreases cs.len(),
{
    if cs.len() == 0 {
        Seq::empty()
    } else {
        fields_of(cs.drop_last()) + log_fields_spec(cs.last())
    }
}

/// The journal matches for the chosen components (every component when none is chosen);
/// the journal takes an entry when any of them matches.
pub fn journal_filter(components: &Vec<LogComponent>) -> (v: Vec<(&'static str, &'static str)>)
    ensures
        fields_view(v@) == fields_of(if components@.len() == 0 { all_components_spec() } else { components@ }),
{
    let cs = if components.len() == 0 {
        all_log_components()
    } else {
        let mut c: Vec<LogComponent> = Vec::new();
        let mut i: usize = 0;
        while i < components.len()
            invariant
                i <= components@.len(),
                c@ == components@.take(i as int),
            decreases components@.len() - i,
        {
            c.push(components[i]);
            assert(components@.take(i + 1) == components@.take(i as int).push(components@[i as int]));
            i = i + 1;
        }
        assert(components@.take(components@.len() as int) == components@);
        c
    };
    let mut v: Vec<(&'static str, &'static str)> = Vec::new();
    let mut i: usize = 0;
    while i < cs.len()
        invariant
            i <= cs@.len(),
            fields_view(v@) == fields_of(cs@.take(i as int)),
        decreases cs@.len() - i,
    {
        let f = log_fields(cs[i]);
        let ghost before = v@;
        let mut k: usize = 0;
        while k < f.len()
            invariant
                k <= f@.len(),
                fields_view(v@) == fields_view(before) + fields_view(f@.take(k as int)),
            decreases f@.len() - k,
        {
            let ghost prev = v@;
            v.push(f[k]);
            let ghost x = f@[k as int];
            assert(f@.take(k + 1) == f@.take(k as int).push(x));
            assert(fields_view(v@) =~= fields_view(prev).push((x.0@, x.1@)));
            assert(fields_view(f@.take(k + 1)) =~= fields_view(f@.take(k as int)).push((x.0@, x.1@)));
            assert(fields_view(v@) =~= fields_view(before) + fields_view(f@.take(k + 1)));
            k = k + 1;
        }
        assert(f@.take(f@.len() as int) == f@);
        assert(cs@.take(i + 1).drop_last() == cs@.take(i as int));
        i = i + 1;
    }
    assert(cs@.take(cs@.len() as int) == cs@);
    v
}

/// Which journals are read.
#[derive(Debug, Clone, Copy, PartialEq, Eq, Structural)]
pub enum JournalScope {
    /// The system journal.
    System,
    /// Every journal that can be read.
    AllUsers,
    /// The journal of the current user.
    CurrentUser,
}

/// The journals to read: the system journal when asked for, else all of them when asked
/// for, else the current user's.
pub fn journal_scope(system: bool, all_users: bool) -> (s: JournalScope)
    ensures
        s == if system {
            JournalScope::System
        } else if all_users {
            JournalScope::AllUsers
        } else {
            JournalScope::CurrentUser
        },
{
    if system {
        JournalScope::System
    } else if all_users {
        JournalScope::AllUsers
    } else {
        JournalScope::CurrentUser
    }
}

/// The label of a syslog priority, `?` for anything else.
pub open spec fn priority_label_spec(p: Seq<char>) -> Seq<char> {
    if p == "0"@ {
        "emerg"@
    } else if p == "1"@ {
        "alert"@
    } else if p == "2"@ {
        "crit"@
    } else if p == "3"@ {
        "error"@
    } else if p == "4"@ {
        "warn"@
    } else if p == "5"@ {
        "notice"@
    } else if p == "6"@ {
        "info"@
    } else if p == "7"@ {
        "debug"@
    } else {
        "?"@
    }
}

/// The label of a syslog priority.
pub fn priority_label(priority: &str) -> (r: &'static str)
    ensures
        r@ == priority_label_spec(priority@),
{
    if str_eq(priority, "0") {
        "emerg"
    } else if str_eq(priority, "1") {
        "alert"
    } else if str_eq(priority, "2") {
        "crit"
    } else if str_eq(priority, "3") {
        "error"
    } else if str_eq(priority, "4") {
        "warn"
    } else if str_eq(priority, "5") {
        "notice"
    } else if str_eq(priority, "6") {
        "info"
    } else if str_eq(priority, "7") {
        "debug"
    } else {
        "?"
    }
}

/// The names of the syslog levels, from emergency (0) down to debug (7).
pub open spec fn syslog_level_names() -> Seq<Seq<char>> {
    seq!["emerg"@, "alert"@, "crit"@, "error"@, "warn"@, "notice"@, "info"@, "debug"@]
}

/// The journal's text for a syslog level: its one decimal digit.
pub open spec fn level_digit(level: nat) -> Seq<char> {
    seq![(level + 48) as char]
}

/// Each syslog level 0 to 7 is labelled with the standard name of that level, so two
/// different levels never share a label.
pub proof fn lemma_priority_labels_are_the_syslog_names(level: nat, other: nat)
    requires
        level < 8,
        other < 8,
    ensures
        priority_label_spec(level_digit(level)) == syslog_level_names()[level as int],
        level != other ==> priority_label_spec(level_digit(level)) != priority_label_spec(level_digit(other)),
{
    reveal_strlit("0");
    reveal_strlit("1");
    reveal_strlit("2");
    reveal_strlit("3");
    reveal_strlit("4");
    reveal_strlit("5");
    reveal_strlit("6");
    reveal_strlit("7");
    reveal_strlit("emerg");
    reveal_strlit("alert");
    reveal_strlit("crit");
    reveal_strlit("error");
    reveal_strlit("warn");
    reveal_strlit("notice");
    reveal_strlit("info");
    reveal_strlit("debug");
    let names = syslog_level_names();
    if level == 0 {
        assert(level_digit(level) =~= "0"@);
        assert(priority_label_spec(level_digit(level)) == "emerg"@);
        assert(names[0] == "emerg"@);
    } else if level == 1 {
        assert(level_digit(level) =~= "1"@);
        assert(level_digit(level)[0] != "0"@[0]);
        assert(priority_label_spec(level_digit(level)) == "alert"@);
        assert(names[1] == "alert"@);
    } else if level == 2 {
        assert(level_digit(level) =~= "2"@);
        assert(level_digit(level)[0] != "0"@[0]);
        assert(level_digit(level)[0] != "1"@[0]);
        assert(priority_label_spec(level_digit(level)) == "crit"@);
        assert(names[2] == "crit"@);
    } else if level == 3 {
        assert(level_digit(level) =~= "3"@);
        assert(level_digit(level)[0] != "0"@[0]);
        assert(level_digit(level)[0] != "1"@[0]);
        assert(level_digit(level)[0] != "2"@[0]);
        assert(priority_label_spec(level_digit(level)) == "error"@);
        assert(names[3] == "error"@);
    } else if level == 4 {
        assert(level_digit(level) =~= "4"@);
        assert(level_digit(level)[0] != "0"@[0]);
        assert(level_digit(level)[0] != "1"@[0]);
        assert(level_digit(level)[0] != "2"@[0]);
        assert(level_digit(level)[0] != "3"@[0]);
        assert(priority_label_spec(level_digit(level)) == "warn"@);
        assert(names[4] == "warn"@);
    } else if level == 5 {
        assert(level_digit(level) =~= "5"@);
        assert(level_digit(level)[0] != "0"@[0]);
        assert(level_digit(level)[0] != "1"@[0]);
        assert(level_digit(level)[0] != "2"@[0]);
        assert(level_digit(level)[0] != "3"@[0]);
        assert(level_digit(level)[0] != "4"@[0]);
        assert(priority_label_spec(level_digit(level)) == "notice"@);
        assert(names[5] == "notice"@);
    } else if level == 6 {
        assert(level_digit(level) =~= "6"@);
        assert(level_digit(level)[0] != "0"@[0]);
        assert(level_digit(level)[0] != "1"@[0]);
        assert(level_digit(level)[0] != "2"@[0]);
        assert(level_digit(level)[0] != "3"@[0]);
        assert(level_digit(level)[0] != "4"@[0]);
        assert(level_digit(level)[0] != "5"@[0]);
        assert(priority_label_spec(level_digit(level)) == "info"@);
        assert(names[6] == "info"@);
    } else {
        assert(level_digit(level) =~= "7"@);
        assert(level_digit(level)[0] != "0"@[0]);
        assert(level_digit(level)[0] != "1"@[0]);
        assert(level_digit(level)[0] != "2"@[0]);
        assert(level_digit(level)[0] != "3"@[0]);
        assert(level_digit(level)[0] != "4"@[0]);
        assert(level_digit(level)[0] != "5"@[0]);
        assert(level_digit(level)[0] != "6"@[0]);
        assert(priority_label_spec(level_digit(level)) == "debug"@);
        assert(names[7] == "debug"@);
    }
    if other == 0 {
        assert(level_digit(other) =~= "0"@);
        assert(priority_label_spec(level_digit(other)) == "emerg"@);
    } else if other == 1 {
        assert(level_digit(other) =~= "1"@);
        assert(level_digit(other)[0] != "0"@[0]);
        assert(priority_label_spec(level_digit(other)) == "alert"@);
    } else if other == 2 {
        assert(level_digit(other) =~= "2"@);
        assert(level_digit(other)[0] != "0"@[0]);
        assert(level_digit(other)[0] != "1"@[0]);
        assert(priority_label_spec(level_digit(other)) == "crit"@);
    } else if other == 3 {
        assert(level_digit(other) =~= "3"@);
        assert(level_digit(other)[0] != "0"@[0]);
        assert(level_digit(other)[0] != "1"@[0]);
        assert(level_digit(other)[0] != "2"@[0]);
        assert(priority_label_spec(level_digit(other)) == "error"@);
    } else if other == 4 {
        assert(level_digit(other) =~= "4"@);
        assert(level_digit(other)[0] != "0"@[0]);
        assert(level_digit(other)[0] != "1"@[0]);
        assert(level_digit(other)[0] != "2"@[0]);
        assert(level_digit(other)[0] != "3"@[0]);
        assert(priority_label_spec(level_digit(other)) == "warn"@);
    } else if other == 5 {
        assert(level_digit(other) =~= "5"@);
        assert(level_digit(other)[0] != "0"@[0]);
        assert(level_digit(other)[0] != "1"@[0]);
        assert(level_digit(other)[0] != "2"@[0]);
        assert(level_digit(other)[0] != "3"@[0]);
        assert(level_digit(other)[0] != "4"@[0]);
        assert(priority_label_spec(level_digit(other)) == "notice"@);
    } else if other == 6 {
        assert(level_digit(other) =~= "6"@);
        assert(level_digit(other)[0] != "0"@[0]);
        assert(level_digit(other)[0] != "1"@[0]);
        assert(level_digit(other)[0] != "2"@[0]);
        assert(level_digit(other)[0] != "3"@[0]);
        assert(level_digit(other)[0] != "4"@[0]);
        assert(level_digit(other)[0] != "5"@[0]);
        assert(priority_label_spec(level_digit(other)) == "info"@);
    } else {
        assert(level_digit(other) =~= "7"@);
        assert(level_digit(other)[0] != "0"@[0]);
        assert(level_digit(other)[0] != "1"@[0]);
        assert(level_digit(other)[0] != "2"@[0]);
        assert(level_digit(other)[0] != "3"@[0]);
        assert(level_digit(other)[0] != "4"@[0]);
        assert(level_digit(other)[0] != "5"@[0]);
        assert(level_digit(other)[0] != "6"@[0]);
        assert(priority_label_spec(level_digit(other)) == "debug"@);
    }
    let (x, y) = (priority_label_spec(level_digit(level)), priority_label_spec(level_digit(other)));
    if level != other && x == y {
        assert(x[0] == y[0] && x[1] == y[1]);
    }
}

/// A priority that is no syslog level digit (0 to 7) is labelled `?`.
pub proof fn lemma_other_priorities_are_unknown(p: Seq<char>)
    requires
        forall|level: nat| level < 8 ==> p != #[trigger] level_digit(level),
    ensures
        priority_label_spec(p) == "?"@,
{
    reveal_strlit("0");
    reveal_strlit("1");
    reveal_strlit("2");
    reveal_strlit("3");
    reveal_strlit("4");
    reveal_strlit("5");
    reveal_strlit("6");
    reveal_strlit("7");
    assert(level_digit(0) =~= "0"@);
    assert(level_digit(1) =~= "1"@);
    assert(level_digit(2) =~= "2"@);
    assert(level_digit(3) =~= "3"@);
    assert(level_digit(4) =~= "4"@);
    assert(level_digit(5) =~= "5"@);
    assert(level_digit(6) =~= "6"@);
    assert(level_digit(7) =~= "7"@);
}

/// The characters of an optional string slice, or a default.
pub open spec fn or_default(s: Option<&str>, d: Seq<char>) -> Seq<char> {
    match s {
        Some(s) => s@,
        None => d,
    }
}

/// The line printed for a journal entry: time stamp, component, priority label and
/// message. A missing time stamp or component shows as `-` (the component is the syslog
/// identifier, else the target), a missing priority as `?`, a missing message as nothing.
pub open spec fn log_line_spec(
    timestamp: Option<&str>,
    identifier: Option<&str>,
    target: Option<&str>,
    priority: Option<&str>,
    message: Option<&str>,
) -> Seq<char> {
    or_default(timestamp, "-"@) + " "@ + (match identifier {
        Some(i) => i@,
        None => or_default(target, "-"@),
    }) + " "@ + (match priority {
        Some(p) => priority_label_spec(p@),
        None => "?"@,
    }) + ": "@ + or_default(message, Seq::empty())
}

/// The line printed for a journal entry.
pub fn log_line(
    timestamp: Option<&str>,
    identifier: Option<&str>,
    target: Option<&str>,
    priority: Option<&str>,
    message: Option<&str>,
) -> (s: String)
    ensures
        s@ == log_line_spec(timestamp, identifier, target, priority, message),
{
    let mut s = String::new();
    push_str(&mut s, match timestamp {
        Some(t) => t,
        None => "-",
    });
    push_str(&mut s, " ");
    push_str(&mut s, match identifier {
        Some(i) => i,
        None => match target {
            Some(t) => t,
            None => "-",
        },
    });
    push_str(&mut s, " ");
    push_str(&mut s, match priority {
        Some(p) => priority_label(p),
        None => "?",
    });
    push_str(&mut s, ": ");
    push_str(&mut s, match message {
        Some(m) => m,
        None => "",
    });
    proof {
        reveal_strlit("");
    }
    assert(s@ =~= log_line_spec(timestamp, identifier, target, priority, message));
    s
}

// ---------------------------------------------------------------------------
// Durations of the command line tool.
// ---------------------------------------------------------------------------

/// What jiff's `SignedDuration` parser gives for a text: the duration's whole seconds and
/// its nanosecond fraction, or the message of its error.
pub uninterp spec fn jiff_signed_duration_parse(text: Seq<char>) -> Result<(i64, i32), Seq<char>>;

/// jiff's `SignedDuration::from_str` (ISO 8601 or jiff's friendly format), with the result
/// read out by `as_secs` and `subsec_nanos`, or the error's message. Which texts parse, and
/// to what, is jiff's and only named here.
#[verifier::external_body]
pub(crate) fn parse_signed_duration(text: &str) -> (r: Result<(i64, i32), String>)
    ensures
        jiff_signed_duration_parse(text@) == match r {
            Ok(d) => Ok(d),
            Err(e) => Err(e@),
        },
{
    match text.parse::<jiff::SignedDuration>() {
        Ok(d) => Ok((d.as_secs(), d.subsec_nanos())),
        Err(e) => Err(e.to_string()),
    }
}

/// Why a duration was refused.
#[derive(Debug)]
pub enum DurationError {
    /// The text is no duration; the parser's message.
    Invalid(String),
    /// The duration lies before zero.
    Negative,
    /// The duration does not fit.
    TooLarge,
}

/// The message of a duration error.
pub open spec fn duration_error_text(e: DurationError) -> Seq<char> {
    match e {
        DurationError::Invalid(m) => m@,
        DurationError::Negative => "duration must not be negative"@,
        DurationError::TooLarge => "duration is too large"@,
    }
}

impl DurationError {
    /// The message of the error.
    pub fn message(&self) -> (r: String)
        ensures
            r@ == duration_error_text(*self),
    {
        match self {
            DurationError::Invalid(m) => m.clone(),
            DurationError::Negative => "duration must not be negative".to_owned(),
            DurationError::TooLarge => "duration is too large".to_owned(),
        }
    }
}

/// A duration of `secs` seconds and `nanos` nanoseconds as whole seconds, a started second
/// counting as one: an error if it is negative.
pub open spec fn whole_seconds_spec(secs: i64, nanos: i32) -> Option<u64> {
    if secs < 0 || nanos < 0 {
        None
    } else if nanos > 0 {
        Some((secs + 1) as u64)
    } else {
        Some(secs as u64)
    }
}

/// A duration as whole seconds, rounded up.
pub fn whole_seconds(secs: i64, nanos: i32) -> (r: Result<u64, DurationError>)
    ensures
        whole_seconds_spec(secs, nanos) matches Some(n) ==> r matches Ok(m) && m == n,
        whole_seconds_spec(secs, nanos) is None ==> r matches Err(DurationError::Negative),
{
    if secs < 0 || nanos < 0 {
        return Err(DurationError::Negative);
    }
    let seconds = secs as u64;
    if nanos > 0 {
        return match seconds.checked_add(1) {
            Some(s) => Ok(s),
            None => Err(DurationError::TooLarge),
        };
    }
    Ok(seconds)
}

/// The number of whole seconds that a duration text asks for (rounded up), for the
/// nightlight's suspend command.
pub fn parse_duration_secs(text: &str) -> (r: Result<u64, DurationError>)
    ensures
        jiff_signed_duration_parse(text@) matches Err(m) ==> r matches Err(DurationError::Invalid(e)) && e@ == m,
        jiff_signed_duration_parse(text@) matches Ok((s, n)) ==> {
            &&& whole_seconds_spec(s, n) matches Some(k) ==> r matches Ok(m) && m == k
            &&& whole_seconds_spec(s, n) is None ==> r matches Err(DurationError::Negative)
        },
{
    match parse_signed_duration(text) {
        Ok((secs, nanos)) => whole_seconds(secs, nanos),
        Err(e) => Err(DurationError::Invalid(e)),
    }
}

} // verus!
