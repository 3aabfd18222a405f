//! The control connection to QEMU: one JSON object per line in both directions.

use vstd::prelude::*;

use crate::ids::{hex_digit, lemma_hex_digit};
use crate::text::{concat2, concat3, opt_text};

verus! {

/// How long QEMU is given to open its control socket.
pub const CONNECT_TIMEOUT_MS: u64 = 10_000;

/// How long to wait between two attempts to connect.
pub const CONNECT_RETRY_MS: u64 = 80;

// ---------------------------------------------------------------- JSON

/// A character inside a JSON string: quotes, backslashes and control characters are escaped.
pub open spec fn escaped(c: char) -> Seq<char> {
    let n = c as int;
    if c == '"' || c == '\\' {
        seq!['\\', c]
    } else if n == 8 {
        seq!['\\', 'b']
    } else if n == 9 {
        seq!['\\', 't']
    } else if n == 10 {
        seq!['\\', 'n']
    } else if n == 12 {
        seq!['\\', 'f']
    } else if n == 13 {
        seq!['\\', 'r']
    } else if n < 32 {
        seq!['\\', 'u', '0', '0', hex_digit(n / 16), hex_digit(n % 16)]
    } else {
        seq![c]
    }
}

/// The characters of a text as they stand inside a JSON string.
pub open spec fn escaped_text(s: Seq<char>) -> Seq<char>
    decreases s.len(),
{
    if s.len() == 0 {
        Seq::empty()
    } else {
        escaped_text(s.drop_last()) + escaped(s.last())
    }
}

/// A text as a JSON string.
pub open spec fn json_string(s: Seq<char>) -> Seq<char> {
    seq!['"'] + escaped_text(s) + seq!['"']
}

/// What `serde_json` displays for `Value::String`: the text in double quotes, with quotes,
/// backslashes and control characters escaped and everything else as it is.
#[verifier::external_body]
fn json_quoted(s: &str) -> (r: String)
    ensures
        r@ == json_string(s@),
{
    serde_json::Value::String(s.to_owned()).to_string()
}

/// A JSON value as `serde_json` holds it.
#[verifier::external_type_specification]
#[verifier::external_body]
pub struct ExJsonValue(serde_json::Value);

/// What a JSON value holds: the members of an object, each under its key as a JSON text. A value
/// that is no object holds nothing.
pub uninterp spec fn json_members(v: serde_json::Value) -> Map<Seq<char>, Seq<char>>;

/// What `json_parse` gives for a text: what the value holds, or the text of the error.
pub uninterp spec fn json_parsed(text: Seq<char>) -> Result<Map<Seq<char>, Seq<char>>, Seq<char>>;

/// Parses a text with `serde_json::from_str`: the value, or the text of the parser's error. The
/// outcome depends on the text alone; what it is, is not stated.
#[verifier::external_body]
fn json_parse(text: &str) -> (r: Result<serde_json::Value, String>)
    ensures
        json_parsed(text@) == match r {
            Ok(v) => Ok(json_members(v)),
            Err(e) => Err(e@),
        },
{
    serde_json::from_str::<serde_json::Value>(text).map_err(|e| e.to_string())
}

/// Looks a member up with `serde_json::Value::get` and displays it: its JSON text, or nothing where
/// the value is no object or has no such member.
#[verifier::external_body]
fn json_member(v: &serde_json::Value, key: &str) -> (r: Option<String>)
    ensures
        opt_text(r) == member_of(json_members(*v), key@),
{
    v.get(key).map(|m| m.to_string())
}

/// The member under a key, where there is one.
pub open spec fn member_of(m: Map<Seq<char>, Seq<char>>, key: Seq<char>) -> Option<Seq<char>> {
    if m.contains_key(key) {
        Some(m[key])
    } else {
        None
    }
}

// ---------------------------------------------------------------- messages

/// The line that asks QEMU to execute a command, with the JSON text of its arguments where it has
/// some.
pub open spec fn request_line(cmd: Seq<char>, args: Option<Seq<char>>) -> Seq<char> {
    (match args {
        Some(a) => "{\"arguments\":"@ + a + ",\"execute\":"@,
        None => "{\"execute\":"@,
    }) + json_string(cmd) + "}\n"@
}

/// What a line from QEMU means for the command that was sent.
#[derive(Debug, Clone, PartialEq, Eq)]
pub enum QmpStep {
    /// The command succeeded, with this JSON text as its result.
    Return(String),
    /// The command failed, or the connection did.
    Fail(String),
    /// The line is about something else.
    Skip,
}

/// What a step says.
pub enum QmpStepView {
    Return(Seq<char>),
    Fail(Seq<char>),
    Skip,
}

impl View for QmpStep {
    type V = QmpStepView;

    open spec fn view(&self) -> QmpStepView {
        match self {
            QmpStep::Return(s) => QmpStepView::Return(s@),
            QmpStep::Fail(s) => QmpStepView::Fail(s@),
            QmpStep::Skip => QmpStepView::Skip,
        }
    }
}

/// What a message says to the command that was sent: the JSON texts of its members `return` and
/// `error`.
#[derive(Debug, Clone, PartialEq, Eq)]
pub struct Reply {
    pub ret: Option<String>,
    pub error: Option<String>,
}

/// What a message means, given its members `return` and `error`: a result goes before an error, and
/// a message with neither is skipped.
pub open spec fn step_of(ret: Option<Seq<char>>, error: Option<Seq<char>>) -> QmpStepView {
    match (ret, error) {
        (Some(r), _) => QmpStepView::Return(r),
        (None, Some(e)) => QmpStepView::Fail("QMP error: "@ + e),
        (None, None) => QmpStepView::Skip,
    }
}

/// What to do after an attempt to connect.
#[derive(Debug, Clone, PartialEq, Eq)]
pub enum ConnectStep {
    Proceed,
    /// Try again after so many milliseconds.
    Retry(u64),
    Fail(String),
}

/// The control connection, as lines to send and readings of lines.
pub struct QmpClient {}

impl QmpClient {
    /// Decides what follows an attempt to connect, `elapsed_ms` after the first one: QEMU may need
    /// a while to open its socket.
    pub fn connect(attempt: Result<(), String>, elapsed_ms: u64) -> (r: ConnectStep)
        ensures
            r == match attempt {
                Ok(_) => ConnectStep::Proceed,
                Err(e) => if elapsed_ms < CONNECT_TIMEOUT_MS {
                    ConnectStep::Retry(CONNECT_RETRY_MS)
                } else {
                    ConnectStep::Fail(e)
                },
            },
    {
        match attempt {
            Ok(_) => ConnectStep::Proceed,
            Err(e) => if elapsed_ms < CONNECT_TIMEOUT_MS {
                ConnectStep::Retry(CONNECT_RETRY_MS)
            } else {
                ConnectStep::Fail(e)
            },
        }
    }

    /// Answers the greeting, which must be a JSON text: the line that ends the negotiation. A line
    /// that is absent means that the connection was closed.
    pub fn greeted(line: Option<&str>) -> (r: Result<String, String>)
        ensures
            match line {
                None => r matches Err(m) && m@ == "QMP closed"@,
                Some(l) => match json_parsed(l@) {
                    Ok(_) => r matches Ok(s) && s@ == request_line("qmp_capabilities"@, None),
                    Err(e) => r matches Err(m) && m@ == e,
                },
            },
    {
        match line {
            None => Err("QMP closed".to_owned()),
            Some(l) => match json_parse(l) {
                Ok(_) => QmpClient::negotiate(Ok(())),
                Err(e) => QmpClient::negotiate(Err(e)),
            },
        }
    }

    /// The line that ends the negotiation, once the greeting has been parsed.
    pub fn negotiate(greeting: Result<(), String>) -> (r: Result<String, String>)
        ensures
            match greeting {
                Ok(_) => r matches Ok(s) && s@ == request_line("qmp_capabilities"@, None),
                Err(e) => r == Err::<String, String>(e),
            },
    {
        match greeting {
            Ok(_) => Ok(QmpClient::execute("qmp_capabilities", None)),
            Err(e) => Err(e),
        }
    }

    /// The line that asks to execute a command. The arguments are a JSON text.
    pub fn execute(cmd: &str, args: Option<&str>) -> (r: String)
        ensures
            r@ == request_line(
                cmd@,
                match args {
                    Some(a) => Some(a@),
                    None => None,
                },
            ),
    {
        let quoted = json_quoted(cmd);
        let head = match args {
            Some(a) => concat3("{\"arguments\":", a, ",\"execute\":"),
            None => "{\"execute\":".to_owned(),
        };
        concat3(head.as_str(), quoted.as_str(), "}\n")
    }

    /// What a message means, once it has been parsed.
    pub fn judge(message: Result<Reply, String>) -> (r: QmpStep)
        ensures
            r@ == match message {
                Ok(m) => step_of(opt_text(m.ret), opt_text(m.error)),
                Err(e) => QmpStepView::Fail(e@),
            },
    {
        match message {
            Ok(m) => match (m.ret, m.error) {
                (Some(v), _) => QmpStep::Return(v),
                (None, Some(e)) => QmpStep::Fail(concat2("QMP error: ", e.as_str())),
                (None, None) => QmpStep::Skip,
            },
            Err(e) => QmpStep::Fail(e),
        }
    }

    /// Reads a line that came after a command. A line that is absent means that the connection was
    /// closed.
    pub fn read_message(line: Option<&str>) -> (r: QmpStep)
        ensures
            r@ == match line {
                None => QmpStepView::Fail("QMP closed"@),
                Some(l) => match json_parsed(l@) {
                    Ok(m) => step_of(member_of(m, "return"@), member_of(m, "error"@)),
                    Err(e) => QmpStepView::Fail(e),
                },
            },
    {
        match line {
            None => QmpStep::Fail("QMP closed".to_owned()),
            Some(l) => QmpClient::judge(
                match json_parse(l) {
                    Ok(v) => Ok(
                        Reply { ret: json_member(&v, "return"), error: json_member(&v, "error") },
                    ),
                    Err(e) => Err(e),
                },
            ),
        }
    }

    /// The line that asks the guest to shut down.
    pub fn powerdown() -> (r: String)
        ensures
            r@ == request_line("system_powerdown"@, None),
    {
        QmpClient::execute("system_powerdown", None)
    }

    /// The line that ends QEMU.
    pub fn quit() -> (r: String)
        ensures
            r@ == request_line("quit"@, None),
    {
        QmpClient::execute("quit", None)
    }
}

/// An escaped character holds no line feed.
proof fn lemma_escaped_is_one_line(c: char)
    ensures
        forall|i: int| 0 <= i < escaped(c).len() ==> #[trigger] escaped(c)[i] != '\n',
{
    let n = c as int;
    if n < 32 {
        lemma_hex_digit(n / 16);
        lemma_hex_digit(n % 16);
    }
}

/// A JSON string holds no line feed.
proof fn lemma_escaped_text_is_one_line(s: Seq<char>)
    ensures
        forall|i: int| 0 <= i < escaped_text(s).len() ==> #[trigger] escaped_text(s)[i] != '\n',
    decreases s.len(),
{
    if s.len() > 0 {
        let front = escaped_text(s.drop_last());
        let last = escaped(s.last());
        lemma_escaped_text_is_one_line(s.drop_last());
        lemma_escaped_is_one_line(s.last());
        assert forall|i: int| 0 <= i < escaped_text(s).len() implies #[trigger] escaped_text(s)[i]
            != '\n' by {
            if i >= front.len() {
                assert(escaped_text(s)[i] == last[i - front.len()]);
            }
        }
    }
}

/// A request is one line, whatever the command holds.
pub proof fn request_is_one_line(cmd: Seq<char>, args: Option<Seq<char>>)
    requires
        args matches Some(a) ==> forall|i: int| 0 <= i < a.len() ==> #[trigger] a[i] != '\n',
    ensures
        request_line(cmd, args).last() == '\n',
        forall|i: int|
            0 <= i < request_line(cmd, args).len() - 1 ==> #[trigger] request_line(cmd, args)[i]
                != '\n',
{
    reveal_strlit("{\"arguments\":");
    reveal_strlit(",\"execute\":");
    reveal_strlit("{\"execute\":");
    reveal_strlit("}\n");
    lemma_escaped_text_is_one_line(cmd);
    let head = match args {
        Some(a) => "{\"arguments\":"@ + a + ",\"execute\":"@,
        None => "{\"execute\":"@,
    };
    let q = json_string(cmd);
    let line = request_line(cmd, args);
    assert forall|i: int| 0 <= i < head.len() implies #[trigger] head[i] != '\n' by {}
    assert forall|i: int| 0 <= i < q.len() implies #[trigger] q[i] != '\n' by {
        if 0 < i < q.len() - 1 {
            assert(q[i] == escaped_text(cmd)[i - 1]);
        }
    }
    assert forall|i: int| 0 <= i < line.len() - 1 implies #[trigger] line[i] != '\n' by {
        if i < head.len() {
            assert(line[i] == head[i]);
        } else if i < head.len() + q.len() {
            assert(line[i] == q[i - head.len()]);
        }
    }
}

} // verus!
