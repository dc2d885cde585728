use vstd::prelude::*;

verus! {

pub const NANOS_PER_SEC: u32 = 1_000_000_000;

/// A wall-clock instant as seconds and nanoseconds since the Unix epoch.
#[derive(Debug, Clone, Copy, PartialEq, Eq, Structural)]
pub struct Timestamp {
    pub secs: u64,
    pub nanos: u32,
}

impl Timestamp {
    pub open spec fn wf(&self) -> bool {
        self.nanos < NANOS_PER_SEC
    }

    /// The instant `secs` seconds and `nanos` nanoseconds after the epoch.
    pub fn new(secs: u64, nanos: u32) -> (r: Option<Timestamp>)
        ensures
            r is Some <==> nanos < NANOS_PER_SEC,
            r matches Some(t) ==> t.secs == secs && t.nanos == nanos && t.wf(),
    {
        if nanos < NANOS_PER_SEC {
            Some(Timestamp { secs, nanos })
        } else {
            None
        }
    }

    /// The Unix epoch itself.
    pub fn epoch() -> (r: Timestamp)
        ensures
            r.secs == 0 && r.nanos == 0 && r.wf(),
    {
        Timestamp { secs: 0, nanos: 0 }
    }
}

pub open spec fn digit(d: nat) -> char {
    seq!['0', '1', '2', '3', '4', '5', '6', '7', '8', '9'][d as int]
}

/// Decimal notation of `n`, without leading zeros.
pub open spec fn decimal(n: nat) -> Seq<char>
    decreases n,
{
    if n < 10 {
        seq![digit(n)]
    } else {
        decimal(n / 10) + seq![digit(n % 10)]
    }
}

pub open spec fn hex_digit(d: nat) -> char {
    seq!['0', '1', '2', '3', '4', '5', '6', '7', '8', '9', 'a', 'b', 'c', 'd', 'e', 'f'][d as int]
}

/// How one character is written inside a JSON string: quote and backslash
/// escaped, the usual short escapes for backspace, tab, line feed, form feed
/// and carriage return, other control characters below U+0020 as `\u00xx`
/// in lower-case hex, everything else as itself.
pub open spec fn json_escape(c: char) -> Seq<char> {
    if c == '"' {
        seq!['\\', '"']
    } else if c == '\\' {
        seq!['\\', '\\']
    } else if c == '\u{08}' {
        seq!['\\', 'b']
    } else if c == '\t' {
        seq!['\\', 't']
    } else if c == '\n' {
        seq!['\\', 'n']
    } else if c == '\u{0c}' {
        seq!['\\', 'f']
    } else if c == '\r' {
        seq!['\\', 'r']
    } else if (c as u32) < 0x20 {
        seq!['\\', 'u', '0', '0', hex_digit((c as u32) as nat / 16), hex_digit((c as u32) as nat % 16)]
    } else {
        seq![c]
    }
}

/// The characters of `s`, each written as inside a JSON string.
pub open spec fn json_escaped(s: Seq<char>) -> Seq<char>
    decreases s.len(),
{
    if s.len() == 0 {
        Seq::empty()
    } else {
        json_escape(s[0]) + json_escaped(s.drop_first())
    }
}

/// The JSON string literal that stands for `s`, quotes and escapes included.
pub open spec fn json_string(s: Seq<char>) -> Seq<char> {
    seq!['"'] + json_escaped(s) + seq!['"']
}

/// A frame `{"time": <instant>, "text": <literal>}` where the instant is
/// written as seconds and nanoseconds since the epoch and `quoted` is a JSON
/// string literal.
pub open spec fn frame_chars(t: Timestamp, quoted: Seq<char>) -> Seq<char> {
    "{\"time\":{\"secs_since_epoch\":"@ + decimal(t.secs as nat) + ",\"nanos_since_epoch\":"@
        + decimal(t.nanos as nat) + "},\"text\":"@ + quoted + "}"@
}

fn digit_str(d: u64) -> (r: &'static str)
    requires
        d < 10,
    ensures
        r@ == seq![digit(d as nat)],
{
    proof {
        reveal_strlit("0");
        reveal_strlit("1");
        reveal_strlit("2");
        reveal_strlit("3");
        reveal_strlit("4");
        reveal_strlit("5");
        reveal_strlit("6");
        reveal_strlit("7");
        reveal_strlit("8");
        reveal_strlit("9");
    }
    let r = if d == 0 {
        "0"
    } else if d == 1 {
        "1"
    } else if d == 2 {
        "2"
    } else if d == 3 {
        "3"
    } else if d == 4 {
        "4"
    } else if d == 5 {
        "5"
    } else if d == 6 {
        "6"
    } else if d == 7 {
        "7"
    } else if d == 8 {
        "8"
    } else {
        "9"
    };
    assert(r@ =~= seq![digit(d as nat)]);
    r
}

/// Decimal notation of `n`.
pub fn decimal_string(n: u64) -> (r: String)
    ensures
        r@ == decimal(n as nat),
    decreases n,
{
    if n < 10 {
        String::from_str(digit_str(n))
    } else {
        let mut s = decimal_string(n / 10);
        s.append(digit_str(n % 10));
        s
    }
}

/// Relies on serde_json::to_string applied to a string slice: it writes the
/// JSON string literal for the text into a vector, which cannot fail.
#[verifier::external_body]
fn quote_json(text: &str) -> (r: Option<String>)
    ensures
        r is Some,
        r matches Some(q) ==> q@ == json_string(text@),
{
    serde_json::to_string(text).ok()
}

/// The frame for `time` and the JSON string literal `quoted`.
pub fn frame_with_literal(time: Timestamp, quoted: &str) -> (r: String)
    ensures
        r@ == frame_chars(time, quoted@),
{
    let mut s = String::from_str("{\"time\":{\"secs_since_epoch\":");
    let secs = decimal_string(time.secs);
    s.append(secs.as_str());
    s.append(",\"nanos_since_epoch\":");
    let nanos = decimal_string(time.nanos as u64);
    s.append(nanos.as_str());
    s.append("},\"text\":");
    s.append(quoted);
    s.append("}");
    s
}

/// The frame carrying `text` at `time`.
pub fn encode_frame(time: Timestamp, text: &str) -> (r: String)
    ensures
        r@ == frame_chars(time, json_string(text@)),
{
    match quote_json(text) {
        Some(q) => frame_with_literal(time, q.as_str()),
        None => String::new(),
    }
}

} // verus!
