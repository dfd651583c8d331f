//! The wire-envelope codec.
//!
//! One transport frame is one JSON document.  Inbound frames look like
//! `{"name": <string>, "dat": <any>}`; outbound frames additionally
//! carry the recipient: `{"id": <integer>, "name": <string>, "dat": <any>}`.
//! The recipient is never read from inbound bytes — the connection
//! handler supplies the sender's own id.  Unknown names pass through
//! untouched so gameplay-level events stay extensible.
//!
//! Inside the library a payload is carried as its canonical JSON text,
//! a plain `String`; the `serde_json` crate does the actual parsing and
//! printing behind the trusted items below.

use vstd::prelude::*;

verus! {

/// What parsing a frame text yields: the `name` field and the canonical
/// serialization of the `dat` field, or nothing when the text is not a
/// JSON object with a string `name` and a `dat` member.  The leading
/// component is the `id` field, when the frame carries an integer one.
/// A pure function of the text: `serde_json` parses and prints without
/// looking at anything else.
pub uninterp spec fn frame_fields(s: Seq<char>) -> Option<(Option<int>, Seq<char>, Seq<char>)>;

/// Whether `s` is the canonical serialization of some JSON value, i.e.
/// a possible output of `serde_json`'s printer.
pub uninterp spec fn canonical_json(s: Seq<char>) -> bool;

/// What parsing an Identify payload text yields: the `username` and
/// `identity` string fields, or nothing when either is missing or not a
/// string.  A pure function of the text.
pub uninterp spec fn identification_fields(s: Seq<char>) -> Option<(Seq<char>, Seq<char>)>;

/// The JSON text of a plain string: the text wrapped in double quotes.
/// Faithful only for text that needs no escaping (see [`plain_text`]).
pub open spec fn quoted(s: Seq<char>) -> Seq<char> {
    seq!['"'] + s + seq!['"']
}

/// Text whose JSON string form needs no escape sequences: no double
/// quote, no backslash, no control character.
pub open spec fn plain_text(s: Seq<char>) -> bool {
    forall|i: int|
        0 <= i < s.len() ==> (#[trigger] s[i]) as u32 >= 32 && s[i] as u32 != 34 && s[i] as u32
            != 92
}

/// Relies on `serde_json::from_str` and `serde_json::to_string`: parses
/// one frame, takes the string `name` field, and re-prints the `dat`
/// field canonically.  Both are pure functions of the text.
#[verifier::external_body]
fn decode_frame_text(s: &str) -> (r: Option<(String, String)>)
    ensures
        match r {
            Some(nd) => frame_fields(s@) matches Some(f) && f.1 == nd.0@ && f.2 == nd.1@
                && canonical_json(nd.1@),
            None => frame_fields(s@) is None,
        },
{
    let v: serde_json::Value = serde_json::from_str(s).ok()?;
    let name = v.get("name")?.as_str()?.to_string();
    let dat = serde_json::to_string(v.get("dat")?).ok()?;
    Some((name, dat))
}

/// Relies on `serde_json`: builds the outbound document
/// `{"id": id, "name": name, "dat": <dat parsed back to a value>}` and
/// prints it.  Parsing the printed frame recovers the same name, and
/// re-printing the recovered `dat` value gives `dat` back whenever
/// `dat` was canonical text: parse-then-print is the identity on
/// printer output for strings, integers, arrays and objects, and for
/// doubles because this crate enables `serde_json`'s `float_roundtrip`
/// feature (the default parse is best-effort and could alter the last
/// digits of a float payload).
#[verifier::external_body]
fn encode_frame_text(id: i32, name: &str, dat: &str) -> (r: Option<String>)
    ensures
        canonical_json(dat@) ==> match r {
            Some(t) => frame_fields(t@) == Some((Some(id as int), name@, dat@)),
            None => false,
        },
{
    let datv: serde_json::Value = serde_json::from_str(dat).ok()?;
    let mut obj = serde_json::Map::new();
    obj.insert("id".to_string(), serde_json::Value::from(id));
    obj.insert("name".to_string(), serde_json::Value::String(name.to_string()));
    obj.insert("dat".to_string(), datv);
    serde_json::to_string(&serde_json::Value::Object(obj)).ok()
}

/// Relies on `serde_json::from_str`: reads the `username` and
/// `identity` string fields of an Identify payload.  A pure function of
/// the text.
#[verifier::external_body]
pub(crate) fn decode_identification(dat: &str) -> (r: Option<(String, String)>)
    ensures
        match r {
            Some(ui) => identification_fields(dat@) == Some((ui.0@, ui.1@)),
            None => identification_fields(dat@) is None,
        },
{
    let v: serde_json::Value = serde_json::from_str(dat).ok()?;
    let username = v.get("username")?.as_str()?.to_string();
    let identity = v.get("identity")?.as_str()?.to_string();
    Some((username, identity))
}

/// Relies on `serde_json::to_string` for `&str`: a string prints as its
/// text wrapped in double quotes, escaping only quotes, backslashes and
/// control characters; printing a `&str` cannot fail.
#[verifier::external_body]
pub(crate) fn json_string(s: &str) -> (r: String)
    ensures
        canonical_json(r@),
        plain_text(s@) ==> r@ == quoted(s@),
{
    serde_json::to_string(s).unwrap_or_default()
}

/// Relies on `serde_json::to_string` for `()`: the unit value prints as
/// `null`, and cannot fail.
#[verifier::external_body]
pub(crate) fn json_null() -> (r: String)
    ensures
        canonical_json(r@),
        r@ == "null"@,
{
    serde_json::to_string(&()).unwrap_or_default()
}

/// A malformed inbound frame: not a JSON object carrying a string
/// `name` and a `dat` member.
#[derive(Clone, Copy, PartialEq, Eq, Debug)]
pub enum ProtocolError {
    Malformed,
}

impl ProtocolError {
    /// The message a client sees in the Error event this fault provokes.
    pub fn message(&self) -> (r: &'static str)
        ensures
            r@ == "malformed message"@,
    {
        "malformed message"
    }
}

/// One event of the relay: the recipient connection (`0` broadcasts to
/// everyone), the event name, and the payload as canonical JSON text.
#[derive(Clone, Debug)]
pub struct Event {
    pub id: i32,
    pub name: String,
    pub dat: String,
}

impl Event {
    /// Builds an outbound event addressed to `id` from ready payload text.
    pub fn new(id: i32, name: String, dat: String) -> (r: Event)
        ensures
            r.id == id,
            r.name@ == name@,
            r.dat@ == dat@,
    {
        Event { id, name, dat }
    }

    /// Decodes one inbound frame.  The recipient field is never read
    /// from the wire: the caller supplies the sending connection's own
    /// id.  Fails exactly on frames without a string `name` and a `dat`.
    pub fn from(id: i32, value: &str) -> (r: Result<Event, ProtocolError>)
        ensures
            match r {
                Ok(e) => frame_fields(value@) matches Some(f) && e.id == id && e.name@ == f.1
                    && e.dat@ == f.2 && canonical_json(e.dat@),
                Err(_) => frame_fields(value@) is None,
            },
    {
        match decode_frame_text(value) {
            Some((name, dat)) => Ok(Event { id, name, dat }),
            None => Err(ProtocolError::Malformed),
        }
    }

    /// Encodes the event as one outbound frame, recipient included.
    /// Succeeds whenever the payload is canonical JSON text — so always
    /// on events this library built or decoded.
    pub fn encode(&self) -> (r: Option<String>)
        ensures
            canonical_json(self.dat@) ==> match r {
                Some(t) => frame_fields(t@) == Some(
                    (Some(self.id as int), self.name@, self.dat@),
                ),
                None => false,
            },
    {
        encode_frame_text(self.id, self.name.as_str(), self.dat.as_str())
    }
}

/// Decoding a well-formed frame and re-encoding the event it yields
/// preserves the frame's `name` and `dat` exactly; the recipient on the
/// re-encoded frame is the fresh one the caller supplies, since inbound
/// frames carry none.  Fails exactly on malformed frames.
pub fn reencode_frame(id: i32, value: &str) -> (r: Option<String>)
    ensures
        match r {
            Some(t) => frame_fields(value@) matches Some(f) && frame_fields(t@) == Some(
                (Some(id as int), f.1, f.2),
            ),
            None => frame_fields(value@) is None,
        },
{
    match Event::from(id, value) {
        Ok(e) => e.encode(),
        Err(_) => None,
    }
}

} // verus!
