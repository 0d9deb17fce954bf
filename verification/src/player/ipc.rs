//! The line protocol of `mpv`'s control socket.
//!
//! Every line is one JSON object. A command is `{"command": ["verb", arg, …]}`, a reply is
//! `{"data": value, "error": "success", "request_id": N}`, and an event carries `"event"`. This
//! module makes the lines that are written and decides what each line that was read means; the
//! socket itself is the program's.
use vstd::prelude::*;

use crate::number::{
    decimal_number, law_position_reads_back, law_whole_number_reads_back, parse_millionths, parse_u64,
    whole_number,
};
use crate::text::{decimal, decimal_text, position_text, same_text, seconds, trim, trimmed};

verus! {

// ── Where the socket is ───────────────────────────────────────────────────────

/// The control socket of the process `pid` on Unix: `/tmp/watch-party-<pid>.sock`.
pub fn ipc_path(pid: u32) -> (r: String)
    ensures
        r@ == "/tmp/watch-party-"@ + decimal(pid as nat) + ".sock"@,
{
    let mut out = "/tmp/watch-party-".to_owned();
    out.append(decimal_text(pid as u64).as_str());
    out.append(".sock");
    out
}

/// The control pipe of the process `pid` on Windows: `\\.\pipe\watch-party-<pid>`.
pub fn ipc_pipe_path(pid: u32) -> (r: String)
    ensures
        r@ == "\\\\.\\pipe\\watch-party-"@ + decimal(pid as nat),
{
    let mut out = "\\\\.\\pipe\\watch-party-".to_owned();
    out.append(decimal_text(pid as u64).as_str());
    out
}

// ── JSON ──────────────────────────────────────────────────────────────────────

/// A JSON value: the contents of a string, `null`, or any value as JSON text.
pub enum Json {
    /// A string, without its quotes and escapes.
    Text(String),
    /// A number, `true`, `false`, `null`, an array or an object, as JSON text.
    Raw(String),
    /// `null`.
    Null,
}

impl View for Json {
    type V = (bool, Seq<char>);

    /// Whether the value is a string, and its characters.
    open spec fn view(&self) -> (bool, Seq<char>) {
        match self {
            Json::Text(text) => (true, text@),
            Json::Raw(text) => (false, text@),
            Json::Null => (false, "null"@),
        }
    }
}

/// One member of a JSON object.
pub struct Member {
    /// The name before the colon.
    pub key: String,
    /// The value behind it.
    pub value: Json,
}

impl View for Member {
    type V = (Seq<char>, (bool, Seq<char>));

    open spec fn view(&self) -> (Seq<char>, (bool, Seq<char>)) {
        (self.key@, self.value@)
    }
}

/// The values of a list.
pub open spec fn values(list: Seq<Json>) -> Seq<(bool, Seq<char>)> {
    Seq::new(list.len(), |i: int| list[i]@)
}

/// The members of an object, in order.
pub open spec fn members(list: Seq<Member>) -> Seq<(Seq<char>, (bool, Seq<char>))> {
    Seq::new(list.len(), |i: int| list[i]@)
}

/// The compact JSON text of an object, as `serde_json` writes it: an array of values under one key,
/// and further members.
pub uninterp spec fn json_object(
    key: Seq<char>,
    list: Seq<(bool, Seq<char>)>,
    rest: Seq<(Seq<char>, (bool, Seq<char>))>,
) -> Seq<char>;

/// What `serde_json` reads a text as: nothing where it is not JSON, and else the members of an
/// object, or nothing where the value is no object.
pub uninterp spec fn json_value(text: Seq<char>) -> Option<
    Option<Seq<(Seq<char>, (bool, Seq<char>))>>,
>;

/// A value can be written: what it gives as JSON text is JSON.
pub open spec fn is_writable(value: Json) -> bool {
    value matches Json::Raw(text) ==> json_value(text@) is Some
}

/// `serde_json::Value::to_string` of an object. The text is a function of the key, the array under
/// it and the other members: a string is quoted and escaped, and JSON text is read with
/// `serde_json::from_str` and written back compactly.
#[verifier::external_body]
fn object_text(key: &str, list: &Vec<Json>, rest: &Vec<Member>) -> (r: String)
    requires
        forall|i: int| 0 <= i < list@.len() ==> is_writable(#[trigger] list@[i]),
        forall|i: int| 0 <= i < rest@.len() ==> is_writable((#[trigger] rest@[i]).value),
    ensures
        r@ == json_object(key@, values(list@), members(rest@)),
{
    let convert = |value: &Json| match value {
        Json::Text(text) => serde_json::Value::String(text.clone()),
        Json::Raw(text) => serde_json::from_str(text).expect("JSON text"),
        Json::Null => serde_json::Value::Null,
    };
    let mut object = serde_json::Map::new();
    object.insert(key.to_owned(), serde_json::Value::Array(list.iter().map(convert).collect()));
    object.extend(rest.iter().map(|member| (member.key.clone(), convert(&member.value))));
    serde_json::Value::Object(object).to_string()
}

/// `serde_json::from_str`. What it gives is a function of the text alone: nothing where that is not
/// JSON, the members of an object, and no list of members for any other value. Strings are handed
/// out unescaped, every other member as compact JSON text.
#[verifier::external_body]
fn read_value(text: &str) -> (r: Option<Option<Vec<Member>>>)
    ensures
        match r {
            Some(Some(list)) => json_value(text@) == Some(Some(members(list@))),
            Some(None) => json_value(text@) == Some(
                None::<Seq<(Seq<char>, (bool, Seq<char>))>>,
            ),
            None => json_value(text@) is None,
        },
{
    match serde_json::from_str(text) {
        Ok(serde_json::Value::Object(pairs)) => {
            Some(Some(pairs.into_iter().map(|(key, value)| match value {
                serde_json::Value::String(text) => Member { key, value: Json::Text(text) },
                other => Member { key, value: Json::Raw(other.to_string()) },
            }).collect()))
        },
        Ok(_) => Some(None),
        Err(_) => None,
    }
}

/// What is written for a value: the value, or `null` in place of text that is not JSON.
pub open spec fn writable(value: (bool, Seq<char>)) -> (bool, Seq<char>) {
    if value.0 || json_value(value.1) is Some {
        value
    } else {
        (false, "null"@)
    }
}

fn to_writable(value: &Json) -> (r: Json)
    ensures
        r@ == writable(value@),
        is_writable(r),
{
    match value {
        Json::Text(text) => Json::Text(text.as_str().to_owned()),
        Json::Raw(text) => if read_value(text.as_str()).is_some() {
            Json::Raw(text.as_str().to_owned())
        } else {
            Json::Null
        },
        Json::Null => Json::Null,
    }
}

// ── Commands ──────────────────────────────────────────────────────────────────

/// A line that is written to `mpv`: a command with further members, and a line feed.
pub open spec fn line(
    args: Seq<(bool, Seq<char>)>,
    rest: Seq<(Seq<char>, (bool, Seq<char>))>,
) -> Seq<char> {
    json_object(
        "command"@,
        args.map_values(|value: (bool, Seq<char>)| writable(value)),
        rest.map_values(
            |member: (Seq<char>, (bool, Seq<char>))| (member.0, writable(member.1)),
        ),
    ) + seq!['\n']
}

/// The line of a command: `{"command": [args]}`.
pub open spec fn command(args: Seq<(bool, Seq<char>)>) -> Seq<char> {
    line(args, Seq::empty())
}

/// The line of a command that is answered under the number `id`.
pub open spec fn request(args: Seq<(bool, Seq<char>)>, id: nat) -> Seq<char> {
    line(args, seq![("request_id"@, (false, decimal(id)))])
}

/// The command that sets a property.
pub open spec fn property(name: Seq<char>, value: (bool, Seq<char>)) -> Seq<char> {
    command(seq![(true, "set_property"@), (true, name), value])
}

/// The command that seeks to an absolute position, in microseconds.
pub open spec fn seek_args(pts_us: int) -> Seq<(bool, Seq<char>)> {
    seq![(true, "seek"@), (false, seconds(pts_us)), (true, "absolute"@)]
}

/// A playback speed in millionths of normal speed, as `mpv` takes it.
pub open spec fn speed_value(millionths: int) -> (bool, Seq<char>) {
    (false, seconds(millionths))
}

/// A volume in percent, as `mpv` takes it.
pub open spec fn volume_value(pct: nat) -> (bool, Seq<char>) {
    (false, decimal(pct))
}

fn write_line(args: &Vec<Json>, rest: &Vec<Member>) -> (r: String)
    ensures
        r@ == line(values(args@), members(rest@)),
{
    let mut list: Vec<Json> = Vec::new();
    let mut i: usize = 0;
    while i < args.len()
        invariant
            i <= args.len(),
            list.len() == i,
            forall|j: int|
                0 <= j < i ==> is_writable(#[trigger] list@[j]) && list@[j]@ == writable(
                    args@[j]@,
                ),
        decreases args.len() - i,
    {
        list.push(to_writable(&args[i]));
        i = i + 1;
    }
    let mut others: Vec<Member> = Vec::new();
    let mut k: usize = 0;
    while k < rest.len()
        invariant
            k <= rest.len(),
            others.len() == k,
            forall|j: int|
                0 <= j < k ==> is_writable((#[trigger] others@[j]).value) && others@[j]@ == (
                    rest@[j].key@,
                    writable(rest@[j].value@),
                ),
        decreases rest.len() - k,
    {
        others.push(
            Member { key: rest[k].key.as_str().to_owned(), value: to_writable(&rest[k].value) },
        );
        k = k + 1;
    }
    assert(values(list@) =~= values(args@).map_values(|value: (bool, Seq<char>)| writable(value)));
    assert(members(others@) =~= members(rest@).map_values(
        |member: (Seq<char>, (bool, Seq<char>))| (member.0, writable(member.1)),
    ));
    let mut out = object_text("command", &list, &others);
    out.push('\n');
    assert(out@ =~= line(values(args@), members(rest@)));
    out
}

fn text(s: &str) -> (r: Json)
    ensures
        r@ == (true, s@),
{
    Json::Text(s.to_owned())
}

fn raw(s: &str) -> (r: Json)
    ensures
        r@ == (false, s@),
{
    Json::Raw(s.to_owned())
}

/// The lines to write for each operation, and the number of the next request.
pub struct MpvIpc {
    /// The number that the next query carries.
    pub next_id: u32,
}

impl MpvIpc {
    /// A connection on which nothing has been asked yet.
    pub fn new() -> (r: MpvIpc)
        ensures
            r.next_id == 1,
    {
        MpvIpc { next_id: 1 }
    }

    /// The line of a command: the verb and its arguments. No reply is awaited.
    pub fn send_command(&self, args: &Vec<Json>) -> (r: String)
        ensures
            r@ == command(values(args@)),
    {
        let rest: Vec<Member> = Vec::new();
        assert(members(rest@) =~= Seq::empty());
        write_line(args, &rest)
    }

    /// The line that sets a property. No reply is awaited.
    pub fn set_property(&self, name: &str, value: Json) -> (r: String)
        ensures
            r@ == property(name@, value@),
    {
        let mut args: Vec<Json> = Vec::new();
        args.push(text("set_property"));
        args.push(text(name));
        args.push(value);
        assert(values(args@) =~= seq![(true, "set_property"@), (true, name@), value@]);
        self.send_command(&args)
    }

    /// The number and the line of a query for a property. Numbers are handed out in order.
    pub fn get_property(&mut self, name: &str) -> (r: (u32, String))
        requires
            old(self).next_id < u32::MAX,
        ensures
            r.0 == old(self).next_id,
            final(self).next_id == old(self).next_id + 1,
            r.1@ == request(seq![(true, "get_property"@), (true, name@)], r.0 as nat),
    {
        let id = self.next_id;
        self.next_id = self.next_id + 1;
        let mut args: Vec<Json> = Vec::new();
        args.push(text("get_property"));
        args.push(text(name));
        assert(values(args@) =~= seq![(true, "get_property"@), (true, name@)]);
        let mut rest: Vec<Member> = Vec::new();
        rest.push(
            Member { key: "request_id".to_owned(), value: Json::Raw(decimal_text(id as u64)) },
        );
        assert(members(rest@) =~= seq![("request_id"@, (false, decimal(id as nat)))]);
        (id, write_line(&args, &rest))
    }

    /// The line that pauses playback.
    pub fn pause(&self) -> (r: String)
        ensures
            r@ == property("pause"@, (false, "true"@)),
    {
        self.set_property("pause", raw("true"))
    }

    /// The line that resumes playback.
    pub fn resume(&self) -> (r: String)
        ensures
            r@ == property("pause"@, (false, "false"@)),
    {
        self.set_property("pause", raw("false"))
    }

    /// The line that seeks to an absolute position, in microseconds.
    pub fn seek_absolute(&self, pts_us: i64) -> (r: String)
        ensures
            r@ == command(seek_args(pts_us as int)),
    {
        let mut args: Vec<Json> = Vec::new();
        args.push(text("seek"));
        args.push(Json::Raw(position_text(pts_us)));
        args.push(text("absolute"));
        assert(values(args@) =~= seek_args(pts_us as int));
        self.send_command(&args)
    }

    /// The line that sets the playback speed, in millionths of normal speed.
    pub fn set_speed(&self, millionths: i64) -> (r: String)
        ensures
            r@ == property("speed"@, speed_value(millionths as int)),
    {
        self.set_property("speed", Json::Raw(position_text(millionths)))
    }

    /// The line that sets the volume, in percent.
    pub fn set_volume(&self, pct: u32) -> (r: String)
        ensures
            r@ == property("volume"@, volume_value(pct as nat)),
    {
        self.set_property("volume", Json::Raw(decimal_text(pct as u64)))
    }

    /// The playback position in microseconds. `value` is what a query for `playback-time` came to;
    /// without a position, as while `mpv` buffers, it is zero.
    pub fn playback_time(&self, value: &Result<Json, String>) -> (r: i64)
        ensures
            r as int == position_in(*value),
    {
        match value {
            Ok(Json::Raw(text)) => match parse_millionths(text.as_str()) {
                Some(us) => us,
                None => 0,
            },
            _ => 0,
        }
    }

    /// The line that makes `mpv` quit.
    pub fn quit(&self) -> (r: String)
        ensures
            r@ == command(seq![(true, "quit"@)]),
    {
        let mut args: Vec<Json> = Vec::new();
        args.push(text("quit"));
        assert(values(args@) =~= seq![(true, "quit"@)]);
        self.send_command(&args)
    }
}

// ── Replies ───────────────────────────────────────────────────────────────────

/// What a line that was read means for the query that waits for its reply.
pub enum Reply {
    /// Nothing: malformed, an event, or the reply to another query. The next line is read.
    Skip,
    /// The property's value.
    Data(Json),
    /// `mpv` refused the query, for this reason.
    Refused(String),
    /// The reply says neither success nor an error.
    MissingError,
}

/// The value of the first member named `key`.
pub open spec fn member(
    list: Seq<(Seq<char>, (bool, Seq<char>))>,
    key: Seq<char>,
) -> Option<(bool, Seq<char>)>
    decreases list.len(),
{
    if list.len() == 0 {
        None
    } else if list[0].0 == key {
        Some(list[0].1)
    } else {
        member(list.skip(1), key)
    }
}

/// A line answers the query `id`: it is no event, and its `request_id` is that number.
pub open spec fn answers(list: Seq<(Seq<char>, (bool, Seq<char>))>, id: u32) -> bool {
    &&& member(list, "event"@) is None
    &&& member(list, "request_id"@) matches Some(value) && !value.0 && whole_number(value.1)
        == Some(id as u64)
}

/// `r` is what the members of a line mean for the query `id`.
pub open spec fn means(
    list: Option<Seq<(Seq<char>, (bool, Seq<char>))>>,
    id: u32,
    r: Reply,
) -> bool {
    match list {
        Some(list) if answers(list, id) => match member(list, "error"@) {
            Some((true, reason)) => if reason == "success"@ {
                r matches Reply::Data(data) && data@ == (match member(list, "data"@) {
                    Some(value) => value,
                    None => (false, "null"@),
                })
            } else {
                r matches Reply::Refused(text) && text@ == reason
            },
            _ => r is MissingError,
        },
        _ => r is Skip,
    }
}

fn copy_json(value: &Json) -> (r: Json)
    ensures
        r@ == value@,
{
    match value {
        Json::Text(text) => Json::Text(text.as_str().to_owned()),
        Json::Raw(text) => Json::Raw(text.as_str().to_owned()),
        Json::Null => Json::Null,
    }
}

/// The value of the first member named `key`.
pub fn find_member(list: &Vec<Member>, key: &str) -> (r: Option<Json>)
    ensures
        match r {
            Some(value) => member(members(list@), key@) == Some(value@),
            None => member(members(list@), key@) is None,
        },
{
    let mut i: usize = 0;
    assert(members(list@).skip(0) =~= members(list@));
    while i < list.len()
        invariant
            i <= list.len(),
            member(members(list@), key@) == member(members(list@).skip(i as int), key@),
        decreases list.len() - i,
    {
        let ghost tail = members(list@).skip(i as int);
        assert(tail[0] == list@[i as int]@);
        if same_text(list[i].key.as_str(), key) {
            return Some(copy_json(&list[i].value));
        }
        assert(tail.skip(1) =~= members(list@).skip(i + 1));
        i = i + 1;
    }
    None
}

fn is_request(value: &Option<Json>, id: u32) -> (r: bool)
    ensures
        r == (value matches Some(v) && !v@.0 && whole_number(v@.1) == Some(id as u64)),
{
    match value {
        Some(Json::Null) => {
            proof {
                reveal_strlit("null");
                assert("null"@[0] == 'n');
            }
            false
        },
        Some(Json::Raw(text)) => match parse_u64(text.as_str()) {
            Some(n) => n == id as u64,
            None => false,
        },
        _ => false,
    }
}

/// What the members of a line mean for the query `id`; `None` stands for a malformed line.
pub fn match_reply(list: &Option<Vec<Member>>, id: u32) -> (r: Reply)
    ensures
        means(
            match list {
                Some(list) => Some(members(list@)),
                None => None,
            },
            id,
            r,
        ),
{
    match list {
        None => Reply::Skip,
        Some(list) => {
            if find_member(list, "event").is_some() || !is_request(
                &find_member(list, "request_id"),
                id,
            ) {
                return Reply::Skip;
            }
            match find_member(list, "error") {
                Some(Json::Text(reason)) => if same_text(reason.as_str(), "success") {
                    match find_member(list, "data") {
                        Some(data) => Reply::Data(data),
                        None => Reply::Data(Json::Null),
                    }
                } else {
                    Reply::Refused(reason)
                },
                _ => Reply::MissingError,
            }
        },
    }
}

/// The members of the object that a line holds, white space around it aside: nothing where the line
/// is not JSON, and no members where it is JSON but no object.
pub open spec fn members_in(line: Seq<char>) -> Option<Seq<(Seq<char>, (bool, Seq<char>))>> {
    match json_value(trimmed(line)) {
        Some(Some(list)) => Some(list),
        Some(None) => Some(Seq::empty()),
        None => None,
    }
}

/// What a line that was read means for the query `id`.
pub fn read_reply(line: &str, id: u32) -> (r: Reply)
    ensures
        means(members_in(line@), id, r),
{
    let list: Option<Vec<Member>> = match read_value(trim(line)) {
        Some(Some(list)) => Some(list),
        Some(None) => {
            let none: Vec<Member> = Vec::new();
            assert(members(none@) =~= Seq::empty());
            Some(none)
        },
        None => None,
    };
    match_reply(&list, id)
}

/// How the failure of a query for the property `name` reads.
pub open spec fn failure(r: Reply, name: Seq<char>) -> Option<Seq<char>> {
    match r {
        Reply::Refused(reason) => Some(
            "mpv get_property("@ + name + ") error: "@ + reason@,
        ),
        Reply::MissingError => Some("mpv response missing error field"@),
        _ => None,
    }
}

/// The position, in microseconds, that a query for `playback-time` came to: zero where that is no
/// number.
pub open spec fn position_in(value: Result<Json, String>) -> int {
    match value {
        Ok(Json::Raw(text)) => match decimal_number(text@) {
            Some(us) => us,
            None => 0,
        },
        _ => 0,
    }
}

impl Reply {
    /// How the failure of a query for the property `name` reads; nothing where it did not fail.
    pub fn failure(&self, name: &str) -> (r: Option<String>)
        ensures
            match r {
                Some(text) => failure(*self, name@) == Some(text@),
                None => failure(*self, name@) is None,
            },
    {
        match self {
            Reply::Refused(reason) => {
                let mut out = "mpv get_property(".to_owned();
                out.append(name);
                out.append(") error: ");
                out.append(reason.as_str());
                Some(out)
            },
            Reply::MissingError => Some("mpv response missing error field".to_owned()),
            _ => None,
        }
    }
}

// ── Waiting for a reply ───────────────────────────────────────────────────────

/// A line says nothing to the query `id`.
pub open spec fn is_skipped(line: Seq<char>, id: u32) -> bool {
    match members_in(line) {
        Some(list) => !answers(list, id),
        None => true,
    }
}

/// `r` is what the query `id` hears from lines: the meaning of the first one that is not skipped, or
/// nothing where all are.
pub open spec fn hears(lines: Seq<Seq<char>>, id: u32, r: Option<Reply>) -> bool
    decreases lines.len(),
{
    if lines.len() == 0 {
        r is None
    } else if is_skipped(lines[0], id) {
        hears(lines.skip(1), id, r)
    } else {
        r matches Some(reply) && means(members_in(lines[0]), id, reply)
    }
}

/// One more line changes nothing once the reply was heard, nor if it is skipped.
proof fn lemma_hears_one_more(lines: Seq<Seq<char>>, line: Seq<char>, id: u32, r: Option<Reply>)
    requires
        hears(lines, id, r),
        r is Some || is_skipped(line, id),
    ensures
        hears(lines.push(line), id, r),
    decreases lines.len(),
{
    if lines.len() == 0 {
        assert(lines.push(line)[0] == line);
        assert(lines.push(line).skip(1) =~= lines);
    } else {
        assert(lines.push(line)[0] == lines[0]);
        assert(lines.push(line).skip(1) =~= lines.skip(1).push(line));
        if is_skipped(lines[0], id) {
            lemma_hears_one_more(lines.skip(1), line, id, r);
        }
    }
}

/// The first line that is not skipped is the reply.
proof fn lemma_hears_reply(lines: Seq<Seq<char>>, line: Seq<char>, id: u32, reply: Reply)
    requires
        hears(lines, id, None),
        !is_skipped(line, id),
        means(members_in(line), id, reply),
    ensures
        hears(lines.push(line), id, Some(reply)),
    decreases lines.len(),
{
    if lines.len() == 0 {
        assert(lines.push(line)[0] == line);
    } else {
        assert(lines.push(line)[0] == lines[0]);
        assert(lines.push(line).skip(1) =~= lines.skip(1).push(line));
        lemma_hears_reply(lines.skip(1), line, id, reply);
    }
}

/// A query for a property that waits for its reply.
pub struct PropertyQuery {
    id: u32,
    name: String,
    reply: Option<Reply>,
    heard: Ghost<Seq<Seq<char>>>,
}

impl PropertyQuery {
    /// The number of the query.
    pub closed spec fn spec_id(&self) -> u32 {
        self.id
    }

    /// The property.
    pub closed spec fn spec_name(&self) -> Seq<char> {
        self.name@
    }

    /// The reply, once it was heard.
    pub closed spec fn spec_reply(&self) -> Option<Reply> {
        self.reply
    }

    /// The lines read so far, in order.
    pub closed spec fn lines(&self) -> Seq<Seq<char>> {
        self.heard@
    }

    /// The reply is what the lines read so far say to the query.
    pub open spec fn wf(&self) -> bool {
        &&& hears(self.lines(), self.spec_id(), self.spec_reply())
        &&& !(self.spec_reply() matches Some(Reply::Skip))
    }

    /// A query that was written and has read nothing yet.
    pub fn new(id: u32, name: &str) -> (r: PropertyQuery)
        ensures
            r.wf(),
            r.spec_id() == id,
            r.spec_name() == name@,
            r.lines() == Seq::<Seq<char>>::empty(),
            r.spec_reply() is None,
    {
        PropertyQuery { id, name: name.to_owned(), reply: None, heard: Ghost(Seq::empty()) }
    }

    /// Takes the next line; whether the reply was heard, so that no more are needed.
    pub fn feed(&mut self, line: &str) -> (r: bool)
        requires
            old(self).wf(),
        ensures
            final(self).wf(),
            final(self).spec_id() == old(self).spec_id(),
            final(self).spec_name() == old(self).spec_name(),
            final(self).lines() == old(self).lines().push(line@),
            r == (final(self).spec_reply() is Some),
    {
        let ghost before = self.heard@;
        if self.reply.is_some() {
            proof {
                lemma_hears_one_more(before, line@, self.id, self.reply);
            }
            self.heard = Ghost(before.push(line@));
            return true;
        }
        match read_reply(line, self.id) {
            Reply::Skip => {
                proof {
                    lemma_hears_one_more(before, line@, self.id, None);
                }
                self.heard = Ghost(before.push(line@));
                false
            },
            reply => {
                proof {
                    lemma_hears_reply(before, line@, self.id, reply);
                }
                self.reply = Some(reply);
                self.heard = Ghost(before.push(line@));
                true
            },
        }
    }

    /// Ends the wait, once the reply was heard or no more lines come: the property's value, or why
    /// there is none.
    pub fn finish(self) -> (r: Result<Json, String>)
        requires
            self.wf(),
        ensures
            match self.spec_reply() {
                Some(Reply::Data(data)) => r == Ok::<Json, String>(data),
                Some(reply) => r matches Err(text) && failure(reply, self.spec_name()) == Some(
                    text@,
                ),
                None => r matches Err(text) && text@
                    == "mpv IPC connection closed while waiting for response to get_property("@
                    + self.spec_name() + ")"@,
            },
    {
        match self.reply {
            Some(Reply::Data(data)) => Ok(data),
            Some(reply) => match reply.failure(self.name.as_str()) {
                Some(text) => Err(text),
                None => Err(String::new()),
            },
            None => {
                let mut text =
                    "mpv IPC connection closed while waiting for response to get_property(".to_owned();
                text.append(self.name.as_str());
                text.append(")");
                Err(text)
            },
        }
    }
}

// ── Connecting ────────────────────────────────────────────────────────────────

/// Milliseconds between two attempts to reach the socket.
pub const RETRY_MS: u64 = 100;

/// Milliseconds for which a freshly started `mpv` is waited for.
pub const CONNECT_TIMEOUT_MS: u64 = 4000;

/// What to do next while the socket is not reached.
#[derive(Debug, Clone, Copy, PartialEq, Eq, Structural)]
pub enum ConnectStep {
    /// Try to connect; after a failure, wait this many milliseconds before asking again.
    Try { then_wait_ms: u64 },
    /// The time is up.
    GiveUp,
}

/// The next step `elapsed_ms` after the first one: `mpv` makes its socket some time after it
/// starts, so attempts go on until the timeout has passed.
pub fn connect_step(elapsed_ms: u64, timeout_ms: u64) -> (r: ConnectStep)
    ensures
        elapsed_ms < timeout_ms ==> r == (ConnectStep::Try { then_wait_ms: RETRY_MS }),
        elapsed_ms >= timeout_ms ==> r == ConnectStep::GiveUp,
{
    if elapsed_ms < timeout_ms {
        ConnectStep::Try { then_wait_ms: RETRY_MS }
    } else {
        ConnectStep::GiveUp
    }
}

// ── Laws ──────────────────────────────────────────────────────────────────────

/// An event never ends the wait for a reply, whatever else it carries.
pub proof fn law_events_are_skipped(
    list: Seq<(Seq<char>, (bool, Seq<char>))>,
    id: u32,
    r: Reply,
)
    requires
        member(list, "event"@) is Some,
        means(Some(list), id, r),
    ensures
        r is Skip,
{
}

/// A line answers at most one query: what is not skipped under one number is skipped under every
/// other.
pub proof fn law_reply_has_one_reader(
    list: Option<Seq<(Seq<char>, (bool, Seq<char>))>>,
    a: u32,
    b: u32,
    for_a: Reply,
    for_b: Reply,
)
    requires
        a != b,
        means(list, a, for_a),
        means(list, b, for_b),
    ensures
        for_a is Skip || for_b is Skip,
{
}

/// A successful reply under the number that a query carried, whatever that is, hands out its data
/// to that query.
pub proof fn law_reply_reaches_its_query(
    list: Seq<(Seq<char>, (bool, Seq<char>))>,
    id: u32,
    data: (bool, Seq<char>),
    r: Reply,
)
    requires
        member(list, "event"@) is None,
        member(list, "request_id"@) == Some((false, decimal(id as nat))),
        member(list, "error"@) == Some((true, "success"@)),
        member(list, "data"@) == Some(data),
        means(Some(list), id, r),
    ensures
        r matches Reply::Data(value) && value@ == data,
{
    law_whole_number_reads_back(id as u64);
}

/// The playback position is the number that `mpv` reports, to the microsecond: what a seek writes
/// reads back as itself, and a later position is a larger number. Whatever is no number counts as the
/// start.
pub proof fn law_playback_time_is_the_number_reported(
    written: String,
    pts_us: i64,
    a: String,
    b: String,
    failure: String,
)
    requires
        pts_us > i64::MIN,
        written@ == seconds(pts_us as int),
    ensures
        position_in(Ok(Json::Raw(written))) == pts_us,
        decimal_number(a@) matches Some(x) ==> position_in(Ok(Json::Raw(a))) == x,
        (decimal_number(a@) matches Some(x) && decimal_number(b@) matches Some(y) && x < y)
            ==> position_in(Ok(Json::Raw(a))) < position_in(Ok(Json::Raw(b))),
        decimal_number(a@) is None ==> position_in(Ok(Json::Raw(a))) == 0,
        position_in(Ok(Json::Text(a))) == 0,
        position_in(Ok(Json::Null)) == 0,
        position_in(Err(failure)) == 0,
{
    law_position_reads_back(pts_us);
}

/// A member is found by its name: the first one of that name, and none where no member has it.
pub proof fn law_member_is_found_by_name(
    list: Seq<(Seq<char>, (bool, Seq<char>))>,
    key: Seq<char>,
    i: int,
)
    ensures
        0 <= i < list.len() && list[i].0 == key && (forall|j: int|
            0 <= j < i ==> (#[trigger] list[j]).0 != key) ==> member(list, key) == Some(list[i].1),
        (forall|j: int| 0 <= j < list.len() ==> (#[trigger] list[j]).0 != key) ==> member(list, key)
            is None,
    decreases list.len(),
{
    if list.len() > 0 {
        let rest = list.skip(1);
        law_member_is_found_by_name(rest, key, i - 1);
        if 0 < i < list.len() && list[i].0 == key && (forall|j: int|
            0 <= j < i ==> (#[trigger] list[j]).0 != key) {
            assert(list[0].0 != key);
            assert(rest[i - 1] == list[i]);
            assert forall|j: int| 0 <= j < i - 1 implies (#[trigger] rest[j]).0 != key by {
                assert(rest[j] == list[j + 1]);
            }
        }
        if forall|j: int| 0 <= j < list.len() ==> (#[trigger] list[j]).0 != key {
            assert forall|j: int| 0 <= j < rest.len() implies (#[trigger] rest[j]).0 != key by {
                assert(rest[j] == list[j + 1]);
            }
        }
    }
}

/// What a reply says is handed on: an error of `mpv` as it is worded, data as it came and `null`
/// without any, and a reply without a readable error as such.
pub proof fn law_replies_are_handed_on(
    list: Seq<(Seq<char>, (bool, Seq<char>))>,
    id: u32,
    r: Reply,
)
    requires
        means(Some(list), id, r),
        member(list, "event"@) is None,
        member(list, "request_id"@) == Some((false, decimal(id as nat))),
    ensures
        member(list, "error"@) matches Some(error) ==> {
            &&& error.0 && error.1 != "success"@ ==> (r matches Reply::Refused(text) && text@
                == error.1)
            &&& error == (true, "success"@) ==> (r matches Reply::Data(value) && (member(
                list,
                "data"@,
            ) matches Some(data) ==> value@ == data) && (member(list, "data"@) is None ==> value@ == (
                false,
                "null"@,
            )))
            &&& !error.0 ==> r is MissingError
        },
        member(list, "error"@) is None ==> r is MissingError,
{
    law_whole_number_reads_back(id as u64);
}

/// A line that is not JSON, or carries no number under `request_id`, is skipped by every query.
pub proof fn law_other_lines_are_skipped(
    list: Seq<(Seq<char>, (bool, Seq<char>))>,
    id: u32,
    for_list: Reply,
    for_nothing: Reply,
)
    requires
        means(Some(list), id, for_list),
        means(None, id, for_nothing),
    ensures
        for_nothing is Skip,
        member(list, "request_id"@) is None ==> for_list is Skip,
        member(list, "request_id"@) matches Some(value) ==> (value.0 || whole_number(value.1) != Some(
            id as u64,
        )) ==> for_list is Skip,
{
}

/// The wait for a reply ends with the first line that is not skipped, and with nothing if there is
/// none.
pub proof fn law_first_reply_counts(lines: Seq<Seq<char>>, id: u32, r: Option<Reply>)
    requires
        hears(lines, id, r),
    ensures
        r is None <==> forall|j: int| 0 <= j < lines.len() ==> is_skipped(#[trigger] lines[j], id),
        r matches Some(reply) ==> exists|i: int|
            {
                &&& 0 <= i < lines.len()
                &&& !is_skipped(#[trigger] lines[i], id)
                &&& means(members_in(lines[i]), id, reply)
                &&& forall|j: int| 0 <= j < i ==> is_skipped(#[trigger] lines[j], id)
            },
    decreases lines.len(),
{
    if lines.len() > 0 {
        let rest = lines.skip(1);
        if is_skipped(lines[0], id) {
            law_first_reply_counts(rest, id, r);
            if let Some(reply) = r {
                let i = choose|i: int|
                    {
                        &&& 0 <= i < rest.len()
                        &&& !is_skipped(#[trigger] rest[i], id)
                        &&& means(members_in(rest[i]), id, reply)
                        &&& forall|j: int| 0 <= j < i ==> is_skipped(#[trigger] rest[j], id)
                    };
                assert(lines[i + 1] == rest[i]);
                assert forall|j: int| 0 <= j < i + 1 implies is_skipped(#[trigger] lines[j], id) by {
                    if j > 0 {
                        assert(rest[j - 1] == lines[j]);
                    }
                }
                assert(!is_skipped(lines[i + 1], id));
            } else {
                assert forall|j: int| 0 <= j < lines.len() implies is_skipped(
                    #[trigger] lines[j],
                    id,
                ) by {
                    if j > 0 {
                        assert(rest[j - 1] == lines[j]);
                    }
                }
            }
        } else {
            assert(!is_skipped(lines[0], id));
        }
    }
}

/// A line is skipped by a query exactly if it is not JSON, is an event, or does not carry the query's
/// number.
pub proof fn law_skipped_lines_say_nothing(line: Seq<char>, id: u32, r: Reply)
    requires
        means(members_in(line), id, r),
    ensures
        is_skipped(line, id) <==> r is Skip,
{
}

/// What is written is the command as it was given: one object on a line of its own, with the arguments
/// under `command` in order, and the number of a query under `request_id`.
pub proof fn law_line_carries_the_command(args: Seq<(bool, Seq<char>)>, id: nat)
    requires
        forall|i: int|
            0 <= i < args.len() ==> (#[trigger] args[i]).0 || json_value(args[i].1) is Some,
    ensures
        command(args) == json_object("command"@, args, Seq::empty()) + seq!['\n'],
        json_value(decimal(id)) is Some ==> request(args, id) == json_object(
            "command"@,
            args,
            seq![("request_id"@, (false, decimal(id)))],
        ) + seq!['\n'],
{
    let given = args.map_values(|value: (bool, Seq<char>)| writable(value));
    assert(given =~= args) by {
        assert forall|i: int| 0 <= i < args.len() implies #[trigger] given[i] == args[i] by {
            assert(args[i].0 || json_value(args[i].1) is Some);
        }
    }
    let none = Seq::<(Seq<char>, (bool, Seq<char>))>::empty();
    assert(none.map_values(
        |member: (Seq<char>, (bool, Seq<char>))| (member.0, writable(member.1)),
    ) =~= none);
    let number = seq![("request_id"@, (false, decimal(id)))];
    if json_value(decimal(id)) is Some {
        assert(number.map_values(
            |member: (Seq<char>, (bool, Seq<char>))| (member.0, writable(member.1)),
        ) =~= number);
    }
}

/// A property is set by the command of that name, with the property and its value.
pub proof fn law_property_is_set_by_command(name: Seq<char>, value: (bool, Seq<char>))
    ensures
        property(name, value) == command(seq![(true, "set_property"@), (true, name), value]),
{
}

/// A failed query says for which property it failed, and why in the words of `mpv`.
pub proof fn law_failures_say_why(reason: String, data: Json, name: Seq<char>)
    ensures
        failure(Reply::Refused(reason), name) == Some(
            "mpv get_property("@ + name + ") error: "@ + reason@,
        ),
        failure(Reply::MissingError, name) == Some("mpv response missing error field"@),
        failure(Reply::Data(data), name) is None,
        failure(Reply::Skip, name) is None,
{
}

/// Lists of values and members keep every entry at its place; a value is what it holds.
pub proof fn law_values_keep_their_entries(
    list: Seq<Json>,
    rest: Seq<Member>,
    text: String,
    i: int,
)
    ensures
        values(list).len() == list.len(),
        members(rest).len() == rest.len(),
        0 <= i < list.len() ==> values(list)[i] == list[i]@,
        0 <= i < rest.len() ==> members(rest)[i] == (rest[i].key@, rest[i].value@),
        Json::Text(text)@ == (true, text@),
        Json::Raw(text)@ == (false, text@),
        Json::Null@ == (false, "null"@),
{
}

/// The members of a line are those of the object that it holds, white space around it aside.
pub proof fn law_line_holds_its_object(line: Seq<char>)
    ensures
        json_value(trimmed(line)) is None <==> members_in(line) is None,
        json_value(trimmed(line)) matches Some(Some(list)) ==> members_in(line) == Some(list),
        json_value(trimmed(line)) matches Some(None) ==> members_in(line) == Some(
            Seq::<(Seq<char>, (bool, Seq<char>))>::empty(),
        ),
{
}

/// `mpv` is told the very number that is meant: a position and a speed read back to the millionth, and a
/// volume as itself.
pub proof fn law_numbers_told_read_back(pts_us: i64, millionths: i64, pct: u32)
    requires
        pts_us > i64::MIN,
        millionths > i64::MIN,
    ensures
        seek_args(pts_us as int).len() == 3,
        seek_args(pts_us as int)[0] == (true, "seek"@),
        !seek_args(pts_us as int)[1].0,
        decimal_number(seek_args(pts_us as int)[1].1) == Some(pts_us as int),
        seek_args(pts_us as int)[2] == (true, "absolute"@),
        !speed_value(millionths as int).0,
        decimal_number(speed_value(millionths as int).1) == Some(millionths as int),
        !volume_value(pct as nat).0,
        whole_number(volume_value(pct as nat).1) == Some(pct as u64),
{
    law_position_reads_back(pts_us);
    law_position_reads_back(millionths);
    law_whole_number_reads_back(pct as u64);
}

} // verus!
