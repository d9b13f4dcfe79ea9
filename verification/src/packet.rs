//! The socket packet protocol: framing by a delimiter byte, the packet
//! envelope, and the correlation of a response with its request.

use crate::button::str_equal;
use crate::json::{
    copy_value, encode_json, is_null, is_object, json_encoding, json_member, json_null,
    json_object, json_object_of, json_string, json_string_of, member, object_of, parse_json,
    parsed_json, string_of, string_value,
};
use crate::token::{is_random_name, random_name};
use serde_json::Value;
use vstd::prelude::*;
use vstd::utf8::{decode_utf8, valid_utf8};

verus! {

/// The byte that ends every packet on the wire.
pub const DELIMITER: u8 = 4;

/// The length of a correlation token.
pub const TOKEN_LENGTH: usize = 20;

/// An envelope: what kind of message this is, the token of the exchange it
/// belongs to, if any, and its payload, if any.
pub struct SocketPacket {
    pub ty: String,
    pub requester: Option<String>,
    pub data: Option<Value>,
}

/// The value of a packet.
pub ghost struct PacketView {
    pub ty: Seq<char>,
    pub requester: Option<Seq<char>>,
    pub data: Option<Value>,
}

impl View for SocketPacket {
    type V = PacketView;

    open spec fn view(&self) -> PacketView {
        PacketView {
            ty: self.ty@,
            requester: match self.requester {
                Some(r) => Some(r@),
                None => None,
            },
            data: self.data,
        }
    }
}

/// Why reading a packet failed.
#[derive(Clone, Copy, Debug, PartialEq, Eq, Structural)]
pub enum SDClientError {
    /// The stream ended before the delimiter.
    DelimiterNotReached,
    /// The frame is not UTF-8.
    Utf8Error,
    /// The frame is not JSON, or the JSON is no packet.
    SerdeError,
}

/// The characters that `char::is_whitespace` accepts.
pub open spec fn is_whitespace(c: char) -> bool {
    let n = c as u32;
    ||| 0x09 <= n <= 0x0d
    ||| n == 0x20
    ||| n == 0x85
    ||| n == 0xa0
    ||| n == 0x1680
    ||| 0x2000 <= n <= 0x200a
    ||| n == 0x2028
    ||| n == 0x2029
    ||| n == 0x202f
    ||| n == 0x205f
    ||| n == 0x3000
}

/// `s` without its leading whitespace.
pub open spec fn trimmed_start(s: Seq<char>) -> Seq<char>
    decreases s.len(),
{
    if s.len() > 0 && is_whitespace(s[0]) {
        trimmed_start(s.skip(1))
    } else {
        s
    }
}

/// `s` without its trailing whitespace.
pub open spec fn trimmed_end(s: Seq<char>) -> Seq<char>
    decreases s.len(),
{
    if s.len() > 0 && is_whitespace(s.last()) {
        trimmed_end(s.drop_last())
    } else {
        s
    }
}

/// `s` without the whitespace around it.
pub open spec fn trimmed(s: Seq<char>) -> Seq<char> {
    trimmed_end(trimmed_start(s))
}

/// `s` without any delimiter character.
pub open spec fn without_delimiter(s: Seq<char>) -> Seq<char> {
    s.filter(|c: char| c != '\u{4}')
}

/// The text of an optional member that must be a string where it is
/// present and not null. The outer `None` says that the member is there
/// with another kind of value.
pub open spec fn optional_string(m: Option<Value>) -> Option<Option<Seq<char>>> {
    match m {
        None => Some(None),
        Some(v) => if json_null(v) {
            Some(None)
        } else {
            match json_string(v) {
                Some(s) => Some(Some(s)),
                None => None,
            }
        },
    }
}

/// An optional member of any kind; a null counts as absent.
pub open spec fn optional_value(m: Option<Value>) -> Option<Value> {
    match m {
        None => None,
        Some(v) => if json_null(v) {
            None
        } else {
            Some(v)
        },
    }
}

/// The packet that a JSON value stands for: an object with a string member
/// `name`, an optional string member `requester` and an optional member
/// `data`. `None` for any other value.
pub open spec fn decoded_packet(v: Value) -> Option<PacketView> {
    if !json_object(v) {
        None
    } else {
        match json_member(v, "name"@) {
            None => None,
            Some(n) => match json_string(n) {
                None => None,
                Some(ty) => match optional_string(json_member(v, "requester"@)) {
                    None => None,
                    Some(requester) => Some(
                        PacketView {
                            ty,
                            requester,
                            data: optional_value(json_member(v, "data"@)),
                        },
                    ),
                },
            },
        }
    }
}

/// Whether a frame ends with the delimiter.
pub open spec fn is_terminated(frame: Seq<u8>) -> bool {
    frame.len() > 0 && frame.last() == DELIMITER
}

/// What the bytes of one frame give: a packet, or the reason why not.
pub open spec fn frame_outcome(frame: Seq<u8>) -> Result<PacketView, SDClientError> {
    if !is_terminated(frame) {
        Err(SDClientError::DelimiterNotReached)
    } else if !valid_utf8(frame) {
        Err(SDClientError::Utf8Error)
    } else {
        match parsed_json(trimmed(without_delimiter(decode_utf8(frame)))) {
            None => Err(SDClientError::SerdeError),
            Some(v) => match decoded_packet(v) {
                None => Err(SDClientError::SerdeError),
                Some(p) => Ok(p),
            },
        }
    }
}

/// Calls `String::from_utf8`: the text of the bytes where they are valid
/// UTF-8, else `None`.
#[verifier::external_body]
fn utf8_text(bytes: Vec<u8>) -> (r: Option<String>)
    ensures
        r.is_some() == valid_utf8(bytes@),
        r matches Some(s) ==> s@ == decode_utf8(bytes@),
{
    String::from_utf8(bytes).ok()
}

/// Calls `str::replace` with a character as the pattern and the empty text
/// in its place: the text without any occurrence of the character.
#[verifier::external_body]
fn without_char(text: &str, c: char) -> (r: String)
    ensures
        r@ == text@.filter(|x: char| x != c),
{
    text.replace(c, "")
}

/// Calls `str::trim`: the text without the whitespace around it.
#[verifier::external_body]
fn trim_text(text: &str) -> (r: String)
    ensures
        r@ == trimmed(text@),
{
    text.trim().to_owned()
}

/// Reads a packet out of a JSON value.
pub fn packet_from_value(v: &Value) -> (r: Option<SocketPacket>)
    ensures
        match r {
            Some(p) => decoded_packet(*v) == Some(p@),
            None => decoded_packet(*v).is_none(),
        },
{
    if !is_object(v) {
        return None;
    }
    let ty = match member(v, "name") {
        None => {
            return None;
        },
        Some(n) => match string_of(n) {
            None => {
                return None;
            },
            Some(s) => s,
        },
    };
    let requester = match member(v, "requester") {
        None => None,
        Some(m) => {
            if is_null(m) {
                None
            } else {
                match string_of(m) {
                    Some(s) => Some(s),
                    None => {
                        return None;
                    },
                }
            }
        },
    };
    let data = match member(v, "data") {
        None => None,
        Some(m) => {
            if is_null(m) {
                None
            } else {
                Some(copy_value(m))
            }
        },
    };
    Some(SocketPacket { ty, requester, data })
}

/// Turns the bytes of one frame into a packet: the frame must end with the
/// delimiter and be UTF-8; without delimiter characters and surrounding
/// whitespace it must be the JSON of a packet.
pub fn parse_frame(frame: Vec<u8>) -> (r: Result<SocketPacket, SDClientError>)
    ensures
        match r {
            Ok(p) => frame_outcome(frame@) == Ok::<PacketView, SDClientError>(p@),
            Err(e) => frame_outcome(frame@) == Err::<PacketView, SDClientError>(e),
        },
{
    if frame.len() == 0 || frame[frame.len() - 1] != DELIMITER {
        return Err(SDClientError::DelimiterNotReached);
    }
    let ghost bytes = frame@;
    let line = match utf8_text(frame) {
        None => {
            return Err(SDClientError::Utf8Error);
        },
        Some(s) => s,
    };
    let stripped = without_char(line.as_str(), '\u{4}');
    let text = trim_text(stripped.as_str());
    match parse_json(text.as_str()) {
        None => Err(SDClientError::SerdeError),
        Some(v) => match packet_from_value(&v) {
            None => Err(SDClientError::SerdeError),
            Some(p) => Ok(p),
        },
    }
}

/// The number of bytes before the first delimiter of `s`; its length where
/// it holds none.
pub open spec fn delimiter_index(s: Seq<u8>) -> int
    decreases s.len(),
{
    if s.len() == 0 || s[0] == DELIMITER {
        0
    } else {
        1 + delimiter_index(s.skip(1))
    }
}

/// The length of the first frame of `s`: up to and with the first
/// delimiter, or all of `s` where it holds none.
pub open spec fn frame_length(s: Seq<u8>) -> int {
    if delimiter_index(s) < s.len() {
        delimiter_index(s) + 1
    } else {
        s.len() as int
    }
}

/// The first frame of `s`.
pub open spec fn first_frame(s: Seq<u8>) -> Seq<u8> {
    s.take(frame_length(s))
}

/// Where the first delimiter stands: no delimiter before `i`, and at `i`
/// either a delimiter or the end.
pub proof fn lemma_delimiter_index(s: Seq<u8>, i: int)
    requires
        0 <= i <= s.len(),
        forall|j: int| 0 <= j < i ==> s[j] != DELIMITER,
        i < s.len() ==> s[i] == DELIMITER,
    ensures
        delimiter_index(s) == i,
    decreases i,
{
    if i > 0 {
        let t = s.skip(1);
        assert forall|j: int| 0 <= j < i - 1 implies t[j] != DELIMITER by {
            assert(t[j] == s[j + 1]);
        }
        lemma_delimiter_index(t, i - 1);
    }
}

/// The receiving side of a connection: the bytes that arrived, and how
/// many of them have been read.
pub struct SocketReader {
    pub data: Vec<u8>,
    pub pos: usize,
}

impl SocketReader {
    /// The invariant of a reader.
    pub open spec fn wf(&self) -> bool {
        self.pos <= self.data@.len()
    }

    /// The bytes not read yet.
    pub open spec fn remaining(&self) -> Seq<u8> {
        self.data@.skip(self.pos as int)
    }

    /// A reader at the start of `data`.
    pub fn new(data: Vec<u8>) -> (r: SocketReader)
        ensures
            r.wf(),
            r.data == data,
            r.pos == 0,
            r.remaining() == data@,
    {
        let r = SocketReader { data, pos: 0 };
        assert(r.remaining() =~= data@);
        r
    }

    /// Reads up to and with the next delimiter, or to the end of what
    /// arrived where no delimiter is left.
    pub fn read_until_delimiter(&mut self) -> (frame: Vec<u8>)
        requires
            old(self).wf(),
        ensures
            final(self).wf(),
            final(self).data == old(self).data,
            frame@ == first_frame(old(self).remaining()),
            final(self).pos == old(self).pos + frame@.len(),
            final(self).remaining() == old(self).remaining().skip(frame@.len() as int),
    {
        let ghost rem = self.remaining();
        let mut frame: Vec<u8> = Vec::new();
        let start = self.pos;
        let mut found = false;
        while self.pos < self.data.len() && !found
            invariant
                self.wf(),
                self.data == old(self).data,
                start == old(self).pos,
                start <= self.pos,
                rem == old(self).remaining(),
                frame@ == rem.take(self.pos - start),
                !found ==> forall|j: int| 0 <= j < self.pos - start ==> rem[j] != DELIMITER,
                found ==> self.pos > start && rem[self.pos - start - 1] == DELIMITER && forall|j: int|
                    0 <= j < self.pos - start - 1 ==> rem[j] != DELIMITER,
            decreases self.data@.len() - self.pos + (if found { 0int } else { 1int }),
        {
            let b = self.data[self.pos];
            assert(rem[self.pos - start] == b);
            frame.push(b);
            assert(frame@ =~= rem.take(self.pos - start + 1));
            self.pos = self.pos + 1;
            if b == DELIMITER {
                found = true;
            }
        }
        proof {
            if found {
                lemma_delimiter_index(rem, self.pos - start - 1);
            } else {
                lemma_delimiter_index(rem, self.pos - start);
            }
            assert(self.remaining() =~= rem.skip(frame@.len() as int));
        }
        frame
    }
}

/// The token that a packet answers to; the empty text where it names none.
pub open spec fn requester_of(p: PacketView) -> Seq<char> {
    match p.requester {
        Some(r) => r,
        None => Seq::empty(),
    }
}

/// What waiting for the response to `requester` on the bytes `s` gives, and
/// how many bytes it reads: packets for another requester are read and
/// dropped; the first packet for `requester` is the response; the first
/// frame that is no packet ends the wait with its error.
pub open spec fn response_outcome(s: Seq<u8>, requester: Seq<char>) -> (
    Result<PacketView, SDClientError>,
    int,
)
    decreases s.len(),
{
    let frame = first_frame(s);
    match frame_outcome(frame) {
        Err(e) => (Err(e), frame.len() as int),
        Ok(p) => if requester_of(p) == requester || !(0 < frame.len() <= s.len()) {
            (Ok(p), frame.len() as int)
        } else {
            let rest = response_outcome(s.skip(frame.len() as int), requester);
            (rest.0, frame.len() + rest.1)
        },
    }
}

/// Reads the next packet of the connection.
pub fn read_socket(handle: &mut SocketReader) -> (r: Result<SocketPacket, SDClientError>)
    requires
        old(handle).wf(),
    ensures
        final(handle).wf(),
        final(handle).data == old(handle).data,
        final(handle).pos == old(handle).pos + first_frame(old(handle).remaining()).len(),
        match r {
            Ok(p) => frame_outcome(first_frame(old(handle).remaining())) == Ok::<
                PacketView,
                SDClientError,
            >(p@),
            Err(e) => frame_outcome(first_frame(old(handle).remaining())) == Err::<
                PacketView,
                SDClientError,
            >(e),
        },
{
    let frame = handle.read_until_delimiter();
    parse_frame(frame)
}

/// Whether a packet answers to `requester`. A packet without a token
/// counts as answering to the empty token.
pub fn is_response(packet: &SocketPacket, requester: &str) -> (r: bool)
    ensures
        r == (requester_of(packet@) == requester@),
{
    match &packet.requester {
        Some(token) => str_equal(token.as_str(), requester),
        None => {
            let empty = String::new();
            str_equal(empty.as_str(), requester)
        },
    }
}

/// Reads packets until one answers to `requester` and returns it. Every
/// packet read before it is dropped. A frame that is no packet ends the
/// wait with its error.
pub fn read_response(handle: &mut SocketReader, requester: &str) -> (r: Result<
    SocketPacket,
    SDClientError,
>)
    requires
        old(handle).wf(),
    ensures
        final(handle).wf(),
        final(handle).data == old(handle).data,
        final(handle).pos == old(handle).pos + response_outcome(
            old(handle).remaining(),
            requester@,
        ).1,
        match r {
            Ok(p) => response_outcome(old(handle).remaining(), requester@).0 == Ok::<
                PacketView,
                SDClientError,
            >(p@),
            Err(e) => response_outcome(old(handle).remaining(), requester@).0 == Err::<
                PacketView,
                SDClientError,
            >(e),
        },
{
    loop
        invariant
            handle.wf(),
            handle.data == old(handle).data,
            old(handle).pos <= handle.pos,
            response_outcome(old(handle).remaining(), requester@).0 == response_outcome(
                handle.remaining(),
                requester@,
            ).0,
            response_outcome(old(handle).remaining(), requester@).1 == handle.pos - old(
                handle,
            ).pos + response_outcome(handle.remaining(), requester@).1,
        decreases handle.data@.len() - handle.pos,
    {
        let ghost rem = handle.remaining();
        let ghost before = handle.pos;
        match read_socket(handle) {
            Err(e) => {
                return Err(e);
            },
            Ok(packet) => {
                if is_response(&packet, requester) {
                    return Ok(packet);
                }
                proof {
                    assert(is_terminated(first_frame(rem)));
                    assert(handle.remaining() =~= rem.skip(first_frame(rem).len() as int));
                }
            },
        }
    }
}

/// The members of the JSON object that carries a packet: `name` always,
/// `requester` and `data` where the packet has them.
pub open spec fn packet_entries(p: PacketView) -> Seq<(Seq<char>, Value)> {
    seq![("name"@, json_string_of(p.ty))] + (match p.requester {
        Some(r) => seq![("requester"@, json_string_of(r))],
        None => Seq::empty(),
    }) + (match p.data {
        Some(d) => seq![("data"@, d)],
        None => Seq::empty(),
    })
}

/// The bytes of a packet on the wire: its JSON object, then the delimiter;
/// `None` where the object cannot be encoded.
pub open spec fn packet_bytes(p: PacketView) -> Option<Seq<u8>> {
    match json_encoding(json_object_of(packet_entries(p))) {
        Some(bytes) => Some(bytes.push(DELIMITER)),
        None => None,
    }
}

/// The JSON object that carries a packet.
pub fn packet_to_value(packet: &SocketPacket) -> (v: Value)
    ensures
        v == json_object_of(packet_entries(packet@)),
{
    let mut entries: Vec<(String, Value)> = Vec::new();
    entries.push(("name".to_owned(), string_value(packet.ty.as_str())));
    match &packet.requester {
        Some(r) => {
            entries.push(("requester".to_owned(), string_value(r.as_str())));
        },
        None => {},
    }
    match &packet.data {
        Some(d) => {
            entries.push(("data".to_owned(), copy_value(d)));
        },
        None => {},
    }
    assert(entries@.map_values(|e: (String, Value)| (e.0@, e.1)) =~= packet_entries(packet@));
    object_of(entries)
}

/// Appends a packet to the bytes to send. It succeeds exactly where the
/// packet can be encoded; else nothing is appended.
pub fn write_packet(out: &mut Vec<u8>, packet: &SocketPacket) -> (r: Result<(), SDClientError>)
    ensures
        match packet_bytes(packet@) {
            Some(bytes) => r.is_ok() && final(out)@ == old(out)@ + bytes,
            None => r == Err::<(), SDClientError>(SDClientError::SerdeError) && final(out)@
                == old(out)@,
        },
{
    let v = packet_to_value(packet);
    match encode_json(&v) {
        None => Err(SDClientError::SerdeError),
        Some(bytes) => {
            let mut bytes = bytes;
            bytes.push(DELIMITER);
            out.append(&mut bytes);
            Ok(())
        },
    }
}

/// A connection: what arrived, and what was sent.
pub struct SocketConnection {
    pub reader: SocketReader,
    pub written: Vec<u8>,
}

/// What one exchange under `token` does to a connection and gives back:
/// where the request can be encoded it is sent, and then the response to
/// `token` is awaited; where it cannot, nothing is sent or read.
pub open spec fn exchange_holds(
    token: Seq<char>,
    before: SocketConnection,
    after: SocketConnection,
    name: Seq<char>,
    data: Option<Value>,
    r: Result<SocketPacket, SDClientError>,
) -> bool {
    let request = PacketView { ty: name, requester: Some(token), data };
    let awaited = response_outcome(before.reader.remaining(), token);
    &&& after.reader.wf()
    &&& after.reader.data == before.reader.data
    &&& match packet_bytes(request) {
        Some(bytes) => {
            &&& after.written@ == before.written@ + bytes
            &&& after.reader.pos == before.reader.pos + awaited.1
            &&& match r {
                Ok(p) => awaited.0 == Ok::<PacketView, SDClientError>(p@),
                Err(e) => awaited.0 == Err::<PacketView, SDClientError>(e),
            }
        },
        None => {
            &&& after.written@ == before.written@
            &&& after.reader.pos == before.reader.pos
            &&& r == Err::<SocketPacket, SDClientError>(SDClientError::SerdeError)
        },
    }
}

/// Sends the request `name` with `data` under `token` and waits for the
/// response to that token.
pub fn exchange(handle: &mut SocketConnection, token: &str, name: &str, data: Option<Value>) -> (r:
    Result<SocketPacket, SDClientError>)
    requires
        old(handle).reader.wf(),
    ensures
        exchange_holds(token@, *old(handle), *final(handle), name@, data, r),
{
    let request = SocketPacket {
        ty: name.to_owned(),
        requester: Some(token.to_owned()),
        data,
    };
    match write_packet(&mut handle.written, &request) {
        Err(e) => Err(e),
        Ok(_) => read_response(&mut handle.reader, token),
    }
}

/// A fresh correlation token.
pub fn new_token() -> (token: String)
    ensures
        is_random_name(token@, TOKEN_LENGTH as int),
{
    random_name(TOKEN_LENGTH)
}

/// Sends the request `name` with `data` under a fresh random token and
/// waits for the response to it.
pub fn process_request(handle: &mut SocketConnection, name: &str, data: Value) -> (r: Result<
    SocketPacket,
    SDClientError,
>)
    requires
        old(handle).reader.wf(),
    ensures
        exists|token: Seq<char>|
            is_random_name(token, TOKEN_LENGTH as int) && #[trigger] exchange_holds(
                token,
                *old(handle),
                *final(handle),
                name@,
                Some(data),
                r,
            ),
{
    let id = new_token();
    exchange(handle, id.as_str(), name, Some(data))
}

/// Sends the request `name` without data under a fresh random token and
/// waits for the response to it.
pub fn process_request_without_data(handle: &mut SocketConnection, name: &str) -> (r: Result<
    SocketPacket,
    SDClientError,
>)
    requires
        old(handle).reader.wf(),
    ensures
        exists|token: Seq<char>|
            is_random_name(token, TOKEN_LENGTH as int) && #[trigger] exchange_holds(
                token,
                *old(handle),
                *final(handle),
                name@,
                None,
                r,
            ),
{
    let id = new_token();
    exchange(handle, id.as_str(), name, None)
}

/// The response to `request` under the name `name`: it carries the token
/// of the request, so that the requester finds it.
pub fn response_to(request: &SocketPacket, name: &str, data: Option<Value>) -> (r: SocketPacket)
    ensures
        r@ == (PacketView { ty: name@, requester: request@.requester, data }),
{
    let requester = match &request.requester {
        Some(token) => Some(token.clone()),
        None => None,
    };
    SocketPacket { ty: name.to_owned(), requester, data }
}

/// An event: a packet without token, meant for every client.
pub fn event_packet(name: &str, data: Option<Value>) -> (r: SocketPacket)
    ensures
        r@ == (PacketView { ty: name@, requester: None, data }),
{
    SocketPacket { ty: name.to_owned(), requester: None, data }
}

/// Appends `packet` to what is to be sent to each of `clients`. It
/// succeeds exactly where the packet can be encoded; else no client gets
/// anything.
pub fn send_event_to_socket(clients: &mut Vec<Vec<u8>>, packet: &SocketPacket) -> (r: Result<
    (),
    SDClientError,
>)
    ensures
        final(clients)@.len() == old(clients)@.len(),
        match packet_bytes(packet@) {
            Some(bytes) => r.is_ok() && forall|i: int|
                0 <= i < old(clients)@.len() ==> (#[trigger] final(clients)@[i])@ == old(
                    clients,
                )@[i]@ + bytes,
            None => r == Err::<(), SDClientError>(SDClientError::SerdeError) && final(clients)@
                == old(clients)@,
        },
{
    let mut bytes: Vec<u8> = Vec::new();
    match write_packet(&mut bytes, packet) {
        Err(e) => Err(e),
        Ok(_) => {
            let ghost sent = packet_bytes(packet@).unwrap();
            assert(bytes@ =~= sent);
            let mut i: usize = 0;
            while i < clients.len()
                invariant
                    i <= clients.len(),
                    clients@.len() == old(clients)@.len(),
                    bytes@ == sent,
                    forall|j: int|
                        0 <= j < i ==> (#[trigger] clients@[j])@ == old(clients)@[j]@ + sent,
                    forall|j: int| i <= j < clients@.len() ==> clients@[j] == old(clients)@[j],
                decreases clients.len() - i,
            {
                let mut out = clients.remove(i);
                let mut copy = bytes.clone();
                out.append(&mut copy);
                clients.insert(i, out);
                i = i + 1;
            }
            Ok(())
        },
    }
}

/// What the first delimiter is: a place within bounds, a delimiter where it
/// is not the end, and no delimiter before it.
pub proof fn lemma_delimiter_index_is_first(s: Seq<u8>)
    ensures
        0 <= delimiter_index(s) <= s.len(),
        delimiter_index(s) < s.len() ==> s[delimiter_index(s)] == DELIMITER,
        forall|j: int| 0 <= j < delimiter_index(s) ==> s[j] != DELIMITER,
    decreases s.len(),
{
    if s.len() > 0 && s[0] != DELIMITER {
        let t = s.skip(1);
        lemma_delimiter_index_is_first(t);
        assert forall|j: int| 0 <= j < delimiter_index(s) implies s[j] != DELIMITER by {
            if j > 0 {
                assert(t[j - 1] == s[j]);
            }
        }
    }
}

/// Whether `f` is one whole frame: it ends with the delimiter and holds no
/// other.
pub open spec fn is_frame(f: Seq<u8>) -> bool {
    f.len() > 0 && delimiter_index(f) == f.len() - 1
}

/// The frames one after the other.
pub open spec fn joined(frames: Seq<Seq<u8>>) -> Seq<u8>
    decreases frames.len(),
{
    if frames.len() == 0 {
        Seq::empty()
    } else {
        frames[0] + joined(frames.skip(1))
    }
}

/// A whole frame at the head of a stream is its first frame.
pub proof fn lemma_first_frame_of_join(f: Seq<u8>, rest: Seq<u8>)
    requires
        is_frame(f),
    ensures
        first_frame(f + rest) == f,
        (f + rest).skip(f.len() as int) == rest,
        is_terminated(f),
{
    let s = f + rest;
    lemma_delimiter_index_is_first(f);
    assert forall|j: int| 0 <= j < f.len() - 1 implies s[j] != DELIMITER by {
        assert(s[j] == f[j]);
    }
    assert(s[f.len() - 1] == f[f.len() - 1]);
    lemma_delimiter_index(s, f.len() - 1);
    assert(s.take(f.len() as int) =~= f);
    assert(s.skip(f.len() as int) =~= rest);
}

/// Correlation over any run of packets. Where a stream holds whole frames
/// that are packets, of which only the last answers to `requester`, the
/// wait returns that last packet: every packet before it is read and
/// dropped, and nothing after it is read.
pub proof fn lemma_wait_skips_foreign_packets(
    frames: Seq<Seq<u8>>,
    tail: Seq<u8>,
    requester: Seq<char>,
)
    requires
        frames.len() >= 1,
        forall|i: int|
            0 <= i < frames.len() ==> is_frame(#[trigger] frames[i]) && frame_outcome(
                frames[i],
            ).is_ok(),
        forall|i: int|
            0 <= i < frames.len() - 1 ==> requester_of(
                frame_outcome(#[trigger] frames[i]).unwrap(),
            ) != requester,
        requester_of(frame_outcome(frames.last()).unwrap()) == requester,
    ensures
        response_outcome(joined(frames) + tail, requester) == (
            frame_outcome(frames.last()),
            joined(frames).len() as int,
        ),
    decreases frames.len(),
{
    let f = frames[0];
    let rest = frames.skip(1);
    let s = joined(frames) + tail;
    assert(s =~= f + (joined(rest) + tail));
    lemma_first_frame_of_join(f, joined(rest) + tail);
    if frames.len() == 1 {
        assert(joined(rest) =~= Seq::<u8>::empty());
        assert(frames.last() == f);
    } else {
        assert forall|i: int| 0 <= i < rest.len() implies is_frame(#[trigger] rest[i])
            && frame_outcome(rest[i]).is_ok() by {
            assert(rest[i] == frames[i + 1]);
        }
        assert forall|i: int| 0 <= i < rest.len() - 1 implies requester_of(
            frame_outcome(#[trigger] rest[i]).unwrap(),
        ) != requester by {
            assert(rest[i] == frames[i + 1]);
        }
        assert(rest.last() == frames.last());
        lemma_wait_skips_foreign_packets(rest, tail, requester);
        assert(requester_of(frame_outcome(f).unwrap()) != requester);
    }
}

} // verus!
