//! The messages of the protocol, how they are built and how they are parsed.
//!
//! Byte 1 of every message is its type. An `Ask` carries the file size in
//! bytes 2 to 5 (big-endian), the length of the file name in byte 6, and then
//! the file name in UTF-8: at most 254 bytes of it, cut where a character
//! starts so that what is sent is still UTF-8.

use vstd::prelude::*;
use vstd::string::StringSliceAdditionalSpecFns;
use vstd::utf8::*;

use crate::comms::{
    be_bytes, be_value, lemma_be_bytes_order, lemma_string_field_read, lemma_u32_roundtrip,
    string_field_chars, string_field_readable, Deserialiser, Encoder, Serialiser,
};

verus! {

broadcast use vstd::string::group_string_axioms;

/// The type of a message, which its first byte names.
#[derive(Clone, Copy, Debug, PartialEq, Eq, Structural)]
pub enum MessageType {
    Ask,
    AskOk,
    AskDeny,
    Data,
    DataRecvd,
}

impl MessageType {
    /// The byte that names this type.
    pub open spec fn code(self) -> u8 {
        match self {
            MessageType::Ask => 1,
            MessageType::AskOk => 2,
            MessageType::AskDeny => 3,
            MessageType::Data => 4,
            MessageType::DataRecvd => 5,
        }
    }

    /// The byte that names this type.
    pub fn to_u8(self) -> (b: u8)
        ensures
            b == self.code(),
    {
        match self {
            MessageType::Ask => 1,
            MessageType::AskOk => 2,
            MessageType::AskDeny => 3,
            MessageType::Data => 4,
            MessageType::DataRecvd => 5,
        }
    }
}

impl Encoder for MessageType {
    open spec fn encoding(&self) -> Seq<u8> {
        seq![self.code()]
    }

    fn to_bytes(&self) -> (bytes: Vec<u8>) {
        vec![self.clone().to_u8()]
    }
}

/// What an `Ask` message says: how large the file is and what it is called.
#[derive(Debug)]
pub struct AskInfo {
    pub file_size: u32,
    pub file_name: String,
}

/// A parsed message.
pub enum Message {
    Ask(AskInfo),
    AskOk,
    AskDeny,
    Data,
    DataRecvd,
}

/// The mathematical content of a message.
pub enum MessageView {
    Ask { file_size: u32, file_name: Seq<char> },
    AskOk,
    AskDeny,
    Data,
    DataRecvd,
}

impl View for Message {
    type V = MessageView;

    open spec fn view(&self) -> MessageView {
        match self {
            Message::Ask(info) => MessageView::Ask {
                file_size: info.file_size,
                file_name: info.file_name@,
            },
            Message::AskOk => MessageView::AskOk,
            Message::AskDeny => MessageView::AskDeny,
            Message::Data => MessageView::Data,
            Message::DataRecvd => MessageView::DataRecvd,
        }
    }
}

/// The body of an `Ask` message: the file size, then the file name.
pub open spec fn parse_ask_spec(body: Seq<u8>) -> Option<MessageView> {
    if body.len() >= 4 && string_field_readable(body.skip(4)) {
        Some(
            MessageView::Ask {
                file_size: be_value(body),
                file_name: string_field_chars(body.skip(4)),
            },
        )
    } else {
        None
    }
}

/// The message that `bytes` hold, if they hold one.
pub open spec fn parse_spec(bytes: Seq<u8>) -> Option<MessageView> {
    if bytes.len() == 0 {
        None
    } else if bytes[0] == 1 {
        parse_ask_spec(bytes.skip(1))
    } else if bytes[0] == 2 {
        Some(MessageView::AskOk)
    } else if bytes[0] == 3 {
        Some(MessageView::AskDeny)
    } else if bytes[0] == 4 {
        Some(MessageView::Data)
    } else if bytes[0] == 5 {
        Some(MessageView::DataRecvd)
    } else {
        None
    }
}

/// The largest character boundary of `bytes` at or below `k`.
pub open spec fn boundary_at_or_below(bytes: Seq<u8>, k: int) -> int
    decreases k,
{
    if k <= 0 {
        0
    } else if is_char_boundary(bytes, k) {
        k
    } else {
        boundary_at_or_below(bytes, k - 1)
    }
}

/// How many bytes of a file name's UTF-8 encoding an `Ask` carries: all of
/// them up to 254, else as many as end at the last character boundary at or
/// below 254.
pub open spec fn kept_name_len(bytes: Seq<u8>) -> int {
    boundary_at_or_below(bytes, if bytes.len() <= 254 { bytes.len() as int } else { 254 })
}

/// The bytes of a file name that an `Ask` carries.
pub open spec fn kept_name(file_name: Seq<char>) -> Seq<u8> {
    encode_utf8(file_name).take(kept_name_len(encode_utf8(file_name)))
}

/// The bytes of an `Ask` message for a file called `file_name` of `file_size`
/// bytes: the type, the size, the length of the name kept, the name kept.
pub open spec fn ask_bytes(file_name: Seq<char>, file_size: u32) -> Seq<u8> {
    seq![MessageType::Ask.code()] + be_bytes(file_size) + seq![kept_name(file_name).len() as u8]
        + kept_name(file_name)
}

/// `boundary_at_or_below` is a character boundary, at most `k`, and no larger
/// one is at or below `k`.
pub proof fn lemma_boundary_at_or_below(bytes: Seq<u8>, k: int)
    requires
        valid_utf8(bytes),
        k <= bytes.len(),
    ensures
        0 <= boundary_at_or_below(bytes, k),
        k >= 0 ==> boundary_at_or_below(bytes, k) <= k,
        is_char_boundary(bytes, boundary_at_or_below(bytes, k)),
        forall|j: int|
            boundary_at_or_below(bytes, k) < j <= k ==> !#[trigger] is_char_boundary(bytes, j),
    decreases k,
{
    is_char_boundary_start_end_of_seq(bytes);
    if k > 0 && !is_char_boundary(bytes, k) {
        lemma_boundary_at_or_below(bytes, k - 1);
    }
}

/// What an `Ask` keeps of a name: at most 254 bytes, all of it where it is no
/// longer, ending at the last character boundary at or below 254 where it is,
/// and always valid UTF-8 that decodes to a prefix of the name.
pub proof fn lemma_kept_name(file_name: Seq<char>)
    ensures
        ({
            let bytes = encode_utf8(file_name);
            let k = kept_name_len(bytes);
            &&& 0 <= k <= 254
            &&& k <= bytes.len()
            &&& bytes.len() <= 254 ==> k == bytes.len()
            &&& is_char_boundary(bytes, k)
            &&& forall|j: int| k < j <= 254 && j <= bytes.len() ==> !#[trigger] is_char_boundary(bytes, j)
            &&& kept_name(file_name) == bytes.take(k)
            &&& valid_utf8(kept_name(file_name))
            &&& decode_utf8(kept_name(file_name)) =~= file_name.take(decode_utf8(kept_name(file_name)).len() as int)
        }),
{
    let bytes = encode_utf8(file_name);
    encode_utf8_valid_utf8(file_name);
    is_char_boundary_start_end_of_seq(bytes);
    let lim: int = if bytes.len() <= 254 { bytes.len() as int } else { 254 };
    lemma_boundary_at_or_below(bytes, lim);
    let k = kept_name_len(bytes);
    assert(bytes.take(k) =~= bytes.subrange(0, k));
    valid_utf8_split(bytes, k);
    decode_utf8_split(bytes, k);
    encode_utf8_decode_utf8(file_name);
    let front = decode_utf8(bytes.subrange(0, k));
    let back = decode_utf8(bytes.subrange(k, bytes.len() as int));
    assert(file_name =~= front + back);
    assert(front =~= file_name.take(front.len() as int));
}

/// The message that a message type names, for the types that carry nothing more.
pub open spec fn bare_message(t: MessageType) -> MessageView {
    match t {
        MessageType::Ask => MessageView::Ask { file_size: 0, file_name: Seq::empty() },
        MessageType::AskOk => MessageView::AskOk,
        MessageType::AskDeny => MessageView::AskDeny,
        MessageType::Data => MessageView::Data,
        MessageType::DataRecvd => MessageView::DataRecvd,
    }
}

impl Message {
    /// Parses a message. A message whose first byte names no type, an empty one,
    /// and an `Ask` whose body is cut short or whose name is not UTF-8 are refused.
    pub fn parse(v: Vec<u8>) -> (r: Result<Message, ()>)
        ensures
            match r {
                Ok(m) => parse_spec(v@) == Some(m@),
                Err(_) => parse_spec(v@) is None,
            },
    {
        let mut d = Deserialiser::from_vec(v);
        if d.len() == 0 {
            return Err(());
        }
        match d.get_u8() {
            1 => match Message::parse_ask(d) {
                Some(ask) => Ok(Message::Ask(ask)),
                None => Err(()),
            },
            2 => Ok(Message::AskOk),
            3 => Ok(Message::AskDeny),
            4 => Ok(Message::Data),
            5 => Ok(Message::DataRecvd),
            _ => Err(()),
        }
    }

    /// Builds an `Ask` message: its type, the file size, then the file name
    /// (up to 254 bytes of it, cut where a character starts).
    pub fn build_ask(file_name: &str, file_size: u32) -> (bytes: Vec<u8>)
        ensures
            bytes@ == ask_bytes(file_name@, file_size),
    {
        proof {
            lemma_kept_name(file_name@);
            encode_utf8_valid_utf8(file_name@);
        }
        let ghost encoded = encode_utf8(file_name@);
        let ghost lim: int = if encoded.len() <= 254 { encoded.len() as int } else { 254 };
        let n: usize = file_name.as_bytes().len();
        let mut k: usize = if n <= 254 { n } else { 254 };
        assert(k == lim);
        while k > 0 && !file_name.is_char_boundary(k)
            invariant
                k <= lim,
                lim <= encoded.len(),
                encoded == file_name.spec_bytes(),
                boundary_at_or_below(encoded, k as int) == boundary_at_or_below(encoded, lim),
            decreases k,
        {
            k = k - 1;
        }
        assert(k == kept_name_len(encoded));
        let (kept, _) = file_name.split_at(k);
        assert(encode_utf8(kept@) =~= kept_name(file_name@));
        let mut s = Serialiser::new();
        s.add(MessageType::Ask);
        s.add(file_size);
        s.add(kept);
        assert(s@ =~= ask_bytes(file_name@, file_size));
        s.output()
    }

    /// Reads the body of an `Ask` message: the file size, then the file name.
    fn parse_ask(mut d: Deserialiser) -> (info: Option<AskInfo>)
        ensures
            match info {
                Some(info) => parse_ask_spec(d@) == Some(
                    MessageView::Ask { file_size: info.file_size, file_name: info.file_name@ },
                ),
                None => parse_ask_spec(d@) is None,
            },
    {
        if d.len() < 4 {
            return None;
        }
        let file_size = d.get_u32();
        match d.try_get_string() {
            Some(file_name) => Some(AskInfo { file_size, file_name }),
            None => None,
        }
    }

    /// Builds the answer that accepts an `Ask`.
    pub fn build_ask_ok() -> (bytes: Vec<u8>)
        ensures
            bytes@ == seq![MessageType::AskOk.code()],
    {
        let bytes: Vec<u8> = vec![MessageType::AskOk.to_u8()];
        bytes
    }

    /// Builds the answer that refuses an `Ask`.
    pub fn build_ask_deny() -> (bytes: Vec<u8>)
        ensures
            bytes@ == seq![MessageType::AskDeny.code()],
    {
        let bytes: Vec<u8> = vec![MessageType::AskDeny.to_u8()];
        bytes
    }

    /// Builds a `Data` message that carries `data`.
    pub fn build_data(data: &Vec<u8>) -> (bytes: Vec<u8>)
        ensures
            bytes@ == seq![MessageType::Data.code()] + data@,
    {
        let mut v = vec![MessageType::Data.to_u8()];
        v.extend_from_slice(data.as_slice());
        assert(v@ =~= seq![MessageType::Data.code()] + data@);
        v
    }

    /// Builds the confirmation that the data arrived.
    pub fn build_data_received() -> (bytes: Vec<u8>)
        ensures
            bytes@ == seq![MessageType::DataRecvd.code()],
    {
        let bytes: Vec<u8> = vec![MessageType::DataRecvd.to_u8()];
        bytes
    }
}

/// An `Ask` parses back to its file size and to the part of the name that it
/// carries, which is a prefix of the name and, for a name of at most 254
/// bytes of UTF-8, the whole name.
pub proof fn lemma_parse_build_ask(file_name: Seq<char>, file_size: u32)
    ensures
        parse_spec(ask_bytes(file_name, file_size)) == Some(
            MessageView::Ask { file_size, file_name: decode_utf8(kept_name(file_name)) },
        ),
        decode_utf8(kept_name(file_name)) == file_name.take(
            decode_utf8(kept_name(file_name)).len() as int,
        ),
        encode_utf8(file_name).len() <= 254 ==> decode_utf8(kept_name(file_name)) == file_name,
{
    lemma_kept_name(file_name);
    let kept = kept_name(file_name);
    let field = seq![kept.len() as u8] + kept;
    let bytes = ask_bytes(file_name, file_size);
    lemma_u32_roundtrip(file_size, field);
    assert(bytes.skip(1) =~= be_bytes(file_size) + field);
    assert(field.subrange(1, 1 + field[0]) =~= kept);
    if encode_utf8(file_name).len() <= 254 {
        assert(kept =~= encode_utf8(file_name));
        encode_utf8_decode_utf8(file_name);
    }
}

/// The layout of an `Ask`: byte 1 is 1; bytes 2 to 5 are the file size, most
/// significant byte first; byte 6 is the number of name bytes that follow;
/// those bytes are the start of the name's UTF-8 encoding, at most 254 of
/// them, all of it where it fits, and otherwise up to the last character
/// boundary at or below 254.
pub proof fn lemma_ask_layout(file_name: Seq<char>, file_size: u32)
    ensures
        ({
            let b = ask_bytes(file_name, file_size);
            let e = encode_utf8(file_name);
            let k = b.len() - 6;
            &&& b.len() >= 6
            &&& b[0] == 1
            &&& b.subrange(1, 5) == seq![
                (file_size >> 24) as u8,
                (file_size >> 16) as u8,
                (file_size >> 8) as u8,
                file_size as u8,
            ]
            &&& b[5] as int == k
            &&& 0 <= k <= 254
            &&& k <= e.len()
            &&& b.subrange(6, b.len() as int) == e.take(k)
            &&& e.len() <= 254 ==> k == e.len()
            &&& is_char_boundary(e, k)
            &&& forall|j: int| k < j <= 254 && j <= e.len() ==> !#[trigger] is_char_boundary(e, j)
        }),
{
    lemma_kept_name(file_name);
    lemma_be_bytes_order(file_size);
    let b = ask_bytes(file_name, file_size);
    let kept = kept_name(file_name);
    assert(b.len() == 6 + kept.len());
    assert(b.subrange(1, 5) =~= be_bytes(file_size));
    assert(b.subrange(6, b.len() as int) =~= kept);
}

/// A message whose first byte is 1 is an `Ask` exactly when the bytes after
/// it hold at least five bytes, the fifth of them, `n`, is followed by at
/// least `n` bytes, and those are valid UTF-8; its file size is then the
/// first four bytes read most significant first, and its file name those `n`
/// bytes decoded. Anything after them is ignored.
pub proof fn lemma_parse_ask_layout(body: Seq<u8>)
    ensures
        parse_spec(seq![1u8] + body) == (if body.len() >= 5 && body.len() >= 5 + body[4]
            && valid_utf8(body.subrange(5, 5 + body[4])) {
            Some(
                MessageView::Ask {
                    file_size: (body[0] as int * 0x100_0000 + body[1] as int * 0x1_0000
                        + body[2] as int * 0x100 + body[3] as int) as u32,
                    file_name: decode_utf8(body.subrange(5, 5 + body[4])),
                },
            )
        } else {
            None
        }),
{
    let m = seq![1u8] + body;
    assert(m[0] == 1);
    assert(m.skip(1) =~= body);
    if body.len() >= 4 {
        let rest = body.skip(4);
        lemma_string_field_read(rest);
        if body.len() >= 5 {
            assert(rest[0] == body[4]);
            if body.len() >= 5 + body[4] {
                assert(rest.subrange(1, 1 + rest[0]) =~= body.subrange(5, 5 + body[4]));
            }
        }
    }
}

/// The code of a message type, followed by anything, parses as that type,
/// for each type but `Ask`, whose body must follow.
pub proof fn lemma_parse_bare(t: MessageType, rest: Seq<u8>)
    requires
        t != MessageType::Ask,
    ensures
        parse_spec(seq![t.code()] + rest) == Some(bare_message(t)),
{
    assert((seq![t.code()] + rest)[0] == t.code());
}

/// The byte that names each message type on the wire; a message that starts
/// with any other byte is refused.
pub proof fn lemma_type_codes()
    ensures
        MessageType::Ask.code() == 1,
        MessageType::AskOk.code() == 2,
        MessageType::AskDeny.code() == 3,
        MessageType::Data.code() == 4,
        MessageType::DataRecvd.code() == 5,
        forall|b: u8, rest: Seq<u8>|
            (b == 0 || b > 5) ==> #[trigger] parse_spec(seq![b] + rest) is None,
{
    assert forall|b: u8, rest: Seq<u8>| (b == 0 || b > 5) implies #[trigger] parse_spec(
        seq![b] + rest,
    ) is None by {
        assert((seq![b] + rest)[0] == b);
    }
}

/// Different message types have different codes.
pub proof fn lemma_codes_distinct(t1: MessageType, t2: MessageType)
    requires
        t1 != t2,
    ensures
        t1.code() != t2.code(),
{
}

} // verus!
