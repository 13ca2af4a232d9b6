//! The messages between the listener and its workers.
//!
//! A message is a type, a body length and a body: four bytes, four bytes, and the UTF-8 form
//! of the body. Numbers are little-endian.
use vstd::prelude::*;
use vstd::string::*;

use crate::{codec, text};

verus! {

/// The number of bytes before the body.
pub const HEADER_LENGTH: usize = 8;

/// The types of messages.
#[derive(Debug, Clone, Copy, PartialEq, Eq, Structural)]
pub enum MessageType {
    NotInitialized,
    NewJobRequest,
    CancelRequest,
    RunnerShutdown,
    OperatingSystemShutdown,
}

impl MessageType {
    /// The number of a type.
    pub open spec fn code(self) -> int {
        match self {
            MessageType::NotInitialized => -1,
            MessageType::NewJobRequest => 1,
            MessageType::CancelRequest => 2,
            MessageType::RunnerShutdown => 3,
            MessageType::OperatingSystemShutdown => 4,
        }
    }

    /// The type with this number; there is none for other numbers.
    pub open spec fn of_code(value: int) -> MessageType {
        if value == 1 {
            MessageType::NewJobRequest
        } else if value == 2 {
            MessageType::CancelRequest
        } else if value == 3 {
            MessageType::RunnerShutdown
        } else if value == 4 {
            MessageType::OperatingSystemShutdown
        } else {
            MessageType::NotInitialized
        }
    }

    /// The type with this number.
    pub fn from_i32(value: i32) -> (r: Self)
        ensures
            r == MessageType::of_code(value as int),
    {
        match value {
            1 => MessageType::NewJobRequest,
            2 => MessageType::CancelRequest,
            3 => MessageType::RunnerShutdown,
            4 => MessageType::OperatingSystemShutdown,
            _ => MessageType::NotInitialized,
        }
    }

    /// The type's name.
    pub fn name(&self) -> (r: &'static str)
        ensures
            r@ == match *self {
                MessageType::NotInitialized => "NotInitialized"@,
                MessageType::NewJobRequest => "NewJobRequest"@,
                MessageType::CancelRequest => "CancelRequest"@,
                MessageType::RunnerShutdown => "RunnerShutdown"@,
                MessageType::OperatingSystemShutdown => "OperatingSystemShutdown"@,
            },
    {
        match self {
            MessageType::NotInitialized => "NotInitialized",
            MessageType::NewJobRequest => "NewJobRequest",
            MessageType::CancelRequest => "CancelRequest",
            MessageType::RunnerShutdown => "RunnerShutdown",
            MessageType::OperatingSystemShutdown => "OperatingSystemShutdown",
        }
    }

    /// The type's number modulo `2^32`, as it is written.
    fn word(&self) -> (r: u32)
        ensures
            r == word_of(self.code()),
    {
        match self {
            MessageType::NotInitialized => 0xffff_ffff,
            MessageType::NewJobRequest => 1,
            MessageType::CancelRequest => 2,
            MessageType::RunnerShutdown => 3,
            MessageType::OperatingSystemShutdown => 4,
        }
    }
}

/// A signed number of 32 bits as an unsigned one.
pub open spec fn word_of(value: int) -> int {
    if value < 0 {
        value + 0x1_0000_0000
    } else {
        value
    }
}

/// An unsigned number of 32 bits as a signed one.
pub open spec fn signed_of(word: int) -> int {
    if word >= 0x8000_0000 {
        word - 0x1_0000_0000
    } else {
        word
    }
}

/// A new name for the socket of a channel.
pub fn socket_name() -> (r: String)
    ensures
        exists|id: u128|
            codec::is_random_uuid(id) && r@ == "runner_ipc_"@ + #[trigger] codec::uuid_text(id),
{
    let id: u128 = codec::random_uuid();
    let mut s = "runner_ipc_".to_owned();
    s.append(codec::format_uuid(id).as_str());
    s
}

/// A message.
#[derive(Debug)]
pub struct WorkerMessage {
    pub message_type: MessageType,
    pub body: String,
}

impl WorkerMessage {
    /// A message.
    pub fn new(message_type: MessageType, body: String) -> (r: Self)
        ensures
            r.message_type == message_type,
            r.body@ == body@,
    {
        WorkerMessage { message_type, body }
    }
}

/// Four bytes of a number, the lowest first.
pub open spec fn le_bytes(word: int) -> Seq<u8> {
    seq![
        (word % 256) as u8,
        (word / 256 % 256) as u8,
        (word / 65536 % 256) as u8,
        (word / 16777216 % 256) as u8,
    ]
}

/// The number that four bytes write, the lowest first.
pub open spec fn le_word(bytes: Seq<u8>) -> int {
    bytes[0] + 256 * bytes[1] + 65536 * bytes[2] + 16777216 * bytes[3]
}

/// A message as it is written. A body of `2^32` bytes or more has its length written modulo
/// `2^32`.
pub open spec fn frame(message_type: MessageType, body: Seq<char>) -> Seq<u8> {
    let bytes = vstd::utf8::encode_utf8(body);
    le_bytes(word_of(message_type.code())) + le_bytes(bytes.len() as int % 0x1_0000_0000) + bytes
}

/// Why a message cannot be read.
#[derive(Debug, Clone, Copy, PartialEq, Eq, Structural)]
pub enum FrameError {
    /// The bytes end before the message does.
    Incomplete,
    /// The body is not UTF-8.
    NotUtf8,
}

/// The message that bytes begin with.
pub open spec fn unframe(bytes: Seq<u8>) -> Result<(MessageType, Seq<char>), FrameError> {
    if bytes.len() < HEADER_LENGTH {
        Err(FrameError::Incomplete)
    } else {
        let length = le_word(bytes.subrange(4, 8));
        if bytes.len() < HEADER_LENGTH + length {
            Err(FrameError::Incomplete)
        } else {
            let body = bytes.subrange(8, 8 + length);
            if vstd::utf8::valid_utf8(body) {
                Ok(
                    (
                        MessageType::of_code(signed_of(le_word(bytes.subrange(0, 4)))),
                        vstd::utf8::decode_utf8(body),
                    ),
                )
            } else {
                Err(FrameError::NotUtf8)
            }
        }
    }
}

/// `String::from_utf8`: the text whose UTF-8 form the bytes are, or an error if they are not
/// valid UTF-8.
#[verifier::external_body]
fn utf8_text(bytes: Vec<u8>) -> (r: Option<String>)
    ensures
        match r {
            Some(s) => vstd::utf8::valid_utf8(bytes@) && s@ == vstd::utf8::decode_utf8(bytes@),
            None => !vstd::utf8::valid_utf8(bytes@),
        },
{
    String::from_utf8(bytes).ok()
}

fn push_word(out: &mut Vec<u8>, word: u32)
    ensures
        final(out)@ == old(out)@ + le_bytes(word as int),
{
    out.push((word % 256) as u8);
    out.push((word / 256 % 256) as u8);
    out.push((word / 65536 % 256) as u8);
    out.push((word / 16777216 % 256) as u8);
    assert(out@ == old(out)@ + le_bytes(word as int));
}

/// The number that four bytes write, the lowest first.
pub fn read_word(bytes: &[u8]) -> (r: u32)
    requires
        bytes@.len() == 4,
    ensures
        r == le_word(bytes@),
{
    bytes[0] as u32 + 256 * bytes[1] as u32 + 65536 * bytes[2] as u32 + 16777216 * bytes[3] as u32
}

/// The type of message that four bytes stand for.
pub fn read_type(bytes: &[u8]) -> (r: MessageType)
    requires
        bytes@.len() == 4,
    ensures
        r == MessageType::of_code(signed_of(le_word(bytes@))),
{
    let word = read_word(bytes);
    if word >= 0x8000_0000 {
        MessageType::NotInitialized
    } else {
        MessageType::from_i32(word as i32)
    }
}

/// Writes a message.
pub fn encode(message_type: MessageType, body: &str) -> (r: Vec<u8>)
    ensures
        r@ == frame(message_type, body@),
{
    let bytes = body.as_bytes();
    let mut out: Vec<u8> = Vec::new();
    push_word(&mut out, message_type.word());
    let n: usize = bytes.len();
    let length: u32 = (n as u64 % 0x1_0000_0000) as u32;
    push_word(&mut out, length);
    let ghost head = le_bytes(word_of(message_type.code())) + le_bytes(length as int);
    assert(out@ == head);
    let mut i: usize = 0;
    while i < n
        invariant
            n == bytes@.len(),
            i <= n,
            out@ == head + bytes@.take(i as int),
        decreases n - i,
    {
        out.push(bytes[i]);
        i = i + 1;
        assert(out@ == head + bytes@.take(i as int));
    }
    assert(bytes@.take(n as int) == bytes@);
    out
}

/// Reads a message's body.
pub fn read_body(bytes: Vec<u8>) -> (r: Result<String, FrameError>)
    ensures
        match r {
            Ok(body) => vstd::utf8::valid_utf8(bytes@) && body@ == vstd::utf8::decode_utf8(bytes@),
            Err(e) => e == FrameError::NotUtf8 && !vstd::utf8::valid_utf8(bytes@),
        },
{
    match utf8_text(bytes) {
        Some(body) => Ok(body),
        None => Err(FrameError::NotUtf8),
    }
}

/// Reads the message that bytes begin with.
pub fn decode(bytes: &[u8]) -> (r: Result<WorkerMessage, FrameError>)
    ensures
        match r {
            Ok(message) => unframe(bytes@) == Ok::<(MessageType, Seq<char>), FrameError>(
                (message.message_type, message.body@),
            ),
            Err(e) => unframe(bytes@) == Err::<(MessageType, Seq<char>), FrameError>(e),
        },
{
    if bytes.len() < HEADER_LENGTH {
        return Err(FrameError::Incomplete);
    }
    let kind = read_type(vstd::slice::slice_subrange(bytes, 0, 4));
    let length: u32 = read_word(vstd::slice::slice_subrange(bytes, 4, 8));
    let rest: usize = bytes.len() - HEADER_LENGTH;
    if (rest as u64) < length as u64 {
        return Err(FrameError::Incomplete);
    }
    let n: usize = length as usize;
    let body = vstd::slice::slice_to_vec(vstd::slice::slice_subrange(bytes, 8, 8 + n));
    match read_body(body) {
        Ok(body) => Ok(WorkerMessage::new(kind, body)),
        Err(e) => Err(e),
    }
}

proof fn lemma_word_reads_back(word: int)
    requires
        0 <= word < 0x1_0000_0000,
    ensures
        le_word(le_bytes(word)) == word,
        le_bytes(word).len() == 4,
{
    let a = word % 256;
    let b = word / 256 % 256;
    let c = word / 65536 % 256;
    let d = word / 16777216 % 256;
    assert(a + 256 * b + 65536 * c + 16777216 * d == word) by (nonlinear_arith)
        requires
            0 <= word < 0x1_0000_0000,
            a == word % 256,
            b == word / 256 % 256,
            c == word / 65536 % 256,
            d == word / 16777216 % 256,
    ;
}

/// Reading a written message gives it back: its type and its body, whatever follows. (The
/// length field limits bodies to fewer than `2^32` bytes.)
pub proof fn law_message_reads_back(message_type: MessageType, body: Seq<char>, rest: Seq<u8>)
    requires
        vstd::utf8::encode_utf8(body).len() < 0x1_0000_0000,
    ensures
        unframe(frame(message_type, body) + rest) == Ok::<(MessageType, Seq<char>), FrameError>(
            (message_type, body),
        ),
{
    let bytes = vstd::utf8::encode_utf8(body);
    let n = bytes.len() as int;
    let all = frame(message_type, body) + rest;
    assert(n % 0x1_0000_0000 == n);
    lemma_word_reads_back(word_of(message_type.code()));
    lemma_word_reads_back(n);
    assert(all.subrange(0, 4) == le_bytes(word_of(message_type.code())));
    assert(all.subrange(4, 8) == le_bytes(n));
    assert(all.subrange(8, 8 + n) == bytes);
    vstd::utf8::encode_utf8_valid_utf8(body);
    vstd::utf8::encode_utf8_decode_utf8(body);
    assert(signed_of(word_of(message_type.code())) == message_type.code());
}

/// A message is written as its type, the number of bytes of its body and the body, both
/// numbers with the lowest byte first.
pub proof fn law_frame_layout(message_type: MessageType, body: Seq<char>)
    requires
        vstd::utf8::encode_utf8(body).len() < 0x1_0000_0000,
    ensures
        ({
            let bytes = frame(message_type, body);
            let text = vstd::utf8::encode_utf8(body);
            &&& bytes.len() == 8 + text.len()
            &&& bytes.skip(8) == text
            &&& bytes[4] + 256 * bytes[5] + 65536 * bytes[6] + 16777216 * bytes[7] == text.len()
            &&& message_type == MessageType::NewJobRequest ==> bytes.take(4) == seq![1u8, 0, 0, 0]
            &&& message_type == MessageType::CancelRequest ==> bytes.take(4) == seq![2u8, 0, 0, 0]
            &&& message_type == MessageType::RunnerShutdown ==> bytes.take(4) == seq![3u8, 0, 0, 0]
            &&& message_type == MessageType::OperatingSystemShutdown ==> bytes.take(4) == seq![
                4u8,
                0,
                0,
                0,
            ]
            &&& message_type == MessageType::NotInitialized ==> bytes.take(4) == seq![
                255u8,
                255,
                255,
                255,
            ]
        }),
{
    let bytes = frame(message_type, body);
    let text = vstd::utf8::encode_utf8(body);
    let n = text.len() as int;
    lemma_word_reads_back(n);
    assert(n % 0x1_0000_0000 == n);
    let head = le_bytes(word_of(message_type.code()));
    let length = le_bytes(n);
    assert(bytes == head + length + text);
    assert(bytes.skip(8) == text);
    assert(bytes.take(4) == head);
    assert(bytes[4] == length[0] && bytes[5] == length[1] && bytes[6] == length[2] && bytes[7]
        == length[3]);
    assert(bytes.take(4) =~= head);
    match message_type {
        MessageType::NotInitialized => {
            assert(head =~= seq![255u8, 255, 255, 255]);
        },
        MessageType::NewJobRequest => {
            assert(head =~= seq![1u8, 0, 0, 0]);
        },
        MessageType::CancelRequest => {
            assert(head =~= seq![2u8, 0, 0, 0]);
        },
        MessageType::RunnerShutdown => {
            assert(head =~= seq![3u8, 0, 0, 0]);
        },
        MessageType::OperatingSystemShutdown => {
            assert(head =~= seq![4u8, 0, 0, 0]);
        },
    }
}

/// A message that was cut off is never taken for a shorter one.
pub proof fn law_cut_off_is_incomplete(message_type: MessageType, body: Seq<char>, n: int)
    requires
        vstd::utf8::encode_utf8(body).len() < 0x1_0000_0000,
        0 <= n < frame(message_type, body).len(),
    ensures
        unframe(frame(message_type, body).take(n)) == Err::<(MessageType, Seq<char>), FrameError>(
            FrameError::Incomplete,
        ),
{
    let bytes = frame(message_type, body);
    law_frame_layout(message_type, body);
    let cut = bytes.take(n);
    if n >= 8 {
        let word = cut.subrange(4, 8);
        assert(word[0] == bytes[4] && word[1] == bytes[5] && word[2] == bytes[6] && word[3]
            == bytes[7]);
    }
}

/// A body that is not text is refused as such, and never read as some text.
pub proof fn law_bad_body_is_refused(bytes: Seq<u8>)
    requires
        bytes.len() >= 8,
        bytes.len() == 8 + bytes[4] + 256 * bytes[5] + 65536 * bytes[6] + 16777216 * bytes[7],
        !vstd::utf8::valid_utf8(bytes.skip(8)),
    ensures
        unframe(bytes) == Err::<(MessageType, Seq<char>), FrameError>(FrameError::NotUtf8),
{
    let word = bytes.subrange(4, 8);
    assert(word[0] == bytes[4] && word[1] == bytes[5] && word[2] == bytes[6] && word[3]
        == bytes[7]);
    assert(bytes.subrange(8, bytes.len() as int) == bytes.skip(8));
}

/// Only the numbers of the types stand for a type that does something.
pub proof fn law_unknown_numbers(value: int)
    ensures
        MessageType::of_code(value) == MessageType::NotInitialized <==> value < 1 || value > 4,
        MessageType::of_code(value) != MessageType::NotInitialized ==> MessageType::of_code(
            value,
        ).code() == value,
{
}

} // verus!
