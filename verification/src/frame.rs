//! The wire format of one console frame.
//!
//! A frame is a four-byte length, a two-byte request id, a four-byte kind,
//! the body, a zero byte that ends the body and a zero byte of padding. All
//! integers are little-endian; the length counts every byte behind itself.

use vstd::prelude::*;
use vstd::utf8::*;

verus! {

/// Bytes of the length field.
pub const PREFIX_LEN: usize = 4;

/// Bytes of a frame besides its body: length, id, kind, terminator, padding.
pub const FRAME_OVERHEAD: usize = 12;

/// The largest frame, length field included, that may be sent or accepted.
pub const MAX_FRAME_LEN: usize = 4096;

/// The largest body, in bytes, that fits a frame.
pub const MAX_BODY_LEN: usize = 4084;

/// The smallest value of a length field: a frame with an empty body.
pub const MIN_DECLARED_LEN: usize = 8;

/// The largest value of a length field.
pub const MAX_DECLARED_LEN: usize = 4092;

/// What a frame is for.
#[derive(Clone, Copy, Debug, PartialEq, Eq, Structural)]
pub enum PacketKind {
    /// Carries the shared secret.
    Login,
    /// Carries a command; a server answers a login with this kind too.
    Command,
    /// Carries the output of a command.
    Response,
}

/// Why bytes are no frame, or why a frame cannot be built.
#[derive(Clone, Copy, Debug, PartialEq, Eq, Structural)]
pub enum FrameError {
    /// The body is longer than `MAX_BODY_LEN` bytes.
    BodyTooLarge,
    /// The body holds a zero byte, which would end it early.
    EmbeddedTerminator,
    /// Fewer bytes than a length field.
    Truncated,
    /// The length field is below the smallest or above the largest frame.
    BadLength,
    /// The length field disagrees with the number of bytes that follow it.
    LengthMismatch,
    /// The last two bytes are not both zero.
    MissingTerminator,
    /// The kind is none of login, command, response.
    UnknownKind,
    /// The body is not UTF-8.
    InvalidText,
}

/// One frame, as the program holds it.
#[derive(Clone, Debug, PartialEq, Eq)]
pub struct Packet {
    pub id: i16,
    pub kind: PacketKind,
    pub body: String,
}

/// One frame, as the contracts speak of it.
pub ghost struct Frame {
    pub id: i16,
    pub kind: PacketKind,
    pub body: Seq<char>,
}

impl View for Packet {
    type V = Frame;

    open spec fn view(&self) -> Frame {
        Frame { id: self.id, kind: self.kind, body: self.body@ }
    }
}

/// Two bytes, low byte first.
pub open spec fn le2(n: nat) -> Seq<u8> {
    seq![(n % 256) as u8, (n / 256 % 256) as u8]
}

/// Four bytes, low byte first.
pub open spec fn le4(n: nat) -> Seq<u8> {
    seq![
        (n % 256) as u8,
        (n / 256 % 256) as u8,
        (n / 65536 % 256) as u8,
        (n / 16777216 % 256) as u8,
    ]
}

/// The number that little-endian bytes denote.
pub open spec fn le_value(bytes: Seq<u8>) -> nat
    decreases bytes.len(),
{
    if bytes.len() == 0 {
        0
    } else {
        bytes[0] as nat + 256 * le_value(bytes.drop_first())
    }
}

/// A request id as an unsigned number of sixteen bits, in two's complement.
pub open spec fn id_to_wire(id: i16) -> nat {
    if id >= 0 {
        id as nat
    } else {
        (id + 65536) as nat
    }
}

/// The request id that an unsigned number of sixteen bits stands for.
pub open spec fn id_from_wire(n: nat) -> i16 {
    if n < 32768 {
        n as i16
    } else {
        (n - 65536) as i16
    }
}

/// The number that stands for a kind on the wire.
pub open spec fn kind_code(kind: PacketKind) -> nat {
    match kind {
        PacketKind::Login => 3,
        PacketKind::Command => 2,
        PacketKind::Response => 0,
    }
}

/// The kind that a number on the wire stands for.
pub open spec fn kind_of_code(code: nat) -> Option<PacketKind> {
    if code == 3 {
        Some(PacketKind::Login)
    } else if code == 2 {
        Some(PacketKind::Command)
    } else if code == 0 {
        Some(PacketKind::Response)
    } else {
        None
    }
}

/// `bytes` holds a zero byte.
pub open spec fn has_zero(bytes: Seq<u8>) -> bool {
    exists|i: int| 0 <= i < bytes.len() && bytes[i] == 0
}

/// Why a body cannot be framed, if it cannot: too long comes before a zero byte.
pub open spec fn body_fault(body: Seq<char>) -> Option<FrameError> {
    if encode_utf8(body).len() > MAX_BODY_LEN {
        Some(FrameError::BodyTooLarge)
    } else if has_zero(encode_utf8(body)) {
        Some(FrameError::EmbeddedTerminator)
    } else {
        None
    }
}

/// The bytes of a frame.
pub open spec fn encoded(f: Frame) -> Seq<u8> {
    le4(encode_utf8(f.body).len() + MIN_DECLARED_LEN as nat) + le2(id_to_wire(f.id)) + le4(
        kind_code(f.kind),
    ) + encode_utf8(f.body) + seq![0u8, 0u8]
}

/// What a length field says of the bytes behind it.
pub open spec fn announced(prefix: Seq<u8>) -> Result<nat, FrameError> {
    if prefix.len() < PREFIX_LEN {
        Err(FrameError::Truncated)
    } else {
        let declared = le_value(prefix.subrange(0, 4));
        if declared < MIN_DECLARED_LEN || declared > MAX_DECLARED_LEN {
            Err(FrameError::BadLength)
        } else {
            Ok(declared)
        }
    }
}

/// The frame that bytes hold. The checks come in this order: the length
/// field, its agreement with the bytes present, the two closing zero bytes,
/// the kind, and the body.
pub open spec fn decoded(bytes: Seq<u8>) -> Result<Frame, FrameError> {
    match announced(bytes) {
        Err(e) => Err(e),
        Ok(declared) => {
            let len = bytes.len() as int;
            let body = bytes.subrange(10, len - 2);
            if len - 4 != declared {
                Err(FrameError::LengthMismatch)
            } else if bytes[len - 2] != 0 || bytes[len - 1] != 0 {
                Err(FrameError::MissingTerminator)
            } else {
                match kind_of_code(le_value(bytes.subrange(6, 10))) {
                    None => Err(FrameError::UnknownKind),
                    Some(kind) => {
                        if has_zero(body) {
                            Err(FrameError::EmbeddedTerminator)
                        } else if !valid_utf8(body) {
                            Err(FrameError::InvalidText)
                        } else {
                            Ok(
                                Frame {
                                    id: id_from_wire(le_value(bytes.subrange(4, 6))),
                                    kind,
                                    body: decode_utf8(body),
                                },
                            )
                        }
                    },
                }
            }
        },
    }
}

/// The model of what `decode` returns.
pub open spec fn frame_result(r: Result<Packet, FrameError>) -> Result<Frame, FrameError> {
    match r {
        Ok(p) => Ok(p@),
        Err(e) => Err(e),
    }
}

/// Two little-endian bytes denote the number they were made from.
pub proof fn lemma_le2_value(n: nat)
    requires
        n < 65536,
    ensures
        le2(n).len() == 2,
        le_value(le2(n)) == n,
{
    let b = le2(n);
    reveal_with_fuel(le_value, 3);
    assert(b.drop_first().drop_first() =~= Seq::<u8>::empty());
    assert(b.drop_first()[0] == b[1]);
}

/// Four little-endian bytes denote the number they were made from.
pub proof fn lemma_le4_value(n: nat)
    requires
        n < 4294967296,
    ensures
        le4(n).len() == 4,
        le_value(le4(n)) == n,
{
    let b = le4(n);
    let b1 = b.drop_first();
    let b2 = b1.drop_first();
    let b3 = b2.drop_first();
    reveal_with_fuel(le_value, 5);
    assert(b3.drop_first() =~= Seq::<u8>::empty());
    assert(b1[0] == b[1] && b2[0] == b[2] && b3[0] == b[3]);
}

/// The number that two bytes denote.
pub proof fn lemma_value_of_two(bytes: Seq<u8>)
    requires
        bytes.len() == 2,
    ensures
        le_value(bytes) == bytes[0] as nat + 256 * bytes[1] as nat,
        le2(le_value(bytes)) == bytes,
{
    reveal_with_fuel(le_value, 3);
    assert(bytes.drop_first().drop_first() =~= Seq::<u8>::empty());
    assert(bytes.drop_first()[0] == bytes[1]);
    assert(le2(le_value(bytes)) =~= bytes);
}

/// The number that four bytes denote.
pub proof fn lemma_value_of_four(bytes: Seq<u8>)
    requires
        bytes.len() == 4,
    ensures
        le_value(bytes) == bytes[0] as nat + 256 * bytes[1] as nat + 65536 * bytes[2] as nat
            + 16777216 * bytes[3] as nat,
        le4(le_value(bytes)) == bytes,
{
    let b1 = bytes.drop_first();
    let b2 = b1.drop_first();
    let b3 = b2.drop_first();
    reveal_with_fuel(le_value, 5);
    assert(b3.drop_first() =~= Seq::<u8>::empty());
    assert(b1[0] == bytes[1] && b2[0] == bytes[2] && b3[0] == bytes[3]);
    assert(le4(le_value(bytes)) =~= bytes);
}

/// Whether `bytes` holds a zero byte.
pub fn holds_zero(bytes: &[u8]) -> (found: bool)
    ensures
        found == has_zero(bytes@),
{
    let mut i: usize = 0;
    while i < bytes.len()
        invariant
            i <= bytes.len(),
            forall|j: int| 0 <= j < i ==> bytes@[j] != 0,
        decreases bytes.len() - i,
    {
        if bytes[i] == 0 {
            return true;
        }
        i = i + 1;
    }
    false
}

/// Appends `n` as two little-endian bytes.
fn push_le2(out: &mut Vec<u8>, n: u16)
    ensures
        final(out)@ == old(out)@ + le2(n as nat),
{
    out.push((n % 256) as u8);
    out.push((n / 256) as u8);
    assert(out@ =~= old(out)@ + le2(n as nat));
}

/// Appends `n` as four little-endian bytes.
fn push_le4(out: &mut Vec<u8>, n: u32)
    ensures
        final(out)@ == old(out)@ + le4(n as nat),
{
    out.push((n % 256) as u8);
    out.push((n / 256 % 256) as u8);
    out.push((n / 65536 % 256) as u8);
    out.push((n / 16777216) as u8);
    assert(out@ =~= old(out)@ + le4(n as nat));
}

/// The number on the wire for a request id.
fn wire_of_id(id: i16) -> (n: u16)
    ensures
        n == id_to_wire(id),
{
    if id >= 0 {
        id as u16
    } else {
        (id as i32 + 65536) as u16
    }
}

/// The request id for a number on the wire.
fn id_of_wire(n: u16) -> (id: i16)
    ensures
        id == id_from_wire(n as nat),
{
    if n < 32768 {
        n as i16
    } else {
        (n as i32 - 65536) as i16
    }
}

/// The number on the wire for a kind.
fn code_of(kind: PacketKind) -> (code: u32)
    ensures
        code == kind_code(kind),
{
    match kind {
        PacketKind::Login => 3,
        PacketKind::Command => 2,
        PacketKind::Response => 0,
    }
}

/// Builds the frame that carries `body` under `id`.
///
/// Fails with `BodyTooLarge` where the body has more than `MAX_BODY_LEN`
/// bytes, else with `EmbeddedTerminator` where it holds a zero byte.
pub fn encode(id: i16, kind: PacketKind, body: &str) -> (r: Result<Vec<u8>, FrameError>)
    ensures
        match body_fault(body@) {
            Some(e) => r == Err::<Vec<u8>, FrameError>(e),
            None => r is Ok && r->Ok_0@ == encoded(Frame { id, kind, body: body@ }),
        },
        r matches Ok(bytes) ==> bytes@.len() == encode_utf8(body@).len() + FRAME_OVERHEAD
            && bytes@.len() <= MAX_FRAME_LEN,
{
    let text = body.as_bytes();
    if text.len() > MAX_BODY_LEN {
        return Err(FrameError::BodyTooLarge);
    }
    if holds_zero(text) {
        return Err(FrameError::EmbeddedTerminator);
    }
    let mut out: Vec<u8> = Vec::new();
    push_le4(&mut out, (text.len() + MIN_DECLARED_LEN) as u32);
    push_le2(&mut out, wire_of_id(id));
    push_le4(&mut out, code_of(kind));
    let ghost head = out@;
    let mut i: usize = 0;
    while i < text.len()
        invariant
            i <= text.len(),
            out@ == head + text@.take(i as int),
        decreases text.len() - i,
    {
        out.push(text[i]);
        assert(out@ =~= head + text@.take(i + 1));
        i = i + 1;
    }
    out.push(0);
    out.push(0);
    assert(text@.take(text.len() as int) =~= text@);
    assert(out@ =~= encoded(Frame { id, kind, body: body@ }));
    Ok(out)
}

/// `String::from_utf8` of the standard library, on a copy of `bytes`: the
/// text that the bytes encode, where they are UTF-8, and nothing where they
/// are not.
#[verifier::external_body]
fn text_of_utf8(bytes: &[u8]) -> (text: Option<String>)
    ensures
        text is Some <==> valid_utf8(bytes@),
        text matches Some(s) ==> s@ == decode_utf8(bytes@),
{
    String::from_utf8(bytes.to_vec()).ok()
}

/// The number that the two bytes of `bytes` at `at` denote.
fn read_le2(bytes: &[u8], at: usize) -> (n: u16)
    requires
        at + 2 <= bytes.len(),
    ensures
        n == le_value(bytes@.subrange(at as int, at + 2)),
{
    proof {
        lemma_value_of_two(bytes@.subrange(at as int, at + 2));
    }
    bytes[at] as u16 + 256 * (bytes[at + 1] as u16)
}

/// The number that the four bytes of `bytes` at `at` denote.
fn read_le4(bytes: &[u8], at: usize) -> (n: u32)
    requires
        at + 4 <= bytes.len(),
    ensures
        n == le_value(bytes@.subrange(at as int, at + 4)),
{
    proof {
        lemma_value_of_four(bytes@.subrange(at as int, at + 4));
    }
    bytes[at] as u32 + 256 * (bytes[at + 1] as u32) + 65536 * (bytes[at + 2] as u32) + 16777216
        * (bytes[at + 3] as u32)
}

/// Reads a length field: the number of bytes that follow it in its frame.
///
/// `prefix` is the first bytes of a frame, at least the four of the field.
/// Fails with `Truncated` on fewer, and with `BadLength` where the field is
/// below `MIN_DECLARED_LEN` or above `MAX_DECLARED_LEN`.
pub fn announced_len(prefix: &[u8]) -> (r: Result<usize, FrameError>)
    ensures
        match announced(prefix@) {
            Ok(n) => r == Ok::<usize, FrameError>(n as usize) && n <= MAX_DECLARED_LEN,
            Err(e) => r == Err::<usize, FrameError>(e),
        },
{
    if prefix.len() < PREFIX_LEN {
        return Err(FrameError::Truncated);
    }
    let declared = read_le4(prefix, 0);
    if declared < 8 || declared > 4092 {
        return Err(FrameError::BadLength);
    }
    Ok(declared as usize)
}

/// Reads one whole frame, length field included.
pub fn decode(bytes: &[u8]) -> (r: Result<Packet, FrameError>)
    ensures
        frame_result(r) == decoded(bytes@),
{
    let declared = match announced_len(bytes) {
        Ok(n) => n,
        Err(e) => {
            return Err(e);
        },
    };
    let len = bytes.len();
    if len - 4 != declared {
        return Err(FrameError::LengthMismatch);
    }
    if bytes[len - 2] != 0 || bytes[len - 1] != 0 {
        return Err(FrameError::MissingTerminator);
    }
    let code = read_le4(bytes, 6);
    let kind = if code == 3 {
        PacketKind::Login
    } else if code == 2 {
        PacketKind::Command
    } else if code == 0 {
        PacketKind::Response
    } else {
        return Err(FrameError::UnknownKind);
    };
    let body = vstd::slice::slice_subrange(bytes, 10, len - 2);
    if holds_zero(body) {
        return Err(FrameError::EmbeddedTerminator);
    }
    let id = id_of_wire(read_le2(bytes, 4));
    match text_of_utf8(body) {
        Some(text) => Ok(Packet { id, kind, body: text }),
        None => Err(FrameError::InvalidText),
    }
}

/// Reading the bytes of a frame gives the frame back: for every id, kind and
/// body that can be framed, `decoded(encoded(f)) == Ok(f)`.
pub proof fn lemma_decode_encode(f: Frame)
    requires
        body_fault(f.body) is None,
    ensures
        decoded(encoded(f)) == Ok::<Frame, FrameError>(f),
{
    broadcast use {encode_utf8_valid_utf8, encode_utf8_decode_utf8};

    let body = encode_utf8(f.body);
    let bytes = encoded(f);
    let declared = body.len() + 8;
    lemma_le4_value(declared as nat);
    lemma_le2_value(id_to_wire(f.id));
    lemma_le4_value(kind_code(f.kind));
    assert(bytes.len() == body.len() + 12);
    assert(bytes.subrange(0, 4) =~= le4(declared as nat));
    assert(bytes.subrange(4, 6) =~= le2(id_to_wire(f.id)));
    assert(bytes.subrange(6, 10) =~= le4(kind_code(f.kind)));
    assert(bytes.subrange(10, bytes.len() - 2) =~= body);
    assert(bytes[bytes.len() - 2] == 0 && bytes[bytes.len() - 1] == 0);
    assert(id_from_wire(id_to_wire(f.id)) == f.id);
    assert(kind_of_code(kind_code(f.kind)) == Some(f.kind));
}

/// Bytes are read as a frame only if they are the bytes of that frame: no two
/// byte strings stand for one frame, and what is read can be framed again.
pub proof fn lemma_encode_decode(bytes: Seq<u8>)
    requires
        decoded(bytes) is Ok,
    ensures
        body_fault(decoded(bytes)->Ok_0.body) is None,
        encoded(decoded(bytes)->Ok_0) == bytes,
{
    broadcast use decode_utf8_encode_utf8;

    let f = decoded(bytes)->Ok_0;
    let len = bytes.len() as int;
    let body = bytes.subrange(10, len - 2);
    lemma_value_of_four(bytes.subrange(0, 4));
    lemma_value_of_two(bytes.subrange(4, 6));
    lemma_value_of_four(bytes.subrange(6, 10));
    assert(encode_utf8(f.body) == body);
    let w = le_value(bytes.subrange(4, 6));
    assert(id_to_wire(id_from_wire(w)) == w);
    let c = le_value(bytes.subrange(6, 10));
    assert(kind_code(f.kind) == c);
    assert(encoded(f) =~= bytes);
}

/// A body of exactly `MAX_BODY_LEN` bytes without a zero byte can be framed,
/// into a frame of exactly `MAX_FRAME_LEN` bytes; one byte more cannot.
pub proof fn lemma_size_limit(f: Frame)
    ensures
        encode_utf8(f.body).len() > MAX_BODY_LEN <==> body_fault(f.body) == Some(
            FrameError::BodyTooLarge,
        ),
        encode_utf8(f.body).len() == MAX_BODY_LEN && !has_zero(encode_utf8(f.body))
            ==> body_fault(f.body) is None && encoded(f).len() == MAX_FRAME_LEN,
        encode_utf8(f.body).len() == MAX_BODY_LEN + 1 ==> body_fault(f.body) is Some,
{
}

} // verus!
