//! The wire format of one frame, and the reassembly of frames into messages.
//!
//! A frame is a two-byte head, an extended length of two or eight bytes where the
//! head asks for one, a four-byte masking key where the head announces one, and
//! the payload. All multi-byte numbers are big-endian.

use vstd::prelude::*;

use super::error::Error;
use super::opcode::Opcode;
use crate::io::IoError;

verus! {

/// One reassembled message: its opcode and its whole payload.
pub type Packet = (Opcode, Vec<u8>);

/// What the two-byte head of a frame says.
#[derive(Debug, Clone, Copy, PartialEq, Eq, Structural)]
pub struct FrameHead {
    /// Whether this frame ends its message.
    pub fin: bool,
    pub opcode: Opcode,
    /// Whether a masking key follows.
    pub masked: bool,
    /// The seven-bit length code: the length itself below 126, else the width
    /// of the extended length that follows.
    pub len_code: u8,
}

/// One frame taken off a buffer, its payload already unmasked.
pub struct Frame {
    pub fin: bool,
    /// The opcode of the message that the frame belongs to.
    pub opcode: Opcode,
    pub payload: Vec<u8>,
}

/// The mathematical content of a [`Frame`].
pub struct FrameView {
    pub fin: bool,
    pub opcode: Opcode,
    pub payload: Seq<u8>,
}

impl View for Frame {
    type V = FrameView;

    open spec fn view(&self) -> FrameView {
        FrameView { fin: self.fin, opcode: self.opcode, payload: self.payload@ }
    }
}

/// The number that a run of bytes denotes, most significant byte first.
pub open spec fn be_value(bytes: Seq<u8>) -> nat
    decreases bytes.len(),
{
    if bytes.len() == 0 {
        0
    } else {
        be_value(bytes.drop_last()) * 256 + bytes.last() as nat
    }
}

/// The `width` low-order bytes of `value`, most significant byte first.
pub open spec fn be_bytes(value: nat, width: nat) -> Seq<u8>
    decreases width,
{
    if width == 0 {
        Seq::empty()
    } else {
        be_bytes(value / 256, (width - 1) as nat).push((value % 256) as u8)
    }
}

/// 256 to the power `n`.
pub open spec fn pow256(n: nat) -> nat
    decreases n,
{
    if n == 0 {
        1
    } else {
        256 * pow256((n - 1) as nat)
    }
}

/// Each byte of `data` combined by exclusive or with the key byte at its
/// index modulo four.
pub open spec fn xor_mask(data: Seq<u8>, key: Seq<u8>) -> Seq<u8>
    recommends
        key.len() == 4,
{
    Seq::new(data.len(), |i: int| data[i] ^ key[i % 4])
}

/// The four bytes of a masking key given as a number.
pub open spec fn mask_key(mask: u32) -> Seq<u8> {
    be_bytes(mask as nat, 4)
}

/// The meaning of a two-byte head, or the error that it earns: an opcode that
/// does not exist, or a control frame that is fragmented or too long.
pub open spec fn spec_parse_head(b0: u8, b1: u8) -> Result<FrameHead, Error> {
    let code = (b0 % 16) as u8;
    match Opcode::from_code(code) {
        None => Err(Error::InvalidOpcode(code)),
        Some(opcode) => {
            let fin = b0 >= 128;
            let len_code = (b1 % 128) as u8;
            if opcode.spec_is_control() && (len_code >= 126 || !fin) {
                Err(Error::BadProtocol)
            } else {
                Ok(FrameHead { fin, opcode, masked: b1 >= 128, len_code })
            }
        },
    }
}

/// The opcode of the running message once a frame with opcode `frame` has
/// joined it. `Continuation` as `current` means that no message is running.
pub open spec fn spec_next_opcode(current: Opcode, frame: Opcode) -> Result<Opcode, Error> {
    if current == Opcode::Continuation && frame != Opcode::Continuation {
        Ok(frame)
    } else if current != Opcode::Continuation && frame == Opcode::Continuation {
        Ok(current)
    } else {
        Err(Error::BadProtocol)
    }
}

/// How many bytes of extended length follow a head with this length code.
pub open spec fn ext_len(len_code: u8) -> int {
    if len_code == 126 {
        2
    } else if len_code == 127 {
        8
    } else {
        0
    }
}

/// The frame that starts at `start`, as part of a message whose opcode so far
/// is `current`, and the offset behind it. Input that ends inside the frame is
/// an I/O error.
pub open spec fn spec_decode_frame(bytes: Seq<u8>, start: int, current: Opcode) -> Result<
    (FrameView, int),
    Error,
> {
    if start + 2 > bytes.len() {
        Err(Error::IO(IoError::UnexpectedEof))
    } else {
        match spec_parse_head(bytes[start], bytes[start + 1]) {
            Err(e) => Err(e),
            Ok(head) => match spec_next_opcode(current, head.opcode) {
                Err(e) => Err(e),
                Ok(opcode) => {
                    let key_at = start + 2 + ext_len(head.len_code);
                    let data_at = key_at + if head.masked { 4int } else { 0int };
                    if data_at > bytes.len() {
                        Err(Error::IO(IoError::UnexpectedEof))
                    } else {
                        let len = if head.len_code >= 126 {
                            be_value(bytes.subrange(start + 2, key_at))
                        } else {
                            head.len_code as nat
                        };
                        if data_at + len > bytes.len() {
                            Err(Error::IO(IoError::UnexpectedEof))
                        } else {
                            let raw = bytes.subrange(data_at, data_at + len);
                            let payload = if head.masked {
                                xor_mask(raw, bytes.subrange(key_at, data_at))
                            } else {
                                raw
                            };
                            Ok((FrameView { fin: head.fin, opcode, payload }, data_at + len))
                        }
                    }
                },
            },
        }
    }
}

/// The message that `bytes` holds from `start` on: frames are taken until one
/// has FIN set, their payloads joined behind `data`. The result is the
/// message's opcode, its payload and the offset behind its last frame.
pub open spec fn spec_receive(bytes: Seq<u8>, start: int, current: Opcode, data: Seq<u8>) -> Result<
    (Opcode, Seq<u8>, int),
    Error,
>
    decreases bytes.len() - start,
{
    if start < 0 {
        Err(Error::IO(IoError::UnexpectedEof))
    } else {
        match spec_decode_frame(bytes, start, current) {
            Err(e) => Err(e),
            Ok((frame, end)) => if frame.fin {
                Ok((frame.opcode, data + frame.payload, end))
            } else {
                spec_receive(bytes, end, frame.opcode, data + frame.payload)
            },
        }
    }
}

/// The message at the front of `bytes`.
pub open spec fn spec_receive_packet(bytes: Seq<u8>) -> Result<(Opcode, Seq<u8>, int), Error> {
    spec_receive(bytes, 0, Opcode::Continuation, Seq::empty())
}

/// The length field of a frame: the second head byte and the extended length.
pub open spec fn spec_len_field(len: nat, masked: bool) -> Seq<u8> {
    let flag: nat = if masked { 128 } else { 0 };
    if len < 126 {
        seq![(flag + len) as u8]
    } else if len <= 0xffff {
        seq![(flag + 126) as u8] + be_bytes(len, 2)
    } else {
        seq![(flag + 127) as u8] + be_bytes(len, 8)
    }
}

/// The bytes of one frame: the head with FIN as given, the length in its
/// shortest form, and, where `mask` is not zero, the key and the masked payload.
pub open spec fn spec_frame_bytes(fin: bool, opcode: Opcode, data: Seq<u8>, mask: u32) -> Seq<u8> {
    let flag: nat = if fin { 128 } else { 0 };
    let head = seq![(flag + opcode.spec_code()) as u8] + spec_len_field(data.len(), mask != 0);
    if mask != 0 {
        head + mask_key(mask) + xor_mask(data, mask_key(mask))
    } else {
        head + data
    }
}

/// The single frame that carries a whole message: a frame with FIN set.
pub open spec fn spec_send_packet(opcode: Opcode, data: Seq<u8>, mask: u32) -> Seq<u8> {
    spec_frame_bytes(true, opcode, data, mask)
}

/// Whether a frame may be written: its payload fits a 64-bit length, and a
/// control frame is whole and short.
pub open spec fn spec_frame_admitted(fin: bool, opcode: Opcode, data: Seq<u8>) -> bool {
    &&& data.len() <= u64::MAX
    &&& opcode.spec_is_control() ==> fin && data.len() < 126
}

/// Reads the two-byte head of a frame.
pub fn parse_head(b0: u8, b1: u8) -> (r: Result<FrameHead, Error>)
    ensures
        r == spec_parse_head(b0, b1),
{
    let code: u8 = b0 & 0x0f;
    let fin: bool = b0 & 0x80 != 0;
    let masked: bool = b1 & 0x80 != 0;
    let len_code: u8 = b1 & 0x7f;
    proof {
        assert(b0 & 0x0f == b0 % 16) by (bit_vector);
        assert((b0 & 0x80 != 0) == (b0 >= 128)) by (bit_vector);
        assert((b1 & 0x80 != 0) == (b1 >= 128)) by (bit_vector);
        assert(b1 & 0x7f == b1 % 128) by (bit_vector);
    }
    match Opcode::try_from(code) {
        Err(e) => Err(e),
        Ok(opcode) => {
            if opcode.is_control() && (len_code >= 126 || !fin) {
                Err(Error::BadProtocol)
            } else {
                Ok(FrameHead { fin, opcode, masked, len_code })
            }
        },
    }
}

/// Joins a frame's opcode to the opcode of the running message.
pub fn next_opcode(current: Opcode, frame: Opcode) -> (r: Result<Opcode, Error>)
    ensures
        r == spec_next_opcode(current, frame),
{
    let idle: bool = current == Opcode::Continuation;
    let continues: bool = frame == Opcode::Continuation;
    if idle && !continues {
        Ok(frame)
    } else if !idle && continues {
        Ok(current)
    } else {
        Err(Error::BadProtocol)
    }
}

/// The bound that keeps a big-endian number of up to eight bytes inside `u64`.
pub proof fn lemma_be_value_bound(bytes: Seq<u8>)
    ensures
        be_value(bytes) < pow256(bytes.len()),
    decreases bytes.len(),
{
    if bytes.len() > 0 {
        lemma_be_value_bound(bytes.drop_last());
    }
}

/// Reading back the bytes of a number gives the number, where it fits the width.
pub proof fn lemma_be_round_trip(value: nat, width: nat)
    requires
        value < pow256(width),
    ensures
        be_bytes(value, width).len() == width,
        be_value(be_bytes(value, width)) == value,
    decreases width,
{
    if width > 0 {
        let rest = be_bytes(value / 256, (width - 1) as nat);
        lemma_be_round_trip(value / 256, (width - 1) as nat);
        assert(be_bytes(value, width).drop_last() == rest);
    }
}

/// The width of a number's big-endian form is the width asked for.
pub proof fn lemma_be_bytes_len(value: nat, width: nat)
    ensures
        be_bytes(value, width).len() == width,
    decreases width,
{
    if width > 0 {
        lemma_be_bytes_len(value / 256, (width - 1) as nat);
    }
}

/// Reads `width` bytes at `start` as one big-endian number.
pub fn read_be(bytes: &[u8], start: usize, width: usize) -> (r: u64)
    requires
        width <= 8,
        start + width <= bytes@.len(),
    ensures
        r == be_value(bytes@.subrange(start as int, start + width)),
{
    let total: usize = bytes.len();
    let mut value: u64 = 0;
    let mut i: usize = 0;
    while i < width
        invariant
            i <= width <= 8,
            start + width <= total == bytes@.len(),
            value == be_value(bytes@.subrange(start as int, start + i)),
        decreases width - i,
    {
        proof {
            let read = bytes@.subrange(start as int, start + i);
            lemma_be_value_bound(read);
            reveal_with_fuel(pow256, 9);
            assert(pow256(i as nat) <= pow256(7));
            let next = bytes@.subrange(start as int, start + i + 1);
            assert(next.drop_last() == read);
        }
        value = value * 256 + bytes[start + i] as u64;
        i = i + 1;
    }
    value
}

/// Appends the `width` low-order bytes of `value`, most significant first.
pub fn push_be(out: &mut Vec<u8>, value: u64, width: usize)
    ensures
        final(out)@ == old(out)@ + be_bytes(value as nat, width as nat),
    decreases width,
{
    if width > 0 {
        push_be(out, value / 256, width - 1);
        out.push((value % 256) as u8);
    }
}

/// Combines each byte of `data` with the key byte at its index modulo four.
pub fn apply_mask(data: &[u8], key: &[u8]) -> (r: Vec<u8>)
    requires
        key@.len() == 4,
    ensures
        r@ == xor_mask(data@, key@),
{
    let mut out: Vec<u8> = Vec::with_capacity(data.len());
    let mut i: usize = 0;
    while i < data.len()
        invariant
            i <= data@.len(),
            key@.len() == 4,
            out@ == xor_mask(data@, key@).subrange(0, i as int),
        decreases data@.len() - i,
    {
        out.push(data[i] ^ key[i % 4]);
        i = i + 1;
    }
    out
}

/// Takes one frame off `bytes` at `start`, for a message whose opcode so far is
/// `current`. Returns the frame and the offset behind it.
pub fn decode_frame(bytes: &[u8], start: usize, current: Opcode) -> (r: Result<(Frame, usize), Error>)
    requires
        start <= bytes@.len(),
    ensures
        spec_decode_frame(bytes@, start as int, current) == match r {
            Ok((frame, end)) => Ok((frame@, end as int)),
            Err(e) => Err(e),
        },
        r matches Ok((frame, end)) ==> start + 2 <= end <= bytes@.len() && frame.opcode
            != Opcode::Continuation,
{
    let total: usize = bytes.len();
    if total - start < 2 {
        return Err(Error::IO(IoError::UnexpectedEof));
    }
    let head = match parse_head(bytes[start], bytes[start + 1]) {
        Err(e) => { return Err(e); },
        Ok(head) => head,
    };
    let opcode = match next_opcode(current, head.opcode) {
        Err(e) => { return Err(e); },
        Ok(opcode) => opcode,
    };
    let len_at: usize = start + 2;
    let ext: usize = if head.len_code == 126 {
        2
    } else if head.len_code == 127 {
        8
    } else {
        0
    };
    let key_len: usize = if head.masked { 4 } else { 0 };
    if total - len_at < ext + key_len {
        return Err(Error::IO(IoError::UnexpectedEof));
    }
    let key_at: usize = len_at + ext;
    let data_at: usize = key_at + key_len;
    let len: u64 = if head.len_code >= 126 {
        read_be(bytes, len_at, ext)
    } else {
        head.len_code as u64
    };
    if len > (total - data_at) as u64 {
        return Err(Error::IO(IoError::UnexpectedEof));
    }
    let end: usize = data_at + len as usize;
    let raw = vstd::slice::slice_subrange(bytes, data_at, end);
    let payload = if head.masked {
        apply_mask(raw, vstd::slice::slice_subrange(bytes, key_at, data_at))
    } else {
        vstd::slice::slice_to_vec(raw)
    };
    Ok((Frame { fin: head.fin, opcode, payload }, end))
}

/// Takes one whole message off the front of `bytes`: frames are decoded until
/// one has FIN set. Returns the message and the number of bytes it took.
///
/// Input that ends before the message does gives `Error::IO`; a caller that
/// reads from a live connection keeps the bytes and tries again with more.
pub fn receive_packet(bytes: &[u8]) -> (r: Result<(Packet, usize), Error>)
    ensures
        spec_receive_packet(bytes@) == match r {
            Ok((packet, used)) => Ok((packet.0, packet.1@, used as int)),
            Err(e) => Err(e),
        },
        r matches Ok((packet, used)) ==> used <= bytes@.len() && packet.0 != Opcode::Continuation,
{
    let mut pos: usize = 0;
    let mut opcode = Opcode::Continuation;
    let mut data: Vec<u8> = Vec::new();
    loop
        invariant
            pos <= bytes@.len(),
            spec_receive(bytes@, pos as int, opcode, data@) == spec_receive_packet(bytes@),
        decreases bytes@.len() - pos,
    {
        match decode_frame(bytes, pos, opcode) {
            Err(e) => {
                return Err(e);
            },
            Ok((frame, end)) => {
                proof {
                    let step = spec_decode_frame(bytes@, pos as int, opcode);
                    assert(step == Ok::<(FrameView, int), Error>((frame@, end as int)));
                    assert(spec_receive(bytes@, pos as int, opcode, data@) == if frame.fin {
                        Ok::<(Opcode, Seq<u8>, int), Error>(
                            (frame.opcode, data@ + frame.payload@, end as int),
                        )
                    } else {
                        spec_receive(bytes@, end as int, frame.opcode, data@ + frame.payload@)
                    });
                }
                let ghost before = data@;
                data.extend_from_slice(frame.payload.as_slice());
                assert(data@ == before + frame.payload@);
                opcode = frame.opcode;
                pos = end;
                if frame.fin {
                    return Ok(((opcode, data), pos));
                }
            },
        }
    }
}

/// Encodes one message as a single frame with FIN set. A `mask` other than
/// zero is written as the masking key and applied to the payload.
pub fn send_packet(opcode: Opcode, data: &[u8], mask: u32) -> (r: Vec<u8>)
    ensures
        r@ == spec_send_packet(opcode, data@, mask),
{
    let mut out: Vec<u8> = Vec::new();
    out.push(0x80 + opcode.code());
    let flag: u8 = if mask != 0 { 0x80 } else { 0 };
    let len: usize = data.len();
    if len < 126 {
        out.push(flag + len as u8);
    } else if len <= 0xffff {
        out.push(flag + 126);
        push_be(&mut out, len as u64, 2);
    } else {
        out.push(flag + 127);
        push_be(&mut out, len as u64, 8);
    }
    if mask != 0 {
        let mut key: Vec<u8> = Vec::new();
        push_be(&mut key, mask as u64, 4);
        proof {
            lemma_be_bytes_len(mask as nat, 4);
        }
        let masked = apply_mask(data, key.as_slice());
        out.extend_from_slice(key.as_slice());
        out.extend_from_slice(masked.as_slice());
    } else {
        out.extend_from_slice(data);
    }
    out
}

/// Masking is an involution: applying the same key twice restores the bytes.
pub proof fn lemma_mask_involution(data: Seq<u8>, key: Seq<u8>)
    requires
        key.len() == 4,
    ensures
        xor_mask(xor_mask(data, key), key) == data,
{
    let once = xor_mask(data, key);
    let twice = xor_mask(once, key);
    assert forall|i: int| 0 <= i < data.len() implies twice[i] == data[i] by {
        let d: u8 = data[i];
        let k: u8 = key[i % 4];
        assert((d ^ k) ^ k == d) by (bit_vector);
    }
    assert(twice =~= data);
}

/// A frame is read back where it stands: behind any bytes and in front of
/// any others, a frame written as [`spec_frame_bytes`] says decodes to its
/// FIN flag and payload, takes exactly its own bytes, and joins its opcode to
/// that of the running message.
pub proof fn lemma_decode_frame_bytes(
    before: Seq<u8>,
    fin: bool,
    opcode: Opcode,
    data: Seq<u8>,
    mask: u32,
    behind: Seq<u8>,
    current: Opcode,
)
    requires
        spec_frame_admitted(fin, opcode, data),
        spec_next_opcode(current, opcode) is Ok,
    ensures
        spec_decode_frame(
            before + spec_frame_bytes(fin, opcode, data, mask) + behind,
            before.len() as int,
            current,
        ) == Ok::<(FrameView, int), Error>(
            (
                FrameView { fin, opcode: spec_next_opcode(current, opcode)->Ok_0, payload: data },
                (before.len() + spec_frame_bytes(fin, opcode, data, mask).len()) as int,
            ),
        ),
{
    let frame = spec_frame_bytes(fin, opcode, data, mask);
    let bytes = before + frame + behind;
    let start = before.len() as int;
    let len = data.len();
    let masked = mask != 0;
    let field = spec_len_field(len, masked);
    let key = mask_key(mask);
    reveal_with_fuel(pow256, 9);
    lemma_be_bytes_len(mask as nat, 4);
    lemma_be_bytes_len(len, 2);
    lemma_be_bytes_len(len, 8);
    let ext = field.len() - 1;
    let key_at = 2 + ext;
    let data_at = key_at + if masked { 4int } else { 0int };
    assert(frame.len() == data_at + len);
    assert(bytes.subrange(start, start + frame.len()) =~= frame);
    assert forall|k: int| 0 <= k < frame.len() implies bytes[start + k] == frame[k] by {}
    let b0: u8 = bytes[start];
    let b1: u8 = bytes[start + 1];
    assert(b0 == frame[0] && b1 == frame[1]);
    assert(b0 == (if fin { 128int } else { 0int }) + opcode.spec_code());
    assert(Opcode::from_code((b0 % 16) as u8) == Some(opcode));
    let len_code: u8 = if len < 126 {
        len as u8
    } else if len <= 0xffff {
        126
    } else {
        127
    };
    assert(field[0] == (if masked { 128int } else { 0int }) + len_code);
    assert(b1 == field[0]);
    assert(spec_parse_head(b0, b1) == Ok::<FrameHead, Error>(
        FrameHead { fin, opcode, masked, len_code },
    ));
    assert(ext == ext_len(len_code));
    if len_code >= 126 {
        let width: nat = if len_code == 126 { 2 } else { 8 };
        assert(bytes.subrange(start + 2, start + key_at) =~= be_bytes(len, width));
        lemma_be_round_trip(len, width);
    }
    let raw = bytes.subrange(start + data_at, start + data_at + len);
    if masked {
        assert(bytes.subrange(start + key_at, start + data_at) =~= key);
        assert(raw =~= xor_mask(data, key));
        lemma_mask_involution(data, key);
    } else {
        assert(raw =~= data);
    }
}

/// Encoding then decoding reproduces the message: a frame written by
/// [`send_packet`] is read back by [`receive_packet`] as the same opcode and
/// payload, and the whole frame is consumed. This holds with and without a
/// mask, for every opcode that may start a message and every payload that the
/// opcode admits.
pub proof fn lemma_send_then_receive(opcode: Opcode, data: Seq<u8>, mask: u32)
    requires
        opcode != Opcode::Continuation,
        opcode.spec_is_control() ==> data.len() < 126,
        data.len() <= u64::MAX,
    ensures
        spec_receive_packet(spec_send_packet(opcode, data, mask)) == Ok::<
            (Opcode, Seq<u8>, int),
            Error,
        >((opcode, data, spec_send_packet(opcode, data, mask).len() as int)),
{
    let frame = spec_send_packet(opcode, data, mask);
    let none = Seq::<u8>::empty();
    lemma_decode_frame_bytes(none, true, opcode, data, mask, none, Opcode::Continuation);
    assert(none + frame + none =~= frame);
    assert(none + data =~= data);
}

/// Fragmentation: a message split over three frames, the first with the
/// message's opcode and the others Continuation frames, the last with FIN
/// set, is read as one message whose payload is the three payloads joined.
pub proof fn lemma_three_fragments(
    opcode: Opcode,
    first: Seq<u8>,
    second: Seq<u8>,
    third: Seq<u8>,
    mask: u32,
)
    requires
        opcode == Opcode::Text || opcode == Opcode::Binary,
        first.len() <= u64::MAX,
        second.len() <= u64::MAX,
        third.len() <= u64::MAX,
    ensures
        spec_receive_packet(
            spec_frame_bytes(false, opcode, first, mask) + spec_frame_bytes(
                false,
                Opcode::Continuation,
                second,
                mask,
            ) + spec_frame_bytes(true, Opcode::Continuation, third, mask),
        ) == Ok::<(Opcode, Seq<u8>, int), Error>(
            (
                opcode,
                first + second + third,
                (spec_frame_bytes(false, opcode, first, mask).len() + spec_frame_bytes(
                    false,
                    Opcode::Continuation,
                    second,
                    mask,
                ).len() + spec_frame_bytes(true, Opcode::Continuation, third, mask).len()) as int,
            ),
        ),
{
    let a = spec_frame_bytes(false, opcode, first, mask);
    let b = spec_frame_bytes(false, Opcode::Continuation, second, mask);
    let c = spec_frame_bytes(true, Opcode::Continuation, third, mask);
    let bytes = a + b + c;
    let none = Seq::<u8>::empty();
    lemma_decode_frame_bytes(none, false, opcode, first, mask, b + c, Opcode::Continuation);
    assert(none + a + (b + c) =~= bytes);
    lemma_decode_frame_bytes(a, false, Opcode::Continuation, second, mask, c, opcode);
    lemma_decode_frame_bytes(a + b, true, Opcode::Continuation, third, mask, none, opcode);
    assert(a + b + c + none =~= bytes);
    let end1 = a.len() as int;
    let end2 = (a.len() + b.len()) as int;
    let end3 = (a.len() + b.len() + c.len()) as int;
    assert(none + first =~= first);
    assert(spec_receive(bytes, end2, opcode, first + second) == Ok::<
        (Opcode, Seq<u8>, int),
        Error,
    >((opcode, first + second + third, end3)));
    assert(spec_receive(bytes, end1, opcode, first) == spec_receive(
        bytes,
        end2,
        opcode,
        first + second,
    ));
    assert(spec_receive(bytes, 0, Opcode::Continuation, none) == spec_receive(
        bytes,
        end1,
        opcode,
        none + first,
    ));
}

/// A control frame with FIN clear is refused as a protocol error, whatever
/// else the input holds.
pub proof fn lemma_fragmented_control_is_refused(bytes: Seq<u8>, opcode: Opcode)
    requires
        bytes.len() >= 2,
        opcode.spec_is_control(),
        bytes[0] == opcode.spec_code(),
    ensures
        spec_receive_packet(bytes) == Err::<(Opcode, Seq<u8>, int), Error>(Error::BadProtocol),
{
    assert(Opcode::from_code((bytes[0] % 16) as u8) == Some(opcode));
}

/// More input does not change what a frame is: once the bytes at hand hold a
/// whole frame, or show a fault, bytes that arrive later make no difference.
pub proof fn lemma_decode_frame_stable(bytes: Seq<u8>, more: Seq<u8>, start: int, current: Opcode)
    requires
        0 <= start,
        spec_decode_frame(bytes, start, current) != Err::<(FrameView, int), Error>(
            Error::IO(IoError::UnexpectedEof),
        ),
    ensures
        spec_decode_frame(bytes + more, start, current) == spec_decode_frame(bytes, start, current),
{
    let longer = bytes + more;
    assert(start + 2 <= bytes.len());
    assert(longer[start] == bytes[start] && longer[start + 1] == bytes[start + 1]);
    match spec_parse_head(bytes[start], bytes[start + 1]) {
        Err(_) => {},
        Ok(head) => match spec_next_opcode(current, head.opcode) {
            Err(_) => {},
            Ok(_) => {
                let key_at = start + 2 + ext_len(head.len_code);
                let data_at = key_at + if head.masked { 4int } else { 0int };
                assert(data_at <= bytes.len());
                assert(longer.subrange(start + 2, key_at) =~= bytes.subrange(start + 2, key_at));
                let len = if head.len_code >= 126 {
                    be_value(bytes.subrange(start + 2, key_at))
                } else {
                    head.len_code as nat
                };
                assert(data_at + len <= bytes.len());
                assert(longer.subrange(data_at, data_at + len) =~= bytes.subrange(
                    data_at,
                    data_at + len,
                ));
                assert(longer.subrange(key_at, data_at) =~= bytes.subrange(key_at, data_at));
            },
        },
    }
}

/// More input does not change what a message is: once [`receive_packet`] has
/// answered with a message or with a protocol error, it answers the same
/// whatever is appended to the input. Only the answer that the input ended
/// early can change, which is why a caller may try again with more bytes.
pub proof fn lemma_receive_stable(
    bytes: Seq<u8>,
    more: Seq<u8>,
    start: int,
    current: Opcode,
    data: Seq<u8>,
)
    requires
        0 <= start,
        spec_receive(bytes, start, current, data) != Err::<(Opcode, Seq<u8>, int), Error>(
            Error::IO(IoError::UnexpectedEof),
        ),
    ensures
        spec_receive(bytes + more, start, current, data) == spec_receive(
            bytes,
            start,
            current,
            data,
        ),
    decreases bytes.len() - start,
{
    lemma_decode_frame_stable(bytes, more, start, current);
    match spec_decode_frame(bytes, start, current) {
        Err(_) => {},
        Ok((frame, end)) => {
            if !frame.fin {
                lemma_receive_stable(bytes, more, end, frame.opcode, data + frame.payload);
            }
        },
    }
}

} // verus!
