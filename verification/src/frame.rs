//! The frame codec: header, length encoding and masking.

use vstd::prelude::*;
use vstd::slice::slice_subrange;
use vstd::utf8::encode_utf8;
use crate::error::WsError;
use crate::text::{lemma_text_of_encoding, text_of, utf8_lossy};

verus! {

/// Largest payload, in bytes, that the decoder accepts.
pub const MAX_PAYLOAD: u64 = 65536;

/// The 4-bit code that says what a frame is for.
#[derive(Clone, Copy, Debug, PartialEq, Eq, Structural)]
pub enum WebSocketOpcode {
    Continuation,
    Text,
    Binary,
    Close,
    Ping,
    Pong,
}

impl WebSocketOpcode {
    /// The opcode's value on the wire.
    pub open spec fn spec_code(self) -> u8 {
        match self {
            WebSocketOpcode::Continuation => 0x0,
            WebSocketOpcode::Text => 0x1,
            WebSocketOpcode::Binary => 0x2,
            WebSocketOpcode::Close => 0x8,
            WebSocketOpcode::Ping => 0x9,
            WebSocketOpcode::Pong => 0xA,
        }
    }

    /// Returns the opcode's value on the wire.
    pub fn code(self) -> (c: u8)
        ensures
            c == self.spec_code(),
    {
        match self {
            WebSocketOpcode::Continuation => 0x0,
            WebSocketOpcode::Text => 0x1,
            WebSocketOpcode::Binary => 0x2,
            WebSocketOpcode::Close => 0x8,
            WebSocketOpcode::Ping => 0x9,
            WebSocketOpcode::Pong => 0xA,
        }
    }
}

/// The number that a big-endian byte sequence stands for.
pub open spec fn be_value(bytes: Seq<u8>) -> nat
    decreases bytes.len(),
{
    if bytes.len() == 0 {
        0
    } else {
        be_value(bytes.drop_last()) * 256 + bytes.last() as nat
    }
}

/// The `width` low-order base-256 digits of `n`, most significant first.
pub open spec fn be_bytes(n: nat, width: nat) -> Seq<u8>
    decreases width,
{
    if width == 0 {
        Seq::empty()
    } else {
        be_bytes(n / 256, (width - 1) as nat).push((n % 256) as u8)
    }
}

/// 256 to the power `width`.
pub open spec fn pow256(width: nat) -> nat
    decreases width,
{
    if width == 0 {
        1
    } else {
        256 * pow256((width - 1) as nat)
    }
}

/// `be_bytes(n, width)` has exactly `width` bytes.
pub proof fn lemma_be_bytes_len(n: nat, width: nat)
    ensures
        be_bytes(n, width).len() == width,
    decreases width,
{
    if width > 0 {
        lemma_be_bytes_len(n / 256, (width - 1) as nat);
    }
}

/// Reading back the big-endian digits of a number that fits in `width`
/// bytes gives the number.
pub proof fn lemma_be_round_trip(n: nat, width: nat)
    requires
        n < pow256(width),
    ensures
        be_value(be_bytes(n, width)) == n,
    decreases width,
{
    if width > 0 {
        let rest = be_bytes(n / 256, (width - 1) as nat);
        lemma_be_round_trip(n / 256, (width - 1) as nat);
        assert(be_bytes(n, width).drop_last() =~= rest);
    }
}

/// The length field of a frame whose payload has `n` bytes: one byte up to
/// 125, marker 126 and two bytes up to 65535, marker 127 and eight bytes
/// beyond. The first byte carries the mask bit where `masked` is set.
pub open spec fn length_field(n: nat, masked: bool) -> Seq<u8> {
    let flag: nat = if masked {
        128
    } else {
        0
    };
    if n < 126 {
        seq![(flag + n) as u8]
    } else if n <= 65535 {
        seq![(flag + 126) as u8] + be_bytes(n, 2)
    } else {
        seq![(flag + 127) as u8] + be_bytes(n, 8)
    }
}

/// `payload` with byte `i` XOR-ed with `mask[i mod 4]`. Masking and
/// unmasking are the same operation.
pub open spec fn apply_mask(payload: Seq<u8>, mask: Seq<u8>) -> Seq<u8> {
    Seq::new(payload.len(), |i: int| payload[i] ^ mask[i % 4])
}

/// The bytes of an unmasked, final frame, as the server sends it.
pub open spec fn frame_bytes(opcode: WebSocketOpcode, payload: Seq<u8>) -> Seq<u8> {
    seq![(128 + opcode.spec_code()) as u8] + length_field(payload.len(), false) + payload
}

/// The bytes of a masked, final frame, as a client sends it.
pub open spec fn masked_frame_bytes(
    opcode: WebSocketOpcode,
    payload: Seq<u8>,
    mask: Seq<u8>,
) -> Seq<u8> {
    seq![(128 + opcode.spec_code()) as u8] + length_field(payload.len(), true) + mask
        + apply_mask(payload, mask)
}

/// Appends the two big-endian bytes of `n`.
fn push_be16(out: &mut Vec<u8>, n: u16)
    ensures
        final(out)@ == old(out)@ + be_bytes(n as nat, 2),
{
    let hi: u8 = (n / 256) as u8;
    let lo: u8 = (n % 256) as u8;
    out.push(hi);
    out.push(lo);
    proof {
        reveal_with_fuel(be_bytes, 3);
        assert(be_bytes(n as nat, 2) =~= seq![hi, lo]);
        assert(final(out)@ =~= old(out)@ + seq![hi, lo]);
    }
}

/// Appends the eight big-endian bytes of `n`.
fn push_be64(out: &mut Vec<u8>, n: u64)
    ensures
        final(out)@ == old(out)@ + be_bytes(n as nat, 8),
{
    let n1: u64 = n / 256;
    let n2: u64 = n1 / 256;
    let n3: u64 = n2 / 256;
    let n4: u64 = n3 / 256;
    let n5: u64 = n4 / 256;
    let n6: u64 = n5 / 256;
    let n7: u64 = n6 / 256;
    let b0: u8 = (n7 % 256) as u8;
    let b1: u8 = (n6 % 256) as u8;
    let b2: u8 = (n5 % 256) as u8;
    let b3: u8 = (n4 % 256) as u8;
    let b4: u8 = (n3 % 256) as u8;
    let b5: u8 = (n2 % 256) as u8;
    let b6: u8 = (n1 % 256) as u8;
    let b7: u8 = (n % 256) as u8;
    out.push(b0);
    out.push(b1);
    out.push(b2);
    out.push(b3);
    out.push(b4);
    out.push(b5);
    out.push(b6);
    out.push(b7);
    proof {
        reveal_with_fuel(be_bytes, 9);
        assert(be_bytes(n as nat, 8) =~= seq![b0, b1, b2, b3, b4, b5, b6, b7]);
        assert(final(out)@ =~= old(out)@ + seq![b0, b1, b2, b3, b4, b5, b6, b7]);
    }
}

/// Appends the opcode byte and the length field of a frame.
fn push_header(out: &mut Vec<u8>, opcode: WebSocketOpcode, n: usize, masked: bool)
    ensures
        final(out)@ == old(out)@ + seq![(128 + opcode.spec_code()) as u8] + length_field(
            n as nat,
            masked,
        ),
{
    let c: u8 = opcode.code();
    assert(c < 16 ==> (0x80u8 | c) == (128 + c) as u8) by (bit_vector);
    out.push(0x80u8 | c);
    let flag: u8 = if masked {
        0x80
    } else {
        0
    };
    if n < 126 {
        let low: u8 = n as u8;
        assert(low < 128 && (flag == 0 || flag == 128) ==> (flag | low) == (flag + low) as u8)
            by (bit_vector);
        out.push(flag | low);
    } else if n <= 65535 {
        assert((0x80u8 | 126u8) == 254u8 && (0u8 | 126u8) == 126u8) by (bit_vector);
        out.push(flag | 126u8);
        push_be16(out, n as u16);
    } else {
        assert((0x80u8 | 127u8) == 255u8 && (0u8 | 127u8) == 127u8) by (bit_vector);
        out.push(flag | 127u8);
        push_be64(out, n as u64);
    }
    assert(final(out)@ =~= old(out)@ + seq![(128 + opcode.spec_code()) as u8] + length_field(
        n as nat,
        masked,
    ));
}

/// Encodes one unmasked, final frame: the opcode byte, the length in the
/// shortest of the three forms, then the payload as it stands.
pub fn encode_frame(opcode: WebSocketOpcode, payload: &[u8]) -> (out: Vec<u8>)
    ensures
        out@ == frame_bytes(opcode, payload@),
{
    let mut out: Vec<u8> = Vec::new();
    push_header(&mut out, opcode, payload.len(), false);
    out.extend_from_slice(payload);
    assert(out@ =~= frame_bytes(opcode, payload@));
    out
}

/// Encodes one masked, final frame, as a client sends it: the opcode byte,
/// the length with the mask bit set, the four mask bytes, then the payload
/// XOR-ed with the mask.
pub fn encode_masked_frame(opcode: WebSocketOpcode, payload: &[u8], mask: &[u8]) -> (out: Vec<u8>)
    requires
        mask.len() == 4,
    ensures
        out@ == masked_frame_bytes(opcode, payload@, mask@),
{
    let mut out: Vec<u8> = Vec::new();
    push_header(&mut out, opcode, payload.len(), true);
    out.extend_from_slice(mask);
    let body = unmask(payload, mask);
    out.extend_from_slice(body.as_slice());
    assert(out@ =~= masked_frame_bytes(opcode, payload@, mask@));
    out
}

/// A decoded frame.
#[derive(Clone, Debug, PartialEq, Eq)]
pub enum WebSocketFrame {
    /// A text message, its payload decoded as UTF-8.
    Text(String),
    /// The peer asks to close the connection; the payload says why.
    Close(Vec<u8>),
    /// A ping, with its payload.
    Ping(Vec<u8>),
    /// A pong, with its payload.
    Pong(Vec<u8>),
}

/// What a frame holds, as mathematical values.
pub enum FrameView {
    Text(Seq<char>),
    Close(Seq<u8>),
    Ping(Seq<u8>),
    Pong(Seq<u8>),
}

impl View for WebSocketFrame {
    type V = FrameView;

    open spec fn view(&self) -> FrameView {
        match self {
            WebSocketFrame::Text(t) => FrameView::Text(t@),
            WebSocketFrame::Close(p) => FrameView::Close(p@),
            WebSocketFrame::Ping(p) => FrameView::Ping(p@),
            WebSocketFrame::Pong(p) => FrameView::Pong(p@),
        }
    }
}

/// A frame together with the number of bytes it took up in the input.
#[derive(Clone, Debug, PartialEq, Eq)]
pub struct Decoded {
    pub frame: WebSocketFrame,
    pub consumed: usize,
}

/// A frame before its payload is read as what the opcode says: the opcode
/// value, the unmasked payload, and the number of bytes the frame took up
/// in the input.
#[derive(Clone, Debug, PartialEq, Eq)]
pub struct RawFrame {
    pub code: u8,
    pub payload: Vec<u8>,
    pub consumed: usize,
}

/// A `RawFrame`, as mathematical values.
pub struct RawFrameView {
    pub code: u8,
    pub payload: Seq<u8>,
    pub consumed: nat,
}

impl View for RawFrame {
    type V = RawFrameView;

    open spec fn view(&self) -> RawFrameView {
        RawFrameView { code: self.code, payload: self.payload@, consumed: self.consumed as nat }
    }
}

/// How many bytes of extended length follow a header whose second byte is
/// `second`: 2 after the marker 126, 8 after 127, else none.
pub open spec fn ext_len_width(second: u8) -> nat {
    if second % 128 == 126 {
        2
    } else if second % 128 == 127 {
        8
    } else {
        0
    }
}

/// The length of everything before the payload: the two header bytes, the
/// extended length and the four mask bytes.
pub open spec fn head_len(second: u8) -> nat {
    2 + ext_len_width(second) + 4
}

/// The payload length that the head of a frame declares.
pub open spec fn declared_len(bytes: Seq<u8>) -> nat
    recommends
        bytes.len() >= 2,
        bytes.len() >= head_len(bytes[1]),
{
    if bytes[1] % 128 == 126 {
        be_value(bytes.subrange(2, 4))
    } else if bytes[1] % 128 == 127 {
        be_value(bytes.subrange(2, 10))
    } else {
        (bytes[1] % 128) as nat
    }
}

/// Whether an opcode value is one that the decoder accepts: text, close,
/// ping or pong.
pub open spec fn supported(code: u8) -> bool {
    code == 0x1 || code == 0x8 || code == 0x9 || code == 0xA
}

/// The frame that an opcode value, an unmasked payload and the payload's
/// reading as text make, if the opcode is supported. Only a text frame
/// uses the text; the others keep the payload as it is.
pub open spec fn frame_with(code: u8, payload: Seq<u8>, text: Seq<char>) -> Option<FrameView> {
    if code == 0x1 {
        Some(FrameView::Text(text))
    } else if code == 0x8 {
        Some(FrameView::Close(payload))
    } else if code == 0x9 {
        Some(FrameView::Ping(payload))
    } else if code == 0xA {
        Some(FrameView::Pong(payload))
    } else {
        None
    }
}

/// The frame that an opcode value and an unmasked payload make, if the
/// opcode is supported.
pub open spec fn frame_of(code: u8, payload: Seq<u8>) -> Option<FrameView> {
    frame_with(code, payload, text_of(payload))
}

/// What the bytes that a connection has delivered hold, before the
/// payload is read as what the opcode says.
///
/// Fewer than two bytes are no frame yet. After the header, the extended
/// length and the mask must be there; then a declared length over
/// `MAX_PAYLOAD` is refused; then the payload must be there in full; and
/// last the opcode is looked at. The FIN bit and the mask bit are ignored.
pub open spec fn spec_decode_raw(bytes: Seq<u8>) -> Result<Option<RawFrameView>, WsError> {
    if bytes.len() < 2 {
        Ok(None)
    } else if bytes.len() < head_len(bytes[1]) {
        Err(WsError::ReadFailed)
    } else if declared_len(bytes) > MAX_PAYLOAD {
        Err(WsError::PayloadTooLarge)
    } else if bytes.len() < head_len(bytes[1]) + declared_len(bytes) {
        Err(WsError::ReadFailed)
    } else if !supported(bytes[0] % 16) {
        Err(WsError::UnsupportedOpcode)
    } else {
        let head = head_len(bytes[1]) as int;
        let end = head + declared_len(bytes);
        Ok(
            Some(
                RawFrameView {
                    code: bytes[0] % 16,
                    payload: apply_mask(
                        bytes.subrange(head, end),
                        bytes.subrange(head - 4, head),
                    ),
                    consumed: end as nat,
                },
            ),
        )
    }
}

/// What decoding makes of the bytes that a connection has delivered:
/// what `spec_decode_raw` finds, with the payload read as the opcode says.
pub open spec fn spec_decode(bytes: Seq<u8>) -> Result<Option<(FrameView, nat)>, WsError> {
    match spec_decode_raw(bytes) {
        Ok(Some(raw)) => match frame_of(raw.code, raw.payload) {
            Some(frame) => Ok(Some((frame, raw.consumed))),
            None => Err(WsError::UnsupportedOpcode),
        },
        Ok(None) => Ok(None),
        Err(e) => Err(e),
    }
}

/// Whether an outcome of the decoder stands for the given abstract outcome.
pub open spec fn decode_matches(
    got: Result<Option<Decoded>, WsError>,
    want: Result<Option<(FrameView, nat)>, WsError>,
) -> bool {
    match want {
        Ok(Some((frame, consumed))) => got matches Ok(Some(d)) && d.frame@ == frame
            && d.consumed == consumed,
        Ok(None) => got matches Ok(None),
        Err(e) => got matches Err(x) && x == e,
    }
}

/// `pow256` grows with its argument.
proof fn lemma_pow256_grows(a: nat, b: nat)
    requires
        a <= b,
    ensures
        1 <= pow256(a) <= pow256(b),
    decreases b,
{
    if b > 0 {
        if a == b {
            lemma_pow256_grows((a - 1) as nat, (b - 1) as nat);
        } else {
            lemma_pow256_grows(a, (b - 1) as nat);
        }
    }
}

/// Reads `width` bytes at `start` as a big-endian number.
fn read_be(buf: &[u8], start: usize, width: usize) -> (v: u64)
    requires
        width <= 8,
        start + width <= buf.len(),
    ensures
        v == be_value(buf@.subrange(start as int, start + width)),
{
    let mut v: u64 = 0;
    let mut i: usize = 0;
    proof {
        assert(buf@.subrange(start as int, start as int).len() == 0);
    }
    while i < width
        invariant
            i <= width <= 8,
            start + width <= buf.len(),
            v == be_value(buf@.subrange(start as int, start + i)),
            v < pow256(i as nat),
        decreases width - i,
    {
        let b: u8 = buf[start + i];
        proof {
            let next = buf@.subrange(start as int, start + i + 1);
            assert(next.drop_last() =~= buf@.subrange(start as int, start + i));
            assert(next.last() == b);
            lemma_pow256_grows((i + 1) as nat, 8);
            assert(pow256(8) == 0x1_0000_0000_0000_0000) by {
                reveal_with_fuel(pow256, 9);
            }
        }
        v = v * 256 + b as u64;
        i = i + 1;
    }
    v
}

/// Returns the length of everything before the payload, from the second
/// header byte.
pub fn frame_head_len(second: u8) -> (n: usize)
    ensures
        n == head_len(second),
        6 <= n <= 14,
{
    let marker: u8 = second & 0x7F;
    assert(second & 0x7F == second % 128) by (bit_vector);
    if marker == 126 {
        8
    } else if marker == 127 {
        14
    } else {
        6
    }
}

/// Returns the payload length that a complete head declares, or
/// `PayloadTooLarge` where it exceeds `MAX_PAYLOAD`.
pub fn frame_payload_len(head: &[u8]) -> (r: Result<usize, WsError>)
    requires
        head.len() >= 2,
        head.len() >= head_len(head@[1]),
    ensures
        declared_len(head@) <= MAX_PAYLOAD ==> r == Ok::<usize, WsError>(
            declared_len(head@) as usize,
        ),
        declared_len(head@) > MAX_PAYLOAD ==> r == Err::<usize, WsError>(
            WsError::PayloadTooLarge,
        ),
{
    let second: u8 = head[1];
    let marker: u8 = second & 0x7F;
    assert(second & 0x7F == second % 128) by (bit_vector);
    let n: u64 = if marker == 126 {
        read_be(head, 2, 2)
    } else if marker == 127 {
        read_be(head, 2, 8)
    } else {
        marker as u64
    };
    if n > MAX_PAYLOAD {
        Err(WsError::PayloadTooLarge)
    } else {
        Ok(n as usize)
    }
}

/// Returns `payload` with each byte XOR-ed with the mask byte of its place.
pub fn unmask(payload: &[u8], mask: &[u8]) -> (out: Vec<u8>)
    requires
        mask.len() == 4,
    ensures
        out@ == apply_mask(payload@, mask@),
{
    let mut out: Vec<u8> = Vec::new();
    let mut i: usize = 0;
    while i < payload.len()
        invariant
            i <= payload.len(),
            mask.len() == 4,
            out@.len() == i,
            forall|k: int| 0 <= k < i ==> out@[k] == payload@[k] ^ mask@[k % 4],
        decreases payload.len() - i,
    {
        out.push(payload[i] ^ mask[i % 4]);
        i = i + 1;
    }
    assert(out@ =~= apply_mask(payload@, mask@));
    out
}

/// Finds the first frame of `buf` and unmasks its payload, without reading
/// the payload as what the opcode says.
///
/// Returns `Ok(None)` while fewer than two bytes are there, the frame's
/// parts where one is complete and its opcode supported, and otherwise the
/// error that `spec_decode_raw` gives: `ReadFailed` for a frame cut short,
/// `PayloadTooLarge`, or `UnsupportedOpcode`.
pub fn decode_raw(buf: &[u8]) -> (r: Result<Option<RawFrame>, WsError>)
    ensures
        match spec_decode_raw(buf@) {
            Ok(Some(raw)) => r matches Ok(Some(got)) && got@ == raw,
            Ok(None) => r matches Ok(None),
            Err(e) => r matches Err(x) && x == e,
        },
{
    if buf.len() < 2 {
        return Ok(None);
    }
    let head: usize = frame_head_len(buf[1]);
    if buf.len() < head {
        return Err(WsError::ReadFailed);
    }
    let n: usize = match frame_payload_len(buf) {
        Ok(n) => n,
        Err(e) => {
            return Err(e);
        },
    };
    if buf.len() - head < n {
        return Err(WsError::ReadFailed);
    }
    let end: usize = head + n;
    let first: u8 = buf[0];
    let code: u8 = first & 0x0F;
    assert(first & 0x0F == first % 16) by (bit_vector);
    if !(code == 0x1 || code == 0x8 || code == 0x9 || code == 0xA) {
        return Err(WsError::UnsupportedOpcode);
    }
    let mask = slice_subrange(buf, head - 4, head);
    let body = slice_subrange(buf, head, end);
    let payload = unmask(body, mask);
    Ok(Some(RawFrame { code, payload, consumed: end }))
}

/// Makes the frame that an opcode value, an unmasked payload and the
/// payload's reading as text stand for, or reports `UnsupportedOpcode`.
/// Only a text frame takes the text; close, ping and pong keep the payload.
pub fn assemble_frame(code: u8, payload: Vec<u8>, text: String) -> (r: Result<
    WebSocketFrame,
    WsError,
>)
    ensures
        match frame_with(code, payload@, text@) {
            Some(frame) => r matches Ok(f) && f@ == frame,
            None => r matches Err(e) && e == WsError::UnsupportedOpcode,
        },
{
    if code == 0x1 {
        Ok(WebSocketFrame::Text(text))
    } else if code == 0x8 {
        Ok(WebSocketFrame::Close(payload))
    } else if code == 0x9 {
        Ok(WebSocketFrame::Ping(payload))
    } else if code == 0xA {
        Ok(WebSocketFrame::Pong(payload))
    } else {
        Err(WsError::UnsupportedOpcode)
    }
}

/// Decodes the first frame of `buf`.
///
/// Returns `Ok(None)` while fewer than two bytes are there, the frame and
/// its length in bytes where one is complete, and otherwise the error that
/// `spec_decode` gives: `ReadFailed` for a frame cut short,
/// `PayloadTooLarge`, or `UnsupportedOpcode`.
pub fn decode_frame(buf: &[u8]) -> (r: Result<Option<Decoded>, WsError>)
    ensures
        decode_matches(r, spec_decode(buf@)),
{
    let raw = match decode_raw(buf) {
        Ok(Some(raw)) => raw,
        Ok(None) => {
            return Ok(None);
        },
        Err(e) => {
            return Err(e);
        },
    };
    let text = if raw.code == 0x1 {
        utf8_lossy(raw.payload.as_slice())
    } else {
        String::new()
    };
    match assemble_frame(raw.code, raw.payload, text) {
        Ok(frame) => Ok(Some(Decoded { frame, consumed: raw.consumed })),
        Err(e) => Err(e),
    }
}

/// Masking twice with the same mask gives the payload back.
pub proof fn lemma_mask_involution(payload: Seq<u8>, mask: Seq<u8>)
    ensures
        apply_mask(apply_mask(payload, mask), mask) == payload,
{
    assert forall|i: int| 0 <= i < payload.len() implies apply_mask(
        apply_mask(payload, mask),
        mask,
    )[i] == payload[i] by {
        let p: u8 = payload[i];
        let m: u8 = mask[i % 4];
        assert((p ^ m) ^ m == p) by (bit_vector);
    }
    assert(apply_mask(apply_mask(payload, mask), mask) =~= payload);
}

/// What the head of a masked frame must give for the frame to be read
/// back: the place where the payload begins, the declared length, the mask
/// and the masked payload.
pub open spec fn head_reads_back(bytes: Seq<u8>, code: u8, payload: Seq<u8>, mask: Seq<u8>) -> bool {
    let head = head_len(bytes[1]) as int;
    &&& bytes.len() >= 2
    &&& bytes.len() == head + payload.len()
    &&& bytes[0] == 128 + code
    &&& declared_len(bytes) == payload.len()
    &&& bytes.subrange(head - 4, head) == mask
    &&& bytes.subrange(head, head + payload.len()) == apply_mask(payload, mask)
}

/// The head of a masked frame in the one-byte form of the length.
proof fn lemma_masked_head_short(opcode: WebSocketOpcode, payload: Seq<u8>, mask: Seq<u8>)
    requires
        mask.len() == 4,
        payload.len() < 126,
    ensures
        head_reads_back(
            masked_frame_bytes(opcode, payload, mask),
            opcode.spec_code(),
            payload,
            mask,
        ),
{
    let n = payload.len();
    let bytes = masked_frame_bytes(opcode, payload, mask);
    let body = apply_mask(payload, mask);
    assert(bytes =~= seq![(128 + opcode.spec_code()) as u8, (128 + n) as u8] + mask + body);
    assert(bytes.len() == 6 + n);
    assert(bytes[1] == 128 + n);
    assert(bytes[1] % 128 == n);
    assert(head_len(bytes[1]) == 6);
    assert(declared_len(bytes) == n);
    assert(bytes.subrange(2, 6) =~= mask);
    assert(bytes.subrange(6, 6 + n as int) =~= body);
}

/// The head of a masked frame in the two-byte form of the length.
proof fn lemma_masked_head_medium(opcode: WebSocketOpcode, payload: Seq<u8>, mask: Seq<u8>)
    requires
        mask.len() == 4,
        126 <= payload.len() <= 65535,
    ensures
        head_reads_back(
            masked_frame_bytes(opcode, payload, mask),
            opcode.spec_code(),
            payload,
            mask,
        ),
{
    let n = payload.len();
    let bytes = masked_frame_bytes(opcode, payload, mask);
    let body = apply_mask(payload, mask);
    let digits = be_bytes(n, 2);
    lemma_be_bytes_len(n, 2);
    assert(pow256(2) == 65536) by {
        reveal_with_fuel(pow256, 3);
    }
    lemma_be_round_trip(n, 2);
    assert(bytes =~= seq![(128 + opcode.spec_code()) as u8, 254u8] + digits + mask + body);
    assert(bytes.len() == 8 + n);
    assert(bytes[1] == 254);
    assert(head_len(bytes[1]) == 8);
    assert(bytes.subrange(2, 4) =~= digits);
    assert(declared_len(bytes) == n);
    assert(bytes.subrange(4, 8) =~= mask);
    assert(bytes.subrange(8, 8 + n as int) =~= body);
}

/// The head of a masked frame in the eight-byte form of the length.
proof fn lemma_masked_head_long(opcode: WebSocketOpcode, payload: Seq<u8>, mask: Seq<u8>)
    requires
        mask.len() == 4,
        65535 < payload.len() < 0x1_0000_0000_0000_0000,
    ensures
        head_reads_back(
            masked_frame_bytes(opcode, payload, mask),
            opcode.spec_code(),
            payload,
            mask,
        ),
{
    let n = payload.len();
    let bytes = masked_frame_bytes(opcode, payload, mask);
    let body = apply_mask(payload, mask);
    let digits = be_bytes(n, 8);
    lemma_be_bytes_len(n, 8);
    assert(pow256(8) == 0x1_0000_0000_0000_0000) by {
        reveal_with_fuel(pow256, 9);
    }
    lemma_be_round_trip(n, 8);
    assert(bytes =~= seq![(128 + opcode.spec_code()) as u8, 255u8] + digits + mask + body);
    assert(bytes.len() == 14 + n);
    assert(bytes[1] == 255);
    assert(head_len(bytes[1]) == 14);
    assert(bytes.subrange(2, 10) =~= digits);
    assert(declared_len(bytes) == n);
    assert(bytes.subrange(10, 14) =~= mask);
    assert(bytes.subrange(14, 14 + n as int) =~= body);
}

/// The head of a masked frame reads back, in each form of the length.
pub proof fn lemma_masked_head(opcode: WebSocketOpcode, payload: Seq<u8>, mask: Seq<u8>)
    requires
        mask.len() == 4,
        payload.len() < 0x1_0000_0000_0000_0000,
    ensures
        head_reads_back(
            masked_frame_bytes(opcode, payload, mask),
            opcode.spec_code(),
            payload,
            mask,
        ),
{
    if payload.len() < 126 {
        lemma_masked_head_short(opcode, payload, mask);
    } else if payload.len() <= 65535 {
        lemma_masked_head_medium(opcode, payload, mask);
    } else {
        lemma_masked_head_long(opcode, payload, mask);
    }
}

/// Bytes whose head reads back decode to the opcode value and the payload
/// they were made from, where the payload is not too long.
proof fn lemma_decode_raw_of_head(bytes: Seq<u8>, code: u8, payload: Seq<u8>, mask: Seq<u8>)
    requires
        code < 16,
        payload.len() <= MAX_PAYLOAD,
        head_reads_back(bytes, code, payload, mask),
    ensures
        spec_decode_raw(bytes) == (if supported(code) {
            Ok::<Option<RawFrameView>, WsError>(
                Some(RawFrameView { code, payload, consumed: bytes.len() }),
            )
        } else {
            Err::<Option<RawFrameView>, WsError>(WsError::UnsupportedOpcode)
        }),
{
    let head = head_len(bytes[1]) as int;
    assert(bytes[0] % 16 == code);
    lemma_mask_involution(payload, mask);
    assert(apply_mask(bytes.subrange(head, head + payload.len()), bytes.subrange(head - 4, head))
        == payload);
}

/// Decoding a masked frame with a payload of at most `MAX_PAYLOAD` bytes
/// gives back the opcode and the payload, whatever the mask, and consumes
/// the whole frame: for text the payload read as text, for close, ping and
/// pong the payload itself. The other opcodes are refused.
pub proof fn lemma_decode_encode(opcode: WebSocketOpcode, payload: Seq<u8>, mask: Seq<u8>)
    requires
        mask.len() == 4,
        payload.len() <= MAX_PAYLOAD,
    ensures
        spec_decode_raw(masked_frame_bytes(opcode, payload, mask)) == (if supported(
            opcode.spec_code(),
        ) {
            Ok::<Option<RawFrameView>, WsError>(
                Some(
                    RawFrameView {
                        code: opcode.spec_code(),
                        payload,
                        consumed: masked_frame_bytes(opcode, payload, mask).len(),
                    },
                ),
            )
        } else {
            Err::<Option<RawFrameView>, WsError>(WsError::UnsupportedOpcode)
        }),
        spec_decode(masked_frame_bytes(opcode, payload, mask)) == (match opcode {
            WebSocketOpcode::Text => Ok::<Option<(FrameView, nat)>, WsError>(
                Some(
                    (
                        FrameView::Text(text_of(payload)),
                        masked_frame_bytes(opcode, payload, mask).len(),
                    ),
                ),
            ),
            WebSocketOpcode::Close => Ok(
                Some((FrameView::Close(payload), masked_frame_bytes(opcode, payload, mask).len())),
            ),
            WebSocketOpcode::Ping => Ok(
                Some((FrameView::Ping(payload), masked_frame_bytes(opcode, payload, mask).len())),
            ),
            WebSocketOpcode::Pong => Ok(
                Some((FrameView::Pong(payload), masked_frame_bytes(opcode, payload, mask).len())),
            ),
            WebSocketOpcode::Continuation => Err(WsError::UnsupportedOpcode),
            WebSocketOpcode::Binary => Err(WsError::UnsupportedOpcode),
        }),
{
    let bytes = masked_frame_bytes(opcode, payload, mask);
    lemma_masked_head(opcode, payload, mask);
    lemma_decode_raw_of_head(bytes, opcode.spec_code(), payload, mask);
}

/// A text frame whose payload is the UTF-8 encoding of a text decodes to
/// that text.
pub proof fn lemma_decode_encode_text(text: Seq<char>, mask: Seq<u8>)
    requires
        mask.len() == 4,
        encode_utf8(text).len() <= MAX_PAYLOAD,
    ensures
        spec_decode(masked_frame_bytes(WebSocketOpcode::Text, encode_utf8(text), mask)) == Ok::<
            Option<(FrameView, nat)>,
            WsError,
        >(
            Some(
                (
                    FrameView::Text(text),
                    masked_frame_bytes(WebSocketOpcode::Text, encode_utf8(text), mask).len(),
                ),
            ),
        ),
{
    lemma_decode_encode(WebSocketOpcode::Text, encode_utf8(text), mask);
    lemma_text_of_encoding(text);
}

/// A complete masked frame that declares more than `MAX_PAYLOAD` bytes is
/// refused as too large, whatever its opcode.
pub proof fn lemma_decode_too_large(opcode: WebSocketOpcode, payload: Seq<u8>, mask: Seq<u8>)
    requires
        mask.len() == 4,
        MAX_PAYLOAD < payload.len() < 0x1_0000_0000_0000_0000,
    ensures
        spec_decode(masked_frame_bytes(opcode, payload, mask)) == Err::<
            Option<(FrameView, nat)>,
            WsError,
        >(WsError::PayloadTooLarge),
{
    lemma_masked_head(opcode, payload, mask);
}

/// The three forms of the length: a frame's header takes 2 bytes for a
/// payload of up to 125 bytes, 4 bytes up to 65535, and 10 bytes beyond.
pub proof fn lemma_frame_len(opcode: WebSocketOpcode, payload: Seq<u8>)
    ensures
        frame_bytes(opcode, payload).len() == payload.len() + (if payload.len() <= 125 {
            2nat
        } else if payload.len() <= 65535 {
            4nat
        } else {
            10nat
        }),
        payload.len() <= 125 ==> frame_bytes(opcode, payload)[1] == payload.len(),
        125 < payload.len() <= 65535 ==> frame_bytes(opcode, payload)[1] == 126,
        65535 < payload.len() ==> frame_bytes(opcode, payload)[1] == 127,
{
    lemma_be_bytes_len(payload.len(), 2);
    lemma_be_bytes_len(payload.len(), 8);
}

} // verus!
