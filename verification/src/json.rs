//! The JSON text by which an event is handed to the embedding application.

use vstd::prelude::*;
use vstd::string::*;
use vstd::utf8::encode_utf8;
use crate::event::{EventView, WebSocketEvent};

verus! {

/// The decimal digits of `n`, as ASCII bytes, without leading zeros.
pub open spec fn decimal(n: nat) -> Seq<u8>
    decreases n,
{
    if n < 10 {
        seq![(48 + n) as u8]
    } else {
        decimal(n / 10).push((48 + n % 10) as u8)
    }
}

/// What one byte of a text becomes inside a JSON string. A backslash and a
/// double quote get a backslash in front; with `control` set, line feed,
/// carriage return and tab become `\n`, `\r` and `\t`. Every other byte
/// stays.
pub open spec fn escape_byte(b: u8, control: bool) -> Seq<u8> {
    if b == 0x5C {
        seq![0x5Cu8, 0x5Cu8]
    } else if b == 0x22 {
        seq![0x5Cu8, 0x22u8]
    } else if control && b == 0x0A {
        seq![0x5Cu8, 0x6Eu8]
    } else if control && b == 0x0D {
        seq![0x5Cu8, 0x72u8]
    } else if control && b == 0x09 {
        seq![0x5Cu8, 0x74u8]
    } else {
        seq![b]
    }
}

/// A text's bytes, each escaped for a JSON string.
pub open spec fn escape(text: Seq<u8>, control: bool) -> Seq<u8>
    decreases text.len(),
{
    if text.len() == 0 {
        Seq::empty()
    } else {
        escape(text.drop_last(), control) + escape_byte(text.last(), control)
    }
}

/// The JSON text of an event.
pub open spec fn spec_event_json(event: EventView) -> Seq<u8> {
    match event {
        EventView::Connected(id) => "{\"type\":\"connected\",\"clientId\":".spec_bytes()
            + decimal(id as nat) + "}".spec_bytes(),
        EventView::Disconnected(id) => "{\"type\":\"disconnected\",\"clientId\":".spec_bytes()
            + decimal(id as nat) + "}".spec_bytes(),
        EventView::Message { client_id, text } => "{\"type\":\"message\",\"clientId\":".spec_bytes()
            + decimal(client_id as nat) + ",\"text\":\"".spec_bytes() + escape(
            encode_utf8(text),
            true,
        ) + "\"}".spec_bytes(),
        EventView::Error(message) => "{\"type\":\"error\",\"message\":\"".spec_bytes() + escape(
            encode_utf8(message),
            false,
        ) + "\"}".spec_bytes(),
        EventView::Shutdown => "{\"type\":\"shutdown\"}".spec_bytes(),
    }
}

/// Appends the decimal digits of `n`.
pub fn push_decimal(out: &mut Vec<u8>, n: u64)
    ensures
        final(out)@ == old(out)@ + decimal(n as nat),
    decreases n,
{
    if n >= 10 {
        push_decimal(out, n / 10);
    }
    let digit: u8 = (n % 10) as u8;
    out.push(48 + digit);
    assert(final(out)@ =~= old(out)@ + decimal(n as nat));
}

/// Appends `text`, escaped for a JSON string.
pub fn push_escaped(out: &mut Vec<u8>, text: &[u8], control: bool)
    ensures
        final(out)@ == old(out)@ + escape(text@, control),
{
    let mut i: usize = 0;
    assert(text@.take(0) =~= Seq::<u8>::empty());
    while i < text.len()
        invariant
            i <= text.len(),
            out@ == old(out)@ + escape(text@.take(i as int), control),
        decreases text.len() - i,
    {
        let b: u8 = text[i];
        let ghost before = out@;
        if b == 0x5C {
            out.push(0x5C);
            out.push(0x5C);
        } else if b == 0x22 {
            out.push(0x5C);
            out.push(0x22);
        } else if control && b == 0x0A {
            out.push(0x5C);
            out.push(0x6E);
        } else if control && b == 0x0D {
            out.push(0x5C);
            out.push(0x72);
        } else if control && b == 0x09 {
            out.push(0x5C);
            out.push(0x74);
        } else {
            out.push(b);
        }
        proof {
            let next = text@.take(i + 1);
            assert(next.drop_last() =~= text@.take(i as int));
            assert(next.last() == b);
            assert(out@ =~= before + escape_byte(b, control));
            assert(out@ =~= old(out)@ + escape(next, control));
        }
        i = i + 1;
    }
    assert(text@.take(text.len() as int) =~= text@);
}

/// Returns the JSON text of an event, as UTF-8 bytes.
pub fn event_json(event: &WebSocketEvent) -> (out: Vec<u8>)
    ensures
        out@ == spec_event_json(event@),
{
    let mut out: Vec<u8> = Vec::new();
    match event {
        WebSocketEvent::Connected(id) => {
            out.extend_from_slice("{\"type\":\"connected\",\"clientId\":".as_bytes());
            push_decimal(&mut out, *id);
            out.extend_from_slice("}".as_bytes());
        },
        WebSocketEvent::Disconnected(id) => {
            out.extend_from_slice("{\"type\":\"disconnected\",\"clientId\":".as_bytes());
            push_decimal(&mut out, *id);
            out.extend_from_slice("}".as_bytes());
        },
        WebSocketEvent::Message { client_id, text } => {
            out.extend_from_slice("{\"type\":\"message\",\"clientId\":".as_bytes());
            push_decimal(&mut out, *client_id);
            out.extend_from_slice(",\"text\":\"".as_bytes());
            push_escaped(&mut out, text.as_str().as_bytes(), true);
            out.extend_from_slice("\"}".as_bytes());
        },
        WebSocketEvent::Error(message) => {
            out.extend_from_slice("{\"type\":\"error\",\"message\":\"".as_bytes());
            push_escaped(&mut out, message.as_str().as_bytes(), false);
            out.extend_from_slice("\"}".as_bytes());
        },
        WebSocketEvent::Shutdown => {
            out.extend_from_slice("{\"type\":\"shutdown\"}".as_bytes());
        },
    }
    assert(out@ =~= spec_event_json(event@));
    out
}

} // verus!
