//! Subunit v2 encoding of packets, through the `subunit_rust` encoder.
use vstd::prelude::*;

use chrono::{DateTime, Utc};
use subunit_rust::Event;

use vstd::utf8::valid_utf8;

use crate::packet::{Packet, PacketView, MIME_TYPE};

verus! {

/// The largest test identifier, and the largest attachment, in bytes, that a
/// packet may carry: well within what one Subunit v2 packet can frame.
pub const MAX_FIELD_LEN: usize = 1_000_000;

/// The bytes that the Subunit v2 encoder writes for one event: its status,
/// test id, timestamp in nanoseconds since the Unix epoch, and optional file
/// name with content and MIME type.
pub uninterp spec fn subunit_bytes(
    status: Seq<char>,
    test_id: Seq<u8>,
    timestamp: int,
    file: Option<(Seq<char>, Seq<u8>)>,
    mime_type: Option<Seq<char>>,
) -> Seq<u8>;

pub open spec fn opt_file(file: Option<(&str, &Vec<u8>)>) -> Option<(Seq<char>, Seq<u8>)> {
    match file {
        Some((n, c)) => Some((n@, c@)),
        None => None,
    }
}

pub open spec fn opt_str(s: Option<&str>) -> Option<Seq<char>> {
    match s {
        Some(v) => Some(v@),
        None => None,
    }
}

/// Whether `s` is one of the status names that the Subunit v2 encoder maps
/// to a flag of its own.
pub open spec fn is_status_name(s: Seq<char>) -> bool {
    ||| s == "inprogress"@
    ||| s == "success"@
    ||| s == "skip"@
    ||| s == "fail"@
}

/// Relies on `String::from_utf8`, which accepts exactly the valid UTF-8
/// byte strings, and on `subunit_rust::Event::write`, writing into a fresh
/// `Vec`. On success the buffer holds the encoded packet. The encoder fails
/// only on an unknown status or on a field of 2^30 bytes or more, and a
/// `Vec` takes every write, so a known status and a valid identifier always
/// encode. The bounds on the lengths keep the packet below the size at which
/// the encoder panics.
#[verifier::external_body]
fn write_event(
    status: &str,
    test_id: &Vec<u8>,
    timestamp: i64,
    file: Option<(&str, &Vec<u8>)>,
    mime_type: Option<&str>,
) -> (r: Option<Vec<u8>>)
    requires
        status@.len() <= 16,
        test_id@.len() <= MAX_FIELD_LEN,
        match file {
            Some((n, c)) => n@.len() <= 16 && c@.len() <= MAX_FIELD_LEN,
            None => true,
        },
        mime_type is Some ==> mime_type->0@.len() <= 16,
    ensures
        r is Some ==> r->0@ == subunit_bytes(
            status@,
            test_id@,
            timestamp as int,
            opt_file(file),
            opt_str(mime_type),
        ),
        r is Some ==> valid_utf8(test_id@),
        is_status_name(status@) && valid_utf8(test_id@) ==> r is Some,
{
    let test_id = String::from_utf8(test_id.clone()).ok()?;
    let mut event = Event {
        status: Some(status.to_string()),
        test_id: Some(test_id),
        timestamp: Some(DateTime::<Utc>::from_timestamp_nanos(timestamp)),
        tags: None,
        file_content: file.map(|f| f.1.clone()),
        file_name: file.map(|f| f.0.to_string()),
        mime_type: mime_type.map(|m| m.to_string()),
        route_code: None,
    };
    event.write(Vec::new()).ok()
}

/// The encoding of one packet; a stop packet with an attachment carries its
/// file name, content and the `text/plain` MIME type.
pub open spec fn packet_bytes(p: PacketView) -> Seq<u8> {
    match p.attachment {
        Some((name, content)) => subunit_bytes(
            p.status.name_spec(),
            p.test_id,
            p.timestamp,
            Some((name.name_spec(), content)),
            Some(MIME_TYPE@),
        ),
        None => subunit_bytes(p.status.name_spec(), p.test_id, p.timestamp, None, None),
    }
}

/// Whether the packet can be encoded: its identifier is valid UTF-8, and it
/// and the attachment fit within the bounds.
pub open spec fn encodable(p: PacketView) -> bool {
    &&& valid_utf8(p.test_id)
    &&& p.test_id.len() <= MAX_FIELD_LEN
    &&& match p.attachment {
        Some((_, content)) => content.len() <= MAX_FIELD_LEN,
        None => true,
    }
}

/// Encodes one packet; `None` exactly where it is not encodable.
pub fn encode_packet(p: &Packet) -> (r: Option<Vec<u8>>)
    ensures
        r is Some <==> encodable(p@),
        r is Some ==> r->0@ == packet_bytes(p@),
{
    if p.test_id.len() > MAX_FIELD_LEN {
        return None;
    }
    proof {
        reveal_strlit("text/plain");
        reveal_strlit("inprogress");
        reveal_strlit("success");
        reveal_strlit("skip");
        reveal_strlit("fail");
        reveal_strlit("stdout");
        reveal_strlit("reason");
        reveal_strlit("traceback");
    }
    match &p.attachment {
        Some(a) => {
            if a.content.len() > MAX_FIELD_LEN {
                return None;
            }
            write_event(
                p.status.name(),
                &p.test_id,
                p.timestamp,
                Some((a.name.name(), &a.content)),
                Some(MIME_TYPE),
            )
        },
        None => write_event(p.status.name(), &p.test_id, p.timestamp, None, None),
    }
}

/// The encodings of the packets, one after another.
pub open spec fn stream_bytes(pk: Seq<PacketView>) -> Seq<u8>
    decreases pk.len(),
{
    if pk.len() == 0 {
        seq![]
    } else {
        stream_bytes(pk.drop_last()) + packet_bytes(pk.last())
    }
}

/// Encodes the packets in order into one Subunit v2 stream; `None` exactly
/// where one of them cannot be encoded.
pub fn encode_stream(packets: &Vec<Packet>) -> (r: Option<Vec<u8>>)
    ensures
        r is Some <==> forall|i: int| 0 <= i < packets@.len() ==> encodable(#[trigger] packets@[i]@),
        r is Some ==> r->0@ == stream_bytes(packets@.map_values(|p: Packet| p@)),
{
    let mut out: Vec<u8> = Vec::new();
    let mut i: usize = 0;
    let ghost views = packets@.map_values(|p: Packet| p@);
    proof {
        assert(views.take(0) =~= seq![]);
    }
    while i < packets.len()
        invariant
            0 <= i <= packets.len(),
            views == packets@.map_values(|p: Packet| p@),
            out@ == stream_bytes(views.take(i as int)),
            forall|j: int| 0 <= j < i ==> encodable(#[trigger] packets@[j]@),
        decreases packets.len() - i,
    {
        let b = encode_packet(&packets[i]);
        match b {
            Some(mut bytes) => {
                proof {
                    assert(views.take(i + 1).drop_last() =~= views.take(i as int));
                }
                out.append(&mut bytes);
            },
            None => {
                return None;
            },
        }
        i += 1;
    }
    proof {
        assert(views.take(i as int) =~= views);
    }
    Some(out)
}

} // verus!
