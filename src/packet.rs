//! The packets that describe a converted run: one start and one stop per test.
use vstd::prelude::*;

verus! {

/// The status a packet carries.
#[derive(Clone, Copy, Debug, PartialEq, Eq, Structural)]
pub enum Status {
    InProgress,
    Success,
    Skip,
    Fail,
}

impl Status {
    /// The protocol's name for this status.
    pub open spec fn name_spec(self) -> Seq<char> {
        match self {
            Status::InProgress => "inprogress"@,
            Status::Success => "success"@,
            Status::Skip => "skip"@,
            Status::Fail => "fail"@,
        }
    }

    pub fn name(&self) -> (r: &'static str)
        ensures
            r@ == self.name_spec(),
    {
        match self {
            Status::InProgress => "inprogress",
            Status::Success => "success",
            Status::Skip => "skip",
            Status::Fail => "fail",
        }
    }
}

/// The name under which an attachment is filed.
#[derive(Clone, Copy, Debug, PartialEq, Eq, Structural)]
pub enum FileName {
    Stdout,
    Reason,
    Traceback,
}

impl FileName {
    pub open spec fn name_spec(self) -> Seq<char> {
        match self {
            FileName::Stdout => "stdout"@,
            FileName::Reason => "reason"@,
            FileName::Traceback => "traceback"@,
        }
    }

    pub fn name(&self) -> (r: &'static str)
        ensures
            r@ == self.name_spec(),
    {
        match self {
            FileName::Stdout => "stdout",
            FileName::Reason => "reason",
            FileName::Traceback => "traceback",
        }
    }

    /// The attachment name that goes with a terminal status: a traceback for
    /// a failure, a reason for a skip, captured output otherwise.
    pub open spec fn for_status_spec(status: Status) -> FileName {
        match status {
            Status::Fail => FileName::Traceback,
            Status::Skip => FileName::Reason,
            _ => FileName::Stdout,
        }
    }

    pub fn for_status(status: Status) -> (r: FileName)
        ensures
            r == FileName::for_status_spec(status),
    {
        match status {
            Status::Fail => FileName::Traceback,
            Status::Skip => FileName::Reason,
            _ => FileName::Stdout,
        }
    }
}

/// The MIME type of every attachment.
pub const MIME_TYPE: &'static str = "text/plain";

/// A named `text/plain` payload carried by a stop packet.
#[derive(Clone, Debug)]
pub struct Attachment {
    pub name: FileName,
    pub content: Vec<u8>,
}

/// One Subunit event: a status for a test at a timestamp, in nanoseconds
/// since the Unix epoch, with an optional attachment.
#[derive(Clone, Debug)]
pub struct Packet {
    pub status: Status,
    pub test_id: Vec<u8>,
    pub timestamp: i64,
    pub attachment: Option<Attachment>,
}

/// What a packet states, as mathematical values.
pub ghost struct PacketView {
    pub status: Status,
    pub test_id: Seq<u8>,
    pub timestamp: int,
    pub attachment: Option<(FileName, Seq<u8>)>,
}

impl View for Packet {
    type V = PacketView;

    open spec fn view(&self) -> PacketView {
        PacketView {
            status: self.status,
            test_id: self.test_id@,
            timestamp: self.timestamp as int,
            attachment: match self.attachment {
                Some(a) => Some((a.name, a.content@)),
                None => None,
            },
        }
    }
}

/// The views of a sequence of packets.
pub open spec fn packet_views(s: Seq<Packet>) -> Seq<PacketView> {
    s.map_values(|p: Packet| p@)
}

/// The packet that announces a test.
pub open spec fn start_packet(test_id: Seq<u8>, timestamp: int) -> PacketView {
    PacketView { status: Status::InProgress, test_id, timestamp, attachment: None }
}

/// The packet that resolves a test; an attachment is named after the status.
pub open spec fn stop_packet(
    status: Status,
    test_id: Seq<u8>,
    timestamp: int,
    content: Option<Seq<u8>>,
) -> PacketView {
    PacketView {
        status,
        test_id,
        timestamp,
        attachment: match content {
            Some(c) => Some((FileName::for_status_spec(status), c)),
            None => None,
        },
    }
}

impl Packet {
    pub fn start(test_id: Vec<u8>, timestamp: i64) -> (r: Packet)
        ensures
            r@ == start_packet(test_id@, timestamp as int),
    {
        Packet { status: Status::InProgress, test_id, timestamp, attachment: None }
    }

    pub fn stop(status: Status, test_id: Vec<u8>, timestamp: i64, content: Option<Vec<u8>>) -> (r:
        Packet)
        ensures
            r@ == stop_packet(
                status,
                test_id@,
                timestamp as int,
                match content {
                    Some(c) => Some(c@),
                    None => None,
                },
            ),
    {
        let attachment = match content {
            Some(c) => Some(Attachment { name: FileName::for_status(status), content: c }),
            None => None,
        };
        Packet { status, test_id, timestamp, attachment }
    }
}

} // verus!
