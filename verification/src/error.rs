use vstd::prelude::*;

verus! {

/// What went wrong.
#[derive(Clone, Copy, Debug, PartialEq, Eq)]
pub enum ErrorKind {
    SerialPort,
    Io,
    PayloadTooLarge,
}

/// An error of the interface: its kind and a description for people.
#[derive(Debug)]
pub struct Error {
    pub kind: ErrorKind,
    pub description: String,
}

/// The description of a payload that does not fit the MTU: the split-packet
/// MTU of 508 bytes, or the single-packet MTU of 255 bytes.
pub open spec fn payload_too_large_description(split_packet_mode: bool) -> Seq<char> {
    if split_packet_mode {
        "payload can't be larger than MTU of 508"@
    } else {
        "payload can't be larger than MTU of 255"@
    }
}

impl Error {
    /// The error of the given kind that the library itself raises. Only a
    /// payload larger than the MTU is raised here, and its description names
    /// the MTU of the framing in use; the other kinds come from the serial
    /// port and carry its own description.
    pub(crate) fn from_kind(kind: ErrorKind, split_packet_mode: bool) -> (e: Self)
        requires
            kind == ErrorKind::PayloadTooLarge,
        ensures
            e.kind == ErrorKind::PayloadTooLarge,
            e.description@ == payload_too_large_description(split_packet_mode),
    {
        match kind {
            ErrorKind::PayloadTooLarge => Self {
                kind: ErrorKind::PayloadTooLarge,
                description: if split_packet_mode {
                    "payload can't be larger than MTU of 508".to_owned()
                } else {
                    "payload can't be larger than MTU of 255".to_owned()
                },
            },
            _ => {
                proof {
                    assert(false);
                }
                Self { kind, description: String::new() }
            },
        }
    }

    pub fn kind(&self) -> (k: &ErrorKind)
        ensures
            *k == self.kind,
    {
        &self.kind
    }

    /// The description of the error.
    pub fn description(&self) -> (d: &str)
        ensures
            d@ == self.description@,
    {
        self.description.as_str()
    }
}

} // verus!
