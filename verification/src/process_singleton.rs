use crate::persistent::{joined_path, DataDir};
use crate::text::{decimal_chars, decimal_string};
use vstd::bytes::{
    lemma_auto_spec_u32_to_from_le_bytes, spec_u32_from_le_bytes, spec_u32_to_le_bytes, u32_from_le_bytes,
    u32_to_le_bytes,
};
use vstd::prelude::*;
use vstd::string::*;

verus! {

/// The largest message that one process sends to another: 16 MiB.
pub const MAX_MESSAGE_SIZE: usize = 16777216;

/// A message as it goes over the socket: its length in four bytes (least
/// significant first), then the payload.
pub open spec fn spec_frame(payload: Seq<u8>) -> Seq<u8> {
    spec_u32_to_le_bytes(payload.len() as u32) + payload
}

/// The error for a message too large to send.
pub open spec fn send_too_large(len: nat) -> Seq<char> {
    "Could not send too large message ("@ + decimal_chars(len) + " bytes > 16 MiB)"@
}

/// The error for an announced message too large to receive.
pub open spec fn receive_too_large(len: nat) -> Seq<char> {
    "Could not receive too large message ("@ + decimal_chars(len) + " bytes > 16 MiB)"@
}

fn too_large(prefix: &str, len: u64) -> (s: String)
    ensures
        s@ == prefix@ + decimal_chars(len as nat) + " bytes > 16 MiB)"@,
{
    let mut s = String::from_str(prefix);
    s.append(decimal_string(len).as_str());
    s.append(" bytes > 16 MiB)");
    s
}

/// Frames a serialized message for the socket; a payload over 16 MiB is an
/// error.
pub fn encode(payload: &[u8]) -> (r: Result<Vec<u8>, String>)
    ensures
        payload@.len() > MAX_MESSAGE_SIZE ==> (r matches Err(e) && e@ == send_too_large(payload@.len())),
        payload@.len() <= MAX_MESSAGE_SIZE ==> (r matches Ok(v) && v@ == spec_frame(payload@)),
{
    if payload.len() > MAX_MESSAGE_SIZE {
        return Err(too_large("Could not send too large message (", payload.len() as u64));
    }
    let mut out = u32_to_le_bytes(payload.len() as u32);
    out.extend_from_slice(payload);
    Ok(out)
}

/// The length of the message that the four bytes before it announce; a
/// length over 16 MiB is an error.
pub fn decode_length(header: &[u8]) -> (r: Result<usize, String>)
    requires
        header@.len() == 4,
    ensures
        ({
            let len = spec_u32_from_le_bytes(header@);
            &&& len > MAX_MESSAGE_SIZE ==> (r matches Err(e) && e@ == receive_too_large(len as nat))
            &&& len <= MAX_MESSAGE_SIZE ==> r == Ok::<usize, String>(len as usize)
        }),
{
    let len = u32_from_le_bytes(header);
    if len as u64 > MAX_MESSAGE_SIZE as u64 {
        return Err(too_large("Could not receive too large message (", len as u64));
    }
    Ok(len as usize)
}

/// The name of the socket file in the data directory.
pub const SOCKET_FILE: &'static str = "singleton.sock";

/// The name of the socket in the namespace of sockets, where there are no
/// socket files (Windows).
pub const SOCKET_NAMESPACE: &'static str = "shiba.singleton.sock";

/// The one process of the application that other processes hand their
/// paths to: the socket it is reached at, and the file that the socket
/// leaves behind, which is removed once this process listened on it.
pub struct ProcessSingleton {
    name: Option<String>,
    path: Option<String>,
    cleanup: bool,
}

impl ProcessSingleton {
    /// The socket that is connected to or listened on, until listening
    /// starts.
    pub closed spec fn spec_name(&self) -> Option<Seq<char>> {
        match &self.name {
            Some(n) => Some(n@),
            None => None,
        }
    }

    /// The socket file.
    pub closed spec fn spec_path(&self) -> Option<Seq<char>> {
        match &self.path {
            Some(p) => Some(p@),
            None => None,
        }
    }

    /// Whether the socket file is removed when this process ends.
    pub closed spec fn spec_cleanup(&self) -> bool {
        self.cleanup
    }

    /// The socket file in the data directory; none without one.
    pub fn with_socket_file(data_dir: &DataDir) -> (s: ProcessSingleton)
        ensures
            match data_dir.spec_path() {
                Some(d) => s.spec_name() == Some(joined_path(d@, SOCKET_FILE@)) && s.spec_path() == s.spec_name(),
                None => s.spec_name() is None && s.spec_path() is None,
            },
            !s.spec_cleanup(),
    {
        match data_dir.file_path(SOCKET_FILE) {
            Some(p) => ProcessSingleton { name: Some(p.clone()), path: Some(p), cleanup: false },
            None => ProcessSingleton::default(),
        }
    }

    /// The socket with a name in the namespace of sockets, which leaves no
    /// file behind.
    pub fn with_namespace(name: &str) -> (s: ProcessSingleton)
        ensures
            s.spec_name() == Some(name@),
            s.spec_path() is None,
            !s.spec_cleanup(),
    {
        ProcessSingleton { name: Some(String::from_str(name)), path: None, cleanup: false }
    }

    /// The socket of the application in the namespace of sockets.
    pub fn with_default_namespace() -> (s: ProcessSingleton)
        ensures
            s.spec_name() == Some(SOCKET_NAMESPACE@),
            s.spec_path() is None,
            !s.spec_cleanup(),
    {
        ProcessSingleton::with_namespace(SOCKET_NAMESPACE)
    }

    /// Whether there is a socket to listen on.
    pub fn can_listen(&self) -> (b: bool)
        ensures
            b == self.spec_name() is Some,
    {
        self.name.is_some()
    }

    /// The socket that paths are sent to, if there is one.
    pub fn name(&self) -> (n: Option<&str>)
        ensures
            match n {
                Some(x) => self.spec_name() == Some(x@),
                None => self.spec_name() is None,
            },
    {
        match &self.name {
            Some(x) => Some(x.as_str()),
            None => None,
        }
    }

    /// Starts listening: gives the socket to listen on, together with the
    /// socket file that a process killed before may have left and that is
    /// removed first; from then on there is no socket to listen on, and
    /// the socket file is removed when this process ends. Without a socket,
    /// nothing changes.
    pub fn listen(&mut self) -> (r: Option<(String, Option<String>)>)
        ensures
            final(self).spec_path() == old(self).spec_path(),
            final(self).spec_name() is None,
            match old(self).spec_name() {
                Some(n) => r matches Some((m, p)) && m@ == n
                    && (match p { Some(q) => old(self).spec_path() == Some(q@), None => old(self).spec_path() is None })
                    && final(self).spec_cleanup(),
                None => r is None && final(self).spec_cleanup() == old(self).spec_cleanup(),
            },
    {
        let mut name = None;
        std::mem::swap(&mut name, &mut self.name);
        match name {
            None => None,
            Some(n) => {
                self.cleanup = true;
                let p = match &self.path {
                    Some(q) => Some(q.clone()),
                    None => None,
                };
                Some((n, p))
            },
        }
    }

    /// The socket file to remove when this process ends, if it listened on
    /// one.
    pub fn file_to_remove(&self) -> (p: Option<&str>)
        ensures
            match p {
                Some(q) => self.spec_cleanup() && self.spec_path() == Some(q@),
                None => !self.spec_cleanup() || self.spec_path() is None,
            },
    {
        if self.cleanup {
            match &self.path {
                Some(q) => Some(q.as_str()),
                None => None,
            }
        } else {
            None
        }
    }
}

impl Default for ProcessSingleton {
    /// No socket: nothing is sent and nothing is listened to.
    fn default() -> (s: ProcessSingleton)
        ensures
            s.spec_name() is None,
            s.spec_path() is None,
            !s.spec_cleanup(),
    {
        ProcessSingleton { name: None, path: None, cleanup: false }
    }
}

/// What is received is what was sent: the first four bytes of a framed
/// message announce the payload's length, and the payload follows them.
pub proof fn law_frame_round_trip(payload: Seq<u8>)
    requires
        payload.len() <= MAX_MESSAGE_SIZE,
    ensures
        spec_frame(payload).len() == payload.len() + 4,
        spec_u32_from_le_bytes(spec_frame(payload).take(4)) == payload.len(),
        spec_frame(payload).skip(4) == payload,
{
    lemma_auto_spec_u32_to_from_le_bytes();
    let header = spec_u32_to_le_bytes(payload.len() as u32);
    assert(spec_frame(payload).take(4) =~= header);
    assert(spec_frame(payload).skip(4) =~= payload);
}

} // verus!
