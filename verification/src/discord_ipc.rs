//! Discord Rich Presence over Discord's local IPC pipe: the activity model,
//! the binary frame format (little-endian opcode and length, then the JSON
//! payload), and the connection state that decides when to connect, when a
//! write failure drops the connection.
use vstd::prelude::*;
use vstd::bytes::{
    lemma_auto_spec_u32_to_from_le_bytes, spec_u32_from_le_bytes, spec_u32_to_le_bytes,
    u32_from_le_bytes, u32_to_le_bytes,
};
use vstd::slice::{slice_subrange, slice_to_vec};
use crate::text::{contains_seq, contains_spec, occurs_at, push_char, same_text};

verus! {

/// Timestamps shown as a progress bar, in seconds since the Unix epoch.
#[derive(Debug, Clone)]
pub struct Timestamps {
    pub start: Option<u64>,
    pub end: Option<u64>,
}

/// Images and their hover texts.
#[derive(Debug, Clone)]
pub struct Assets {
    pub large_image: Option<String>,
    pub large_text: Option<String>,
    pub small_image: Option<String>,
    pub small_text: Option<String>,
}

impl Default for Assets {
    fn default() -> (r: Self)
        ensures
            r.large_image is None,
            r.large_text is None,
            r.small_image is None,
            r.small_text is None,
    {
        Assets { large_image: None, large_text: None, small_image: None, small_text: None }
    }
}

/// A clickable button under the activity.
#[derive(Debug, Clone)]
pub struct Button {
    pub label: String,
    pub url: String,
}

/// A Rich Presence activity; absent fields are left out of the payload.
#[derive(Debug, Clone)]
pub struct Activity {
    pub activity_type: Option<u32>,
    pub name: Option<String>,
    pub details: Option<String>,
    pub state: Option<String>,
    pub timestamps: Option<Timestamps>,
    pub assets: Option<Assets>,
    pub buttons: Option<Vec<Button>>,
}

impl Default for Activity {
    fn default() -> (r: Self)
        ensures
            r.activity_type is None,
            r.name is None,
            r.details is None,
            r.state is None,
            r.timestamps is None,
            r.assets is None,
            r.buttons is None,
    {
        Activity {
            activity_type: None,
            name: None,
            details: None,
            state: None,
            timestamps: None,
            assets: None,
            buttons: None,
        }
    }
}

// ---------------------------------------------------------------------------
// Frames
// ---------------------------------------------------------------------------

/// Opcode of the handshake frame.
pub const OPCODE_HANDSHAKE: u32 = 0;

/// Opcode of a command frame (and of the handshake's answer).
pub const OPCODE_FRAME: u32 = 1;

/// Bytes in a frame header: opcode, then payload length.
pub const FRAME_HEADER_LEN: usize = 8;

/// Number of pipes `discord-ipc-0` to `discord-ipc-9` that are probed.
pub const IPC_PIPE_COUNT: u32 = 10;

/// Path prefix of Discord's IPC named pipes.
pub const IPC_PIPE_PREFIX: &'static str = "\\\\.\\pipe\\discord-ipc-";

/// The bytes of a frame: opcode and payload length as little-endian `u32`s,
/// then the payload. The length is the payload length truncated to 32 bits.
pub open spec fn frame_spec(opcode: u32, payload: Seq<u8>) -> Seq<u8> {
    spec_u32_to_le_bytes(opcode) + spec_u32_to_le_bytes(payload.len() as u32) + payload
}

/// Reading a frame from the front of `bytes`: `None` while the header or the
/// payload it announces is incomplete; bytes after the frame are left alone.
pub open spec fn parse_frame_spec(bytes: Seq<u8>) -> Option<(u32, Seq<u8>)> {
    if bytes.len() < FRAME_HEADER_LEN {
        None
    } else {
        let len = spec_u32_from_le_bytes(bytes.subrange(4, 8));
        if bytes.len() < FRAME_HEADER_LEN + len {
            None
        } else {
            Some((spec_u32_from_le_bytes(bytes.subrange(0, 4)), bytes.subrange(8, 8 + len)))
        }
    }
}

/// Encodes a frame.
pub fn encode_frame(opcode: u32, payload: &[u8]) -> (r: Vec<u8>)
    ensures
        r@ == frame_spec(opcode, payload@),
{
    let mut r = u32_to_le_bytes(opcode);
    let length: u32 = payload.len() as u32;
    let mut len_bytes = u32_to_le_bytes(length);
    r.append(&mut len_bytes);
    let mut body = slice_to_vec(payload);
    r.append(&mut body);
    r
}

/// Opcode and payload length read from a frame header.
#[derive(Debug, Clone, Copy, PartialEq, Eq)]
pub struct FrameHeader {
    pub opcode: u32,
    pub length: u32,
}

/// Decodes the eight header bytes of a frame.
pub fn decode_frame_header(header: &[u8]) -> (r: FrameHeader)
    requires
        header@.len() == FRAME_HEADER_LEN,
    ensures
        r.opcode == spec_u32_from_le_bytes(header@.subrange(0, 4)),
        r.length == spec_u32_from_le_bytes(header@.subrange(4, 8)),
{
    let opcode = u32_from_le_bytes(slice_subrange(header, 0, 4));
    let length = u32_from_le_bytes(slice_subrange(header, 4, 8));
    FrameHeader { opcode, length }
}

/// Decodes the frame at the front of `bytes`.
pub fn decode_frame(bytes: &[u8]) -> (r: Option<(u32, Vec<u8>)>)
    ensures
        r is Some <==> parse_frame_spec(bytes@) is Some,
        r matches Some(f) ==> parse_frame_spec(bytes@) == Some((f.0, f.1@)),
{
    if bytes.len() < FRAME_HEADER_LEN {
        return None;
    }
    let header = decode_frame_header(slice_subrange(bytes, 0, FRAME_HEADER_LEN));
    assert(bytes@.subrange(0, 8).subrange(0, 4) =~= bytes@.subrange(0, 4));
    assert(bytes@.subrange(0, 8).subrange(4, 8) =~= bytes@.subrange(4, 8));
    let len = header.length as usize;
    if bytes.len() - FRAME_HEADER_LEN < len {
        return None;
    }
    let payload = slice_to_vec(slice_subrange(bytes, FRAME_HEADER_LEN, FRAME_HEADER_LEN + len));
    Some((header.opcode, payload))
}

/// A frame is read back as written, whatever follows it in the stream.
pub proof fn lemma_frame_round_trip(opcode: u32, payload: Seq<u8>, rest: Seq<u8>)
    requires
        payload.len() <= u32::MAX,
    ensures
        parse_frame_spec(frame_spec(opcode, payload) + rest) == Some((opcode, payload)),
{
    lemma_auto_spec_u32_to_from_le_bytes();
    let b = frame_spec(opcode, payload) + rest;
    let n = payload.len() as u32;
    assert(n as int == payload.len());
    assert(b.subrange(0, 4) =~= spec_u32_to_le_bytes(opcode));
    assert(b.subrange(4, 8) =~= spec_u32_to_le_bytes(n));
    assert(b.subrange(8, 8 + payload.len() as int) =~= payload);
}

/// A frame that is read is exactly the encoding of what it yields: the frame
/// format has one encoding per opcode and payload.
pub proof fn lemma_frame_parse_canonical(bytes: Seq<u8>)
    requires
        parse_frame_spec(bytes) is Some,
    ensures
        ({
            let (opcode, payload) = parse_frame_spec(bytes)->0;
            frame_spec(opcode, payload) == bytes.subrange(0, 8 + payload.len() as int)
        }),
{
    lemma_auto_spec_u32_to_from_le_bytes();
    let (opcode, payload) = parse_frame_spec(bytes)->0;
    let len = spec_u32_from_le_bytes(bytes.subrange(4, 8));
    assert(bytes.subrange(4, 8).len() == 4);
    assert(payload.len() == len);
    assert(payload.len() as u32 == len);
    assert(spec_u32_to_le_bytes(opcode) == bytes.subrange(0, 4));
    assert(spec_u32_to_le_bytes(len) == bytes.subrange(4, 8));
    assert(frame_spec(opcode, payload) =~= bytes.subrange(0, 8 + payload.len() as int));
}

/// The payload length announced by a frame encodes the real length.
pub proof fn lemma_frame_length(opcode: u32, payload: Seq<u8>)
    requires
        payload.len() <= u32::MAX,
    ensures
        frame_spec(opcode, payload).len() == FRAME_HEADER_LEN + payload.len(),
{
    lemma_auto_spec_u32_to_from_le_bytes();
}

// ---------------------------------------------------------------------------
// Handshake and pipe names
// ---------------------------------------------------------------------------

/// The bytes of the word `READY`.
pub open spec fn ready_marker() -> Seq<u8> {
    seq![82u8, 69u8, 65u8, 68u8, 89u8]
}

/// Discord accepted the handshake: the answer is a command frame whose
/// payload mentions `READY`.
pub open spec fn handshake_accepted_spec(opcode: u32, payload: Seq<u8>) -> bool {
    opcode == OPCODE_FRAME && contains_spec(payload, ready_marker())
}

/// Whether the answer to a handshake accepts the connection.
pub fn handshake_accepted(opcode: u32, payload: &[u8]) -> (r: bool)
    ensures
        r == handshake_accepted_spec(opcode, payload@),
        r ==> opcode == OPCODE_FRAME,
        r ==> exists|i: int|
            0 <= i && i + 5 <= payload@.len() && #[trigger] payload@.subrange(i, i + 5)
                == ready_marker(),
        forall|i: int|
            0 <= i && i + 5 <= payload@.len() && #[trigger] payload@.subrange(i, i + 5)
                == ready_marker() ==> (opcode == OPCODE_FRAME ==> r),
{
    let marker: Vec<u8> = vec![82u8, 69u8, 65u8, 68u8, 89u8];
    proof {
        let m = ready_marker();
        assert forall|i: int|
            0 <= i && i + 5 <= payload@.len() && #[trigger] payload@.subrange(i, i + 5)
                == ready_marker() implies contains_spec(payload@, m) by {
            assert(occurs_at(payload@, m, i));
        }
        if contains_spec(payload@, m) {
            let i = choose|i: int| #[trigger] occurs_at(payload@, m, i);
            assert(payload@.subrange(i, i + 5) == ready_marker());
        }
    }
    assert(marker@ =~= ready_marker());
    opcode == OPCODE_FRAME && contains_seq(payload, marker.as_slice())
}

/// Acceptance looks at the whole payload: an accepted answer stays accepted
/// whatever bytes stand before or after it.
pub proof fn lemma_handshake_ready_anywhere(prefix: Seq<u8>, payload: Seq<u8>, suffix: Seq<u8>)
    requires
        handshake_accepted_spec(OPCODE_FRAME, payload),
    ensures
        handshake_accepted_spec(OPCODE_FRAME, prefix + payload),
        handshake_accepted_spec(OPCODE_FRAME, payload + suffix),
        handshake_accepted_spec(OPCODE_FRAME, prefix + payload + suffix),
{
    let m = ready_marker();
    let i = choose|i: int| #[trigger] occurs_at(payload, m, i);
    let whole = prefix + payload + suffix;
    assert((prefix + payload).subrange(prefix.len() + i, prefix.len() + i + m.len()) =~= payload.subrange(i, i + m.len()));
    assert(occurs_at(prefix + payload, m, prefix.len() + i));
    assert((payload + suffix).subrange(i, i + m.len()) =~= payload.subrange(i, i + m.len()));
    assert(occurs_at(payload + suffix, m, i));
    assert(whole.subrange(prefix.len() + i, prefix.len() + i + m.len()) =~= payload.subrange(i, i + m.len()));
    assert(occurs_at(whole, m, prefix.len() + i));
}

/// The path of the IPC pipe with the given index.
pub fn pipe_name(index: u32) -> (r: String)
    requires
        index < IPC_PIPE_COUNT,
    ensures
        r@ == IPC_PIPE_PREFIX@.push((48 + index) as char),
{
    broadcast use vstd::string::group_string_axioms;

    let mut r = IPC_PIPE_PREFIX.to_string();
    let digit: char = (48u8 + index as u8) as char;
    assert(digit == (48 + index) as char);
    push_char(&mut r, digit);
    r
}

/// The pipe to try at a given connection attempt: the pipes are tried in
/// order from `discord-ipc-0`, and after the last one the connection gives up.
pub fn pipe_to_probe(attempt: u32) -> (r: Option<String>)
    ensures
        attempt < IPC_PIPE_COUNT ==> (r matches Some(name) && name@ == IPC_PIPE_PREFIX@.push(
            (48 + attempt) as char,
        )),
        attempt >= IPC_PIPE_COUNT ==> r is None,
{
    if attempt < IPC_PIPE_COUNT {
        Some(pipe_name(attempt))
    } else {
        None
    }
}

// ---------------------------------------------------------------------------
// Connection state
// ---------------------------------------------------------------------------

/// Failures reported by the IPC client.
#[derive(Debug, Clone, Copy, PartialEq, Eq)]
pub enum IpcError {
    /// No pipe accepted the handshake.
    Unreachable,
    /// Writing a command to the pipe failed.
    WriteFailed,
    /// No pipe is open.
    NotConnected,
}

/// Text of an IPC failure.
pub open spec fn ipc_error_text(e: IpcError) -> Seq<char> {
    match e {
        IpcError::Unreachable => "Discord is not running or the IPC pipe is unreachable."@,
        IpcError::WriteFailed => "Error writing to Discord pipe"@,
        IpcError::NotConnected => "Pipe not connected"@,
    }
}

impl IpcError {
    /// The message shown for this failure.
    pub fn message(&self) -> (r: String)
        ensures
            r@ == ipc_error_text(*self),
    {
        broadcast use vstd::string::group_string_axioms;

        match self {
            IpcError::Unreachable => "Discord is not running or the IPC pipe is unreachable.".to_string(),
            IpcError::WriteFailed => "Error writing to Discord pipe".to_string(),
            IpcError::NotConnected => "Pipe not connected".to_string(),
        }
    }
}

/// The state of the connection to Discord: the application it speaks for,
/// and whether a pipe is open and has accepted the handshake.
pub struct IpcSession {
    client_id: String,
    connected: bool,
}

impl IpcSession {
    /// Client ID the session speaks for.
    pub closed spec fn spec_client_id(&self) -> Seq<char> {
        self.client_id@
    }

    /// Whether a pipe is open and accepted the handshake.
    pub closed spec fn spec_connected(&self) -> bool {
        self.connected
    }

    /// A session for `client_id`, not yet connected.
    pub fn new(client_id: String) -> (r: Self)
        ensures
            r.spec_client_id() == client_id@,
            !r.spec_connected(),
    {
        IpcSession { client_id, connected: false }
    }

    /// Client ID the session speaks for.
    pub fn client_id(&self) -> (r: &str)
        ensures
            r@ == self.spec_client_id(),
    {
        self.client_id.as_str()
    }

    /// Whether a pipe is open and accepted the handshake.
    pub fn is_connected(&self) -> (r: bool)
        ensures
            r == self.spec_connected(),
    {
        self.connected
    }

    /// Records the answer to a handshake on a probed pipe; returns whether the
    /// pipe is now the connection.
    pub fn complete_handshake(&mut self, opcode: u32, response: &[u8]) -> (accepted: bool)
        ensures
            accepted == handshake_accepted_spec(opcode, response@),
            final(self).spec_connected() == (old(self).spec_connected() || accepted),
            final(self).spec_client_id() == old(self).spec_client_id(),
    {
        let accepted = handshake_accepted(opcode, response);
        if accepted {
            self.connected = true;
        }
        accepted
    }

    /// Outcome of writing a `SET_ACTIVITY` command: a failed write is an
    /// error and drops the connection.
    pub fn finish_set_activity(&mut self, written: bool) -> (r: Result<(), IpcError>)
        ensures
            written ==> r is Ok && final(self).spec_connected() == old(self).spec_connected(),
            !written ==> r == Err::<(), IpcError>(IpcError::WriteFailed),
            !written ==> !final(self).spec_connected(),
            final(self).spec_client_id() == old(self).spec_client_id(),
    {
        if written {
            Ok(())
        } else {
            self.connected = false;
            Err(IpcError::WriteFailed)
        }
    }

    /// Outcome of writing a clearing command: clearing never fails and never
    /// drops the connection.
    pub fn finish_clear_activity(&mut self, written: bool) -> (r: Result<(), IpcError>)
        ensures
            r is Ok,
            final(self).spec_connected() == old(self).spec_connected(),
            final(self).spec_client_id() == old(self).spec_client_id(),
    {
        Ok(())
    }

    /// Drops the connection, as after a failed write.
    pub fn disconnect(&mut self)
        ensures
            !final(self).spec_connected(),
            final(self).spec_client_id() == old(self).spec_client_id(),
    {
        self.connected = false;
    }

    /// Whether the session must change application to speak for `client_id`.
    pub fn needs_client_switch(&self, client_id: &str) -> (r: bool)
        ensures
            r == (self.spec_client_id() != client_id@),
    {
        !same_text(self.client_id.as_str(), client_id)
    }

    /// Speaks for another application: the connection is dropped, to be made
    /// again with the new client ID.
    pub fn switch_client(&mut self, client_id: &str)
        ensures
            final(self).spec_client_id() == client_id@,
            !final(self).spec_connected(),
    {
        broadcast use vstd::string::group_string_axioms;

        self.client_id = client_id.to_string();
        self.connected = false;
    }
}

} // verus!
