//! The master (controlling station) side: configuration, connection state
//! transitions, command frames, and what the master makes of received bytes.
use crate::bytes;
use crate::clock;
use crate::data_point;
use crate::data_point::{DataPoint, DataPointMap, DataPointValue};
use crate::frame;
use crate::frame::UFrameKind;
use crate::text;
use crate::types;
use crate::types::AsduTypeId;
use vstd::prelude::*;

verus! {

/// TLS configuration for a master connection.
#[derive(Debug, Clone)]
pub struct TlsConfig {
    /// Enable TLS
    pub enabled: bool,
    /// Path to CA certificate file (PEM format) for server verification
    pub ca_file: String,
    /// Path to client certificate file (PEM format) for mutual TLS
    pub cert_file: String,
    /// Path to client private key file (PEM format)
    pub key_file: String,
    /// Accept invalid/self-signed certificates (for testing)
    pub accept_invalid_certs: bool,
}

impl Default for TlsConfig {
    fn default() -> (r: Self)
        ensures
            !r.enabled,
            r.ca_file@.len() == 0,
            r.cert_file@.len() == 0,
            r.key_file@.len() == 0,
            !r.accept_invalid_certs,
    {
        TlsConfig {
            enabled: false,
            ca_file: String::new(),
            cert_file: String::new(),
            key_file: String::new(),
            accept_invalid_certs: false,
        }
    }
}

/// Running state of a master connection.
#[derive(Debug, Clone, Copy, PartialEq, Eq, Structural)]
pub enum MasterState {
    Disconnected,
    Connecting,
    Connected,
    Error,
}

/// Configuration for a master connection.
#[derive(Debug, Clone)]
pub struct MasterConfig {
    pub target_address: String,
    pub port: u16,
    pub common_address: u16,
    pub timeout_ms: u64,
    /// TLS configuration (optional)
    pub tls: TlsConfig,
}

impl Default for MasterConfig {
    fn default() -> (r: Self)
        ensures
            r.target_address@ == "127.0.0.1"@,
            r.port == 2404,
            r.common_address == 1,
            r.timeout_ms == 3000,
            !r.tls.enabled,
            r.tls.ca_file@.len() == 0,
            r.tls.cert_file@.len() == 0,
            r.tls.key_file@.len() == 0,
            !r.tls.accept_invalid_certs,
    {
        MasterConfig {
            target_address: "127.0.0.1".to_string(),
            port: 2404,
            common_address: 1,
            timeout_ms: 3000,
            tls: TlsConfig::default(),
        }
    }
}

/// Errors of a master connection.
#[derive(Debug)]
pub enum MasterError {
    /// already connected
    AlreadyConnected,
    /// not connected
    NotConnected,
    /// connection error
    ConnectionError(String),
    /// TLS error
    TlsError(String),
    /// send error
    SendError(String),
}

// --- Command frame builders ---

/// The APCI and ASDU header of a command with zero sequence numbers, one
/// object and cause 6 (activation), followed by the common address.
pub open spec fn command_head(len: u8, asdu_type: u8, ca: u16) -> Seq<u8> {
    seq![0x68, len, 0x00, 0x00, 0x00, 0x00, asdu_type, 0x01, 6, 0x00] + bytes::le16(ca)
}

/// General interrogation (C_IC_NA_1, qualifier 20: station interrogation).
pub open spec fn gi_command(ca: u16) -> Seq<u8> {
    command_head(0x0E, 100, ca) + seq![0x00, 0x00, 0x00, 0x14]
}

/// Counter interrogation (C_CI_NA_1, qualifier 5: general request).
pub open spec fn counter_read_command(ca: u16) -> Seq<u8> {
    command_head(0x0E, 101, ca) + seq![0x00, 0x00, 0x00, 0x05]
}

/// The select bit of a command qualifier.
pub open spec fn select_bit(select: bool) -> int {
    if select {
        0x80
    } else {
        0
    }
}

/// Single command (C_SC_NA_1) to `ioa`.
pub open spec fn single_command(ca: u16, ioa: u32, value: bool, select: bool) -> Seq<u8> {
    command_head(0x0E, 45, ca) + bytes::le24(ioa) + seq![
        ((if value {
            1int
        } else {
            0
        }) + select_bit(select)) as u8,
    ]
}

/// Double command (C_DC_NA_1) to `ioa`; only the low two bits of `value` are sent.
pub open spec fn double_command(ca: u16, ioa: u32, value: u8, select: bool) -> Seq<u8> {
    command_head(0x0E, 46, ca) + bytes::le24(ioa) + seq![((value % 4) + select_bit(select)) as u8]
}

/// Set-point command, short float (C_SE_NC_1) to `ioa`, the value given
/// by its IEEE-754 bits, qualifier 0.
pub open spec fn setpoint_float_command(ca: u16, ioa: u32, value_bits: u32) -> Seq<u8> {
    command_head(0x12, 50, ca) + bytes::le24(ioa) + bytes::le32(value_bits) + seq![0x00]
}

/// Builds a command frame from its head and tail.
fn command_frame(len: u8, asdu_type: u8, ca: u16, tail: &[u8]) -> (r: Vec<u8>)
    ensures
        r@ == command_head(len, asdu_type, ca) + tail@,
{
    let c = bytes::u16_le(ca);
    let mut v = vec![0x68u8, len, 0x00, 0x00, 0x00, 0x00, asdu_type, 0x01, 6, 0x00, c[0], c[1]];
    assert(v@ =~= command_head(len, asdu_type, ca));
    bytes::push_all(&mut v, tail);
    v
}

/// Builds the general interrogation command for station `ca`.
pub fn build_gi_command(ca: u16) -> (r: Vec<u8>)
    ensures
        r@ == gi_command(ca),
{
    let tail = [0x00u8, 0x00, 0x00, 0x14];
    let r = command_frame(0x0E, 100, ca, &tail);
    assert(r@ =~= gi_command(ca));
    r
}

/// Builds the counter interrogation command for station `ca`.
pub fn build_counter_read_command(ca: u16) -> (r: Vec<u8>)
    ensures
        r@ == counter_read_command(ca),
{
    let tail = [0x00u8, 0x00, 0x00, 0x05];
    let r = command_frame(0x0E, 101, ca, &tail);
    assert(r@ =~= counter_read_command(ca));
    r
}

/// Builds a single command.
pub fn build_single_command(ca: u16, ioa: u32, value: bool, select: bool) -> (r: Vec<u8>)
    ensures
        r@ == single_command(ca, ioa, value, select),
{
    let a = bytes::u32_le(ioa);
    let mut sco: u8 = if value {
        0x01
    } else {
        0x00
    };
    if select {
        assert(sco | 0x80 == sco + 0x80) by (bit_vector)
            requires
                sco < 2,
        ;
        sco = sco | 0x80;
    }
    let tail = [a[0], a[1], a[2], sco];
    let r = command_frame(0x0E, 45, ca, &tail);
    assert(r@ =~= single_command(ca, ioa, value, select));
    r
}

/// Builds a double command.
pub fn build_double_command(ca: u16, ioa: u32, value: u8, select: bool) -> (r: Vec<u8>)
    ensures
        r@ == double_command(ca, ioa, value, select),
{
    let a = bytes::u32_le(ioa);
    let mut dco: u8 = value & 0x03;
    assert(value & 0x03 == value % 4) by (bit_vector);
    if select {
        assert(dco | 0x80 == dco + 0x80) by (bit_vector)
            requires
                dco < 4,
        ;
        dco = dco | 0x80;
    }
    let tail = [a[0], a[1], a[2], dco];
    let r = command_frame(0x0E, 46, ca, &tail);
    assert(r@ =~= double_command(ca, ioa, value, select));
    r
}

/// Builds a set-point (short float) command; the value is given by its
/// IEEE-754 bit pattern (`f32::to_bits`).
pub fn build_setpoint_float_command(ca: u16, ioa: u32, value_bits: u32) -> (r: Vec<u8>)
    ensures
        r@ == setpoint_float_command(ca, ioa, value_bits),
{
    let a = bytes::u32_le(ioa);
    let b = bytes::u32_le(value_bits);
    let tail = [a[0], a[1], a[2], b[0], b[1], b[2], b[3], 0x00];
    let r = command_frame(0x12, 50, ca, &tail);
    assert(r@ =~= setpoint_float_command(ca, ioa, value_bits));
    r
}

/// The two-digit year the clock synchronization carries: the year modulo
/// 100, or 24 when the year is negative or above 65535.
pub open spec fn year_byte(year: i32) -> u8 {
    if 0 <= year <= 65535 {
        (year % 100) as u8
    } else {
        24
    }
}

/// Clock synchronization command (C_CS_NA_1) for station `ca` carrying the
/// time `t` as CP56Time2a without weekday: milliseconds within the minute,
/// minute, hour, day, month, year.
pub open spec fn clock_sync_command(ca: u16, t: clock::UtcNow) -> Seq<u8> {
    command_head(0x14, 103, ca) + seq![0x00, 0x00, 0x00] + bytes::le16(
        (t.subsec_millis + 1000 * t.second) as u16,
    ) + seq![t.minute as u8, t.hour as u8, t.day as u8, t.month as u8, year_byte(t.year)]
}

/// Builds the clock synchronization command for station `ca` and time `t`.
pub fn clock_sync_frame(ca: u16, t: &clock::UtcNow) -> (r: Vec<u8>)
    requires
        t.subsec_millis < 1000,
        t.second < 60,
        t.minute < 60,
        t.hour < 24,
        t.day <= 31,
        t.month <= 12,
    ensures
        r@ == clock_sync_command(ca, *t),
{
    let ms: u16 = t.subsec_millis as u16 + (t.second as u16) * 1000;
    let m = bytes::u16_le(ms);
    let year: u8 = if 0 <= t.year && t.year <= 65535 {
        (t.year % 100) as u8
    } else {
        24
    };
    let tail = [
        0x00u8,
        0x00,
        0x00,
        m[0],
        m[1],
        t.minute as u8,
        t.hour as u8,
        t.day as u8,
        t.month as u8,
        year,
    ];
    let r = command_frame(0x14, 103, ca, &tail);
    assert(r@ =~= clock_sync_command(ca, *t));
    r
}

/// Builds the clock synchronization command for station `ca` with the
/// current UTC time. Returns the frame and the time it carries, whose
/// fields all describe the one instant read, or `None` when the system
/// clock gives no reading (it is set before 1970).
pub fn build_clock_sync_command(ca: u16) -> (r: Option<(Vec<u8>, clock::UtcNow)>)
    ensures
        r matches Some((f, t)) ==> f@ == clock_sync_command(ca, t) && clock::describes_instant(t),
{
    match clock::utc_now() {
        Some(now) => {
            let f = clock_sync_frame(ca, &now);
            Some((f, now))
        },
        None => None,
    }
}

// --- Connection state transitions ---

/// Events in the life of a master connection.
#[derive(Debug, Clone, Copy, PartialEq, Eq, Structural)]
pub enum LinkEvent {
    /// the user asks to connect
    Connect,
    /// the TCP connection could not be opened
    TcpConnectFailed,
    /// the transport (TCP, and TLS where enabled) is up: STARTDT ACT is to
    /// be sent, and once it is written the link is connected
    Established,
    /// the peer closed the connection (end of stream)
    PeerClosed,
    /// the user asks to disconnect
    Disconnect,
}

/// The refusal an event meets in a state, if any: connecting while
/// connected, or disconnecting while disconnected.
pub open spec fn link_refusal(s: MasterState, e: LinkEvent) -> Option<MasterError> {
    match e {
        LinkEvent::Connect => if s == MasterState::Connected {
            Some(MasterError::AlreadyConnected)
        } else {
            None
        },
        LinkEvent::Disconnect => if s == MasterState::Disconnected {
            Some(MasterError::NotConnected)
        } else {
            None
        },
        _ => None,
    }
}

/// The state after an accepted event.
pub open spec fn link_next(e: LinkEvent) -> MasterState {
    match e {
        LinkEvent::Connect => MasterState::Connecting,
        LinkEvent::TcpConnectFailed => MasterState::Error,
        LinkEvent::Established => MasterState::Connected,
        LinkEvent::PeerClosed => MasterState::Disconnected,
        LinkEvent::Disconnect => MasterState::Disconnected,
    }
}

/// The six-byte U-frame of kind `k`.
pub open spec fn u_frame(k: UFrameKind) -> Seq<u8> {
    seq![0x68u8, 0x04, frame::u_kind_code(k), 0x00, 0x00, 0x00]
}

/// The frame the master sends on an accepted event, if any: STARTDT ACT
/// when the transport is up, STOPDT ACT on a disconnect request.
pub open spec fn link_action(e: LinkEvent) -> Option<Seq<u8>> {
    match e {
        LinkEvent::Established => Some(u_frame(UFrameKind::StartDtAct)),
        LinkEvent::Disconnect => Some(u_frame(UFrameKind::StopDtAct)),
        _ => None,
    }
}

/// The bytes of an optional frame.
pub open spec fn frame_bytes(a: Option<Vec<u8>>) -> Option<Seq<u8>> {
    match a {
        Some(f) => Some(f@),
        None => None,
    }
}

impl MasterState {
    /// The next state on event `e` with the frame to send first, or the error
    /// with which the request is refused (the state then stays as it was and
    /// nothing is sent).
    pub fn on_event(self, e: LinkEvent) -> (r: Result<(MasterState, Option<Vec<u8>>), MasterError>)
        ensures
            match link_refusal(self, e) {
                Some(err) => r matches Err(x) && x == err,
                None => r matches Ok((next, send)) && next == link_next(e) && frame_bytes(send)
                    == link_action(e),
            },
    {
        match e {
            LinkEvent::Connect => {
                if self == MasterState::Connected {
                    Err(MasterError::AlreadyConnected)
                } else {
                    Ok((MasterState::Connecting, None))
                }
            },
            LinkEvent::TcpConnectFailed => Ok((MasterState::Error, None)),
            LinkEvent::Established => {
                let f = vec![0x68u8, 0x04, 0x07, 0x00, 0x00, 0x00];
                assert(f@ =~= u_frame(UFrameKind::StartDtAct));
                Ok((MasterState::Connected, Some(f)))
            },
            LinkEvent::PeerClosed => Ok((MasterState::Disconnected, None)),
            LinkEvent::Disconnect => {
                if self == MasterState::Disconnected {
                    Err(MasterError::NotConnected)
                } else {
                    let f = vec![0x68u8, 0x04, 0x13, 0x00, 0x00, 0x00];
                    assert(f@ =~= u_frame(UFrameKind::StopDtAct));
                    Ok((MasterState::Disconnected, Some(f)))
                }
            },
        }
    }
}

/// After the peer closes the connection, connecting again is accepted,
/// whatever state the connection was in, and a connection that is then
/// established is connected after sending STARTDT ACT.
pub proof fn lemma_reconnect_after_peer_close(s: MasterState)
    ensures
        link_refusal(s, LinkEvent::PeerClosed) is None,
        link_next(LinkEvent::PeerClosed) == MasterState::Disconnected,
        link_refusal(MasterState::Disconnected, LinkEvent::Connect) is None,
        link_next(LinkEvent::Connect) == MasterState::Connecting,
        link_refusal(MasterState::Connecting, LinkEvent::Established) is None,
        link_next(LinkEvent::Established) == MasterState::Connected,
        link_action(LinkEvent::Established) == Some(seq![0x68u8, 0x04, 0x07, 0x00, 0x00, 0x00]),
{
    assert(u_frame(UFrameKind::StartDtAct) =~= seq![0x68u8, 0x04, 0x07, 0x00, 0x00, 0x00]);
}

/// A connect request is refused exactly when connected, a disconnect
/// request exactly when disconnected.
pub proof fn lemma_link_refusals(s: MasterState)
    ensures
        link_refusal(s, LinkEvent::Connect) is Some <==> s == MasterState::Connected,
        link_refusal(s, LinkEvent::Disconnect) is Some <==> s == MasterState::Disconnected,
{
}

// --- Received bytes ---

/// The frames found in a block of received bytes, as (start, length): from
/// each start byte 0x68 whose length byte follows, a frame of that length
/// plus two, when it fits; other bytes are skipped; the search stops at the
/// first frame that does not fit.
pub open spec fn frame_ranges(d: Seq<u8>, off: int) -> Seq<(int, int)>
    decreases d.len() - off,
{
    if off < 0 || off >= d.len() {
        Seq::empty()
    } else if d[off] != 0x68 || off + 1 >= d.len() {
        frame_ranges(d, off + 1)
    } else {
        let len = d[off + 1] + 2;
        if off + len > d.len() {
            Seq::empty()
        } else {
            seq![(off, len)] + frame_ranges(d, off + len)
        }
    }
}

/// Every frame found in a block lies inside it, after the search start,
/// begins with the start byte 0x68 and is as long as its length byte says
/// (plus the two header bytes); the frames follow each other without overlap.
pub proof fn lemma_frame_ranges_sound(d: Seq<u8>, off: int)
    ensures
        forall|k: int|
            0 <= k < frame_ranges(d, off).len() ==> {
                let (s, l) = #[trigger] frame_ranges(d, off)[k];
                &&& 0 <= off <= s
                &&& s + l <= d.len()
                &&& d[s] == 0x68
                &&& l == d[s + 1] + 2
            },
        forall|k: int|
            0 <= k < frame_ranges(d, off).len() - 1 ==> #[trigger] frame_ranges(d, off)[k].0
                + frame_ranges(d, off)[k].1 <= frame_ranges(d, off)[k + 1].0,
    decreases d.len() - off,
{
    if off < 0 || off >= d.len() {
    } else if d[off] != 0x68 || off + 1 >= d.len() {
        lemma_frame_ranges_sound(d, off + 1);
        assert(frame_ranges(d, off) == frame_ranges(d, off + 1));
    } else {
        let len = d[off + 1] + 2;
        if off + len > d.len() {
            assert(frame_ranges(d, off).len() == 0);
        } else {
            lemma_frame_ranges_sound(d, off + len);
            let rest = frame_ranges(d, off + len);
            let all = frame_ranges(d, off);
            assert(all == seq![(off, len)] + rest);
            assert forall|k: int| 0 <= k < all.len() implies {
                let (s, l) = #[trigger] all[k];
                &&& 0 <= off <= s
                &&& s + l <= d.len()
                &&& d[s] == 0x68
                &&& l == d[s + 1] + 2
            } by {
                if k > 0 {
                    assert(all[k] == rest[k - 1]);
                }
            }
            assert forall|k: int| 0 <= k < all.len() - 1 implies #[trigger] all[k].0 + all[k].1
                <= all[k + 1].0 by {
                assert(all[k + 1] == rest[k]);
                if k > 0 {
                    assert(all[k] == rest[k - 1]);
                }
            }
        }
    }
}

/// Whether `f` is one complete frame: start byte 0x68, then a length byte
/// that counts the bytes after it.
pub open spec fn complete_frame(f: Seq<u8>) -> bool {
    f.len() >= 2 && f[0] == 0x68 && f[1] + 2 == f.len()
}

/// Frames written one after another.
pub open spec fn concat_frames(fs: Seq<Seq<u8>>) -> Seq<u8>
    decreases fs.len(),
{
    if fs.len() == 0 {
        Seq::empty()
    } else {
        fs[0] + concat_frames(fs.drop_first())
    }
}

/// Where each of the frames `fs` lies when they are written one after
/// another from offset `off`: (start, length) pairs.
pub open spec fn frame_layout(fs: Seq<Seq<u8>>, off: int) -> Seq<(int, int)>
    decreases fs.len(),
{
    if fs.len() == 0 {
        Seq::empty()
    } else {
        seq![(off, fs[0].len() as int)] + frame_layout(fs.drop_first(), off + fs[0].len())
    }
}

/// No frame is lost when frames arrive back to back: a block made of
/// complete frames written one after another is split into exactly those
/// frames, each at the place where it was written.
pub proof fn lemma_frame_ranges_complete(fs: Seq<Seq<u8>>)
    requires
        forall|i: int| 0 <= i < fs.len() ==> complete_frame(#[trigger] fs[i]),
    ensures
        frame_ranges(concat_frames(fs), 0) == frame_layout(fs, 0),
{
    let d = concat_frames(fs);
    assert(d.subrange(0, d.len() as int) =~= d);
    lemma_frame_ranges_from(d, 0, fs);
}

proof fn lemma_frame_ranges_from(d: Seq<u8>, off: int, fs: Seq<Seq<u8>>)
    requires
        0 <= off <= d.len(),
        d.subrange(off, d.len() as int) == concat_frames(fs),
        forall|i: int| 0 <= i < fs.len() ==> complete_frame(#[trigger] fs[i]),
    ensures
        frame_ranges(d, off) == frame_layout(fs, off),
    decreases fs.len(),
{
    if fs.len() == 0 {
        assert(d.subrange(off, d.len() as int).len() == 0);
    } else {
        let f = fs[0];
        let rest = fs.drop_first();
        assert(complete_frame(f));
        let tail = d.subrange(off, d.len() as int);
        assert(tail == f + concat_frames(rest));
        assert(tail[0] == f[0] && tail[1] == f[1]);
        assert(d[off] == f[0] && d[off + 1] == f[1]);
        let len = d[off + 1] + 2;
        assert(len == f.len());
        assert(d.subrange(off + len, d.len() as int) =~= concat_frames(rest)) by {
            assert forall|k: int| 0 <= k < d.len() - (off + len) implies d.subrange(
                off + len,
                d.len() as int,
            )[k] == concat_frames(rest)[k] by {
                assert(tail[len + k] == (f + concat_frames(rest))[len + k]);
            }
        }
        assert forall|i: int| 0 <= i < rest.len() implies complete_frame(#[trigger] rest[i]) by {
            assert(rest[i] == fs[i + 1]);
        }
        lemma_frame_ranges_from(d, off + len, rest);
    }
}

/// The (start, length) of each complete frame in a received block.
pub fn split_frames(data: &[u8]) -> (r: Vec<(usize, usize)>)
    ensures
        r@.map_values(|p: (usize, usize)| (p.0 as int, p.1 as int)) == frame_ranges(data@, 0),
{
    let n = data.len();
    let mut out: Vec<(usize, usize)> = Vec::new();
    let mut offset: usize = 0;
    while offset < n
        invariant
            n == data@.len(),
            offset <= n,
            frame_ranges(data@, 0) == out@.map_values(|p: (usize, usize)| (p.0 as int, p.1 as int))
                + frame_ranges(data@, offset as int),
        decreases n - offset,
    {
        let ghost prev = out@.map_values(|p: (usize, usize)| (p.0 as int, p.1 as int));
        if data[offset] != 0x68 || offset + 1 >= n {
            offset = offset + 1;
            continue;
        }
        let frame_len = data[offset + 1] as usize + 2;
        if frame_len > n - offset {
            assert(frame_ranges(data@, offset as int) =~= Seq::<(int, int)>::empty());
            assert(prev + Seq::<(int, int)>::empty() =~= prev);
            return out;
        }
        out.push((offset, frame_len));
        proof {
            assert(out@.map_values(|p: (usize, usize)| (p.0 as int, p.1 as int)) =~= prev.push(
                (offset as int, frame_len as int),
            ));
            assert(prev + frame_ranges(data@, offset as int) =~= prev.push(
                (offset as int, frame_len as int),
            ) + frame_ranges(data@, offset + frame_len));
        }
        offset = offset + frame_len;
    }
    assert(frame_ranges(data@, offset as int) =~= Seq::<(int, int)>::empty());
    assert(out@.map_values(|p: (usize, usize)| (p.0 as int, p.1 as int)) + Seq::<(int, int)>::empty()
        =~= out@.map_values(|p: (usize, usize)| (p.0 as int, p.1 as int)));
    out
}

/// The value of the information element at `o` for ASDU type `t`, and the
/// bytes it occupies (with the seven-byte time tag of the time-tagged types),
/// or `None` when it does not fit or the type is not a monitored one.
pub open spec fn asdu_element(d: Seq<u8>, t: u8, o: int) -> Option<(DataPointValue, int)> {
    if t == 1 || t == 30 {
        if o >= d.len() {
            None
        } else {
            Some((DataPointValue::SinglePoint { value: d[o] % 2 == 1 }, if t == 30 { 8 } else { 1 }))
        }
    } else if t == 3 || t == 31 {
        if o >= d.len() {
            None
        } else {
            Some((DataPointValue::DoublePoint { value: (d[o] % 4) as u8 }, if t == 31 { 8 } else { 1 }))
        }
    } else if t == 9 || t == 34 {
        if o + 2 >= d.len() {
            None
        } else {
            Some((DataPointValue::Normalized { raw: bytes::i16_of(d[o], d[o + 1]) }, if t == 34 { 10 } else { 3 }))
        }
    } else if t == 11 || t == 35 {
        if o + 2 >= d.len() {
            None
        } else {
            Some((DataPointValue::Scaled { value: bytes::i16_of(d[o], d[o + 1]) }, if t == 35 { 10 } else { 3 }))
        }
    } else if t == 13 || t == 36 {
        if o + 4 >= d.len() {
            None
        } else {
            Some((DataPointValue::ShortFloat { bits: bytes::u32_of(d[o], d[o + 1], d[o + 2], d[o + 3]) }, if t == 36 { 12 } else { 5 }))
        }
    } else if t == 15 || t == 37 {
        if o + 4 >= d.len() {
            None
        } else {
            Some(
                (
                    DataPointValue::IntegratedTotal {
                        value: bytes::i32_of(d[o], d[o + 1], d[o + 2], d[o + 3]),
                        carry: (d[o + 4] / 32) % 2 == 1,
                        sequence: (d[o + 4] % 32) as u8,
                    },
                    if t == 37 { 12 } else { 5 },
                ),
            )
        }
    } else {
        None
    }
}

/// The (IOA, value) pairs of at most `n` information objects of type `t`,
/// read from offset `off` on; reading stops at the first object that does
/// not fit.
pub open spec fn asdu_objects(d: Seq<u8>, t: u8, n: nat, off: int) -> Seq<(u32, DataPointValue)>
    decreases n,
{
    if n == 0 || off + 3 > d.len() {
        Seq::empty()
    } else {
        let ioa = (d[off] + 256 * d[off + 1] + 65536 * d[off + 2]) as u32;
        match asdu_element(d, t, off + 3) {
            None => Seq::empty(),
            Some((v, used)) => seq![(ioa, v)] + asdu_objects(d, t, (n - 1) as nat, off + 3 + used),
        }
    }
}

/// The objects of the ASDU of I-frame `d` (which holds at least 12 bytes):
/// type in byte 6, count in the low seven bits of byte 7, objects from byte 12.
pub open spec fn frame_objects(d: Seq<u8>) -> Seq<(u32, DataPointValue)> {
    asdu_objects(d, d[6], (d[7] % 128) as nat, 12)
}

/// The point a master stores for a received object.
pub open spec fn received_point(t: u8, ioa: u32, v: DataPointValue, now: i64) -> DataPoint {
    DataPoint {
        ioa,
        asdu_type: match types::asdu_of(t) {
            Some(a) => a,
            None => AsduTypeId::MSpNa1,
        },
        value: v,
        quality: data_point::good_quality(),
        timestamp: Some(now),
    }
}

/// `m` with the objects stored in order (a later object replaces an earlier
/// one with the same address).
pub open spec fn store_objects(m: Map<u32, DataPoint>, t: u8, objs: Seq<(u32, DataPointValue)>, now: i64) -> Map<u32, DataPoint>
    decreases objs.len(),
{
    if objs.len() == 0 {
        m
    } else {
        store_objects(m, t, objs.drop_last(), now).insert(
            objs.last().0,
            received_point(t, objs.last().0, objs.last().1, now),
        )
    }
}

fn read_element(data: &[u8], t: u8, o: usize) -> (r: Option<(DataPointValue, usize)>)
    ensures
        match r {
            Some((v, used)) => asdu_element(data@, t, o as int) == Some((v, used as int)) && o
                < data.len() && used <= 12,
            None => asdu_element(data@, t, o as int) is None,
        },
{
    let n = data.len();
    if t == 1 || t == 30 {
        if o >= n {
            return None;
        }
        let siq = data[o];
        assert(siq & 0x01 == siq % 2) by (bit_vector);
        Some((DataPointValue::SinglePoint { value: siq & 0x01 != 0 }, if t == 30 { 8 } else { 1 }))
    } else if t == 3 || t == 31 {
        if o >= n {
            return None;
        }
        let diq = data[o];
        assert(diq & 0x03 == diq % 4) by (bit_vector);
        Some((DataPointValue::DoublePoint { value: diq & 0x03 }, if t == 31 { 8 } else { 1 }))
    } else if t == 9 || t == 34 || t == 11 || t == 35 {
        if o >= n || n - o <= 2 {
            return None;
        }
        let v = bytes::i16_from(data[o], data[o + 1]);
        if t == 9 || t == 34 {
            Some((DataPointValue::Normalized { raw: v }, if t == 34 { 10 } else { 3 }))
        } else {
            Some((DataPointValue::Scaled { value: v }, if t == 35 { 10 } else { 3 }))
        }
    } else if t == 13 || t == 36 || t == 15 || t == 37 {
        if o >= n || n - o <= 4 {
            return None;
        }
        if t == 13 || t == 36 {
            let bits = bytes::u32_from(data[o], data[o + 1], data[o + 2], data[o + 3]);
            Some((DataPointValue::ShortFloat { bits }, if t == 36 { 12 } else { 5 }))
        } else {
            let value = bytes::i32_from(data[o], data[o + 1], data[o + 2], data[o + 3]);
            let bcr = data[o + 4];
            assert(bcr & 0x20 != 0 <==> (bcr / 32) % 2 == 1) by (bit_vector);
            assert(bcr & 0x1F == bcr % 32) by (bit_vector);
            Some(
                (
                    DataPointValue::IntegratedTotal {
                        value,
                        carry: bcr & 0x20 != 0,
                        sequence: bcr & 0x1F,
                    },
                    if t == 37 { 12 } else { 5 },
                ),
            )
        }
    } else {
        None
    }
}

/// Reads the information objects of the ASDU of an I-frame.
pub fn read_asdu_objects(data: &[u8]) -> (r: Vec<(u32, DataPointValue)>)
    requires
        12 <= data.len() <= usize::MAX - 16,
    ensures
        r@ == frame_objects(data@),
{
    let t = data[6];
    let num_objects = data[7] & 0x7F;
    let d7 = data[7];
    assert(d7 & 0x7F == d7 % 128) by (bit_vector);
    let n = data.len();
    let mut out: Vec<(u32, DataPointValue)> = Vec::new();
    let mut obj_offset: usize = 12;
    let mut k: u8 = 0;
    assert(out@ + asdu_objects(data@, t, num_objects as nat, 12) =~= asdu_objects(data@, t, num_objects as nat, 12));
    while k < num_objects
        invariant
            n == data@.len(),
            n <= usize::MAX - 16,
            t == data@[6],
            num_objects == data@[7] % 128,
            k <= num_objects,
            obj_offset <= n + 12,
            frame_objects(data@) == out@ + asdu_objects(data@, t, (num_objects - k) as nat, obj_offset as int),
        decreases num_objects - k,
    {
        if obj_offset > n || n - obj_offset < 3 {
            assert(asdu_objects(data@, t, (num_objects - k) as nat, obj_offset as int) =~= Seq::<(u32, DataPointValue)>::empty());
            assert(out@ + Seq::<(u32, DataPointValue)>::empty() =~= out@);
            return out;
        }
        let ioa = bytes::u32_from(data[obj_offset], data[obj_offset + 1], data[obj_offset + 2], 0);
        let o = obj_offset + 3;
        match read_element(data, t, o) {
            None => {
                assert(asdu_objects(data@, t, (num_objects - k) as nat, obj_offset as int) =~= Seq::<(u32, DataPointValue)>::empty());
                assert(out@ + Seq::<(u32, DataPointValue)>::empty() =~= out@);
                return out;
            },
            Some((value, used)) => {
                let ghost prev = out@;
                out.push((ioa, value));
                assert(prev + asdu_objects(data@, t, (num_objects - k) as nat, obj_offset as int) =~= out@ + asdu_objects(data@, t, (num_objects - k - 1) as nat, (o + used) as int));
                obj_offset = o + used;
            },
        }
        k = k + 1;
    }
    assert(asdu_objects(data@, t, 0, obj_offset as int) =~= Seq::<(u32, DataPointValue)>::empty());
    assert(out@ + Seq::<(u32, DataPointValue)>::empty() =~= out@);
    out
}

/// What a master records in its log about a received frame.
pub struct FrameLog {
    /// the frame label shown in the log list
    pub label: String,
    /// the detail line
    pub detail: String,
}

/// The log detail of a received ASDU: type, common address, object count
/// and cause of transmission.
pub open spec fn asdu_log_detail(d: Seq<u8>) -> Seq<char> {
    frame::type_label(d[6]) + " CA="@ + text::dec_str((d[10] + 256 * d[11]) as nat) + " n="@
        + text::dec_str((d[7] % 128) as nat) + " COT="@ + text::dec_str(d[8] as nat)
}

/// Stores `objs` in `m` in order.
fn store_all(m: &mut DataPointMap, t: u8, objs: &Vec<(u32, DataPointValue)>, now: i64)
    ensures
        final(m)@ == store_objects(old(m)@, t, objs@, now),
{
    let asdu_id = match AsduTypeId::from_u8(t) {
        Some(a) => a,
        None => AsduTypeId::MSpNa1,
    };
    let mut i: usize = 0;
    while i < objs.len()
        invariant
            i <= objs@.len(),
            asdu_id == match types::asdu_of(t) {
                Some(a) => a,
                None => AsduTypeId::MSpNa1,
            },
            m@ == store_objects(old(m)@, t, objs@.subrange(0, i as int), now),
        decreases objs@.len() - i,
    {
        let (ioa, value) = objs[i];
        let mut point = DataPoint::with_value(ioa, asdu_id, value);
        point.timestamp = Some(now);
        m.insert(point);
        proof {
            let sub = objs@.subrange(0, i + 1);
            assert(sub.drop_last() =~= objs@.subrange(0, i as int));
            assert(sub.last() == objs@[i as int]);
        }
        i = i + 1;
    }
    assert(objs@.subrange(0, objs@.len() as int) =~= objs@);
}

/// Parse ASDU from an I-frame and store its data points, stamped `now`
/// (Unix milliseconds). Returns what to log.
pub fn parse_and_store_asdu(data: &[u8], received: &mut DataPointMap, now: i64) -> (r: FrameLog)
    requires
        12 <= data.len() <= usize::MAX - 16,
    ensures
        final(received)@ == store_objects(old(received)@, data@[6], frame_objects(data@), now),
        r.label@ == frame::type_label(data@[6]),
        r.detail@ == asdu_log_detail(data@),
{
    let asdu_type = data[6];
    let d7 = data[7];
    let num_objects = d7 & 0x7F;
    assert(d7 & 0x7F == d7 % 128) by (bit_vector);
    let cause = data[8];
    let ca = bytes::u16_from(data[10], data[11]);
    let mut label = String::new();
    frame::append_type_label(&mut label, asdu_type);
    let mut detail = String::new();
    frame::append_type_label(&mut detail, asdu_type);
    detail.append(" CA=");
    text::push_dec(&mut detail, ca as u64);
    detail.append(" n=");
    text::push_dec(&mut detail, num_objects as u64);
    detail.append(" COT=");
    text::push_dec(&mut detail, cause as u64);
    assert(label@ =~= frame::type_label(data@[6]));
    assert(detail@ =~= asdu_log_detail(data@));
    let objs = read_asdu_objects(data);
    store_all(received, asdu_type, &objs, now);
    FrameLog { label, detail }
}

/// The summary of a frame for the log, when it parses.
pub fn log_frame(data: &[u8]) -> (r: Option<String>)
    ensures
        match r {
            Some(s) => frame::spec_parse_apci(data@) matches Ok(f) && s@ == frame::frame_summary(f),
            None => frame::spec_parse_apci(data@) is Err,
        },
{
    match frame::parse_apci(data) {
        Ok(f) => Some(frame::format_frame_summary(&f)),
        Err(_) => None,
    }
}

/// The frame a master writes back on receiving `d`: TESTFR CON for TESTFR
/// ACT, an S-frame acknowledging an I-frame that carries an ASDU, else none.
pub open spec fn master_reply(d: Seq<u8>) -> Option<Seq<u8>> {
    if d.len() < 6 {
        None
    } else if d[2] % 4 == 3 {
        if d[2] == 0x43 {
            Some(seq![0x68u8, 0x04, 0x83, 0x00, 0x00, 0x00])
        } else {
            None
        }
    } else if d[2] % 2 == 0 && d.len() >= 12 {
        Some(seq![0x68u8, 0x04, 0x01, 0x00, 0x00, 0x00])
    } else {
        None
    }
}

/// Whether `d` is an I-frame whose ASDU the master stores.
pub open spec fn carries_asdu(d: Seq<u8>) -> bool {
    d.len() >= 12 && d[2] % 4 != 3 && d[2] % 2 == 0
}

/// What the master does with one received frame.
pub struct ReceivedFrame {
    /// the frame to write back, if any
    pub reply: Option<Vec<u8>>,
    /// what to log, if anything
    pub log: Option<FrameLog>,
    /// the time (Unix milliseconds) the stored points were stamped with,
    /// when the frame carried an ASDU
    pub stamped_at: Option<i64>,
}

/// Process a single received IEC 104 frame: U-frames are logged (TESTFR ACT
/// is answered with TESTFR CON); I-frames with an ASDU have their data
/// points stored, stamped with the current UTC time (returned in
/// `stamped_at`), and are acknowledged with an S-frame. Gives `None`, and
/// stores nothing, for a frame with an ASDU when the system clock gives no
/// reading (it is set before 1970).
pub fn process_received_frame(data: &[u8], received: &mut DataPointMap) -> (r: Option<ReceivedFrame>)
    requires
        data.len() <= usize::MAX - 16,
    ensures
        r is None ==> carries_asdu(data@) && final(received)@ == old(received)@,
        r matches Some(rf) ==> match rf.reply {
            Some(v) => master_reply(data@) == Some(v@),
            None => master_reply(data@) is None,
        },
        r matches Some(rf) ==> carries_asdu(data@) ==> (rf.stamped_at matches Some(now) && now >= 0 && final(received)@
            == store_objects(old(received)@, data@[6], frame_objects(data@), now)),
        r matches Some(rf) ==> !carries_asdu(data@) ==> rf.stamped_at is None && final(received)@ == old(received)@,
        r matches Some(rf) ==> carries_asdu(data@) ==> (rf.log matches Some(l) && l.label@ == frame::type_label(data@[6])
            && l.detail@ == asdu_log_detail(data@)),
        r matches Some(rf) ==> data@.len() >= 6 && data@[2] % 4 == 3 ==> match rf.log {
            Some(l) => frame::spec_parse_apci(data@) matches Ok(f) && l.label@ == frame::frame_summary(f)
                && l.detail@ == frame::frame_summary(f),
            None => frame::spec_parse_apci(data@) is Err,
        },
        r matches Some(rf) ==> !carries_asdu(data@) && !(data@.len() >= 6 && data@[2] % 4 == 3)
            ==> rf.log is None,
{
    if data.len() < 6 {
        return Some(ReceivedFrame { reply: None, log: None, stamped_at: None });
    }
    let ctrl1 = data[2];
    assert((ctrl1 & 0x01 == 0) == (ctrl1 % 2 == 0)) by (bit_vector);
    assert((ctrl1 & 0x03 == 0x03) == (ctrl1 % 4 == 3)) by (bit_vector);
    if ctrl1 & 0x03 == 0x03 {
        let log = match log_frame(data) {
            Some(summary) => {
                let label = text::copy_string(&summary);
                Some(FrameLog { label, detail: summary })
            },
            None => None,
        };
        let reply = if ctrl1 == 0x43 {
            let v = vec![0x68u8, 0x04, 0x83, 0x00, 0x00, 0x00];
            assert(v@ =~= seq![0x68u8, 0x04, 0x83, 0x00, 0x00, 0x00]);
            Some(v)
        } else {
            None
        };
        Some(ReceivedFrame { reply, log, stamped_at: None })
    } else if ctrl1 & 0x01 == 0 && data.len() >= 12 {
        let now = match clock::utc_now() {
            Some(t) => t.unix_millis,
            None => {
                return None;
            },
        };
        let log = parse_and_store_asdu(data, received, now);
        let v = vec![0x68u8, 0x04, 0x01, 0x00, 0x00, 0x00];
        assert(v@ =~= seq![0x68u8, 0x04, 0x01, 0x00, 0x00, 0x00]);
        Some(ReceivedFrame { reply: Some(v), log: Some(log), stamped_at: Some(now) })
    } else {
        Some(ReceivedFrame { reply: None, log: None, stamped_at: None })
    }
}

} // verus!
