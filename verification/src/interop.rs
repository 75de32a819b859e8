//! What one role sends, the other reads back: the master's command frames
//! as the slave classifies them, and the slave's interrogation replies as
//! the master parses and stores them.
use crate::bytes;
use crate::clock;
use crate::data_point::{DataPoint, DataPointValue};
use crate::frame;
use crate::frame::{FrameType, UFrameKind};
use crate::master;
use crate::slave;
use crate::slave::{SlaveAction, Station};
use crate::types;
use vstd::prelude::*;

verus! {

proof fn lemma_le16(v: u16)
    ensures
        bytes::le16(v)[0] + 256 * bytes::le16(v)[1] == v,
{
}

proof fn lemma_le24(v: u32)
    ensures
        bytes::le24(v)[0] + 256 * bytes::le24(v)[1] + 65536 * bytes::le24(v)[2] == v % 0x100_0000,
{
}

proof fn lemma_le32(v: u32)
    ensures
        bytes::u32_of(bytes::le32(v)[0], bytes::le32(v)[1], bytes::le32(v)[2], bytes::le32(v)[3]) == v,
{
}

proof fn lemma_i16_roundtrip(v: i16)
    ensures
        bytes::i16_of(bytes::le16(bytes::i16_bits(v))[0], bytes::le16(bytes::i16_bits(v))[1]) == v,
{
    lemma_le16(bytes::i16_bits(v));
}

proof fn lemma_i32_roundtrip(v: i32)
    ensures
        bytes::i32_of(
            bytes::le32(bytes::i32_bits(v))[0],
            bytes::le32(bytes::i32_bits(v))[1],
            bytes::le32(bytes::i32_bits(v))[2],
            bytes::le32(bytes::i32_bits(v))[3],
        ) == v,
{
    lemma_le32(bytes::i32_bits(v));
}

/// Whether the slave's interrogation reply can carry `p` without loss: it
/// has a monitored value, its address fits in three bytes, a double point
/// in two bits and a counter sequence number in five.
pub open spec fn transmittable(p: DataPoint) -> bool {
    &&& p.ioa < 0x100_0000
    &&& match p.value {
        DataPointValue::DoublePoint { value } => value < 4,
        DataPointValue::IntegratedTotal { sequence, .. } => sequence < 32,
        DataPointValue::NoValue => false,
        _ => true,
    }
}

/// The type code a monitored value travels under in an interrogation reply.
pub open spec fn reply_type(v: DataPointValue) -> u8 {
    match v {
        DataPointValue::SinglePoint { .. } => 1,
        DataPointValue::DoublePoint { .. } => 3,
        DataPointValue::Normalized { .. } => 9,
        DataPointValue::Scaled { .. } => 11,
        DataPointValue::ShortFloat { .. } => 13,
        _ => 15,
    }
}

/// The interrogation reply a slave sends for a point is an I-frame of
/// station `ca` with cause 20 that the master reads back as exactly that
/// point's address and value, and acknowledges.
pub proof fn lemma_interrogation_reply_roundtrip(ca: u16, p: DataPoint)
    requires
        transmittable(p),
    ensures
        slave::point_frame(ca, p) is Some,
        ({
            let f = slave::point_frame(ca, p)->0;
            &&& frame::spec_parse_apci(f) == Ok::<FrameType, frame::FrameError>(
                FrameType::IFrame {
                    send_seq: 0,
                    recv_seq: 0,
                    asdu_type: reply_type(p.value),
                    cause: 20,
                    common_address: ca,
                },
            )
            &&& master::carries_asdu(f)
            &&& master::frame_objects(f) == seq![(p.ioa, p.value)]
            &&& master::master_reply(f) == Some(seq![0x68u8, 0x04, 0x01, 0x00, 0x00, 0x00])
        }),
{
    let c = bytes::le16(ca);
    let a = bytes::le24(p.ioa);
    lemma_le16(ca);
    lemma_le24(p.ioa);
    let f = slave::point_frame(ca, p)->0;
    assert(f[6] == reply_type(p.value));
    assert(f[7] == 1);
    assert(f[10] == c[0] && f[11] == c[1]);
    assert(f[12] == a[0] && f[13] == a[1] && f[14] == a[2]);
    assert(frame::seq_number(0, 0) == 0);
    assert(frame::spec_parse_apci(f) == Ok::<FrameType, frame::FrameError>(
        FrameType::IFrame {
            send_seq: 0,
            recv_seq: 0,
            asdu_type: reply_type(p.value),
            cause: 20,
            common_address: ca,
        },
    ));
    let objs = master::asdu_objects(f, f[6], 1, 12);
    match p.value {
        DataPointValue::SinglePoint { value } => {
            assert(f.len() == 16);
        },
        DataPointValue::DoublePoint { value } => {
            assert(f.len() == 16);
        },
        DataPointValue::Normalized { raw } => {
            assert(f.len() == 18);
            lemma_i16_roundtrip(raw);
        },
        DataPointValue::Scaled { value } => {
            assert(f.len() == 18);
            lemma_i16_roundtrip(value);
        },
        DataPointValue::ShortFloat { bits } => {
            assert(f.len() == 20);
            lemma_le32(bits);
        },
        DataPointValue::IntegratedTotal { value, carry, sequence } => {
            assert(f.len() == 20);
            lemma_i32_roundtrip(value);
            let bcr = f[19];
            assert(bcr == sequence + if carry { 32int } else { 0 });
        },
        DataPointValue::NoValue => {},
    }
    assert(master::asdu_objects(f, f[6], 0, 12 + 3 + (f.len() - 15)) =~= Seq::<(u32, DataPointValue)>::empty());
    assert(master::frame_objects(f) =~= seq![(p.ioa, p.value)]);
}

/// The frame a slave sends to report a changed point spontaneously is an
/// I-frame of station `ca` with cause 3 that the master reads back as
/// exactly that point's address and value, and acknowledges.
pub proof fn lemma_spontaneous_report_roundtrip(ca: u16, p: DataPoint)
    requires
        transmittable(p),
    ensures
        slave::spontaneous_frame(ca, p) is Some,
        ({
            let g = slave::spontaneous_frame(ca, p)->0;
            &&& frame::spec_parse_apci(g) == Ok::<FrameType, frame::FrameError>(
                FrameType::IFrame {
                    send_seq: 0,
                    recv_seq: 0,
                    asdu_type: reply_type(p.value),
                    cause: 3,
                    common_address: ca,
                },
            )
            &&& master::carries_asdu(g)
            &&& master::frame_objects(g) == seq![(p.ioa, p.value)]
            &&& master::master_reply(g) == Some(seq![0x68u8, 0x04, 0x01, 0x00, 0x00, 0x00])
        }),
{
    lemma_interrogation_reply_roundtrip(ca, p);
    let f = slave::point_frame(ca, p)->0;
    let g = f.update(8, 3);
    lemma_le16(ca);
    lemma_le24(p.ioa);
    assert(f.len() >= 16);
    assert(frame::seq_number(0, 0) == 0);
    assert(g[10] == f[10] && g[11] == f[11] && g[6] == f[6] && g[2] == f[2]);
    assert(frame::spec_parse_apci(g) == Ok::<FrameType, frame::FrameError>(
        FrameType::IFrame {
            send_seq: 0,
            recv_seq: 0,
            asdu_type: reply_type(p.value),
            cause: 3,
            common_address: ca,
        },
    ));
    lemma_objects_skip_cause(f, 3);
}

/// The objects of an ASDU do not depend on its cause of transmission.
proof fn lemma_objects_skip_cause(f: Seq<u8>, cause: u8)
    requires
        f.len() >= 12,
    ensures
        master::frame_objects(f.update(8, cause)) == master::frame_objects(f),
{
    let g = f.update(8, cause);
    assert(g[6] == f[6] && g[7] == f[7]);
    lemma_asdu_objects_same(f, g, f[6], (f[7] % 128) as nat, 12);
}

proof fn lemma_asdu_objects_same(f: Seq<u8>, g: Seq<u8>, t: u8, n: nat, off: int)
    requires
        f.len() == g.len(),
        off >= 12,
        forall|k: int| 12 <= k < f.len() ==> f[k] == g[k],
    ensures
        master::asdu_objects(g, t, n, off) == master::asdu_objects(f, t, n, off),
    decreases n,
{
    assert(master::asdu_element(g, t, off + 3) == master::asdu_element(f, t, off + 3));
    if n > 0 {
        match master::asdu_element(f, t, off + 3) {
            Some((v, used)) => {
                if used >= 0 {
                    lemma_asdu_objects_same(f, g, t, (n - 1) as nat, off + 3 + used);
                }
            },
            None => {},
        }
    }
}

/// A single command to an existing point is answered with its confirmation
/// (cause 7), a spontaneous report (cause 3) that the master reads back as
/// the point with the commanded value, and its termination (cause 10).
pub proof fn lemma_command_writeback(
    stations: Map<u16, Station>,
    ca: u16,
    ioa: u32,
    on: bool,
    select: bool,
)
    requires
        ioa < 0x100_0000,
        stations.contains_key(ca),
        stations[ca].data_points@.contains_key(ioa),
        stations[ca].data_points@[ioa].ioa == ioa,
    ensures
        ({
            let cmd = master::single_command(ca, ioa, on, select);
            let reply = slave::slave_reply_frames(stations, cmd);
            &&& reply.len() == 3
            &&& reply[0] == slave::with_cause(cmd, 7)
            &&& frame::spec_parse_apci(reply[1]) == Ok::<FrameType, frame::FrameError>(
                FrameType::IFrame { send_seq: 0, recv_seq: 0, asdu_type: 1, cause: 3, common_address: ca },
            )
            &&& master::frame_objects(reply[1]) == seq![(ioa, DataPointValue::SinglePoint { value: on })]
            &&& reply[2] == slave::with_cause(cmd, 10)
        }),
{
    lemma_commands_reach_slave(ca, ioa, on, 0, select, 0);
    assert(ioa % 0x100_0000 == ioa);
    let p = DataPoint { value: DataPointValue::SinglePoint { value: on }, ..stations[ca].data_points@[ioa] };
    lemma_spontaneous_report_roundtrip(ca, p);
    let cmd = master::single_command(ca, ioa, on, select);
    let reply = slave::slave_reply_frames(stations, cmd);
    assert(slave::command_report(stations, slave::slave_action(cmd)) == seq![
        slave::spontaneous_frame(ca, p)->0,
    ]);
    assert(reply =~= seq![
        slave::with_cause(cmd, 7),
        slave::spontaneous_frame(ca, p)->0,
        slave::with_cause(cmd, 10),
    ]);
}

/// A clock synchronization command is confirmed and nothing more: the slave
/// classifies the master's frame as clock synchronization of station `ca`
/// and answers with exactly one frame, the same block with cause 7
/// (activation confirmation), which parses as an I-frame of type 103 and
/// cause 7 for station `ca`; the stations are left as they were.
pub proof fn lemma_clock_sync_confirmed(stations: Map<u16, Station>, ca: u16, t: clock::UtcNow)
    ensures
        ({
            let cmd = master::clock_sync_command(ca, t);
            &&& slave::slave_action(cmd) == (SlaveAction::ClockSync { ca })
            &&& slave::command_value(slave::slave_action(cmd)) is None
            &&& slave::slave_reply_frames(stations, cmd) == seq![cmd.update(8, 7)]
            &&& frame::spec_parse_apci(cmd.update(8, 7)) == Ok::<FrameType, frame::FrameError>(
                FrameType::IFrame { send_seq: 0, recv_seq: 0, asdu_type: 103, cause: 7, common_address: ca },
            )
        }),
{
    lemma_le16(ca);
    let cmd = master::clock_sync_command(ca, t);
    assert(cmd.len() == 22);
    assert(cmd[0] == 0x68 && cmd[2] == 0 && cmd[6] == 103);
    assert(cmd[10] == bytes::le16(ca)[0] && cmd[11] == bytes::le16(ca)[1]);
    let c = cmd.update(8, 7);
    assert(c[0] == 0x68 && c[2] == 0 && c[3] == 0 && c[4] == 0 && c[5] == 0 && c[6] == 103 && c[8] == 7);
    assert(c[10] == bytes::le16(ca)[0] && c[11] == bytes::le16(ca)[1]);
    assert(frame::seq_number(0, 0) == 0);
}

/// The bytes that carry a monitored value in an information object, laid
/// out as the standard does: a single-point or double-point octet, a 16-bit
/// value and a quality octet, a 32-bit float and a quality octet, or a
/// 32-bit counter and its sequence octet (sequence number in the low five
/// bits, carry in bit 5).
pub open spec fn element_value_bytes(v: DataPointValue) -> Seq<u8> {
    match v {
        DataPointValue::SinglePoint { value } => seq![if value { 1u8 } else { 0u8 }],
        DataPointValue::DoublePoint { value } => seq![value],
        DataPointValue::Normalized { raw } => bytes::le16(bytes::i16_bits(raw)).push(0),
        DataPointValue::Scaled { value } => bytes::le16(bytes::i16_bits(value)).push(0),
        DataPointValue::ShortFloat { bits } => bytes::le32(bits).push(0),
        DataPointValue::IntegratedTotal { value, carry, sequence } => bytes::le32(
            bytes::i32_bits(value),
        ).push((sequence + if carry { 32int } else { 0 }) as u8),
        DataPointValue::NoValue => Seq::empty(),
    }
}

/// The type identifier that carries monitored value `v`, without time tag
/// (1, 3, 9, 11, 13, 15) or with a seven-byte CP56Time2a time tag (30, 31,
/// 34, 35, 36, 37).
pub open spec fn monitor_type(v: DataPointValue, tagged: bool) -> u8 {
    match v {
        DataPointValue::SinglePoint { .. } => if tagged { 30 } else { 1 },
        DataPointValue::DoublePoint { .. } => if tagged { 31 } else { 3 },
        DataPointValue::Normalized { .. } => if tagged { 34 } else { 9 },
        DataPointValue::Scaled { .. } => if tagged { 35 } else { 11 },
        DataPointValue::ShortFloat { .. } => if tagged { 36 } else { 13 },
        _ => if tagged { 37 } else { 15 },
    }
}

/// Whether an object can travel in an ASDU without loss: a three-byte
/// address, a monitored value, a double point in two bits, a counter
/// sequence number in five.
pub open spec fn carriable(o: (u32, DataPointValue)) -> bool {
    &&& o.0 < 0x100_0000
    &&& match o.1 {
        DataPointValue::DoublePoint { value } => value < 4,
        DataPointValue::IntegratedTotal { sequence, .. } => sequence < 32,
        DataPointValue::NoValue => false,
        _ => true,
    }
}

/// The information objects `objs` written one after another: each address
/// in three bytes, its value bytes and, when `tagged`, its time tag from
/// `tags`.
pub open spec fn objects_bytes(objs: Seq<(u32, DataPointValue)>, tags: Seq<Seq<u8>>, tagged: bool) -> Seq<
    u8,
>
    decreases objs.len(),
{
    if objs.len() == 0 {
        Seq::empty()
    } else {
        bytes::le24(objs[0].0) + element_value_bytes(objs[0].1) + (if tagged {
            tags[0]
        } else {
            Seq::empty()
        }) + objects_bytes(objs.drop_first(), tags.drop_first(), tagged)
    }
}

proof fn lemma_element_roundtrip(d: Seq<u8>, o: int, v: DataPointValue, tagged: bool, tag: Seq<u8>)
    requires
        carriable((0, v)),
        tagged ==> tag.len() == 7,
        0 <= o,
        o + element_value_bytes(v).len() + (if tagged { 7int } else { 0 }) <= d.len(),
        d.subrange(o, o + element_value_bytes(v).len() + (if tagged { 7int } else { 0 })) == element_value_bytes(v) + (
        if tagged {
            tag
        } else {
            Seq::empty()
        }),
    ensures
        master::asdu_element(d, monitor_type(v, tagged), o) == Some(
            (v, element_value_bytes(v).len() + if tagged { 7int } else { 0 }),
        ),
{
    let e = element_value_bytes(v);
    let k = e.len() + if tagged { 7int } else { 0 };
    let w = e + (if tagged { tag } else { Seq::<u8>::empty() });
    assert forall|i: int| 0 <= i < e.len() implies d[o + i] == #[trigger] e[i] by {
        assert(d.subrange(o, o + k)[i] == w[i]);
    }
    match v {
        DataPointValue::SinglePoint { value } => {
            assert(d[o] == e[0]);
        },
        DataPointValue::DoublePoint { value } => {
            assert(d[o] == e[0]);
        },
        DataPointValue::Normalized { raw } => {
            assert(d[o] == e[0] && d[o + 1] == e[1]);
            lemma_i16_roundtrip(raw);
        },
        DataPointValue::Scaled { value } => {
            assert(d[o] == e[0] && d[o + 1] == e[1]);
            lemma_i16_roundtrip(value);
        },
        DataPointValue::ShortFloat { bits } => {
            assert(d[o] == e[0] && d[o + 1] == e[1] && d[o + 2] == e[2] && d[o + 3] == e[3]);
            lemma_le32(bits);
        },
        DataPointValue::IntegratedTotal { value, carry, sequence } => {
            assert(d[o] == e[0] && d[o + 1] == e[1] && d[o + 2] == e[2] && d[o + 3] == e[3]
                && d[o + 4] == e[4]);
            lemma_i32_roundtrip(value);
            let b = d[o + 4];
            assert(b == sequence + if carry { 32int } else { 0 });
        },
        DataPointValue::NoValue => {},
    }
}

#[verifier::spinoff_prover]
#[verifier::rlimit(40)]
proof fn lemma_objects_roundtrip_from(
    d: Seq<u8>,
    off: int,
    t: u8,
    objs: Seq<(u32, DataPointValue)>,
    tags: Seq<Seq<u8>>,
    tagged: bool,
)
    requires
        0 <= off <= d.len(),
        d.subrange(off, d.len() as int) == objects_bytes(objs, tags, tagged),
        forall|i: int|
            0 <= i < objs.len() ==> carriable(#[trigger] objs[i]) && monitor_type(objs[i].1, tagged) == t,
        tagged ==> tags.len() >= objs.len() && forall|i: int|
            0 <= i < objs.len() ==> (#[trigger] tags[i]).len() == 7,
    ensures
        master::asdu_objects(d, t, objs.len(), off) == objs,
    decreases objs.len(),
{
    if objs.len() == 0 {
        assert(master::asdu_objects(d, t, 0, off) =~= objs);
    } else {
        let (ioa, v) = objs[0];
        assert(carriable(objs[0]) && monitor_type(v, tagged) == t);
        let tag = if tagged { tags[0] } else { Seq::<u8>::empty() };
        let a = bytes::le24(ioa);
        let e = element_value_bytes(v);
        let rest_bytes = objects_bytes(objs.drop_first(), tags.drop_first(), tagged);
        let tail = d.subrange(off, d.len() as int);
        assert(tail == a + e + tag + rest_bytes);
        let k = e.len() + if tagged { 7int } else { 0 };
        assert(tag.len() == if tagged { 7int } else { 0 });
        assert(d[off] == a[0] && d[off + 1] == a[1] && d[off + 2] == a[2]) by {
            assert(tail[0] == a[0] && tail[1] == a[1] && tail[2] == a[2]);
        }
        lemma_le24(ioa);
        assert(d.subrange(off + 3, off + 3 + k) =~= e + tag) by {
            assert forall|i: int| 0 <= i < k implies d.subrange(off + 3, off + 3 + k)[i] == (e + tag)[i] by {
                assert(tail[3 + i] == (a + e + tag + rest_bytes)[3 + i]);
            }
        }
        assert(carriable((0, v)));
        lemma_element_roundtrip(d, off + 3, v, tagged, tag);
        assert(d.subrange(off + 3 + k, d.len() as int) =~= rest_bytes) by {
            assert forall|i: int| 0 <= i < d.len() - (off + 3 + k) implies d.subrange(
                off + 3 + k,
                d.len() as int,
            )[i] == rest_bytes[i] by {
                assert(tail[3 + k + i] == (a + e + tag + rest_bytes)[3 + k + i]);
            }
        }
        let rest = objs.drop_first();
        assert forall|i: int| 0 <= i < rest.len() implies carriable(#[trigger] rest[i]) && monitor_type(
            rest[i].1,
            tagged,
        ) == t by {
            assert(rest[i] == objs[i + 1]);
        }
        if tagged {
            assert forall|i: int| 0 <= i < rest.len() implies (#[trigger] tags.drop_first()[i]).len() == 7 by {
                assert(tags.drop_first()[i] == tags[i + 1]);
            }
        }
        lemma_objects_roundtrip_from(d, off + 3 + k, t, rest, tags.drop_first(), tagged);
        assert(objs =~= seq![(ioa, v)] + rest);
    }
}

/// Monitoring ASDUs read back as the objects they were built from, with and
/// without time tags: a frame whose 12-byte header names type `t` and
/// `objs.len()` objects, followed by the objects each written as a
/// three-byte address, its value bytes and (for the time-tagged types) a
/// seven-byte time tag, gives the master exactly `objs`.
pub proof fn lemma_asdu_objects_roundtrip(
    head: Seq<u8>,
    t: u8,
    objs: Seq<(u32, DataPointValue)>,
    tags: Seq<Seq<u8>>,
    tagged: bool,
)
    requires
        head.len() == 12,
        head[6] == t,
        head[7] % 128 == objs.len(),
        forall|i: int|
            0 <= i < objs.len() ==> carriable(#[trigger] objs[i]) && monitor_type(objs[i].1, tagged) == t,
        tagged ==> tags.len() == objs.len() && forall|i: int|
            0 <= i < objs.len() ==> (#[trigger] tags[i]).len() == 7,
    ensures
        master::frame_objects(head + objects_bytes(objs, tags, tagged)) == objs,
{
    let d = head + objects_bytes(objs, tags, tagged);
    assert(d.subrange(12, d.len() as int) =~= objects_bytes(objs, tags, tagged));
    assert(d[6] == t && d[7] == head[7]);
    lemma_objects_roundtrip_from(d, 12, t, objs, tags, tagged);
}

/// The master's command frames are classified by the slave as the command
/// they carry: interrogation and clock synchronization of the addressed
/// station, single, double and set-point commands with their address
/// (three bytes) and value; the select bit does not change the value.
pub proof fn lemma_commands_reach_slave(ca: u16, ioa: u32, on: bool, dvalue: u8, select: bool, bits: u32)
    ensures
        slave::slave_action(master::gi_command(ca)) == (SlaveAction::Interrogation { ca }),
        slave::slave_action(master::single_command(ca, ioa, on, select)) == (SlaveAction::SingleCommand {
            ca,
            ioa: (ioa % 0x100_0000) as u32,
            value: on,
        }),
        slave::slave_action(master::double_command(ca, ioa, dvalue, select)) == (
        SlaveAction::DoubleCommand { ca, ioa: (ioa % 0x100_0000) as u32, value: dvalue % 4 }),
        slave::slave_action(master::setpoint_float_command(ca, ioa, bits)) == (
        SlaveAction::SetpointFloat { ca, ioa: (ioa % 0x100_0000) as u32, bits }),
        !slave::slave_block_reads_past_end(master::single_command(ca, ioa, on, select)),
        !slave::slave_block_reads_past_end(master::double_command(ca, ioa, dvalue, select)),
{
    lemma_le16(ca);
    lemma_le24(ioa);
    lemma_le32(bits);
    let g = master::gi_command(ca);
    assert(g[0] == 0x68 && g[2] == 0 && g[6] == 100 && g.len() == 16);
    assert(g[10] == bytes::le16(ca)[0] && g[11] == bytes::le16(ca)[1]);
    let s = master::single_command(ca, ioa, on, select);
    assert(s[0] == 0x68 && s[2] == 0 && s[6] == 45 && s.len() == 16);
    assert(s[10] == bytes::le16(ca)[0] && s[11] == bytes::le16(ca)[1]);
    assert(s[12] == bytes::le24(ioa)[0] && s[13] == bytes::le24(ioa)[1] && s[14] == bytes::le24(ioa)[2]);
    assert(s[15] % 2 == 1 <==> on);
    let d = master::double_command(ca, ioa, dvalue, select);
    assert(d[0] == 0x68 && d[2] == 0 && d[6] == 46 && d.len() == 16);
    assert(d[10] == bytes::le16(ca)[0] && d[11] == bytes::le16(ca)[1]);
    assert(d[12] == bytes::le24(ioa)[0] && d[13] == bytes::le24(ioa)[1] && d[14] == bytes::le24(ioa)[2]);
    assert(d[15] % 4 == dvalue % 4);
    let p = master::setpoint_float_command(ca, ioa, bits);
    assert(p[0] == 0x68 && p[2] == 0 && p[6] == 50 && p.len() == 20);
    assert(p[10] == bytes::le16(ca)[0] && p[11] == bytes::le16(ca)[1]);
    assert(p[12] == bytes::le24(ioa)[0] && p[13] == bytes::le24(ioa)[1] && p[14] == bytes::le24(ioa)[2]);
    assert(p[15] == bytes::le32(bits)[0] && p[16] == bytes::le32(bits)[1] && p[17] == bytes::le32(bits)[2] && p[18] == bytes::le32(bits)[3]);
}

/// Every command frame the master builds parses as an I-frame with zero
/// sequence numbers, its type, cause 6 (activation) and the addressed station.
pub proof fn lemma_command_frames_parse(ca: u16, ioa: u32, on: bool, dvalue: u8, select: bool, bits: u32)
    ensures
        frame::spec_parse_apci(master::gi_command(ca)) == Ok::<FrameType, frame::FrameError>(
            command_header(100, ca),
        ),
        frame::spec_parse_apci(master::counter_read_command(ca)) == Ok::<FrameType, frame::FrameError>(
            command_header(101, ca),
        ),
        frame::spec_parse_apci(master::single_command(ca, ioa, on, select)) == Ok::<
            FrameType,
            frame::FrameError,
        >(command_header(45, ca)),
        frame::spec_parse_apci(master::double_command(ca, ioa, dvalue, select)) == Ok::<
            FrameType,
            frame::FrameError,
        >(command_header(46, ca)),
        frame::spec_parse_apci(master::setpoint_float_command(ca, ioa, bits)) == Ok::<
            FrameType,
            frame::FrameError,
        >(command_header(50, ca)),
{
    lemma_le16(ca);
    assert(frame::seq_number(0, 0) == 0);
    let g = master::gi_command(ca);
    assert(g[10] == bytes::le16(ca)[0] && g[11] == bytes::le16(ca)[1] && g[6] == 100 && g[8] == 6);
    let c = master::counter_read_command(ca);
    assert(c[10] == bytes::le16(ca)[0] && c[11] == bytes::le16(ca)[1] && c[6] == 101 && c[8] == 6);
    let s = master::single_command(ca, ioa, on, select);
    assert(s[10] == bytes::le16(ca)[0] && s[11] == bytes::le16(ca)[1] && s[6] == 45 && s[8] == 6);
    let d = master::double_command(ca, ioa, dvalue, select);
    assert(d[10] == bytes::le16(ca)[0] && d[11] == bytes::le16(ca)[1] && d[6] == 46 && d[8] == 6);
    let p = master::setpoint_float_command(ca, ioa, bits);
    assert(p[10] == bytes::le16(ca)[0] && p[11] == bytes::le16(ca)[1] && p[6] == 50 && p[8] == 6);
}

/// The parse of a command frame of type `t` to station `ca`.
pub open spec fn command_header(t: u8, ca: u16) -> FrameType {
    FrameType::IFrame { send_seq: 0, recv_seq: 0, asdu_type: t, cause: 6, common_address: ca }
}

/// The U-frames the slave answers with parse as the matching confirmation,
/// and the master answers TESTFR ACT with a frame that parses as TESTFR CON.
pub proof fn lemma_u_confirmations()
    ensures
        frame::spec_parse_apci(slave::u_confirmation(UFrameKind::StartDtAct)) == Ok::<
            FrameType,
            frame::FrameError,
        >(FrameType::UFrame { kind: UFrameKind::StartDtCon }),
        frame::spec_parse_apci(slave::u_confirmation(UFrameKind::StopDtAct)) == Ok::<
            FrameType,
            frame::FrameError,
        >(FrameType::UFrame { kind: UFrameKind::StopDtCon }),
        frame::spec_parse_apci(slave::u_confirmation(UFrameKind::TestFrAct)) == Ok::<
            FrameType,
            frame::FrameError,
        >(FrameType::UFrame { kind: UFrameKind::TestFrCon }),
        frame::spec_parse_apci(master::master_reply(seq![0x68u8, 0x04, 0x43, 0x00, 0x00, 0x00])->0)
            == Ok::<FrameType, frame::FrameError>(FrameType::UFrame { kind: UFrameKind::TestFrCon }),
{
}

/// The frame the master sends when its link comes up parses as STARTDT ACT
/// and the slave answers it with STARTDT CON; the frame it sends on a
/// disconnect parses as STOPDT ACT and the slave answers it with STOPDT CON.
pub proof fn lemma_link_frames(stations: Map<u16, Station>)
    ensures
        frame::spec_parse_apci(master::link_action(master::LinkEvent::Established)->0) == Ok::<
            FrameType,
            frame::FrameError,
        >(FrameType::UFrame { kind: UFrameKind::StartDtAct }),
        slave::slave_reply_frames(stations, master::link_action(master::LinkEvent::Established)->0)
            == seq![slave::u_confirmation(UFrameKind::StartDtAct)],
        frame::spec_parse_apci(master::link_action(master::LinkEvent::Disconnect)->0) == Ok::<
            FrameType,
            frame::FrameError,
        >(FrameType::UFrame { kind: UFrameKind::StopDtAct }),
        slave::slave_reply_frames(stations, master::link_action(master::LinkEvent::Disconnect)->0)
            == seq![slave::u_confirmation(UFrameKind::StopDtAct)],
{
}

} // verus!
