//! Java Flight Recorder files: the chunk header, the record scan, LEB128
//! integers and the mapping from event names and ids to event kinds.

use vstd::prelude::*;
use crate::error::{Error, Result};
use crate::num::{decimal, u64_to_decimal};
use crate::text::{owned, push_str, str_eq, lines, trim, views, str_lines, str_trim, str_starts_with};
use crate::tally::{count_views, tally, tally_strings};

verus! {

/// A JFR recording started with `jcmd <pid> JFR.start`.
pub struct RecordingSession {
    pub pid: u32,
    pub output_path: String,
    pub duration_secs: Option<u32>,
}

/// Kinds of JFR events the summary distinguishes.
#[derive(Debug, Clone, PartialEq, Eq)]
pub enum EventType {
    CpuSampling,
    GcEvent,
    FileRead,
    FileWrite,
    SocketRead,
    SocketWrite,
    ThreadBlock,
    MemAlloc,
    Unknown(String),
}

/// One decoded event.
#[derive(Debug, Clone)]
pub struct JfrEvent {
    pub timestamp: u64,
    pub event_type: EventType,
    pub duration: u64,
    pub thread: Option<String>,
    pub details: String,
}

/// The fields of a chunk header.
#[derive(Debug)]
pub struct JfrHeader {
    pub major_version: u16,
    pub minor_version: u16,
    pub chunk_size: u64,
    pub start_time: u64,
    pub duration: u64,
}

/// The kind of event that the JFR type name `n` denotes.
pub open spec fn event_named(e: EventType, n: Seq<char>) -> bool {
    if n == "jdk.ExecutionSample"@ || n == "jdk.NativeMethodSample"@ {
        e is CpuSampling
    } else if n == "jdk.GarbageCollection"@ || n == "jdk.GCHeapSummary"@ || n
        == "jdk.GCPhasePause"@ {
        e is GcEvent
    } else if n == "jdk.FileRead"@ {
        e is FileRead
    } else if n == "jdk.FileWrite"@ {
        e is FileWrite
    } else if n == "jdk.SocketRead"@ {
        e is SocketRead
    } else if n == "jdk.SocketWrite"@ {
        e is SocketWrite
    } else if n == "jdk.ThreadLock"@ || n == "jdk.JavaMonitorWait"@ {
        e is ThreadBlock
    } else if n == "jdk.ObjectAllocationInNewTLAB"@ || n == "jdk.ObjectAllocationOutsideTLAB"@ || n
        == "jdk.AllocationRequiringGC"@ {
        e is MemAlloc
    } else {
        e matches EventType::Unknown(s) && s@ == n
    }
}

/// The name shown for each kind of event.
pub open spec fn display_name_of(e: EventType) -> Seq<char> {
    match e {
        EventType::CpuSampling => "CPU 采样"@,
        EventType::GcEvent => "GC 事件"@,
        EventType::FileRead => "文件读取"@,
        EventType::FileWrite => "文件写入"@,
        EventType::SocketRead => "网络读取"@,
        EventType::SocketWrite => "网络写入"@,
        EventType::ThreadBlock => "线程阻塞"@,
        EventType::MemAlloc => "内存分配"@,
        EventType::Unknown(_) => "其他"@,
    }
}

impl EventType {
    /// The kind of event named `name` in a recording's metadata.
    pub fn from_jfr_name(name: &str) -> (r: EventType)
        ensures
            event_named(r, name@),
    {
        if str_eq(name, "jdk.ExecutionSample") || str_eq(name, "jdk.NativeMethodSample") {
            EventType::CpuSampling
        } else if str_eq(name, "jdk.GarbageCollection") || str_eq(name, "jdk.GCHeapSummary")
            || str_eq(name, "jdk.GCPhasePause") {
            EventType::GcEvent
        } else if str_eq(name, "jdk.FileRead") {
            EventType::FileRead
        } else if str_eq(name, "jdk.FileWrite") {
            EventType::FileWrite
        } else if str_eq(name, "jdk.SocketRead") {
            EventType::SocketRead
        } else if str_eq(name, "jdk.SocketWrite") {
            EventType::SocketWrite
        } else if str_eq(name, "jdk.ThreadLock") || str_eq(name, "jdk.JavaMonitorWait") {
            EventType::ThreadBlock
        } else if str_eq(name, "jdk.ObjectAllocationInNewTLAB") || str_eq(
            name,
            "jdk.ObjectAllocationOutsideTLAB",
        ) || str_eq(name, "jdk.AllocationRequiringGC") {
            EventType::MemAlloc
        } else {
            EventType::Unknown(owned(name))
        }
    }

    /// The name shown for this kind of event.
    pub fn display_name(&self) -> (r: &str)
        ensures
            r@ == display_name_of(*self),
    {
        match self {
            EventType::CpuSampling => "CPU 采样",
            EventType::GcEvent => "GC 事件",
            EventType::FileRead => "文件读取",
            EventType::FileWrite => "文件写入",
            EventType::SocketRead => "网络读取",
            EventType::SocketWrite => "网络写入",
            EventType::ThreadBlock => "线程阻塞",
            EventType::MemAlloc => "内存分配",
            EventType::Unknown(_) => "其他",
        }
    }
}

// ─── LEB128 integers ───

/// Decoding of a little-endian base-128 integer that starts at `p`, with
/// `acc` the bits read so far and `shift` the position of the next group:
/// the value (if the data does not end first) and the position after it.
pub open spec fn varint(d: Seq<u8>, p: int, shift: nat, acc: u64) -> (Option<u64>, int)
    decreases d.len() - p,
{
    if p < 0 || p >= d.len() {
        (None, p)
    } else {
        let b = d[p];
        let acc2 = acc | (((b & 0x7f) as u64) << (shift as u64));
        if b & 0x80 == 0 {
            (Some(acc2), p + 1)
        } else {
            varint(d, p + 1, shift + 7, acc2)
        }
    }
}

/// Decoding from `p` never shifts by 64 bits or more, which would overflow.
pub open spec fn varint_ok(d: Seq<u8>, p: int, shift: nat) -> bool
    decreases d.len() - p,
{
    if p < 0 || p >= d.len() {
        true
    } else if shift >= 64 {
        false
    } else if d[p] & 0x80 == 0 {
        true
    } else {
        varint_ok(d, p + 1, shift + 7)
    }
}

/// Reads a LEB128 integer at `*pos`, advancing `*pos` past it. At the end of
/// the data it gives `None`, with `*pos` at the end.
pub fn read_varint(data: &[u8], pos: &mut usize) -> (r: Option<u64>)
    requires
        varint_ok(data@, *old(pos) as int, 0),
    ensures
        r == varint(data@, *old(pos) as int, 0, 0).0,
        *final(pos) as int == varint(data@, *old(pos) as int, 0, 0).1,
{
    let mut result: u64 = 0;
    let mut shift: u32 = 0;
    loop
        invariant
            varint(data@, *old(pos) as int, 0, 0) == varint(data@, *pos as int, shift as nat, result),
            varint_ok(data@, *pos as int, shift as nat),
            shift < 200,
            *pos <= data@.len() || *pos == *old(pos),
        decreases data@.len() - *pos,
    {
        if *pos >= data.len() {
            return None;
        }
        let byte = data[*pos];
        *pos += 1;
        assert(shift < 64);
        result = result | (((byte & 0x7F) as u64) << shift);
        shift += 7;
        if byte & 0x80 == 0 {
            return Some(result);
        }
    }
}

// ─── header ───

/// Big-endian value of the bytes `d`.
pub open spec fn be_value(d: Seq<u8>) -> nat
    decreases d.len(),
{
    if d.len() == 0 {
        0
    } else {
        be_value(d.drop_last()) * 256 + d.last() as nat
    }
}

/// Big-endian value of `d[i..i + n]`.
pub open spec fn be_at(d: Seq<u8>, i: int, n: int) -> nat {
    be_value(d.subrange(i, i + n))
}

proof fn lemma_be_value_bound(d: Seq<u8>)
    ensures
        be_value(d) < pow256(d.len()),
    decreases d.len(),
{
    if d.len() > 0 {
        lemma_be_value_bound(d.drop_last());
        let v = be_value(d.drop_last());
        let p = pow256(d.drop_last().len());
        assert(v * 256 + (d.last() as nat) < p * 256) by (nonlinear_arith)
            requires
                v < p,
                d.last() < 256,
        ;
    }
}

/// `256^n`.
pub open spec fn pow256(n: nat) -> nat
    decreases n,
{
    if n == 0 {
        1
    } else {
        pow256((n - 1) as nat) * 256
    }
}

/// Reads `data[i..i + n]` as a big-endian integer of at most 8 bytes.
fn read_be(data: &[u8], i: usize, n: usize) -> (r: u64)
    requires
        n <= 8,
        i + n <= data@.len(),
    ensures
        r as nat == be_at(data@, i as int, n as int),
{
    let mut acc: u64 = 0;
    let mut k: usize = 0;
    let dl = data.len();
    assert(data@.subrange(i as int, i as int) =~= Seq::<u8>::empty());
    while k < n
        invariant
            k <= n <= 8,
            i + n <= data@.len(),
            dl == data@.len(),
            acc as nat == be_value(data@.subrange(i as int, (i + k) as int)),
        decreases n - k,
    {
        let ghost pre = data@.subrange(i as int, (i + k) as int);
        let ghost nxt = data@.subrange(i as int, (i + k + 1) as int);
        assert(nxt.drop_last() =~= pre);
        proof {
            lemma_be_value_bound(pre);
            assert(pow256(pre.len()) <= pow256(7)) by {
                lemma_pow256_mono(pre.len(), 7);
            }
            reveal_with_fuel(pow256, 8);
            assert(pow256(7) == 72057594037927936);
            let b = data@[(i + k) as int];
            assert(acc * 256 + b <= 0xffff_ffff_ffff_ffff) by (nonlinear_arith)
                requires
                    acc < 72057594037927936,
                    b < 256,
            ;
        }
        acc = acc * 256 + data[i + k] as u64;
        k += 1;
    }
    acc
}

proof fn lemma_pow256_mono(a: nat, b: nat)
    requires
        a <= b,
    ensures
        pow256(a) <= pow256(b),
    decreases b,
{
    if a < b {
        lemma_pow256_mono(a, (b - 1) as nat);
    }
}

/// Message for data too short to hold a header.
pub open spec fn header_incomplete_message() -> Seq<char> {
    "JFR 头部不完整"@
}

/// What a header read from `d` holds.
pub open spec fn header_matches(h: JfrHeader, d: Seq<u8>) -> bool {
    &&& h.major_version as nat == be_at(d, 4, 2)
    &&& h.minor_version as nat == be_at(d, 6, 2)
    &&& h.chunk_size as nat == be_at(d, 8, 8)
    &&& h.start_time as nat == be_at(d, 16, 8)
    &&& h.duration as nat == be_at(d, 24, 8)
}

/// Reads the chunk header (big-endian: versions at 4 and 6, chunk size at 8,
/// start time at 16, duration at 24); the data must hold 68 bytes.
pub fn parse_jfr_header(data: &[u8]) -> (r: Result<JfrHeader>)
    ensures
        match r {
            Ok(h) => data@.len() >= 68 && header_matches(h, data@),
            Err(e) => data@.len() < 68 && e.0@ == header_incomplete_message(),
        },
{
    if data.len() < 68 {
        return Err(Error::new("JFR 头部不完整"));
    }
    let major = read_be(data, 4, 2);
    let minor = read_be(data, 6, 2);
    proof {
        lemma_be_value_bound(data@.subrange(4, 6));
        lemma_be_value_bound(data@.subrange(6, 8));
        reveal_with_fuel(pow256, 3);
        assert(pow256(2) == 65536);
    }
    Ok(JfrHeader {
        major_version: major as u16,
        minor_version: minor as u16,
        chunk_size: read_be(data, 8, 8),
        start_time: read_be(data, 16, 8),
        duration: read_be(data, 24, 8),
    })
}

// ─── records ───

/// What a record holds for an event: its type id, timestamp delta and
/// duration, or `None` when it is no event record. Events are records of at
/// least 10 bytes whose tag has type 3 in its high nibble; after the tag and
/// a 4-byte size come three LEB128 integers (a missing one reads as 0, a
/// missing type id drops the record).
pub open spec fn record_fields(rec: Seq<u8>) -> Option<(u64, u64, u64)> {
    if rec.len() < 10 || (rec[0] >> 4u8) & 0x0f != 3 {
        None
    } else {
        let a = varint(rec, 5, 0, 0);
        match a.0 {
            None => None,
            Some(id) => {
                let b = varint(rec, a.1, 0, 0);
                let c = varint(rec, b.1, 0, 0);
                Some(
                    (
                        id,
                        match b.0 {
                            Some(v) => v,
                            None => 0,
                        },
                        match c.0 {
                            Some(v) => v,
                            None => 0,
                        },
                    ),
                )
            },
        }
    }
}

/// Decoding the record never overflows (shifts or the timestamp sum).
pub open spec fn record_ok(rec: Seq<u8>, start: u64) -> bool {
    if rec.len() < 10 || (rec[0] >> 4u8) & 0x0f != 3 {
        true
    } else {
        let a = varint(rec, 5, 0, 0);
        &&& varint_ok(rec, 5, 0)
        &&& match a.0 {
            None => true,
            Some(id) => {
                let b = varint(rec, a.1, 0, 0);
                &&& varint_ok(rec, a.1, 0)
                &&& varint_ok(rec, b.1, 0)
                &&& start + match b.0 {
                    Some(v) => v,
                    None => 0,
                } <= u64::MAX
            },
        }
    }
}

/// The kind of event with type id `id`.
pub open spec fn event_for_id(e: EventType, id: u64) -> bool {
    if id == 101 {
        e is CpuSampling
    } else if 160 <= id <= 162 {
        e is GcEvent
    } else if id == 110 {
        e is FileRead
    } else if id == 111 {
        e is FileWrite
    } else if id == 120 {
        e is SocketRead
    } else if id == 121 {
        e is SocketWrite
    } else if id == 130 {
        e is ThreadBlock
    } else if id == 140 || id == 141 {
        e is MemAlloc
    } else {
        e matches EventType::Unknown(s) && s@ == "id:"@ + decimal(id as nat)
    }
}

/// The id has a kind of its own.
pub open spec fn known_id(id: u64) -> bool {
    id == 101 || (160 <= id <= 162) || id == 110 || id == 111 || id == 120 || id == 121 || id
        == 130 || id == 140 || id == 141
}

/// The event decoded from the fields `(id, delta, duration)` of a record in
/// a chunk that starts at `start`.
pub open spec fn event_matches(ev: JfrEvent, f: (u64, u64, u64), start: u64) -> bool {
    &&& ev.timestamp == start + f.1
    &&& ev.duration == f.2
    &&& ev.thread is None
    &&& event_for_id(ev.event_type, f.0)
    &&& ev.details@ == (if known_id(f.0) {
        Seq::empty()
    } else {
        "事件类型 ID: "@ + decimal(f.0 as nat)
    })
}

/// The event type for a known or unknown type id.
fn event_type_for_id(id: u64) -> (r: EventType)
    ensures
        event_for_id(r, id),
{
    if id == 101 {
        EventType::CpuSampling
    } else if 160 <= id && id <= 162 {
        EventType::GcEvent
    } else if id == 110 {
        EventType::FileRead
    } else if id == 111 {
        EventType::FileWrite
    } else if id == 120 {
        EventType::SocketRead
    } else if id == 121 {
        EventType::SocketWrite
    } else if id == 130 {
        EventType::ThreadBlock
    } else if id == 140 || id == 141 {
        EventType::MemAlloc
    } else {
        let mut s = owned("id:");
        push_str(&mut s, u64_to_decimal(id).as_str());
        EventType::Unknown(s)
    }
}

/// Decodes one record into an event, or `None` for records that are not
/// event records.
pub fn extract_event_from_record(record: &[u8], header: &JfrHeader) -> (r: Option<JfrEvent>)
    requires
        record_ok(record@, header.start_time),
    ensures
        match r {
            Some(ev) => record_fields(record@) matches Some(f) && event_matches(
                ev,
                f,
                header.start_time,
            ),
            None => record_fields(record@) is None,
        },
{
    if record.len() < 10 {
        return None;
    }
    let tag = record[0];
    let record_type = (tag >> 4) & 0x0F;
    if record_type != 3 {
        return None;
    }
    let mut pos: usize = 5;
    let event_type_id = match read_varint(record, &mut pos) {
        Some(v) => v,
        None => {
            return None;
        },
    };
    let timestamp_delta = match read_varint(record, &mut pos) {
        Some(v) => v,
        None => 0,
    };
    let duration = match read_varint(record, &mut pos) {
        Some(v) => v,
        None => 0,
    };
    let event_type = event_type_for_id(event_type_id);
    let details = if 160 <= event_type_id && event_type_id <= 162 || event_type_id == 101
        || event_type_id == 110 || event_type_id == 111 || event_type_id == 120
        || event_type_id == 121 || event_type_id == 130 || event_type_id == 140
        || event_type_id == 141 {
        String::new()
    } else {
        let mut d = owned("事件类型 ID: ");
        push_str(&mut d, u64_to_decimal(event_type_id).as_str());
        d
    };
    Some(
        JfrEvent {
            timestamp: header.start_time + timestamp_delta,
            event_type,
            duration,
            thread: None,
            details,
        },
    )
}

/// Size field of the record at `off`: big-endian `u32` at `off + 1`.
pub open spec fn record_size(d: Seq<u8>, off: int) -> nat {
    be_at(d, off + 1, 4)
}

/// Reads the size field of the record at `off`.
fn read_record_size(data: &[u8], off: usize) -> (r: usize)
    requires
        off + 8 <= data@.len(),
    ensures
        r as nat == record_size(data@, off as int),
{
    let dl = data.len();
    let v = read_be(data, off + 1, 4);
    proof {
        lemma_be_value_bound(data@.subrange(off + 1, off + 5));
        reveal_with_fuel(pow256, 5);
        assert(pow256(4) == 0x1_0000_0000);
    }
    v as usize
}

/// The fields of every event record, scanning records from `off`. The scan
/// stops when fewer than 8 bytes remain, or at a record whose size is 0 or
/// runs past the end.
pub open spec fn scan_records(d: Seq<u8>, off: int) -> Seq<(u64, u64, u64)>
    decreases d.len() - off,
{
    if off < 0 || off + 8 > d.len() {
        Seq::empty()
    } else {
        let size = record_size(d, off);
        if size == 0 || off + size > d.len() {
            Seq::empty()
        } else {
            let rest = scan_records(d, off + size);
            match record_fields(d.subrange(off, off + size)) {
                Some(f) => seq![f] + rest,
                None => rest,
            }
        }
    }
}

/// No record reached by the scan from `off` overflows when decoded.
pub open spec fn scan_ok(d: Seq<u8>, off: int, start: u64) -> bool
    decreases d.len() - off,
{
    if off < 0 || off + 8 > d.len() {
        true
    } else {
        let size = record_size(d, off);
        if size == 0 || off + size > d.len() {
            true
        } else {
            record_ok(d.subrange(off, off + size), start) && scan_ok(d, off + size, start)
        }
    }
}

/// Decodes the events of a chunk: the records from byte 68 on.
pub fn parse_jfr_events(data: &[u8], header: &JfrHeader) -> (r: Result<Vec<JfrEvent>>)
    requires
        scan_ok(data@, 68, header.start_time),
    ensures
        r matches Ok(evs) && evs@.len() == scan_records(data@, 68).len() && forall|k: int|
            0 <= k < evs@.len() ==> event_matches(
                #[trigger] evs@[k],
                scan_records(data@, 68)[k],
                header.start_time,
            ),
{
    let mut events: Vec<JfrEvent> = Vec::new();
    let mut offset: usize = 68;
    let ghost mut got: Seq<(u64, u64, u64)> = Seq::empty();
    assert(got + scan_records(data@, 68) =~= scan_records(data@, 68));
    while data.len() >= 8 && offset <= data.len() - 8
        invariant
            offset >= 68,
            scan_ok(data@, offset as int, header.start_time),
            got + scan_records(data@, offset as int) == scan_records(data@, 68),
            events@.len() == got.len(),
            forall|k: int|
                0 <= k < got.len() ==> event_matches(#[trigger] events@[k], got[k], header.start_time),
        ensures
            events@.len() == got.len(),
            forall|k: int|
                0 <= k < got.len() ==> event_matches(#[trigger] events@[k], got[k], header.start_time),
            got == scan_records(data@, 68),
        decreases data@.len() - offset,
    {
        let size = read_record_size(data, offset);
        if size == 0 || size > data.len() - offset {
            assert(got + Seq::<(u64, u64, u64)>::empty() =~= got);
            break;
        }
        let rec = vstd::slice::slice_subrange(data, offset, offset + size);
        let ghost rest = scan_records(data@, offset + size);
        match extract_event_from_record(rec, header) {
            Some(event) => {
                let ghost f = record_fields(rec@).unwrap();
                let ghost old_got = got;
                events.push(event);
                proof {
                    got = got.push(f);
                    assert(old_got + (seq![f] + rest) =~= got + rest);
                    assert forall|k: int| 0 <= k < got.len() implies event_matches(
                        #[trigger] events@[k],
                        got[k],
                        header.start_time,
                    ) by {
                        if k < old_got.len() {
                            assert(got[k] == old_got[k]);
                        }
                    }
                }
            },
            None => {},
        }
        offset += size;
    }
    proof {
        if !(data@.len() >= 8 && offset <= data@.len() - 8) {
            assert(got + Seq::<(u64, u64, u64)>::empty() =~= got);
        }
    }
    Ok(events)
}

/// Message for data too short to be a recording.
pub open spec fn too_small_message() -> Seq<char> {
    "JFR 文件太小，不是有效的 JFR 文件"@
}

/// Message for data without the JFR magic number.
pub open spec fn bad_magic_message() -> Seq<char> {
    "无效的 JFR 文件格式（magic number 不匹配）"@
}

/// The data starts with the magic number `FLR\0`.
pub open spec fn has_magic(d: Seq<u8>) -> bool {
    d.len() >= 4 && d[0] == 0x46u8 && d[1] == 0x4cu8 && d[2] == 0x52u8 && d[3] == 0u8
}

/// Parses the bytes of a `.jfr` file: at least 68 bytes, the magic number,
/// the chunk header, then the records.
pub fn parse_jfr_data(data: &[u8]) -> (r: Result<(JfrHeader, Vec<JfrEvent>)>)
    requires
        data@.len() >= 68 ==> scan_ok(data@, 68, be_at(data@, 16, 8) as u64),
    ensures
        match r {
            Ok((h, evs)) => {
                &&& data@.len() >= 68
                &&& has_magic(data@)
                &&& header_matches(h, data@)
                &&& evs@.len() == scan_records(data@, 68).len()
                &&& forall|k: int|
                    0 <= k < evs@.len() ==> event_matches(
                        #[trigger] evs@[k],
                        scan_records(data@, 68)[k],
                        h.start_time,
                    )
            },
            Err(e) => if data@.len() < 68 {
                e.0@ == too_small_message()
            } else {
                !has_magic(data@) && e.0@ == bad_magic_message()
            },
        },
{
    if data.len() < 68 {
        return Err(Error::new("JFR 文件太小，不是有效的 JFR 文件"));
    }
    if !(data[0] == 0x46 && data[1] == 0x4c && data[2] == 0x52 && data[3] == 0) {
        return Err(Error::new("无效的 JFR 文件格式（magic number 不匹配）"));
    }
    let header = match parse_jfr_header(data) {
        Ok(h) => h,
        Err(e) => {
            return Err(e);
        },
    };
    let events = match parse_jfr_events(data, &header) {
        Ok(evs) => evs,
        Err(e) => {
            return Err(e);
        },
    };
    Ok((header, events))
}

/// Whether decoding the records of `data` stays clear of overflow (the
/// precondition of `parse_jfr_data` for data of at least 68 bytes).
pub fn jfr_data_decodable(data: &[u8]) -> (r: bool)
    ensures
        r == (data@.len() >= 68 ==> scan_ok(data@, 68, be_at(data@, 16, 8) as u64)),
{
    if data.len() < 68 {
        return true;
    }
    let start = read_be(data, 16, 8);
    let mut offset: usize = 68;
    while data.len() >= 8 && offset <= data.len() - 8
        invariant
            offset >= 68,
            data@.len() >= 68,
            start as nat == be_at(data@, 16, 8),
            scan_ok(data@, 68, start) == scan_ok(data@, offset as int, start),
        decreases data@.len() - offset,
    {
        let size = read_record_size(data, offset);
        if size == 0 || size > data.len() - offset {
            return true;
        }
        let rec = vstd::slice::slice_subrange(data, offset, offset + size);
        if !record_decodable(rec, start) {
            return false;
        }
        offset += size;
    }
    true
}

/// Whether decoding one record stays clear of overflow.
fn record_decodable(rec: &[u8], start: u64) -> (r: bool)
    ensures
        r == record_ok(rec@, start),
{
    if rec.len() < 10 || (rec[0] >> 4) & 0x0F != 3 {
        return true;
    }
    let mut pos: usize = 5;
    if !varint_decodable(rec, pos) {
        return false;
    }
    let a = read_varint(rec, &mut pos);
    if a.is_none() {
        return true;
    }
    if !varint_decodable(rec, pos) {
        return false;
    }
    let b = read_varint(rec, &mut pos);
    if !varint_decodable(rec, pos) {
        return false;
    }
    let delta = match b {
        Some(v) => v,
        None => 0,
    };
    start <= u64::MAX - delta
}

/// Whether decoding a LEB128 integer at `p` stays clear of overflow.
fn varint_decodable(d: &[u8], p: usize) -> (r: bool)
    ensures
        r == varint_ok(d@, p as int, 0),
{
    let mut q = p;
    let mut shift: u32 = 0;
    while q < d.len()
        invariant
            varint_ok(d@, p as int, 0) == varint_ok(d@, q as int, shift as nat),
            shift < 200,
        decreases d@.len() - q,
    {
        if shift >= 64 {
            return false;
        }
        if d[q] & 0x80 == 0 {
            return true;
        }
        q += 1;
        shift += 7;
    }
    true
}

// ─── summary ───

/// Aggregates over the events of a recording.  The recording's length is
/// kept in nanoseconds, as the header gives it.
#[derive(Debug, Clone)]
pub struct JfrSummary {
    pub duration_nanos: u64,
    pub event_counts: Vec<(String, usize)>,
    pub total_events: usize,
    pub top_cpu_hotspots: Vec<(String, usize)>,
    pub gc_count: usize,
    pub total_gc_duration_ms: u64,
    pub file_io_count: usize,
    pub total_file_bytes: u64,
    pub thread_block_count: usize,
    pub total_block_duration_ms: u64,
    pub mem_alloc_count: usize,
    pub total_alloc_bytes: u64,
}

/// Number of events whose kind satisfies `f`.
pub open spec fn count_where(s: Seq<JfrEvent>, f: spec_fn(EventType) -> bool) -> nat
    decreases s.len(),
{
    if s.len() == 0 {
        0
    } else {
        count_where(s.drop_last(), f) + if f(s.last().event_type) {
            1nat
        } else {
            0nat
        }
    }
}

/// Whole milliseconds of the events whose kind satisfies `f`, each
/// event's duration (in nanoseconds) truncated on its own.
pub open spec fn millis_where(s: Seq<JfrEvent>, f: spec_fn(EventType) -> bool) -> nat
    decreases s.len(),
{
    if s.len() == 0 {
        0
    } else {
        millis_where(s.drop_last(), f) + if f(s.last().event_type) {
            (s.last().duration / 1_000_000) as nat
        } else {
            0nat
        }
    }
}

/// Garbage collection events.
pub open spec fn is_gc(e: EventType) -> bool {
    e is GcEvent
}

/// File reads and writes.
pub open spec fn is_file_io(e: EventType) -> bool {
    e is FileRead || e is FileWrite
}

/// Blocked threads.
pub open spec fn is_block(e: EventType) -> bool {
    e is ThreadBlock
}

/// Allocations.
pub open spec fn is_alloc(e: EventType) -> bool {
    e is MemAlloc
}

/// The display names of the events' kinds, in order.
pub open spec fn event_names(s: Seq<JfrEvent>) -> Seq<Seq<char>> {
    s.map_values(|e: JfrEvent| display_name_of(e.event_type))
}

/// The millisecond totals of the summary fit in 64 bits.
pub open spec fn summary_fits(s: Seq<JfrEvent>) -> bool {
    &&& millis_where(s, |e: EventType| is_gc(e)) <= u64::MAX
    &&& millis_where(s, |e: EventType| is_block(e)) <= u64::MAX
}

/// Whether the millisecond totals of a summary of `events` fit in 64
/// bits (what `summarize` asks of its events).
pub fn summary_fits_exec(events: &[JfrEvent]) -> (r: bool)
    ensures
        r == summary_fits(events@),
{
    let ghost s = events@;
    let ghost fg = |e: EventType| is_gc(e);
    let ghost fb = |e: EventType| is_block(e);
    let mut gc_ms: u64 = 0;
    let mut block_ms: u64 = 0;
    let mut i: usize = 0;
    while i < events.len()
        invariant
            s == events@,
            i <= s.len(),
            gc_ms == millis_where(s.take(i as int), fg),
            block_ms == millis_where(s.take(i as int), fb),
            fg == (|e: EventType| is_gc(e)),
            fb == (|e: EventType| is_block(e)),
        decreases s.len() - i,
    {
        let ghost t = s.take(i + 1);
        assert(t.drop_last() =~= s.take(i as int));
        assert(t.last() == s[i as int]);
        proof {
            lemma_millis_prefix(s, fg, i + 1);
            lemma_millis_prefix(s, fb, i + 1);
        }
        let ev = &events[i];
        match ev.event_type {
            EventType::GcEvent => {
                match gc_ms.checked_add(ev.duration / 1_000_000) {
                    Some(v) => {
                        gc_ms = v;
                    },
                    None => {
                        return false;
                    },
                }
            },
            EventType::ThreadBlock => {
                match block_ms.checked_add(ev.duration / 1_000_000) {
                    Some(v) => {
                        block_ms = v;
                    },
                    None => {
                        return false;
                    },
                }
            },
            _ => {},
        }
        i += 1;
    }
    assert(s.take(s.len() as int) =~= s);
    true
}

proof fn lemma_millis_prefix(s: Seq<JfrEvent>, f: spec_fn(EventType) -> bool, i: int)
    requires
        0 <= i <= s.len(),
    ensures
        millis_where(s.take(i), f) <= millis_where(s, f),
    decreases s.len() - i,
{
    if i < s.len() {
        lemma_millis_prefix(s, f, i + 1);
        assert(s.take(i + 1).drop_last() =~= s.take(i));
    } else {
        assert(s.take(i) =~= s);
    }
}

/// Summarizes a recording's events: counts by display name (in order of
/// first appearance), the number of each kind the summary tracks, and the
/// milliseconds spent in garbage collection and in blocked threads.
pub fn summarize(events: &[JfrEvent], header: &JfrHeader) -> (r: JfrSummary)
    requires
        summary_fits(events@),
    ensures
        r.duration_nanos == header.duration,
        count_views(r.event_counts@) == tally(event_names(events@)),
        r.total_events == events@.len(),
        r.top_cpu_hotspots@.len() == 0,
        r.gc_count == count_where(events@, |e: EventType| is_gc(e)),
        r.total_gc_duration_ms == millis_where(events@, |e: EventType| is_gc(e)),
        r.file_io_count == count_where(events@, |e: EventType| is_file_io(e)),
        r.total_file_bytes == 0,
        r.thread_block_count == count_where(events@, |e: EventType| is_block(e)),
        r.total_block_duration_ms == millis_where(events@, |e: EventType| is_block(e)),
        r.mem_alloc_count == count_where(events@, |e: EventType| is_alloc(e)),
        r.total_alloc_bytes == 0,
{
    let ghost s = events@;
    let ghost fg = |e: EventType| is_gc(e);
    let ghost ff = |e: EventType| is_file_io(e);
    let ghost fb = |e: EventType| is_block(e);
    let ghost fa = |e: EventType| is_alloc(e);
    let mut names: Vec<String> = Vec::new();
    let mut gc_count: usize = 0;
    let mut gc_ms: u64 = 0;
    let mut file_io_count: usize = 0;
    let mut block_count: usize = 0;
    let mut block_ms: u64 = 0;
    let mut alloc_count: usize = 0;
    let mut i: usize = 0;
    while i < events.len()
        invariant
            s == events@,
            i <= s.len(),
            summary_fits(s),
            names@.len() == i,
            forall|j: int| 0 <= j < i ==> #[trigger] names@[j]@ == display_name_of(s[j].event_type),
            gc_count == count_where(s.take(i as int), fg),
            gc_ms == millis_where(s.take(i as int), fg),
            file_io_count == count_where(s.take(i as int), ff),
            block_count == count_where(s.take(i as int), fb),
            block_ms == millis_where(s.take(i as int), fb),
            alloc_count == count_where(s.take(i as int), fa),
            gc_count <= i && file_io_count <= i && block_count <= i && alloc_count <= i,
            fg == (|e: EventType| is_gc(e)),
            ff == (|e: EventType| is_file_io(e)),
            fb == (|e: EventType| is_block(e)),
            fa == (|e: EventType| is_alloc(e)),
        decreases s.len() - i,
    {
        let ghost t = s.take(i + 1);
        assert(t.drop_last() =~= s.take(i as int));
        assert(t.last() == s[i as int]);
        proof {
            lemma_millis_prefix(s, fg, i + 1);
            lemma_millis_prefix(s, fb, i + 1);
        }
        let ev = &events[i];
        names.push(owned(ev.event_type.display_name()));
        match ev.event_type {
            EventType::GcEvent => {
                gc_count += 1;
                gc_ms += ev.duration / 1_000_000;
            },
            EventType::FileRead | EventType::FileWrite => {
                file_io_count += 1;
            },
            EventType::ThreadBlock => {
                block_count += 1;
                block_ms += ev.duration / 1_000_000;
            },
            EventType::MemAlloc => {
                alloc_count += 1;
            },
            _ => {},
        }
        i += 1;
    }
    assert(s.take(s.len() as int) =~= s);
    assert(names@.map_values(|x: String| x@) =~= event_names(s));
    let event_counts = tally_strings(&names);
    JfrSummary {
        duration_nanos: header.duration,
        event_counts,
        total_events: events.len(),
        top_cpu_hotspots: Vec::new(),
        gc_count,
        total_gc_duration_ms: gc_ms,
        file_io_count,
        total_file_bytes: 0,
        thread_block_count: block_count,
        total_block_duration_ms: block_ms,
        mem_alloc_count: alloc_count,
        total_alloc_bytes: 0,
    }
}

/// The event types that `jcmd <pid> JFR.events` lists: its lines, trimmed,
/// leaving out empty lines and those that begin with `#`.
pub open spec fn event_type_names(ls: Seq<Seq<char>>) -> Seq<Seq<char>>
    decreases ls.len(),
{
    if ls.len() == 0 {
        Seq::empty()
    } else {
        let l = ls.last();
        event_type_names(ls.drop_last()) + if l.len() > 0 && l[0] == '#' || trim(l).len() == 0 {
            Seq::<Seq<char>>::empty()
        } else {
            seq![trim(l)]
        }
    }
}

/// The event types in the output of `jcmd <pid> JFR.events`.
pub fn event_types_from_output(output: &str) -> (r: Vec<String>)
    ensures
        views(r@) == event_type_names(lines(output@)),
{
    let ls = str_lines(output);
    let ghost s = views(ls@);
    let mut out: Vec<String> = Vec::new();
    let mut i: usize = 0;
    assert(s.take(0) =~= Seq::<Seq<char>>::empty());
    while i < ls.len()
        invariant
            i <= ls@.len(),
            s == views(ls@),
            s == lines(output@),
            views(out@) == event_type_names(s.take(i as int)),
        decreases ls@.len() - i,
    {
        assert(s.take(i + 1).drop_last() =~= s.take(i as int));
        assert(s.take(i + 1).last() == s[i as int]);
        let l = ls[i].as_str();
        let t = str_trim(l);
        let comment = str_starts_with(l, "#");
        proof {
            reveal_strlit("#");
            if s[i as int].len() > 0 && s[i as int][0] == '#' {
                assert(s[i as int].subrange(0, 1) =~= "#"@);
            }
            if comment {
                assert(s[i as int].subrange(0, 1)[0] == s[i as int][0]);
                assert("#"@[0] == '#');
            }
        }
        if !comment && !crate::text::str_is_empty(t.as_str()) {
            let ghost o0 = views(out@);
            out.push(t);
            assert(views(out@) =~= o0.push(trim(s[i as int])));
        }
        i += 1;
    }
    assert(s.take(i as int) =~= s);
    out
}

} // verus!
