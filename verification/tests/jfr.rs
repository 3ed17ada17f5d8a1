use jex_core::jfr::{
    extract_event_from_record, jfr_data_decodable, parse_jfr_data, parse_jfr_events, parse_jfr_header,
    read_varint, summarize, EventType, JfrEvent, JfrHeader,
};

fn encode_varint(mut val: u64) -> Vec<u8> {
    let mut buf = Vec::new();
    loop {
        let mut byte = (val & 0x7F) as u8;
        val >>= 7;
        if val > 0 {
            byte |= 0x80;
        }
        buf.push(byte);
        if val == 0 {
            break;
        }
    }
    buf
}

fn build_event_record(event_type_id: u64, ts_delta: u64, dur: u64) -> Vec<u8> {
    let et_bytes = encode_varint(event_type_id);
    let ts_bytes = encode_varint(ts_delta);
    let dur_bytes = encode_varint(dur);
    let payload_len = et_bytes.len() + ts_bytes.len() + dur_bytes.len();
    let min_size = payload_len.max(10);
    let total = 1 + 4 + min_size;
    let mut record = vec![0u8; total];
    record[0] = 0x30;
    let size = total as u32;
    record[1..5].copy_from_slice(&size.to_be_bytes());
    let mut pos = 5;
    for b in et_bytes.iter().chain(ts_bytes.iter()).chain(dur_bytes.iter()) {
        record[pos] = *b;
        pos += 1;
    }
    record
}

fn header(start_time: u64) -> JfrHeader {
    JfrHeader { major_version: 2, minor_version: 0, chunk_size: 0, start_time, duration: 0 }
}

fn event_of(id: u64) -> EventType {
    let record = build_event_record(id, 0, 0);
    extract_event_from_record(&record, &header(0)).unwrap().event_type
}

#[test]
fn test_event_type_mapping() {
    assert_eq!(EventType::from_jfr_name("jdk.ExecutionSample"), EventType::CpuSampling);
    assert_eq!(EventType::from_jfr_name("jdk.GarbageCollection"), EventType::GcEvent);
    assert_eq!(EventType::from_jfr_name("jdk.FileRead"), EventType::FileRead);
    assert_eq!(EventType::from_jfr_name("jdk.ThreadLock"), EventType::ThreadBlock);
    assert_eq!(EventType::from_jfr_name("jdk.ObjectAllocationInNewTLAB"), EventType::MemAlloc);
}

#[test]
fn test_event_type_from_jfr_name_all_variants() {
    assert_eq!(EventType::from_jfr_name("jdk.NativeMethodSample"), EventType::CpuSampling);
    assert_eq!(EventType::from_jfr_name("jdk.GCHeapSummary"), EventType::GcEvent);
    assert_eq!(EventType::from_jfr_name("jdk.GCPhasePause"), EventType::GcEvent);
    assert_eq!(EventType::from_jfr_name("jdk.FileWrite"), EventType::FileWrite);
    assert_eq!(EventType::from_jfr_name("jdk.SocketRead"), EventType::SocketRead);
    assert_eq!(EventType::from_jfr_name("jdk.SocketWrite"), EventType::SocketWrite);
    assert_eq!(EventType::from_jfr_name("jdk.JavaMonitorWait"), EventType::ThreadBlock);
    assert_eq!(EventType::from_jfr_name("jdk.ObjectAllocationOutsideTLAB"), EventType::MemAlloc);
    assert_eq!(EventType::from_jfr_name("jdk.AllocationRequiringGC"), EventType::MemAlloc);
    match EventType::from_jfr_name("jdk.CustomEvent") {
        EventType::Unknown(s) => assert_eq!(s, "jdk.CustomEvent"),
        _ => panic!("Expected Unknown variant"),
    }
}

#[test]
fn test_display_name_all_variants() {
    assert_eq!(EventType::CpuSampling.display_name(), "CPU 采样");
    assert_eq!(EventType::GcEvent.display_name(), "GC 事件");
    assert_eq!(EventType::FileRead.display_name(), "文件读取");
    assert_eq!(EventType::FileWrite.display_name(), "文件写入");
    assert_eq!(EventType::SocketRead.display_name(), "网络读取");
    assert_eq!(EventType::SocketWrite.display_name(), "网络写入");
    assert_eq!(EventType::ThreadBlock.display_name(), "线程阻塞");
    assert_eq!(EventType::MemAlloc.display_name(), "内存分配");
    assert_eq!(EventType::Unknown("x".into()).display_name(), "其他");
}

#[test]
fn test_read_varint() {
    let data = [0x05];
    let mut pos = 0;
    assert_eq!(read_varint(&data, &mut pos), Some(5));
    assert_eq!(pos, 1);

    let data = [0x80, 0x01];
    let mut pos = 0;
    assert_eq!(read_varint(&data, &mut pos), Some(128));
    assert_eq!(pos, 2);

    let data: [u8; 0] = [];
    let mut pos = 0;
    assert_eq!(read_varint(&data, &mut pos), None);
}

#[test]
fn test_read_varint_multi_byte() {
    let data = [0x80, 0x80, 0x01];
    let mut pos = 0;
    assert_eq!(read_varint(&data, &mut pos), Some(16384));
    assert_eq!(pos, 3);
}

#[test]
fn read_varint_truncated_stops_at_end() {
    let data = [0x80, 0x80];
    let mut pos = 0;
    assert_eq!(read_varint(&data, &mut pos), None);
    assert_eq!(pos, 2);
}

#[test]
fn test_parse_jfr_header_invalid() {
    let data = vec![0u8; 10];
    assert!(parse_jfr_header(&data).is_err());
}

#[test]
fn test_parse_jfr_header_valid() {
    let mut data = vec![0u8; 100];
    data[4..6].copy_from_slice(&3u16.to_be_bytes());
    data[6..8].copy_from_slice(&1u16.to_be_bytes());
    data[8..16].copy_from_slice(&512u64.to_be_bytes());
    data[16..24].copy_from_slice(&999u64.to_be_bytes());
    data[24..32].copy_from_slice(&2000u64.to_be_bytes());
    let header = parse_jfr_header(&data).unwrap();
    assert_eq!(header.major_version, 3);
    assert_eq!(header.minor_version, 1);
    assert_eq!(header.chunk_size, 512);
    assert_eq!(header.start_time, 999);
    assert_eq!(header.duration, 2000);
}

#[test]
fn test_parse_jfr_too_small() {
    let result = parse_jfr_data(&vec![0u8; 10]);
    assert!(result.is_err());
    assert!(result.unwrap_err().message().contains("太小"));
}

#[test]
fn test_parse_jfr_bad_magic() {
    let mut data = vec![0u8; 68];
    data[0..4].copy_from_slice(b"TEST");
    let result = parse_jfr_data(&data);
    assert!(result.is_err());
    assert!(result.unwrap_err().message().contains("magic"));
}

#[test]
fn test_parse_jfr_valid_no_events() {
    let mut data = vec![0u8; 100];
    data[0..4].copy_from_slice(b"FLR\0");
    data[4..6].copy_from_slice(&2u16.to_be_bytes());
    data[6..8].copy_from_slice(&0u16.to_be_bytes());
    data[8..16].copy_from_slice(&100u64.to_be_bytes());
    data[16..24].copy_from_slice(&1000u64.to_be_bytes());
    data[24..32].copy_from_slice(&5000u64.to_be_bytes());
    assert!(jfr_data_decodable(&data));
    let (header, events) = parse_jfr_data(&data).unwrap();
    assert_eq!(header.major_version, 2);
    assert_eq!(header.start_time, 1000);
    assert!(events.is_empty());
}

#[test]
fn parse_jfr_data_decodes_an_event() {
    let mut data = vec![0u8; 68];
    data[0..4].copy_from_slice(b"FLR\0");
    data[16..24].copy_from_slice(&1000u64.to_be_bytes());
    data.extend(build_event_record(160, 7, 3));
    assert!(jfr_data_decodable(&data));
    let (_, events) = parse_jfr_data(&data).unwrap();
    assert_eq!(events.len(), 1);
    assert_eq!(events[0].event_type, EventType::GcEvent);
    assert_eq!(events[0].timestamp, 1007);
    assert_eq!(events[0].duration, 3);
}

#[test]
fn test_parse_jfr_events_empty_data() {
    let header = JfrHeader { major_version: 2, minor_version: 0, chunk_size: 1024, start_time: 0, duration: 0 };
    let data = vec![0u8; 68];
    let events = parse_jfr_events(&data, &header).unwrap();
    assert!(events.is_empty());
}

#[test]
fn test_extract_event_too_short() {
    let record = vec![0u8; 5];
    assert!(extract_event_from_record(&record, &header(0)).is_none());
}

#[test]
fn test_extract_event_non_event_record() {
    let record = vec![0x10u8; 20];
    assert!(extract_event_from_record(&record, &header(0)).is_none());
}

#[test]
fn test_extract_event_valid() {
    let record = build_event_record(101, 10, 5);
    let event = extract_event_from_record(&record, &header(1000)).unwrap();
    assert_eq!(event.event_type, EventType::CpuSampling);
    assert_eq!(event.timestamp, 1010);
    assert_eq!(event.duration, 5);
}

#[test]
fn test_extract_event_gc() {
    assert_eq!(event_of(160), EventType::GcEvent);
}

#[test]
fn test_extract_event_file_read() {
    assert_eq!(event_of(110), EventType::FileRead);
}

#[test]
fn test_extract_event_file_write() {
    assert_eq!(event_of(111), EventType::FileWrite);
}

#[test]
fn test_extract_event_socket_read() {
    assert_eq!(event_of(120), EventType::SocketRead);
}

#[test]
fn test_extract_event_socket_write() {
    assert_eq!(event_of(121), EventType::SocketWrite);
}

#[test]
fn test_extract_event_thread_block() {
    assert_eq!(event_of(130), EventType::ThreadBlock);
}

#[test]
fn test_extract_event_mem_alloc() {
    assert_eq!(event_of(140), EventType::MemAlloc);
}

#[test]
fn test_extract_event_unknown() {
    let record = build_event_record(999, 0, 0);
    let event = extract_event_from_record(&record, &header(0)).unwrap();
    match event.event_type {
        EventType::Unknown(s) => assert_eq!(s, "id:999"),
        _ => panic!("Expected Unknown"),
    }
    assert!(event.details.contains("999"));
}

#[test]
fn test_event_type_clone_and_eq() {
    let e1 = EventType::CpuSampling;
    let e2 = e1.clone();
    assert_eq!(e1, e2);
    let e3 = EventType::Unknown("test".into());
    let e4 = e3.clone();
    assert_eq!(e3, e4);
}

#[test]
fn test_jfr_event_debug() {
    let event = JfrEvent {
        timestamp: 100,
        event_type: EventType::GcEvent,
        duration: 50,
        thread: Some("main".into()),
        details: "test".into(),
    };
    let debug = format!("{:?}", event);
    assert!(debug.contains("GcEvent"));
}

fn ev(event_type: EventType, duration: u64) -> JfrEvent {
    JfrEvent { timestamp: 0, event_type, duration, thread: None, details: String::new() }
}

#[test]
fn test_summarize_empty() {
    let header = JfrHeader { major_version: 2, minor_version: 0, chunk_size: 1024, start_time: 0, duration: 10_000_000_000 };
    let summary = summarize(&[], &header);
    assert_eq!(summary.total_events, 0);
    assert_eq!(summary.duration_nanos, 10_000_000_000);
}

#[test]
fn test_summarize_duration_zero() {
    let header = JfrHeader { major_version: 2, minor_version: 0, chunk_size: 1024, start_time: 0, duration: 0 };
    let summary = summarize(&[], &header);
    assert_eq!(summary.duration_nanos, 0);
}

#[test]
fn test_summarize_with_events() {
    let header = JfrHeader { major_version: 2, minor_version: 0, chunk_size: 1024, start_time: 0, duration: 5_000_000_000 };
    let events = vec![
        ev(EventType::GcEvent, 10_000_000),
        ev(EventType::FileRead, 0),
        ev(EventType::ThreadBlock, 5_000_000),
        ev(EventType::MemAlloc, 0),
        ev(EventType::FileWrite, 0),
        ev(EventType::CpuSampling, 0),
    ];
    let summary = summarize(&events, &header);
    assert_eq!(summary.total_events, 6);
    assert_eq!(summary.gc_count, 1);
    assert_eq!(summary.total_gc_duration_ms, 10);
    assert_eq!(summary.file_io_count, 2);
    assert_eq!(summary.thread_block_count, 1);
    assert_eq!(summary.total_block_duration_ms, 5);
    assert_eq!(summary.mem_alloc_count, 1);
    assert_eq!(summary.duration_nanos, 5_000_000_000);
}

#[test]
fn summarize_counts_by_display_name() {
    let header = JfrHeader { major_version: 2, minor_version: 0, chunk_size: 0, start_time: 0, duration: 0 };
    let events = vec![
        ev(EventType::GcEvent, 1_999_999),
        ev(EventType::CpuSampling, 0),
        ev(EventType::GcEvent, 2_500_000),
        ev(EventType::Unknown("a".into()), 0),
        ev(EventType::Unknown("b".into()), 0),
    ];
    let summary = summarize(&events, &header);
    assert_eq!(
        summary.event_counts,
        vec![("GC 事件".to_string(), 2), ("CPU 采样".to_string(), 1), ("其他".to_string(), 2)]
    );
    assert_eq!(summary.total_gc_duration_ms, 3);
    assert!(summary.top_cpu_hotspots.is_empty());
}

#[test]
fn summary_fits_checks_millisecond_totals() {
    let ok = vec![ev(EventType::GcEvent, 5_000_000), ev(EventType::ThreadBlock, 7_000_000)];
    assert!(jex_core::jfr::summary_fits_exec(&ok));
    let big = vec![ev(EventType::GcEvent, u64::MAX), ev(EventType::GcEvent, u64::MAX), ev(EventType::GcEvent, u64::MAX)];
    assert!(jex_core::jfr::summary_fits_exec(&big));
}

#[test]
fn event_types_skip_comments_and_blank_lines() {
    let out = jex_core::jfr::event_types_from_output("# header\n  jdk.GarbageCollection \n\njdk.ThreadPark\n");
    assert_eq!(out, vec!["jdk.GarbageCollection".to_string(), "jdk.ThreadPark".to_string()]);
}
