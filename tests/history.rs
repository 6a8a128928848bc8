use mqtt_nexus::history::{
    clamp_limit, deleting_path, direction_to_int, export_file_name, export_format, export_header,
    export_line, record_from_row, ExportFormat, HistoryLog,
};
use mqtt_nexus::models::{HistoryMessageRecord, MessageDirection, MqttBatchItem};
use mqtt_nexus::strings::escape_csv;

fn item(topic: &str, payload: &str, qos: u8, ts: u64) -> MqttBatchItem {
    MqttBatchItem {
        topic: topic.to_string(),
        payload: payload.to_string(),
        qos,
        retain: false,
        direction: MessageDirection::In,
        timestamp: ts,
    }
}

fn keys(rows: &[HistoryMessageRecord]) -> Vec<(u64, i64)> {
    rows.iter().map(|r| (r.timestamp, r.id)).collect()
}

fn parse_csv_field(line: &str) -> (String, usize) {
    let chars: Vec<char> = line.chars().collect();
    assert_eq!(chars[0], '"');
    let mut out = String::new();
    let mut i = 1;
    loop {
        if chars[i] == '"' {
            if i + 1 < chars.len() && chars[i + 1] == '"' {
                out.push('"');
                i += 2;
            } else {
                return (out, i + 1);
            }
        } else {
            out.push(chars[i]);
            i += 1;
        }
    }
}

#[test]
fn same_millisecond_batch_pages_by_id() {
    let mut log = HistoryLog::new();
    log.append(&vec![item("a/b", "1", 0, 1000), item("a/b", "2", 1, 1000)]);
    let latest = log.query_latest(10);
    assert_eq!(latest.len(), 2);
    assert_eq!(latest[0].id, 1);
    assert_eq!(latest[0].payload, "1");
    assert_eq!(latest[0].qos, 0);
    assert_eq!(latest[1].id, 2);
    assert_eq!(latest[1].payload, "2");
    assert_eq!(latest[1].qos, 1);
    let before = log.query_before(1000, 2, 10);
    assert_eq!(before.len(), 1);
    assert_eq!(before[0].id, 1);
    assert_eq!(before[0].topic, "a/b");
}

#[test]
fn append_then_latest_returns_the_batch() {
    let mut log = HistoryLog::new();
    let batch: Vec<MqttBatchItem> =
        (0..30).map(|i| item("t", &format!("p{i}"), (i % 3) as u8, 500 + i as u64)).collect();
    log.append(&batch);
    let rows = log.query_latest(1000);
    assert_eq!(rows.len(), 30);
    for (i, r) in rows.iter().enumerate() {
        assert_eq!(r.id, i as i64 + 1);
        assert_eq!(r.payload, format!("p{i}"));
        assert_eq!(r.timestamp, 500 + i as u64);
        assert_eq!(r.qos, (i % 3) as u8);
    }
}

#[test]
fn out_of_order_timestamps_come_back_sorted() {
    let mut log = HistoryLog::new();
    log.append(&vec![item("t", "late", 0, 300), item("t", "early", 0, 100), item("t", "mid", 0, 200)]);
    let rows = log.query_latest(10);
    assert_eq!(keys(&rows), vec![(100, 2), (200, 3), (300, 1)]);
    assert_eq!(rows[0].payload, "early");
}

#[test]
fn latest_keeps_only_the_newest() {
    let mut log = HistoryLog::new();
    let batch: Vec<MqttBatchItem> = (0..10).map(|i| item("t", "x", 0, i)).collect();
    log.append(&batch);
    let rows = log.query_latest(3);
    assert_eq!(keys(&rows), vec![(7, 8), (8, 9), (9, 10)]);
}

#[test]
fn limits_are_clamped() {
    assert_eq!(clamp_limit(0), 1);
    assert_eq!(clamp_limit(1), 1);
    assert_eq!(clamp_limit(200), 200);
    assert_eq!(clamp_limit(5000), 1000);
    let mut log = HistoryLog::new();
    let batch: Vec<MqttBatchItem> = (0..1200).map(|i| item("t", "x", 0, i)).collect();
    log.append(&batch);
    assert_eq!(log.query_latest(0).len(), 1);
    assert_eq!(log.query_latest(0)[0].id, 1200);
    assert_eq!(log.query_latest(usize::MAX).len(), 1000);
}

#[test]
fn paging_covers_every_record_once() {
    let mut log = HistoryLog::new();
    let batch: Vec<MqttBatchItem> = (0..47).map(|i| item("t", "x", 0, 1000 + (i / 4) as u64)).collect();
    log.append(&batch);
    let mut seen: Vec<(u64, i64)> = Vec::new();
    let mut page = log.query_latest(7);
    let mut cursor;
    loop {
        seen.extend(keys(&page));
        if page.is_empty() {
            break;
        }
        cursor = (page[0].timestamp, page[0].id);
        page = log.query_before(cursor.0, cursor.1, 7);
        for r in &page {
            assert!((r.timestamp, r.id) < cursor);
        }
    }
    seen.sort();
    let mut expected: Vec<(u64, i64)> = (0..47).map(|i| (1000 + (i / 4) as u64, i as i64 + 1)).collect();
    expected.sort();
    assert_eq!(seen, expected);
}

#[test]
fn query_on_empty_log_is_empty() {
    let log = HistoryLog::new();
    assert!(log.query_latest(10).is_empty());
    assert!(log.query_before(u64::MAX, i64::MAX, 10).is_empty());
}

#[test]
fn clear_then_append_behaves_as_new() {
    let mut used = HistoryLog::new();
    used.append(&vec![item("t", "old", 0, 5), item("t", "old2", 0, 6)]);
    used.clear();
    assert_eq!(used.len(), 0);
    let mut fresh = HistoryLog::new();
    let batch = vec![item("n", "a", 1, 9), item("n", "b", 2, 10)];
    used.append(&batch);
    fresh.append(&batch);
    let a = used.query_latest(100);
    let b = fresh.query_latest(100);
    assert_eq!(keys(&a), keys(&b));
    assert_eq!(a[0].id, 1);
    assert!(a.iter().all(|r| r.payload != "old" && r.payload != "old2"));
}

#[test]
fn export_counts_rows_within_bounds() {
    let mut log = HistoryLog::new();
    let batch: Vec<MqttBatchItem> = (0..10).map(|i| item("t", "x", 0, 100 * i)).collect();
    log.append(&batch);
    let (doc, count) = log.export_rows(ExportFormat::Ndjson, Some(200), Some(500));
    assert_eq!(count, 4);
    assert_eq!(doc.lines().count(), 4);
    let (_, all) = log.export_rows(ExportFormat::Csv, None, None);
    assert_eq!(all, 10);
    let (csv, from_only) = log.export_rows(ExportFormat::Csv, Some(850), None);
    assert_eq!(from_only, 1);
    assert_eq!(csv.lines().count(), 2);
}

#[test]
fn export_rows_formats() {
    let mut log = HistoryLog::new();
    log.append(&vec![item("a/b", "1", 0, 1000)]);
    let (nd, n) = log.export_rows(ExportFormat::Ndjson, None, None);
    assert_eq!(n, 1);
    assert_eq!(
        nd,
        "{\"id\":1,\"timestamp\":1000,\"topic\":\"a/b\",\"payload\":\"1\",\"qos\":0,\"retain\":false,\"direction\":\"in\"}\n"
    );
    let (csv, _) = log.export_rows(ExportFormat::Csv, None, None);
    assert_eq!(
        csv,
        "id,timestamp,topic,payload,qos,retain,direction\n\"1\",\"1000\",\"a/b\",\"1\",\"0\",\"0\",\"in\"\n"
    );
}

#[test]
fn csv_keeps_quotes_and_commas() {
    let payload = "say \"hi\", then leave";
    let escaped = escape_csv(payload);
    assert_eq!(escaped, "\"say \"\"hi\"\", then leave\"");
    let mut log = HistoryLog::new();
    let mut it = item("x,y", payload, 2, 7);
    it.retain = true;
    it.direction = MessageDirection::Out;
    log.append(&vec![it]);
    let (csv, _) = log.export_rows(ExportFormat::Csv, None, None);
    let row = csv.lines().nth(1).unwrap();
    let mut rest = row;
    let mut fields = Vec::new();
    loop {
        let (v, used) = parse_csv_field(rest);
        fields.push(v);
        rest = &rest[used..];
        if rest.is_empty() {
            break;
        }
        rest = &rest[1..];
    }
    assert_eq!(fields, vec!["1", "7", "x,y", payload, "2", "1", "out"]);
}

#[test]
fn ndjson_escapes_strings() {
    let mut log = HistoryLog::new();
    log.append(&vec![item("q", "a\"b\\c\n", 0, 1)]);
    let (nd, _) = log.export_rows(ExportFormat::Ndjson, None, None);
    let value: serde_json::Value = serde_json::from_str(nd.trim_end()).unwrap();
    assert_eq!(value["payload"], "a\"b\\c\n");
    assert_eq!(value["id"], 1);
}

#[test]
fn format_names() {
    assert_eq!(export_format("csv"), ExportFormat::Csv);
    assert_eq!(export_format("CsV"), ExportFormat::Csv);
    assert_eq!(export_format("ndjson"), ExportFormat::Ndjson);
    assert_eq!(export_format("xlsx"), ExportFormat::Ndjson);
    assert_eq!(ExportFormat::Csv.extension(), "csv");
    assert_eq!(ExportFormat::Ndjson.extension(), "ndjson");
}

#[test]
fn stamped_rows_and_reload() {
    let mut log = HistoryLog::new();
    log.append(&vec![item("t", "a", 0, 10)]);
    let batch = vec![item("t", "b", 0, 20), item("t", "c", 0, 15)];
    let stamped = log.stamped(&batch);
    assert_eq!(stamped.iter().map(|r| r.id).collect::<Vec<_>>(), vec![2, 3]);
    log.append(&batch);
    let rows = log.query_latest(100);
    let reloaded = HistoryLog::from_rows(rows).unwrap();
    assert_eq!(reloaded.len(), 3);
    let mut again = reloaded;
    again.append(&vec![item("t", "d", 0, 30)]);
    assert_eq!(again.query_latest(1)[0].id, 4);
}

#[test]
fn from_rows_rejects_disorder() {
    let rec = |id: i64, ts: u64| record_from_row(id, ts as i64, "t".into(), "p".into(), 0, 0, 0);
    assert!(HistoryLog::from_rows(vec![rec(2, 5), rec(1, 5)]).is_none());
    assert!(HistoryLog::from_rows(vec![rec(0, 5)]).is_none());
    assert!(HistoryLog::from_rows(vec![rec(1, 5), rec(2, 5)]).is_some());
    assert!(HistoryLog::from_rows(Vec::new()).is_some());
}

#[test]
fn row_conversion() {
    let r = record_from_row(7, 1234, "t".into(), "p".into(), 2, 1, 1);
    assert_eq!(r.id, 7);
    assert_eq!(r.timestamp, 1234);
    assert_eq!(r.qos, 2);
    assert!(r.retain);
    assert_eq!(r.direction, MessageDirection::Out);
    let s = record_from_row(8, 1, "t".into(), "p".into(), 0, 0, 0);
    assert!(!s.retain);
    assert_eq!(s.direction, MessageDirection::In);
    assert_eq!(direction_to_int(MessageDirection::Out), 1);
    assert_eq!(direction_to_int(MessageDirection::In), 0);
}

#[test]
fn file_names() {
    assert_eq!(export_file_name("dev/1 a", 42, ExportFormat::Csv), "dev_1_a-history-42.csv");
    assert_eq!(export_file_name("", 7, ExportFormat::Ndjson), "connection-history-7.ndjson");
    assert_eq!(deleting_path("/x/c.db", 99), "/x/c.db.deleting.99");
}

#[test]
fn leftover_files_are_recognised() {
    assert!(mqtt_nexus::history::is_deleting_leftover("c.db.deleting.123"));
    assert!(mqtt_nexus::history::is_deleting_leftover(".deleting."));
    assert!(!mqtt_nexus::history::is_deleting_leftover("c.db"));
    assert!(!mqtt_nexus::history::is_deleting_leftover("c.deleting"));
    assert!(!mqtt_nexus::history::is_deleting_leftover(""));
}

#[test]
fn ndjson_escapes_control_characters() {
    let mut log = HistoryLog::new();
    log.append(&vec![item("t", "a\u{1}\u{8}\t\u{1f}é", 0, 1)]);
    let (nd, _) = log.export_rows(ExportFormat::Ndjson, None, None);
    assert!(nd.contains("\"payload\":\"a\\u0001\\b\\t\\u001fé\""));
}

#[test]
fn export_line_by_line_matches_document() {
    let mut log = HistoryLog::new();
    log.append(&vec![item("a", "x\"y", 1, 5), item("b", "z", 2, 6)]);
    for fmt in [ExportFormat::Csv, ExportFormat::Ndjson] {
        let rows = log.query_latest(10);
        let mut streamed = export_header(fmt);
        for r in &rows {
            streamed.push_str(&export_line(fmt, r));
        }
        let (whole, count) = log.export_rows(fmt, None, None);
        assert_eq!(streamed, whole);
        assert_eq!(count, 2);
    }
}
