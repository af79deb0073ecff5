use nats_cli_monitor::model::{AccountDetail, ConsumerDetail, Jsz, StreamDetail, Varz};
use nats_cli_monitor::monitor::App;
use nats_cli_monitor::view::{
    connection_lines, consumer_rows, footer_status, header_fields, jetstream_lines, stat_line,
    throughput_lines, StatLine, Tone,
};
use nats_cli_monitor::view::{
    consumer_panel, consumer_table_header, footer_line, header_line, panel_border, panel_title,
    ConsumerPanel,
    Panel, Piece,
};


fn check(line: &Option<StatLine>, label: &str, value: &str, tone: Tone) {
    let l = line.as_ref().expect("a statistics line");
    assert_eq!(l.label.text, format!("  {label:<16}"));
    assert_eq!(l.label.tone, Some(Tone::Gray));
    assert!(!l.label.bold);
    assert_eq!(l.value.text, value);
    assert_eq!(l.value.tone, Some(tone));
    assert!(l.value.bold);
}

#[test]
fn stat_line_pads_label() {
    let l = stat_line("CPU", "1.2%".to_string(), Tone::Magenta);
    assert_eq!(l.label.text, "  CPU             ");
    assert_eq!(l.label.text.len(), 18);
    assert_eq!(l.value.text, "1.2%");
    assert_eq!(l.value.tone, Some(Tone::Magenta));
    let long = stat_line("A label longer than sixteen", "x".to_string(), Tone::Red);
    assert_eq!(long.label.text, "  A label longer than sixteen");
}

#[test]
fn header_uses_na_for_missing_fields() {
    let mut v = Varz::default();
    let (n, ver, up) = header_fields(&v);
    assert_eq!((n.as_str(), ver.as_str(), up.as_str()), ("N/A", "N/A", "N/A"));
    v.server_name = "my-server".to_string();
    v.version = "2.12.5".to_string();
    v.uptime = "2h30m".to_string();
    let (n, ver, up) = header_fields(&v);
    assert_eq!((n.as_str(), ver.as_str(), up.as_str()), ("my-server", "2.12.5", "2h30m"));
}

#[test]
fn throughput_column() {
    let mut v = Varz::default();
    v.in_msgs = 1234;
    v.out_msgs = 2345;
    v.in_bytes = 52_633_600;
    v.out_bytes = 126_667_571;
    let lines = throughput_lines(&v, "1.2%".to_string());
    assert_eq!(lines.len(), 7);
    check(&lines[0], "Messages In", "1,234", Tone::Green);
    check(&lines[1], "Messages Out", "2,345", Tone::Green);
    assert!(lines[2].is_none());
    check(&lines[3], "Bytes In", "50.2 MB", Tone::Blue);
    check(&lines[4], "Bytes Out", "120.8 MB", Tone::Blue);
    assert!(lines[5].is_none());
    check(&lines[6], "CPU", "1.2%", Tone::Magenta);
}

#[test]
fn connections_column() {
    let mut v = Varz::default();
    v.connections = 42;
    v.total_connections = 128;
    v.subscriptions = 15;
    v.mem = 25_165_824;
    let lines = connection_lines(&v);
    assert_eq!(lines.len(), 7);
    check(&lines[0], "Connections", "42", Tone::Cyan);
    check(&lines[1], "Total Conns", "128", Tone::Cyan);
    assert!(lines[2].is_none());
    check(&lines[3], "Subscriptions", "15", Tone::Yellow);
    check(&lines[4], "Slow Consumers", "0", Tone::Green);
    assert!(lines[5].is_none());
    check(&lines[6], "Memory", "24.0 MB", Tone::Magenta);
    v.slow_consumers = 2;
    v.mem = -1;
    let lines = connection_lines(&v);
    check(&lines[4], "Slow Consumers", "2", Tone::Red);
    check(&lines[6], "Memory", "16777216.0 TB", Tone::Magenta);
}

#[test]
fn jetstream_column() {
    let mut j = Jsz::default();
    j.streams = 3;
    j.consumers = 9;
    j.messages = 500;
    j.bytes = 2048;
    j.api.total = 4107;
    j.api.errors = 5;
    let lines = jetstream_lines(&j);
    assert_eq!(lines.len(), 8);
    check(&lines[0], "Streams", "3", Tone::Cyan);
    check(&lines[1], "Consumers", "9", Tone::Cyan);
    assert!(lines[2].is_none());
    check(&lines[3], "Stored Msgs", "500", Tone::Green);
    check(&lines[4], "Stored Bytes", "2.0 KB", Tone::Blue);
    assert!(lines[5].is_none());
    check(&lines[6], "API Total", "4,107", Tone::Yellow);
    check(&lines[7], "API Errors", "5", Tone::Red);
    j.api.errors = 0;
    check(&jetstream_lines(&j)[7], "API Errors", "0", Tone::Green);
}

fn consumer(name: &str, delivered: u64, ack: u64, pending: u64, redelivered: u64) -> ConsumerDetail {
    let mut c = ConsumerDetail::default();
    c.name = name.to_string();
    c.stream_name = "ignored".to_string();
    c.delivered.consumer_seq = delivered;
    c.num_ack_pending = ack;
    c.num_pending = pending;
    c.num_redelivered = redelivered;
    c
}

fn stream(name: &str, consumers: Vec<ConsumerDetail>) -> StreamDetail {
    let mut s = StreamDetail::default();
    s.name = name.to_string();
    s.consumer_detail = consumers;
    s
}

#[test]
fn consumer_table_flattens_accounts_and_streams() {
    let mut j = Jsz::default();
    j.account_details = vec![
        AccountDetail {
            stream_detail: vec![
                stream("JOBS", vec![consumer("email", 12, 0, 0, 0), consumer("health", 5000, 3, 0, 1)]),
                stream("EMPTY", vec![]),
            ],
        },
        AccountDetail { stream_detail: vec![] },
        AccountDetail { stream_detail: vec![stream("ORDERS", vec![consumer("prescr", 3, 0, 7, 0)])] },
    ];
    let rows = consumer_rows(&j);
    assert_eq!(rows.len(), 3);
    assert_eq!(rows[0].consumer.text, "email");
    assert_eq!(rows[0].consumer.tone, Some(Tone::White));
    assert_eq!(rows[0].stream.tone, Some(Tone::DarkGray));
    assert_eq!(rows[0].delivered.tone, Some(Tone::Green));
    assert_eq!(rows[0].stream.text, "JOBS");
    assert_eq!(rows[0].delivered.text, "12");
    assert_eq!(rows[0].ack_pending.tone, Some(Tone::Green));
    assert_eq!(rows[0].pending.tone, Some(Tone::Green));
    assert_eq!(rows[0].redelivered.tone, Some(Tone::Green));
    assert_eq!(rows[1].consumer.text, "health");
    assert_eq!(rows[1].delivered.text, "5,000");
    assert_eq!(rows[1].ack_pending.text, "3");
    assert_eq!(rows[1].ack_pending.tone, Some(Tone::Yellow));
    assert_eq!(rows[1].redelivered.text, "1");
    assert_eq!(rows[1].redelivered.tone, Some(Tone::Red));
    assert_eq!(rows[2].consumer.text, "prescr");
    assert_eq!(rows[2].stream.text, "ORDERS");
    assert_eq!(rows[2].pending.text, "7");
    assert_eq!(rows[2].pending.tone, Some(Tone::Yellow));
}

#[test]
fn consumer_table_empty() {
    assert!(consumer_rows(&Jsz::default()).is_empty());
}

#[test]
fn footer_shows_error_or_url() {
    let mut app = App::new("http://localhost:8222".to_string(), 1);
    let (text, is_error) = footer_status(&app);
    assert_eq!(text, "Polling http://localhost:8222");
    assert!(!is_error);
    app.set_error("Connection error: refused".to_string());
    let (text, is_error) = footer_status(&app);
    assert_eq!(text, "ERROR: Connection error: refused");
    assert!(is_error);
}

fn piece_eq(p: &Piece, text: &str, tone: Option<Tone>, bold: bool) {
    assert_eq!(p.text, text);
    assert_eq!(p.tone, tone);
    assert_eq!(p.bold, bold);
}

#[test]
fn header_line_pieces() {
    let mut v = Varz::default();
    v.server_name = "my-server".to_string();
    v.uptime = "2h30m".to_string();
    let line = header_line(&v);
    assert_eq!(line.len(), 7);
    piece_eq(&line[0], " NATS Monitor ", Some(Tone::Cyan), true);
    piece_eq(&line[1], "│ ", None, false);
    piece_eq(&line[2], "my-server", Some(Tone::Green), false);
    piece_eq(&line[3], " (v", None, false);
    piece_eq(&line[4], "N/A", Some(Tone::Yellow), false);
    piece_eq(&line[5], ") │ Uptime: ", None, false);
    piece_eq(&line[6], "2h30m", Some(Tone::White), false);
}

#[test]
fn footer_line_pieces() {
    let mut app = App::new("http://h:1".to_string(), 1);
    let line = footer_line(&app);
    assert_eq!(line.len(), 3);
    piece_eq(&line[0], " (q) Quit ", Some(Tone::DarkGray), false);
    piece_eq(&line[1], "│ ", None, false);
    piece_eq(&line[2], "Polling http://h:1", Some(Tone::DarkGray), false);
    app.set_error("jsz parse error: eof".to_string());
    piece_eq(&footer_line(&app)[2], "ERROR: jsz parse error: eof", Some(Tone::Red), true);
}

#[test]
fn panel_titles_and_table_header() {
    assert_eq!(panel_title(Panel::Throughput), " Throughput ");
    assert_eq!(panel_title(Panel::Connections), " Connections ");
    assert_eq!(panel_title(Panel::JetStream), " JetStream ");
    assert_eq!(panel_title(Panel::Consumers), " Consumers ");
    assert_eq!(panel_title(Panel::ConnectionsChart), " Connections (60s) ");
    assert_eq!(panel_title(Panel::RateChart), " Messages/sec (60s) ");
    let names = ["Consumer", "Stream", "Delivered", "Ack Pend", "Pending", "Redlvr"];
    let header = consumer_table_header();
    assert_eq!(header.len(), 6);
    for (p, name) in header.iter().zip(names) {
        piece_eq(p, name, Some(Tone::Cyan), true);
    }
    assert_eq!(panel_title(Panel::Header), "");
    assert_eq!(panel_border(Panel::Header), Tone::Cyan);
    assert_eq!(panel_border(Panel::Throughput), Tone::Blue);
    assert_eq!(panel_border(Panel::Connections), Tone::Yellow);
    assert_eq!(panel_border(Panel::JetStream), Tone::Magenta);
    assert_eq!(panel_border(Panel::Consumers), Tone::Green);
    assert_eq!(panel_border(Panel::ConnectionsChart), Tone::Cyan);
    assert_eq!(panel_border(Panel::RateChart), Tone::Green);
}

#[test]
fn consumer_panel_empty_or_table() {
    match consumer_panel(&Jsz::default()) {
        ConsumerPanel::Empty(p) => piece_eq(&p, "  No consumers found", Some(Tone::DarkGray), false),
        ConsumerPanel::Table(_) => panic!("expected the empty panel"),
    }
    let mut j = Jsz::default();
    j.account_details = vec![AccountDetail {
        stream_detail: vec![stream("S", vec![consumer("c", 1, 0, 0, 0)])],
    }];
    match consumer_panel(&j) {
        ConsumerPanel::Table(rows) => assert_eq!(rows.len(), 1),
        ConsumerPanel::Empty(_) => panic!("expected the table"),
    }
}
