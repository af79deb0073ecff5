//! The text the dashboard shows, and the colour of each figure: the header
//! fields, the three statistics columns, the consumer table and the footer.
//! Drawing it on the terminal is left to the caller.

use vstd::prelude::*;
use vstd::string::StringExecFns;
use crate::format::{format_bytes, format_number, spec_format_bytes, spec_format_number};
use crate::model::{ConsumerDetail, Jsz, StreamDetail, AccountDetail, Varz};
use crate::monitor::App;
use crate::text::{push_char, push_spaces, spaces};

verus! {

/// The colour a figure is drawn in.
#[derive(Clone, Copy, Debug, PartialEq, Eq, Structural)]
pub enum Tone {
    Green,
    Yellow,
    Red,
    Blue,
    Cyan,
    Magenta,
    White,
    Gray,
    DarkGray,
}

/// A run of text on one line: in `tone` (the terminal's own colour when
/// `None`), bold or not.
pub struct Piece {
    pub text: String,
    pub tone: Option<Tone>,
    pub bold: bool,
}

/// `p` is `text` in `tone`, bold when `bold`.
pub open spec fn piece_is(p: Piece, text: Seq<char>, tone: Option<Tone>, bold: bool) -> bool {
    p.text@ == text && p.tone == tone && p.bold == bold
}

fn piece(text: &str, tone: Option<Tone>, bold: bool) -> (p: Piece)
    ensures
        piece_is(p, text@, tone, bold),
{
    Piece { text: String::from_str(text), tone, bold }
}

/// The bordered panels of the dashboard.
#[derive(Clone, Copy, Debug, PartialEq, Eq, Structural)]
pub enum Panel {
    Header,
    Throughput,
    Connections,
    JetStream,
    Consumers,
    ConnectionsChart,
    RateChart,
}

/// The title drawn on the border of a panel (none on the header).
pub open spec fn title_of(panel: Panel) -> Seq<char> {
    match panel {
        Panel::Header => Seq::empty(),
        Panel::Throughput => " Throughput "@,
        Panel::Connections => " Connections "@,
        Panel::JetStream => " JetStream "@,
        Panel::Consumers => " Consumers "@,
        Panel::ConnectionsChart => " Connections (60s) "@,
        Panel::RateChart => " Messages/sec (60s) "@,
    }
}

/// The title of `panel`.
pub fn panel_title(panel: Panel) -> (t: String)
    ensures
        t@ == title_of(panel),
{
    match panel {
        Panel::Header => String::new(),
        Panel::Throughput => String::from_str(" Throughput "),
        Panel::Connections => String::from_str(" Connections "),
        Panel::JetStream => String::from_str(" JetStream "),
        Panel::Consumers => String::from_str(" Consumers "),
        Panel::ConnectionsChart => String::from_str(" Connections (60s) "),
        Panel::RateChart => String::from_str(" Messages/sec (60s) "),
    }
}

/// The colour of a panel's border; the charts draw their bars in it too.
pub open spec fn border_of(panel: Panel) -> Tone {
    match panel {
        Panel::Header => Tone::Cyan,
        Panel::Throughput => Tone::Blue,
        Panel::Connections => Tone::Yellow,
        Panel::JetStream => Tone::Magenta,
        Panel::Consumers => Tone::Green,
        Panel::ConnectionsChart => Tone::Cyan,
        Panel::RateChart => Tone::Green,
    }
}

/// The border colour of `panel`.
pub fn panel_border(panel: Panel) -> (t: Tone)
    ensures
        t == border_of(panel),
{
    match panel {
        Panel::Header => Tone::Cyan,
        Panel::Throughput => Tone::Blue,
        Panel::Connections => Tone::Yellow,
        Panel::JetStream => Tone::Magenta,
        Panel::Consumers => Tone::Green,
        Panel::ConnectionsChart => Tone::Cyan,
        Panel::RateChart => Tone::Green,
    }
}

/// Red when `n` is positive (something is wrong), green otherwise.
pub open spec fn alarm_tone(n: u64) -> Tone {
    if n > 0 { Tone::Red } else { Tone::Green }
}

/// Yellow when `n` is positive (work is waiting), green otherwise.
pub open spec fn backlog_tone(n: u64) -> Tone {
    if n > 0 { Tone::Yellow } else { Tone::Green }
}

fn alarm(n: u64) -> (t: Tone)
    ensures
        t == alarm_tone(n),
{
    if n > 0 { Tone::Red } else { Tone::Green }
}

fn backlog(n: u64) -> (t: Tone)
    ensures
        t == backlog_tone(n),
{
    if n > 0 { Tone::Yellow } else { Tone::Green }
}

/// The alarm colour is red for every positive count and green only for 0;
/// the backlog colour is yellow for every positive count and green only
/// for 0.
pub proof fn law_tones(n: u64)
    ensures
        alarm_tone(n) == Tone::Red <==> n > 0,
        alarm_tone(n) == Tone::Green <==> n == 0,
        backlog_tone(n) == Tone::Yellow <==> n > 0,
        backlog_tone(n) == Tone::Green <==> n == 0,
{
}

/// A label indented by two spaces and padded with spaces to 16 characters.
pub open spec fn padded_label(label: Seq<char>) -> Seq<char> {
    seq![' ', ' '] + label + (if label.len() < 16 {
        spaces((16 - label.len()) as nat)
    } else {
        Seq::<char>::empty()
    })
}

/// A padded label is two spaces, the label, then spaces up to 18
/// characters in all (none when the label is longer).
pub proof fn law_padded_label(label: Seq<char>)
    ensures
        padded_label(label).len() == if label.len() < 16 { 18 } else { label.len() + 2 },
        padded_label(label)[0] == ' ',
        padded_label(label)[1] == ' ',
        padded_label(label).subrange(2, 2 + label.len() as int) == label,
        forall|i: int|
            2 + label.len() <= i < padded_label(label).len() ==> #[trigger] padded_label(label)[i]
                == ' ',
{
    let r = padded_label(label);
    assert(r.subrange(2, 2 + label.len() as int) =~= label);
}

/// One line of a statistics column: a padded label in gray, then the
/// figure in bold in its colour.
pub struct StatLine {
    pub label: Piece,
    pub value: Piece,
}

/// `line` shows `value` under `label`, in bold `tone`.
pub open spec fn shows(line: Option<StatLine>, label: Seq<char>, value: Seq<char>, tone: Tone) -> bool {
    &&& line is Some
    &&& piece_is(line->0.label, padded_label(label), Some(Tone::Gray), false)
    &&& piece_is(line->0.value, value, Some(tone), true)
}

/// A statistics line for `label` showing `value` in bold `tone`.
pub fn stat_line(label: &str, value: String, tone: Tone) -> (line: StatLine)
    ensures
        shows(Some(line), label@, value@, tone),
{
    let n: usize = label.unicode_len();
    let mut text = String::new();
    push_char(&mut text, ' ');
    push_char(&mut text, ' ');
    text.append(label);
    if n < 16 {
        push_spaces(&mut text, 16 - n);
    }
    assert(text@ =~= padded_label(label@));
    StatLine {
        label: Piece { text, tone: Some(Tone::Gray), bold: false },
        value: Piece { text: value, tone: Some(tone), bold: true },
    }
}

/// `s`, or "N/A" when it is empty.
pub open spec fn or_na(s: Seq<char>) -> Seq<char> {
    if s.len() == 0 { "N/A"@ } else { s }
}

/// A field the server reported, whatever its length or contents, is shown
/// as it is; only an empty one becomes "N/A".
pub proof fn law_or_na(s: Seq<char>)
    ensures
        s.len() > 0 ==> or_na(s) == s,
        s.len() == 0 ==> or_na(s) == seq!['N', '/', 'A'],
{
    reveal_strlit("N/A");
}

fn or_na_exec(s: &String) -> (r: String)
    ensures
        r@ == or_na(s@),
{
    if s.as_str().is_empty() {
        String::from_str("N/A")
    } else {
        s.clone()
    }
}

/// The server name, version and uptime for the header, "N/A" where the
/// server reported nothing.
pub fn header_fields(varz: &Varz) -> (f: (String, String, String))
    ensures
        f.0@ == or_na(varz.server_name@),
        f.1@ == or_na(varz.version@),
        f.2@ == or_na(varz.uptime@),
{
    (or_na_exec(&varz.server_name), or_na_exec(&varz.version), or_na_exec(&varz.uptime))
}

/// The throughput column: messages in and out, bytes in and out, and the
/// CPU figure `cpu_text`, with blank lines between the groups.
pub fn throughput_lines(varz: &Varz, cpu_text: String) -> (lines: Vec<Option<StatLine>>)
    ensures
        lines@.len() == 7,
        shows(lines@[0], "Messages In"@, spec_format_number(varz.in_msgs as nat), Tone::Green),
        shows(lines@[1], "Messages Out"@, spec_format_number(varz.out_msgs as nat), Tone::Green),
        lines@[2] is None,
        shows(lines@[3], "Bytes In"@, spec_format_bytes(varz.in_bytes as nat), Tone::Blue),
        shows(lines@[4], "Bytes Out"@, spec_format_bytes(varz.out_bytes as nat), Tone::Blue),
        lines@[5] is None,
        shows(lines@[6], "CPU"@, cpu_text@, Tone::Magenta),
{
    let mut lines: Vec<Option<StatLine>> = Vec::new();
    lines.push(Some(stat_line("Messages In", format_number(varz.in_msgs), Tone::Green)));
    lines.push(Some(stat_line("Messages Out", format_number(varz.out_msgs), Tone::Green)));
    lines.push(None);
    lines.push(Some(stat_line("Bytes In", format_bytes(varz.in_bytes), Tone::Blue)));
    lines.push(Some(stat_line("Bytes Out", format_bytes(varz.out_bytes), Tone::Blue)));
    lines.push(None);
    lines.push(Some(stat_line("CPU", cpu_text, Tone::Magenta)));
    lines
}

/// The connections column: current and total connections, subscriptions,
/// slow consumers (red when there are any) and memory.
pub fn connection_lines(varz: &Varz) -> (lines: Vec<Option<StatLine>>)
    ensures
        lines@.len() == 7,
        shows(lines@[0], "Connections"@, spec_format_number(varz.connections as nat), Tone::Cyan),
        shows(
            lines@[1],
            "Total Conns"@,
            spec_format_number(varz.total_connections as nat),
            Tone::Cyan,
        ),
        lines@[2] is None,
        shows(
            lines@[3],
            "Subscriptions"@,
            spec_format_number(varz.subscriptions as nat),
            Tone::Yellow,
        ),
        shows(
            lines@[4],
            "Slow Consumers"@,
            spec_format_number(varz.slow_consumers as nat),
            alarm_tone(varz.slow_consumers),
        ),
        lines@[5] is None,
        shows(lines@[6], "Memory"@, spec_format_bytes(varz.mem as u64 as nat), Tone::Magenta),
{
    let mut lines: Vec<Option<StatLine>> = Vec::new();
    lines.push(Some(stat_line("Connections", format_number(varz.connections), Tone::Cyan)));
    lines.push(Some(stat_line("Total Conns", format_number(varz.total_connections), Tone::Cyan)));
    lines.push(None);
    lines.push(
        Some(stat_line("Subscriptions", format_number(varz.subscriptions as u64), Tone::Yellow)),
    );
    lines.push(
        Some(
            stat_line(
                "Slow Consumers",
                format_number(varz.slow_consumers),
                alarm(varz.slow_consumers),
            ),
        ),
    );
    lines.push(None);
    lines.push(Some(stat_line("Memory", format_bytes(varz.mem as u64), Tone::Magenta)));
    lines
}

/// The JetStream column: streams, consumers, stored messages and bytes,
/// API calls and API errors (red when there are any).
pub fn jetstream_lines(jsz: &Jsz) -> (lines: Vec<Option<StatLine>>)
    ensures
        lines@.len() == 8,
        shows(lines@[0], "Streams"@, spec_format_number(jsz.streams as nat), Tone::Cyan),
        shows(lines@[1], "Consumers"@, spec_format_number(jsz.consumers as nat), Tone::Cyan),
        lines@[2] is None,
        shows(lines@[3], "Stored Msgs"@, spec_format_number(jsz.messages as nat), Tone::Green),
        shows(lines@[4], "Stored Bytes"@, spec_format_bytes(jsz.bytes as nat), Tone::Blue),
        lines@[5] is None,
        shows(lines@[6], "API Total"@, spec_format_number(jsz.api.total as nat), Tone::Yellow),
        shows(
            lines@[7],
            "API Errors"@,
            spec_format_number(jsz.api.errors as nat),
            alarm_tone(jsz.api.errors),
        ),
{
    let mut lines: Vec<Option<StatLine>> = Vec::new();
    lines.push(Some(stat_line("Streams", format_number(jsz.streams), Tone::Cyan)));
    lines.push(Some(stat_line("Consumers", format_number(jsz.consumers), Tone::Cyan)));
    lines.push(None);
    lines.push(Some(stat_line("Stored Msgs", format_number(jsz.messages), Tone::Green)));
    lines.push(Some(stat_line("Stored Bytes", format_bytes(jsz.bytes), Tone::Blue)));
    lines.push(None);
    lines.push(Some(stat_line("API Total", format_number(jsz.api.total), Tone::Yellow)));
    lines.push(
        Some(stat_line("API Errors", format_number(jsz.api.errors), alarm(jsz.api.errors))),
    );
    lines
}

/// The footer message and whether it reports an error: "ERROR: <error>"
/// while an error stands, "Polling <url>" otherwise.
pub fn footer_status(app: &App) -> (f: (String, bool))
    ensures
        match app.last_error {
            Some(e) => f.0@ == "ERROR: "@ + e@ && f.1,
            None => f.0@ == "Polling "@ + app.url@ && !f.1,
        },
{
    match &app.last_error {
        Some(e) => {
            let mut m = String::from_str("ERROR: ");
            m.append(e.as_str());
            (m, true)
        },
        None => {
            let mut m = String::from_str("Polling ");
            m.append(app.url.as_str());
            (m, false)
        },
    }
}

/// One row of the consumer table: consumer (white), stream (dark gray),
/// delivered count (green), pending acknowledgements (yellow when any),
/// pending messages (yellow when any) and redeliveries (red when any).
pub struct ConsumerRow {
    pub consumer: Piece,
    pub stream: Piece,
    pub delivered: Piece,
    pub ack_pending: Piece,
    pub pending: Piece,
    pub redelivered: Piece,
}

/// The consumers of one stream, each paired with the stream's name.
pub open spec fn stream_entries(s: StreamDetail) -> Seq<(Seq<char>, ConsumerDetail)> {
    s.consumer_detail@.map_values(|c: ConsumerDetail| (s.name@, c))
}

/// The consumers of the streams `ss`, in order, each with its stream's name.
pub open spec fn streams_entries(ss: Seq<StreamDetail>) -> Seq<(Seq<char>, ConsumerDetail)>
    decreases ss.len(),
{
    if ss.len() == 0 {
        Seq::empty()
    } else {
        streams_entries(ss.drop_last()) + stream_entries(ss.last())
    }
}

/// The consumers of every stream of the accounts `accs`, in order.
pub open spec fn accounts_entries(accs: Seq<AccountDetail>) -> Seq<(Seq<char>, ConsumerDetail)>
    decreases accs.len(),
{
    if accs.len() == 0 {
        Seq::empty()
    } else {
        accounts_entries(accs.drop_last()) + streams_entries(accs.last().stream_detail@)
    }
}

/// Every consumer of a stream is listed, in order, with the stream's name.
pub proof fn law_stream_entries(s: StreamDetail)
    ensures
        stream_entries(s).len() == s.consumer_detail@.len(),
        forall|j: int|
            0 <= j < s.consumer_detail@.len() ==> #[trigger] stream_entries(s)[j] == (
                s.name@,
                s.consumer_detail@[j],
            ),
{
}

/// The table lists streams one after the other: the entries of two runs
/// of streams are those of the first run followed by those of the second,
/// and a single stream contributes exactly its own consumers.
pub proof fn law_streams_entries_concat(a: Seq<StreamDetail>, b: Seq<StreamDetail>)
    ensures
        streams_entries(a + b) == streams_entries(a) + streams_entries(b),
        b.len() == 1 ==> streams_entries(b) == stream_entries(b[0]),
    decreases b.len(),
{
    if b.len() == 0 {
        assert(a + b =~= a);
        assert(streams_entries(a) + streams_entries(b) =~= streams_entries(a));
    } else {
        law_streams_entries_concat(a, b.drop_last());
        assert((a + b).drop_last() =~= a + b.drop_last());
        assert((a + b).last() == b.last());
        assert(streams_entries(a) + streams_entries(b) =~= streams_entries(a) + streams_entries(
            b.drop_last(),
        ) + stream_entries(b.last()));
        if b.len() == 1 {
            assert(b.drop_last() =~= Seq::<StreamDetail>::empty());
            assert(streams_entries(b) =~= stream_entries(b[0]));
        }
    }
}

/// The table lists accounts one after the other: the entries of two runs
/// of accounts are those of the first run followed by those of the second,
/// and a single account contributes the consumers of all its streams.
pub proof fn law_accounts_entries_concat(a: Seq<AccountDetail>, b: Seq<AccountDetail>)
    ensures
        accounts_entries(a + b) == accounts_entries(a) + accounts_entries(b),
        b.len() == 1 ==> accounts_entries(b) == streams_entries(b[0].stream_detail@),
    decreases b.len(),
{
    if b.len() == 0 {
        assert(a + b =~= a);
        assert(accounts_entries(a) + accounts_entries(b) =~= accounts_entries(a));
    } else {
        law_accounts_entries_concat(a, b.drop_last());
        assert((a + b).drop_last() =~= a + b.drop_last());
        assert((a + b).last() == b.last());
        assert(accounts_entries(a) + accounts_entries(b) =~= accounts_entries(a)
            + accounts_entries(b.drop_last()) + streams_entries(b.last().stream_detail@));
        if b.len() == 1 {
            assert(b.drop_last() =~= Seq::<AccountDetail>::empty());
            assert(accounts_entries(b) =~= streams_entries(b[0].stream_detail@));
        }
    }
}

/// The number of consumers over all streams of `ss`.
pub open spec fn consumer_count(ss: Seq<StreamDetail>) -> nat
    decreases ss.len(),
{
    if ss.len() == 0 {
        0
    } else {
        consumer_count(ss.drop_last()) + ss.last().consumer_detail@.len()
    }
}

/// One table entry per consumer: the streams `ss` give as many entries as
/// they have consumers together, and the `j`-th consumer of stream `i`
/// appears, with that stream's name, after the consumers of the streams
/// before it.
pub proof fn law_streams_entries_cover(ss: Seq<StreamDetail>)
    ensures
        streams_entries(ss).len() == consumer_count(ss),
        forall|i: int, j: int|
            0 <= i < ss.len() && 0 <= j < ss[i].consumer_detail@.len() ==> streams_entries(
                ss,
            )[consumer_count(ss.take(i)) + j] == (ss[i].name@, ss[i].consumer_detail@[j]),
    decreases ss.len(),
{
    if ss.len() > 0 {
        let init = ss.drop_last();
        law_streams_entries_cover(init);
        law_stream_entries(ss.last());
        assert forall|i: int, j: int|
            0 <= i < ss.len() && 0 <= j < ss[i].consumer_detail@.len() implies streams_entries(
                ss,
            )[consumer_count(ss.take(i)) + j] == (ss[i].name@, ss[i].consumer_detail@[j]) by {
            if i < ss.len() - 1 {
                assert(ss.take(i) =~= init.take(i));
                assert(ss[i] == init[i]);
                lemma_count_prefix_bound(init, i);
            } else {
                assert(ss.take(i) =~= init);
                assert(stream_entries(ss.last())[j] == (ss[i].name@, ss[i].consumer_detail@[j]));
            }
        }
    }
}

proof fn lemma_count_prefix_bound(ss: Seq<StreamDetail>, i: int)
    requires
        0 <= i < ss.len(),
    ensures
        consumer_count(ss.take(i)) + ss[i].consumer_detail@.len() <= consumer_count(ss),
    decreases ss.len(),
{
    if i < ss.len() - 1 {
        lemma_count_prefix_bound(ss.drop_last(), i);
        assert(ss.drop_last().take(i) =~= ss.take(i));
    } else {
        assert(ss.drop_last() =~= ss.take(i));
    }
}

/// `r` is the table row for the consumer `e.1` of the stream named `e.0`.
pub open spec fn row_shows(r: ConsumerRow, e: (Seq<char>, ConsumerDetail)) -> bool {
    let c = e.1;
    &&& piece_is(r.consumer, c.name@, Some(Tone::White), false)
    &&& piece_is(r.stream, e.0, Some(Tone::DarkGray), false)
    &&& piece_is(
        r.delivered,
        spec_format_number(c.delivered.consumer_seq as nat),
        Some(Tone::Green),
        false,
    )
    &&& piece_is(
        r.ack_pending,
        spec_format_number(c.num_ack_pending as nat),
        Some(backlog_tone(c.num_ack_pending)),
        false,
    )
    &&& piece_is(
        r.pending,
        spec_format_number(c.num_pending as nat),
        Some(backlog_tone(c.num_pending)),
        false,
    )
    &&& piece_is(
        r.redelivered,
        spec_format_number(c.num_redelivered as nat),
        Some(alarm_tone(c.num_redelivered)),
        false,
    )
}

/// `rows` are the table rows for `es`, one for one.
pub open spec fn rows_show(rows: Seq<ConsumerRow>, es: Seq<(Seq<char>, ConsumerDetail)>) -> bool {
    &&& rows.len() == es.len()
    &&& forall|i: int| 0 <= i < rows.len() ==> #[trigger] row_shows(rows[i], es[i])
}

fn consumer_row(stream: &StreamDetail, c: &ConsumerDetail) -> (r: ConsumerRow)
    ensures
        row_shows(r, (stream.name@, *c)),
{
    ConsumerRow {
        consumer: Piece { text: c.name.clone(), tone: Some(Tone::White), bold: false },
        stream: Piece { text: stream.name.clone(), tone: Some(Tone::DarkGray), bold: false },
        delivered: Piece {
            text: format_number(c.delivered.consumer_seq),
            tone: Some(Tone::Green),
            bold: false,
        },
        ack_pending: Piece {
            text: format_number(c.num_ack_pending),
            tone: Some(backlog(c.num_ack_pending)),
            bold: false,
        },
        pending: Piece {
            text: format_number(c.num_pending),
            tone: Some(backlog(c.num_pending)),
            bold: false,
        },
        redelivered: Piece {
            text: format_number(c.num_redelivered),
            tone: Some(alarm(c.num_redelivered)),
            bold: false,
        },
    }
}

proof fn lemma_rows_push(
    rows: Seq<ConsumerRow>,
    es: Seq<(Seq<char>, ConsumerDetail)>,
    r: ConsumerRow,
    e: (Seq<char>, ConsumerDetail),
)
    requires
        rows_show(rows, es),
        row_shows(r, e),
    ensures
        rows_show(rows.push(r), es.push(e)),
{
    assert forall|i: int| 0 <= i < rows.push(r).len() implies #[trigger] row_shows(
        rows.push(r)[i],
        es.push(e)[i],
    ) by {
        if i < rows.len() {
            assert(row_shows(rows[i], es[i]));
        }
    }
}

/// The consumer table: one row per consumer of every stream of every
/// account, in the order the server listed them. An empty result means
/// the table shows "No consumers found".
pub fn consumer_rows(jsz: &Jsz) -> (rows: Vec<ConsumerRow>)
    ensures
        rows_show(rows@, accounts_entries(jsz.account_details@)),
{
    let accs = &jsz.account_details;
    let mut rows: Vec<ConsumerRow> = Vec::new();
    let mut ai: usize = 0;
    while ai < accs.len()
        invariant
            ai <= accs@.len(),
            rows_show(rows@, accounts_entries(accs@.take(ai as int))),
        decreases accs@.len() - ai,
    {
        let acc = &accs[ai];
        let ghost before = accounts_entries(accs@.take(ai as int));
        let sd = &acc.stream_detail;
        let mut si: usize = 0;
        assert(streams_entries(sd@.take(0)) =~= Seq::empty());
        assert(before + streams_entries(sd@.take(0)) =~= before);
        while si < sd.len()
            invariant
                si <= sd@.len(),
                rows_show(rows@, before + streams_entries(sd@.take(si as int))),
            decreases sd@.len() - si,
        {
            let st = &sd[si];
            let ghost mid = before + streams_entries(sd@.take(si as int));
            let cd = &st.consumer_detail;
            let mut ci: usize = 0;
            assert(mid + stream_entries(*st).take(0) =~= mid);
            while ci < cd.len()
                invariant
                    ci <= cd@.len(),
                    cd@ == st.consumer_detail@,
                    rows_show(rows@, mid + stream_entries(*st).take(ci as int)),
                decreases cd@.len() - ci,
            {
                let r = consumer_row(st, &cd[ci]);
                proof {
                    let es = mid + stream_entries(*st).take(ci as int);
                    let e = (st.name@, cd@[ci as int]);
                    assert(stream_entries(*st)[ci as int] == e);
                    lemma_rows_push(rows@, es, r, e);
                    assert(es.push(e) =~= mid + stream_entries(*st).take(ci + 1));
                }
                rows.push(r);
                ci = ci + 1;
            }
            proof {
                assert(stream_entries(*st).take(ci as int) =~= stream_entries(*st));
                let t1 = sd@.take(si + 1);
                assert(t1.drop_last() =~= sd@.take(si as int));
                assert(t1.last() == *st);
                assert(streams_entries(t1) == streams_entries(sd@.take(si as int)) + stream_entries(*st));
                assert(mid + stream_entries(*st) =~= before + streams_entries(t1));
            }
            si = si + 1;
        }
        proof {
            assert(sd@.take(si as int) =~= sd@);
            let t1 = accs@.take(ai + 1);
            assert(t1.drop_last() =~= accs@.take(ai as int));
            assert(t1.last() == *acc);
        }
        ai = ai + 1;
    }
    assert(accs@.take(ai as int) =~= accs@);
    rows
}

/// The header line: the program's name in bold cyan, then the server
/// name (green), version (yellow) and uptime (white), "N/A" where the
/// server reported nothing.
pub fn header_line(varz: &Varz) -> (line: Vec<Piece>)
    ensures
        line@.len() == 7,
        piece_is(line@[0], " NATS Monitor "@, Some(Tone::Cyan), true),
        piece_is(line@[1], "│ "@, None, false),
        piece_is(line@[2], or_na(varz.server_name@), Some(Tone::Green), false),
        piece_is(line@[3], " (v"@, None, false),
        piece_is(line@[4], or_na(varz.version@), Some(Tone::Yellow), false),
        piece_is(line@[5], ") │ Uptime: "@, None, false),
        piece_is(line@[6], or_na(varz.uptime@), Some(Tone::White), false),
{
    let (name, version, uptime) = header_fields(varz);
    let mut line: Vec<Piece> = Vec::new();
    line.push(piece(" NATS Monitor ", Some(Tone::Cyan), true));
    line.push(piece("│ ", None, false));
    line.push(Piece { text: name, tone: Some(Tone::Green), bold: false });
    line.push(piece(" (v", None, false));
    line.push(Piece { text: version, tone: Some(Tone::Yellow), bold: false });
    line.push(piece(") │ Uptime: ", None, false));
    line.push(Piece { text: uptime, tone: Some(Tone::White), bold: false });
    line
}

/// The footer line: the quit hint, then the status message, in bold red
/// while an error stands and in dark gray otherwise.
pub fn footer_line(app: &App) -> (line: Vec<Piece>)
    ensures
        line@.len() == 3,
        piece_is(line@[0], " (q) Quit "@, Some(Tone::DarkGray), false),
        piece_is(line@[1], "│ "@, None, false),
        match app.last_error {
            Some(e) => piece_is(line@[2], "ERROR: "@ + e@, Some(Tone::Red), true),
            None => piece_is(line@[2], "Polling "@ + app.url@, Some(Tone::DarkGray), false),
        },
{
    let (message, is_error) = footer_status(app);
    let mut line: Vec<Piece> = Vec::new();
    line.push(piece(" (q) Quit ", Some(Tone::DarkGray), false));
    line.push(piece("│ ", None, false));
    if is_error {
        line.push(Piece { text: message, tone: Some(Tone::Red), bold: true });
    } else {
        line.push(Piece { text: message, tone: Some(Tone::DarkGray), bold: false });
    }
    line
}

/// The column headings of the consumer table, in bold cyan.
pub fn consumer_table_header() -> (h: Vec<Piece>)
    ensures
        h@.len() == 6,
        piece_is(h@[0], "Consumer"@, Some(Tone::Cyan), true),
        piece_is(h@[1], "Stream"@, Some(Tone::Cyan), true),
        piece_is(h@[2], "Delivered"@, Some(Tone::Cyan), true),
        piece_is(h@[3], "Ack Pend"@, Some(Tone::Cyan), true),
        piece_is(h@[4], "Pending"@, Some(Tone::Cyan), true),
        piece_is(h@[5], "Redlvr"@, Some(Tone::Cyan), true),
{
    let mut h: Vec<Piece> = Vec::new();
    h.push(piece("Consumer", Some(Tone::Cyan), true));
    h.push(piece("Stream", Some(Tone::Cyan), true));
    h.push(piece("Delivered", Some(Tone::Cyan), true));
    h.push(piece("Ack Pend", Some(Tone::Cyan), true));
    h.push(piece("Pending", Some(Tone::Cyan), true));
    h.push(piece("Redlvr", Some(Tone::Cyan), true));
    h
}

/// What the consumer panel shows: the table, or, when there are no
/// consumers, the line "  No consumers found" in dark gray.
pub enum ConsumerPanel {
    Table(Vec<ConsumerRow>),
    Empty(Piece),
}

/// The consumer panel for `jsz`: its rows when there is at least one
/// consumer, the "No consumers found" line otherwise.
pub fn consumer_panel(jsz: &Jsz) -> (p: ConsumerPanel)
    ensures
        match p {
            ConsumerPanel::Table(rows) => rows@.len() > 0 && rows_show(
                rows@,
                accounts_entries(jsz.account_details@),
            ),
            ConsumerPanel::Empty(line) => accounts_entries(jsz.account_details@).len() == 0
                && piece_is(line, "  No consumers found"@, Some(Tone::DarkGray), false),
        },
{
    let rows = consumer_rows(jsz);
    if rows.len() == 0 {
        ConsumerPanel::Empty(piece("  No consumers found", Some(Tone::DarkGray), false))
    } else {
        ConsumerPanel::Table(rows)
    }
}

} // verus!
