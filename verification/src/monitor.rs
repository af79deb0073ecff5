//! The dashboard's state: the latest server and JetStream statistics, the
//! sliding histories behind the charts, and the last error; plus the
//! decisions of the polling loop (what a fetch result does to the state,
//! which keys quit, when the next poll is due).

use vstd::prelude::*;
use crate::model::{Jsz, Varz};
use vstd::string::StringExecFns;

verus! {

/// How many samples each chart keeps (one per poll).
pub const MAX_HISTORY: usize = 60;

/// `h` with its oldest sample dropped once it holds `MAX_HISTORY` or more.
pub open spec fn window_trim(h: Seq<u64>) -> Seq<u64> {
    if h.len() >= MAX_HISTORY {
        h.drop_first()
    } else {
        h
    }
}

/// `h` after recording the sample `x`.
pub open spec fn window_push(h: Seq<u64>, x: u64) -> Seq<u64> {
    window_trim(h).push(x)
}

/// `a - b`, or 0 when `b > a`.
pub open spec fn saturating_sub(a: u64, b: u64) -> u64 {
    if a >= b {
        (a - b) as u64
    } else {
        0
    }
}

/// The history `h` after recording the samples `xs`, oldest first.
pub open spec fn record_all(h: Seq<u64>, xs: Seq<u64>) -> Seq<u64>
    decreases xs.len(),
{
    if xs.len() == 0 {
        h
    } else {
        window_push(record_all(h, xs.drop_last()), xs.last())
    }
}

/// The newest `n` elements of `s` (all of `s` when it is shorter).
pub open spec fn newest(s: Seq<u64>, n: nat) -> Seq<u64> {
    if s.len() <= n {
        s
    } else {
        s.subrange(s.len() - n, s.len() as int)
    }
}

/// A history keeps the newest samples: from a history of at most
/// `MAX_HISTORY` samples, recording `xs` one after the other leaves exactly
/// the newest `MAX_HISTORY` of the old samples followed by `xs`. In
/// particular the chart of a fresh monitor shows the last 60 polls.
pub proof fn law_history_keeps_newest(h: Seq<u64>, xs: Seq<u64>)
    requires
        h.len() <= MAX_HISTORY,
    ensures
        record_all(h, xs) == newest(h + xs, MAX_HISTORY as nat),
    decreases xs.len(),
{
    if xs.len() == 0 {
        assert(h + xs =~= h);
    } else {
        let ys = xs.drop_last();
        let x = xs.last();
        law_history_keeps_newest(h, ys);
        let s = h + ys;
        assert(h + xs =~= s.push(x));
        let w = newest(s, MAX_HISTORY as nat);
        if s.len() < MAX_HISTORY {
            assert(window_push(w, x) =~= s.push(x));
        } else {
            assert(w.len() == MAX_HISTORY);
            assert(window_push(w, x) =~= s.push(x).subrange(
                s.len() + 1 - MAX_HISTORY,
                (s.len() + 1) as int,
            ));
        }
    }
}

/// Messages per second, from an increase of `increase` messages over one
/// polling interval of `interval_secs` seconds, rounded down; an interval
/// of 0 counts as one second.
pub open spec fn per_second(increase: u64, interval_secs: u64) -> u64 {
    if interval_secs == 0 {
        increase
    } else {
        increase / interval_secs
    }
}

/// `per_second` is the floor of the increase over the interval: that many
/// whole seconds' worth fit in the increase, one more does not.
pub proof fn law_per_second_rounds_down(increase: u64, interval_secs: u64)
    ensures
        interval_secs > 0 ==> per_second(increase, interval_secs) * interval_secs <= increase
            < (per_second(increase, interval_secs) + 1) * interval_secs,
        interval_secs == 0 ==> per_second(increase, interval_secs) == increase,
{
    if interval_secs > 0 {
        let q = per_second(increase, interval_secs) as int;
        let d = interval_secs as int;
        let x = increase as int;
        vstd::arithmetic::div_mod::lemma_fundamental_div_mod(x, d);
        assert(q * d <= x < (q + 1) * d) by (nonlinear_arith)
            requires
                x == d * q + x % d,
                0 <= x % d < d,
        ;
    }
}

/// The increase is what separates two counts: the later count is the
/// earlier plus the increase, or the increase is 0 when the count fell.
pub proof fn law_saturating_sub(a: u64, b: u64)
    ensures
        a >= b ==> saturating_sub(a, b) + b == a,
        a < b ==> saturating_sub(a, b) == 0,
{
}

/// The message-rate history `h` after the message count `y` arrives,
/// `last` being the count before it: the messages per second since then
/// join the history, unless `last` is 0 (no earlier count to compare).
pub open spec fn rate_step(h: Seq<u64>, last: u64, y: u64, interval_secs: u64) -> Seq<u64> {
    if last > 0 {
        window_push(h, per_second(saturating_sub(y, last), interval_secs))
    } else {
        window_trim(h)
    }
}

/// The message-rate history `h` after the message counts `ys` arrive one
/// poll apart, `last` being the count seen before them.
pub open spec fn rate_history(
    h: Seq<u64>,
    last: u64,
    ys: Seq<u64>,
    interval_secs: u64,
) -> Seq<u64>
    decreases ys.len(),
{
    if ys.len() == 0 {
        h
    } else {
        let before = if ys.len() == 1 { last } else { ys[ys.len() - 2] };
        let prev = rate_history(h, last, ys.drop_last(), interval_secs);
        rate_step(prev, before, ys.last(), interval_secs)
    }
}

/// Counts arriving one at a time, as `update_varz` takes them, build the
/// same rate history as all of them at once: the next count `y` is
/// compared with the newest count so far (`last` while there is none).
pub proof fn law_rate_history_one_at_a_time(
    h: Seq<u64>,
    last: u64,
    ys: Seq<u64>,
    y: u64,
    interval_secs: u64,
)
    ensures
        rate_history(h, last, ys.push(y), interval_secs) == rate_step(
            rate_history(h, last, ys, interval_secs),
            if ys.len() == 0 { last } else { ys.last() },
            y,
            interval_secs,
        ),
{
    assert(ys.push(y).drop_last() =~= ys);
    if ys.len() > 0 {
        assert(ys.push(y)[ys.push(y).len() - 2] == ys.last());
    }
}

/// The messages per second between consecutive counts of `ys`, polled
/// `interval_secs` apart (0 where a count fell).
pub open spec fn rates(ys: Seq<u64>, interval_secs: u64) -> Seq<u64> {
    Seq::new(
        (ys.len() - 1) as nat,
        |i: int| per_second(saturating_sub(ys[i + 1], ys[i]), interval_secs),
    )
}

proof fn lemma_rate_history_records_rates(ys: Seq<u64>, d: u64)
    requires
        ys.len() >= 1,
        forall|i: int| 0 <= i < ys.len() ==> ys[i] > 0,
    ensures
        rate_history(Seq::empty(), 0, ys, d) == record_all(Seq::empty(), rates(ys, d)),
    decreases ys.len(),
{
    if ys.len() == 1 {
        assert(ys.drop_last() =~= Seq::<u64>::empty());
        assert(rates(ys, d) =~= Seq::<u64>::empty());
        assert(window_trim(Seq::<u64>::empty()) =~= Seq::<u64>::empty());
        assert(rate_history(Seq::empty(), 0, ys, d) == window_trim(
            rate_history(Seq::empty(), 0, ys.drop_last(), d),
        ));
        assert(rate_history(Seq::empty(), 0, ys, d) =~= Seq::<u64>::empty());
        assert(record_all(Seq::empty(), rates(ys, d)) =~= Seq::<u64>::empty());
    } else {
        let zs = ys.drop_last();
        lemma_rate_history_records_rates(zs, d);
        let rs = rates(ys, d);
        assert(rs.drop_last() =~= rates(zs, d));
        assert(rs.last() == per_second(saturating_sub(ys.last(), ys[ys.len() - 2]), d));
        assert(ys[ys.len() - 2] > 0);
        assert(rate_history(Seq::empty(), 0, ys, d) == window_push(
            rate_history(Seq::empty(), 0, zs, d),
            per_second(saturating_sub(ys.last(), ys[ys.len() - 2]), d),
        ));
        assert(rs.len() > 0);
        assert(record_all(Seq::empty(), rs) == window_push(
            record_all(Seq::empty(), rs.drop_last()),
            rs.last(),
        ));
    }
}

/// The rate chart shows messages per second for the newest polls: from a
/// fresh monitor, once the message counts `ys` (all positive) have arrived
/// `interval_secs` apart, the rate history is the newest `MAX_HISTORY` of
/// the per-second rates between consecutive counts.
pub proof fn law_rate_history_keeps_newest_rates(ys: Seq<u64>, interval_secs: u64)
    requires
        ys.len() >= 1,
        forall|i: int| 0 <= i < ys.len() ==> ys[i] > 0,
    ensures
        rate_history(Seq::empty(), 0, ys, interval_secs) == newest(
            rates(ys, interval_secs),
            MAX_HISTORY as nat,
        ),
{
    lemma_rate_history_records_rates(ys, interval_secs);
    law_history_keeps_newest(Seq::empty(), rates(ys, interval_secs));
    assert(Seq::<u64>::empty() + rates(ys, interval_secs) =~= rates(ys, interval_secs));
}

/// The monitor's state.
pub struct App {
    pub varz: Varz,
    pub jsz: Jsz,
    pub connection_history: std::collections::VecDeque<u64>,
    pub msgs_history: std::collections::VecDeque<u64>,
    pub last_in_msgs: u64,
    pub last_error: Option<String>,
    pub url: String,
    /// Seconds between polls; the rate history is in messages per second.
    pub interval_secs: u64,
}

impl App {
    /// Both histories hold at most `MAX_HISTORY` samples.
    pub open spec fn wf(&self) -> bool {
        &&& self.connection_history@.len() <= MAX_HISTORY
        &&& self.msgs_history@.len() <= MAX_HISTORY
    }

    /// A monitor for `url`, polled every `interval_secs` seconds, that has
    /// seen nothing yet.
    pub fn new(url: String, interval_secs: u64) -> (app: Self)
        ensures
            app.varz.is_blank(),
            app.jsz.is_blank(),
            app.connection_history@.len() == 0,
            app.msgs_history@.len() == 0,
            app.last_in_msgs == 0,
            app.last_error.is_none(),
            app.url == url,
            app.interval_secs == interval_secs,
            app.wf(),
    {
        App {
            varz: Varz::default(),
            jsz: Jsz::default(),
            connection_history: std::collections::VecDeque::with_capacity(MAX_HISTORY + 1),
            msgs_history: std::collections::VecDeque::with_capacity(MAX_HISTORY + 1),
            last_in_msgs: 0,
            last_error: None,
            url,
            interval_secs,
        }
    }

    /// Records fresh server statistics: the connection count joins its
    /// history; the messages per second since the previous sample join the
    /// rate history, except on the first sample (while the previous count
    /// is 0); the error is cleared.
    pub fn update_varz(&mut self, varz: Varz)
        ensures
            final(self).connection_history@ == window_push(
                old(self).connection_history@,
                varz.connections,
            ),
            final(self).msgs_history@ == rate_step(
                old(self).msgs_history@,
                old(self).last_in_msgs,
                varz.in_msgs,
                old(self).interval_secs,
            ),
            final(self).last_in_msgs == varz.in_msgs,
            final(self).varz == varz,
            final(self).last_error.is_none(),
            final(self).jsz == old(self).jsz,
            final(self).url == old(self).url,
            final(self).interval_secs == old(self).interval_secs,
            old(self).wf() ==> final(self).wf(),
    {
        if self.connection_history.len() >= MAX_HISTORY {
            self.connection_history.pop_front();
        }
        self.connection_history.push_back(varz.connections);

        if self.msgs_history.len() >= MAX_HISTORY {
            self.msgs_history.pop_front();
        }
        let increase: u64 = varz.in_msgs.saturating_sub(self.last_in_msgs);
        let rate: u64 = if self.interval_secs == 0 {
            increase
        } else {
            increase / self.interval_secs
        };
        if self.last_in_msgs > 0 {
            self.msgs_history.push_back(rate);
        }
        self.last_in_msgs = varz.in_msgs;

        self.varz = varz;
        self.last_error = None;
    }

    /// Replaces the JetStream statistics; nothing else changes.
    pub fn update_jsz(&mut self, jsz: Jsz)
        ensures
            final(self).jsz == jsz,
            final(self).varz == old(self).varz,
            final(self).connection_history@ == old(self).connection_history@,
            final(self).msgs_history@ == old(self).msgs_history@,
            final(self).last_in_msgs == old(self).last_in_msgs,
            final(self).last_error == old(self).last_error,
            final(self).url == old(self).url,
            final(self).interval_secs == old(self).interval_secs,
    {
        self.jsz = jsz;
    }

    /// Records `err` as the last error; nothing else changes.
    pub fn set_error(&mut self, err: String)
        ensures
            final(self).last_error == Some(err),
            final(self).varz == old(self).varz,
            final(self).jsz == old(self).jsz,
            final(self).connection_history@ == old(self).connection_history@,
            final(self).msgs_history@ == old(self).msgs_history@,
            final(self).last_in_msgs == old(self).last_in_msgs,
            final(self).url == old(self).url,
            final(self).interval_secs == old(self).interval_secs,
    {
        self.last_error = Some(err);
    }
}

/// What came of fetching one endpoint.
pub enum FetchOutcome<T> {
    /// The endpoint answered and its body was read.
    Fetched(T),
    /// The endpoint answered but its body could not be read; the message
    /// says why.
    ParseFailed(String),
    /// The endpoint could not be reached; the message says why.
    ConnectFailed(String),
}

impl App {
    /// The `/varz` endpoint under the monitored URL.
    pub fn varz_url(&self) -> (u: String)
        ensures
            u@ == self.url@ + "/varz"@,
    {
        let mut u = self.url.clone();
        u.append("/varz");
        u
    }

    /// The `/jsz` endpoint under the monitored URL, asking for stream and
    /// consumer details.
    pub fn jsz_url(&self) -> (u: String)
        ensures
            u@ == self.url@ + "/jsz?streams=true&consumers=true"@,
    {
        let mut u = self.url.clone();
        u.append("/jsz?streams=true&consumers=true");
        u
    }

    /// Applies the result of fetching `/varz`: fresh statistics are
    /// recorded; a failure becomes the last error, "varz parse error: ..."
    /// or "Connection error: ...".
    pub fn apply_varz(&mut self, outcome: FetchOutcome<Varz>)
        ensures
            match outcome {
                FetchOutcome::Fetched(v) => {
                    &&& final(self).connection_history@ == window_push(
                        old(self).connection_history@,
                        v.connections,
                    )
                    &&& final(self).msgs_history@ == rate_step(
                        old(self).msgs_history@,
                        old(self).last_in_msgs,
                        v.in_msgs,
                        old(self).interval_secs,
                    )
                    &&& final(self).last_in_msgs == v.in_msgs
                    &&& final(self).varz == v
                    &&& final(self).last_error.is_none()
                    &&& final(self).jsz == old(self).jsz
                    &&& final(self).url == old(self).url
                    &&& final(self).interval_secs == old(self).interval_secs
                },
                FetchOutcome::ParseFailed(e) => {
                    &&& final(self).last_error matches Some(m) && m@ == "varz parse error: "@ + e@
                    &&& final(self).unchanged_but_error(*old(self))
                },
                FetchOutcome::ConnectFailed(e) => {
                    &&& final(self).last_error matches Some(m) && m@ == "Connection error: "@ + e@
                    &&& final(self).unchanged_but_error(*old(self))
                },
            },
            old(self).wf() ==> final(self).wf(),
    {
        match outcome {
            FetchOutcome::Fetched(v) => self.update_varz(v),
            FetchOutcome::ParseFailed(e) => {
                let mut m = String::from_str("varz parse error: ");
                m.append(e.as_str());
                self.set_error(m);
            },
            FetchOutcome::ConnectFailed(e) => {
                let mut m = String::from_str("Connection error: ");
                m.append(e.as_str());
                self.set_error(m);
            },
        }
    }

    /// Applies the result of fetching `/jsz`: fresh statistics replace the
    /// old; a body that cannot be read becomes the last error ("jsz parse
    /// error: ..."); an unreachable endpoint changes nothing, since
    /// JetStream may be disabled and an earlier error must stay visible.
    pub fn apply_jsz(&mut self, outcome: FetchOutcome<Jsz>)
        ensures
            match outcome {
                FetchOutcome::Fetched(j) => {
                    &&& final(self).jsz == j
                    &&& final(self).last_error == old(self).last_error
                    &&& final(self).varz == old(self).varz
                    &&& final(self).connection_history@ == old(self).connection_history@
                    &&& final(self).msgs_history@ == old(self).msgs_history@
                    &&& final(self).last_in_msgs == old(self).last_in_msgs
                    &&& final(self).url == old(self).url
                    &&& final(self).interval_secs == old(self).interval_secs
                },
                FetchOutcome::ParseFailed(e) => {
                    &&& final(self).last_error matches Some(m) && m@ == "jsz parse error: "@ + e@
                    &&& final(self).unchanged_but_error(*old(self))
                },
                FetchOutcome::ConnectFailed(_) => *final(self) == *old(self),
            },
            old(self).wf() ==> final(self).wf(),
    {
        match outcome {
            FetchOutcome::Fetched(j) => self.update_jsz(j),
            FetchOutcome::ParseFailed(e) => {
                let mut m = String::from_str("jsz parse error: ");
                m.append(e.as_str());
                self.set_error(m);
            },
            FetchOutcome::ConnectFailed(_) => {},
        }
    }

    /// Everything but `last_error` is as in `prev`.
    pub open spec fn unchanged_but_error(&self, prev: App) -> bool {
        &&& self.varz == prev.varz
        &&& self.jsz == prev.jsz
        &&& self.connection_history@ == prev.connection_history@
        &&& self.msgs_history@ == prev.msgs_history@
        &&& self.last_in_msgs == prev.last_in_msgs
        &&& self.url == prev.url
        &&& self.interval_secs == prev.interval_secs
    }

    /// The connection-count history, oldest first, for the chart.
    pub fn connection_data(&self) -> (v: Vec<u64>)
        ensures
            v@ == self.connection_history@,
    {
        let n: usize = self.connection_history.len();
        let mut v: Vec<u64> = Vec::new();
        let mut i: usize = 0;
        while i < n
            invariant
                n == self.connection_history@.len(),
                i <= n,
                v@ =~= self.connection_history@.subrange(0, i as int),
            decreases n - i,
        {
            v.push(self.connection_history[i]);
            i = i + 1;
        }
        v
    }

    /// The message-rate history, oldest first, for the chart.
    pub fn msgs_data(&self) -> (v: Vec<u64>)
        ensures
            v@ == self.msgs_history@,
    {
        let n: usize = self.msgs_history.len();
        let mut v: Vec<u64> = Vec::new();
        let mut i: usize = 0;
        while i < n
            invariant
                n == self.msgs_history@.len(),
                i <= n,
                v@ =~= self.msgs_history@.subrange(0, i as int),
            decreases n - i,
        {
            v.push(self.msgs_history[i]);
            i = i + 1;
        }
        v
    }
}

/// A key press, as far as the monitor tells keys apart.
pub enum KeyInput {
    Char(char),
    Esc,
    Other,
}

/// Whether a key press ends the monitor: 'q', 'Q', Esc, or Ctrl+'c'.
pub open spec fn quits(key: KeyInput, ctrl: bool) -> bool {
    match key {
        KeyInput::Char(c) => c == 'q' || c == 'Q' || (c == 'c' && ctrl),
        KeyInput::Esc => true,
        KeyInput::Other => false,
    }
}

/// Only four key presses quit: 'q' and 'Q' (with or without Control),
/// Esc, and 'c' with Control held. Any other letter keeps the monitor
/// running, Control changes nothing for a letter other than 'c', and a key
/// that is neither a character nor Esc never quits.
pub proof fn law_quit_keys(c: char, ctrl: bool)
    ensures
        quits(KeyInput::Char(c), ctrl) ==> (c == 'q' || c == 'Q' || c == 'c'),
        quits(KeyInput::Char(c), false) <==> (c == 'q' || c == 'Q'),
        quits(KeyInput::Char(c), true) <==> (c == 'q' || c == 'Q' || c == 'c'),
        c != 'c' ==> (quits(KeyInput::Char(c), true) == quits(KeyInput::Char(c), false)),
        quits(KeyInput::Esc, ctrl),
        !quits(KeyInput::Other, ctrl),
{
}

/// Whether the key press `key` (with Control held when `ctrl`) quits.
pub fn should_quit(key: &KeyInput, ctrl: bool) -> (b: bool)
    ensures
        b == quits(*key, ctrl),
{
    match key {
        KeyInput::Char(c) => *c == 'q' || *c == 'Q' || (*c == 'c' && ctrl),
        KeyInput::Esc => true,
        KeyInput::Other => false,
    }
}

/// Whether the next poll is due: `elapsed_nanos` since the last poll have
/// reached the polling interval of `interval_secs` seconds.
pub fn poll_due(elapsed_nanos: u128, interval_secs: u64) -> (b: bool)
    ensures
        b == (elapsed_nanos >= interval_secs * 1_000_000_000),
{
    elapsed_nanos >= (interval_secs as u128) * 1_000_000_000
}

} // verus!
