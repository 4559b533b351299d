//! What a push consumer sends over its connection: one framed event per
//! publish interval, and one terminal event on shutdown.
use vstd::prelude::*;

use crate::encode::{
    comma_joined, decimal, json_string, push_decimal, push_json_string, push_signed_decimal,
    signed_decimal,
};
use crate::metrics::{ComponentTemperature, DiskUsageData, NetworkData, ProcessInfo};
use crate::resources::SystemResources;

verus! {

pub open spec fn network_json(d: NetworkData) -> Seq<char> {
    "{\"total_rx\":"@ + decimal(d.total_rx as nat) + ",\"rx_per_second\":"@ + decimal(d.rx_per_second as nat)
        + ",\"total_tx\":"@ + decimal(d.total_tx as nat) + ",\"tx_per_second\":"@
        + decimal(d.tx_per_second as nat) + "}"@
}

pub open spec fn disk_json(d: DiskUsageData) -> Seq<char> {
    "{\"name\":"@ + json_string(d.name@) + ",\"used_hundredths\":"@ + decimal(d.used_space as nat)
        + ",\"free_gb_hundredths\":"@ + decimal(d.free_space as nat) + "}"@
}

pub open spec fn temperature_json(t: ComponentTemperature) -> Seq<char> {
    "{\"label\":"@ + json_string(t.label@) + ",\"celsius_hundredths\":"@ + signed_decimal(
        t.temperature as int,
    ) + "}"@
}

pub open spec fn process_json(p: ProcessInfo) -> Seq<char> {
    "{\"pid\":"@ + decimal(p.pid as nat) + ",\"name\":"@ + json_string(p.name@) + ",\"memory\":"@
        + decimal(p.memory_usage as nat) + ",\"cpu_hundredths\":"@ + decimal(p.cpu_usage as nat) + "}"@
}

pub open spec fn disks_json(ds: Seq<DiskUsageData>) -> Seq<char> {
    comma_joined(ds.map_values(|d: DiskUsageData| disk_json(d)))
}

pub open spec fn temperatures_json(ts: Seq<ComponentTemperature>) -> Seq<char> {
    comma_joined(ts.map_values(|t: ComponentTemperature| temperature_json(t)))
}

pub open spec fn processes_json(ps: Seq<ProcessInfo>) -> Seq<char> {
    comma_joined(ps.map_values(|p: ProcessInfo| process_json(p)))
}

/// The current aggregate as a JSON object: the version, the latest value of
/// each historied metric, and the wholesale lists.
pub open spec fn resources_json(r: SystemResources) -> Seq<char> {
    "{\"version\":"@ + decimal(r.version as nat) + ",\"cpu\":"@ + decimal(r.cpu_usage.current() as nat)
        + ",\"ram\":"@ + decimal(r.ram_memory_usage.current() as nat) + ",\"swap\":"@
        + decimal(r.swap_memory_usage.current() as nat) + ",\"network\":"@
        + network_json(r.network_usage.current()) + ",\"disks\":["@ + disks_json(r.disk_usage@)
        + "],\"temperatures\":["@ + temperatures_json(r.component_temperature@) + "],\"processes\":["@
        + processes_json(r.process_list@) + "]}"@
}

/// The event that carries a snapshot: its version as the event id.
pub open spec fn snapshot_frame(r: SystemResources) -> Seq<char> {
    "id: "@ + decimal(r.version as nat) + "\nevent: snapshot\ndata: "@ + resources_json(r) + "\n\n"@
}

/// The terminal event; nothing follows it on a connection.
pub open spec fn shutdown_frame() -> Seq<char> {
    "event: shutdown\ndata: {}\n\n"@
}

fn push_network(out: &mut String, d: &NetworkData)
    ensures
        final(out)@ == old(out)@ + network_json(*d),
{
    out.append("{\"total_rx\":");
    push_decimal(out, d.total_rx);
    out.append(",\"rx_per_second\":");
    push_decimal(out, d.rx_per_second);
    out.append(",\"total_tx\":");
    push_decimal(out, d.total_tx);
    out.append(",\"tx_per_second\":");
    push_decimal(out, d.tx_per_second);
    out.append("}");
    assert(out@ =~= old(out)@ + network_json(*d));
}

fn push_disk(out: &mut String, d: &DiskUsageData)
    ensures
        final(out)@ == old(out)@ + disk_json(*d),
{
    out.append("{\"name\":");
    push_json_string(out, d.name.as_str());
    out.append(",\"used_hundredths\":");
    push_decimal(out, d.used_space);
    out.append(",\"free_gb_hundredths\":");
    push_decimal(out, d.free_space);
    out.append("}");
    assert(out@ =~= old(out)@ + disk_json(*d));
}

fn push_temperature(out: &mut String, t: &ComponentTemperature)
    ensures
        final(out)@ == old(out)@ + temperature_json(*t),
{
    out.append("{\"label\":");
    push_json_string(out, t.label.as_str());
    out.append(",\"celsius_hundredths\":");
    push_signed_decimal(out, t.temperature);
    out.append("}");
    assert(out@ =~= old(out)@ + temperature_json(*t));
}

fn push_process(out: &mut String, p: &ProcessInfo)
    ensures
        final(out)@ == old(out)@ + process_json(*p),
{
    out.append("{\"pid\":");
    push_decimal(out, p.pid as u64);
    out.append(",\"name\":");
    push_json_string(out, p.name.as_str());
    out.append(",\"memory\":");
    push_decimal(out, p.memory_usage);
    out.append(",\"cpu_hundredths\":");
    push_decimal(out, p.cpu_usage);
    out.append("}");
    assert(out@ =~= old(out)@ + process_json(*p));
}

proof fn lemma_joined_step(items: Seq<Seq<char>>, i: int)
    requires
        0 <= i < items.len(),
    ensures
        comma_joined(items.subrange(0, i + 1)) == comma_joined(items.subrange(0, i)) + (if i > 0 {
            seq![',']
        } else {
            Seq::<char>::empty()
        }) + items[i],
{
    let pre = items.subrange(0, i + 1);
    assert(pre.drop_last() =~= items.subrange(0, i));
    if i == 0 {
        assert(Seq::<char>::empty() + Seq::<char>::empty() + items[0] =~= items[0]);
    }
}

fn push_disks(out: &mut String, ds: &Vec<DiskUsageData>)
    ensures
        final(out)@ == old(out)@ + disks_json(ds@),
{
    let ghost items = ds@.map_values(|d: DiskUsageData| disk_json(d));
    let n = ds.len();
    let mut i: usize = 0;
    while i < n
        invariant
            n == ds@.len(),
            items == ds@.map_values(|d: DiskUsageData| disk_json(d)),
            i <= n,
            out@ == old(out)@ + comma_joined(items.subrange(0, i as int)),
        decreases n - i,
    {
        proof {
            lemma_joined_step(items, i as int);
        }
        if i > 0 {
            out.push(',');
        }
        push_disk(out, &ds[i]);
        assert(out@ =~= old(out)@ + comma_joined(items.subrange(0, i + 1)));
        i += 1;
    }
    assert(items.subrange(0, n as int) =~= items);
}

fn push_temperatures(out: &mut String, ts: &Vec<ComponentTemperature>)
    ensures
        final(out)@ == old(out)@ + temperatures_json(ts@),
{
    let ghost items = ts@.map_values(|t: ComponentTemperature| temperature_json(t));
    let n = ts.len();
    let mut i: usize = 0;
    while i < n
        invariant
            n == ts@.len(),
            items == ts@.map_values(|t: ComponentTemperature| temperature_json(t)),
            i <= n,
            out@ == old(out)@ + comma_joined(items.subrange(0, i as int)),
        decreases n - i,
    {
        proof {
            lemma_joined_step(items, i as int);
        }
        if i > 0 {
            out.push(',');
        }
        push_temperature(out, &ts[i]);
        assert(out@ =~= old(out)@ + comma_joined(items.subrange(0, i + 1)));
        i += 1;
    }
    assert(items.subrange(0, n as int) =~= items);
}

fn push_processes(out: &mut String, ps: &Vec<ProcessInfo>)
    ensures
        final(out)@ == old(out)@ + processes_json(ps@),
{
    let ghost items = ps@.map_values(|p: ProcessInfo| process_json(p));
    let n = ps.len();
    let mut i: usize = 0;
    while i < n
        invariant
            n == ps@.len(),
            items == ps@.map_values(|p: ProcessInfo| process_json(p)),
            i <= n,
            out@ == old(out)@ + comma_joined(items.subrange(0, i as int)),
        decreases n - i,
    {
        proof {
            lemma_joined_step(items, i as int);
        }
        if i > 0 {
            out.push(',');
        }
        push_process(out, &ps[i]);
        assert(out@ =~= old(out)@ + comma_joined(items.subrange(0, i + 1)));
        i += 1;
    }
    assert(items.subrange(0, n as int) =~= items);
}

/// The current aggregate as a JSON object.
pub fn encode_resources(r: &SystemResources) -> (s: String)
    ensures
        s@ == resources_json(*r),
{
    let mut out = String::new();
    out.append("{\"version\":");
    push_decimal(&mut out, r.version);
    out.append(",\"cpu\":");
    push_decimal(&mut out, r.cpu_usage.current_value());
    out.append(",\"ram\":");
    push_decimal(&mut out, r.ram_memory_usage.current_value());
    out.append(",\"swap\":");
    push_decimal(&mut out, r.swap_memory_usage.current_value());
    out.append(",\"network\":");
    push_network(&mut out, &r.network_usage.current_value());
    out.append(",\"disks\":[");
    push_disks(&mut out, &r.disk_usage);
    out.append("],\"temperatures\":[");
    push_temperatures(&mut out, &r.component_temperature);
    out.append("],\"processes\":[");
    push_processes(&mut out, &r.process_list);
    out.append("]}");
    assert(out@ =~= resources_json(*r));
    out
}

/// The event frame that carries snapshot `r`.
pub fn snapshot_event(r: &SystemResources) -> (s: String)
    ensures
        s@ == snapshot_frame(*r),
{
    let mut out = String::new();
    out.append("id: ");
    push_decimal(&mut out, r.version);
    out.append("\nevent: snapshot\ndata: ");
    let body = encode_resources(r);
    out.append(body.as_str());
    out.append("\n\n");
    assert(out@ =~= snapshot_frame(*r));
    out
}

/// The terminal event frame.
pub fn shutdown_event() -> (s: String)
    ensures
        s@ == shutdown_frame(),
{
    String::from_str("event: shutdown\ndata: {}\n\n")
}

/// What happens to a push connection.
#[derive(Clone, Copy, Debug, PartialEq, Eq, Structural)]
pub enum StreamEvent {
    /// The publish interval elapsed.
    IntervalElapsed,
    /// The process-wide shutdown signal fired.
    Shutdown,
    /// The transport closed: the client went away.
    Disconnected,
}

/// What the connection task does about an event.
#[derive(Clone, Copy, Debug, PartialEq, Eq, Structural)]
pub enum StreamAction {
    /// Read the latest snapshot and send it as one event.
    SendSnapshot,
    /// Send the terminal event, unsubscribe, close the connection.
    SendShutdownAndClose,
    /// Unsubscribe and end the task; nothing can be sent any more.
    UnsubscribeAndClose,
    /// The connection is closed: nothing to do.
    Ignore,
}

/// The decision for one event on a connection that is open or closed, and
/// whether it is open afterwards.
pub open spec fn stream_step(open: bool, e: StreamEvent) -> (bool, StreamAction) {
    if !open {
        (false, StreamAction::Ignore)
    } else {
        match e {
            StreamEvent::IntervalElapsed => (true, StreamAction::SendSnapshot),
            StreamEvent::Shutdown => (false, StreamAction::SendShutdownAndClose),
            StreamEvent::Disconnected => (false, StreamAction::UnsubscribeAndClose),
        }
    }
}

/// The decisions for a run of events, in order.
pub open spec fn stream_actions(open: bool, events: Seq<StreamEvent>) -> Seq<StreamAction>
    decreases events.len(),
{
    if events.len() == 0 {
        Seq::empty()
    } else {
        let (next, a) = stream_step(open, events[0]);
        seq![a] + stream_actions(next, events.subrange(1, events.len() as int))
    }
}

/// One push consumer's connection: its subscription handle, and whether it
/// is still open.
pub struct StreamPublisher {
    pub handle: u64,
    pub open: bool,
}

impl StreamPublisher {
    /// An open connection for the subscription `handle`.
    pub fn new(handle: u64) -> (r: StreamPublisher)
        ensures
            r.handle == handle,
            r.open,
    {
        StreamPublisher { handle, open: true }
    }

    /// Decides what to do about `event`: send a snapshot on each interval
    /// while open; on shutdown send the terminal event and close; on
    /// disconnection unsubscribe and close; once closed, nothing.
    pub fn on_event(&mut self, event: StreamEvent) -> (r: StreamAction)
        ensures
            final(self).handle == old(self).handle,
            (final(self).open, r) == stream_step(old(self).open, event),
    {
        if !self.open {
            return StreamAction::Ignore;
        }
        match event {
            StreamEvent::IntervalElapsed => StreamAction::SendSnapshot,
            StreamEvent::Shutdown => {
                self.open = false;
                StreamAction::SendShutdownAndClose
            },
            StreamEvent::Disconnected => {
                self.open = false;
                StreamAction::UnsubscribeAndClose
            },
        }
    }
}

proof fn lemma_closed_stays_quiet(events: Seq<StreamEvent>)
    ensures
        forall|i: int| 0 <= i < stream_actions(false, events).len()
            ==> #[trigger] stream_actions(false, events)[i] == StreamAction::Ignore,
        stream_actions(false, events).len() == events.len(),
    decreases events.len(),
{
    if events.len() > 0 {
        let rest = events.subrange(1, events.len() as int);
        lemma_closed_stays_quiet(rest);
        let all = stream_actions(false, events);
        assert forall|i: int| 0 <= i < all.len() implies #[trigger] all[i] == StreamAction::Ignore by {
            if i > 0 {
                assert(all[i] == stream_actions(false, rest)[i - 1]);
            }
        }
    }
}

/// Whatever events reach a connection, it sends at most one terminal event,
/// and after it closes (by shutdown or by disconnection) it does nothing
/// more: every later decision is to ignore.
pub proof fn lemma_nothing_after_close(open: bool, events: Seq<StreamEvent>)
    ensures
        stream_actions(open, events).len() == events.len(),
        forall|i: int, j: int|
            0 <= i < j < events.len() && (#[trigger] stream_actions(open, events)[i]
                == StreamAction::SendShutdownAndClose || stream_actions(open, events)[i]
                == StreamAction::UnsubscribeAndClose) ==> #[trigger] stream_actions(open, events)[j]
                == StreamAction::Ignore,
    decreases events.len(),
{
    if events.len() > 0 {
        let (next, a) = stream_step(open, events[0]);
        let rest = events.subrange(1, events.len() as int);
        lemma_nothing_after_close(next, rest);
        let all = stream_actions(open, events);
        let tail = stream_actions(next, rest);
        if !next {
            lemma_closed_stays_quiet(rest);
        }
        assert forall|i: int, j: int|
            0 <= i < j < events.len() && (#[trigger] all[i] == StreamAction::SendShutdownAndClose
                || all[i] == StreamAction::UnsubscribeAndClose) implies #[trigger] all[j]
            == StreamAction::Ignore by {
            assert(all[j] == tail[j - 1]);
            if i > 0 {
                assert(all[i] == tail[i - 1]);
            }
        }
    }
}

} // verus!
