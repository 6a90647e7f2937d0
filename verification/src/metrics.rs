//! Counters and gauges exposed by `/metrics`, and their Prometheus text
//! rendering.

use vstd::prelude::*;

use crate::text::{decimal, push_decimal, push_str};

verus! {

/// Process counters and gauges. Counters wrap around like machine words;
/// gauges never drop below zero.
#[derive(Debug, Clone, Copy, PartialEq, Eq, Structural)]
pub struct ServerMetrics {
    pub active_rooms: u64,
    pub active_sockets: u64,
    pub connected_players: u64,
    pub rooms_created: u64,
    pub incoming_messages: u64,
    pub outgoing_messages: u64,
    pub incoming_bytes: u64,
    pub outgoing_bytes: u64,
    pub decode_failures: u64,
    pub rate_limit_rejections: u64,
    pub slow_client_disconnects: u64,
}

/// Counter increment with wrap-around.
pub open spec fn bump(a: u64, n: u64) -> u64 {
    ((a as int + n as int) % 0x1_0000_0000_0000_0000) as u64
}

/// Gauge decrement that stops at zero.
pub open spec fn drop_one(a: u64) -> u64 {
    if a == 0 {
        0
    } else {
        (a - 1) as u64
    }
}

/// A byte count as a counter increment.
pub open spec fn byte_count(n: usize) -> u64 {
    if n > u64::MAX {
        u64::MAX
    } else {
        n as u64
    }
}

/// One metric in the text exposition format: its type line, then its
/// sample line.
pub open spec fn metric_block(name: Seq<char>, kind: Seq<char>, value: u64) -> Seq<char> {
    "# TYPE "@ + name + " "@ + kind + "\n"@ + name + " "@ + decimal(value as nat) + "\n"@
}

/// The whole exposition, one block per metric in a fixed order.
pub open spec fn exposition(m: ServerMetrics) -> Seq<char> {
    metric_block("ndraw_active_rooms"@, "gauge"@, m.active_rooms)
        + metric_block("ndraw_active_sockets"@, "gauge"@, m.active_sockets)
        + metric_block("ndraw_connected_players"@, "gauge"@, m.connected_players)
        + metric_block("ndraw_rooms_created_total"@, "counter"@, m.rooms_created)
        + metric_block("ndraw_incoming_messages_total"@, "counter"@, m.incoming_messages)
        + metric_block("ndraw_outgoing_messages_total"@, "counter"@, m.outgoing_messages)
        + metric_block("ndraw_incoming_bytes_total"@, "counter"@, m.incoming_bytes)
        + metric_block("ndraw_outgoing_bytes_total"@, "counter"@, m.outgoing_bytes)
        + metric_block("ndraw_decode_failures_total"@, "counter"@, m.decode_failures)
        + metric_block("ndraw_rate_limit_rejections_total"@, "counter"@, m.rate_limit_rejections)
        + metric_block("ndraw_slow_client_disconnects_total"@, "counter"@, m.slow_client_disconnects)
}

/// Appends one metric block.
fn push_metric(out: &mut String, name: &str, kind: &str, value: u64)
    ensures
        final(out)@ == old(out)@ + metric_block(name@, kind@, value),
{
    let ghost start = out@;
    push_str(out, "# TYPE ");
    push_str(out, name);
    push_str(out, " ");
    push_str(out, kind);
    push_str(out, "\n");
    push_str(out, name);
    push_str(out, " ");
    push_decimal(out, value);
    push_str(out, "\n");
    assert(out@ =~= start + metric_block(name@, kind@, value));
}

/// Counts bytes, saturating at the largest `u64`.
pub fn saturating_usize(value: usize) -> (r: u64)
    ensures
        r == byte_count(value),
{
    if value as u128 > u64::MAX as u128 {
        u64::MAX
    } else {
        value as u64
    }
}

/// The counters after a room was created.
pub open spec fn after_room_created(m: ServerMetrics) -> ServerMetrics {
    ServerMetrics { active_rooms: bump(m.active_rooms, 1), rooms_created: bump(m.rooms_created, 1), ..m }
}

/// The counters after a room closed.
pub open spec fn after_room_closed(m: ServerMetrics) -> ServerMetrics {
    ServerMetrics { active_rooms: drop_one(m.active_rooms), ..m }
}

/// The counters after a history of room events, `true` for a creation and
/// `false` for a closure.
pub open spec fn after_room_events(m: ServerMetrics, events: Seq<bool>) -> ServerMetrics
    decreases events.len(),
{
    if events.len() == 0 {
        m
    } else {
        let p = after_room_events(m, events.drop_last());
        if events.last() {
            after_room_created(p)
        } else {
            after_room_closed(p)
        }
    }
}

/// Open rooms after a history of room events, counted from `start`: one
/// more for each creation, one fewer for each closure but never below zero.
pub open spec fn rooms_open(start: u64, events: Seq<bool>) -> u64
    decreases events.len(),
{
    if events.len() == 0 {
        start
    } else {
        let a = rooms_open(start, events.drop_last());
        if events.last() {
            bump(a, 1)
        } else {
            drop_one(a)
        }
    }
}

/// The active-room gauge replays the room history: after any sequence of
/// `room_created` and `room_closed` calls it holds the count of open rooms,
/// each closure saturating at zero, and only the room counters change.
pub proof fn lemma_active_rooms_replay(m: ServerMetrics, events: Seq<bool>)
    ensures
        after_room_events(m, events).active_rooms == rooms_open(m.active_rooms, events),
        after_room_events(m, events).active_sockets == m.active_sockets,
        after_room_events(m, events).connected_players == m.connected_players,
    decreases events.len(),
{
    if events.len() > 0 {
        lemma_active_rooms_replay(m, events.drop_last());
    }
}

/// Lowers a gauge by one without going below zero.
pub fn decrement(value: &mut u64)
    ensures
        *final(value) == drop_one(*old(value)),
{
    *value = value.saturating_sub(1);
}

impl ServerMetrics {
    /// All counters and gauges at zero.
    pub open spec fn spec_zero() -> ServerMetrics {
        ServerMetrics {
            active_rooms: 0,
            active_sockets: 0,
            connected_players: 0,
            rooms_created: 0,
            incoming_messages: 0,
            outgoing_messages: 0,
            incoming_bytes: 0,
            outgoing_bytes: 0,
            decode_failures: 0,
            rate_limit_rejections: 0,
            slow_client_disconnects: 0,
        }
    }

    /// A room actor started.
    pub fn room_created(&mut self)
        ensures
            *final(self) == after_room_created(*old(self)),
    {
        self.active_rooms = self.active_rooms.wrapping_add(1);
        self.rooms_created = self.rooms_created.wrapping_add(1);
    }

    /// A room actor stopped.
    pub fn room_closed(&mut self)
        ensures
            *final(self) == after_room_closed(*old(self)),
    {
        decrement(&mut self.active_rooms);
    }

    /// A WebSocket joined a room.
    pub fn socket_connected(&mut self)
        ensures
            *final(self) == (ServerMetrics {
                active_sockets: bump(old(self).active_sockets, 1),
                connected_players: bump(old(self).connected_players, 1),
                ..*old(self)
            }),
    {
        self.active_sockets = self.active_sockets.wrapping_add(1);
        self.connected_players = self.connected_players.wrapping_add(1);
    }

    /// A joined WebSocket ended.
    pub fn socket_disconnected(&mut self)
        ensures
            *final(self) == (ServerMetrics {
                active_sockets: drop_one(old(self).active_sockets),
                connected_players: drop_one(old(self).connected_players),
                ..*old(self)
            }),
    {
        decrement(&mut self.active_sockets);
        decrement(&mut self.connected_players);
    }

    /// One frame of `bytes` bytes arrived.
    pub fn incoming(&mut self, bytes: usize)
        ensures
            *final(self) == (ServerMetrics {
                incoming_messages: bump(old(self).incoming_messages, 1),
                incoming_bytes: bump(old(self).incoming_bytes, byte_count(bytes)),
                ..*old(self)
            }),
    {
        self.incoming_messages = self.incoming_messages.wrapping_add(1);
        self.incoming_bytes = self.incoming_bytes.wrapping_add(saturating_usize(bytes));
    }

    /// One frame of `bytes` bytes was sent.
    pub fn outgoing(&mut self, bytes: usize)
        ensures
            *final(self) == (ServerMetrics {
                outgoing_messages: bump(old(self).outgoing_messages, 1),
                outgoing_bytes: bump(old(self).outgoing_bytes, byte_count(bytes)),
                ..*old(self)
            }),
    {
        self.outgoing_messages = self.outgoing_messages.wrapping_add(1);
        self.outgoing_bytes = self.outgoing_bytes.wrapping_add(saturating_usize(bytes));
    }

    /// A frame could not be decoded.
    pub fn decode_failure(&mut self)
        ensures
            *final(self) == (ServerMetrics { decode_failures: bump(old(self).decode_failures, 1), ..*old(self) }),
    {
        self.decode_failures = self.decode_failures.wrapping_add(1);
    }

    /// A message was refused by a rate limit.
    pub fn rate_limit_rejection(&mut self)
        ensures
            *final(self) == (ServerMetrics {
                rate_limit_rejections: bump(old(self).rate_limit_rejections, 1),
                ..*old(self)
            }),
    {
        self.rate_limit_rejections = self.rate_limit_rejections.wrapping_add(1);
    }

    /// A client too slow to drain its queue was disconnected.
    pub fn slow_client_disconnect(&mut self)
        ensures
            *final(self) == (ServerMetrics {
                slow_client_disconnects: bump(old(self).slow_client_disconnects, 1),
                ..*old(self)
            }),
    {
        self.slow_client_disconnects = self.slow_client_disconnects.wrapping_add(1);
    }

    /// Returns the current active-room gauge.
    pub fn active_rooms(&self) -> (n: u64)
        ensures
            n == self.active_rooms,
    {
        self.active_rooms
    }

    /// Renders the Prometheus text exposition format.
    pub fn render(&self) -> (s: String)
        ensures
            s@ == exposition(*self),
    {
        let mut out = String::new();
        push_metric(&mut out, "ndraw_active_rooms", "gauge", self.active_rooms);
        push_metric(&mut out, "ndraw_active_sockets", "gauge", self.active_sockets);
        push_metric(&mut out, "ndraw_connected_players", "gauge", self.connected_players);
        push_metric(&mut out, "ndraw_rooms_created_total", "counter", self.rooms_created);
        push_metric(&mut out, "ndraw_incoming_messages_total", "counter", self.incoming_messages);
        push_metric(&mut out, "ndraw_outgoing_messages_total", "counter", self.outgoing_messages);
        push_metric(&mut out, "ndraw_incoming_bytes_total", "counter", self.incoming_bytes);
        push_metric(&mut out, "ndraw_outgoing_bytes_total", "counter", self.outgoing_bytes);
        push_metric(&mut out, "ndraw_decode_failures_total", "counter", self.decode_failures);
        push_metric(&mut out, "ndraw_rate_limit_rejections_total", "counter", self.rate_limit_rejections);
        push_metric(&mut out, "ndraw_slow_client_disconnects_total", "counter", self.slow_client_disconnects);
        assert(out@ =~= exposition(*self));
        out
    }
}

impl Default for ServerMetrics {
    fn default() -> (m: Self)
        ensures
            m == ServerMetrics::spec_zero(),
    {
        ServerMetrics {
            active_rooms: 0,
            active_sockets: 0,
            connected_players: 0,
            rooms_created: 0,
            incoming_messages: 0,
            outgoing_messages: 0,
            incoming_bytes: 0,
            outgoing_bytes: 0,
            decode_failures: 0,
            rate_limit_rejections: 0,
            slow_client_disconnects: 0,
        }
    }
}

} // verus!
