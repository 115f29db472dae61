//! Network traffic counters of the client.
use vstd::prelude::*;

verus! {

/// Bytes, frames and events or commands received and sent.
#[derive(Debug, Clone, Copy, Default, PartialEq, Eq, Structural)]
pub struct NetStats {
    pub in_bytes: u32,
    pub in_frames: u32,
    pub in_events: u32,
    pub out_bytes: u32,
    pub out_frames: u32,
    pub out_commands: u32,
}

impl NetStats {
    /// No traffic.
    pub fn new() -> (s: NetStats)
        ensures
            s == (NetStats { in_bytes: 0, in_frames: 0, in_events: 0, out_bytes: 0, out_frames: 0, out_commands: 0 }),
    {
        NetStats { in_bytes: 0, in_frames: 0, in_events: 0, out_bytes: 0, out_frames: 0, out_commands: 0 }
    }

    /// Counts a received frame of `len` bytes holding `events` events.
    pub fn record_net_event(&mut self, len: u32, events: u32)
        requires
            old(self).in_frames + 1 <= u32::MAX,
            old(self).in_events + events <= u32::MAX,
            old(self).in_bytes + len <= u32::MAX,
        ensures
            *final(self) == (NetStats {
                in_frames: (old(self).in_frames + 1) as u32,
                in_events: (old(self).in_events + events) as u32,
                in_bytes: (old(self).in_bytes + len) as u32,
                ..*old(self)
            }),
    {
        self.in_frames = self.in_frames + 1;
        self.in_events = self.in_events + events;
        self.in_bytes = self.in_bytes + len;
    }

    /// Counts a sent frame of `len` bytes holding `commands` commands.
    pub fn record_net_command(&mut self, len: u32, commands: u32)
        requires
            old(self).out_frames + 1 <= u32::MAX,
            old(self).out_commands + commands <= u32::MAX,
            old(self).out_bytes + len <= u32::MAX,
        ensures
            *final(self) == (NetStats {
                out_frames: (old(self).out_frames + 1) as u32,
                out_commands: (old(self).out_commands + commands) as u32,
                out_bytes: (old(self).out_bytes + len) as u32,
                ..*old(self)
            }),
    {
        self.out_frames = self.out_frames + 1;
        self.out_commands = self.out_commands + commands;
        self.out_bytes = self.out_bytes + len;
    }
}

} // verus!
