use vstd::prelude::*;
use std::collections::HashMap;
use vstd::utf8::decode_utf8;
use crate::text::{
    all_ascii, append_bytes, decimal, decimal_bytes, lemma_ascii_valid_utf8, lemma_decimal_ascii,
    string_from_valid_utf8,
};

verus! {

/// Formatted statistics of one user, as served to the monitoring page.
#[derive(Debug, Clone)]
pub struct UserMonitorData {
    pub uuid: String,
    pub email: Option<String>,
    pub upload_speed: String,
    pub download_speed: String,
    pub total_traffic: String,
    pub active_connections: usize,
}

/// Formatted server statistics, as served to the monitoring page.
#[derive(Debug, Clone)]
pub struct MonitorData {
    pub timestamp: String,
    pub upload_speed: String,
    pub download_speed: String,
    pub total_traffic: String,
    pub uptime: String,
    pub memory_usage: String,
    pub total_memory: String,
    pub active_connections: usize,
    pub max_connections: usize,
    pub rejected_connections: u64,
    pub public_ip: String,
    pub users: Vec<UserMonitorData>,
}

/// One point of the speed history.
#[derive(Debug, Clone)]
pub struct SpeedHistoryItem {
    pub timestamp: String,
    pub upload_speed: String,
    pub download_speed: String,
}

/// The speed history and the span it covers.
#[derive(Debug, Clone)]
pub struct SpeedHistoryResponse {
    pub history: Vec<SpeedHistoryItem>,
    pub duration_seconds: u64,
}

/// `Nd Nh Nm Ns`, leaving out the leading units that are zero.
pub open spec fn spec_duration_text(total: nat) -> Seq<u8> {
    let days = total / 86400;
    let hours = (total % 86400) / 3600;
    let minutes = (total % 3600) / 60;
    let seconds = total % 60;
    let s = decimal(seconds) + seq![115u8];
    let ms = decimal(minutes) + seq![109u8, 32] + s;
    let hms = decimal(hours) + seq![104u8, 32] + ms;
    if days > 0 {
        decimal(days) + seq![100u8, 32] + hms
    } else if hours > 0 {
        hms
    } else if minutes > 0 {
        ms
    } else {
        s
    }
}

proof fn lemma_concat_ascii(a: Seq<u8>, b: Seq<u8>)
    requires
        all_ascii(a),
        all_ascii(b),
    ensures
        all_ascii(a + b),
{
    assert forall|i: int| 0 <= i < (a + b).len() implies #[trigger] (a + b)[i] < 128 by {
        if i < a.len() {
            assert((a + b)[i] == a[i]);
        } else {
            assert((a + b)[i] == b[i - a.len()]);
        }
    }
}

/// Formats an uptime given in seconds.
pub fn format_duration(total_secs: u64) -> (r: String)
    ensures
        r@ == decode_utf8(spec_duration_text(total_secs as nat)),
{
    let days = total_secs / 86400;
    let hours = (total_secs % 86400) / 3600;
    let minutes = (total_secs % 3600) / 60;
    let seconds = total_secs % 60;
    let mut out: Vec<u8> = Vec::new();
    if days > 0 {
        append_bytes(&mut out, decimal_bytes(days).as_slice());
        out.push(100);
        out.push(32);
    }
    if days > 0 || hours > 0 {
        append_bytes(&mut out, decimal_bytes(hours).as_slice());
        out.push(104);
        out.push(32);
    }
    if days > 0 || hours > 0 || minutes > 0 {
        append_bytes(&mut out, decimal_bytes(minutes).as_slice());
        out.push(109);
        out.push(32);
    }
    append_bytes(&mut out, decimal_bytes(seconds).as_slice());
    out.push(115);
    let ghost t = total_secs as nat;
    assert(out@ =~= spec_duration_text(t));
    proof {
        lemma_decimal_ascii(t / 86400);
        lemma_decimal_ascii((t % 86400) / 3600);
        lemma_decimal_ascii((t % 3600) / 60);
        lemma_decimal_ascii(t % 60);
        let s = decimal(t % 60) + seq![115u8];
        lemma_concat_ascii(decimal(t % 60), seq![115u8]);
        lemma_concat_ascii(decimal((t % 3600) / 60), seq![109u8, 32]);
        lemma_concat_ascii(decimal((t % 3600) / 60) + seq![109u8, 32], s);
        let ms = decimal((t % 3600) / 60) + seq![109u8, 32] + s;
        lemma_concat_ascii(decimal((t % 86400) / 3600), seq![104u8, 32]);
        lemma_concat_ascii(decimal((t % 86400) / 3600) + seq![104u8, 32], ms);
        let hms = decimal((t % 86400) / 3600) + seq![104u8, 32] + ms;
        lemma_concat_ascii(decimal(t / 86400), seq![100u8, 32]);
        lemma_concat_ascii(decimal(t / 86400) + seq![100u8, 32], hms);
        lemma_ascii_valid_utf8(spec_duration_text(t));
    }
    string_from_valid_utf8(out)
}

broadcast use vstd::std_specs::hash::group_hash_axioms;

/// `a + b`, or the largest value when that overflows.
pub open spec fn sat_add(a: u64, b: u64) -> u64 {
    if a + b > u64::MAX {
        u64::MAX
    } else {
        (a + b) as u64
    }
}

/// Traffic and connection counters of one user.
#[derive(Debug, Clone, Copy, PartialEq, Eq, Structural)]
pub struct UserCounters {
    pub upload: u64,
    pub download: u64,
    pub active: u64,
}

pub open spec fn counters_or_zero(m: Map<u128, UserCounters>, uuid: u128) -> UserCounters {
    if m.contains_key(uuid) {
        m[uuid]
    } else {
        UserCounters { upload: 0, download: 0, active: 0 }
    }
}

/// Process-wide accounting: totals, per-user counters, sessions now
/// running and accepts refused. Counters saturate instead of wrapping.
pub struct Stats {
    pub upload: u64,
    pub download: u64,
    pub active: u64,
    pub rejected: u64,
    pub users: HashMap<u128, UserCounters>,
}

impl Stats {
    pub fn new() -> (r: Stats)
        ensures
            r.upload == 0 && r.download == 0 && r.active == 0 && r.rejected == 0,
            r.users@ == Map::<u128, UserCounters>::empty(),
    {
        Stats { upload: 0, download: 0, active: 0, rejected: 0, users: HashMap::new() }
    }

    fn user(&self, uuid: u128) -> (r: UserCounters)
        ensures
            r == counters_or_zero(self.users@, uuid),
    {
        match self.users.get(&uuid) {
            Some(c) => *c,
            None => UserCounters { upload: 0, download: 0, active: 0 },
        }
    }

    pub fn add_upload_bytes(&mut self, bytes: u64)
        ensures
            final(self).upload == sat_add(old(self).upload, bytes),
            final(self).download == old(self).download,
            final(self).active == old(self).active,
            final(self).rejected == old(self).rejected,
            final(self).users@ == old(self).users@,
    {
        self.upload = self.upload.saturating_add(bytes);
    }

    pub fn add_download_bytes(&mut self, bytes: u64)
        ensures
            final(self).download == sat_add(old(self).download, bytes),
            final(self).upload == old(self).upload,
            final(self).active == old(self).active,
            final(self).rejected == old(self).rejected,
            final(self).users@ == old(self).users@,
    {
        self.download = self.download.saturating_add(bytes);
    }

    /// Counts uploaded bytes, in the total and for the user.
    pub fn add_user_upload_bytes(&mut self, uuid: u128, bytes: u64)
        ensures
            final(self).upload == sat_add(old(self).upload, bytes),
            final(self).download == old(self).download,
            final(self).active == old(self).active,
            final(self).rejected == old(self).rejected,
            final(self).users@ == old(self).users@.insert(
                uuid,
                UserCounters {
                    upload: sat_add(counters_or_zero(old(self).users@, uuid).upload, bytes),
                    ..counters_or_zero(old(self).users@, uuid)
                },
            ),
    {
        self.add_upload_bytes(bytes);
        let c = self.user(uuid);
        self.users.insert(uuid, UserCounters { upload: c.upload.saturating_add(bytes), ..c });
    }

    /// Counts downloaded bytes, in the total and for the user.
    pub fn add_user_download_bytes(&mut self, uuid: u128, bytes: u64)
        ensures
            final(self).download == sat_add(old(self).download, bytes),
            final(self).upload == old(self).upload,
            final(self).active == old(self).active,
            final(self).rejected == old(self).rejected,
            final(self).users@ == old(self).users@.insert(
                uuid,
                UserCounters {
                    download: sat_add(counters_or_zero(old(self).users@, uuid).download, bytes),
                    ..counters_or_zero(old(self).users@, uuid)
                },
            ),
    {
        self.add_download_bytes(bytes);
        let c = self.user(uuid);
        self.users.insert(uuid, UserCounters { download: c.download.saturating_add(bytes), ..c });
    }

    /// A session of the user started.
    pub fn increment_user_connection(&mut self, uuid: u128)
        ensures
            final(self).active == sat_add(old(self).active, 1),
            final(self).upload == old(self).upload,
            final(self).download == old(self).download,
            final(self).rejected == old(self).rejected,
            final(self).users@ == old(self).users@.insert(
                uuid,
                UserCounters {
                    active: sat_add(counters_or_zero(old(self).users@, uuid).active, 1),
                    ..counters_or_zero(old(self).users@, uuid)
                },
            ),
    {
        self.active = self.active.saturating_add(1);
        let c = self.user(uuid);
        self.users.insert(uuid, UserCounters { active: c.active.saturating_add(1), ..c });
    }

    /// A session of the user ended.
    pub fn decrement_user_connection(&mut self, uuid: u128)
        ensures
            final(self).active == if old(self).active == 0 { 0 } else { (old(self).active - 1) as u64 },
            final(self).upload == old(self).upload,
            final(self).download == old(self).download,
            final(self).rejected == old(self).rejected,
            old(self).users@.contains_key(uuid) ==> final(self).users@ == old(self).users@.insert(
                uuid,
                UserCounters {
                    active: if old(self).users@[uuid].active == 0 {
                        0
                    } else {
                        (old(self).users@[uuid].active - 1) as u64
                    },
                    ..old(self).users@[uuid]
                },
            ),
            !old(self).users@.contains_key(uuid) ==> final(self).users@ == old(self).users@,
    {
        self.active = self.active.saturating_sub(1);
        match self.users.get(&uuid) {
            Some(c) => {
                let c = *c;
                self.users.insert(uuid, UserCounters { active: c.active.saturating_sub(1), ..c });
            },
            None => {},
        }
    }

    pub fn increment_rejected_connections(&mut self)
        ensures
            final(self).rejected == sat_add(old(self).rejected, 1),
            final(self).upload == old(self).upload,
            final(self).download == old(self).download,
            final(self).active == old(self).active,
            final(self).users@ == old(self).users@,
    {
        self.rejected = self.rejected.saturating_add(1);
    }

    pub fn get_active_connections(&self) -> (r: u64)
        ensures
            r == self.active,
    {
        self.active
    }

    pub fn get_rejected_connections(&self) -> (r: u64)
        ensures
            r == self.rejected,
    {
        self.rejected
    }

    /// The counters of one user (zero for an unknown user).
    pub fn get_user(&self, uuid: u128) -> (r: UserCounters)
        ensures
            r == counters_or_zero(self.users@, uuid),
    {
        self.user(uuid)
    }
}

} // verus!
