//! Containers: the counters of one container as a reading.

use crate::encode::{label, lemma_concat_whole, push_head, push_label, push_tail, sample};
use crate::number::{decimal, fixed_point, push_fixed, round_ratio, rounded_ratio};
use crate::power::capped_sum;
use crate::SensorData;
use vstd::prelude::*;
use vstd::string::StringExecFns;

verus! {

/// What the container runtime reports for one container.
#[derive(Debug, Clone)]
pub struct ContainerStats {
    pub name: String,
    pub image: Option<String>,
    /// The memory in use, in bytes.
    pub memory_usage: Option<u64>,
    /// The processor time used, in nanoseconds.
    pub cpu_total_usage: u64,
    /// The number of processors that the container may use.
    pub online_cpus: Option<u64>,
    /// The bytes received and sent, one pair per network.
    pub networks: Vec<(u64, u64)>,
}

/// The counters of one container: memory in bytes, processor time per
/// processor in thousandths of a second, and network traffic in bytes.
#[derive(Debug, Clone)]
pub struct Container {
    pub name: String,
    pub image: String,
    pub memory: u64,
    pub cpu_time: u64,
    pub network_sent: u64,
    pub network_received: u64,
}

/// The bytes received over all networks, which stop at the largest 64-bit value.
pub open spec fn received_total(networks: Seq<(u64, u64)>) -> u64
    decreases networks.len(),
{
    if networks.len() == 0 {
        0
    } else {
        capped_sum(received_total(networks.drop_last()), networks.last().0 as nat)
    }
}

/// The bytes sent over all networks, which stop at the largest 64-bit value.
pub open spec fn sent_total(networks: Seq<(u64, u64)>) -> u64
    decreases networks.len(),
{
    if networks.len() == 0 {
        0
    } else {
        capped_sum(sent_total(networks.drop_last()), networks.last().1 as nat)
    }
}

/// The number of processors to divide by: the reported number, or 1 where
/// none or 0 is reported.
pub open spec fn processors(online_cpus: Option<u64>) -> u64 {
    match online_cpus {
        Some(n) if n > 0 => n,
        _ => 1,
    }
}

/// The processor time per processor in thousandths of a second, from
/// nanoseconds; it stops at the largest 64-bit value.
pub open spec fn cpu_thousandths(total_usage: u64, online_cpus: Option<u64>) -> u64 {
    let value = rounded_ratio(
        total_usage as nat,
        (1_000_000_000 * processors(online_cpus)) as nat,
        3,
    );
    if value > u64::MAX {
        u64::MAX
    } else {
        value as u64
    }
}

impl Container {
    /// The counters of a container, from what the runtime reports: an
    /// unknown image is the empty name, unknown memory is 0.
    pub fn from_stats(stats: ContainerStats) -> (c: Container)
        ensures
            c.name@ == stats.name@,
            c.image@ == match stats.image {
                Some(image) => image@,
                None => Seq::<char>::empty(),
            },
            c.memory == match stats.memory_usage {
                Some(bytes) => bytes,
                None => 0,
            },
            c.cpu_time == cpu_thousandths(stats.cpu_total_usage, stats.online_cpus),
            c.network_sent == sent_total(stats.networks@),
            c.network_received == received_total(stats.networks@),
    {
        let cpus: u64 = match stats.online_cpus {
            Some(n) => if n > 0 {
                n
            } else {
                1
            },
            None => 1,
        };
        assert(1_000_000_000 * cpus <= 1_000_000_000 * 0xffff_ffff_ffff_ffff) by (nonlinear_arith)
            requires
                cpus <= 0xffff_ffff_ffff_ffff,
        ;
        let rate: u128 = 1_000_000_000 * (cpus as u128);
        let value = round_ratio(stats.cpu_total_usage as u128, rate, 3);
        let cpu_time: u64 = if value > 0xffff_ffff_ffff_ffff {
            0xffff_ffff_ffff_ffff
        } else {
            value as u64
        };
        let mut sent: u64 = 0;
        let mut received: u64 = 0;
        let mut i: usize = 0;
        assert(stats.networks@.take(0) =~= Seq::<(u64, u64)>::empty());
        while i < stats.networks.len()
            invariant
                i <= stats.networks.len(),
                sent == sent_total(stats.networks@.take(i as int)),
                received == received_total(stats.networks@.take(i as int)),
            decreases stats.networks.len() - i,
        {
            proof {
                let next = stats.networks@.take(i + 1);
                assert(next.drop_last() =~= stats.networks@.take(i as int));
                assert(next.last() == stats.networks@[i as int]);
            }
            received = received.saturating_add(stats.networks[i].0);
            sent = sent.saturating_add(stats.networks[i].1);
            i += 1;
        }
        assert(stats.networks@.take(i as int) =~= stats.networks@);
        Container {
            name: stats.name,
            image: match stats.image {
                Some(image) => image,
                None => String::new(),
            },
            memory: match stats.memory_usage {
                Some(bytes) => bytes,
                None => 0,
            },
            cpu_time,
            network_sent: sent,
            network_received: received,
        }
    }

    /// The labels that follow the host label: the container and its image.
    pub open spec fn labels(&self) -> Seq<char> {
        label("container"@, self.name@) + label("image"@, self.image@)
    }

    /// Appends the start of a sample of this container.
    fn push_start(&self, w: &mut String, family: &str, hostname: &str)
        ensures
            final(w)@ == old(w)@ + crate::encode::head(family@, hostname@) + self.labels(),
    {
        push_head(w, family, hostname);
        push_label(w, "container", self.name.as_str());
        push_label(w, "image", self.image.as_str());
        assert(w@ =~= old(w)@ + crate::encode::head(family@, hostname@) + self.labels());
    }
}

impl SensorData for Container {
    open spec fn rendered(&self, hostname: Seq<char>) -> Seq<char> {
        sample("container_memory"@, hostname, self.labels(), decimal(self.memory as nat)) + sample(
            "container_cpu_time"@,
            hostname,
            self.labels(),
            fixed_point(self.cpu_time as nat, 3),
        ) + sample(
            "container_net_sent"@,
            hostname,
            self.labels(),
            decimal(self.network_sent as nat),
        ) + sample(
            "container_net_received"@,
            hostname,
            self.labels(),
            decimal(self.network_received as nat),
        )
    }

    proof fn lemma_whole_lines(&self, hostname: Seq<char>) {
        let a = sample("container_memory"@, hostname, self.labels(), decimal(self.memory as nat));
        let b = sample(
            "container_cpu_time"@,
            hostname,
            self.labels(),
            fixed_point(self.cpu_time as nat, 3),
        );
        let c = sample(
            "container_net_sent"@,
            hostname,
            self.labels(),
            decimal(self.network_sent as nat),
        );
        let d = sample(
            "container_net_received"@,
            hostname,
            self.labels(),
            decimal(self.network_received as nat),
        );
        lemma_concat_whole(a, b);
        lemma_concat_whole(a + b, c);
        lemma_concat_whole(a + b + c, d);
    }

    fn write(&self, w: &mut String, hostname: &str) {
        self.push_start(w, "container_memory", hostname);
        push_tail(w, self.memory);
        self.push_start(w, "container_cpu_time", hostname);
        w.append("} ");
        push_fixed(w, self.cpu_time as u128, 3);
        w.push('\n');
        self.push_start(w, "container_net_sent", hostname);
        push_tail(w, self.network_sent);
        self.push_start(w, "container_net_received", hostname);
        push_tail(w, self.network_received);
        assert(w@ =~= old(w)@ + self.rendered(hostname@));
    }
}

} // verus!
