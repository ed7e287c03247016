use vstd::prelude::*;
use vstd::map::*;
use crate::ap::{AP, ApView};
use crate::client::{Client, ClientView};
use crate::numfmt::{spec_dec, u64_to_string};

verus! {

/// One gauge observation: a metric name, a set of dimensional labels in a
/// fixed order, and the observed value.
pub struct MetricSample {
    pub name: String,
    pub labels: Vec<(String, String)>,
    pub value: u64,
}

#[verifier::ext_equal]
pub struct MetricSampleView {
    pub name: Seq<char>,
    pub labels: Seq<(Seq<char>, Seq<char>)>,
    pub value: u64,
}

impl View for MetricSample {
    type V = MetricSampleView;

    open spec fn view(&self) -> MetricSampleView {
        MetricSampleView {
            name: self.name@,
            labels: Seq::new(self.labels@.len(), |i: int| (self.labels@[i].0@, self.labels@[i].1@)),
            value: self.value,
        }
    }
}

/// What identifies a gauge in the registry: its name together with its
/// exact label set.
pub open spec fn spec_key(s: MetricSampleView) -> (Seq<char>, Seq<(Seq<char>, Seq<char>)>) {
    (s.name, s.labels)
}

/// The map that a run of samples builds up, later samples overwriting
/// earlier ones with the same name and label set.
pub open spec fn spec_samples_map(s: Seq<MetricSampleView>) -> Map<
    (Seq<char>, Seq<(Seq<char>, Seq<char>)>),
    u64,
>
    decreases s.len(),
{
    if s.len() == 0 {
        Map::empty()
    } else {
        spec_samples_map(s.drop_last()).insert(spec_key(s.last()), s.last().value)
    }
}

/// The metric registry: process-wide state that persists across scrapes.
/// Writing a gauge with a name and label set overwrites any prior value
/// for that exact combination; nothing accumulates and nothing is evicted.
pub struct Registry {
    samples: Vec<MetricSample>,
}

impl Registry {
    /// The views of the stored samples, in store order.
    pub closed spec fn entries(self) -> Seq<MetricSampleView> {
        Seq::new(self.samples@.len(), |i: int| self.samples@[i]@)
    }

    /// The registry as a map from gauge identity to its current value.
    pub open spec fn as_map(self) -> Map<(Seq<char>, Seq<(Seq<char>, Seq<char>)>), u64> {
        spec_samples_map(self.entries())
    }

    /// No two stored samples share a gauge identity.
    pub closed spec fn wf(self) -> bool {
        forall|i: int, j: int|
            0 <= i < j < self.entries().len() ==> spec_key(#[trigger] self.entries()[i])
                != spec_key(#[trigger] self.entries()[j])
    }

    pub fn new() -> (r: Registry)
        ensures
            r.wf(),
            r.as_map() == Map::<(Seq<char>, Seq<(Seq<char>, Seq<char>)>), u64>::empty(),
            r.entries() == Seq::<MetricSampleView>::empty(),
    {
        let r = Registry { samples: Vec::new() };
        proof {
            assert(r.entries() =~= Seq::<MetricSampleView>::empty());
        }
        r
    }

    /// The stored samples, for rendering; store order carries no meaning
    /// beyond first-write order.
    pub fn samples(&self) -> (r: &Vec<MetricSample>)
        ensures
            r@.len() == self.entries().len(),
            forall|i: int| 0 <= i < r@.len() ==> (#[trigger] r@[i])@ == self.entries()[i],
    {
        &self.samples
    }
}

fn str_pair_eq(a: &(String, String), b: &(String, String)) -> (r: bool)
    ensures
        r == ((a.0@, a.1@) == (b.0@, b.1@)),
{
    let r = a.0 == b.0 && a.1 == b.1;
    proof {
        if a.0@ == b.0@ && a.1@ == b.1@ {
            assert((a.0@, a.1@) == (b.0@, b.1@));
        }
    }
    r
}

fn labels_eq(a: &Vec<(String, String)>, b: &Vec<(String, String)>) -> (r: bool)
    ensures
        r == (Seq::new(a@.len(), |i: int| (a@[i].0@, a@[i].1@)) == Seq::new(
            b@.len(),
            |i: int| (b@[i].0@, b@[i].1@),
        )),
{
    let ghost av = Seq::new(a@.len(), |i: int| (a@[i].0@, a@[i].1@));
    let ghost bv = Seq::new(b@.len(), |i: int| (b@[i].0@, b@[i].1@));
    if a.len() != b.len() {
        proof {
            assert(av.len() != bv.len());
        }
        return false;
    }
    let mut i: usize = 0;
    while i < a.len()
        invariant
            a@.len() == b@.len(),
            0 <= i <= a@.len(),
            av == Seq::new(a@.len(), |k: int| (a@[k].0@, a@[k].1@)),
            bv == Seq::new(b@.len(), |k: int| (b@[k].0@, b@[k].1@)),
            forall|j: int| 0 <= j < i ==> av[j] == bv[j],
        decreases a@.len() - i,
    {
        if !str_pair_eq(&a[i], &b[i]) {
            proof {
                assert(av[i as int] != bv[i as int]);
            }
            return false;
        }
        i = i + 1;
    }
    proof {
        assert(av =~= bv);
    }
    true
}

proof fn lemma_samples_map_contains(s: Seq<MetricSampleView>, k: (
    Seq<char>,
    Seq<(Seq<char>, Seq<char>)>,
))
    ensures
        spec_samples_map(s).contains_key(k) <==> exists|i: int|
            0 <= i < s.len() && spec_key(#[trigger] s[i]) == k,
    decreases s.len(),
{
    if s.len() > 0 {
        lemma_samples_map_contains(s.drop_last(), k);
        if spec_key(s.last()) == k {
            assert(spec_key(s[s.len() - 1]) == k);
        } else if spec_samples_map(s).contains_key(k) {
            let i = choose|i: int| 0 <= i < s.drop_last().len() && spec_key(
                #[trigger] s.drop_last()[i],
            ) == k;
            assert(spec_key(s[i]) == k);
        } else {
            assert forall|i: int| 0 <= i < s.len() implies spec_key(#[trigger] s[i]) != k by {
                if i < s.len() - 1 {
                    assert(s.drop_last()[i] == s[i]);
                }
            }
        }
    }
}

proof fn lemma_samples_map_value(s: Seq<MetricSampleView>, j: int)
    requires
        0 <= j < s.len(),
        forall|i1: int, i2: int|
            0 <= i1 < i2 < s.len() ==> spec_key(#[trigger] s[i1]) != spec_key(#[trigger] s[i2]),
    ensures
        spec_samples_map(s).contains_key(spec_key(s[j])),
        spec_samples_map(s)[spec_key(s[j])] == s[j].value,
    decreases s.len(),
{
    if j == s.len() - 1 {
    } else {
        assert forall|i1: int, i2: int|
            0 <= i1 < i2 < s.drop_last().len() implies spec_key(#[trigger] s.drop_last()[i1])
            != spec_key(#[trigger] s.drop_last()[i2]) by {
            assert(s.drop_last()[i1] == s[i1]);
            assert(s.drop_last()[i2] == s[i2]);
        }
        lemma_samples_map_value(s.drop_last(), j);
        assert(s.drop_last()[j] == s[j]);
        assert(spec_key(s[j]) != spec_key(s[s.len() - 1]));
    }
}

proof fn lemma_samples_map_update(s: Seq<MetricSampleView>, j: int, x: MetricSampleView)
    requires
        0 <= j < s.len(),
        spec_key(x) == spec_key(s[j]),
        forall|i1: int, i2: int|
            0 <= i1 < i2 < s.len() ==> spec_key(#[trigger] s[i1]) != spec_key(#[trigger] s[i2]),
    ensures
        spec_samples_map(s.update(j, x)) == spec_samples_map(s).insert(spec_key(x), x.value),
    decreases s.len(),
{
    let t = s.update(j, x);
    if j == s.len() - 1 {
        assert(t.drop_last() =~= s.drop_last());
        assert(t.last() == x);
        assert(spec_samples_map(t) =~= spec_samples_map(s).insert(spec_key(x), x.value));
    } else {
        assert forall|i1: int, i2: int|
            0 <= i1 < i2 < s.drop_last().len() implies spec_key(#[trigger] s.drop_last()[i1])
            != spec_key(#[trigger] s.drop_last()[i2]) by {
            assert(s.drop_last()[i1] == s[i1]);
            assert(s.drop_last()[i2] == s[i2]);
        }
        lemma_samples_map_update(s.drop_last(), j, x);
        assert(t.drop_last() =~= s.drop_last().update(j, x));
        assert(t.last() == s.last());
        assert(spec_key(x) != spec_key(s.last()));
        assert(spec_samples_map(t) == spec_samples_map(s.drop_last().update(j, x)).insert(
            spec_key(s.last()),
            s.last().value,
        ));
        assert(spec_samples_map(t) =~= spec_samples_map(s).insert(spec_key(x), x.value));
    }
}

impl Registry {
    /// Writes one gauge: the value for this exact name and label set
    /// becomes `value`, overwriting any prior value; every other gauge is
    /// untouched.
    #[verifier::loop_isolation(false)]
    pub fn record(&mut self, name: String, labels: Vec<(String, String)>, value: u64)
        requires
            old(self).wf(),
        ensures
            final(self).wf(),
            final(self).as_map() == old(self).as_map().insert(
                (name@, Seq::new(labels@.len(), |i: int| (labels@[i].0@, labels@[i].1@))),
                value,
            ),
    {
        let ghost lv = Seq::new(labels@.len(), |i: int| (labels@[i].0@, labels@[i].1@));
        let ghost k = (name@, lv);
        let mut j: usize = 0;
        while j < self.samples.len()
            invariant
                0 <= j <= self.samples@.len(),
                *self == *old(self),
                forall|i: int| 0 <= i < j ==> spec_key(self.entries()[i]) != k,
            decreases self.samples@.len() - j,
        {
            let hit = self.samples[j].name == name && labels_eq(&self.samples[j].labels, &labels);
            if hit {
                proof {
                    assert(spec_key(self.entries()[j as int]) == k);
                }
                let ghost pre = self.entries();
                let sample = MetricSample { name, labels, value };
                self.samples.set(j, sample);
                proof {
                    assert(self.entries() =~= pre.update(j as int, sample@));
                    assert(spec_key(sample@) == spec_key(pre[j as int]));
                    lemma_samples_map_update(pre, j as int, sample@);
                    assert forall|i1: int, i2: int|
                        0 <= i1 < i2 < self.entries().len() implies spec_key(
                        #[trigger] self.entries()[i1],
                    ) != spec_key(#[trigger] self.entries()[i2]) by {
                        assert(pre[i1] == if i1 == j { pre[j as int] } else { pre[i1] });
                        if i1 != j && i2 != j {
                            assert(self.entries()[i1] == pre[i1]);
                            assert(self.entries()[i2] == pre[i2]);
                        } else if i1 == j {
                            assert(spec_key(self.entries()[i1]) == spec_key(pre[i1]));
                            assert(self.entries()[i2] == pre[i2]);
                        } else {
                            assert(spec_key(self.entries()[i2]) == spec_key(pre[i2]));
                            assert(self.entries()[i1] == pre[i1]);
                        }
                    }
                }
                return ;
            }
            j = j + 1;
        }
        let ghost pre = self.entries();
        let sample = MetricSample { name, labels, value };
        self.samples.push(sample);
        proof {
            assert(self.entries() =~= pre.push(sample@));
            assert(self.entries().drop_last() =~= pre);
            assert(self.entries().last() == sample@);
            assert(spec_key(sample@) == k);
            assert forall|i1: int, i2: int|
                0 <= i1 < i2 < self.entries().len() implies spec_key(#[trigger] self.entries()[i1])
                != spec_key(#[trigger] self.entries()[i2]) by {
                if i2 < self.entries().len() - 1 {
                    assert(self.entries()[i1] == pre[i1]);
                    assert(self.entries()[i2] == pre[i2]);
                } else {
                    assert(self.entries()[i1] == pre[i1]);
                    assert(spec_key(self.entries()[i2]) == k);
                    assert(spec_key(pre[i1]) != k);
                }
            }
        }
    }

    /// Reads the current value of one gauge, if that exact name and label
    /// set has ever been written.
    #[verifier::loop_isolation(false)]
    pub fn get(&self, name: &String, labels: &Vec<(String, String)>) -> (r: Option<u64>)
        requires
            self.wf(),
        ensures
            ({
                let k = (name@, Seq::new(labels@.len(), |i: int| (labels@[i].0@, labels@[i].1@)));
                match r {
                    Some(v) => self.as_map().contains_key(k) && self.as_map()[k] == v,
                    None => !self.as_map().contains_key(k),
                }
            }),
    {
        let ghost lv = Seq::new(labels@.len(), |i: int| (labels@[i].0@, labels@[i].1@));
        let ghost k = (name@, lv);
        let mut j: usize = 0;
        while j < self.samples.len()
            invariant
                0 <= j <= self.samples@.len(),
                forall|i: int| 0 <= i < j ==> spec_key(self.entries()[i]) != k,
            decreases self.samples@.len() - j,
        {
            let hit = self.samples[j].name == *name && labels_eq(&self.samples[j].labels, labels);
            if hit {
                proof {
                    assert(spec_key(self.entries()[j as int]) == k);
                    lemma_samples_map_value(self.entries(), j as int);
                }
                return Some(self.samples[j].value);
            }
            j = j + 1;
        }
        proof {
            lemma_samples_map_contains(self.entries(), k);
        }
        None
    }
}

/// Last write wins: writing a gauge twice with the same name and label set
/// leaves the registry reflecting only the second value, never a sum.
/// With `Registry::record` writing `insert` on the registry's map, two
/// records of one gauge compose to the second alone.
pub proof fn lemma_last_write_wins(
    m: Map<(Seq<char>, Seq<(Seq<char>, Seq<char>)>), u64>,
    k: (Seq<char>, Seq<(Seq<char>, Seq<char>)>),
    v1: u64,
    v2: u64,
)
    ensures
        m.insert(k, v1).insert(k, v2) == m.insert(k, v2),
{
    assert(m.insert(k, v1).insert(k, v2) =~= m.insert(k, v2));
}

/// The identity labels every access point gauge carries.
pub open spec fn spec_ap_labels(a: ApView, zone: Seq<char>) -> Seq<(Seq<char>, Seq<char>)> {
    seq![
        ("DeviceName"@, a.device_name),
        ("MAC"@, a.ap_mac),
        ("IP"@, a.ip),
        ("Zone"@, zone),
    ]
}

/// The verbose labels: status, last-seen time and model, followed by the
/// identity labels.
pub open spec fn spec_ap_labels_verbose(a: ApView, zone: Seq<char>) -> Seq<(Seq<char>, Seq<char>)> {
    seq![("Status"@, a.status), ("LastSeen"@, spec_dec(a.last_seen as int)), ("Model"@, a.model)]
        + spec_ap_labels(a, zone)
}

/// The fixed set of gauge observations one access point projects to.
pub open spec fn spec_project_ap(a: ApView, zone: Seq<char>) -> Seq<MetricSampleView> {
    seq![
        MetricSampleView {
            name: "ap_uptime"@,
            labels: spec_ap_labels_verbose(a, zone),
            value: a.uptime,
        },
        MetricSampleView { name: "ap_tx"@, labels: spec_ap_labels(a, zone), value: a.tx },
        MetricSampleView { name: "ap_rx"@, labels: spec_ap_labels(a, zone), value: a.rx },
        MetricSampleView {
            name: "ap_clients"@,
            labels: spec_ap_labels(a, zone),
            value: a.num_clients,
        },
        MetricSampleView { name: "ap_alerts"@, labels: spec_ap_labels(a, zone), value: a.alerts },
        MetricSampleView {
            name: "ap_airtime_24g"@,
            labels: spec_ap_labels(a, zone),
            value: a.airtime_24g,
        },
        MetricSampleView {
            name: "ap_airtime_5g"@,
            labels: spec_ap_labels(a, zone),
            value: a.airtime_5g,
        },
        MetricSampleView {
            name: "ap_airtime_6g"@,
            labels: spec_ap_labels(a, zone),
            value: a.airtime_6g,
        },
        MetricSampleView {
            name: "ap_failures"@,
            labels: spec_ap_labels(a, zone),
            value: a.connection_failures,
        },
        MetricSampleView {
            name: "ap_latency_5g"@,
            labels: spec_ap_labels(a, zone),
            value: a.latency_50g,
        },
        MetricSampleView {
            name: "ap_latency_24g"@,
            labels: spec_ap_labels(a, zone),
            value: a.latency_24g,
        },
        MetricSampleView {
            name: "ap_latency_6g"@,
            labels: spec_ap_labels(a, zone),
            value: a.latency_6g,
        },
    ]
}

fn ap_labels(ap: &AP, zone_name: &str) -> (r: Vec<(String, String)>)
    ensures
        Seq::new(r@.len(), |i: int| ((#[trigger] r@[i]).0@, r@[i].1@)) == spec_ap_labels(
            ap@,
            zone_name@,
        ),
{
    let mut r: Vec<(String, String)> = Vec::new();
    r.push((String::from_str("DeviceName"), ap.device_name.clone()));
    r.push((String::from_str("MAC"), ap.ap_mac.clone()));
    r.push((String::from_str("IP"), ap.ip.clone()));
    r.push((String::from_str("Zone"), String::from_str(zone_name)));
    proof {
        assert(Seq::new(r@.len(), |i: int| ((#[trigger] r@[i]).0@, r@[i].1@)) =~= spec_ap_labels(
            ap@,
            zone_name@,
        ));
    }
    r
}

fn ap_labels_verbose(ap: &AP, zone_name: &str) -> (r: Vec<(String, String)>)
    ensures
        Seq::new(r@.len(), |i: int| ((#[trigger] r@[i]).0@, r@[i].1@)) == spec_ap_labels_verbose(
            ap@,
            zone_name@,
        ),
{
    let mut r: Vec<(String, String)> = Vec::new();
    r.push((String::from_str("Status"), ap.status.clone()));
    r.push((String::from_str("LastSeen"), u64_to_string(ap.last_seen)));
    r.push((String::from_str("Model"), ap.model.clone()));
    r.push((String::from_str("DeviceName"), ap.device_name.clone()));
    r.push((String::from_str("MAC"), ap.ap_mac.clone()));
    r.push((String::from_str("IP"), ap.ip.clone()));
    r.push((String::from_str("Zone"), String::from_str(zone_name)));
    proof {
        assert(Seq::new(r@.len(), |i: int| ((#[trigger] r@[i]).0@, r@[i].1@))
            =~= spec_ap_labels_verbose(ap@, zone_name@));
    }
    r
}

/// Projects one access point into its fixed set of gauge observations,
/// labeled with the zone it was queried under.
pub fn project_ap(ap: &AP, zone_name: &str) -> (r: Vec<MetricSample>)
    ensures
        Seq::new(r@.len(), |i: int| (#[trigger] r@[i])@) == spec_project_ap(ap@, zone_name@),
{
    let mut r: Vec<MetricSample> = Vec::new();
    r.push(
        MetricSample {
            name: String::from_str("ap_uptime"),
            labels: ap_labels_verbose(ap, zone_name),
            value: ap.uptime,
        },
    );
    r.push(
        MetricSample {
            name: String::from_str("ap_tx"),
            labels: ap_labels(ap, zone_name),
            value: ap.tx,
        },
    );
    r.push(
        MetricSample {
            name: String::from_str("ap_rx"),
            labels: ap_labels(ap, zone_name),
            value: ap.rx,
        },
    );
    r.push(
        MetricSample {
            name: String::from_str("ap_clients"),
            labels: ap_labels(ap, zone_name),
            value: ap.num_clients,
        },
    );
    r.push(
        MetricSample {
            name: String::from_str("ap_alerts"),
            labels: ap_labels(ap, zone_name),
            value: ap.alerts,
        },
    );
    r.push(
        MetricSample {
            name: String::from_str("ap_airtime_24g"),
            labels: ap_labels(ap, zone_name),
            value: ap.airtime_24g,
        },
    );
    r.push(
        MetricSample {
            name: String::from_str("ap_airtime_5g"),
            labels: ap_labels(ap, zone_name),
            value: ap.airtime_5g,
        },
    );
    r.push(
        MetricSample {
            name: String::from_str("ap_airtime_6g"),
            labels: ap_labels(ap, zone_name),
            value: ap.airtime_6g,
        },
    );
    r.push(
        MetricSample {
            name: String::from_str("ap_failures"),
            labels: ap_labels(ap, zone_name),
            value: ap.connection_failures,
        },
    );
    r.push(
        MetricSample {
            name: String::from_str("ap_latency_5g"),
            labels: ap_labels(ap, zone_name),
            value: ap.latency_50g,
        },
    );
    r.push(
        MetricSample {
            name: String::from_str("ap_latency_24g"),
            labels: ap_labels(ap, zone_name),
            value: ap.latency_24g,
        },
    );
    r.push(
        MetricSample {
            name: String::from_str("ap_latency_6g"),
            labels: ap_labels(ap, zone_name),
            value: ap.latency_6g,
        },
    );
    proof {
        assert(Seq::new(r@.len(), |i: int| (#[trigger] r@[i])@) =~~= spec_project_ap(
            ap@,
            zone_name@,
        ));
    }
    r
}

/// The identity labels every client gauge carries.
pub open spec fn spec_client_labels(c: ClientView, zone: Seq<char>) -> Seq<(Seq<char>, Seq<char>)> {
    seq![
        ("ApMac"@, c.ap_mac),
        ("ApName"@, c.ap_name),
        ("Hostname"@, c.hostname),
        ("Mac"@, c.client_mac),
        ("Zone"@, zone),
    ]
}

/// The verbose labels of a client gauge, followed by the identity labels.
pub open spec fn spec_client_labels_verbose(c: ClientView, zone: Seq<char>) -> Seq<
    (Seq<char>, Seq<char>),
> {
    seq![
        ("OsType"@, c.os_type),
        ("OsVendorType"@, c.os_vendor_type),
        ("IP"@, c.ip_address),
        ("Vlan"@, spec_dec(c.vlan as int)),
        ("ModelName"@, c.model_name),
        ("SSID"@, c.ssid),
        ("SessionStartTime"@, spec_dec(c.session_start_time as int)),
    ] + spec_client_labels(c, zone)
}

/// The fixed set of gauge observations one client projects to.
pub open spec fn spec_project_client(c: ClientView, zone: Seq<char>) -> Seq<MetricSampleView> {
    seq![
        MetricSampleView {
            name: "client_rx"@,
            labels: spec_client_labels_verbose(c, zone),
            value: c.rx_bytes,
        },
        MetricSampleView {
            name: "client_tx"@,
            labels: spec_client_labels_verbose(c, zone),
            value: c.tx_bytes,
        },
    ]
}

fn client_labels_verbose(c: &Client, zone_name: &str) -> (r: Vec<(String, String)>)
    ensures
        Seq::new(r@.len(), |i: int| ((#[trigger] r@[i]).0@, r@[i].1@))
            == spec_client_labels_verbose(c@, zone_name@),
{
    let mut r: Vec<(String, String)> = Vec::new();
    r.push((String::from_str("OsType"), c.os_type.clone()));
    r.push((String::from_str("OsVendorType"), c.os_vendor_type.clone()));
    r.push((String::from_str("IP"), c.ip_address.clone()));
    r.push((String::from_str("Vlan"), u64_to_string(c.vlan)));
    r.push((String::from_str("ModelName"), c.model_name.clone()));
    r.push((String::from_str("SSID"), c.ssid.clone()));
    r.push((String::from_str("SessionStartTime"), u64_to_string(c.session_start_time)));
    r.push((String::from_str("ApMac"), c.ap_mac.clone()));
    r.push((String::from_str("ApName"), c.ap_name.clone()));
    r.push((String::from_str("Hostname"), c.hostname.clone()));
    r.push((String::from_str("Mac"), c.client_mac.clone()));
    r.push((String::from_str("Zone"), String::from_str(zone_name)));
    proof {
        assert(Seq::new(r@.len(), |i: int| ((#[trigger] r@[i]).0@, r@[i].1@))
            =~= spec_client_labels_verbose(c@, zone_name@));
    }
    r
}

/// Projects one client into its pair of traffic gauges, labeled with the
/// zone it was queried under.
pub fn project_client(c: &Client, zone_name: &str) -> (r: Vec<MetricSample>)
    ensures
        Seq::new(r@.len(), |i: int| (#[trigger] r@[i])@) == spec_project_client(c@, zone_name@),
{
    let mut r: Vec<MetricSample> = Vec::new();
    r.push(
        MetricSample {
            name: String::from_str("client_rx"),
            labels: client_labels_verbose(c, zone_name),
            value: c.rx_bytes,
        },
    );
    r.push(
        MetricSample {
            name: String::from_str("client_tx"),
            labels: client_labels_verbose(c, zone_name),
            value: c.tx_bytes,
        },
    );
    proof {
        assert(Seq::new(r@.len(), |i: int| (#[trigger] r@[i])@) =~~= spec_project_client(
            c@,
            zone_name@,
        ));
    }
    r
}

/// The registry map after a run of samples is written, in order.
pub open spec fn spec_record_run(
    m: Map<(Seq<char>, Seq<(Seq<char>, Seq<char>)>), u64>,
    s: Seq<MetricSampleView>,
) -> Map<(Seq<char>, Seq<(Seq<char>, Seq<char>)>), u64>
    decreases s.len(),
{
    if s.len() == 0 {
        m
    } else {
        spec_record_run(m.insert(spec_key(s[0]), s[0].value), s.drop_first())
    }
}

impl Registry {
    /// Writes a run of samples, in order, each overwriting any prior value
    /// under its own gauge identity.
    #[verifier::loop_isolation(false)]
    pub fn record_all(&mut self, samples: Vec<MetricSample>)
        requires
            old(self).wf(),
        ensures
            final(self).wf(),
            final(self).as_map() == spec_record_run(
                old(self).as_map(),
                Seq::new(samples@.len(), |i: int| samples@[i]@),
            ),
    {
        let ghost sv = Seq::new(samples@.len(), |i: int| samples@[i]@);
        let ghost m0 = self.as_map();
        let mut rest = samples;
        let ghost mut done: int = 0;
        proof {
            assert(sv.skip(0) =~= sv);
        }
        while rest.len() > 0
            invariant
                0 <= done <= sv.len(),
                rest@.len() == sv.len() - done,
                forall|j: int| 0 <= j < rest@.len() ==> (#[trigger] rest@[j])@ == sv[done + j],
                self.wf(),
                spec_record_run(self.as_map(), sv.skip(done)) == spec_record_run(m0, sv),
            decreases rest@.len(),
        {
            let ghost pre_rest = rest@;
            let ghost pre_map = self.as_map();
            let sample = rest.remove(0);
            proof {
                assert(sample@ == sv[done]);
            }
            let MetricSample { name, labels, value } = sample;
            self.record(name, labels, value);
            proof {
                assert(self.as_map() == pre_map.insert(spec_key(sv[done]), sv[done].value));
                assert(sv.skip(done)[0] == sv[done]);
                assert(sv.skip(done).drop_first() =~= sv.skip(done + 1));
                assert(spec_record_run(pre_map, sv.skip(done)) == spec_record_run(
                    self.as_map(),
                    sv.skip(done + 1),
                ));
                assert forall|j: int| 0 <= j < rest@.len() implies (#[trigger] rest@[j])@
                    == sv[done + 1 + j] by {
                    assert(rest@[j] == pre_rest[j + 1]);
                }
                done = done + 1;
            }
        }
        proof {
            assert(sv.skip(done) =~= Seq::<MetricSampleView>::empty());
        }
    }
}

} // verus!
