//! Aggregation of worker metrics: naming the known metric families, reading
//! the labels of one sample, and turning a metrics response into per-subtask
//! updates of the job's metric table.

use crate::find_first;
use vstd::prelude::*;
use vstd::string::StrSliceExecFns;

verus! {

broadcast use vstd::std_specs::hash::group_hash_axioms;

/// The metric families the controller aggregates.
#[allow(missing_docs)]
#[derive(Debug, PartialEq, Eq, Clone, Copy, Structural, Hash)]
pub enum MetricName {
    BytesRecv,
    BytesSent,
    MessagesRecv,
    MessagesSent,
    TxQueueSize,
    TxQueueRem,
}

/// The metric a worker-exported family name denotes, if the controller
/// aggregates it.
pub open spec fn spec_metric_name(name: Seq<char>) -> Option<MetricName> {
    if name == "arroyo_worker_bytes_recv"@ {
        Some(MetricName::BytesRecv)
    } else if name == "arroyo_worker_bytes_sent"@ {
        Some(MetricName::BytesSent)
    } else if name == "arroyo_worker_messages_recv"@ {
        Some(MetricName::MessagesRecv)
    } else if name == "arroyo_worker_messages_sent"@ {
        Some(MetricName::MessagesSent)
    } else if name == "arroyo_worker_tx_queue_size"@ {
        Some(MetricName::TxQueueSize)
    } else if name == "arroyo_worker_tx_queue_rem"@ {
        Some(MetricName::TxQueueRem)
    } else {
        None
    }
}

/// Parse a worker-exported family name.
pub fn get_metric_name(name: &String) -> (r: Option<MetricName>)
    ensures
        r == spec_metric_name(name@),
{
    if name.eq(&String::from_str("arroyo_worker_bytes_recv")) {
        Some(MetricName::BytesRecv)
    } else if name.eq(&String::from_str("arroyo_worker_bytes_sent")) {
        Some(MetricName::BytesSent)
    } else if name.eq(&String::from_str("arroyo_worker_messages_recv")) {
        Some(MetricName::MessagesRecv)
    } else if name.eq(&String::from_str("arroyo_worker_messages_sent")) {
        Some(MetricName::MessagesSent)
    } else if name.eq(&String::from_str("arroyo_worker_tx_queue_size")) {
        Some(MetricName::TxQueueSize)
    } else if name.eq(&String::from_str("arroyo_worker_tx_queue_rem")) {
        Some(MetricName::TxQueueRem)
    } else {
        None
    }
}

/// One label of a sample, as the wire allows it: either part may be absent.
#[derive(Debug, PartialEq, Eq, Clone)]
pub struct LabelPair {
    pub name: Option<String>,
    pub value: Option<String>,
}

/// Ghost shape of one label.
pub struct LabelPairView {
    pub name: Option<Seq<char>>,
    pub value: Option<Seq<char>>,
}

impl View for LabelPair {
    type V = LabelPairView;

    open spec fn view(&self) -> LabelPairView {
        LabelPairView { name: self.name.deep_view(), value: self.value.deep_view() }
    }
}

impl DeepView for LabelPair {
    type V = LabelPairView;

    open spec fn deep_view(&self) -> LabelPairView {
        self.view()
    }
}

/// The value of the first label with the given name, if that label exists
/// and carries a value.
pub open spec fn spec_find_label(labels: Seq<LabelPairView>, name: Seq<char>) -> Option<
    Seq<char>,
> {
    match find_first(labels, |l: LabelPairView| l.name == Some(name)) {
        Some(i) => labels[i].value,
        None => None,
    }
}

/// Look up a label by name.
pub fn find_label(labels: &Vec<LabelPair>, name: &str) -> (r: Option<String>)
    ensures
        r.deep_view() == spec_find_label(labels.deep_view(), name@),
{
    let n = labels.len();
    for i in 0..n
        invariant
            n == labels.len(),
            forall|j: int|
                0 <= j < i ==> (#[trigger] labels.deep_view()[j]).name != Some(name@),
    {
        proof {
            assert(labels.deep_view()[i as int] == labels@[i as int].deep_view());
        }
        let matches_name = match &labels[i].name {
            Some(l) => l.eq(&name.to_owned()),
            None => false,
        };
        if matches_name {
            proof {
                crate::lemma_find_first_at(
                    labels.deep_view(),
                    |l: LabelPairView| l.name == Some(name@),
                    i as int,
                );
            }
            return match &labels[i].value {
                Some(v) => Some(v.clone()),
                None => None,
            };
        }
    }
    proof {
        crate::lemma_find_first_none(
            labels.deep_view(),
            |l: LabelPairView| l.name == Some(name@),
        );
    }
    None
}

/// The numeric value of one decimal digit.
pub open spec fn spec_digit(c: char) -> Option<u32> {
    if '0' <= c <= '9' {
        Some((c as u32 - 48) as u32)
    } else {
        None
    }
}

/// The number a decimal text denotes, folded left to right; a text that is
/// empty, holds a non-digit, or exceeds the 32-bit range denotes nothing.
pub open spec fn spec_parse_u32_rec(s: Seq<char>, acc: u32) -> Option<u32>
    decreases s.len(),
{
    if s.len() == 0 {
        Some(acc)
    } else {
        match spec_digit(s[0]) {
            Some(d) => {
                if acc * 10 + d > u32::MAX {
                    None
                } else {
                    spec_parse_u32_rec(s.drop_first(), (acc * 10 + d) as u32)
                }
            },
            None => None,
        }
    }
}

/// The number a decimal text denotes, if any.
pub open spec fn spec_parse_u32(s: Seq<char>) -> Option<u32> {
    if s.len() == 0 {
        None
    } else {
        spec_parse_u32_rec(s, 0)
    }
}

/// Parse a decimal number.
pub fn parse_u32(s: &String) -> (r: Option<u32>)
    ensures
        r == spec_parse_u32(s@),
{
    let n = s.as_str().unicode_len();
    if n == 0 {
        return None;
    }
    let mut acc: u32 = 0;
    let mut i: usize = 0;
    proof {
        assert(s@.subrange(0, n as int) =~= s@);
    }
    while i < n
        invariant
            n == s@.len(),
            0 < n,
            i <= n,
            spec_parse_u32_rec(s@, 0) == spec_parse_u32_rec(s@.subrange(i as int, n as int), acc),
        decreases n - i,
    {
        let c = s.as_str().get_char(i);
        proof {
            assert(s@.subrange(i as int, n as int)[0] == s@[i as int]);
        }
        let code = c as u32;
        if code < 48 || code > 57 {
            proof {
                assert(spec_digit(s@[i as int]) is None);
            }
            return None;
        }
        let d = code - 48;
        proof {
            assert(spec_digit(s@[i as int]) == Some(d));
        }
        if acc > (u32::MAX - d) / 10 {
            proof {
                assert(acc * 10 + d > u32::MAX) by (nonlinear_arith)
                    requires
                        acc > (u32::MAX - d) / 10,
                        d <= 9,
                        (u32::MAX - d) / 10 == (u32::MAX as int - d) / 10,
                ;
            }
            return None;
        }
        proof {
            assert(acc * 10 + d <= u32::MAX) by (nonlinear_arith)
                requires
                    acc <= (u32::MAX - d) / 10,
                    0 <= d <= 9,
                    (u32::MAX - d) / 10 == (u32::MAX as int - d) / 10,
            ;
            assert(s@.subrange(i as int, n as int).drop_first() =~= s@.subrange(
                i + 1,
                n as int,
            ));
        }
        acc = acc * 10 + d;
        i = i + 1;
    }
    proof {
        assert(s@.subrange(n as int, n as int) =~= Seq::<char>::empty());
    }
    Some(acc)
}

/// One sample of a family, with its float values already widened to integers
/// by the caller; a present counter or gauge may still carry no value.
#[derive(Debug, PartialEq, Eq, Clone)]
pub struct LabeledSample {
    pub label: Vec<LabelPair>,
    pub counter: Option<Option<u64>>,
    pub gauge: Option<Option<u64>>,
}

/// Ghost shape of one sample.
pub struct LabeledSampleView {
    pub label: Seq<LabelPairView>,
    pub counter: Option<Option<u64>>,
    pub gauge: Option<Option<u64>>,
}

impl View for LabeledSample {
    type V = LabeledSampleView;

    open spec fn view(&self) -> LabeledSampleView {
        LabeledSampleView {
            label: self.label.deep_view(),
            counter: self.counter,
            gauge: self.gauge,
        }
    }
}

impl DeepView for LabeledSample {
    type V = LabeledSampleView;

    open spec fn deep_view(&self) -> LabeledSampleView {
        self.view()
    }
}

/// One exported family: its name and its samples.
#[derive(Debug, PartialEq, Eq, Clone)]
pub struct MetricFamily {
    pub name: Option<String>,
    pub metric: Vec<LabeledSample>,
}

/// Ghost shape of one family.
pub struct MetricFamilyView {
    pub name: Option<Seq<char>>,
    pub metric: Seq<LabeledSampleView>,
}

impl View for MetricFamily {
    type V = MetricFamilyView;

    open spec fn view(&self) -> MetricFamilyView {
        MetricFamilyView { name: self.name.deep_view(), metric: self.metric.deep_view() }
    }
}

impl DeepView for MetricFamily {
    type V = MetricFamilyView;

    open spec fn deep_view(&self) -> MetricFamilyView {
        self.view()
    }
}

/// One update of the job's metric table.
#[derive(Debug, PartialEq, Eq, Clone, Copy, Structural)]
pub struct MetricUpdate {
    pub operator_index: u32,
    pub subtask_index: u32,
    pub metric: MetricName,
    pub value: u64,
}

/// The sample's value: the counter when one is present, else the gauge.
pub open spec fn spec_sample_value(s: LabeledSampleView) -> Option<u64> {
    match s.counter {
        Some(cv) => cv,
        None => match s.gauge {
            Some(gv) => gv,
            None => None,
        },
    }
}

/// The table update one sample yields: its subtask index and node id read
/// from its labels, the node mapped to its graph index, and the counter or
/// gauge value; a sample missing any of these yields nothing.
pub open spec fn spec_sample_update(
    metric: MetricName,
    s: LabeledSampleView,
    node_index: Map<u32, u32>,
) -> Option<MetricUpdate> {
    match spec_find_label(s.label, "subtask_idx"@) {
        Some(sv) => match spec_parse_u32(sv) {
            Some(subtask_index) => match spec_find_label(s.label, "node_id"@) {
                Some(nv) => match spec_parse_u32(nv) {
                    Some(node_id) => {
                        if node_index.contains_key(node_id) {
                            match spec_sample_value(s) {
                                Some(value) => Some(
                                    MetricUpdate {
                                        operator_index: node_index[node_id],
                                        subtask_index,
                                        metric,
                                        value,
                                    },
                                ),
                                None => None,
                            }
                        } else {
                            None
                        }
                    },
                    None => None,
                },
                None => None,
            },
            None => None,
        },
        None => None,
    }
}

/// The table updates of one family's samples, in sample order.
pub open spec fn spec_sample_updates(
    metric: MetricName,
    samples: Seq<LabeledSampleView>,
    node_index: Map<u32, u32>,
) -> Seq<MetricUpdate>
    decreases samples.len(),
{
    if samples.len() == 0 {
        Seq::empty()
    } else {
        spec_sample_updates(metric, samples.drop_last(), node_index) + (match spec_sample_update(
            metric,
            samples.last(),
            node_index,
        ) {
            Some(u) => seq![u],
            None => Seq::empty(),
        })
    }
}

/// The table updates of one family: none when its name is absent or not
/// aggregated.
pub open spec fn spec_family_updates(f: MetricFamilyView, node_index: Map<u32, u32>) -> Seq<
    MetricUpdate,
> {
    match f.name {
        Some(n) => match spec_metric_name(n) {
            Some(metric) => spec_sample_updates(metric, f.metric, node_index),
            None => Seq::empty(),
        },
        None => Seq::empty(),
    }
}

/// The table updates of a whole metrics response, in wire order.
pub open spec fn spec_collect_metrics(
    families: Seq<MetricFamilyView>,
    node_index: Map<u32, u32>,
) -> Seq<MetricUpdate>
    decreases families.len(),
{
    if families.len() == 0 {
        Seq::empty()
    } else {
        spec_collect_metrics(families.drop_last(), node_index) + spec_family_updates(
            families.last(),
            node_index,
        )
    }
}

/// Turn one worker's metrics response into the job's metric-table updates.
/// Applying the updates in order makes the last sample win for each slot,
/// as the wire may repeat one.
pub fn collect_metrics(
    families: &Vec<MetricFamily>,
    node_index: &std::collections::HashMap<u32, u32>,
) -> (r: Vec<MetricUpdate>)
    ensures
        r@ == spec_collect_metrics(families.deep_view(), node_index@),
{
    let mut r: Vec<MetricUpdate> = Vec::new();
    let n = families.len();
    for i in 0..n
        invariant
            n == families.len(),
            r@ == spec_collect_metrics(families.deep_view().take(i as int), node_index@),
    {
        let family = &families[i];
        proof {
            assert(families.deep_view()[i as int] == families@[i as int].deep_view());
        }
        let metric = match &family.name {
            Some(name) => get_metric_name(name),
            None => None,
        };
        if let Some(metric) = metric {
            let m = family.metric.len();
            let ghost r_before = r@;
            for j in 0..m
                invariant
                    m == family.metric.len(),
                    0 <= i < families@.len(),
                    *family == families@[i as int],
                    r@ =~= r_before + spec_sample_updates(
                        metric,
                        family.deep_view().metric.take(j as int),
                        node_index@,
                    ),
            {
                let sample = &family.metric[j];
                proof {
                    assert(family.deep_view().metric[j as int] == family.metric@[
                        j as int
                    ].deep_view());
                }
                let subtask = match find_label(&sample.label, "subtask_idx") {
                    Some(sv) => parse_u32(&sv),
                    None => None,
                };
                let node = match find_label(&sample.label, "node_id") {
                    Some(nv) => parse_u32(&nv),
                    None => None,
                };
                if let (Some(subtask_index), Some(node_id)) = (subtask, node) {
                    if let Some(operator_index) = node_index.get(&node_id) {
                        let value = match sample.counter {
                            Some(cv) => cv,
                            None => match sample.gauge {
                                Some(gv) => gv,
                                None => None,
                            },
                        };
                        if let Some(value) = value {
                            r.push(
                                MetricUpdate {
                                    operator_index: *operator_index,
                                    subtask_index,
                                    metric,
                                    value,
                                },
                            );
                        }
                    }
                }
                proof {
                    let sv = family.deep_view().metric[j as int];
                    assert(family.deep_view().metric.take(j + 1).drop_last()
                        =~= family.deep_view().metric.take(j as int));
                    assert(family.deep_view().metric.take(j + 1).last() == sv);
                    assert(r@ =~= r_before + spec_sample_updates(
                        metric,
                        family.deep_view().metric.take(j + 1),
                        node_index@,
                    ));
                }
            }
            proof {
                assert(family.deep_view().metric.take(m as int) =~= family.deep_view().metric);
            }
        }
        proof {
            let taken = families.deep_view().take(i + 1);
            assert(taken.drop_last() =~= families.deep_view().take(i as int));
            assert(taken.last() == families.deep_view()[i as int]);
            assert(r@ =~= spec_collect_metrics(taken, node_index@));
        }
    }
    proof {
        assert(families.deep_view().take(n as int) =~= families.deep_view());
    }
    r
}

} // verus!
