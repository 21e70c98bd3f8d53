//! The metrics table and its Prometheus text export.

use vstd::prelude::*;
use vstd::string::{StrSliceExecFns, StringExecFns};
use crate::text::{decimal, push_decimal};

verus! {

/// Kind of a metric.
#[derive(Debug, Clone, Copy, PartialEq, Eq, Structural)]
pub enum MetricType {
    Counter,
    Gauge,
    Histogram,
    Summary,
}

pub open spec fn metric_kind_name(t: MetricType) -> Seq<char> {
    match t {
        MetricType::Counter => "counter"@,
        MetricType::Gauge => "gauge"@,
        MetricType::Histogram => "histogram"@,
        MetricType::Summary => "summary"@,
    }
}

impl MetricType {
    /// The name Prometheus gives the kind.
    pub fn as_str(&self) -> (r: &'static str)
        ensures
            r@ == metric_kind_name(*self),
    {
        proof {
            reveal_strlit("counter");
            reveal_strlit("gauge");
            reveal_strlit("histogram");
            reveal_strlit("summary");
        }
        match self {
            MetricType::Counter => "counter",
            MetricType::Gauge => "gauge",
            MetricType::Histogram => "histogram",
            MetricType::Summary => "summary",
        }
    }
}

/// One sample of a metric, with its labels in order.
#[derive(Debug)]
pub struct MetricValue {
    pub value: u64,
    pub labels: Vec<(String, String)>,
}

/// A registered metric and its samples.
#[derive(Debug)]
pub struct Metric {
    pub name: String,
    pub help: String,
    pub metric_type: MetricType,
    pub values: Vec<MetricValue>,
}

/// Position of the last label named `k` in `ls`, or -1.
pub open spec fn find_key(ls: Seq<(String, String)>, k: Seq<char>) -> int
    decreases ls.len(),
{
    if ls.len() == 0 {
        -1
    } else if ls.last().0@ == k {
        ls.len() - 1
    } else {
        find_key(ls.drop_last(), k)
    }
}

/// No label name occurs twice.
pub open spec fn keys_unique(ls: Seq<(String, String)>) -> bool {
    forall|i: int, j: int| 0 <= i < j < ls.len() ==> #[trigger] ls[i].0@ != #[trigger] ls[j].0@
}

/// The mapping from label name to value that a list of labels denotes.
pub open spec fn labels_view(ls: Seq<(String, String)>) -> Map<Seq<char>, Seq<char>> {
    Map::new(|k: Seq<char>| find_key(ls, k) >= 0, |k: Seq<char>| ls[find_key(ls, k)].1@)
}

pub proof fn lemma_find_key(ls: Seq<(String, String)>, k: Seq<char>)
    ensures
        -1 <= find_key(ls, k) < ls.len(),
        find_key(ls, k) >= 0 ==> ls[find_key(ls, k)].0@ == k,
        forall|i: int| 0 <= i < ls.len() && (#[trigger] ls[i]).0@ == k ==> find_key(ls, k) >= 0,
        keys_unique(ls) ==> forall|i: int|
            0 <= i < ls.len() && (#[trigger] ls[i]).0@ == k ==> find_key(ls, k) == i,
    decreases ls.len(),
{
    if ls.len() > 0 {
        let d = ls.drop_last();
        lemma_find_key(d, k);
        assert forall|i: int| 0 <= i < ls.len() - 1 implies ls[i] == d[i] by {}
        if keys_unique(ls) {
            assert(keys_unique(d)) by {
                assert forall|i: int, j: int| 0 <= i < j < d.len() implies d[i].0@ != d[j].0@ by {
                    assert(ls[i].0@ != ls[j].0@);
                }
            }
            assert forall|i: int| 0 <= i < ls.len() && (#[trigger] ls[i]).0@ == k implies find_key(ls, k)
                == i by {
                if ls.last().0@ == k && i < ls.len() - 1 {
                    assert(ls[i].0@ != ls[ls.len() - 1].0@);
                }
            }
        }
    }
}

/// The text that stands for one character of a label value.
pub open spec fn escape_char(c: char) -> Seq<char> {
    if c == '\\' {
        seq!['\\', '\\']
    } else if c == '"' {
        seq!['\\', '"']
    } else if c == '\n' {
        seq!['\\', 'n']
    } else {
        seq![c]
    }
}

/// A label value with backslash, double quote and newline escaped.
pub open spec fn escape(s: Seq<char>) -> Seq<char>
    decreases s.len(),
{
    if s.len() == 0 {
        s
    } else {
        escape(s.drop_last()) + escape_char(s.last())
    }
}

/// `key="value"`, the value escaped.
pub open spec fn label_text(p: (String, String)) -> Seq<char> {
    p.0@ + "=\""@ + escape(p.1@) + "\""@
}

/// The labels, comma-separated.
pub open spec fn labels_text(ls: Seq<(String, String)>) -> Seq<char>
    decreases ls.len(),
{
    if ls.len() == 0 {
        Seq::empty()
    } else if ls.len() == 1 {
        label_text(ls[0])
    } else {
        labels_text(ls.drop_last()) + ","@ + label_text(ls.last())
    }
}

/// One sample line.
pub open spec fn value_line(name: Seq<char>, v: MetricValue) -> Seq<char> {
    if v.labels@.len() == 0 {
        name + " "@ + decimal(v.value as nat) + "\n"@
    } else {
        name + "{"@ + labels_text(v.labels@) + "}"@ + " "@ + decimal(v.value as nat) + "\n"@
    }
}

pub open spec fn values_text(name: Seq<char>, vs: Seq<MetricValue>) -> Seq<char>
    decreases vs.len(),
{
    if vs.len() == 0 {
        Seq::empty()
    } else {
        values_text(name, vs.drop_last()) + value_line(name, vs.last())
    }
}

/// The `# HELP` and `# TYPE` lines of a metric.
pub open spec fn header_text(m: Metric) -> Seq<char> {
    "# HELP "@ + m.name@ + " "@ + m.help@ + "\n"@ + "# TYPE "@ + m.name@ + " "@ + metric_kind_name(
        m.metric_type,
    ) + "\n"@
}

/// A metric's block: its header, its sample lines, and a blank line.
pub open spec fn metric_text(m: Metric) -> Seq<char> {
    header_text(m) + values_text(m.name@, m.values@) + "\n"@
}

/// The Prometheus text of a list of metrics.
pub open spec fn export_text(ms: Seq<Metric>) -> Seq<char>
    decreases ms.len(),
{
    if ms.len() == 0 {
        Seq::empty()
    } else {
        export_text(ms.drop_last()) + metric_text(ms.last())
    }
}

/// The header blocks alone, each followed by a blank line.
pub open spec fn headers_only(ms: Seq<Metric>) -> Seq<char>
    decreases ms.len(),
{
    if ms.len() == 0 {
        Seq::empty()
    } else {
        headers_only(ms.drop_last()) + header_text(ms.last()) + "\n"@
    }
}

/// Renders metrics as Prometheus text.
pub struct PrometheusExporter;

impl PrometheusExporter {
    /// The Prometheus text of `metrics`, in their order.
    pub fn export(metrics: &Vec<Metric>) -> (r: String)
        ensures
            r@ == export_text(metrics@),
    {
        let mut out = String::new();
        let mut i: usize = 0;
        while i < metrics.len()
            invariant
                i <= metrics@.len(),
                out@ == export_text(metrics@.subrange(0, i as int)),
            decreases metrics@.len() - i,
        {
            let ghost before = out@;
            Self::push_metric(&mut out, &metrics[i]);
            proof {
                assert(metrics@.subrange(0, i + 1).drop_last() =~= metrics@.subrange(0, i as int));
            }
            i = i + 1;
        }
        assert(metrics@.subrange(0, i as int) =~= metrics@);
        out
    }

    fn push_metric(out: &mut String, m: &Metric)
        ensures
            final(out)@ == old(out)@ + metric_text(*m),
    {
        proof {
            reveal_strlit("# HELP ");
            reveal_strlit(" ");
            reveal_strlit("\n");
            reveal_strlit("# TYPE ");
        }
        out.append("# HELP ");
        out.append(m.name.as_str());
        out.append(" ");
        out.append(m.help.as_str());
        out.append("\n");
        out.append("# TYPE ");
        out.append(m.name.as_str());
        out.append(" ");
        out.append(m.metric_type.as_str());
        out.append("\n");
        let ghost head = out@;
        assert(head =~= old(out)@ + header_text(*m));
        let mut j: usize = 0;
        while j < m.values.len()
            invariant
                j <= m.values@.len(),
                out@ == head + values_text(m.name@, m.values@.subrange(0, j as int)),
            decreases m.values@.len() - j,
        {
            let ghost before = out@;
            Self::push_value_line(out, m.name.as_str(), &m.values[j]);
            proof {
                assert(m.values@.subrange(0, j + 1).drop_last() =~= m.values@.subrange(0, j as int));
                assert(out@ =~= head + values_text(m.name@, m.values@.subrange(0, j + 1)));
            }
            j = j + 1;
        }
        assert(m.values@.subrange(0, j as int) =~= m.values@);
        out.append("\n");
        assert(out@ =~= old(out)@ + metric_text(*m));
    }

    fn push_value_line(out: &mut String, name: &str, v: &MetricValue)
        ensures
            final(out)@ == old(out)@ + value_line(name@, *v),
    {
        proof {
            reveal_strlit(" ");
            reveal_strlit("\n");
            reveal_strlit("{");
            reveal_strlit("}");
        }
        out.append(name);
        if v.labels.len() > 0 {
            out.append("{");
            Self::push_labels(out, &v.labels);
            out.append("}");
        }
        out.append(" ");
        push_decimal(out, v.value);
        out.append("\n");
        assert(out@ =~= old(out)@ + value_line(name@, *v));
    }

    fn push_labels(out: &mut String, labels: &Vec<(String, String)>)
        ensures
            final(out)@ == old(out)@ + labels_text(labels@),
    {
        proof {
            reveal_strlit(",");
            reveal_strlit("=\"");
            reveal_strlit("\"");
        }
        let mut k: usize = 0;
        while k < labels.len()
            invariant
                k <= labels@.len(),
                out@ == old(out)@ + labels_text(labels@.subrange(0, k as int)),
            decreases labels@.len() - k,
        {
            let ghost before = out@;
            if k > 0 {
                out.append(",");
            }
            out.append(labels[k].0.as_str());
            out.append("=\"");
            let esc = Self::escape_label_value(labels[k].1.as_str());
            out.append(esc.as_str());
            out.append("\"");
            proof {
                let s = labels@.subrange(0, k + 1);
                assert(s.drop_last() =~= labels@.subrange(0, k as int));
                if k == 0 {
                    assert(s.len() == 1);
                    assert(out@ =~= old(out)@ + labels_text(s));
                } else {
                    assert(out@ =~= old(out)@ + labels_text(s));
                }
            }
            k = k + 1;
        }
        assert(labels@.subrange(0, k as int) =~= labels@);
    }

    /// `s` with backslash, double quote and newline written as `\\`, `\"`
    /// and `\n`.
    pub fn escape_label_value(s: &str) -> (r: String)
        ensures
            r@ == escape(s@),
    {
        proof {
            reveal_strlit("\\\\");
            reveal_strlit("\\\"");
            reveal_strlit("\\n");
        }
        let n = s.unicode_len();
        let mut out = String::new();
        let mut i: usize = 0;
        while i < n
            invariant
                n == s@.len(),
                i <= n,
                out@ == escape(s@.subrange(0, i as int)),
            decreases n - i,
        {
            let c = s.get_char(i);
            if c == '\\' {
                out.append("\\\\");
            } else if c == '"' {
                out.append("\\\"");
            } else if c == '\n' {
                out.append("\\n");
            } else {
                out.append(s.substring_char(i, i + 1));
            }
            proof {
                let t = s@.subrange(0, i + 1);
                assert(t.drop_last() =~= s@.subrange(0, i as int));
                assert(t.last() == c);
                assert(s@.subrange(i as int, i + 1) =~= seq![c]);
                assert(escape(t) == escape(t.drop_last()) + escape_char(c));
                reveal_strlit("\\\\");
                reveal_strlit("\\\"");
                reveal_strlit("\\n");
                assert("\\\\"@ =~= seq!['\\', '\\']);
                assert("\\\""@ =~= seq!['\\', '"']);
                assert("\\n"@ =~= seq!['\\', 'n']);
                assert(out@ =~= escape(t));
            }
            i = i + 1;
        }
        assert(s@.subrange(0, n as int) =~= s@);
        out
    }
}

/// A table whose metrics hold no samples exports to their `# HELP` and
/// `# TYPE` headers alone, each block closed by a blank line.
pub proof fn lemma_export_without_values(ms: Seq<Metric>)
    requires
        forall|i: int| 0 <= i < ms.len() ==> (#[trigger] ms[i]).values@.len() == 0,
    ensures
        export_text(ms) == headers_only(ms),
    decreases ms.len(),
{
    if ms.len() > 0 {
        let d = ms.drop_last();
        assert forall|i: int| 0 <= i < d.len() implies (#[trigger] d[i]).values@.len() == 0 by {
            assert(d[i] == ms[i]);
        }
        lemma_export_without_values(d);
        let m = ms.last();
        assert(ms[ms.len() - 1].values@.len() == 0);
        assert(values_text(m.name@, m.values@) == Seq::<char>::empty());
        assert(metric_text(m) =~= header_text(m) + "\n"@);
    }
}

/// Position of the first metric named `name`, or -1.
pub open spec fn find_metric(ms: Seq<Metric>, name: Seq<char>) -> int
    decreases ms.len(),
{
    if ms.len() == 0 {
        -1
    } else {
        let r = find_metric(ms.drop_last(), name);
        if r >= 0 {
            r
        } else if ms.last().name@ == name {
            ms.len() - 1
        } else {
            -1
        }
    }
}

proof fn lemma_find_metric(ms: Seq<Metric>, name: Seq<char>)
    ensures
        -1 <= find_metric(ms, name) < ms.len(),
        find_metric(ms, name) >= 0 ==> ms[find_metric(ms, name)].name@ == name,
        forall|j: int| 0 <= j < ms.len() && (find_metric(ms, name) < 0 || j < find_metric(ms, name))
            ==> (#[trigger] ms[j]).name@ != name,
    decreases ms.len(),
{
    if ms.len() > 0 {
        let d = ms.drop_last();
        lemma_find_metric(d, name);
        assert forall|j: int| 0 <= j < d.len() implies ms[j] == d[j] by {}
    }
}

proof fn lemma_find_metric_at(ms: Seq<Metric>, name: Seq<char>, k: int)
    requires
        0 <= k <= ms.len(),
        k < ms.len() ==> ms[k].name@ == name,
        forall|j: int| 0 <= j < k ==> (#[trigger] ms[j]).name@ != name,
    ensures
        find_metric(ms, name) == if k < ms.len() {
            k
        } else {
            -1
        },
    decreases ms.len(),
{
    lemma_find_metric(ms, name);
    let f = find_metric(ms, name);
    if f >= 0 && f < k {
        assert(ms[f].name@ != name);
    }
    if k < ms.len() && (f < 0 || k < f) {
        assert(ms[k].name@ != name);
    }
}

/// Position of the first sample whose labels are `ls`, or -1.
pub open spec fn find_sample(vs: Seq<MetricValue>, ls: Map<Seq<char>, Seq<char>>) -> int
    decreases vs.len(),
{
    if vs.len() == 0 {
        -1
    } else {
        let r = find_sample(vs.drop_last(), ls);
        if r >= 0 {
            r
        } else if labels_view(vs.last().labels@) == ls {
            vs.len() - 1
        } else {
            -1
        }
    }
}

proof fn lemma_find_sample_at(vs: Seq<MetricValue>, ls: Map<Seq<char>, Seq<char>>, k: int)
    requires
        0 <= k <= vs.len(),
        k < vs.len() ==> labels_view(vs[k].labels@) == ls,
        forall|j: int| 0 <= j < k ==> labels_view((#[trigger] vs[j]).labels@) != ls,
    ensures
        find_sample(vs, ls) == if k < vs.len() {
            k
        } else {
            -1
        },
    decreases vs.len(),
{
    if vs.len() > 0 {
        let d = vs.drop_last();
        assert forall|j: int| 0 <= j < d.len() implies d[j] == vs[j] by {}
        if k < vs.len() - 1 {
            lemma_find_sample_at(d, ls, k);
        } else {
            lemma_find_sample_at(d, ls, d.len() as int);
        }
    }
}

proof fn lemma_find_sample(vs: Seq<MetricValue>, ls: Map<Seq<char>, Seq<char>>)
    ensures
        -1 <= find_sample(vs, ls) < vs.len(),
        find_sample(vs, ls) >= 0 ==> labels_view(vs[find_sample(vs, ls)].labels@) == ls,
        forall|k: int|
            0 <= k < vs.len() && (find_sample(vs, ls) < 0 || k < find_sample(vs, ls)) ==> labels_view(
                (#[trigger] vs[k]).labels@,
            ) != ls,
    decreases vs.len(),
{
    if vs.len() > 0 {
        let d = vs.drop_last();
        lemma_find_sample(d, ls);
        assert forall|k: int| 0 <= k < d.len() implies d[k] == vs[k] by {}
    }
}

pub proof fn lemma_find_metric_same_names(s: Seq<Metric>, t: Seq<Metric>, n: Seq<char>)
    requires
        s.len() == t.len(),
        forall|k: int| 0 <= k < s.len() ==> (#[trigger] t[k]).name@ == s[k].name@,
    ensures
        find_metric(t, n) == find_metric(s, n),
    decreases s.len(),
{
    if s.len() > 0 {
        lemma_find_metric_same_names(s.drop_last(), t.drop_last(), n);
        assert(t[t.len() - 1].name@ == s[s.len() - 1].name@);
    }
}

/// The value of the sample of metric `name` whose labels are `ls`, if the
/// metric is registered and has one.
pub open spec fn sample_value(ms: Seq<Metric>, name: Seq<char>, ls: Map<Seq<char>, Seq<char>>) -> Option<u64> {
    let i = find_metric(ms, name);
    if i < 0 {
        None
    } else {
        let j = find_sample(ms[i].values@, ls);
        if j < 0 {
            None
        } else {
            Some(ms[i].values@[j].value)
        }
    }
}

/// `b` holds the label `k` with value `v`.
pub open spec fn has_pair(b: Seq<(String, String)>, k: Seq<char>, v: Seq<char>) -> bool {
    exists|j: int| 0 <= j < b.len() && (#[trigger] b[j]).0@ == k && b[j].1@ == v
}

/// Every label of `a` is in `b` with the same value.
pub open spec fn all_pairs_in(a: Seq<(String, String)>, b: Seq<(String, String)>) -> bool {
    forall|i: int| 0 <= i < a.len() ==> has_pair(b, (#[trigger] a[i]).0@, a[i].1@)
}

/// Whether `b` holds the label `k` with value `v`.
fn has_label(b: &Vec<(String, String)>, k: &String, v: &String) -> (r: bool)
    ensures
        r == has_pair(b@, k@, v@),
{
    let mut j: usize = 0;
    while j < b.len()
        invariant
            j <= b@.len(),
            forall|m: int| 0 <= m < j ==> !((#[trigger] b@[m]).0@ == k@ && b@[m].1@ == v@),
        decreases b@.len() - j,
    {
        if b[j].0 == *k && b[j].1 == *v {
            assert(b@[j as int].0@ == k@ && b@[j as int].1@ == v@);
            return true;
        }
        j = j + 1;
    }
    false
}

/// Whether every label of `a` is in `b` with the same value.
fn covers(a: &Vec<(String, String)>, b: &Vec<(String, String)>) -> (r: bool)
    ensures
        r == all_pairs_in(a@, b@),
{
    let mut i: usize = 0;
    while i < a.len()
        invariant
            i <= a@.len(),
            forall|m: int| 0 <= m < i ==> has_pair(b@, (#[trigger] a@[m]).0@, a@[m].1@),
        decreases a@.len() - i,
    {
        if !has_label(b, &a[i].0, &a[i].1) {
            return false;
        }
        i = i + 1;
    }
    true
}

/// Each label of a key-unique list is in its mapping.
proof fn lemma_label_in_map(ls: Seq<(String, String)>, i: int)
    requires
        keys_unique(ls),
        0 <= i < ls.len(),
    ensures
        labels_view(ls).contains_key(ls[i].0@),
        labels_view(ls)[ls[i].0@] == ls[i].1@,
{
    lemma_find_key(ls, ls[i].0@);
}

/// When every label of `a` is in `b`, `a`'s mapping is part of `b`'s.
proof fn lemma_covered_submap(a: Seq<(String, String)>, b: Seq<(String, String)>)
    requires
        keys_unique(a),
        keys_unique(b),
        all_pairs_in(a, b),
    ensures
        forall|k: Seq<char>|
            #[trigger] labels_view(a).contains_key(k) ==> labels_view(b).contains_key(k) && labels_view(b)[k]
                == labels_view(a)[k],
{
    assert forall|k: Seq<char>| #[trigger] labels_view(a).contains_key(k) implies labels_view(b).contains_key(k)
        && labels_view(b)[k] == labels_view(a)[k] by {
        lemma_find_key(a, k);
        let i = find_key(a, k);
        assert(has_pair(b, a[i].0@, a[i].1@));
        let j = choose|j: int| 0 <= j < b.len() && (#[trigger] b[j]).0@ == a[i].0@ && b[j].1@ == a[i].1@;
        lemma_label_in_map(b, j);
    }
}

/// A label of `a` missing from `b` makes the mappings differ.
proof fn lemma_uncovered_differs(a: Seq<(String, String)>, b: Seq<(String, String)>)
    requires
        keys_unique(a),
        keys_unique(b),
        !all_pairs_in(a, b),
    ensures
        labels_view(a) != labels_view(b),
{
    let i = choose|i: int| 0 <= i < a.len() && !has_pair(b, (#[trigger] a[i]).0@, a[i].1@);
    lemma_label_in_map(a, i);
    let k = a[i].0@;
    lemma_find_key(b, k);
    if labels_view(b).contains_key(k) {
        let j = find_key(b, k);
        assert(b[j].0@ == k);
        if b[j].1@ == a[i].1@ {
            assert(has_pair(b, a[i].0@, a[i].1@));
        }
    }
}

/// Whether two key-unique label lists denote the same mapping.
fn labels_equal(a: &Vec<(String, String)>, b: &Vec<(String, String)>) -> (r: bool)
    requires
        keys_unique(a@),
        keys_unique(b@),
    ensures
        r == (labels_view(a@) == labels_view(b@)),
{
    if !covers(a, b) {
        proof {
            lemma_uncovered_differs(a@, b@);
        }
        return false;
    }
    if !covers(b, a) {
        proof {
            lemma_uncovered_differs(b@, a@);
        }
        return false;
    }
    proof {
        lemma_covered_submap(a@, b@);
        lemma_covered_submap(b@, a@);
        assert(labels_view(a@) =~= labels_view(b@));
    }
    true
}

/// Whether no label name occurs twice in `labels`.
pub fn labels_unique(labels: &Vec<(String, String)>) -> (r: bool)
    ensures
        r == keys_unique(labels@),
{
    let n = labels.len();
    let mut i: usize = 0;
    while i < n
        invariant
            n == labels@.len(),
            i <= n,
            forall|a: int, b: int| 0 <= a < i && a < b < n ==> #[trigger] labels@[a].0@ != #[trigger] labels@[b].0@,
        decreases n - i,
    {
        let mut j: usize = i + 1;
        while j < n
            invariant
                n == labels@.len(),
                i < n,
                i + 1 <= j <= n,
                forall|a: int, b: int| 0 <= a < i && a < b < n ==> #[trigger] labels@[a].0@ != #[trigger] labels@[b].0@,
                forall|b: int| i < b < j ==> labels@[i as int].0@ != #[trigger] labels@[b].0@,
            decreases n - j,
        {
            if labels[i].0 == labels[j].0 {
                return false;
            }
            j = j + 1;
        }
        i = i + 1;
    }
    true
}

/// The samples of one metric: each label list names a mapping, and no two
/// samples have the same mapping.
pub open spec fn samples_ok(vs: Seq<MetricValue>) -> bool {
    &&& forall|i: int| 0 <= i < vs.len() ==> keys_unique((#[trigger] vs[i]).labels@)
    &&& forall|i: int, j: int|
        0 <= i < j < vs.len() ==> labels_view((#[trigger] vs[i]).labels@) != labels_view(
            (#[trigger] vs[j]).labels@,
        )
}

/// No two metrics share a name.
pub open spec fn names_distinct(ms: Seq<Metric>) -> bool {
    forall|i: int, j: int| 0 <= i < j < ms.len() ==> #[trigger] ms[i].name@ != #[trigger] ms[j].name@
}

/// The metrics table: registered metrics in registration order, each with
/// its samples.
pub struct MetricsCollector {
    metrics: Vec<Metric>,
}

/// How a sample changes when a value comes in for its labels.
#[derive(Debug, Clone, Copy, PartialEq, Eq, Structural)]
pub enum Update {
    /// The value replaces the sample's.
    Replace,
    /// The value is added to the sample's, saturating at `u64::MAX`.
    Accumulate,
}

pub open spec fn updated_value(old_value: u64, value: u64, how: Update) -> u64 {
    match how {
        Update::Replace => value,
        Update::Accumulate => if old_value as int + value as int > u64::MAX {
            u64::MAX
        } else {
            (old_value + value) as u64
        },
    }
}

impl MetricsCollector {
    pub closed spec fn spec_metrics(&self) -> Seq<Metric> {
        self.metrics@
    }

    pub open spec fn wf(&self) -> bool {
        &&& forall|i: int|
            0 <= i < self.spec_metrics().len() ==> samples_ok((#[trigger] self.spec_metrics()[i]).values@)
        &&& names_distinct(self.spec_metrics())
    }

    /// An empty table.
    pub fn new() -> (r: Self)
        ensures
            r.wf(),
            r.spec_metrics().len() == 0,
    {
        MetricsCollector { metrics: Vec::new() }
    }

    fn index_of(&self, name: &str) -> (r: Option<usize>)
        ensures
            r is None ==> find_metric(self.spec_metrics(), name@) == -1,
            r matches Some(i) ==> i < self.spec_metrics().len() && i as int == find_metric(
                self.spec_metrics(),
                name@,
            ),
    {
        let u = name.to_owned();
        let mut i: usize = 0;
        while i < self.metrics.len()
            invariant
                i <= self.metrics@.len(),
                u@ == name@,
                forall|j: int| 0 <= j < i ==> (#[trigger] self.metrics@[j]).name@ != name@,
            decreases self.metrics@.len() - i,
        {
            if self.metrics[i].name == u {
                proof {
                    lemma_find_metric_at(self.metrics@, name@, i as int);
                }
                return Some(i);
            }
            i = i + 1;
        }
        proof {
            lemma_find_metric_at(self.metrics@, name@, i as int);
        }
        None
    }

    /// Registers a metric with no samples, replacing one of the same name.
    pub fn register(&mut self, name: &str, help: &str, metric_type: MetricType)
        requires
            old(self).wf(),
        ensures
            final(self).wf(),
            ({
                let s = old(self).spec_metrics();
                let t = final(self).spec_metrics();
                let i = find_metric(s, name@);
                let k = if i >= 0 {
                    i
                } else {
                    s.len() as int
                };
                &&& t.len() == if i >= 0 {
                    s.len()
                } else {
                    s.len() + 1
                }
                &&& t[k].name@ == name@
                &&& t[k].help@ == help@
                &&& t[k].metric_type == metric_type
                &&& t[k].values@.len() == 0
                &&& forall|j: int| 0 <= j < s.len() && j != k ==> t[j] == s[j]
            }),
    {
        let m = Metric {
            name: name.to_owned(),
            help: help.to_owned(),
            metric_type,
            values: Vec::new(),
        };
        let ghost s = self.metrics@;
        proof {
            lemma_find_metric(s, name@);
        }
        match self.index_of(name) {
            Some(i) => {
                self.metrics.set(i, m);
            },
            None => {
                self.metrics.push(m);
            },
        }
        proof {
            let t = self.metrics@;
            let f = find_metric(s, name@);
            let k = if f >= 0 {
                f
            } else {
                s.len() as int
            };
            assert forall|a: int| 0 <= a < s.len() && a != k implies t[a] == s[a] by {}
            assert forall|a: int, b: int| 0 <= a < b < t.len() implies t[a].name@ != t[b].name@ by {
                if a != k && b != k {
                    assert(s[a].name@ != s[b].name@);
                } else if a == k && f >= 0 {
                    assert(s[b].name@ != s[a].name@ || a > b);
                    assert(t[b] == s[b]);
                    assert(s[a].name@ != s[b].name@);
                } else if b == k && f >= 0 {
                    assert(t[a] == s[a]);
                    assert(s[a].name@ != s[b].name@);
                } else if b == k {
                    assert(t[a] == s[a]);
                }
            }
            assert forall|a: int| 0 <= a < t.len() implies samples_ok((#[trigger] t[a]).values@) by {
                if a != k {
                    assert(t[a] == s[a]);
                }
            }
        }
    }

    /// Puts `value` into the sample of `name` whose labels are `labels`, by
    /// `how`, or adds a sample when none has those labels. Unregistered
    /// names are ignored.
    fn record(&mut self, name: &str, value: u64, labels: Vec<(String, String)>, how: Update)
        requires
            old(self).wf(),
            keys_unique(labels@),
        ensures
            final(self).wf(),
            ({
                let s = old(self).spec_metrics();
                let t = final(self).spec_metrics();
                let i = find_metric(s, name@);
                if i < 0 {
                    t == s
                } else {
                    let vs = s[i].values@;
                    let ws = t[i].values@;
                    let j = find_sample(vs, labels_view(labels@));
                    &&& t.len() == s.len()
                    &&& forall|k: int| 0 <= k < s.len() && k != i ==> t[k] == s[k]
                    &&& t[i].name == s[i].name && t[i].help == s[i].help && t[i].metric_type
                        == s[i].metric_type
                    &&& if j >= 0 {
                        &&& ws.len() == vs.len()
                        &&& forall|k: int| 0 <= k < vs.len() && k != j ==> ws[k] == vs[k]
                        &&& ws[j].labels == vs[j].labels
                        &&& ws[j].value == updated_value(vs[j].value, value, how)
                    } else {
                        &&& ws.len() == vs.len() + 1
                        &&& forall|k: int| 0 <= k < vs.len() ==> ws[k] == vs[k]
                        &&& ws[vs.len() as int].value == value
                        &&& ws[vs.len() as int].labels@ == labels@
                    }
                }
            }),
    {
        let i = match self.index_of(name) {
            None => {
                return;
            },
            Some(i) => i,
        };
        let ghost s = self.metrics@;
        proof {
            assert(samples_ok(s[i as int].values@));
        }
        let mut m = self.metrics.remove(i);
        let ghost vs = m.values@;
        let mut j: usize = 0;
        while j < m.values.len()
            invariant
                m.values@ == vs,
                samples_ok(vs),
                keys_unique(labels@),
                j <= vs.len(),
                forall|k: int| 0 <= k < j ==> labels_view((#[trigger] vs[k]).labels@) != labels_view(labels@),
            ensures
                m.values@ == vs,
                j <= vs.len(),
                j < vs.len() ==> labels_view(vs[j as int].labels@) == labels_view(labels@),
                forall|k: int| 0 <= k < j ==> labels_view((#[trigger] vs[k]).labels@) != labels_view(labels@),
            decreases vs.len() - j,
        {
            if labels_equal(&m.values[j].labels, &labels) {
                break;
            }
            j = j + 1;
        }
        proof {
            lemma_find_sample_at(vs, labels_view(labels@), j as int);
        }
        if j < m.values.len() {
            let mut v = m.values.remove(j);
            v.value = match how {
                Update::Replace => value,
                Update::Accumulate => if v.value > u64::MAX - value {
                    u64::MAX
                } else {
                    v.value + value
                },
            };
            m.values.insert(j, v);
            proof {
                assert forall|k: int| 0 <= k < vs.len() && k != j implies m.values@[k] == vs[k] by {}
                assert forall|k: int| 0 <= k < vs.len() implies (#[trigger] m.values@[k]).labels == vs[k].labels by {}
                let ws = m.values@;
                assert forall|a: int, b: int| 0 <= a < b < ws.len() implies labels_view(
                    (#[trigger] ws[a]).labels@,
                ) != labels_view((#[trigger] ws[b]).labels@) by {
                    assert(ws[a].labels == vs[a].labels && ws[b].labels == vs[b].labels);
                    assert(labels_view(vs[a].labels@) != labels_view(vs[b].labels@));
                }
                assert(samples_ok(ws));
            }
        } else {
            m.values.push(MetricValue { value, labels });
            proof {
                let ws = m.values@;
                assert forall|k: int| 0 <= k < vs.len() implies ws[k] == vs[k] by {}
                assert forall|a: int, b: int| 0 <= a < b < ws.len() implies labels_view(
                    (#[trigger] ws[a]).labels@,
                ) != labels_view((#[trigger] ws[b]).labels@) by {
                    if b < vs.len() {
                        assert(labels_view(vs[a].labels@) != labels_view(vs[b].labels@));
                    } else {
                        assert(labels_view(vs[a].labels@) != labels_view(labels@));
                    }
                }
                assert(samples_ok(ws));
            }
        }
        let ghost mv = m.values@;
        self.metrics.insert(i, m);
        proof {
            let t = self.metrics@;
            assert forall|k: int| 0 <= k < s.len() && k != i implies t[k] == s[k] by {}
            assert forall|k: int| 0 <= k < t.len() implies samples_ok((#[trigger] t[k]).values@) by {
                if k != i {
                    assert(t[k] == s[k]);
                } else {
                    assert(t[k].values@ == mv);
                }
            }
        }
    }

    /// Sets the gauge sample of `name` with `labels` to `value`.
    pub fn set_gauge(&mut self, name: &str, value: u64, labels: Vec<(String, String)>)
        requires
            old(self).wf(),
            keys_unique(labels@),
        ensures
            final(self).wf(),
            ({
                let s = old(self).spec_metrics();
                let t = final(self).spec_metrics();
                let i = find_metric(s, name@);
                if i < 0 {
                    t == s
                } else {
                    let vs = s[i].values@;
                    let ws = t[i].values@;
                    let j = find_sample(vs, labels_view(labels@));
                    &&& t.len() == s.len()
                    &&& forall|k: int| 0 <= k < s.len() && k != i ==> t[k] == s[k]
                    &&& t[i].name == s[i].name && t[i].help == s[i].help && t[i].metric_type
                        == s[i].metric_type
                    &&& if j >= 0 {
                        &&& ws.len() == vs.len()
                        &&& forall|k: int| 0 <= k < vs.len() && k != j ==> ws[k] == vs[k]
                        &&& ws[j].labels == vs[j].labels
                        &&& ws[j].value == value
                    } else {
                        &&& ws.len() == vs.len() + 1
                        &&& forall|k: int| 0 <= k < vs.len() ==> ws[k] == vs[k]
                        &&& ws[vs.len() as int].value == value
                        &&& ws[vs.len() as int].labels@ == labels@
                    }
                }
            }),
            find_metric(old(self).spec_metrics(), name@) >= 0 ==> sample_value(
                final(self).spec_metrics(),
                name@,
                labels_view(labels@),
            ) == Some(value),
            forall|n: Seq<char>, ls: Map<Seq<char>, Seq<char>>|
                n != name@ ==> #[trigger] sample_value(final(self).spec_metrics(), n, ls) == sample_value(
                    old(self).spec_metrics(),
                    n,
                    ls,
                ),
            forall|ls: Map<Seq<char>, Seq<char>>|
                ls != labels_view(labels@) ==> #[trigger] sample_value(final(self).spec_metrics(), name@, ls)
                    == sample_value(old(self).spec_metrics(), name@, ls),
    {
        let ghost lv = labels_view(labels@);
        let ghost s = self.metrics@;
        self.record(name, value, labels, Update::Replace);
        proof {
            self.lemma_recorded_sample(s, name@, lv, value);
        }
    }

    /// What a recorded value leaves behind: the sample for its labels reads
    /// it, and every other metric reads as before.
    proof fn lemma_recorded_sample(
        &self,
        s: Seq<Metric>,
        name: Seq<char>,
        lv: Map<Seq<char>, Seq<char>>,
        value: u64,
    )
        requires
            ({
                let t = self.spec_metrics();
                let i = find_metric(s, name);
                if i < 0 {
                    t == s
                } else {
                    let vs = s[i].values@;
                    let ws = t[i].values@;
                    let j = find_sample(vs, lv);
                    &&& t.len() == s.len()
                    &&& forall|k: int| 0 <= k < s.len() && k != i ==> t[k] == s[k]
                    &&& t[i].name == s[i].name
                    &&& if j >= 0 {
                        &&& ws.len() == vs.len()
                        &&& forall|k: int| 0 <= k < vs.len() && k != j ==> ws[k] == vs[k]
                        &&& ws[j].labels == vs[j].labels
                        &&& ws[j].value == value
                    } else {
                        &&& ws.len() == vs.len() + 1
                        &&& forall|k: int| 0 <= k < vs.len() ==> ws[k] == vs[k]
                        &&& ws[vs.len() as int].value == value
                        &&& labels_view(ws[vs.len() as int].labels@) == lv
                    }
                }
            }),
        ensures
            find_metric(s, name) >= 0 ==> sample_value(self.spec_metrics(), name, lv) == Some(value),
            forall|n: Seq<char>, ls: Map<Seq<char>, Seq<char>>|
                n != name ==> #[trigger] sample_value(self.spec_metrics(), n, ls) == sample_value(s, n, ls),
            forall|ls: Map<Seq<char>, Seq<char>>|
                ls != lv ==> #[trigger] sample_value(self.spec_metrics(), name, ls) == sample_value(s, name, ls),
    {
        let t = self.spec_metrics();
        let i = find_metric(s, name);
        lemma_find_metric(s, name);
        if i >= 0 {
            assert forall|k: int| 0 <= k < s.len() implies (#[trigger] t[k]).name@ == s[k].name@ by {
                if k != i {
                    assert(t[k] == s[k]);
                }
            }
            let vs = s[i].values@;
            let ws = t[i].values@;
            let j = find_sample(vs, lv);
            lemma_find_sample(vs, lv);
            lemma_find_metric_same_names(s, t, name);
            if j >= 0 {
                assert forall|k: int| 0 <= k < j implies labels_view((#[trigger] ws[k]).labels@) != lv by {
                    assert(ws[k] == vs[k]);
                }
                lemma_find_sample_at(ws, lv, j);
            } else {
                assert forall|k: int| 0 <= k < vs.len() implies labels_view((#[trigger] ws[k]).labels@)
                    != lv by {
                    assert(ws[k] == vs[k]);
                }
                lemma_find_sample_at(ws, lv, vs.len() as int);
            }
            assert forall|ls: Map<Seq<char>, Seq<char>>|
                ls != lv implies #[trigger] sample_value(t, name, ls) == sample_value(s, name, ls) by {
                lemma_find_sample(vs, ls);
                let m = find_sample(vs, ls);
                assert forall|k: int| 0 <= k < vs.len() implies labels_view((#[trigger] ws[k]).labels@)
                    == labels_view(vs[k].labels@) by {
                    if j < 0 || k != j {
                        assert(ws[k] == vs[k]);
                    }
                }
                if m >= 0 {
                    assert forall|k: int| 0 <= k < m implies labels_view((#[trigger] ws[k]).labels@) != ls by {
                        assert(labels_view(vs[k].labels@) != ls);
                    }
                    lemma_find_sample_at(ws, ls, m);
                    if j >= 0 && m == j {
                        assert(false);
                    }
                    assert(ws[m] == vs[m]);
                } else {
                    assert forall|k: int| 0 <= k < ws.len() implies labels_view((#[trigger] ws[k]).labels@) != ls by {
                        if k < vs.len() {
                            assert(labels_view(vs[k].labels@) != ls);
                        }
                    }
                    lemma_find_sample_at(ws, ls, ws.len() as int);
                }
            }
            assert forall|n: Seq<char>, ls: Map<Seq<char>, Seq<char>>|
                n != name implies #[trigger] sample_value(t, n, ls) == sample_value(s, n, ls) by {
                lemma_find_metric_same_names(s, t, n);
                lemma_find_metric(s, n);
                let f = find_metric(s, n);
                if f >= 0 {
                    assert(f != i);
                    assert(t[f] == s[f]);
                }
            }
        }
    }

    /// Adds `value` to the counter sample of `name` with `labels`
    /// (saturating), or starts it at `value`.
    pub fn add_counter(&mut self, name: &str, value: u64, labels: Vec<(String, String)>)
        requires
            old(self).wf(),
            keys_unique(labels@),
        ensures
            final(self).wf(),
            ({
                let s = old(self).spec_metrics();
                let t = final(self).spec_metrics();
                let i = find_metric(s, name@);
                if i < 0 {
                    t == s
                } else {
                    let vs = s[i].values@;
                    let ws = t[i].values@;
                    let j = find_sample(vs, labels_view(labels@));
                    &&& t.len() == s.len()
                    &&& forall|k: int| 0 <= k < s.len() && k != i ==> t[k] == s[k]
                    &&& t[i].name == s[i].name && t[i].help == s[i].help && t[i].metric_type
                        == s[i].metric_type
                    &&& if j >= 0 {
                        &&& ws.len() == vs.len()
                        &&& forall|k: int| 0 <= k < vs.len() && k != j ==> ws[k] == vs[k]
                        &&& ws[j].labels == vs[j].labels
                        &&& ws[j].value == updated_value(vs[j].value, value, Update::Accumulate)
                    } else {
                        &&& ws.len() == vs.len() + 1
                        &&& forall|k: int| 0 <= k < vs.len() ==> ws[k] == vs[k]
                        &&& ws[vs.len() as int].value == value
                        &&& ws[vs.len() as int].labels@ == labels@
                    }
                }
            }),
    {
        self.record(name, value, labels, Update::Accumulate);
    }

    /// Adds one to the counter sample of `name` with `labels`.
    pub fn inc_counter(&mut self, name: &str, labels: Vec<(String, String)>)
        requires
            old(self).wf(),
            keys_unique(labels@),
        ensures
            final(self).wf(),
            ({
                let s = old(self).spec_metrics();
                let t = final(self).spec_metrics();
                let i = find_metric(s, name@);
                if i < 0 {
                    t == s
                } else {
                    let vs = s[i].values@;
                    let ws = t[i].values@;
                    let j = find_sample(vs, labels_view(labels@));
                    &&& t.len() == s.len()
                    &&& forall|k: int| 0 <= k < s.len() && k != i ==> t[k] == s[k]
                    &&& if j >= 0 {
                        &&& ws.len() == vs.len()
                        &&& ws[j].value == updated_value(vs[j].value, 1, Update::Accumulate)
                    } else {
                        &&& ws.len() == vs.len() + 1
                        &&& ws[vs.len() as int].value == 1
                    }
                }
            }),
    {
        self.record(name, 1, labels, Update::Accumulate);
    }

    /// The registered metrics.
    pub fn get_all(&self) -> (r: &Vec<Metric>)
        ensures
            r@ == self.spec_metrics(),
    {
        &self.metrics
    }

    /// Drops every sample, keeping the registrations.
    pub fn clear(&mut self)
        requires
            old(self).wf(),
        ensures
            final(self).wf(),
            final(self).spec_metrics().len() == old(self).spec_metrics().len(),
            forall|i: int|
                0 <= i < final(self).spec_metrics().len() ==> {
                    let m = #[trigger] final(self).spec_metrics()[i];
                    let o = old(self).spec_metrics()[i];
                    m.name == o.name && m.help == o.help && m.metric_type == o.metric_type
                        && m.values@.len() == 0
                },
    {
        let ghost s = self.metrics@;
        let mut i: usize = 0;
        while i < self.metrics.len()
            invariant
                i <= self.metrics@.len(),
                self.metrics@.len() == s.len(),
                forall|k: int|
                    0 <= k < s.len() ==> {
                        let m = #[trigger] self.metrics@[k];
                        m.name == s[k].name && m.help == s[k].help && m.metric_type == s[k].metric_type
                            && (k < i ==> m.values@.len() == 0)
                    },
            decreases s.len() - i,
        {
            let mut m = self.metrics.remove(i);
            m.values = Vec::new();
            self.metrics.insert(i, m);
            i = i + 1;
        }
        proof {
            let t = self.metrics@;
            assert(names_distinct(s));
            assert forall|a: int, b: int| 0 <= a < b < t.len() implies #[trigger] t[a].name@
                != #[trigger] t[b].name@ by {
                assert(t[a].name == s[a].name && t[b].name == s[b].name);
                assert(s[a].name@ != s[b].name@);
            }
            assert forall|a: int| 0 <= a < t.len() implies samples_ok((#[trigger] t[a]).values@) by {
                assert(t[a].values@.len() == 0);
            }
        }
    }

    /// The table as Prometheus text.
    pub fn export_prometheus(&self) -> (r: String)
        ensures
            r@ == export_text(self.spec_metrics()),
    {
        PrometheusExporter::export(&self.metrics)
    }
}

impl Default for MetricsCollector {
    /// The table with the service's standard metrics registered.
    fn default() -> (r: Self)
        ensures
            r.wf(),
            r.spec_metrics().len() == 11,
            forall|i: int| 0 <= i < 11 ==> (#[trigger] r.spec_metrics()[i]).values@.len() == 0,
            r.spec_metrics()[0].name@ == "frame_instances_total"@,
            r.spec_metrics()[0].help@ == "Total number of Frame instances"@,
            r.spec_metrics()[0].metric_type == MetricType::Gauge,
            r.spec_metrics()[1].name@ == "frame_instances_running"@,
            r.spec_metrics()[1].help@ == "Number of running Frame instances"@,
            r.spec_metrics()[1].metric_type == MetricType::Gauge,
            r.spec_metrics()[2].name@ == "frame_instances_stopped"@,
            r.spec_metrics()[2].help@ == "Number of stopped Frame instances"@,
            r.spec_metrics()[2].metric_type == MetricType::Gauge,
            r.spec_metrics()[3].name@ == "frame_memory_usage_bytes"@,
            r.spec_metrics()[3].help@ == "Memory usage per instance in bytes"@,
            r.spec_metrics()[3].metric_type == MetricType::Gauge,
            r.spec_metrics()[4].name@ == "frame_cpu_usage_percent"@,
            r.spec_metrics()[4].help@ == "CPU usage per instance as percentage"@,
            r.spec_metrics()[4].metric_type == MetricType::Gauge,
            r.spec_metrics()[5].name@ == "frame_requests_total"@,
            r.spec_metrics()[5].help@ == "Total requests per instance"@,
            r.spec_metrics()[5].metric_type == MetricType::Counter,
            r.spec_metrics()[6].name@ == "frame_request_duration_seconds"@,
            r.spec_metrics()[6].help@ == "Request duration histogram"@,
            r.spec_metrics()[6].metric_type == MetricType::Histogram,
            r.spec_metrics()[7].name@ == "frame_apps_total"@,
            r.spec_metrics()[7].help@ == "Total number of deployed apps"@,
            r.spec_metrics()[7].metric_type == MetricType::Gauge,
            r.spec_metrics()[8].name@ == "frame_ports_allocated"@,
            r.spec_metrics()[8].help@ == "Number of allocated ports"@,
            r.spec_metrics()[8].metric_type == MetricType::Gauge,
            r.spec_metrics()[9].name@ == "frame_ports_available"@,
            r.spec_metrics()[9].help@ == "Number of available ports"@,
            r.spec_metrics()[9].metric_type == MetricType::Gauge,
            r.spec_metrics()[10].name@ == "frame_health_check_failures"@,
            r.spec_metrics()[10].help@ == "Number of health check failures"@,
            r.spec_metrics()[10].metric_type == MetricType::Counter,
    {
        let mut v: Vec<Metric> = Vec::new();
        v.push(standard_metric("frame_instances_total", "Total number of Frame instances", MetricType::Gauge));
        v.push(standard_metric("frame_instances_running", "Number of running Frame instances", MetricType::Gauge));
        v.push(standard_metric("frame_instances_stopped", "Number of stopped Frame instances", MetricType::Gauge));
        v.push(standard_metric("frame_memory_usage_bytes", "Memory usage per instance in bytes", MetricType::Gauge));
        v.push(standard_metric("frame_cpu_usage_percent", "CPU usage per instance as percentage", MetricType::Gauge));
        v.push(standard_metric("frame_requests_total", "Total requests per instance", MetricType::Counter));
        v.push(standard_metric("frame_request_duration_seconds", "Request duration histogram", MetricType::Histogram));
        v.push(standard_metric("frame_apps_total", "Total number of deployed apps", MetricType::Gauge));
        v.push(standard_metric("frame_ports_allocated", "Number of allocated ports", MetricType::Gauge));
        v.push(standard_metric("frame_ports_available", "Number of available ports", MetricType::Gauge));
        v.push(standard_metric("frame_health_check_failures", "Number of health check failures", MetricType::Counter));
        proof {
            reveal_strlit("frame_instances_total");
            reveal_strlit("frame_instances_running");
            reveal_strlit("frame_instances_stopped");
            reveal_strlit("frame_memory_usage_bytes");
            reveal_strlit("frame_cpu_usage_percent");
            reveal_strlit("frame_requests_total");
            reveal_strlit("frame_request_duration_seconds");
            reveal_strlit("frame_apps_total");
            reveal_strlit("frame_ports_allocated");
            reveal_strlit("frame_ports_available");
            reveal_strlit("frame_health_check_failures");
            let ns = v@;
            assert forall|a: int, b: int| 0 <= a < b < ns.len() implies #[trigger] ns[a].name@ != #[trigger] ns[b].name@ by {
                if a == 0 && b == 1 {
                    assert(ns[0].name@.len() != ns[1].name@.len());
                } else if a == 0 && b == 2 {
                    assert(ns[0].name@.len() != ns[2].name@.len());
                } else if a == 0 && b == 3 {
                    assert(ns[0].name@.len() != ns[3].name@.len());
                } else if a == 0 && b == 4 {
                    assert(ns[0].name@.len() != ns[4].name@.len());
                } else if a == 0 && b == 5 {
                    assert(ns[0].name@.len() != ns[5].name@.len());
                } else if a == 0 && b == 6 {
                    assert(ns[0].name@.len() != ns[6].name@.len());
                } else if a == 0 && b == 7 {
                    assert(ns[0].name@.len() != ns[7].name@.len());
                } else if a == 0 && b == 8 {
                    assert(ns[0].name@[6] != ns[8].name@[6]);
                } else if a == 0 && b == 9 {
                    assert(ns[0].name@[6] != ns[9].name@[6]);
                } else if a == 0 && b == 10 {
                    assert(ns[0].name@.len() != ns[10].name@.len());
                } else if a == 1 && b == 2 {
                    assert(ns[1].name@[16] != ns[2].name@[16]);
                } else if a == 1 && b == 3 {
                    assert(ns[1].name@.len() != ns[3].name@.len());
                } else if a == 1 && b == 4 {
                    assert(ns[1].name@[6] != ns[4].name@[6]);
                } else if a == 1 && b == 5 {
                    assert(ns[1].name@.len() != ns[5].name@.len());
                } else if a == 1 && b == 6 {
                    assert(ns[1].name@.len() != ns[6].name@.len());
                } else if a == 1 && b == 7 {
                    assert(ns[1].name@.len() != ns[7].name@.len());
                } else if a == 1 && b == 8 {
                    assert(ns[1].name@.len() != ns[8].name@.len());
                } else if a == 1 && b == 9 {
                    assert(ns[1].name@.len() != ns[9].name@.len());
                } else if a == 1 && b == 10 {
                    assert(ns[1].name@.len() != ns[10].name@.len());
                } else if a == 2 && b == 3 {
                    assert(ns[2].name@.len() != ns[3].name@.len());
                } else if a == 2 && b == 4 {
                    assert(ns[2].name@[6] != ns[4].name@[6]);
                } else if a == 2 && b == 5 {
                    assert(ns[2].name@.len() != ns[5].name@.len());
                } else if a == 2 && b == 6 {
                    assert(ns[2].name@.len() != ns[6].name@.len());
                } else if a == 2 && b == 7 {
                    assert(ns[2].name@.len() != ns[7].name@.len());
                } else if a == 2 && b == 8 {
                    assert(ns[2].name@.len() != ns[8].name@.len());
                } else if a == 2 && b == 9 {
                    assert(ns[2].name@.len() != ns[9].name@.len());
                } else if a == 2 && b == 10 {
                    assert(ns[2].name@.len() != ns[10].name@.len());
                } else if a == 3 && b == 4 {
                    assert(ns[3].name@.len() != ns[4].name@.len());
                } else if a == 3 && b == 5 {
                    assert(ns[3].name@.len() != ns[5].name@.len());
                } else if a == 3 && b == 6 {
                    assert(ns[3].name@.len() != ns[6].name@.len());
                } else if a == 3 && b == 7 {
                    assert(ns[3].name@.len() != ns[7].name@.len());
                } else if a == 3 && b == 8 {
                    assert(ns[3].name@.len() != ns[8].name@.len());
                } else if a == 3 && b == 9 {
                    assert(ns[3].name@.len() != ns[9].name@.len());
                } else if a == 3 && b == 10 {
                    assert(ns[3].name@.len() != ns[10].name@.len());
                } else if a == 4 && b == 5 {
                    assert(ns[4].name@.len() != ns[5].name@.len());
                } else if a == 4 && b == 6 {
                    assert(ns[4].name@.len() != ns[6].name@.len());
                } else if a == 4 && b == 7 {
                    assert(ns[4].name@.len() != ns[7].name@.len());
                } else if a == 4 && b == 8 {
                    assert(ns[4].name@.len() != ns[8].name@.len());
                } else if a == 4 && b == 9 {
                    assert(ns[4].name@.len() != ns[9].name@.len());
                } else if a == 4 && b == 10 {
                    assert(ns[4].name@.len() != ns[10].name@.len());
                } else if a == 5 && b == 6 {
                    assert(ns[5].name@.len() != ns[6].name@.len());
                } else if a == 5 && b == 7 {
                    assert(ns[5].name@.len() != ns[7].name@.len());
                } else if a == 5 && b == 8 {
                    assert(ns[5].name@.len() != ns[8].name@.len());
                } else if a == 5 && b == 9 {
                    assert(ns[5].name@.len() != ns[9].name@.len());
                } else if a == 5 && b == 10 {
                    assert(ns[5].name@.len() != ns[10].name@.len());
                } else if a == 6 && b == 7 {
                    assert(ns[6].name@.len() != ns[7].name@.len());
                } else if a == 6 && b == 8 {
                    assert(ns[6].name@.len() != ns[8].name@.len());
                } else if a == 6 && b == 9 {
                    assert(ns[6].name@.len() != ns[9].name@.len());
                } else if a == 6 && b == 10 {
                    assert(ns[6].name@.len() != ns[10].name@.len());
                } else if a == 7 && b == 8 {
                    assert(ns[7].name@.len() != ns[8].name@.len());
                } else if a == 7 && b == 9 {
                    assert(ns[7].name@.len() != ns[9].name@.len());
                } else if a == 7 && b == 10 {
                    assert(ns[7].name@.len() != ns[10].name@.len());
                } else if a == 8 && b == 9 {
                    assert(ns[8].name@[13] != ns[9].name@[13]);
                } else if a == 8 && b == 10 {
                    assert(ns[8].name@.len() != ns[10].name@.len());
                } else if a == 9 && b == 10 {
                    assert(ns[9].name@.len() != ns[10].name@.len());
                }
            }
        }
        MetricsCollector { metrics: v }
    }
}

fn standard_metric(name: &str, help: &str, metric_type: MetricType) -> (r: Metric)
    ensures
        r.name@ == name@,
        r.help@ == help@,
        r.metric_type == metric_type,
        r.values@.len() == 0,
{
    Metric { name: name.to_owned(), help: help.to_owned(), metric_type, values: Vec::new() }
}

} // verus!
