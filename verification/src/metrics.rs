//! Prometheus text-format encoding.
//!
//! The exposition format is simple line-oriented text, written directly
//! into an owned output buffer: a two-line `# TYPE` / `# HELP` header
//! the first time a metric family emits a sample, then one line per
//! sample.

use vstd::prelude::*;
use vstd::string::StringSliceAdditionalSpecFns;

use crate::bytes::push_bytes;
use crate::codes::{
    opcode_label, push_class_label, rcode_label, spec_class_label, spec_opcode_label,
    spec_rcode_label, Class, Opcode, Rcode,
};
use crate::numbers::{dec_digits, fixed_digits, push_decimal, push_fixed, Nanos};
use crate::parser::{ParseError, Parser};
use crate::statistics::{Statistics, StatisticsView, Thread};

verus! {

/// A value that can stand in a sample line, as the sample value or as
/// a label value.
pub trait MetricValue {
    /// The bytes this value renders as.
    spec fn rendered(&self) -> Seq<u8>;

    /// Append the rendering of this value.
    fn write(&self, w: &mut Vec<u8>)
        ensures
            final(w)@ == old(w)@ + self.rendered(),
    ;
}

impl MetricValue for u64 {
    open spec fn rendered(&self) -> Seq<u8> {
        dec_digits(*self as nat)
    }

    fn write(&self, w: &mut Vec<u8>) {
        push_decimal(w, *self as u128);
    }
}

impl MetricValue for usize {
    open spec fn rendered(&self) -> Seq<u8> {
        dec_digits(*self as nat)
    }

    fn write(&self, w: &mut Vec<u8>) {
        push_decimal(w, *self as u128);
    }
}

impl MetricValue for u128 {
    open spec fn rendered(&self) -> Seq<u8> {
        dec_digits(*self as nat)
    }

    fn write(&self, w: &mut Vec<u8>) {
        push_decimal(w, *self);
    }
}

impl MetricValue for Nanos {
    /// A duration or fractional value renders as decimal seconds.
    open spec fn rendered(&self) -> Seq<u8> {
        fixed_digits(self.nanos as nat)
    }

    fn write(&self, w: &mut Vec<u8>) {
        push_fixed(w, self.nanos);
    }
}

impl<'a> MetricValue for &'a str {
    open spec fn rendered(&self) -> Seq<u8> {
        self.spec_bytes()
    }

    fn write(&self, w: &mut Vec<u8>) {
        push_bytes(w, self.as_bytes());
    }
}

impl MetricValue for Vec<u8> {
    open spec fn rendered(&self) -> Seq<u8> {
        self@
    }

    fn write(&self, w: &mut Vec<u8>) {
        push_bytes(w, self.as_slice());
    }
}

impl MetricValue for Opcode {
    open spec fn rendered(&self) -> Seq<u8> {
        spec_opcode_label(*self)
    }

    fn write(&self, w: &mut Vec<u8>) {
        push_bytes(w, opcode_label(*self).as_bytes());
    }
}

impl MetricValue for Rcode {
    open spec fn rendered(&self) -> Seq<u8> {
        spec_rcode_label(*self)
    }

    fn write(&self, w: &mut Vec<u8>) {
        push_bytes(w, rcode_label(*self).as_bytes());
    }
}

impl MetricValue for Class {
    open spec fn rendered(&self) -> Seq<u8> {
        spec_class_label(*self)
    }

    fn write(&self, w: &mut Vec<u8>) {
        push_class_label(w, *self);
    }
}

/// The two-line family header: `# TYPE` and `# HELP`, both carrying
/// the namespaced metric name.
pub open spec fn spec_header(name: Seq<u8>, kind: Seq<u8>, help: Seq<u8>) -> Seq<u8> {
    "# TYPE unbound_".spec_bytes() + name + " ".spec_bytes() + kind + "\n# HELP unbound_".spec_bytes()
        + name + " ".spec_bytes() + help + "\n".spec_bytes()
}

/// An unlabeled sample line.
pub open spec fn spec_sample(name: Seq<u8>, value: Seq<u8>) -> Seq<u8> {
    "unbound_".spec_bytes() + name + " ".spec_bytes() + value + "\n".spec_bytes()
}

/// A sample line with one label.
pub open spec fn spec_labeled_sample(
    name: Seq<u8>,
    key: Seq<u8>,
    label: Seq<u8>,
    value: Seq<u8>,
) -> Seq<u8> {
    "unbound_".spec_bytes() + name + "{".spec_bytes() + key + "=\"".spec_bytes() + label
        + "\"} ".spec_bytes() + value + "\n".spec_bytes()
}

/// The header bytes a guard still owes: the family header while no
/// sample has been emitted, nothing afterwards.
pub open spec fn spec_pending_header(
    name: Seq<u8>,
    pending: Option<(Seq<u8>, Seq<u8>)>,
) -> Seq<u8> {
    match pending {
        Some(p) => spec_header(name, p.0, p.1),
        None => Seq::empty(),
    }
}

/// Law: a family header is emitted exactly once.  Emitting a sample
/// clears the owed header, and a guard that owes none appends no
/// header bytes before its sample, however many labeled samples of the
/// family follow.
pub proof fn lemma_suppressed_header_adds_nothing(name: Seq<u8>, value: Seq<u8>)
    ensures
        spec_pending_header(name, Option::None) == Seq::<u8>::empty(),
        Seq::<u8>::empty() + spec_sample(name, value) == spec_sample(name, value),
{
    assert(Seq::<u8>::empty() + spec_sample(name, value) =~= spec_sample(name, value));
}

/// One Prometheus observation being encoded: the output buffer.
#[must_use]
pub struct Measurement {
    buf: Vec<u8>,
}

impl View for Measurement {
    type V = Seq<u8>;

    closed spec fn view(&self) -> Seq<u8> {
        self.buf@
    }
}

/// The emitting handle for one metric family: its name, and the header
/// it still owes before the first sample.
#[must_use]
pub struct MetricGuard {
    name: &'static str,
    header: Option<(&'static str, &'static str)>,
}

impl MetricGuard {
    /// The family's metric name.
    pub closed spec fn name_spec(self) -> Seq<u8> {
        self.name.spec_bytes()
    }

    /// The header text still owed, if any.
    pub closed spec fn pending(self) -> Option<(Seq<u8>, Seq<u8>)> {
        match self.header {
            Some(p) => Some((p.0.spec_bytes(), p.1.spec_bytes())),
            None => None,
        }
    }

    /// A fresh family handle that owes its header.
    pub fn new(name: &'static str, kind: &'static str, help: &'static str) -> (r: MetricGuard)
        ensures
            r.name_spec() == name.spec_bytes(),
            r.pending() == Some((kind.spec_bytes(), help.spec_bytes())),
    {
        MetricGuard { name, header: Some((kind, help)) }
    }

    /// Emit the family header if it is still owed.
    fn ensure_header(&mut self, m: &mut Measurement)
        ensures
            final(m)@ == old(m)@ + spec_pending_header(old(self).name_spec(), old(self).pending()),
            final(self).pending() is None,
            final(self).name_spec() == old(self).name_spec(),
    {
        match self.header.take() {
            Some(p) => {
                push_bytes(&mut m.buf, "# TYPE unbound_".as_bytes());
                push_bytes(&mut m.buf, self.name.as_bytes());
                push_bytes(&mut m.buf, " ".as_bytes());
                push_bytes(&mut m.buf, p.0.as_bytes());
                push_bytes(&mut m.buf, "\n# HELP unbound_".as_bytes());
                push_bytes(&mut m.buf, self.name.as_bytes());
                push_bytes(&mut m.buf, " ".as_bytes());
                push_bytes(&mut m.buf, p.1.as_bytes());
                push_bytes(&mut m.buf, "\n".as_bytes());
                proof {
                    assert(m.buf@ =~= old(m)@ + spec_header(
                        old(self).name_spec(),
                        p.0.spec_bytes(),
                        p.1.spec_bytes(),
                    ));
                }
            },
            None => {
                proof {
                    assert(old(m)@ + Seq::<u8>::empty() =~= old(m)@);
                }
            },
        }
    }

    /// Emit one unlabeled sample, after the header if it is still owed.
    pub fn set<V: MetricValue>(&mut self, m: &mut Measurement, value: &V)
        ensures
            final(m)@ == old(m)@ + spec_pending_header(old(self).name_spec(), old(self).pending())
                + spec_sample(old(self).name_spec(), value.rendered()),
            final(self).pending() is None,
            final(self).name_spec() == old(self).name_spec(),
    {
        self.ensure_header(m);
        push_bytes(&mut m.buf, "unbound_".as_bytes());
        push_bytes(&mut m.buf, self.name.as_bytes());
        push_bytes(&mut m.buf, " ".as_bytes());
        value.write(&mut m.buf);
        push_bytes(&mut m.buf, "\n".as_bytes());
        proof {
            assert(m.buf@ =~= old(m)@ + spec_pending_header(
                old(self).name_spec(),
                old(self).pending(),
            ) + spec_sample(old(self).name_spec(), value.rendered()));
        }
    }

    /// Emit one labeled sample, after the header if it is still owed.
    pub fn set_with_label<L: MetricValue, V: MetricValue>(
        &mut self,
        m: &mut Measurement,
        key: &'static str,
        label: &L,
        value: &V,
    )
        ensures
            final(m)@ == old(m)@ + spec_pending_header(old(self).name_spec(), old(self).pending())
                + spec_labeled_sample(
                old(self).name_spec(),
                key.spec_bytes(),
                label.rendered(),
                value.rendered(),
            ),
            final(self).pending() is None,
            final(self).name_spec() == old(self).name_spec(),
    {
        self.ensure_header(m);
        push_bytes(&mut m.buf, "unbound_".as_bytes());
        push_bytes(&mut m.buf, self.name.as_bytes());
        push_bytes(&mut m.buf, "{".as_bytes());
        push_bytes(&mut m.buf, key.as_bytes());
        push_bytes(&mut m.buf, "=\"".as_bytes());
        label.write(&mut m.buf);
        push_bytes(&mut m.buf, "\"} ".as_bytes());
        value.write(&mut m.buf);
        push_bytes(&mut m.buf, "\n".as_bytes());
        proof {
            assert(m.buf@ =~= old(m)@ + spec_pending_header(
                old(self).name_spec(),
                old(self).pending(),
            ) + spec_labeled_sample(
                old(self).name_spec(),
                key.spec_bytes(),
                label.rendered(),
                value.rendered(),
            ));
        }
    }

    /// Keep or drop the owed header: with `false` the header is
    /// suppressed, for repeated series of a family already emitted.
    pub fn needs_header(&mut self, value: bool)
        ensures
            final(self).pending() == if value {
                old(self).pending()
            } else {
                Option::<(Seq<u8>, Seq<u8>)>::None
            },
            final(self).name_spec() == old(self).name_spec(),
    {
        if !value {
            self.header = None;
        }
    }
}

/// The emitting handle for one histogram family.
#[must_use]
pub struct HistogramGuard {
    name: &'static str,
    header: Option<&'static str>,
}

impl HistogramGuard {
    /// The family's metric name.
    pub closed spec fn name_spec(self) -> Seq<u8> {
        self.name.spec_bytes()
    }

    /// The help text still owed, if any.
    pub closed spec fn pending(self) -> Option<Seq<u8>> {
        match self.header {
            Some(h) => Some(h.spec_bytes()),
            None => None,
        }
    }

    /// A fresh histogram handle that owes its header.
    pub fn new(name: &'static str, help: &'static str) -> (r: HistogramGuard)
        ensures
            r.name_spec() == name.spec_bytes(),
            r.pending() == Some(help.spec_bytes()),
    {
        HistogramGuard { name, header: Some(help) }
    }

    /// Emit the family header if it is still owed.
    fn ensure_header(&mut self, m: &mut Measurement)
        ensures
            final(m)@ == old(m)@ + spec_hist_pending(old(self).name_spec(), old(self).pending()),
            final(self).pending() is None,
            final(self).name_spec() == old(self).name_spec(),
    {
        match self.header.take() {
            Some(help) => {
                push_bytes(&mut m.buf, "# TYPE unbound_".as_bytes());
                push_bytes(&mut m.buf, self.name.as_bytes());
                push_bytes(&mut m.buf, " histogram\n# HELP unbound_".as_bytes());
                push_bytes(&mut m.buf, self.name.as_bytes());
                push_bytes(&mut m.buf, " ".as_bytes());
                push_bytes(&mut m.buf, help.as_bytes());
                push_bytes(&mut m.buf, "\n".as_bytes());
                proof {
                    assert(m.buf@ =~= old(m)@ + spec_hist_header(
                        old(self).name_spec(),
                        help.spec_bytes(),
                    ));
                }
            },
            None => {
                proof {
                    assert(old(m)@ + Seq::<u8>::empty() =~= old(m)@);
                }
            },
        }
    }

    /// Emit one cumulative bucket line.
    pub fn bucket<L: MetricValue, V: MetricValue>(&mut self, m: &mut Measurement, le: &L, value: &V)
        ensures
            final(m)@ == old(m)@ + spec_hist_pending(old(self).name_spec(), old(self).pending())
                + spec_bucket_line(old(self).name_spec(), le.rendered(), value.rendered()),
            final(self).pending() is None,
            final(self).name_spec() == old(self).name_spec(),
    {
        self.ensure_header(m);
        push_bytes(&mut m.buf, "unbound_".as_bytes());
        push_bytes(&mut m.buf, self.name.as_bytes());
        push_bytes(&mut m.buf, "_bucket{le=\"".as_bytes());
        le.write(&mut m.buf);
        push_bytes(&mut m.buf, "\"} ".as_bytes());
        value.write(&mut m.buf);
        push_bytes(&mut m.buf, "\n".as_bytes());
        proof {
            assert(m.buf@ =~= old(m)@ + spec_hist_pending(
                old(self).name_spec(),
                old(self).pending(),
            ) + spec_bucket_line(old(self).name_spec(), le.rendered(), value.rendered()));
        }
    }

    /// Emit the sum statistic.
    pub fn sum<V: MetricValue>(&mut self, m: &mut Measurement, value: &V)
        ensures
            final(m)@ == old(m)@ + spec_hist_pending(old(self).name_spec(), old(self).pending())
                + spec_suffix_sample(old(self).name_spec(), "_sum ".spec_bytes(), value.rendered()),
            final(self).pending() is None,
            final(self).name_spec() == old(self).name_spec(),
    {
        self.ensure_header(m);
        push_bytes(&mut m.buf, "unbound_".as_bytes());
        push_bytes(&mut m.buf, self.name.as_bytes());
        push_bytes(&mut m.buf, "_sum ".as_bytes());
        value.write(&mut m.buf);
        push_bytes(&mut m.buf, "\n".as_bytes());
        proof {
            assert(m.buf@ =~= old(m)@ + spec_hist_pending(
                old(self).name_spec(),
                old(self).pending(),
            ) + spec_suffix_sample(
                old(self).name_spec(),
                "_sum ".spec_bytes(),
                value.rendered(),
            ));
        }
    }

    /// Emit the count statistic.
    pub fn count<V: MetricValue>(&mut self, m: &mut Measurement, value: &V)
        ensures
            final(m)@ == old(m)@ + spec_hist_pending(old(self).name_spec(), old(self).pending())
                + spec_suffix_sample(
                old(self).name_spec(),
                "_count ".spec_bytes(),
                value.rendered(),
            ),
            final(self).pending() is None,
            final(self).name_spec() == old(self).name_spec(),
    {
        self.ensure_header(m);
        push_bytes(&mut m.buf, "unbound_".as_bytes());
        push_bytes(&mut m.buf, self.name.as_bytes());
        push_bytes(&mut m.buf, "_count ".as_bytes());
        value.write(&mut m.buf);
        push_bytes(&mut m.buf, "\n".as_bytes());
        proof {
            assert(m.buf@ =~= old(m)@ + spec_hist_pending(
                old(self).name_spec(),
                old(self).pending(),
            ) + spec_suffix_sample(
                old(self).name_spec(),
                "_count ".spec_bytes(),
                value.rendered(),
            ));
        }
    }
}

/// The histogram family header: kind `histogram`.
pub open spec fn spec_hist_header(name: Seq<u8>, help: Seq<u8>) -> Seq<u8> {
    "# TYPE unbound_".spec_bytes() + name + " histogram\n# HELP unbound_".spec_bytes() + name
        + " ".spec_bytes() + help + "\n".spec_bytes()
}

/// The header bytes a histogram guard still owes.
pub open spec fn spec_hist_pending(name: Seq<u8>, pending: Option<Seq<u8>>) -> Seq<u8> {
    match pending {
        Some(help) => spec_hist_header(name, help),
        None => Seq::empty(),
    }
}

/// A sample line whose metric name carries a suffix (with its
/// separating space), as the histogram sum and count statistics do.
pub open spec fn spec_suffix_sample(name: Seq<u8>, suffix: Seq<u8>, value: Seq<u8>) -> Seq<u8> {
    "unbound_".spec_bytes() + name + suffix + value + "\n".spec_bytes()
}

/// A cumulative bucket sample line.
pub open spec fn spec_bucket_line(name: Seq<u8>, le: Seq<u8>, value: Seq<u8>) -> Seq<u8> {
    "unbound_".spec_bytes() + name + "_bucket{le=\"".spec_bytes() + le + "\"} ".spec_bytes()
        + value + "\n".spec_bytes()
}

impl Measurement {
    /// An empty output buffer with room reserved.
    pub fn with_buffer_capacity(capacity: usize) -> (r: Self)
        ensures
            r@ == Seq::<u8>::empty(),
    {
        Measurement { buf: Vec::with_capacity(capacity) }
    }

    /// A handle for a counter family.
    pub fn counter(&self, name: &'static str, help: &'static str) -> (r: MetricGuard)
        ensures
            r.name_spec() == name.spec_bytes(),
            r.pending() == Some(("counter".spec_bytes(), help.spec_bytes())),
    {
        MetricGuard::new(name, "counter", help)
    }

    /// A handle for a gauge family.
    pub fn gauge(&self, name: &'static str, help: &'static str) -> (r: MetricGuard)
        ensures
            r.name_spec() == name.spec_bytes(),
            r.pending() == Some(("gauge".spec_bytes(), help.spec_bytes())),
    {
        MetricGuard::new(name, "gauge", help)
    }

    /// A handle for a histogram family.
    pub fn histogram(&self, name: &'static str, help: &'static str) -> (r: HistogramGuard)
        ensures
            r.name_spec() == name.spec_bytes(),
            r.pending() == Some(help.spec_bytes()),
    {
        HistogramGuard::new(name, help)
    }

    /// Hand out the finished output bytes.
    pub fn drain(self) -> (r: Vec<u8>)
        ensures
            r@ == self@,
    {
        self.buf
    }
}

impl Default for Measurement {
    /// An empty output buffer.
    fn default() -> (r: Self)
        ensures
            r@ == Seq::<u8>::empty(),
    {
        Measurement { buf: Vec::new() }
    }
}

/// A complete single-sample family: header, then one unlabeled sample.
pub open spec fn fam(
    base: Seq<u8>,
    name: Seq<u8>,
    kind: Seq<u8>,
    help: Seq<u8>,
    value: Seq<u8>,
) -> Seq<u8> {
    base + spec_header(name, kind, help) + spec_sample(name, value)
}

/// Append one single-sample counter family.
fn emit_counter<V: MetricValue>(
    m: &mut Measurement,
    name: &'static str,
    help: &'static str,
    value: &V,
)
    ensures
        final(m)@ == fam(
            old(m)@,
            name.spec_bytes(),
            "counter".spec_bytes(),
            help.spec_bytes(),
            value.rendered(),
        ),
{
    let mut g = m.counter(name, help);
    g.set(m, value);
}

/// Append one single-sample gauge family.
fn emit_gauge<V: MetricValue>(
    m: &mut Measurement,
    name: &'static str,
    help: &'static str,
    value: &V,
)
    ensures
        final(m)@ == fam(
            old(m)@,
            name.spec_bytes(),
            "gauge".spec_bytes(),
            help.spec_bytes(),
            value.rendered(),
        ),
{
    let mut g = m.gauge(name, help);
    g.set(m, value);
}

/// The leading section: thread count, timing, and memory families.
#[verifier::opaque]
pub open spec fn sec_basics(base: Seq<u8>, s: StatisticsView) -> Seq<u8> {
    let b1 = fam(
        base,
        "num_threads".spec_bytes(),
        "gauge".spec_bytes(),
        "The number of threads to create to serve clients".spec_bytes(),
        dec_digits(s.threads.len()),
    );
    let b2 = fam(
        b1,
        "time_up_seconds_total".spec_bytes(),
        "counter".spec_bytes(),
        "Uptime since server boot in seconds".spec_bytes(),
        fixed_digits(s.time.up.nanos as nat),
    );
    let b3 = fam(
        b2,
        "time_now_seconds".spec_bytes(),
        "counter".spec_bytes(),
        "Current time in seconds since UNIX epoch".spec_bytes(),
        fixed_digits(s.time.now.nanos as nat),
    );
    let b4 = fam(
        b3,
        "time_elapsed_seconds".spec_bytes(),
        "counter".spec_bytes(),
        "Time since last statistics printout in seconds".spec_bytes(),
        fixed_digits(s.time.elapsed.nanos as nat),
    );
    let cname = "memory_caches_bytes".spec_bytes();
    let b5 = b4 + spec_header(
        cname,
        "gauge".spec_bytes(),
        "Memory in bytes in use by caches".spec_bytes(),
    ) + spec_labeled_sample(
        cname,
        "cache".spec_bytes(),
        "rrset".spec_bytes(),
        dec_digits(s.cache.rrset as nat),
    ) + spec_labeled_sample(
        cname,
        "cache".spec_bytes(),
        "message".spec_bytes(),
        dec_digits(s.cache.message as nat),
    ) + spec_labeled_sample(
        cname,
        "cache".spec_bytes(),
        "dnscrypt_shared_secret".spec_bytes(),
        dec_digits(s.cache.dnscrypt_shared_secret as nat),
    ) + spec_labeled_sample(
        cname,
        "cache".spec_bytes(),
        "dnscrypt_nonce".spec_bytes(),
        dec_digits(s.cache.dnscrypt_nonce as nat),
    );
    let mname = "memory_modules_bytes".spec_bytes();
    let b6 = b5 + spec_header(
        mname,
        "gauge".spec_bytes(),
        "Memory in bytes in use by modules".spec_bytes(),
    ) + spec_labeled_sample(
        mname,
        "module".spec_bytes(),
        "iterator".spec_bytes(),
        dec_digits(s.modules.iterator as nat),
    ) + spec_labeled_sample(
        mname,
        "module".spec_bytes(),
        "validator".spec_bytes(),
        dec_digits(s.modules.validator as nat),
    ) + spec_labeled_sample(
        mname,
        "module".spec_bytes(),
        "respip".spec_bytes(),
        dec_digits(s.modules.respip as nat),
    ) + spec_labeled_sample(
        mname,
        "module".spec_bytes(),
        "subnet".spec_bytes(),
        dec_digits(s.modules.subnet as nat),
    );
    fam(
        b6,
        "memory_stream_wait_count".spec_bytes(),
        "gauge".spec_bytes(),
        "The number of bytes in the stream wait buffers".spec_bytes(),
        dec_digits(s.mem_streamwait as nat),
    )
}

/// Emit the leading section.
fn emit_basics(m: &mut Measurement, s: &Statistics)
    ensures
        final(m)@ == sec_basics(old(m)@, s@),
{
    broadcast use Seq::add_empty_right;

    proof {
        reveal(sec_basics);
    }

    let n = s.threads.len();
    emit_gauge(m, "num_threads", "The number of threads to create to serve clients", &n);
    emit_counter(m, "time_up_seconds_total", "Uptime since server boot in seconds", &s.time.up);
    emit_counter(m, "time_now_seconds", "Current time in seconds since UNIX epoch", &s.time.now);
    emit_counter(
        m,
        "time_elapsed_seconds",
        "Time since last statistics printout in seconds",
        &s.time.elapsed,
    );
    let mut g = m.gauge("memory_caches_bytes", "Memory in bytes in use by caches");
    g.set_with_label(m, "cache", &"rrset", &s.cache.rrset);
    g.set_with_label(m, "cache", &"message", &s.cache.message);
    g.set_with_label(m, "cache", &"dnscrypt_shared_secret", &s.cache.dnscrypt_shared_secret);
    g.set_with_label(m, "cache", &"dnscrypt_nonce", &s.cache.dnscrypt_nonce);
    let mut g = m.gauge("memory_modules_bytes", "Memory in bytes in use by modules");
    g.set_with_label(m, "module", &"iterator", &s.modules.iterator);
    g.set_with_label(m, "module", &"validator", &s.modules.validator);
    g.set_with_label(m, "module", &"respip", &s.modules.respip);
    g.set_with_label(m, "module", &"subnet", &s.modules.subnet);
    emit_gauge(
        m,
        "memory_stream_wait_count",
        "The number of bytes in the stream wait buffers",
        &s.mem_streamwait,
    );
}

/// The plain counter section: transport, EDNS, validation, cache-count
/// and unwanted-traffic families.
#[verifier::opaque]
pub open spec fn sec_counters(base: Seq<u8>, s: StatisticsView) -> Seq<u8> {
    let b1 = fam(
        base,
        "query_tcp_total".spec_bytes(),
        "counter".spec_bytes(),
        "Total number of queries that were made using TCP towards the server".spec_bytes(),
        dec_digits(s.num_query_tcp as nat),
    );
    let b2 = fam(
        b1,
        "query_tcp_out_total".spec_bytes(),
        "counter".spec_bytes(),
        "Total number of queries that were made using TCP outwards the server".spec_bytes(),
        dec_digits(s.num_query_tcp_out as nat),
    );
    let b3 = fam(
        b2,
        "query_tls_total".spec_bytes(),
        "counter".spec_bytes(),
        "Total number of queries that were made using TLS towards the server".spec_bytes(),
        dec_digits(s.num_query_tls as nat),
    );
    let b4 = fam(
        b3,
        "query_tls_resume_total".spec_bytes(),
        "counter".spec_bytes(),
        "Total number of queries that were made using TLS resumption".spec_bytes(),
        dec_digits(s.num_query_tls_resume as nat),
    );
    let b5 = fam(
        b4,
        "query_ipv6_total".spec_bytes(),
        "counter".spec_bytes(),
        "Total number of queries that were made using IPv6 toward the server".spec_bytes(),
        dec_digits(s.num_query_ipv6 as nat),
    );
    let b6 = fam(
        b5,
        "query_edns_DO_total".spec_bytes(),
        "counter".spec_bytes(),
        "Total number of queries that had an EDNS OPT record with the DO (DNSSEC OK) bit set present".spec_bytes(),
        dec_digits(s.num_query_edns_do as nat),
    );
    let b7 = fam(
        b6,
        "query_edns_present_total".spec_bytes(),
        "counter".spec_bytes(),
        "Total number of queries that had an EDNS OPT record present".spec_bytes(),
        dec_digits(s.num_query_edns_present as nat),
    );
    let b8 = fam(
        b7,
        "query_ratelimited_total".spec_bytes(),
        "counter".spec_bytes(),
        "Total number of queries that had been rate limited".spec_bytes(),
        dec_digits(s.num_query_rate_limited as nat),
    );
    let b9 = fam(
        b8,
        "answers_secure_total".spec_bytes(),
        "counter".spec_bytes(),
        "Total amount of answers that were secure (AD)".spec_bytes(),
        dec_digits(s.num_answer_secure as nat),
    );
    let b10 = fam(
        b9,
        "answers_bogus".spec_bytes(),
        "counter".spec_bytes(),
        "Total amount of answers that were bogus (withheld as SERVFAIL)".spec_bytes(),
        dec_digits(s.num_answer_bogus as nat),
    );
    let b11 = fam(
        b10,
        "answers_bogus_total".spec_bytes(),
        "counter".spec_bytes(),
        "Total amount of answers that were bogus (withheld as SERVFAIL)".spec_bytes(),
        dec_digits(s.num_answer_bogus as nat),
    );
    let b12 = fam(
        b11,
        "rrset_bogus_total".spec_bytes(),
        "counter".spec_bytes(),
        "Total number of rrsets marked bogus by the validator".spec_bytes(),
        dec_digits(s.num_rrset_bogus as nat),
    );
    let b13 = fam(
        b12,
        "msg_cache_count".spec_bytes(),
        "gauge".spec_bytes(),
        "The number of messages cached".spec_bytes(),
        dec_digits(s.cache_count.message as nat),
    );
    let b14 = fam(
        b13,
        "rrset_cache_count".spec_bytes(),
        "gauge".spec_bytes(),
        "The number of rrset cached".spec_bytes(),
        dec_digits(s.cache_count.rrset as nat),
    );
    let ccname = "cache_count_total".spec_bytes();
    let b15 = b14 + spec_header(
        ccname,
        "gauge".spec_bytes(),
        "The number of cached entries".spec_bytes(),
    ) + spec_labeled_sample(
        ccname,
        "type".spec_bytes(),
        "message".spec_bytes(),
        dec_digits(s.cache_count.message as nat),
    ) + spec_labeled_sample(
        ccname,
        "type".spec_bytes(),
        "rrset".spec_bytes(),
        dec_digits(s.cache_count.rrset as nat),
    ) + spec_labeled_sample(
        ccname,
        "type".spec_bytes(),
        "key".spec_bytes(),
        dec_digits(s.cache_count.key as nat),
    ) + spec_labeled_sample(
        ccname,
        "type".spec_bytes(),
        "infra".spec_bytes(),
        dec_digits(s.cache_count.infra as nat),
    ) + spec_labeled_sample(
        ccname,
        "type".spec_bytes(),
        "dnscrypt_nonce".spec_bytes(),
        dec_digits(s.cache_count.dnscrypt_nonce as nat),
    ) + spec_labeled_sample(
        ccname,
        "type".spec_bytes(),
        "dnscrypt_shared_secret".spec_bytes(),
        dec_digits(s.cache_count.dnscrypt_shared_secret as nat),
    );
    let b16 = fam(
        b15,
        "unwanted_queries_total".spec_bytes(),
        "counter".spec_bytes(),
        "Total number of queries that were refused or dropped because they failed the access control settings.".spec_bytes(),
        dec_digits(s.num_unwanted_queries as nat),
    );
    fam(
        b16,
        "unwanted_replies_total".spec_bytes(),
        "counter".spec_bytes(),
        "Total number of replies that were unwanted or unsolicited".spec_bytes(),
        dec_digits(s.num_unwanted_replies as nat),
    )
}

/// Emit the plain counter section.
#[verifier::rlimit(100)]
fn emit_counters(m: &mut Measurement, s: &Statistics)
    ensures
        final(m)@ == sec_counters(old(m)@, s@),
{
    broadcast use Seq::add_empty_right;

    proof {
        reveal(sec_counters);
    }

    emit_counter(
        m,
        "query_tcp_total",
        "Total number of queries that were made using TCP towards the server",
        &s.num_query_tcp,
    );
    emit_counter(
        m,
        "query_tcp_out_total",
        "Total number of queries that were made using TCP outwards the server",
        &s.num_query_tcp_out,
    );
    emit_counter(
        m,
        "query_tls_total",
        "Total number of queries that were made using TLS towards the server",
        &s.num_query_tls,
    );
    emit_counter(
        m,
        "query_tls_resume_total",
        "Total number of queries that were made using TLS resumption",
        &s.num_query_tls_resume,
    );
    emit_counter(
        m,
        "query_ipv6_total",
        "Total number of queries that were made using IPv6 toward the server",
        &s.num_query_ipv6,
    );
    emit_counter(
        m,
        "query_edns_DO_total",
        "Total number of queries that had an EDNS OPT record with the DO (DNSSEC OK) bit set present",
        &s.num_query_edns_do,
    );
    emit_counter(
        m,
        "query_edns_present_total",
        "Total number of queries that had an EDNS OPT record present",
        &s.num_query_edns_present,
    );
    emit_counter(
        m,
        "query_ratelimited_total",
        "Total number of queries that had been rate limited",
        &s.num_query_rate_limited,
    );
    emit_counter(
        m,
        "answers_secure_total",
        "Total amount of answers that were secure (AD)",
        &s.num_answer_secure,
    );
    emit_counter(
        m,
        "answers_bogus",
        "Total amount of answers that were bogus (withheld as SERVFAIL)",
        &s.num_answer_bogus,
    );
    emit_counter(
        m,
        "answers_bogus_total",
        "Total amount of answers that were bogus (withheld as SERVFAIL)",
        &s.num_answer_bogus,
    );
    emit_counter(
        m,
        "rrset_bogus_total",
        "Total number of rrsets marked bogus by the validator",
        &s.num_rrset_bogus,
    );
    emit_gauge(m, "msg_cache_count", "The number of messages cached", &s.cache_count.message);
    emit_gauge(m, "rrset_cache_count", "The number of rrset cached", &s.cache_count.rrset);
    let mut g = m.gauge("cache_count_total", "The number of cached entries");
    g.set_with_label(m, "type", &"message", &s.cache_count.message);
    g.set_with_label(m, "type", &"rrset", &s.cache_count.rrset);
    g.set_with_label(m, "type", &"key", &s.cache_count.key);
    g.set_with_label(m, "type", &"infra", &s.cache_count.infra);
    g.set_with_label(m, "type", &"dnscrypt_nonce", &s.cache_count.dnscrypt_nonce);
    g.set_with_label(m, "type", &"dnscrypt_shared_secret", &s.cache_count.dnscrypt_shared_secret);
    emit_counter(
        m,
        "unwanted_queries_total",
        "Total number of queries that were refused or dropped because they failed the access control settings.",
        &s.num_unwanted_queries,
    );
    emit_counter(
        m,
        "unwanted_replies_total",
        "Total number of replies that were unwanted or unsolicited",
        &s.num_unwanted_replies,
    );
}

/// The response-code samples of a family, in stored order.
pub open spec fn rcode_samples(
    base: Seq<u8>,
    name: Seq<u8>,
    key: Seq<u8>,
    entries: Seq<(Rcode, u64)>,
) -> Seq<u8>
    decreases entries.len(),
{
    if entries.len() == 0 {
        base
    } else {
        rcode_samples(base, name, key, entries.drop_last()) + spec_labeled_sample(
            name,
            key,
            spec_rcode_label(entries.last().0),
            dec_digits(entries.last().1 as nat),
        )
    }
}

/// A counter family over a response-code map: nothing at all when the
/// map is empty, else the header and one sample per entry.
#[verifier::opaque]
pub open spec fn sec_rcode_map(
    base: Seq<u8>,
    name: Seq<u8>,
    help: Seq<u8>,
    key: Seq<u8>,
    entries: Seq<(Rcode, u64)>,
) -> Seq<u8> {
    if entries.len() == 0 {
        base
    } else {
        rcode_samples(base + spec_header(name, "counter".spec_bytes(), help), name, key, entries)
    }
}

/// Emit a counter family over a response-code map.
#[verifier::rlimit(100)]
fn emit_rcode_map(
    m: &mut Measurement,
    name: &'static str,
    help: &'static str,
    key: &'static str,
    entries: &Vec<(Rcode, u64)>,
)
    ensures
        final(m)@ == sec_rcode_map(
            old(m)@,
            name.spec_bytes(),
            help.spec_bytes(),
            key.spec_bytes(),
            entries@,
        ),
{
    broadcast use Seq::add_empty_right;

    proof {
        reveal(sec_rcode_map);
    }

    let mut g = m.counter(name, help);
    let mut i: usize = 0;
    while i < entries.len()
        invariant
            i <= entries@.len(),
            g.name_spec() == name.spec_bytes(),
            i == 0 ==> m@ == old(m)@ && g.pending() == Some(
                ("counter".spec_bytes(), help.spec_bytes()),
            ),
            i > 0 ==> m@ == rcode_samples(
                old(m)@ + spec_header(name.spec_bytes(), "counter".spec_bytes(), help.spec_bytes()),
                name.spec_bytes(),
                key.spec_bytes(),
                entries@.take(i as int),
            ) && g.pending() is None,
        decreases entries@.len() - i,
    {
        let (c, v) = entries[i];
        proof {
            assert(entries@.take(i + 1).drop_last() =~= entries@.take(i as int));
            assert(entries@.take(i + 1).last() == entries@[i as int]);
            assert(entries@.take(1).drop_last() =~= Seq::<(Rcode, u64)>::empty());
        }
        g.set_with_label(m, key, &c, &v);
        proof {
            let base2 = old(m)@ + spec_header(
                name.spec_bytes(),
                "counter".spec_bytes(),
                help.spec_bytes(),
            );
            assert(rcode_samples(
                base2,
                name.spec_bytes(),
                key.spec_bytes(),
                Seq::<(Rcode, u64)>::empty(),
            ) == base2);
            assert(m@ =~= rcode_samples(
                base2,
                name.spec_bytes(),
                key.spec_bytes(),
                entries@.take(i + 1),
            ));
        }
        i = i + 1;
    }
    proof {
        if entries@.len() > 0 {
            assert(entries@.take(entries@.len() as int) =~= entries@);
        }
    }
}

/// The opcode samples of a family, in stored order.
pub open spec fn opcode_samples(
    base: Seq<u8>,
    name: Seq<u8>,
    key: Seq<u8>,
    entries: Seq<(Opcode, u64)>,
) -> Seq<u8>
    decreases entries.len(),
{
    if entries.len() == 0 {
        base
    } else {
        opcode_samples(base, name, key, entries.drop_last()) + spec_labeled_sample(
            name,
            key,
            spec_opcode_label(entries.last().0),
            dec_digits(entries.last().1 as nat),
        )
    }
}

/// A counter family over an opcode map: nothing at all when the map is
/// empty, else the header and one sample per entry.
#[verifier::opaque]
pub open spec fn sec_opcode_map(
    base: Seq<u8>,
    name: Seq<u8>,
    help: Seq<u8>,
    key: Seq<u8>,
    entries: Seq<(Opcode, u64)>,
) -> Seq<u8> {
    if entries.len() == 0 {
        base
    } else {
        opcode_samples(base + spec_header(name, "counter".spec_bytes(), help), name, key, entries)
    }
}

/// Emit a counter family over an opcode map.
#[verifier::rlimit(100)]
fn emit_opcode_map(
    m: &mut Measurement,
    name: &'static str,
    help: &'static str,
    key: &'static str,
    entries: &Vec<(Opcode, u64)>,
)
    ensures
        final(m)@ == sec_opcode_map(
            old(m)@,
            name.spec_bytes(),
            help.spec_bytes(),
            key.spec_bytes(),
            entries@,
        ),
{
    broadcast use Seq::add_empty_right;

    proof {
        reveal(sec_opcode_map);
    }

    let mut g = m.counter(name, help);
    let mut i: usize = 0;
    while i < entries.len()
        invariant
            i <= entries@.len(),
            g.name_spec() == name.spec_bytes(),
            i == 0 ==> m@ == old(m)@ && g.pending() == Some(
                ("counter".spec_bytes(), help.spec_bytes()),
            ),
            i > 0 ==> m@ == opcode_samples(
                old(m)@ + spec_header(name.spec_bytes(), "counter".spec_bytes(), help.spec_bytes()),
                name.spec_bytes(),
                key.spec_bytes(),
                entries@.take(i as int),
            ) && g.pending() is None,
        decreases entries@.len() - i,
    {
        let (c, v) = entries[i];
        proof {
            assert(entries@.take(i + 1).drop_last() =~= entries@.take(i as int));
            assert(entries@.take(i + 1).last() == entries@[i as int]);
            assert(entries@.take(1).drop_last() =~= Seq::<(Opcode, u64)>::empty());
        }
        g.set_with_label(m, key, &c, &v);
        proof {
            let base2 = old(m)@ + spec_header(
                name.spec_bytes(),
                "counter".spec_bytes(),
                help.spec_bytes(),
            );
            assert(opcode_samples(
                base2,
                name.spec_bytes(),
                key.spec_bytes(),
                Seq::<(Opcode, u64)>::empty(),
            ) == base2);
            assert(m@ =~= opcode_samples(
                base2,
                name.spec_bytes(),
                key.spec_bytes(),
                entries@.take(i + 1),
            ));
        }
        i = i + 1;
    }
    proof {
        if entries@.len() > 0 {
            assert(entries@.take(entries@.len() as int) =~= entries@);
        }
    }
}

/// The record-type samples, labeled with the mnemonic the type code
/// renders as.
pub open spec fn type_samples(base: Seq<u8>, name: Seq<u8>, entries: Seq<(u16, u64)>) -> Seq<u8>
    decreases entries.len(),
{
    if entries.len() == 0 {
        base
    } else {
        type_samples(base, name, entries.drop_last()) + spec_labeled_sample(
            name,
            "type".spec_bytes(),
            crate::codes::rtype_label(entries.last().0),
            dec_digits(entries.last().1 as nat),
        )
    }
}

/// The record-type family: the explicit `other` series first, then one
/// sample per discovered type.
#[verifier::opaque]
pub open spec fn sec_types(base: Seq<u8>, s: StatisticsView) -> Seq<u8> {
    let name = "query_types_total".spec_bytes();
    let b = base + spec_header(
        name,
        "counter".spec_bytes(),
        "Total number of queries with a given query type".spec_bytes(),
    ) + spec_labeled_sample(
        name,
        "type".spec_bytes(),
        "other".spec_bytes(),
        dec_digits(s.query_types_other as nat),
    );
    type_samples(b, name, s.query_types)
}

/// Emit the record-type family.
fn emit_types(m: &mut Measurement, s: &Statistics)
    ensures
        final(m)@ == sec_types(old(m)@, s@),
{
    broadcast use Seq::add_empty_right;

    proof {
        reveal(sec_types);
    }

    let mut g = m.counter("query_types_total", "Total number of queries with a given query type");
    g.set_with_label(m, "type", &"other", &s.query_types_other);
    let ghost pre = m@;
    let mut i: usize = 0;
    proof {
        assert(s@.query_types.take(0) =~= Seq::<(u16, u64)>::empty());
    }
    while i < s.query_types.len()
        invariant
            i <= s@.query_types.len(),
            g.name_spec() == "query_types_total".spec_bytes(),
            g.pending() is None,
            m@ == type_samples(pre, "query_types_total".spec_bytes(), s@.query_types.take(i as int)),
        decreases s@.query_types.len() - i,
    {
        let (code, v) = s.query_types[i];
        let label = crate::codes::rtype_to_bytes(code);
        proof {
            assert(s@.query_types.take(i + 1).drop_last() =~= s@.query_types.take(i as int));
            assert(s@.query_types.take(i + 1).last() == s@.query_types[i as int]);
        }
        g.set_with_label(m, "type", &label, &v);
        i = i + 1;
    }
    proof {
        assert(s@.query_types.take(s@.query_types.len() as int) =~= s@.query_types);
    }
}

/// The class samples, labeled with the class mnemonic.
pub open spec fn class_samples(base: Seq<u8>, name: Seq<u8>, entries: Seq<(Class, u64)>) -> Seq<
    u8,
>
    decreases entries.len(),
{
    if entries.len() == 0 {
        base
    } else {
        class_samples(base, name, entries.drop_last()) + spec_labeled_sample(
            name,
            "class".spec_bytes(),
            spec_class_label(entries.last().0),
            dec_digits(entries.last().1 as nat),
        )
    }
}

/// The query-class family: the explicit `other` series first, then one
/// sample per discovered class.
#[verifier::opaque]
pub open spec fn sec_classes(base: Seq<u8>, s: StatisticsView) -> Seq<u8> {
    let name = "query_classes_total".spec_bytes();
    let b = base + spec_header(
        name,
        "counter".spec_bytes(),
        "Total number of queries with a given query class".spec_bytes(),
    ) + spec_labeled_sample(
        name,
        "class".spec_bytes(),
        "other".spec_bytes(),
        dec_digits(s.query_classes_other as nat),
    );
    class_samples(b, name, s.query_classes)
}

/// Emit the query-class family.
fn emit_classes(m: &mut Measurement, s: &Statistics)
    ensures
        final(m)@ == sec_classes(old(m)@, s@),
{
    broadcast use Seq::add_empty_right;

    proof {
        reveal(sec_classes);
    }

    let mut g = m.counter(
        "query_classes_total",
        "Total number of queries with a given query class",
    );
    g.set_with_label(m, "class", &"other", &s.query_classes_other);
    let ghost pre = m@;
    let mut i: usize = 0;
    proof {
        assert(s@.query_classes.take(0) =~= Seq::<(Class, u64)>::empty());
    }
    while i < s.query_classes.len()
        invariant
            i <= s@.query_classes.len(),
            g.name_spec() == "query_classes_total".spec_bytes(),
            g.pending() is None,
            m@ == class_samples(
                pre,
                "query_classes_total".spec_bytes(),
                s@.query_classes.take(i as int),
            ),
        decreases s@.query_classes.len() - i,
    {
        let (c, v) = s.query_classes[i];
        proof {
            assert(s@.query_classes.take(i + 1).drop_last() =~= s@.query_classes.take(i as int));
            assert(s@.query_classes.take(i + 1).last() == s@.query_classes[i as int]);
        }
        g.set_with_label(m, "class", &c, &v);
        i = i + 1;
    }
    proof {
        assert(s@.query_classes.take(s@.query_classes.len() as int) =~= s@.query_classes);
    }
}

/// The header-flag family: one labeled sample per DNS header flag.
#[verifier::opaque]
pub open spec fn sec_flags(base: Seq<u8>, s: StatisticsView) -> Seq<u8> {
    let name = "query_flags_total".spec_bytes();
    base + spec_header(
        name,
        "counter".spec_bytes(),
        "Total number of queries that had a given flag set in the header".spec_bytes(),
    ) + spec_labeled_sample(
        name,
        "flag".spec_bytes(),
        "QR".spec_bytes(),
        dec_digits(s.flags.qr as nat),
    ) + spec_labeled_sample(
        name,
        "flag".spec_bytes(),
        "AA".spec_bytes(),
        dec_digits(s.flags.aa as nat),
    ) + spec_labeled_sample(
        name,
        "flag".spec_bytes(),
        "TC".spec_bytes(),
        dec_digits(s.flags.tc as nat),
    ) + spec_labeled_sample(
        name,
        "flag".spec_bytes(),
        "RD".spec_bytes(),
        dec_digits(s.flags.rd as nat),
    ) + spec_labeled_sample(
        name,
        "flag".spec_bytes(),
        "RA".spec_bytes(),
        dec_digits(s.flags.ra as nat),
    ) + spec_labeled_sample(
        name,
        "flag".spec_bytes(),
        "Z".spec_bytes(),
        dec_digits(s.flags.z as nat),
    ) + spec_labeled_sample(
        name,
        "flag".spec_bytes(),
        "AD".spec_bytes(),
        dec_digits(s.flags.ad as nat),
    ) + spec_labeled_sample(
        name,
        "flag".spec_bytes(),
        "CD".spec_bytes(),
        dec_digits(s.flags.cd as nat),
    )
}

/// Emit the header-flag family.
fn emit_flags(m: &mut Measurement, s: &Statistics)
    ensures
        final(m)@ == sec_flags(old(m)@, s@),
{
    broadcast use Seq::add_empty_right;

    proof {
        reveal(sec_flags);
    }

    let mut g = m.counter(
        "query_flags_total",
        "Total number of queries that had a given flag set in the header",
    );
    g.set_with_label(m, "flag", &"QR", &s.flags.qr);
    g.set_with_label(m, "flag", &"AA", &s.flags.aa);
    g.set_with_label(m, "flag", &"TC", &s.flags.tc);
    g.set_with_label(m, "flag", &"RD", &s.flags.rd);
    g.set_with_label(m, "flag", &"RA", &s.flags.ra);
    g.set_with_label(m, "flag", &"Z", &s.flags.z);
    g.set_with_label(m, "flag", &"AD", &s.flags.ad);
    g.set_with_label(m, "flag", &"CD", &s.flags.cd);
}

/// The cumulative bucket lines of the histogram family.
pub open spec fn bucket_lines(
    base: Seq<u8>,
    name: Seq<u8>,
    items: Seq<crate::histogram::Bucket>,
) -> Seq<u8>
    decreases items.len(),
{
    if items.len() == 0 {
        base
    } else {
        bucket_lines(base, name, items.drop_last()) + match items.last() {
            crate::histogram::Bucket::Le(le, v) => spec_bucket_line(
                name,
                fixed_digits(le.nanos as nat),
                dec_digits(v as nat),
            ),
            crate::histogram::Bucket::Inf(v) => spec_bucket_line(
                name,
                "+Inf".spec_bytes(),
                dec_digits(v as nat),
            ),
        }
    }
}

/// The response-time histogram family: its header, the derived sum,
/// the total count, and one line per cumulative bucket stream item.
#[verifier::opaque]
pub open spec fn sec_histogram(base: Seq<u8>, s: StatisticsView) -> Seq<u8> {
    let name = "response_time_seconds".spec_bytes();
    let b = base + spec_hist_header(name, "Query response time in seconds".spec_bytes())
        + spec_suffix_sample(
        name,
        "_sum ".spec_bytes(),
        fixed_digits(crate::histogram::spec_hist_sum(s.histogram) as nat),
    ) + spec_suffix_sample(
        name,
        "_count ".spec_bytes(),
        dec_digits(crate::histogram::spec_wrap_sum(s.histogram.buckets) as nat),
    );
    bucket_lines(
        b,
        name,
        crate::histogram::spec_bucket_stream(crate::histogram::spec_sort(s.histogram.buckets)),
    )
}

/// Emit the response-time histogram family.
fn emit_histogram(m: &mut Measurement, s: &Statistics)
    ensures
        final(m)@ == sec_histogram(old(m)@, s@),
{
    broadcast use Seq::add_empty_right;

    proof {
        reveal(sec_histogram);
    }

    let mut hg = m.histogram("response_time_seconds", "Query response time in seconds");
    let sum = s.histogram.sum();
    let sum_val = Nanos { nanos: sum };
    hg.sum(m, &sum_val);
    let cnt = s.histogram.count();
    hg.count(m, &cnt);
    let ghost pre = m@;
    let mut bs = s.histogram.buckets();
    let ghost stream = bs.stream();
    let mut more = true;
    proof {
        assert(stream.take(0) =~= Seq::<crate::histogram::Bucket>::empty());
    }
    while more
        invariant
            bs.wf(),
            bs.stream() == stream,
            stream == crate::histogram::spec_bucket_stream(
                crate::histogram::spec_sort(s@.histogram.buckets),
            ),
            0 <= bs.pos() <= stream.len(),
            hg.pending() is None,
            hg.name_spec() == "response_time_seconds".spec_bytes(),
            m@ == bucket_lines(pre, "response_time_seconds".spec_bytes(), stream.take(bs.pos())),
            !more ==> bs.pos() == stream.len(),
        decreases stream.len() - bs.pos() + (if more {
            1int
        } else {
            0int
        }),
    {
        let ghost pos0 = bs.pos();
        match bs.next() {
            Some(b) => {
                proof {
                    assert(stream.take(pos0 + 1).drop_last() =~= stream.take(pos0));
                    assert(stream.take(pos0 + 1).last() == stream[pos0]);
                }
                match b {
                    crate::histogram::Bucket::Le(le, v) => {
                        hg.bucket(m, &le, &v);
                    },
                    crate::histogram::Bucket::Inf(v) => {
                        hg.bucket(m, &"+Inf", &v);
                    },
                }
            },
            None => {
                more = false;
            },
        }
    }
    proof {
        assert(stream.take(stream.len() as int) =~= stream);
    }
}

/// One per-thread family emission: the family header when this is the
/// first thread, then the thread-labeled sample.
pub open spec fn fam_thread(
    base: Seq<u8>,
    first: bool,
    name: Seq<u8>,
    kind: Seq<u8>,
    help: Seq<u8>,
    idx: nat,
    value: Seq<u8>,
) -> Seq<u8> {
    base + spec_pending_header(
        name,
        if first {
            Some((kind, help))
        } else {
            None
        },
    ) + spec_labeled_sample(name, "thread".spec_bytes(), dec_digits(idx), value)
}

/// Every per-thread family of one worker thread, in emission order.
#[verifier::opaque]
pub open spec fn thread_chunk(base: Seq<u8>, first: bool, idx: nat, t: Thread) -> Seq<u8> {
    let c = "counter".spec_bytes();
    let ga = "gauge".spec_bytes();
    let b1 = fam_thread(
        base,
        first,
        "queries_total".spec_bytes(),
        c,
        "Total number of queries received".spec_bytes(),
        idx,
        dec_digits(t.num_queries as nat),
    );
    let b2 = fam_thread(
        b1,
        first,
        "queries_ip_ratelimited_total".spec_bytes(),
        c,
        "Total number of queries rate limited by IP".spec_bytes(),
        idx,
        dec_digits(t.num_queries_ip_ratelimited as nat),
    );
    let b3 = fam_thread(
        b2,
        first,
        "cache_hits_total".spec_bytes(),
        c,
        "Total number of queries that were successfully answered using a cache lookup.".spec_bytes(),
        idx,
        dec_digits(t.num_cache_hits as nat),
    );
    let b4 = fam_thread(
        b3,
        first,
        "cache_misses_total".spec_bytes(),
        c,
        "Total number of cache queries that needed recursive processing.".spec_bytes(),
        idx,
        dec_digits(t.num_cache_miss as nat),
    );
    let b5 = fam_thread(
        b4,
        first,
        "prefetches_total".spec_bytes(),
        c,
        "Total number of cache prefetches performed".spec_bytes(),
        idx,
        dec_digits(t.num_prefetch as nat),
    );
    let b6 = fam_thread(
        b5,
        first,
        "zero_ttl_responses_total".spec_bytes(),
        c,
        "Total number of replies with ttl zero, because they served an expired cache entry.".spec_bytes(),
        idx,
        dec_digits(t.num_zero_ttl as nat),
    );
    let b7 = fam_thread(
        b6,
        first,
        "expired_responses_total".spec_bytes(),
        c,
        "Total number of replies that served an expired cache entry.".spec_bytes(),
        idx,
        dec_digits(t.num_zero_ttl as nat),
    );
    let b8 = fam_thread(
        b7,
        first,
        "dnscrypt_valid_queries_total".spec_bytes(),
        c,
        "Total number of queries that were encrypted and successfully decapsulated by dnscrypt".spec_bytes(),
        idx,
        dec_digits(t.num_dnscrypt_crypted as nat),
    );
    let b9 = fam_thread(
        b8,
        first,
        "dnscrypt_cert_queries_total".spec_bytes(),
        c,
        "Total number of queries that were requesting dnscrypt certificates".spec_bytes(),
        idx,
        dec_digits(t.num_dnscrypt_cert as nat),
    );
    let b10 = fam_thread(
        b9,
        first,
        "dnscrypt_cleartext_queries_total".spec_bytes(),
        c,
        "Total number of queries received on dnscrypt port that were cleartext and not a request for certificates".spec_bytes(),
        idx,
        dec_digits(t.num_dnscrypt_cleartext as nat),
    );
    let b11 = fam_thread(
        b10,
        first,
        "dnscrypt_malformed_queries_total".spec_bytes(),
        c,
        "Total number of requests that were neither cleartext, not valid dnscrypt messages".spec_bytes(),
        idx,
        dec_digits(t.num_dnscrypt_malformed as nat),
    );
    let b12 = fam_thread(
        b11,
        first,
        "request_list_current_all".spec_bytes(),
        ga,
        "Current size of the request list, including internally generated queries".spec_bytes(),
        idx,
        dec_digits(t.requestlist_current_all as nat),
    );
    let b13 = fam_thread(
        b12,
        first,
        "request_list_current_user".spec_bytes(),
        ga,
        "Current size of the request list, only counting the requests from client queries".spec_bytes(),
        idx,
        dec_digits(t.requestlist_current_user as nat),
    );
    let b14 = fam_thread(
        b13,
        first,
        "request_list_exceeded_total".spec_bytes(),
        c,
        "Number of queries that were dropped because the request list was full".spec_bytes(),
        idx,
        dec_digits(t.requestlist_exceeded as nat),
    );
    let b15 = fam_thread(
        b14,
        first,
        "request_list_overwritten_total".spec_bytes(),
        c,
        "Total number of requests in the request list that were overwritten by newer entries".spec_bytes(),
        idx,
        dec_digits(t.requestlist_overwritten as nat),
    );
    let b16 = fam_thread(
        b15,
        first,
        "recursion_time_seconds_avg".spec_bytes(),
        ga,
        "Average time it took to answer queries that needed recursive processing (does not include in-cache requests)".spec_bytes(),
        idx,
        fixed_digits(t.recursion_time_avg.nanos as nat),
    );
    let b17 = fam_thread(
        b16,
        first,
        "recursion_time_seconds_median".spec_bytes(),
        ga,
        "The median of the time it took to answer queries that needed recursive processing".spec_bytes(),
        idx,
        fixed_digits(t.recursion_time_median.nanos as nat),
    );
    fam_thread(
        b17,
        first,
        "tcp_usage_current".spec_bytes(),
        ga,
        "Number of the currently held TCP buffers for incoming connections".spec_bytes(),
        idx,
        dec_digits(t.tcp_usage as nat),
    )
}

/// Emit every per-thread family of one worker thread.
#[verifier::rlimit(100)]
fn emit_one_thread(m: &mut Measurement, idx: usize, t: &Thread, first: bool)
    ensures
        final(m)@ == thread_chunk(old(m)@, first, idx as nat, *t),
{
    broadcast use Seq::add_empty_right;

    proof {
        reveal(thread_chunk);
    }

    let mut g = m.counter("queries_total", "Total number of queries received");
    g.needs_header(first);
    g.set_with_label(m, "thread", &idx, &t.num_queries);
    let mut g = m.counter(
        "queries_ip_ratelimited_total",
        "Total number of queries rate limited by IP",
    );
    g.needs_header(first);
    g.set_with_label(m, "thread", &idx, &t.num_queries_ip_ratelimited);
    let mut g = m.counter(
        "cache_hits_total",
        "Total number of queries that were successfully answered using a cache lookup.",
    );
    g.needs_header(first);
    g.set_with_label(m, "thread", &idx, &t.num_cache_hits);
    let mut g = m.counter(
        "cache_misses_total",
        "Total number of cache queries that needed recursive processing.",
    );
    g.needs_header(first);
    g.set_with_label(m, "thread", &idx, &t.num_cache_miss);
    let mut g = m.counter("prefetches_total", "Total number of cache prefetches performed");
    g.needs_header(first);
    g.set_with_label(m, "thread", &idx, &t.num_prefetch);
    let mut g = m.counter(
        "zero_ttl_responses_total",
        "Total number of replies with ttl zero, because they served an expired cache entry.",
    );
    g.needs_header(first);
    g.set_with_label(m, "thread", &idx, &t.num_zero_ttl);
    let mut g = m.counter(
        "expired_responses_total",
        "Total number of replies that served an expired cache entry.",
    );
    g.needs_header(first);
    g.set_with_label(m, "thread", &idx, &t.num_zero_ttl);
    let mut g = m.counter(
        "dnscrypt_valid_queries_total",
        "Total number of queries that were encrypted and successfully decapsulated by dnscrypt",
    );
    g.needs_header(first);
    g.set_with_label(m, "thread", &idx, &t.num_dnscrypt_crypted);
    let mut g = m.counter(
        "dnscrypt_cert_queries_total",
        "Total number of queries that were requesting dnscrypt certificates",
    );
    g.needs_header(first);
    g.set_with_label(m, "thread", &idx, &t.num_dnscrypt_cert);
    let mut g = m.counter(
        "dnscrypt_cleartext_queries_total",
        "Total number of queries received on dnscrypt port that were cleartext and not a request for certificates",
    );
    g.needs_header(first);
    g.set_with_label(m, "thread", &idx, &t.num_dnscrypt_cleartext);
    let mut g = m.counter(
        "dnscrypt_malformed_queries_total",
        "Total number of requests that were neither cleartext, not valid dnscrypt messages",
    );
    g.needs_header(first);
    g.set_with_label(m, "thread", &idx, &t.num_dnscrypt_malformed);
    let mut g = m.gauge(
        "request_list_current_all",
        "Current size of the request list, including internally generated queries",
    );
    g.needs_header(first);
    g.set_with_label(m, "thread", &idx, &t.requestlist_current_all);
    let mut g = m.gauge(
        "request_list_current_user",
        "Current size of the request list, only counting the requests from client queries",
    );
    g.needs_header(first);
    g.set_with_label(m, "thread", &idx, &t.requestlist_current_user);
    let mut g = m.counter(
        "request_list_exceeded_total",
        "Number of queries that were dropped because the request list was full",
    );
    g.needs_header(first);
    g.set_with_label(m, "thread", &idx, &t.requestlist_exceeded);
    let mut g = m.counter(
        "request_list_overwritten_total",
        "Total number of requests in the request list that were overwritten by newer entries",
    );
    g.needs_header(first);
    g.set_with_label(m, "thread", &idx, &t.requestlist_overwritten);
    let mut g = m.gauge(
        "recursion_time_seconds_avg",
        "Average time it took to answer queries that needed recursive processing (does not include in-cache requests)",
    );
    g.needs_header(first);
    g.set_with_label(m, "thread", &idx, &t.recursion_time_avg);
    let mut g = m.gauge(
        "recursion_time_seconds_median",
        "The median of the time it took to answer queries that needed recursive processing",
    );
    g.needs_header(first);
    g.set_with_label(m, "thread", &idx, &t.recursion_time_median);
    let mut g = m.gauge(
        "tcp_usage_current",
        "Number of the currently held TCP buffers for incoming connections",
    );
    g.needs_header(first);
    g.set_with_label(m, "thread", &idx, &t.tcp_usage);
}

/// The per-thread series of every worker thread, the family headers
/// emitted with the first thread only.
#[verifier::opaque]
pub open spec fn sec_threads(base: Seq<u8>, threads: Seq<Thread>) -> Seq<u8>
    decreases threads.len(),
{
    if threads.len() == 0 {
        base
    } else {
        thread_chunk(
            sec_threads(base, threads.drop_last()),
            threads.len() - 1 == 0,
            (threads.len() - 1) as nat,
            threads.last(),
        )
    }
}

/// Emit the per-thread series of every worker thread.
#[verifier::rlimit(100)]
fn emit_threads(m: &mut Measurement, s: &Statistics)
    ensures
        final(m)@ == sec_threads(old(m)@, s@.threads),
{
    proof {
        reveal(sec_threads);
    }
    let mut idx: usize = 0;
    proof {
        assert(s@.threads.take(0) =~= Seq::<Thread>::empty());
    }
    while idx < s.threads.len()
        invariant
            idx <= s@.threads.len(),
            m@ == sec_threads(old(m)@, s@.threads.take(idx as int)),
        decreases s@.threads.len() - idx,
    {
        let t = &s.threads[idx];
        proof {
            reveal(sec_threads);
            assert(s@.threads.take(idx + 1).drop_last() =~= s@.threads.take(idx as int));
            assert(s@.threads.take(idx + 1).last() == s@.threads[idx as int]);
        }
        emit_one_thread(m, idx, t, idx == 0);
        idx = idx + 1;
    }
    proof {
        assert(s@.threads.take(s@.threads.len() as int) =~= s@.threads);
    }
}

/// The whole Prometheus document a snapshot encodes to, section by
/// section.
pub open spec fn spec_observe(s: StatisticsView) -> Seq<u8> {
    let b = sec_basics(Seq::empty(), s);
    let b = sec_counters(b, s);
    let b = sec_rcode_map(
        b,
        "answer_rcodes_total".spec_bytes(),
        "Total number of answers to queries, from cache or from recursion, by response code.".spec_bytes(),
        "rcode".spec_bytes(),
        s.answer_rcodes,
    );
    let b = sec_opcode_map(
        b,
        "query_opcodes_total".spec_bytes(),
        "Total number of queries with a given query opcode".spec_bytes(),
        "opcode".spec_bytes(),
        s.query_opcodes,
    );
    let b = sec_types(b, s);
    let b = sec_classes(b, s);
    let b = sec_flags(b, s);
    let b = sec_histogram(b, s);
    sec_threads(b, s.threads)
}

impl Measurement {
    /// Encode a completed snapshot as a Prometheus document.
    pub fn observe(s: Statistics) -> (m: Measurement)
        ensures
            m@ == spec_observe(s@),
    {
        // Roughly the response body size plus some extra room.
        let mut m = Measurement::with_buffer_capacity(16834);
        emit_basics(&mut m, &s);
        emit_counters(&mut m, &s);
        emit_rcode_map(
            &mut m,
            "answer_rcodes_total",
            "Total number of answers to queries, from cache or from recursion, by response code.",
            "rcode",
            &s.answer_rcodes,
        );
        emit_opcode_map(
            &mut m,
            "query_opcodes_total",
            "Total number of queries with a given query opcode",
            "opcode",
            &s.query_opcodes,
        );
        emit_types(&mut m, &s);
        emit_classes(&mut m, &s);
        emit_flags(&mut m, &s);
        emit_histogram(&mut m, &s);
        emit_threads(&mut m, &s);
        m
    }
}

/// The document one whole observation produces: the encoded snapshot,
/// then the exporter's own liveness counter and scrape-duration gauge.
pub open spec fn spec_report(st: StatisticsView, elapsed: Nanos) -> Seq<u8> {
    let b = spec_observe(st);
    let b = fam(
        b,
        "up".spec_bytes(),
        "counter".spec_bytes(),
        "This Unbound instance is up and running".spec_bytes(),
        dec_digits(1),
    );
    fam(
        b,
        "scrape_duration_seconds".spec_bytes(),
        "gauge".spec_bytes(),
        "Time spent on metrics scraping".spec_bytes(),
        fixed_digits(elapsed.nanos as nat),
    )
}

/// Decode a statistics text and encode the resulting snapshot, with
/// the caller's elapsed-time measurement as one extra gauge sample.
///
/// This is the one operation the serving layer consumes: the finished
/// output bytes, or the typed failure of the parse.
pub fn observe_text(text: &str, scrape_duration: Nanos) -> (r: Result<Vec<u8>, ParseError>)
    ensures
        ({
            let res = crate::parser::spec_parse(text.spec_bytes());
            match r {
                Ok(out) => res matches Ok(st) && out@ == spec_report(st, scrape_duration),
                Err(e) => res matches Err(v) && e@ == v,
            }
        }),
{
    match Parser::new().parse(text) {
        Ok(stats) => {
            let mut m = Measurement::observe(stats);
            let one: u64 = 1;
            emit_counter(&mut m, "up", "This Unbound instance is up and running", &one);
            emit_gauge(
                &mut m,
                "scrape_duration_seconds",
                "Time spent on metrics scraping",
                &scrape_duration,
            );
            Ok(m.drain())
        },
        Err(e) => Err(e),
    }
}

} // verus!
