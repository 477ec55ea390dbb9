//! The statistics snapshot: every counter decoded from one observation
//! of the resolver, with keyed collections for dynamically discovered
//! series.

use vstd::prelude::*;

use crate::codes::{Class, Opcode, Rcode};
use crate::histogram::{Histogram, HistogramView};
use crate::numbers::Nanos;

verus! {

/// The counters reported per worker thread, also used for the
/// aggregate record of the whole process.
#[derive(Clone, Copy, Debug, PartialEq, Eq, Structural)]
pub struct Thread {
    pub num_queries: u64,
    pub num_queries_ip_ratelimited: u64,
    pub num_cache_hits: u64,
    pub num_cache_miss: u64,
    pub num_prefetch: u64,
    pub num_zero_ttl: u64,
    pub num_recursive_replies: u64,
    pub num_dnscrypt_crypted: u64,
    pub num_dnscrypt_cert: u64,
    pub num_dnscrypt_cleartext: u64,
    pub num_dnscrypt_malformed: u64,
    pub requestlist_avg: Nanos,
    pub requestlist_max: u64,
    pub requestlist_overwritten: u64,
    pub requestlist_exceeded: u64,
    pub requestlist_current_all: u64,
    pub requestlist_current_user: u64,
    pub recursion_time_avg: Nanos,
    pub recursion_time_median: Nanos,
    pub tcp_usage: u64,
}

/// The zero-valued thread record that a newly referenced thread index
/// starts from.
pub open spec fn thread_init() -> Thread {
    Thread {
        num_queries: 0,
        num_queries_ip_ratelimited: 0,
        num_cache_hits: 0,
        num_cache_miss: 0,
        num_prefetch: 0,
        num_zero_ttl: 0,
        num_recursive_replies: 0,
        num_dnscrypt_crypted: 0,
        num_dnscrypt_cert: 0,
        num_dnscrypt_cleartext: 0,
        num_dnscrypt_malformed: 0,
        requestlist_avg: Nanos { nanos: 0 },
        requestlist_max: 0,
        requestlist_overwritten: 0,
        requestlist_exceeded: 0,
        requestlist_current_all: 0,
        requestlist_current_user: 0,
        recursion_time_avg: Nanos { nanos: 0 },
        recursion_time_median: Nanos { nanos: 0 },
        tcp_usage: 0,
    }
}

impl Default for Thread {
    /// The zero-valued thread record.
    fn default() -> (r: Self)
        ensures
            r == thread_init(),
    {
        Thread {
            num_queries: 0,
            num_queries_ip_ratelimited: 0,
            num_cache_hits: 0,
            num_cache_miss: 0,
            num_prefetch: 0,
            num_zero_ttl: 0,
            num_recursive_replies: 0,
            num_dnscrypt_crypted: 0,
            num_dnscrypt_cert: 0,
            num_dnscrypt_cleartext: 0,
            num_dnscrypt_malformed: 0,
            requestlist_avg: Nanos { nanos: 0 },
            requestlist_max: 0,
            requestlist_overwritten: 0,
            requestlist_exceeded: 0,
            requestlist_current_all: 0,
            requestlist_current_user: 0,
            recursion_time_avg: Nanos { nanos: 0 },
            recursion_time_median: Nanos { nanos: 0 },
            tcp_usage: 0,
        }
    }
}

/// The timing fields of a snapshot.
#[derive(Clone, Copy, Debug, PartialEq, Eq, Structural)]
pub struct Time {
    pub now: Nanos,
    pub up: Nanos,
    pub elapsed: Nanos,
}

/// Cache sizes in bytes, by cache kind.
#[derive(Clone, Copy, Debug, PartialEq, Eq, Structural)]
pub struct Cache {
    pub rrset: u64,
    pub message: u64,
    pub dnscrypt_shared_secret: u64,
    pub dnscrypt_nonce: u64,
}

/// Module memory use in bytes, by module name.
#[derive(Clone, Copy, Debug, PartialEq, Eq, Structural)]
pub struct Modules {
    pub iterator: u64,
    pub validator: u64,
    pub respip: u64,
    pub subnet: u64,
}

/// Cache entry counts, by cache kind.
#[derive(Clone, Copy, Debug, PartialEq, Eq, Structural)]
pub struct CacheCounter {
    pub message: u64,
    pub rrset: u64,
    pub infra: u64,
    pub key: u64,
    pub dnscrypt_shared_secret: u64,
    pub dnscrypt_nonce: u64,
}

/// Query counts by DNS header flag.
#[derive(Clone, Copy, Debug, PartialEq, Eq, Structural)]
pub struct Flags {
    pub qr: u64,
    pub aa: u64,
    pub tc: u64,
    pub rd: u64,
    pub ra: u64,
    pub z: u64,
    pub ad: u64,
    pub cd: u64,
}

/// HTTP buffer sizes.
#[derive(Clone, Copy, Debug, PartialEq, Eq, Structural)]
pub struct Http {
    pub query_buffer: u64,
    pub response_buffer: u64,
}

/// Statistics snapshot received from some data source.
///
/// It is decoupled from any data layout or format exposed by the
/// resolver and mostly exists to make sure that all keys are provided
/// by all the data sources.
#[derive(Debug)]
pub struct Statistics {
    pub total: Thread,
    pub threads: Vec<Thread>,
    pub time: Time,
    pub cache: Cache,
    pub modules: Modules,
    pub cache_count: CacheCounter,
    pub http: Http,
    pub flags: Flags,
    pub query_opcodes: Vec<(Opcode, u64)>,
    pub query_types: Vec<(u16, u64)>,
    /// Record types above the resolver's counted range are summed into
    /// one explicit series rather than kept by type.
    pub query_types_other: u64,
    pub query_classes: Vec<(Class, u64)>,
    /// See `query_types_other`.
    pub query_classes_other: u64,
    pub answer_rcodes: Vec<(Rcode, u64)>,
    pub query_aggressive: Vec<(Rcode, u64)>,
    pub histogram: Histogram,
    pub mem_streamwait: u64,
    pub num_query_tcp: u64,
    pub num_query_tcp_out: u64,
    pub num_query_tls: u64,
    pub num_query_tls_resume: u64,
    pub num_query_ipv6: u64,
    pub num_query_edns_present: u64,
    pub num_query_edns_do: u64,
    pub num_query_rate_limited: u64,
    pub num_query_https: u64,
    pub num_answer_secure: u64,
    pub num_answer_bogus: u64,
    pub num_rrset_bogus: u64,
    pub num_unwanted_queries: u64,
    pub num_unwanted_replies: u64,
    pub num_query_dnscrypt_shared_secret_cache_miss: u64,
    pub num_query_dnscrypt_replay: u64,
    pub num_query_authzone_up: u64,
    pub num_query_authzone_down: u64,
    pub num_query_subnet: u64,
    pub num_query_subnet_cache: u64,
}

/// The mathematical content of a snapshot.
#[verifier::ext_equal]
pub ghost struct StatisticsView {
    pub total: Thread,
    pub threads: Seq<Thread>,
    pub time: Time,
    pub cache: Cache,
    pub modules: Modules,
    pub cache_count: CacheCounter,
    pub http: Http,
    pub flags: Flags,
    pub query_opcodes: Seq<(Opcode, u64)>,
    pub query_types: Seq<(u16, u64)>,
    pub query_types_other: u64,
    pub query_classes: Seq<(Class, u64)>,
    pub query_classes_other: u64,
    pub answer_rcodes: Seq<(Rcode, u64)>,
    pub query_aggressive: Seq<(Rcode, u64)>,
    pub histogram: HistogramView,
    pub mem_streamwait: u64,
    pub num_query_tcp: u64,
    pub num_query_tcp_out: u64,
    pub num_query_tls: u64,
    pub num_query_tls_resume: u64,
    pub num_query_ipv6: u64,
    pub num_query_edns_present: u64,
    pub num_query_edns_do: u64,
    pub num_query_rate_limited: u64,
    pub num_query_https: u64,
    pub num_answer_secure: u64,
    pub num_answer_bogus: u64,
    pub num_rrset_bogus: u64,
    pub num_unwanted_queries: u64,
    pub num_unwanted_replies: u64,
    pub num_query_dnscrypt_shared_secret_cache_miss: u64,
    pub num_query_dnscrypt_replay: u64,
    pub num_query_authzone_up: u64,
    pub num_query_authzone_down: u64,
    pub num_query_subnet: u64,
    pub num_query_subnet_cache: u64,
}

impl View for Statistics {
    type V = StatisticsView;

    open spec fn view(&self) -> StatisticsView {
        StatisticsView {
            total: self.total,
            threads: self.threads@,
            time: self.time,
            cache: self.cache,
            modules: self.modules,
            cache_count: self.cache_count,
            http: self.http,
            flags: self.flags,
            query_opcodes: self.query_opcodes@,
            query_types: self.query_types@,
            query_types_other: self.query_types_other,
            query_classes: self.query_classes@,
            query_classes_other: self.query_classes_other,
            answer_rcodes: self.answer_rcodes@,
            query_aggressive: self.query_aggressive@,
            histogram: self.histogram@,
            mem_streamwait: self.mem_streamwait,
            num_query_tcp: self.num_query_tcp,
            num_query_tcp_out: self.num_query_tcp_out,
            num_query_tls: self.num_query_tls,
            num_query_tls_resume: self.num_query_tls_resume,
            num_query_ipv6: self.num_query_ipv6,
            num_query_edns_present: self.num_query_edns_present,
            num_query_edns_do: self.num_query_edns_do,
            num_query_rate_limited: self.num_query_rate_limited,
            num_query_https: self.num_query_https,
            num_answer_secure: self.num_answer_secure,
            num_answer_bogus: self.num_answer_bogus,
            num_rrset_bogus: self.num_rrset_bogus,
            num_unwanted_queries: self.num_unwanted_queries,
            num_unwanted_replies: self.num_unwanted_replies,
            num_query_dnscrypt_shared_secret_cache_miss:
                self.num_query_dnscrypt_shared_secret_cache_miss,
            num_query_dnscrypt_replay: self.num_query_dnscrypt_replay,
            num_query_authzone_up: self.num_query_authzone_up,
            num_query_authzone_down: self.num_query_authzone_down,
            num_query_subnet: self.num_query_subnet,
            num_query_subnet_cache: self.num_query_subnet_cache,
        }
    }
}

/// The empty snapshot that parsing starts from: every counter zero,
/// every collection empty.
pub open spec fn statistics_init() -> StatisticsView {
    StatisticsView {
        total: thread_init(),
        threads: Seq::empty(),
        time: Time {
            now: Nanos { nanos: 0 },
            up: Nanos { nanos: 0 },
            elapsed: Nanos { nanos: 0 },
        },
        cache: Cache { rrset: 0, message: 0, dnscrypt_shared_secret: 0, dnscrypt_nonce: 0 },
        modules: Modules { iterator: 0, validator: 0, respip: 0, subnet: 0 },
        cache_count: CacheCounter {
            message: 0,
            rrset: 0,
            infra: 0,
            key: 0,
            dnscrypt_shared_secret: 0,
            dnscrypt_nonce: 0,
        },
        http: Http { query_buffer: 0, response_buffer: 0 },
        flags: Flags { qr: 0, aa: 0, tc: 0, rd: 0, ra: 0, z: 0, ad: 0, cd: 0 },
        query_opcodes: Seq::empty(),
        query_types: Seq::empty(),
        query_types_other: 0,
        query_classes: Seq::empty(),
        query_classes_other: 0,
        answer_rcodes: Seq::empty(),
        query_aggressive: Seq::empty(),
        histogram: HistogramView {
            buckets: Seq::empty(),
            average: Nanos { nanos: 0 },
        },
        mem_streamwait: 0,
        num_query_tcp: 0,
        num_query_tcp_out: 0,
        num_query_tls: 0,
        num_query_tls_resume: 0,
        num_query_ipv6: 0,
        num_query_edns_present: 0,
        num_query_edns_do: 0,
        num_query_rate_limited: 0,
        num_query_https: 0,
        num_answer_secure: 0,
        num_answer_bogus: 0,
        num_rrset_bogus: 0,
        num_unwanted_queries: 0,
        num_unwanted_replies: 0,
        num_query_dnscrypt_shared_secret_cache_miss: 0,
        num_query_dnscrypt_replay: 0,
        num_query_authzone_up: 0,
        num_query_authzone_down: 0,
        num_query_subnet: 0,
        num_query_subnet_cache: 0,
    }
}

impl Default for Statistics {
    /// The empty snapshot.
    fn default() -> (r: Self)
        ensures
            r@ == statistics_init(),
    {
        let r = Statistics {
            total: Thread::default(),
            threads: Vec::new(),
            time: Time {
                now: Nanos { nanos: 0 },
                up: Nanos { nanos: 0 },
                elapsed: Nanos { nanos: 0 },
            },
            cache: Cache { rrset: 0, message: 0, dnscrypt_shared_secret: 0, dnscrypt_nonce: 0 },
            modules: Modules { iterator: 0, validator: 0, respip: 0, subnet: 0 },
            cache_count: CacheCounter {
                message: 0,
                rrset: 0,
                infra: 0,
                key: 0,
                dnscrypt_shared_secret: 0,
                dnscrypt_nonce: 0,
            },
            http: Http { query_buffer: 0, response_buffer: 0 },
            flags: Flags { qr: 0, aa: 0, tc: 0, rd: 0, ra: 0, z: 0, ad: 0, cd: 0 },
            query_opcodes: Vec::new(),
            query_types: Vec::new(),
            query_types_other: 0,
            query_classes: Vec::new(),
            query_classes_other: 0,
            answer_rcodes: Vec::new(),
            query_aggressive: Vec::new(),
            histogram: Histogram::default(),
            mem_streamwait: 0,
            num_query_tcp: 0,
            num_query_tcp_out: 0,
            num_query_tls: 0,
            num_query_tls_resume: 0,
            num_query_ipv6: 0,
            num_query_edns_present: 0,
            num_query_edns_do: 0,
            num_query_rate_limited: 0,
            num_query_https: 0,
            num_answer_secure: 0,
            num_answer_bogus: 0,
            num_rrset_bogus: 0,
            num_unwanted_queries: 0,
            num_unwanted_replies: 0,
            num_query_dnscrypt_shared_secret_cache_miss: 0,
            num_query_dnscrypt_replay: 0,
            num_query_authzone_up: 0,
            num_query_authzone_down: 0,
            num_query_subnet: 0,
            num_query_subnet_cache: 0,
        };
        proof {
            assert(r@.threads =~= statistics_init().threads);
            assert(r@.query_opcodes =~= statistics_init().query_opcodes);
            assert(r@.query_types =~= statistics_init().query_types);
            assert(r@.query_classes =~= statistics_init().query_classes);
            assert(r@.answer_rcodes =~= statistics_init().answer_rcodes);
            assert(r@.query_aggressive =~= statistics_init().query_aggressive);
            assert(r@.histogram.buckets =~= statistics_init().histogram.buckets);
        }
        r
    }
}

/// Index of the first entry with key `k`, or the length when there is
/// none.
pub open spec fn spec_key_index<K>(entries: Seq<(K, u64)>, k: K) -> int
    decreases entries.len(),
{
    if entries.len() == 0 {
        0
    } else if entries[0].0 == k {
        0
    } else {
        1 + spec_key_index(entries.drop_first(), k)
    }
}

/// The count stored under key `k`, if any.
pub open spec fn spec_lookup<K>(entries: Seq<(K, u64)>, k: K) -> Option<u64> {
    let i = spec_key_index(entries, k);
    if i < entries.len() {
        Some(entries[i].1)
    } else {
        None
    }
}

/// Store `v` under key `k`: overwrite the first entry with that key,
/// or append a new entry.
pub open spec fn spec_insert<K>(entries: Seq<(K, u64)>, k: K, v: u64) -> Seq<(K, u64)> {
    let i = spec_key_index(entries, k);
    if i < entries.len() {
        entries.update(i, (k, v))
    } else {
        entries.push((k, v))
    }
}

/// `spec_key_index` is the unique position with no hit before it and
/// a hit or the end at it.
pub proof fn lemma_key_index_at<K>(entries: Seq<(K, u64)>, k: K, j: int)
    requires
        0 <= j <= entries.len(),
        forall|m: int| 0 <= m < j ==> entries[m].0 != k,
        j == entries.len() || entries[j].0 == k,
    ensures
        spec_key_index(entries, k) == j,
    decreases entries.len(),
{
    if entries.len() > 0 {
        if j == 0 {
        } else {
            assert(entries[0].0 != k);
            assert forall|m: int| 0 <= m < j - 1 implies entries.drop_first()[m].0 != k by {
                assert(entries.drop_first()[m] == entries[m + 1]);
            }
            if j < entries.len() {
                assert(entries.drop_first()[j - 1] == entries[j as int]);
            }
            lemma_key_index_at(entries.drop_first(), k, j - 1);
        }
    }
}

/// Store a count under a record-type code.
pub fn insert_u16(entries: &mut Vec<(u16, u64)>, k: u16, v: u64)
    ensures
        final(entries)@ == spec_insert(old(entries)@, k, v),
{
    let mut i: usize = 0;
    while i < entries.len()
        invariant
            i <= entries@.len(),
            entries@ == old(entries)@,
            forall|m: int| 0 <= m < i ==> entries@[m].0 != k,
        decreases entries@.len() - i,
    {
        if entries[i].0 == k {
            proof {
                lemma_key_index_at(entries@, k, i as int);
            }
            entries[i] = (k, v);
            return ;
        }
        i = i + 1;
    }
    proof {
        lemma_key_index_at(entries@, k, entries@.len() as int);
    }
    entries.push((k, v));
}

/// The count stored under a record-type code.
pub fn lookup_u16(entries: &Vec<(u16, u64)>, k: u16) -> (r: Option<u64>)
    ensures
        r == spec_lookup(entries@, k),
{
    let mut i: usize = 0;
    while i < entries.len()
        invariant
            i <= entries@.len(),
            forall|m: int| 0 <= m < i ==> entries@[m].0 != k,
        decreases entries@.len() - i,
    {
        if entries[i].0 == k {
            proof {
                lemma_key_index_at(entries@, k, i as int);
            }
            return Some(entries[i].1);
        }
        i = i + 1;
    }
    proof {
        lemma_key_index_at(entries@, k, entries@.len() as int);
    }
    None
}

/// Store a count under an opcode.
pub fn insert_opcode(entries: &mut Vec<(Opcode, u64)>, k: Opcode, v: u64)
    ensures
        final(entries)@ == spec_insert(old(entries)@, k, v),
{
    let mut i: usize = 0;
    while i < entries.len()
        invariant
            i <= entries@.len(),
            entries@ == old(entries)@,
            forall|m: int| 0 <= m < i ==> entries@[m].0 != k,
        decreases entries@.len() - i,
    {
        if entries[i].0 == k {
            proof {
                lemma_key_index_at(entries@, k, i as int);
            }
            entries[i] = (k, v);
            return ;
        }
        i = i + 1;
    }
    proof {
        lemma_key_index_at(entries@, k, entries@.len() as int);
    }
    entries.push((k, v));
}

/// The count stored under an opcode.
pub fn lookup_opcode(entries: &Vec<(Opcode, u64)>, k: Opcode) -> (r: Option<u64>)
    ensures
        r == spec_lookup(entries@, k),
{
    let mut i: usize = 0;
    while i < entries.len()
        invariant
            i <= entries@.len(),
            forall|m: int| 0 <= m < i ==> entries@[m].0 != k,
        decreases entries@.len() - i,
    {
        if entries[i].0 == k {
            proof {
                lemma_key_index_at(entries@, k, i as int);
            }
            return Some(entries[i].1);
        }
        i = i + 1;
    }
    proof {
        lemma_key_index_at(entries@, k, entries@.len() as int);
    }
    None
}

/// Store a count under a class.
pub fn insert_class(entries: &mut Vec<(Class, u64)>, k: Class, v: u64)
    ensures
        final(entries)@ == spec_insert(old(entries)@, k, v),
{
    let mut i: usize = 0;
    while i < entries.len()
        invariant
            i <= entries@.len(),
            entries@ == old(entries)@,
            forall|m: int| 0 <= m < i ==> entries@[m].0 != k,
        decreases entries@.len() - i,
    {
        if entries[i].0 == k {
            proof {
                lemma_key_index_at(entries@, k, i as int);
            }
            entries[i] = (k, v);
            return ;
        }
        i = i + 1;
    }
    proof {
        lemma_key_index_at(entries@, k, entries@.len() as int);
    }
    entries.push((k, v));
}

/// The count stored under a class.
pub fn lookup_class(entries: &Vec<(Class, u64)>, k: Class) -> (r: Option<u64>)
    ensures
        r == spec_lookup(entries@, k),
{
    let mut i: usize = 0;
    while i < entries.len()
        invariant
            i <= entries@.len(),
            forall|m: int| 0 <= m < i ==> entries@[m].0 != k,
        decreases entries@.len() - i,
    {
        if entries[i].0 == k {
            proof {
                lemma_key_index_at(entries@, k, i as int);
            }
            return Some(entries[i].1);
        }
        i = i + 1;
    }
    proof {
        lemma_key_index_at(entries@, k, entries@.len() as int);
    }
    None
}

/// Store a count under a response code.
pub fn insert_rcode(entries: &mut Vec<(Rcode, u64)>, k: Rcode, v: u64)
    ensures
        final(entries)@ == spec_insert(old(entries)@, k, v),
{
    let mut i: usize = 0;
    while i < entries.len()
        invariant
            i <= entries@.len(),
            entries@ == old(entries)@,
            forall|m: int| 0 <= m < i ==> entries@[m].0 != k,
        decreases entries@.len() - i,
    {
        if entries[i].0 == k {
            proof {
                lemma_key_index_at(entries@, k, i as int);
            }
            entries[i] = (k, v);
            return ;
        }
        i = i + 1;
    }
    proof {
        lemma_key_index_at(entries@, k, entries@.len() as int);
    }
    entries.push((k, v));
}

/// The count stored under a response code.
pub fn lookup_rcode(entries: &Vec<(Rcode, u64)>, k: Rcode) -> (r: Option<u64>)
    ensures
        r == spec_lookup(entries@, k),
{
    let mut i: usize = 0;
    while i < entries.len()
        invariant
            i <= entries@.len(),
            forall|m: int| 0 <= m < i ==> entries@[m].0 != k,
        decreases entries@.len() - i,
    {
        if entries[i].0 == k {
            proof {
                lemma_key_index_at(entries@, k, i as int);
            }
            return Some(entries[i].1);
        }
        i = i + 1;
    }
    proof {
        lemma_key_index_at(entries@, k, entries@.len() as int);
    }
    None
}

impl Statistics {
    /// The count recorded for a record-type code.
    pub fn query_type(&self, code: u16) -> (r: Option<u64>)
        ensures
            r == spec_lookup(self@.query_types, code),
    {
        lookup_u16(&self.query_types, code)
    }

    /// The count recorded for a query class.
    pub fn query_class(&self, class: Class) -> (r: Option<u64>)
        ensures
            r == spec_lookup(self@.query_classes, class),
    {
        lookup_class(&self.query_classes, class)
    }

    /// The count recorded for a query opcode.
    pub fn query_opcode(&self, opcode: Opcode) -> (r: Option<u64>)
        ensures
            r == spec_lookup(self@.query_opcodes, opcode),
    {
        lookup_opcode(&self.query_opcodes, opcode)
    }

    /// The count recorded for an answer response code.
    pub fn answer_rcode(&self, rcode: Rcode) -> (r: Option<u64>)
        ensures
            r == spec_lookup(self@.answer_rcodes, rcode),
    {
        lookup_rcode(&self.answer_rcodes, rcode)
    }
}

} // verus!
