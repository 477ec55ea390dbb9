//! The line parser: turns the `key=value` statistics text into a
//! [`Statistics`] snapshot.

use vstd::prelude::*;
use vstd::string::StringSliceAdditionalSpecFns;

use crate::bytes::{
    byte_index, bytes_eq, find_byte, find_last_byte, has_prefix, rbyte_index, spec_has_prefix,
};
use crate::codes::{
    parse_class, parse_opcode, parse_rcode, parse_rtype, spec_parse_class, spec_parse_opcode,
    spec_parse_rcode, spec_parse_rtype,
};
use crate::histogram::HistogramView;
use crate::numbers::{
    parse_fixed, parse_u64, spec_parse_fixed, spec_parse_u64, FixedParse, Nanos,
};
use crate::statistics::{
    insert_class, insert_opcode, insert_rcode, insert_u16, spec_insert, statistics_init, Http,
    Statistics, StatisticsView, Thread, Time,
};

verus! {

/// A fatal or recoverable failure while parsing statistics text.
///
/// An unknown key is recoverable: the parser skips the line.  Every
/// other kind aborts the parse.
#[derive(Debug)]
pub enum ParseError {
    /// A key that no dispatch table knows.  Never escapes a whole
    /// parse: the line is skipped.
    UnknownKey { key: Vec<u8> },
    /// A line with an `=` but nothing before it.
    MissingKey,
    /// A line without an `=`, identified by the whole line.
    MissingValue { key: Vec<u8> },
    /// A malformed unsigned integer literal.
    ParseInt,
    /// A malformed decimal literal.
    ParseFloat,
    /// A malformed dotted key, an out-of-range histogram bound or
    /// duration, or a malformed histogram key.
    InvalidFormat,
}

/// The mathematical content of a parse failure.
pub ghost enum ParseErrorView {
    UnknownKey { key: Seq<u8> },
    MissingKey,
    MissingValue { key: Seq<u8> },
    ParseInt,
    ParseFloat,
    InvalidFormat,
}

impl View for ParseError {
    type V = ParseErrorView;

    open spec fn view(&self) -> ParseErrorView {
        match self {
            ParseError::UnknownKey { key } => ParseErrorView::UnknownKey { key: key@ },
            ParseError::MissingKey => ParseErrorView::MissingKey,
            ParseError::MissingValue { key } => ParseErrorView::MissingValue { key: key@ },
            ParseError::ParseInt => ParseErrorView::ParseInt,
            ParseError::ParseFloat => ParseErrorView::ParseFloat,
            ParseError::InvalidFormat => ParseErrorView::InvalidFormat,
        }
    }
}

/// What decoding an unsigned counter field yields.
pub open spec fn sp_u64(value: Seq<u8>) -> Result<u64, ParseErrorView> {
    match spec_parse_u64(value) {
        Some(v) => Ok(v),
        None => Err(ParseErrorView::ParseInt),
    }
}

/// What decoding a duration or fractional field yields.
pub open spec fn sp_nanos(value: Seq<u8>) -> Result<Nanos, ParseErrorView> {
    match spec_parse_fixed(value) {
        FixedParse::Value(n) => Ok(Nanos { nanos: n }),
        FixedParse::Malformed => Err(ParseErrorView::ParseFloat),
        FixedParse::OutOfRange => Err(ParseErrorView::InvalidFormat),
    }
}

/// Decode an unsigned counter into a field.
fn parse_into_u64(field: &mut u64, value: &[u8]) -> (r: Result<(), ParseError>)
    ensures
        match sp_u64(value@) {
            Ok(v) => r is Ok && *final(field) == v,
            Err(e) => r matches Err(a) && a@ == e && *final(field) == *old(field),
        },
{
    match parse_u64(value) {
        Some(v) => {
            *field = v;
            Ok(())
        },
        None => Err(ParseError::ParseInt),
    }
}

/// Decode a duration or fractional value into a field.
fn parse_into_nanos(field: &mut Nanos, value: &[u8]) -> (r: Result<(), ParseError>)
    ensures
        match sp_nanos(value@) {
            Ok(v) => r is Ok && *final(field) == v,
            Err(e) => r matches Err(a) && a@ == e && *final(field) == *old(field),
        },
{
    match parse_fixed(value) {
        FixedParse::Value(n) => {
            *field = Nanos { nanos: n };
            Ok(())
        },
        FixedParse::Malformed => Err(ParseError::ParseFloat),
        FixedParse::OutOfRange => Err(ParseError::InvalidFormat),
    }
}

/// What one `total.*` or `thread<N>.*` field assignment does to a
/// thread record: the per-field table, including the pre- and
/// post-rename aliases for expired responses.
#[verifier::opaque]
pub open spec fn spec_thread_field(t: Thread, key: Seq<u8>, value: Seq<u8>) -> Result<
    Thread,
    ParseErrorView,
> {
    if key == "num.queries".spec_bytes() {
        match sp_u64(value) {
            Ok(v) => Ok(Thread { num_queries: v, ..t }),
            Err(e) => Err(e),
        }
    } else if key == "num.queries_ip_ratelimited".spec_bytes() {
        match sp_u64(value) {
            Ok(v) => Ok(Thread { num_queries_ip_ratelimited: v, ..t }),
            Err(e) => Err(e),
        }
    } else if key == "num.cachehits".spec_bytes() {
        match sp_u64(value) {
            Ok(v) => Ok(Thread { num_cache_hits: v, ..t }),
            Err(e) => Err(e),
        }
    } else if key == "num.cachemiss".spec_bytes() {
        match sp_u64(value) {
            Ok(v) => Ok(Thread { num_cache_miss: v, ..t }),
            Err(e) => Err(e),
        }
    } else if key == "num.prefetch".spec_bytes() {
        match sp_u64(value) {
            Ok(v) => Ok(Thread { num_prefetch: v, ..t }),
            Err(e) => Err(e),
        }
    } else if key == "num.zero_ttl".spec_bytes() {
        match sp_u64(value) {
            Ok(v) => Ok(Thread { num_zero_ttl: v, ..t }),
            Err(e) => Err(e),
        }
    } else if key == "num.expired".spec_bytes() {
        match sp_u64(value) {
            Ok(v) => Ok(Thread { num_zero_ttl: v, ..t }),
            Err(e) => Err(e),
        }
    } else if key == "num.recursivereplies".spec_bytes() {
        match sp_u64(value) {
            Ok(v) => Ok(Thread { num_recursive_replies: v, ..t }),
            Err(e) => Err(e),
        }
    } else if key == "num.dnscrypt.crypted".spec_bytes() {
        match sp_u64(value) {
            Ok(v) => Ok(Thread { num_dnscrypt_crypted: v, ..t }),
            Err(e) => Err(e),
        }
    } else if key == "num.dnscrypt.cert".spec_bytes() {
        match sp_u64(value) {
            Ok(v) => Ok(Thread { num_dnscrypt_cert: v, ..t }),
            Err(e) => Err(e),
        }
    } else if key == "num.dnscrypt.cleartext".spec_bytes() {
        match sp_u64(value) {
            Ok(v) => Ok(Thread { num_dnscrypt_cleartext: v, ..t }),
            Err(e) => Err(e),
        }
    } else if key == "num.dnscrypt.malformed".spec_bytes() {
        match sp_u64(value) {
            Ok(v) => Ok(Thread { num_dnscrypt_malformed: v, ..t }),
            Err(e) => Err(e),
        }
    } else if key == "requestlist.avg".spec_bytes() {
        match sp_nanos(value) {
            Ok(v) => Ok(Thread { requestlist_avg: v, ..t }),
            Err(e) => Err(e),
        }
    } else if key == "requestlist.max".spec_bytes() {
        match sp_u64(value) {
            Ok(v) => Ok(Thread { requestlist_max: v, ..t }),
            Err(e) => Err(e),
        }
    } else if key == "requestlist.overwritten".spec_bytes() {
        match sp_u64(value) {
            Ok(v) => Ok(Thread { requestlist_overwritten: v, ..t }),
            Err(e) => Err(e),
        }
    } else if key == "requestlist.exceeded".spec_bytes() {
        match sp_u64(value) {
            Ok(v) => Ok(Thread { requestlist_exceeded: v, ..t }),
            Err(e) => Err(e),
        }
    } else if key == "requestlist.current.all".spec_bytes() {
        match sp_u64(value) {
            Ok(v) => Ok(Thread { requestlist_current_all: v, ..t }),
            Err(e) => Err(e),
        }
    } else if key == "requestlist.current.user".spec_bytes() {
        match sp_u64(value) {
            Ok(v) => Ok(Thread { requestlist_current_user: v, ..t }),
            Err(e) => Err(e),
        }
    } else if key == "recursion.time.avg".spec_bytes() {
        match sp_nanos(value) {
            Ok(v) => Ok(Thread { recursion_time_avg: v, ..t }),
            Err(e) => Err(e),
        }
    } else if key == "recursion.time.median".spec_bytes() {
        match sp_nanos(value) {
            Ok(v) => Ok(Thread { recursion_time_median: v, ..t }),
            Err(e) => Err(e),
        }
    } else if key == "tcpusage".spec_bytes() {
        match sp_u64(value) {
            Ok(v) => Ok(Thread { tcp_usage: v, ..t }),
            Err(e) => Err(e),
        }
    } else {
        Err(ParseErrorView::UnknownKey { key })
    }
}

/// Apply one field assignment to a thread record.
#[verifier::rlimit(80)]
fn thread_field(t: &mut Thread, key: &[u8], value: &[u8]) -> (r: Result<(), ParseError>)
    ensures
        match spec_thread_field(*old(t), key@, value@) {
            Ok(t2) => r is Ok && *final(t) == t2,
            Err(e) => r matches Err(a) && a@ == e && *final(t) == *old(t),
        },
{
    proof {
        reveal(spec_thread_field);
    }
    if bytes_eq(key, "num.queries".as_bytes()) {
        parse_into_u64(&mut t.num_queries, value)
    } else if bytes_eq(key, "num.queries_ip_ratelimited".as_bytes()) {
        parse_into_u64(&mut t.num_queries_ip_ratelimited, value)
    } else if bytes_eq(key, "num.cachehits".as_bytes()) {
        parse_into_u64(&mut t.num_cache_hits, value)
    } else if bytes_eq(key, "num.cachemiss".as_bytes()) {
        parse_into_u64(&mut t.num_cache_miss, value)
    } else if bytes_eq(key, "num.prefetch".as_bytes()) {
        parse_into_u64(&mut t.num_prefetch, value)
    } else if bytes_eq(key, "num.zero_ttl".as_bytes()) {
        parse_into_u64(&mut t.num_zero_ttl, value)
    } else if bytes_eq(key, "num.expired".as_bytes()) {
        parse_into_u64(&mut t.num_zero_ttl, value)
    } else if bytes_eq(key, "num.recursivereplies".as_bytes()) {
        parse_into_u64(&mut t.num_recursive_replies, value)
    } else if bytes_eq(key, "num.dnscrypt.crypted".as_bytes()) {
        parse_into_u64(&mut t.num_dnscrypt_crypted, value)
    } else if bytes_eq(key, "num.dnscrypt.cert".as_bytes()) {
        parse_into_u64(&mut t.num_dnscrypt_cert, value)
    } else if bytes_eq(key, "num.dnscrypt.cleartext".as_bytes()) {
        parse_into_u64(&mut t.num_dnscrypt_cleartext, value)
    } else if bytes_eq(key, "num.dnscrypt.malformed".as_bytes()) {
        parse_into_u64(&mut t.num_dnscrypt_malformed, value)
    } else if bytes_eq(key, "requestlist.avg".as_bytes()) {
        parse_into_nanos(&mut t.requestlist_avg, value)
    } else if bytes_eq(key, "requestlist.max".as_bytes()) {
        parse_into_u64(&mut t.requestlist_max, value)
    } else if bytes_eq(key, "requestlist.overwritten".as_bytes()) {
        parse_into_u64(&mut t.requestlist_overwritten, value)
    } else if bytes_eq(key, "requestlist.exceeded".as_bytes()) {
        parse_into_u64(&mut t.requestlist_exceeded, value)
    } else if bytes_eq(key, "requestlist.current.all".as_bytes()) {
        parse_into_u64(&mut t.requestlist_current_all, value)
    } else if bytes_eq(key, "requestlist.current.user".as_bytes()) {
        parse_into_u64(&mut t.requestlist_current_user, value)
    } else if bytes_eq(key, "recursion.time.avg".as_bytes()) {
        parse_into_nanos(&mut t.recursion_time_avg, value)
    } else if bytes_eq(key, "recursion.time.median".as_bytes()) {
        parse_into_nanos(&mut t.recursion_time_median, value)
    } else if bytes_eq(key, "tcpusage".as_bytes()) {
        parse_into_u64(&mut t.tcp_usage, value)
    } else {
        Err(ParseError::UnknownKey { key: vstd::slice::slice_to_vec(key) })
    }
}

/// The text after the last `.` of a key, or the whole key when it has
/// no dot: the discovered-code segment of a dynamically keyed line.
pub open spec fn last_segment(key: Seq<u8>) -> Seq<u8> {
    let rb = rbyte_index(key, 46);
    if rb >= 0 {
        key.skip(rb + 1)
    } else {
        key
    }
}

/// Extract the discovered-code segment of a key.
fn last_segment_slice<'a>(key: &'a [u8]) -> (r: &'a [u8])
    ensures
        r@ == last_segment(key@),
{
    match find_last_byte(key, 46u8) {
        Some(rb) => {
            let n = key.len();
            assert(rb < n);
            let r = vstd::slice::slice_subrange(key, rb + 1, n);
            proof {
                assert(r@ =~= key@.skip(rbyte_index(key@, 46) + 1));
            }
            r
        },
        None => key,
    }
}

/// The timing, cache-size and module-memory arms of the flat key
/// table.
#[verifier::opaque]
pub open spec fn spec_other_a(st: StatisticsView, key: Seq<u8>, value: Seq<u8>) -> Option<
    (StatisticsView, Option<ParseErrorView>),
> {
    if key == "time.now".spec_bytes() {
        Some(
            match sp_nanos(value) {
                Ok(v) => (StatisticsView { time: Time { now: v, ..st.time }, ..st }, None),
                Err(e) => (st, Some(e)),
            },
        )
    } else if key == "time.up".spec_bytes() {
        Some(
            match sp_nanos(value) {
                Ok(v) => (StatisticsView { time: Time { up: v, ..st.time }, ..st }, None),
                Err(e) => (st, Some(e)),
            },
        )
    } else if key == "time.elapsed".spec_bytes() {
        Some(
            match sp_nanos(value) {
                Ok(v) => (StatisticsView { time: Time { elapsed: v, ..st.time }, ..st }, None),
                Err(e) => (st, Some(e)),
            },
        )
    } else if key == "mem.cache.rrset".spec_bytes() {
        Some(
            match sp_u64(value) {
                Ok(v) => (
                    StatisticsView {
                        cache: crate::statistics::Cache { rrset: v, ..st.cache },
                        ..st
                    },
                    None,
                ),
                Err(e) => (st, Some(e)),
            },
        )
    } else if key == "mem.cache.message".spec_bytes() {
        Some(
            match sp_u64(value) {
                Ok(v) => (
                    StatisticsView {
                        cache: crate::statistics::Cache { message: v, ..st.cache },
                        ..st
                    },
                    None,
                ),
                Err(e) => (st, Some(e)),
            },
        )
    } else if key == "mem.mod.iterator".spec_bytes() {
        Some(
            match sp_u64(value) {
                Ok(v) => (
                    StatisticsView {
                        modules: crate::statistics::Modules { iterator: v, ..st.modules },
                        ..st
                    },
                    None,
                ),
                Err(e) => (st, Some(e)),
            },
        )
    } else if key == "mem.mod.validator".spec_bytes() {
        Some(
            match sp_u64(value) {
                Ok(v) => (
                    StatisticsView {
                        modules: crate::statistics::Modules { validator: v, ..st.modules },
                        ..st
                    },
                    None,
                ),
                Err(e) => (st, Some(e)),
            },
        )
    } else if key == "mem.mod.respip".spec_bytes() {
        Some(
            match sp_u64(value) {
                Ok(v) => (
                    StatisticsView {
                        modules: crate::statistics::Modules { respip: v, ..st.modules },
                        ..st
                    },
                    None,
                ),
                Err(e) => (st, Some(e)),
            },
        )
    } else if key == "mem.mod.subnet".spec_bytes() {
        Some(
            match sp_u64(value) {
                Ok(v) => (
                    StatisticsView {
                        modules: crate::statistics::Modules { subnet: v, ..st.modules },
                        ..st
                    },
                    None,
                ),
                Err(e) => (st, Some(e)),
            },
        )
    } else if key == "mem.cache.dnscrypt_shared_secret".spec_bytes() {
        Some(
            match sp_u64(value) {
                Ok(v) => (
                    StatisticsView {
                        cache: crate::statistics::Cache { dnscrypt_shared_secret: v, ..st.cache },
                        ..st
                    },
                    None,
                ),
                Err(e) => (st, Some(e)),
            },
        )
    } else if key == "mem.cache.dnscrypt_nonce".spec_bytes() {
        Some(
            match sp_u64(value) {
                Ok(v) => (
                    StatisticsView {
                        cache: crate::statistics::Cache { dnscrypt_nonce: v, ..st.cache },
                        ..st
                    },
                    None,
                ),
                Err(e) => (st, Some(e)),
            },
        )
    } else if key == "mem.streamwait".spec_bytes() {
        Some(
            match sp_u64(value) {
                Ok(v) => (StatisticsView { mem_streamwait: v, ..st }, None),
                Err(e) => (st, Some(e)),
            },
        )
    } else if key == "mem.http.query_buffer".spec_bytes() {
        Some(
            match sp_u64(value) {
                Ok(v) => (
                    StatisticsView { http: Http { query_buffer: v, ..st.http }, ..st },
                    None,
                ),
                Err(e) => (st, Some(e)),
            },
        )
    } else if key == "mem.http.response_buffer".spec_bytes() {
        Some(
            match sp_u64(value) {
                Ok(v) => (
                    StatisticsView { http: Http { response_buffer: v, ..st.http }, ..st },
                    None,
                ),
                Err(e) => (st, Some(e)),
            },
        )
    } else {
        None
    }
}

/// Apply an arm of the timing and memory table, when one matches.
#[verifier::rlimit(80)]
fn other_a(stats: &mut Statistics, key: &[u8], value: &[u8]) -> (r: Option<Result<(), ParseError>>)
    ensures
        match spec_other_a(old(stats)@, key@, value@) {
            Some(p) => {
                &&& final(stats)@ == p.0
                &&& match r {
                    Some(Ok(u)) => p.1 is None,
                    Some(Err(e)) => p.1 == Some(e@),
                    None => false,
                }
            },
            None => r is None && final(stats)@ == old(stats)@,
        },
{
    proof {
        reveal(spec_other_a);
    }
    if bytes_eq(key, "time.now".as_bytes()) {
        Some(parse_into_nanos(&mut stats.time.now, value))
    } else if bytes_eq(key, "time.up".as_bytes()) {
        Some(parse_into_nanos(&mut stats.time.up, value))
    } else if bytes_eq(key, "time.elapsed".as_bytes()) {
        Some(parse_into_nanos(&mut stats.time.elapsed, value))
    } else if bytes_eq(key, "mem.cache.rrset".as_bytes()) {
        Some(parse_into_u64(&mut stats.cache.rrset, value))
    } else if bytes_eq(key, "mem.cache.message".as_bytes()) {
        Some(parse_into_u64(&mut stats.cache.message, value))
    } else if bytes_eq(key, "mem.mod.iterator".as_bytes()) {
        Some(parse_into_u64(&mut stats.modules.iterator, value))
    } else if bytes_eq(key, "mem.mod.validator".as_bytes()) {
        Some(parse_into_u64(&mut stats.modules.validator, value))
    } else if bytes_eq(key, "mem.mod.respip".as_bytes()) {
        Some(parse_into_u64(&mut stats.modules.respip, value))
    } else if bytes_eq(key, "mem.mod.subnet".as_bytes()) {
        Some(parse_into_u64(&mut stats.modules.subnet, value))
    } else if bytes_eq(key, "mem.cache.dnscrypt_shared_secret".as_bytes()) {
        Some(parse_into_u64(&mut stats.cache.dnscrypt_shared_secret, value))
    } else if bytes_eq(key, "mem.cache.dnscrypt_nonce".as_bytes()) {
        Some(parse_into_u64(&mut stats.cache.dnscrypt_nonce, value))
    } else if bytes_eq(key, "mem.streamwait".as_bytes()) {
        Some(parse_into_u64(&mut stats.mem_streamwait, value))
    } else if bytes_eq(key, "mem.http.query_buffer".as_bytes()) {
        Some(parse_into_u64(&mut stats.http.query_buffer, value))
    } else if bytes_eq(key, "mem.http.response_buffer".as_bytes()) {
        Some(parse_into_u64(&mut stats.http.response_buffer, value))
    } else {
        None
    }
}

/// The query-count arms of the flat key table, with the dynamically
/// keyed record-type, class and opcode maps.
#[verifier::opaque]
pub open spec fn spec_other_b(st: StatisticsView, key: Seq<u8>, value: Seq<u8>) -> Option<
    (StatisticsView, Option<ParseErrorView>),
> {
    if key == "num.query.type.other".spec_bytes() {
        Some(
            match sp_u64(value) {
                Ok(v) => (StatisticsView { query_types_other: v, ..st }, None),
                Err(e) => (st, Some(e)),
            },
        )
    } else if spec_has_prefix(key, "num.query.type.".spec_bytes()) {
        Some(
            match spec_parse_rtype(last_segment(key)) {
                Some(code) => match sp_u64(value) {
                    Ok(v) => (
                        StatisticsView {
                            query_types: spec_insert(st.query_types, code, v),
                            ..st
                        },
                        None,
                    ),
                    Err(e) => (st, Some(e)),
                },
                None => (st, Some(ParseErrorView::UnknownKey { key })),
            },
        )
    } else if key == "num.query.class.other".spec_bytes() {
        Some(
            match sp_u64(value) {
                Ok(v) => (StatisticsView { query_classes_other: v, ..st }, None),
                Err(e) => (st, Some(e)),
            },
        )
    } else if spec_has_prefix(key, "num.query.class.".spec_bytes()) {
        Some(
            match spec_parse_class(last_segment(key)) {
                Some(code) => match sp_u64(value) {
                    Ok(v) => (
                        StatisticsView {
                            query_classes: spec_insert(st.query_classes, code, v),
                            ..st
                        },
                        None,
                    ),
                    Err(e) => (st, Some(e)),
                },
                None => (st, Some(ParseErrorView::UnknownKey { key })),
            },
        )
    } else if spec_has_prefix(key, "num.query.opcode.".spec_bytes()) {
        Some(
            match spec_parse_opcode(last_segment(key)) {
                Some(code) => match sp_u64(value) {
                    Ok(v) => (
                        StatisticsView {
                            query_opcodes: spec_insert(st.query_opcodes, code, v),
                            ..st
                        },
                        None,
                    ),
                    Err(e) => (st, Some(e)),
                },
                None => (st, Some(ParseErrorView::UnknownKey { key })),
            },
        )
    } else if key == "num.query.tcp".spec_bytes() {
        Some(
            match sp_u64(value) {
                Ok(v) => (StatisticsView { num_query_tcp: v, ..st }, None),
                Err(e) => (st, Some(e)),
            },
        )
    } else if key == "num.query.tcpout".spec_bytes() {
        Some(
            match sp_u64(value) {
                Ok(v) => (StatisticsView { num_query_tcp_out: v, ..st }, None),
                Err(e) => (st, Some(e)),
            },
        )
    } else if key == "num.query.tls".spec_bytes() {
        Some(
            match sp_u64(value) {
                Ok(v) => (StatisticsView { num_query_tls: v, ..st }, None),
                Err(e) => (st, Some(e)),
            },
        )
    } else if key == "num.query.tls.resume".spec_bytes() {
        Some(
            match sp_u64(value) {
                Ok(v) => (StatisticsView { num_query_tls_resume: v, ..st }, None),
                Err(e) => (st, Some(e)),
            },
        )
    } else if key == "num.query.ipv6".spec_bytes() {
        Some(
            match sp_u64(value) {
                Ok(v) => (StatisticsView { num_query_ipv6: v, ..st }, None),
                Err(e) => (st, Some(e)),
            },
        )
    } else if key == "num.query.https".spec_bytes() {
        Some(
            match sp_u64(value) {
                Ok(v) => (StatisticsView { num_query_https: v, ..st }, None),
                Err(e) => (st, Some(e)),
            },
        )
    } else if key == "num.query.flags.QR".spec_bytes() {
        Some(
            match sp_u64(value) {
                Ok(v) => (
                    StatisticsView {
                        flags: crate::statistics::Flags { qr: v, ..st.flags },
                        ..st
                    },
                    None,
                ),
                Err(e) => (st, Some(e)),
            },
        )
    } else if key == "num.query.flags.AA".spec_bytes() {
        Some(
            match sp_u64(value) {
                Ok(v) => (
                    StatisticsView {
                        flags: crate::statistics::Flags { aa: v, ..st.flags },
                        ..st
                    },
                    None,
                ),
                Err(e) => (st, Some(e)),
            },
        )
    } else if key == "num.query.flags.TC".spec_bytes() {
        Some(
            match sp_u64(value) {
                Ok(v) => (
                    StatisticsView {
                        flags: crate::statistics::Flags { tc: v, ..st.flags },
                        ..st
                    },
                    None,
                ),
                Err(e) => (st, Some(e)),
            },
        )
    } else if key == "num.query.flags.RD".spec_bytes() {
        Some(
            match sp_u64(value) {
                Ok(v) => (
                    StatisticsView {
                        flags: crate::statistics::Flags { rd: v, ..st.flags },
                        ..st
                    },
                    None,
                ),
                Err(e) => (st, Some(e)),
            },
        )
    } else if key == "num.query.flags.RA".spec_bytes() {
        Some(
            match sp_u64(value) {
                Ok(v) => (
                    StatisticsView {
                        flags: crate::statistics::Flags { ra: v, ..st.flags },
                        ..st
                    },
                    None,
                ),
                Err(e) => (st, Some(e)),
            },
        )
    } else if key == "num.query.flags.Z".spec_bytes() {
        Some(
            match sp_u64(value) {
                Ok(v) => (
                    StatisticsView {
                        flags: crate::statistics::Flags { z: v, ..st.flags },
                        ..st
                    },
                    None,
                ),
                Err(e) => (st, Some(e)),
            },
        )
    } else if key == "num.query.flags.AD".spec_bytes() {
        Some(
            match sp_u64(value) {
                Ok(v) => (
                    StatisticsView {
                        flags: crate::statistics::Flags { ad: v, ..st.flags },
                        ..st
                    },
                    None,
                ),
                Err(e) => (st, Some(e)),
            },
        )
    } else if key == "num.query.flags.CD".spec_bytes() {
        Some(
            match sp_u64(value) {
                Ok(v) => (
                    StatisticsView {
                        flags: crate::statistics::Flags { cd: v, ..st.flags },
                        ..st
                    },
                    None,
                ),
                Err(e) => (st, Some(e)),
            },
        )
    } else if key == "num.query.edns.present".spec_bytes() {
        Some(
            match sp_u64(value) {
                Ok(v) => (StatisticsView { num_query_edns_present: v, ..st }, None),
                Err(e) => (st, Some(e)),
            },
        )
    } else if key == "num.query.edns.DO".spec_bytes() {
        Some(
            match sp_u64(value) {
                Ok(v) => (StatisticsView { num_query_edns_do: v, ..st }, None),
                Err(e) => (st, Some(e)),
            },
        )
    } else {
        None
    }
}

/// Apply an arm of the query-count table, when one matches.
#[verifier::rlimit(100)]
fn other_b(stats: &mut Statistics, key: &[u8], value: &[u8]) -> (r: Option<Result<(), ParseError>>)
    ensures
        match spec_other_b(old(stats)@, key@, value@) {
            Some(p) => {
                &&& final(stats)@ == p.0
                &&& match r {
                    Some(Ok(u)) => p.1 is None,
                    Some(Err(e)) => p.1 == Some(e@),
                    None => false,
                }
            },
            None => r is None && final(stats)@ == old(stats)@,
        },
{
    proof {
        reveal(spec_other_b);
    }
    if bytes_eq(key, "num.query.type.other".as_bytes()) {
        Some(parse_into_u64(&mut stats.query_types_other, value))
    } else if has_prefix(key, "num.query.type.".as_bytes()) {
        match parse_rtype(last_segment_slice(key)) {
            Some(code) => match parse_u64(value) {
                Some(v) => {
                    insert_u16(&mut stats.query_types, code, v);
                    Some(Ok(()))
                },
                None => Some(Err(ParseError::ParseInt)),
            },
            None => Some(Err(ParseError::UnknownKey { key: vstd::slice::slice_to_vec(key) })),
        }
    } else if bytes_eq(key, "num.query.class.other".as_bytes()) {
        Some(parse_into_u64(&mut stats.query_classes_other, value))
    } else if has_prefix(key, "num.query.class.".as_bytes()) {
        match parse_class(last_segment_slice(key)) {
            Some(code) => match parse_u64(value) {
                Some(v) => {
                    insert_class(&mut stats.query_classes, code, v);
                    Some(Ok(()))
                },
                None => Some(Err(ParseError::ParseInt)),
            },
            None => Some(Err(ParseError::UnknownKey { key: vstd::slice::slice_to_vec(key) })),
        }
    } else if has_prefix(key, "num.query.opcode.".as_bytes()) {
        match parse_opcode(last_segment_slice(key)) {
            Some(code) => match parse_u64(value) {
                Some(v) => {
                    insert_opcode(&mut stats.query_opcodes, code, v);
                    Some(Ok(()))
                },
                None => Some(Err(ParseError::ParseInt)),
            },
            None => Some(Err(ParseError::UnknownKey { key: vstd::slice::slice_to_vec(key) })),
        }
    } else if bytes_eq(key, "num.query.tcp".as_bytes()) {
        Some(parse_into_u64(&mut stats.num_query_tcp, value))
    } else if bytes_eq(key, "num.query.tcpout".as_bytes()) {
        Some(parse_into_u64(&mut stats.num_query_tcp_out, value))
    } else if bytes_eq(key, "num.query.tls".as_bytes()) {
        Some(parse_into_u64(&mut stats.num_query_tls, value))
    } else if bytes_eq(key, "num.query.tls.resume".as_bytes()) {
        Some(parse_into_u64(&mut stats.num_query_tls_resume, value))
    } else if bytes_eq(key, "num.query.ipv6".as_bytes()) {
        Some(parse_into_u64(&mut stats.num_query_ipv6, value))
    } else if bytes_eq(key, "num.query.https".as_bytes()) {
        Some(parse_into_u64(&mut stats.num_query_https, value))
    } else if bytes_eq(key, "num.query.flags.QR".as_bytes()) {
        Some(parse_into_u64(&mut stats.flags.qr, value))
    } else if bytes_eq(key, "num.query.flags.AA".as_bytes()) {
        Some(parse_into_u64(&mut stats.flags.aa, value))
    } else if bytes_eq(key, "num.query.flags.TC".as_bytes()) {
        Some(parse_into_u64(&mut stats.flags.tc, value))
    } else if bytes_eq(key, "num.query.flags.RD".as_bytes()) {
        Some(parse_into_u64(&mut stats.flags.rd, value))
    } else if bytes_eq(key, "num.query.flags.RA".as_bytes()) {
        Some(parse_into_u64(&mut stats.flags.ra, value))
    } else if bytes_eq(key, "num.query.flags.Z".as_bytes()) {
        Some(parse_into_u64(&mut stats.flags.z, value))
    } else if bytes_eq(key, "num.query.flags.AD".as_bytes()) {
        Some(parse_into_u64(&mut stats.flags.ad, value))
    } else if bytes_eq(key, "num.query.flags.CD".as_bytes()) {
        Some(parse_into_u64(&mut stats.flags.cd, value))
    } else if bytes_eq(key, "num.query.edns.present".as_bytes()) {
        Some(parse_into_u64(&mut stats.num_query_edns_present, value))
    } else if bytes_eq(key, "num.query.edns.DO".as_bytes()) {
        Some(parse_into_u64(&mut stats.num_query_edns_do, value))
    } else {
        None
    }
}

/// The answer and cache-count arms of the flat key table, with the
/// response-code maps.
#[verifier::opaque]
pub open spec fn spec_other_c(st: StatisticsView, key: Seq<u8>, value: Seq<u8>) -> Option<
    (StatisticsView, Option<ParseErrorView>),
> {
    if key == "num.answer.rcode.nodata".spec_bytes() {
        // Ignored, for compatibility with other exporters.
        Some((st, None))
    } else if spec_has_prefix(key, "num.answer.rcode.".spec_bytes()) {
        Some(
            match spec_parse_rcode(last_segment(key)) {
                Some(code) => match sp_u64(value) {
                    Ok(v) => (
                        StatisticsView {
                            answer_rcodes: spec_insert(st.answer_rcodes, code, v),
                            ..st
                        },
                        None,
                    ),
                    Err(e) => (st, Some(e)),
                },
                None => (st, Some(ParseErrorView::UnknownKey { key })),
            },
        )
    } else if key == "num.query.ratelimited".spec_bytes() {
        Some(
            match sp_u64(value) {
                Ok(v) => (StatisticsView { num_query_rate_limited: v, ..st }, None),
                Err(e) => (st, Some(e)),
            },
        )
    } else if key == "num.answer.secure".spec_bytes() {
        Some(
            match sp_u64(value) {
                Ok(v) => (StatisticsView { num_answer_secure: v, ..st }, None),
                Err(e) => (st, Some(e)),
            },
        )
    } else if key == "num.answer.bogus".spec_bytes() {
        Some(
            match sp_u64(value) {
                Ok(v) => (StatisticsView { num_answer_bogus: v, ..st }, None),
                Err(e) => (st, Some(e)),
            },
        )
    } else if key == "num.rrset.bogus".spec_bytes() {
        Some(
            match sp_u64(value) {
                Ok(v) => (StatisticsView { num_rrset_bogus: v, ..st }, None),
                Err(e) => (st, Some(e)),
            },
        )
    } else if spec_has_prefix(key, "num.query.aggressive.".spec_bytes()) {
        Some(
            match spec_parse_rcode(last_segment(key)) {
                Some(code) => match sp_u64(value) {
                    Ok(v) => (
                        StatisticsView {
                            query_aggressive: spec_insert(st.query_aggressive, code, v),
                            ..st
                        },
                        None,
                    ),
                    Err(e) => (st, Some(e)),
                },
                None => (st, Some(ParseErrorView::UnknownKey { key })),
            },
        )
    } else if key == "unwanted.queries".spec_bytes() {
        Some(
            match sp_u64(value) {
                Ok(v) => (StatisticsView { num_unwanted_queries: v, ..st }, None),
                Err(e) => (st, Some(e)),
            },
        )
    } else if key == "unwanted.replies".spec_bytes() {
        Some(
            match sp_u64(value) {
                Ok(v) => (StatisticsView { num_unwanted_replies: v, ..st }, None),
                Err(e) => (st, Some(e)),
            },
        )
    } else if key == "msg.cache.count".spec_bytes() {
        Some(
            match sp_u64(value) {
                Ok(v) => (
                    StatisticsView {
                        cache_count: crate::statistics::CacheCounter { message: v, ..st.cache_count },
                        ..st
                    },
                    None,
                ),
                Err(e) => (st, Some(e)),
            },
        )
    } else if key == "rrset.cache.count".spec_bytes() {
        Some(
            match sp_u64(value) {
                Ok(v) => (
                    StatisticsView {
                        cache_count: crate::statistics::CacheCounter { rrset: v, ..st.cache_count },
                        ..st
                    },
                    None,
                ),
                Err(e) => (st, Some(e)),
            },
        )
    } else if key == "infra.cache.count".spec_bytes() {
        Some(
            match sp_u64(value) {
                Ok(v) => (
                    StatisticsView {
                        cache_count: crate::statistics::CacheCounter { infra: v, ..st.cache_count },
                        ..st
                    },
                    None,
                ),
                Err(e) => (st, Some(e)),
            },
        )
    } else if key == "key.cache.count".spec_bytes() {
        Some(
            match sp_u64(value) {
                Ok(v) => (
                    StatisticsView {
                        cache_count: crate::statistics::CacheCounter { key: v, ..st.cache_count },
                        ..st
                    },
                    None,
                ),
                Err(e) => (st, Some(e)),
            },
        )
    } else if key == "dnscrypt_shared_secret.cache.count".spec_bytes() {
        Some(
            match sp_u64(value) {
                Ok(v) => (
                    StatisticsView {
                        cache_count: crate::statistics::CacheCounter {
                            dnscrypt_shared_secret: v,
                            ..st.cache_count
                        },
                        ..st
                    },
                    None,
                ),
                Err(e) => (st, Some(e)),
            },
        )
    } else if key == "dnscrypt_nonce.cache.count".spec_bytes() {
        Some(
            match sp_u64(value) {
                Ok(v) => (
                    StatisticsView {
                        cache_count: crate::statistics::CacheCounter {
                            dnscrypt_nonce: v,
                            ..st.cache_count
                        },
                        ..st
                    },
                    None,
                ),
                Err(e) => (st, Some(e)),
            },
        )
    } else if key == "num.query.dnscrypt.shared_secret.cachemiss".spec_bytes() {
        Some(
            match sp_u64(value) {
                Ok(v) => (
                    StatisticsView { num_query_dnscrypt_shared_secret_cache_miss: v, ..st },
                    None,
                ),
                Err(e) => (st, Some(e)),
            },
        )
    } else if key == "num.query.dnscrypt.replay".spec_bytes() {
        Some(
            match sp_u64(value) {
                Ok(v) => (StatisticsView { num_query_dnscrypt_replay: v, ..st }, None),
                Err(e) => (st, Some(e)),
            },
        )
    } else if key == "num.query.authzone.up".spec_bytes() {
        Some(
            match sp_u64(value) {
                Ok(v) => (StatisticsView { num_query_authzone_up: v, ..st }, None),
                Err(e) => (st, Some(e)),
            },
        )
    } else if key == "num.query.authzone.down".spec_bytes() {
        Some(
            match sp_u64(value) {
                Ok(v) => (StatisticsView { num_query_authzone_down: v, ..st }, None),
                Err(e) => (st, Some(e)),
            },
        )
    } else if key == "num.query.subnet".spec_bytes() {
        Some(
            match sp_u64(value) {
                Ok(v) => (StatisticsView { num_query_subnet: v, ..st }, None),
                Err(e) => (st, Some(e)),
            },
        )
    } else if key == "num.query.subnet_cache".spec_bytes() {
        Some(
            match sp_u64(value) {
                Ok(v) => (StatisticsView { num_query_subnet_cache: v, ..st }, None),
                Err(e) => (st, Some(e)),
            },
        )
    } else {
        None
    }
}

/// Apply an arm of the answer and cache-count table, when one matches.
#[verifier::rlimit(100)]
fn other_c(stats: &mut Statistics, key: &[u8], value: &[u8]) -> (r: Option<Result<(), ParseError>>)
    ensures
        match spec_other_c(old(stats)@, key@, value@) {
            Some(p) => {
                &&& final(stats)@ == p.0
                &&& match r {
                    Some(Ok(u)) => p.1 is None,
                    Some(Err(e)) => p.1 == Some(e@),
                    None => false,
                }
            },
            None => r is None && final(stats)@ == old(stats)@,
        },
{
    proof {
        reveal(spec_other_c);
    }
    if bytes_eq(key, "num.answer.rcode.nodata".as_bytes()) {
        Some(Ok(()))
    } else if has_prefix(key, "num.answer.rcode.".as_bytes()) {
        match parse_rcode(last_segment_slice(key)) {
            Some(code) => match parse_u64(value) {
                Some(v) => {
                    insert_rcode(&mut stats.answer_rcodes, code, v);
                    Some(Ok(()))
                },
                None => Some(Err(ParseError::ParseInt)),
            },
            None => Some(Err(ParseError::UnknownKey { key: vstd::slice::slice_to_vec(key) })),
        }
    } else if bytes_eq(key, "num.query.ratelimited".as_bytes()) {
        Some(parse_into_u64(&mut stats.num_query_rate_limited, value))
    } else if bytes_eq(key, "num.answer.secure".as_bytes()) {
        Some(parse_into_u64(&mut stats.num_answer_secure, value))
    } else if bytes_eq(key, "num.answer.bogus".as_bytes()) {
        Some(parse_into_u64(&mut stats.num_answer_bogus, value))
    } else if bytes_eq(key, "num.rrset.bogus".as_bytes()) {
        Some(parse_into_u64(&mut stats.num_rrset_bogus, value))
    } else if has_prefix(key, "num.query.aggressive.".as_bytes()) {
        match parse_rcode(last_segment_slice(key)) {
            Some(code) => match parse_u64(value) {
                Some(v) => {
                    insert_rcode(&mut stats.query_aggressive, code, v);
                    Some(Ok(()))
                },
                None => Some(Err(ParseError::ParseInt)),
            },
            None => Some(Err(ParseError::UnknownKey { key: vstd::slice::slice_to_vec(key) })),
        }
    } else if bytes_eq(key, "unwanted.queries".as_bytes()) {
        Some(parse_into_u64(&mut stats.num_unwanted_queries, value))
    } else if bytes_eq(key, "unwanted.replies".as_bytes()) {
        Some(parse_into_u64(&mut stats.num_unwanted_replies, value))
    } else if bytes_eq(key, "msg.cache.count".as_bytes()) {
        Some(parse_into_u64(&mut stats.cache_count.message, value))
    } else if bytes_eq(key, "rrset.cache.count".as_bytes()) {
        Some(parse_into_u64(&mut stats.cache_count.rrset, value))
    } else if bytes_eq(key, "infra.cache.count".as_bytes()) {
        Some(parse_into_u64(&mut stats.cache_count.infra, value))
    } else if bytes_eq(key, "key.cache.count".as_bytes()) {
        Some(parse_into_u64(&mut stats.cache_count.key, value))
    } else if bytes_eq(key, "dnscrypt_shared_secret.cache.count".as_bytes()) {
        Some(parse_into_u64(&mut stats.cache_count.dnscrypt_shared_secret, value))
    } else if bytes_eq(key, "dnscrypt_nonce.cache.count".as_bytes()) {
        Some(parse_into_u64(&mut stats.cache_count.dnscrypt_nonce, value))
    } else if bytes_eq(key, "num.query.dnscrypt.shared_secret.cachemiss".as_bytes()) {
        Some(parse_into_u64(&mut stats.num_query_dnscrypt_shared_secret_cache_miss, value))
    } else if bytes_eq(key, "num.query.dnscrypt.replay".as_bytes()) {
        Some(parse_into_u64(&mut stats.num_query_dnscrypt_replay, value))
    } else if bytes_eq(key, "num.query.authzone.up".as_bytes()) {
        Some(parse_into_u64(&mut stats.num_query_authzone_up, value))
    } else if bytes_eq(key, "num.query.authzone.down".as_bytes()) {
        Some(parse_into_u64(&mut stats.num_query_authzone_down, value))
    } else if bytes_eq(key, "num.query.subnet".as_bytes()) {
        Some(parse_into_u64(&mut stats.num_query_subnet, value))
    } else if bytes_eq(key, "num.query.subnet_cache".as_bytes()) {
        Some(parse_into_u64(&mut stats.num_query_subnet_cache, value))
    } else {
        None
    }
}

/// What one line of the flat `other` namespace does to the snapshot:
/// the first matching arm of the three table parts, or a recoverable
/// unknown-key failure.
pub open spec fn spec_other(st: StatisticsView, key: Seq<u8>, value: Seq<u8>) -> (
    StatisticsView,
    Option<ParseErrorView>,
) {
    match spec_other_a(st, key, value) {
        Some(p) => p,
        None => match spec_other_b(st, key, value) {
            Some(p) => p,
            None => match spec_other_c(st, key, value) {
                Some(p) => p,
                None => (st, Some(ParseErrorView::UnknownKey { key })),
            },
        },
    }
}

/// Apply one line of the flat `other` namespace.
fn other_field(stats: &mut Statistics, key: &[u8], value: &[u8]) -> (r: Result<(), ParseError>)
    ensures
        ({
            let p = spec_other(old(stats)@, key@, value@);
            &&& final(stats)@ == p.0
            &&& match r {
                Ok(u) => p.1 is None,
                Err(e) => p.1 == Some(e@),
            }
        }),
{
    match other_a(stats, key, value) {
        Some(r) => r,
        None => match other_b(stats, key, value) {
            Some(r) => r,
            None => match other_c(stats, key, value) {
                Some(r) => r,
                None => Err(ParseError::UnknownKey { key: vstd::slice::slice_to_vec(key) }),
            },
        },
    }
}

/// What one `histogram.*` line does: the fourth dot-segment of the key
/// is the bucket's upper bound in seconds, the value its count.
pub open spec fn spec_histogram_field(h: HistogramView, key: Seq<u8>, value: Seq<u8>) -> Result<
    HistogramView,
    ParseErrorView,
> {
    let d1 = byte_index(key, 46);
    if d1 == key.len() {
        Err(ParseErrorView::InvalidFormat)
    } else {
        let d2 = d1 + 1 + byte_index(key.skip(d1 + 1), 46);
        if d2 == key.len() {
            Err(ParseErrorView::InvalidFormat)
        } else {
            let d3 = d2 + 1 + byte_index(key.skip(d2 + 1), 46);
            if d3 == key.len() {
                Err(ParseErrorView::InvalidFormat)
            } else {
                match spec_parse_fixed(key.skip(d3 + 1)) {
                    FixedParse::Malformed => Err(ParseErrorView::ParseFloat),
                    FixedParse::OutOfRange => Err(ParseErrorView::InvalidFormat),
                    FixedParse::Value(n) => match spec_parse_u64(value) {
                        None => Err(ParseErrorView::ParseInt),
                        Some(v) => Ok(
                            HistogramView {
                                buckets: h.buckets.push((Nanos { nanos: n }, v)),
                                average: h.average,
                            },
                        ),
                    },
                }
            }
        }
    }
}

/// Record one histogram bucket line into the accumulator.
fn histogram_field(h: &mut crate::histogram::Histogram, key: &[u8], value: &[u8]) -> (r: Result<
    (),
    ParseError,
>)
    ensures
        match spec_histogram_field(old(h)@, key@, value@) {
            Ok(h2) => r is Ok && final(h)@ == h2,
            Err(e) => r matches Err(a) && a@ == e && final(h)@ == old(h)@,
        },
{
    let d1 = find_byte(key, 0, 46u8);
    proof {
        assert(key@.skip(0) =~= key@);
    }
    if d1 == key.len() {
        return Err(ParseError::InvalidFormat);
    }
    let d2 = find_byte(key, d1 + 1, 46u8);
    if d2 == key.len() {
        return Err(ParseError::InvalidFormat);
    }
    let d3 = find_byte(key, d2 + 1, 46u8);
    if d3 == key.len() {
        return Err(ParseError::InvalidFormat);
    }
    let bound = vstd::slice::slice_subrange(key, d3 + 1, key.len());
    proof {
        assert(bound@ =~= key@.skip(d3 + 1));
    }
    match parse_fixed(bound) {
        FixedParse::Malformed => Err(ParseError::ParseFloat),
        FixedParse::OutOfRange => Err(ParseError::InvalidFormat),
        FixedParse::Value(n) => match parse_u64(value) {
            None => Err(ParseError::ParseInt),
            Some(v) => {
                h.push(Nanos { nanos: n }, v);
                Ok(())
            },
        },
    }
}

/// The thread sequence grown with zero-valued records to hold at least
/// `n` entries; an already long enough sequence is left alone.
pub open spec fn spec_ensure_len(ts: Seq<Thread>, n: int) -> Seq<Thread> {
    if ts.len() >= n {
        ts
    } else {
        ts + Seq::new((n - ts.len()) as nat, |i: int| crate::statistics::thread_init())
    }
}

/// What one `thread<N>.*` line does: decode the thread index, grow the
/// thread collection to hold it, and apply the field assignment; the
/// growth persists even when the field is unknown or malformed.
pub open spec fn spec_thread_line(
    st: StatisticsView,
    prefix: Seq<u8>,
    postfix: Seq<u8>,
    value: Seq<u8>,
) -> (StatisticsView, Option<ParseErrorView>) {
    match spec_parse_u64(prefix.skip("thread".spec_bytes().len() as int)) {
        None => (st, Some(ParseErrorView::ParseInt)),
        Some(id) => if id > usize::MAX as u64 {
            (st, Some(ParseErrorView::ParseInt))
        } else {
            let grown = spec_ensure_len(st.threads, id as int + 1);
            match spec_thread_field(grown[id as int], postfix, value) {
                Ok(t) => (
                    StatisticsView { threads: grown.update(id as int, t), ..st },
                    None,
                ),
                Err(e) => (StatisticsView { threads: grown, ..st }, Some(e)),
            }
        },
    }
}

/// What one non-empty, trimmed line does to the snapshot: the next
/// snapshot, and the failure if the line did not decode.
///
/// The line splits at the first `=` into a dotted key and a value, and
/// the key dispatches on its first dot-segment: the aggregate record,
/// a per-thread record, the histogram, or the flat key table.
#[verifier::opaque]
pub open spec fn spec_feed(st: StatisticsView, line: Seq<u8>) -> (
    StatisticsView,
    Option<ParseErrorView>,
) {
    let eq = byte_index(line, 61);
    if eq == line.len() {
        (st, Some(ParseErrorView::MissingValue { key: line }))
    } else if eq == 0 {
        (st, Some(ParseErrorView::MissingKey))
    } else {
        let key = line.take(eq);
        let value = line.skip(eq + 1);
        let dot = byte_index(key, 46);
        if dot == key.len() {
            (st, Some(ParseErrorView::InvalidFormat))
        } else {
            let prefix = key.take(dot);
            let postfix = key.skip(dot + 1);
            if prefix == "total".spec_bytes() {
                match spec_thread_field(st.total, postfix, value) {
                    Ok(t) => (StatisticsView { total: t, ..st }, None),
                    Err(e) => (st, Some(e)),
                }
            } else if spec_has_prefix(prefix, "thread".spec_bytes()) {
                spec_thread_line(st, prefix, postfix, value)
            } else if prefix == "histogram".spec_bytes() {
                match spec_histogram_field(st.histogram, postfix, value) {
                    Ok(h2) => (StatisticsView { histogram: h2, ..st }, None),
                    Err(e) => (st, Some(e)),
                }
            } else {
                spec_other(st, key, value)
            }
        }
    }
}

/// Parser for [`Statistics`] from the text representation.
///
/// This representation can be obtained from the resolver's Unix or TLS
/// remote-control socket.
#[derive(Debug)]
pub struct Parser {
    stats: Statistics,
}

impl View for Parser {
    type V = StatisticsView;

    closed spec fn view(&self) -> StatisticsView {
        self.stats@
    }
}

impl Parser {
    /// A parser over the empty snapshot.
    pub fn new() -> (r: Parser)
        ensures
            r@ == statistics_init(),
    {
        Parser { stats: Statistics::default() }
    }

    /// Hand the parser its snapshot, as accumulated so far.
    pub fn finish(self) -> (r: Result<Statistics, ParseError>)
        ensures
            r matches Ok(stats) && stats@ == self@,
    {
        Ok(self.stats)
    }

    /// Feed one line.
    ///
    /// The snapshot is advanced as the line directs; on failure the
    /// failure is returned, and a recoverable unknown key still leaves
    /// any thread-collection growth in place.
    pub fn feed_line(&mut self, line: &str) -> (r: Result<(), ParseError>)
        ensures
            ({
                let p = spec_feed(old(self)@, line.spec_bytes());
                &&& final(self)@ == p.0
                &&& match r {
                    Ok(u) => p.1 is None,
                    Err(e) => p.1 == Some(e@),
                }
            }),
    {
        self.feed_slice(line.as_bytes())
    }

    /// Feed one line, as bytes.
    fn feed_slice(&mut self, line: &[u8]) -> (r: Result<(), ParseError>)
        ensures
            ({
                let p = spec_feed(old(self)@, line@);
                &&& final(self)@ == p.0
                &&& match r {
                    Ok(u) => p.1 is None,
                    Err(e) => p.1 == Some(e@),
                }
            }),
    {
        proof {
            reveal(spec_feed);
            assert(line@.skip(0) =~= line@);
        }
        let eq = find_byte(line, 0, 61u8);
        if eq == line.len() {
            return Err(ParseError::MissingValue { key: vstd::slice::slice_to_vec(line) });
        }
        if eq == 0 {
            return Err(ParseError::MissingKey);
        }
        let key = vstd::slice::slice_subrange(line, 0, eq);
        let value = vstd::slice::slice_subrange(line, eq + 1, line.len());
        proof {
            assert(key@ =~= line@.take(eq as int));
            assert(value@ =~= line@.skip(eq + 1));
            assert(key@.skip(0) =~= key@);
        }
        let dot = find_byte(key, 0, 46u8);
        if dot == key.len() {
            return Err(ParseError::InvalidFormat);
        }
        let prefix = vstd::slice::slice_subrange(key, 0, dot);
        let postfix = vstd::slice::slice_subrange(key, dot + 1, key.len());
        proof {
            assert(prefix@ =~= key@.take(dot as int));
            assert(postfix@ =~= key@.skip(dot + 1));
        }
        if bytes_eq(prefix, "total".as_bytes()) {
            thread_field(&mut self.stats.total, postfix, value)
        } else if has_prefix(prefix, "thread".as_bytes()) {
            let tb = "thread".as_bytes();
            let idx_bytes = vstd::slice::slice_subrange(prefix, tb.len(), prefix.len());
            proof {
                assert(idx_bytes@ =~= prefix@.skip("thread".spec_bytes().len() as int));
            }
            match parse_u64(idx_bytes) {
                None => Err(ParseError::ParseInt),
                Some(id) => {
                    if id > usize::MAX as u64 {
                        return Err(ParseError::ParseInt);
                    }
                    let idx = id as usize;
                    self.grow_threads(idx);
                    proof {
                        assert(self.stats.threads@ == spec_ensure_len(
                            old(self)@.threads,
                            id as int + 1,
                        ));
                    }
                    let ghost grown = self.stats.threads@;
                    let entry = vstd::std_specs::vec::vec_index_mut(&mut self.stats.threads, idx);
                    let r = thread_field(entry, postfix, value);
                    proof {
                        if r is Ok {
                        } else {
                            assert(grown.update(idx as int, grown[idx as int]) =~= grown);
                        }
                    }
                    r
                },
            }
        } else if bytes_eq(prefix, "histogram".as_bytes()) {
            histogram_field(&mut self.stats.histogram, postfix, value)
        } else {
            other_field(&mut self.stats, key, value)
        }
    }

    /// Grow the thread collection with zero-valued records until index
    /// `idx` exists.
    fn grow_threads(&mut self, idx: usize)
        ensures
            final(self).stats.threads@ == spec_ensure_len(
                old(self).stats.threads@,
                idx as int + 1,
            ),
            final(self).stats == (Statistics {
                threads: final(self).stats.threads,
                ..old(self).stats
            }),
            idx < final(self).stats.threads@.len(),
    {
        let ghost t0 = self.stats.threads@;
        proof {
            assert(t0 + Seq::new(0, |i: int| crate::statistics::thread_init()) =~= t0);
        }
        while self.stats.threads.len() <= idx
            invariant
                self.stats.threads@.len() <= idx + 1 || self.stats.threads@ == t0,
                self.stats.threads@.len() >= t0.len(),
                self.stats.threads@ == t0 + Seq::new(
                    (self.stats.threads@.len() - t0.len()) as nat,
                    |i: int| crate::statistics::thread_init(),
                ),
                self.stats == (Statistics { threads: self.stats.threads, ..old(self).stats }),
            decreases idx + 1 - self.stats.threads@.len(),
        {
            self.stats.threads.push(Thread::default());
            proof {
                let n = self.stats.threads@.len();
                assert(self.stats.threads@ =~= t0 + Seq::new(
                    (n - t0.len()) as nat,
                    |i: int| crate::statistics::thread_init(),
                ));
            }
        }
        proof {
            if t0.len() >= idx + 1 {
                assert(self.stats.threads@ == t0);
                assert(spec_ensure_len(t0, idx as int + 1) == t0);
            } else {
                assert(self.stats.threads@.len() == idx + 1);
                assert(self.stats.threads@ =~= spec_ensure_len(t0, idx as int + 1));
            }
        }
    }
}

/// The whitespace bytes that line trimming removes.
pub open spec fn is_ws(b: u8) -> bool {
    b == 32 || b == 9 || b == 10 || b == 11 || b == 12 || b == 13
}

/// `l` without its leading whitespace.
pub open spec fn trim_start(l: Seq<u8>) -> Seq<u8>
    decreases l.len(),
{
    if l.len() > 0 && is_ws(l[0]) {
        trim_start(l.drop_first())
    } else {
        l
    }
}

/// `l` without its trailing whitespace.
pub open spec fn trim_end(l: Seq<u8>) -> Seq<u8>
    decreases l.len(),
{
    if l.len() > 0 && is_ws(l.last()) {
        trim_end(l.drop_last())
    } else {
        l
    }
}

/// `l` without leading and trailing whitespace.
pub open spec fn spec_trim(l: Seq<u8>) -> Seq<u8> {
    trim_end(trim_start(l))
}

/// Trimming from the start stops at the first non-whitespace byte.
proof fn lemma_trim_start_at(l: Seq<u8>, a: int)
    requires
        0 <= a <= l.len(),
        forall|j: int| 0 <= j < a ==> is_ws(l[j]),
        a == l.len() || !is_ws(l[a]),
    ensures
        trim_start(l) == l.skip(a),
    decreases l.len(),
{
    if a == 0 {
        assert(l.skip(0) =~= l);
    } else {
        assert(is_ws(l[0]));
        assert forall|j: int| 0 <= j < a - 1 implies is_ws(l.drop_first()[j]) by {
            assert(l.drop_first()[j] == l[j + 1]);
        }
        if a < l.len() {
            assert(l.drop_first()[a - 1] == l[a]);
        }
        lemma_trim_start_at(l.drop_first(), a - 1);
        assert(l.drop_first().skip(a - 1) =~= l.skip(a));
    }
}

/// Trimming from the end stops at the last non-whitespace byte.
proof fn lemma_trim_end_at(l: Seq<u8>, k: int)
    requires
        0 <= k <= l.len(),
        forall|j: int| k <= j < l.len() ==> is_ws(l[j]),
        k == 0 || !is_ws(l[k - 1]),
    ensures
        trim_end(l) == l.take(k),
    decreases l.len(),
{
    if k == l.len() {
        assert(l.take(k) =~= l);
    } else {
        assert(is_ws(l.last()));
        assert forall|j: int| k <= j < l.drop_last().len() implies is_ws(l.drop_last()[j]) by {
            assert(l.drop_last()[j] == l[j]);
        }
        if k > 0 {
            assert(l.drop_last()[k - 1] == l[k - 1]);
        }
        lemma_trim_end_at(l.drop_last(), k);
        assert(l.drop_last().take(k) =~= l.take(k));
    }
}

/// Is this byte trimmed whitespace?
fn is_ws_byte(b: u8) -> (r: bool)
    ensures
        r == is_ws(b),
{
    b == 32u8 || b == 9u8 || b == 10u8 || b == 11u8 || b == 12u8 || b == 13u8
}

/// The trimmed view of one line.
fn trim_slice<'a>(line: &'a [u8]) -> (r: &'a [u8])
    ensures
        r@ == spec_trim(line@),
{
    let mut a: usize = 0;
    while a < line.len() && is_ws_byte(line[a])
        invariant
            a <= line@.len(),
            forall|j: int| 0 <= j < a ==> is_ws(#[trigger] line@[j]),
        decreases line@.len() - a,
    {
        a = a + 1;
    }
    proof {
        lemma_trim_start_at(line@, a as int);
    }
    let mut b: usize = line.len();
    while b > a && is_ws_byte(line[b - 1])
        invariant
            a <= b <= line@.len(),
            forall|j: int| b <= j < line@.len() ==> is_ws(#[trigger] line@[j]),
        decreases b,
    {
        b = b - 1;
    }
    let ghost s = line@.skip(a as int);
    proof {
        assert forall|j: int| b - a <= j < s.len() implies is_ws(#[trigger] s[j]) by {
            assert(s[j] == line@[a + j]);
        }
        if b > a {
            assert(s[b - a - 1] == line@[b - 1]);
        }
        lemma_trim_end_at(s, b - a);
    }
    let r = vstd::slice::slice_subrange(line, a, b);
    proof {
        assert(r@ =~= s.take(b - a));
    }
    r
}

/// What feeding a whole text does: each line trimmed and fed in order,
/// empty lines and unknown keys skipped, any other failure aborting.
pub open spec fn spec_run(st: StatisticsView, b: Seq<u8>) -> Result<
    StatisticsView,
    ParseErrorView,
>
    decreases b.len(),
    via spec_run_decreases
{
    if b.len() == 0 {
        Ok(st)
    } else {
        let k = byte_index(b, 10);
        let line = b.take(k);
        let rest = if k < b.len() {
            b.skip(k + 1)
        } else {
            Seq::empty()
        };
        let t = spec_trim(line);
        if t.len() == 0 {
            spec_run(st, rest)
        } else {
            let p = spec_feed(st, t);
            match p.1 {
                None => spec_run(p.0, rest),
                Some(e) => if e is UnknownKey {
                    spec_run(p.0, rest)
                } else {
                    Err(e)
                },
            }
        }
    }
}

#[via_fn]
proof fn spec_run_decreases(st: StatisticsView, b: Seq<u8>) {
    crate::bytes::lemma_byte_index_le(b, 10);
}

/// What parsing a whole text yields: the snapshot after all lines, its
/// histogram average copied from the aggregate record's recursion-time
/// average, or the first fatal failure.
pub open spec fn spec_parse_from(st: StatisticsView, b: Seq<u8>) -> Result<
    StatisticsView,
    ParseErrorView,
> {
    match spec_run(st, b) {
        Ok(st2) => Ok(
            StatisticsView {
                histogram: HistogramView {
                    average: st2.total.recursion_time_avg,
                    buckets: st2.histogram.buckets,
                },
                ..st2
            },
        ),
        Err(e) => Err(e),
    }
}

/// What parsing a whole text from the empty snapshot yields.
pub open spec fn spec_parse(b: Seq<u8>) -> Result<StatisticsView, ParseErrorView> {
    spec_parse_from(statistics_init(), b)
}

impl Parser {
    /// Consume the whole text and produce the snapshot.
    ///
    /// Lines are trimmed; empty lines and lines with unknown keys are
    /// skipped; any other malformed line aborts with its failure.
    /// After all lines, the histogram's average is copied from the
    /// aggregate record, since aggregate fields may arrive after
    /// histogram lines.
    pub fn parse(self, s: &str) -> (r: Result<Statistics, ParseError>)
        ensures
            ({
                let res = spec_parse_from(self@, s.spec_bytes());
                match r {
                    Ok(stats) => res == Ok::<StatisticsView, ParseErrorView>(stats@),
                    Err(e) => res == Err::<StatisticsView, ParseErrorView>(e@),
                }
            }),
    {
        let ghost st0 = self@;
        let mut p = self;
        let bytes = s.as_bytes();
        let ghost b0 = s.spec_bytes();
        let mut pos: usize = 0;
        proof {
            assert(b0.skip(0) =~= b0);
        }
        while pos < bytes.len()
            invariant
                pos <= b0.len(),
                bytes@ == b0,
                st0 == self@,
                b0 == s.spec_bytes(),
                spec_run(st0, b0) == spec_run(p@, b0.skip(pos as int)),
            decreases b0.len() - pos,
        {
            let ghost rem = b0.skip(pos as int);
            let nl = find_byte(bytes, pos, 10u8);
            let line = vstd::slice::slice_subrange(bytes, pos, nl);
            proof {
                assert(line@ =~= rem.take(nl - pos));
            }
            let next: usize = if nl < bytes.len() {
                nl + 1
            } else {
                nl
            };
            proof {
                if nl < bytes.len() {
                    assert(b0.skip(nl + 1) =~= rem.skip((nl - pos) + 1));
                } else {
                    assert(b0.skip(nl as int) =~= Seq::<u8>::empty());
                }
            }
            let trimmed = trim_slice(line);
            if trimmed.len() == 0 {
                pos = next;
            } else {
                let ghost pre = p@;
                match p.feed_slice(trimmed) {
                    Ok(u) => {
                        pos = next;
                    },
                    Err(e) => {
                        let keep_going = matches!(e, ParseError::UnknownKey { .. });
                        proof {
                            let fr = spec_feed(pre, trimmed@);
                            assert(fr.1 == Some(e@));
                            assert(keep_going == (e@ is UnknownKey));
                            assert(spec_run(pre, rem) == if keep_going {
                                spec_run(fr.0, if nl < bytes@.len() {
                                    rem.skip((nl - pos) + 1)
                                } else {
                                    Seq::<u8>::empty()
                                })
                            } else {
                                Err::<StatisticsView, ParseErrorView>(e@)
                            });
                        }
                        if keep_going {
                            pos = next;
                        } else {
                            proof {
                                assert(spec_run(st0, b0) == Err::<
                                    StatisticsView,
                                    ParseErrorView,
                                >(e@));
                                assert(spec_parse_from(st0, b0) == Err::<
                                    StatisticsView,
                                    ParseErrorView,
                                >(e@));
                            }
                            return Err(e);
                        }
                    },
                }
            }
        }
        proof {
            assert(b0.skip(pos as int) =~= Seq::<u8>::empty());
        }
        let avg = p.stats.total.recursion_time_avg;
        p.stats.histogram.set_average(avg);
        Ok(p.stats)
    }
}

impl Default for Parser {
    /// A parser over the empty snapshot.
    fn default() -> (r: Self)
        ensures
            r@ == statistics_init(),
    {
        Parser { stats: Statistics::default() }
    }
}

impl core::str::FromStr for Statistics {
    type Err = ParseError;

    /// Parse a whole statistics text into a snapshot.
    fn from_str(s: &str) -> Result<Statistics, ParseError> {
        Parser::new().parse(s)
    }
}

/// Law: parsing is deterministic.  Re-parsing identical text yields a
/// snapshot with identical field values.
pub proof fn lemma_parse_deterministic(a: Seq<u8>, b: Seq<u8>)
    requires
        a == b,
    ensures
        spec_parse(a) == spec_parse(b),
{
}

/// The input text split into lines at newline bytes.
pub open spec fn spec_lines(b: Seq<u8>) -> Seq<Seq<u8>>
    decreases b.len(),
    via spec_lines_decreases
{
    if b.len() == 0 {
        Seq::empty()
    } else {
        let k = byte_index(b, 10);
        seq![b.take(k)] + (if k < b.len() {
            spec_lines(b.skip(k + 1))
        } else {
            Seq::empty()
        })
    }
}

#[via_fn]
proof fn spec_lines_decreases(b: Seq<u8>) {
    crate::bytes::lemma_byte_index_le(b, 10);
}

/// Feeding a sequence of lines: each trimmed and fed in order, empty
/// lines and unknown keys skipped, any other failure aborting.
pub open spec fn run_lines(st: StatisticsView, ls: Seq<Seq<u8>>) -> Result<
    StatisticsView,
    ParseErrorView,
>
    decreases ls.len(),
{
    if ls.len() == 0 {
        Ok(st)
    } else {
        let t = spec_trim(ls[0]);
        if t.len() == 0 {
            run_lines(st, ls.drop_first())
        } else {
            let p = spec_feed(st, t);
            match p.1 {
                None => run_lines(p.0, ls.drop_first()),
                Some(e) => if e is UnknownKey {
                    run_lines(p.0, ls.drop_first())
                } else {
                    Err(e)
                },
            }
        }
    }
}

/// Feeding a whole text is feeding its lines.
pub proof fn lemma_run_is_run_lines(st: StatisticsView, b: Seq<u8>)
    ensures
        spec_run(st, b) == run_lines(st, spec_lines(b)),
    decreases b.len(),
{
    crate::bytes::lemma_byte_index_le(b, 10);
    if b.len() == 0 {
    } else {
        let k = byte_index(b, 10);
        let rest = if k < b.len() {
            b.skip(k + 1)
        } else {
            Seq::<u8>::empty()
        };
        assert(spec_lines(b)[0] == b.take(k));
        assert(spec_lines(b).drop_first() =~= spec_lines(rest));
        let t = spec_trim(b.take(k));
        if t.len() == 0 {
            lemma_run_is_run_lines(st, rest);
        } else {
            let p = spec_feed(st, t);
            match p.1 {
                None => {
                    lemma_run_is_run_lines(p.0, rest);
                },
                Some(e) => {
                    if e is UnknownKey {
                        lemma_run_is_run_lines(p.0, rest);
                    }
                },
            }
        }
    }
}

/// Is this failure the recoverable unknown-key kind?
pub open spec fn is_unknown_err(e: Option<ParseErrorView>) -> bool {
    match e {
        Some(x) => x is UnknownKey,
        None => false,
    }
}

/// A line whose key no dispatch table knows and whose feeding changes
/// no state: it is skipped wherever it stands.
pub open spec fn feed_skips(line: Seq<u8>) -> bool {
    &&& spec_trim(line).len() > 0
    &&& forall|s2: StatisticsView| (#[trigger] spec_feed(s2, spec_trim(line))).0 == s2
    &&& forall|s2: StatisticsView| is_unknown_err((#[trigger] spec_feed(s2, spec_trim(line))).1)
}

/// Law: unknown keys never abort parsing.  A line whose key no table
/// knows can be inserted anywhere among a text's lines, and the
/// remaining lines decode to exactly the same snapshot as without it.
pub proof fn lemma_unknown_line_skipped(
    st: StatisticsView,
    ls: Seq<Seq<u8>>,
    i: int,
    l: Seq<u8>,
)
    requires
        0 <= i <= ls.len(),
        feed_skips(l),
    ensures
        run_lines(st, ls.insert(i, l)) == run_lines(st, ls),
    decreases ls.len(),
{
    let ls2 = ls.insert(i, l);
    if i == 0 {
        assert(ls2[0] == l);
        assert(ls2.drop_first() =~= ls);
        assert(spec_feed(st, spec_trim(l)).0 == st);
        assert(is_unknown_err(spec_feed(st, spec_trim(l)).1));
    } else {
        assert(ls.len() > 0);
        assert(ls2[0] == ls[0]);
        assert(ls2.drop_first() =~= ls.drop_first().insert(i - 1, l));
        let t = spec_trim(ls[0]);
        if t.len() == 0 {
            lemma_unknown_line_skipped(st, ls.drop_first(), i - 1, l);
        } else {
            let p = spec_feed(st, t);
            match p.1 {
                None => {
                    lemma_unknown_line_skipped(p.0, ls.drop_first(), i - 1, l);
                },
                Some(e) => {
                    if e is UnknownKey {
                        lemma_unknown_line_skipped(p.0, ls.drop_first(), i - 1, l);
                    }
                },
            }
        }
    }
}

/// The pieces of a well-formed per-thread line: the thread index, the
/// field key, and the value text.
pub open spec fn spec_thread_line_parts(line: Seq<u8>) -> Option<(u64, Seq<u8>, Seq<u8>)> {
    let eq = byte_index(line, 61);
    if eq == line.len() || eq == 0 {
        None
    } else {
        let key = line.take(eq);
        let value = line.skip(eq + 1);
        let dot = byte_index(key, 46);
        if dot == key.len() {
            None
        } else {
            let prefix = key.take(dot);
            let postfix = key.skip(dot + 1);
            if prefix != "total".spec_bytes() && spec_has_prefix(prefix, "thread".spec_bytes()) {
                match spec_parse_u64(prefix.skip("thread".spec_bytes().len() as int)) {
                    Some(id) => if id <= usize::MAX as u64 {
                        Some((id, postfix, value))
                    } else {
                        None
                    },
                    None => None,
                }
            } else {
                None
            }
        }
    }
}

/// Whether and how a thread field assignment fails depends on the key
/// and value alone, never on the record it lands in.
proof fn lemma_thread_field_uniform(t1: Thread, t2: Thread, key: Seq<u8>, value: Seq<u8>)
    ensures
        spec_thread_field(t1, key, value) is Ok <==> spec_thread_field(t2, key, value) is Ok,
        spec_thread_field(t1, key, value) is Err ==> spec_thread_field(t1, key, value)->Err_0
            == spec_thread_field(t2, key, value)->Err_0,
{
    reveal(spec_thread_field);
}

/// In the flat key table, whether an arm matches, whether it fails and
/// how are all independent of the snapshot, and a failing arm leaves
/// the snapshot alone.
proof fn lemma_other_a_uniform(s1: StatisticsView, s2: StatisticsView, key: Seq<u8>, value: Seq<u8>)
    ensures
        spec_other_a(s1, key, value) is Some <==> spec_other_a(s2, key, value) is Some,
        spec_other_a(s1, key, value) is Some ==> spec_other_a(s1, key, value)->Some_0.1
            == spec_other_a(s2, key, value)->Some_0.1,
        (spec_other_a(s1, key, value) is Some && spec_other_a(s1, key, value)->Some_0.1 is Some)
            ==> spec_other_a(s1, key, value)->Some_0.0 == s1,
{
    reveal(spec_other_a);
}

/// See `lemma_other_a_uniform`.
#[verifier::rlimit(100)]
proof fn lemma_other_b_uniform(s1: StatisticsView, s2: StatisticsView, key: Seq<u8>, value: Seq<u8>)
    ensures
        spec_other_b(s1, key, value) is Some <==> spec_other_b(s2, key, value) is Some,
        spec_other_b(s1, key, value) is Some ==> spec_other_b(s1, key, value)->Some_0.1
            == spec_other_b(s2, key, value)->Some_0.1,
        (spec_other_b(s1, key, value) is Some && spec_other_b(s1, key, value)->Some_0.1 is Some)
            ==> spec_other_b(s1, key, value)->Some_0.0 == s1,
{
    reveal(spec_other_b);
}

/// See `lemma_other_a_uniform`.
#[verifier::rlimit(100)]
proof fn lemma_other_c_uniform(s1: StatisticsView, s2: StatisticsView, key: Seq<u8>, value: Seq<u8>)
    ensures
        spec_other_c(s1, key, value) is Some <==> spec_other_c(s2, key, value) is Some,
        spec_other_c(s1, key, value) is Some ==> spec_other_c(s1, key, value)->Some_0.1
            == spec_other_c(s2, key, value)->Some_0.1,
        (spec_other_c(s1, key, value) is Some && spec_other_c(s1, key, value)->Some_0.1 is Some)
            ==> spec_other_c(s1, key, value)->Some_0.0 == s1,
{
    reveal(spec_other_c);
}

/// Does the line's key dispatch to a per-thread record?  Such a line
/// may grow the thread collection even when its field is unknown.
pub open spec fn is_thread_prefixed(line: Seq<u8>) -> bool {
    let eq = byte_index(line, 61);
    if eq == line.len() || eq == 0 {
        false
    } else {
        let key = line.take(eq);
        let dot = byte_index(key, 46);
        if dot == key.len() {
            false
        } else {
            let prefix = key.take(dot);
            prefix != "total".spec_bytes() && spec_has_prefix(prefix, "thread".spec_bytes())
        }
    }
}

/// A line outside the thread namespace that one snapshot reports an
/// unknown key for, without changing state, is skipped for every
/// snapshot: its unknownness depends on the key alone.
pub proof fn lemma_feed_skips_established(st0: StatisticsView, l: Seq<u8>)
    requires
        spec_trim(l).len() > 0,
        !is_thread_prefixed(spec_trim(l)),
        is_unknown_err(spec_feed(st0, spec_trim(l)).1),
    ensures
        feed_skips(l),
{
    reveal(spec_feed);
    let t = spec_trim(l);
    assert forall|s2: StatisticsView| (#[trigger] spec_feed(s2, t)).0 == s2 && is_unknown_err(
        spec_feed(s2, t).1,
    ) by {
        reveal(spec_feed);
        let eq = byte_index(t, 61);
        let key = t.take(eq);
        let value = t.skip(eq + 1);
        let dot = byte_index(key, 46);
        let prefix = key.take(dot);
        let postfix = key.skip(dot + 1);
        if eq == t.len() || eq == 0 || dot == key.len() {
        } else if prefix == "total".spec_bytes() {
            lemma_thread_field_uniform(st0.total, s2.total, postfix, value);
            assert(spec_feed(s2, t).0 == s2);
            assert(is_unknown_err(spec_feed(s2, t).1));
        } else if spec_has_prefix(prefix, "thread".spec_bytes()) {
            assert(false);
        } else if prefix == "histogram".spec_bytes() {
            assert(spec_feed(s2, t).0 == s2);
            assert(is_unknown_err(spec_feed(s2, t).1));
        } else {
            lemma_other_a_uniform(st0, s2, key, value);
            lemma_other_b_uniform(st0, s2, key, value);
            lemma_other_c_uniform(st0, s2, key, value);
            lemma_other_a_uniform(s2, st0, key, value);
            lemma_other_b_uniform(s2, st0, key, value);
            lemma_other_c_uniform(s2, st0, key, value);
        }
    }
}

/// Law: thread records are order-independent.  Two thread lines with
/// distinct indices decode to the same snapshot in either order.
pub proof fn lemma_thread_lines_commute(st: StatisticsView, la: Seq<u8>, lb: Seq<u8>)
    requires
        ({
            &&& spec_thread_line_parts(la) matches Some(pa)
            &&& spec_thread_line_parts(lb) matches Some(pb)
            &&& pa.0 != pb.0
            &&& spec_thread_field(crate::statistics::thread_init(), pa.1, pa.2) is Ok
            &&& spec_thread_field(crate::statistics::thread_init(), pb.1, pb.2) is Ok
        }),
    ensures
        spec_feed(spec_feed(st, la).0, lb).0 == spec_feed(spec_feed(st, lb).0, la).0,
        spec_feed(st, la).1 is None,
        spec_feed(st, lb).1 is None,
{
    reveal(spec_feed);
    let pa = spec_thread_line_parts(la)->Some_0;
    let pb = spec_thread_line_parts(lb)->Some_0;
    let ia = pa.0 as int;
    let ib = pb.0 as int;
    let t0 = st.threads;
    lemma_thread_field_uniform(
        crate::statistics::thread_init(),
        spec_ensure_len(t0, ia + 1)[ia],
        pa.1,
        pa.2,
    );
    lemma_thread_field_uniform(
        crate::statistics::thread_init(),
        spec_ensure_len(t0, ib + 1)[ib],
        pb.1,
        pb.2,
    );
    let sa = spec_feed(st, la).0;
    let sb = spec_feed(st, lb).0;
    lemma_thread_field_uniform(
        crate::statistics::thread_init(),
        spec_ensure_len(sa.threads, ib + 1)[ib],
        pb.1,
        pb.2,
    );
    lemma_thread_field_uniform(
        crate::statistics::thread_init(),
        spec_ensure_len(sb.threads, ia + 1)[ia],
        pa.1,
        pa.2,
    );
    let ta1 = spec_ensure_len(t0, ia + 1).update(
        ia,
        spec_thread_field(spec_ensure_len(t0, ia + 1)[ia], pa.1, pa.2)->Ok_0,
    );
    let tb1 = spec_ensure_len(t0, ib + 1).update(
        ib,
        spec_thread_field(spec_ensure_len(t0, ib + 1)[ib], pb.1, pb.2)->Ok_0,
    );
    assert(sa.threads == ta1);
    assert(sb.threads == tb1);
    let fin_a = spec_ensure_len(ta1, ib + 1).update(
        ib,
        spec_thread_field(spec_ensure_len(ta1, ib + 1)[ib], pb.1, pb.2)->Ok_0,
    );
    let fin_b = spec_ensure_len(tb1, ia + 1).update(
        ia,
        spec_thread_field(spec_ensure_len(tb1, ia + 1)[ia], pa.1, pa.2)->Ok_0,
    );
    // The entry each update starts from is the same in either order.
    assert(spec_ensure_len(ta1, ib + 1)[ib] == if ib < t0.len() {
        t0[ib]
    } else {
        crate::statistics::thread_init()
    });
    assert(spec_ensure_len(tb1, ia + 1)[ia] == if ia < t0.len() {
        t0[ia]
    } else {
        crate::statistics::thread_init()
    });
    assert(spec_ensure_len(t0, ia + 1)[ia] == if ia < t0.len() {
        t0[ia]
    } else {
        crate::statistics::thread_init()
    });
    assert(spec_ensure_len(t0, ib + 1)[ib] == if ib < t0.len() {
        t0[ib]
    } else {
        crate::statistics::thread_init()
    });
    assert forall|j: int| 0 <= j < fin_a.len() implies fin_a[j] == if j == ia {
        spec_thread_field(spec_ensure_len(t0, ia + 1)[ia], pa.1, pa.2)->Ok_0
    } else if j == ib {
        spec_thread_field(spec_ensure_len(t0, ib + 1)[ib], pb.1, pb.2)->Ok_0
    } else if j < t0.len() {
        t0[j]
    } else {
        crate::statistics::thread_init()
    } by {}
    assert forall|j: int| 0 <= j < fin_b.len() implies fin_b[j] == if j == ia {
        spec_thread_field(spec_ensure_len(t0, ia + 1)[ia], pa.1, pa.2)->Ok_0
    } else if j == ib {
        spec_thread_field(spec_ensure_len(t0, ib + 1)[ib], pb.1, pb.2)->Ok_0
    } else if j < t0.len() {
        t0[j]
    } else {
        crate::statistics::thread_init()
    } by {}
    assert(fin_a =~= fin_b);
    assert(spec_feed(sa, lb).0 =~= spec_feed(sb, la).0);
}

} // verus!
