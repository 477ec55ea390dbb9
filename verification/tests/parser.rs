//! Tests for the statistics text parser.

use unbound_telemetry::codes::{Class, Rcode};
use unbound_telemetry::parser::{ParseError, Parser};
use unbound_telemetry::Statistics;

static STATS: &str = "\
time.now=1580162982.458731
time.up=32586.213697
time.elapsed=32586.213697
mem.cache.rrset=443440
mem.cache.message=312898
mem.mod.iterator=16588
mem.mod.validator=140392
mem.mod.respip=0
mem.mod.subnet=0
mem.cache.dnscrypt_shared_secret=0
mem.cache.dnscrypt_nonce=0
mem.streamwait=0
mem.http.query_buffer=1024
mem.http.response_buffer=2048
num.query.type.TYPE0=21838
num.query.type.A=4576639648
num.query.type.NS=195714
num.query.type.MF=1
num.query.type.CNAME=223477
num.query.type.SOA=252841
num.query.type.MR=2
num.query.type.NULL=238628
num.query.type.WKS=230227
num.query.type.PTR=8446520
num.query.type.HINFO=231428
num.query.type.MX=34204
num.query.type.TXT=510353
num.query.type.AAAA=151992709
num.query.type.NXT=3
num.query.type.SRV=1883446
num.query.type.NAPTR=1578821
num.query.type.DS=215
num.query.type.DNSKEY=252
num.query.type.TYPE65=140375490
num.query.type.TYPE96=1
num.query.type.ANY=82558
num.query.class.CLASS0=2
num.query.class.IN=4882932525
num.query.class.CH=1073
num.query.class.HS=3
num.query.class.CLASS5=1
num.query.tcp=0
num.query.tcpout=2
num.query.tls=0
num.query.tls.resume=0
num.query.ipv6=0
num.query.https=10
num.query.flags.QR=0
num.query.flags.AA=0
num.query.flags.TC=0
num.query.flags.RD=1338
num.query.flags.RA=0
num.query.flags.Z=0
num.query.flags.AD=0
num.query.flags.CD=0
num.query.edns.present=0
num.query.edns.DO=0
num.answer.rcode.NOERROR=1315
num.answer.rcode.FORMERR=0
num.answer.rcode.SERVFAIL=0
num.answer.rcode.NXDOMAIN=23
num.answer.rcode.NOTIMPL=0
num.answer.rcode.REFUSED=0
thread0.num.queries=662
thread0.num.cachehits=562
thread0.num.cachemiss=100
thread1.num.queries=653
thread1.num.cachehits=553
thread1.num.cachemiss=100
";

static STATS_1_13_2: &str = "\
thread0.num.queries=105
thread0.num.queries_ip_ratelimited=0
thread0.num.cachehits=100
thread0.num.cachemiss=5
thread0.num.prefetch=0
thread0.num.expired=5
thread0.num.recursivereplies=5
thread0.requestlist.avg=0.5
thread0.requestlist.max=2
thread0.requestlist.overwritten=0
thread0.requestlist.exceeded=0
thread0.requestlist.current.all=0
thread0.requestlist.current.user=0
thread0.recursion.time.avg=0.280601
thread0.recursion.time.median=0.121212
thread0.tcpusage=0
total.num.queries=105
total.num.cachehits=100
total.num.cachemiss=5
total.num.expired=5
total.num.recursivereplies=5
total.requestlist.avg=0.5
total.requestlist.max=2
total.recursion.time.avg=0.280601
total.recursion.time.median=0.121212
total.tcpusage=0
time.now=1650000000.123456
time.up=100.512311
time.elapsed=100.512311
mem.cache.rrset=66560
mem.cache.message=66560
mem.mod.iterator=16588
mem.mod.validator=140392
mem.streamwait=0
mem.http.query_buffer=0
mem.http.response_buffer=0
histogram.000000.000000.to.000000.000001=0
histogram.000000.000001.to.000000.000002=0
histogram.000000.065536.to.000000.131072=3
histogram.000000.131072.to.000000.262144=2
num.query.type.A=50
num.query.type.AAAA=55
num.query.class.IN=105
num.query.opcode.QUERY=105
num.query.tcp=0
num.query.tcpout=0
num.query.ipv6=0
num.query.flags.QR=0
num.query.flags.RD=105
num.query.edns.present=0
num.query.edns.DO=0
num.answer.rcode.NOERROR=100
num.answer.rcode.NXDOMAIN=5
num.answer.rcode.nodata=3
num.answer.secure=0
num.answer.bogus=0
num.rrset.bogus=0
num.query.aggressive.NOERROR=1
num.query.aggressive.NXDOMAIN=2
unwanted.queries=0
unwanted.replies=0
msg.cache.count=10
rrset.cache.count=20
infra.cache.count=3
key.cache.count=1
dnscrypt_shared_secret.cache.count=0
dnscrypt_nonce.cache.count=0
num.query.authzone.up=0
num.query.authzone.down=0
num.query.subnet=0
num.query.subnet_cache=0
";

#[test]
fn test_parser() {
    let parser = Parser::new();
    let result = parser.parse(STATS);
    let stats = result.unwrap();

    assert_eq!(stats.time.now.as_secs(), 1_580_162_982);
    assert_eq!(stats.time.up.as_secs(), 32_586);
    assert_eq!(stats.time.elapsed.as_secs(), 32_586);

    assert_eq!(stats.cache.rrset, 443_440);
    assert_eq!(stats.cache.message, 312_898);
    assert_eq!(stats.modules.iterator, 16_588);
    assert_eq!(stats.modules.validator, 140_392);
    assert_eq!(stats.modules.respip, 0);
    assert_eq!(stats.modules.subnet, 0);
    assert_eq!(stats.cache.dnscrypt_shared_secret, 0);
    assert_eq!(stats.cache.dnscrypt_nonce, 0);
    assert_eq!(stats.mem_streamwait, 0);

    assert_eq!(stats.query_type(0), Some(21838));
    assert_eq!(stats.query_type(1), Some(4576639648));
    assert_eq!(stats.query_type(2), Some(195714));
    assert_eq!(stats.query_type(4), Some(1));
    assert_eq!(stats.query_type(5), Some(223477));
    assert_eq!(stats.query_type(6), Some(252841));
    assert_eq!(stats.query_type(9), Some(2));
    assert_eq!(stats.query_type(10), Some(238628));
    assert_eq!(stats.query_type(11), Some(230227));
    assert_eq!(stats.query_type(12), Some(8446520));
    assert_eq!(stats.query_type(13), Some(231428));
    assert_eq!(stats.query_type(15), Some(34204));
    assert_eq!(stats.query_type(16), Some(510353));
    assert_eq!(stats.query_type(28), Some(151992709));
    assert_eq!(stats.query_type(30), Some(3));
    assert_eq!(stats.query_type(33), Some(1883446));
    assert_eq!(stats.query_type(35), Some(1578821));
    assert_eq!(stats.query_type(43), Some(215));
    assert_eq!(stats.query_type(48), Some(252));
    assert_eq!(stats.query_type(65), Some(140375490));
    assert_eq!(stats.query_type(96), Some(1));
    assert_eq!(stats.query_type(255), Some(82558));

    assert_eq!(stats.query_class(Class::from_int(0)), Some(2));
    assert_eq!(stats.query_class(Class::In), Some(4882932525));
    assert_eq!(stats.query_class(Class::Ch), Some(1073));
    assert_eq!(stats.query_class(Class::Hs), Some(3));
    assert_eq!(stats.query_class(Class::from_int(5)), Some(1));

    assert_eq!(stats.num_query_tcp, 0);
    assert_eq!(stats.num_query_tcp_out, 2);
    assert_eq!(stats.num_query_tls, 0);
    assert_eq!(stats.num_query_tls_resume, 0);
    assert_eq!(stats.num_query_ipv6, 0);
    assert_eq!(stats.num_query_https, 10);

    assert_eq!(stats.flags.qr, 0);
    assert_eq!(stats.flags.aa, 0);
    assert_eq!(stats.flags.tc, 0);
    assert_eq!(stats.flags.rd, 1338);
    assert_eq!(stats.flags.ra, 0);
    assert_eq!(stats.flags.z, 0);
    assert_eq!(stats.flags.ad, 0);
    assert_eq!(stats.flags.cd, 0);

    assert_eq!(stats.num_query_edns_present, 0);
    assert_eq!(stats.num_query_edns_do, 0);

    assert_eq!(stats.answer_rcode(Rcode::NoError), Some(1315));
    assert_eq!(stats.answer_rcode(Rcode::FormErr), Some(0));
    assert_eq!(stats.answer_rcode(Rcode::ServFail), Some(0));
    assert_eq!(stats.answer_rcode(Rcode::NXDomain), Some(23));
    assert_eq!(stats.answer_rcode(Rcode::NotImp), Some(0));
    assert_eq!(stats.answer_rcode(Rcode::Refused), Some(0));

    assert_eq!(stats.http.query_buffer, 1024);
    assert_eq!(stats.http.response_buffer, 2048);

    assert_eq!(stats.threads.len(), 2);
}

#[test]
fn test_parser_1_13_2_format() {
    let parser = Parser::new();

    assert!(parser.parse(STATS_1_13_2).is_ok());
}

#[test]
fn expired_alias_fills_the_zero_ttl_field() {
    // Both the pre-rename and the post-rename key populate the same
    // target field.
    let old_name = Parser::new().parse("total.num.zero_ttl=5\n").unwrap();
    assert_eq!(old_name.total.num_zero_ttl, 5);

    let new_name = Parser::new().parse("total.num.expired=5\n").unwrap();
    assert_eq!(new_name.total.num_zero_ttl, 5);
}

#[test]
fn unknown_keys_are_skipped() {
    let plain = "total.num.queries=7\nnum.query.tcp=3\n";
    let noisy = "something.new=1\ntotal.num.queries=7\nfuture.key.nobody.knows=2\nnum.query.tcp=3\nodd.one=x\n";

    let a = Parser::new().parse(plain).unwrap();
    let b = Parser::new().parse(noisy).unwrap();
    assert_eq!(a.total.num_queries, 7);
    assert_eq!(b.total.num_queries, 7);
    assert_eq!(a.num_query_tcp, 3);
    assert_eq!(b.num_query_tcp, 3);
}

#[test]
fn thread_records_are_order_independent() {
    let forward = Parser::new()
        .parse("thread0.num.queries=10\nthread1.num.queries=20\n")
        .unwrap();
    let backward = Parser::new()
        .parse("thread1.num.queries=20\nthread0.num.queries=10\n")
        .unwrap();

    assert_eq!(forward.threads.len(), 2);
    assert_eq!(backward.threads.len(), 2);
    assert_eq!(forward.threads[0], backward.threads[0]);
    assert_eq!(forward.threads[1], backward.threads[1]);
    assert_eq!(forward.threads[0].num_queries, 10);
    assert_eq!(forward.threads[1].num_queries, 20);
}

#[test]
fn histogram_average_is_copied_after_all_lines() {
    // The aggregate average arrives after the histogram lines and must
    // still end up as the histogram's average.
    let stats = Parser::new()
        .parse("histogram.000000.000000.to.000000.000001=4\ntotal.recursion.time.avg=0.5\n")
        .unwrap();
    assert_eq!(stats.histogram.average().nanos, 500_000_000);
    assert_eq!(stats.histogram.count(), 4);
    assert_eq!(stats.histogram.sum(), 2_000_000_000);
}

#[test]
fn missing_value_is_fatal() {
    let err = Parser::new().parse("total.num.queries\n").unwrap_err();
    assert!(matches!(err, ParseError::MissingValue { .. }));
}

#[test]
fn missing_key_is_fatal() {
    let err = Parser::new().parse("=5\n").unwrap_err();
    assert!(matches!(err, ParseError::MissingKey));
}

#[test]
fn undotted_key_is_fatal() {
    let err = Parser::new().parse("tcpusage=5\n").unwrap_err();
    assert!(matches!(err, ParseError::InvalidFormat));
}

#[test]
fn malformed_counter_is_fatal() {
    let err = Parser::new().parse("total.num.queries=many\n").unwrap_err();
    assert!(matches!(err, ParseError::ParseInt));

    let err = Parser::new()
        .parse("total.num.queries=18446744073709551616\n")
        .unwrap_err();
    assert!(matches!(err, ParseError::ParseInt));
}

#[test]
fn malformed_float_is_fatal() {
    let err = Parser::new()
        .parse("total.recursion.time.avg=abc\n")
        .unwrap_err();
    assert!(matches!(err, ParseError::ParseFloat));
}

#[test]
fn out_of_range_duration_is_fatal() {
    let err = Parser::new().parse("time.now=-5\n").unwrap_err();
    assert!(matches!(err, ParseError::InvalidFormat));

    let err = Parser::new()
        .parse("time.now=18446744073709551616\n")
        .unwrap_err();
    assert!(matches!(err, ParseError::InvalidFormat));
}

#[test]
fn short_histogram_key_is_fatal() {
    let err = Parser::new()
        .parse("histogram.000000.000000.to=1\n")
        .unwrap_err();
    assert!(matches!(err, ParseError::InvalidFormat));
}

#[test]
fn bad_histogram_bound_is_fatal() {
    let err = Parser::new()
        .parse("histogram.000000.000000.to.oops=1\n")
        .unwrap_err();
    assert!(matches!(err, ParseError::ParseFloat));
}

#[test]
fn unsigned_counters_accept_a_plus_sign() {
    let stats = Parser::new().parse("total.num.queries=+42\n").unwrap();
    assert_eq!(stats.total.num_queries, 42);
}

#[test]
fn nsap_pointer_mnemonic_maps_to_its_code() {
    let stats = Parser::new().parse("num.query.type.NSAP-PTR=7\n").unwrap();
    assert_eq!(stats.query_type(23), Some(7));
}

#[test]
fn repeated_key_keeps_the_last_value() {
    let stats = Parser::new()
        .parse("num.query.type.AAAA=1\nnum.query.type.AAAA=9\n")
        .unwrap();
    assert_eq!(stats.query_type(28), Some(9));
    assert_eq!(stats.query_types.len(), 1);
}

#[test]
fn from_str_parses_like_the_parser() {
    let stats: Statistics = "num.query.tcp=3\n".parse().unwrap();
    assert_eq!(stats.num_query_tcp, 3);
}

#[test]
fn feed_line_reports_unknown_keys() {
    let mut p = Parser::new();
    assert!(p.feed_line("total.num.queries=7").is_ok());
    let err = p.feed_line("mystery.key=1").unwrap_err();
    assert!(matches!(err, ParseError::UnknownKey { .. }));
    let stats = p.finish().unwrap();
    assert_eq!(stats.total.num_queries, 7);
}

#[test]
fn unknown_discovered_codes_are_recoverable() {
    // A record type outside the decodable vocabulary only skips its
    // own line.
    let stats = Parser::new()
        .parse("num.query.type.NOT-A-TYPE=4\nnum.query.tcp=8\n")
        .unwrap();
    assert_eq!(stats.query_types.len(), 0);
    assert_eq!(stats.num_query_tcp, 8);
}
