//! Tests for the DNS code vocabularies and numeric codecs.

use unbound_telemetry::codes::{
    parse_class, parse_opcode, parse_rcode, parse_rtype, rr_class, rr_opcode, rr_rcode, rr_type,
    Class, Opcode, Rcode,
};
use unbound_telemetry::numbers::{parse_fixed, parse_u64, FixedParse};
use unbound_telemetry::{TextTransport, UdsSource, UdsTransport};

#[test]
fn opcode_mnemonics_decode() {
    assert_eq!(parse_opcode(b"QUERY"), Some(Opcode::Query));
    assert_eq!(parse_opcode(b"NOTIFY"), Some(Opcode::Notify));
    assert_eq!(parse_opcode(b"DSO"), Some(Opcode::Dso));
    assert_eq!(parse_opcode(b"SOMETHING"), None);
}

#[test]
fn rcode_mnemonics_decode() {
    assert_eq!(parse_rcode(b"NOERROR"), Some(Rcode::NoError));
    assert_eq!(parse_rcode(b"NXDOMAIN"), Some(Rcode::NXDomain));
    assert_eq!(parse_rcode(b"NOTZONE"), Some(Rcode::NotZone));
    assert_eq!(parse_rcode(b"BADVERS"), None);
}

#[test]
fn class_mnemonics_and_generic_form_decode() {
    assert_eq!(parse_class(b"IN"), Some(Class::In));
    assert_eq!(parse_class(b"ANY"), Some(Class::Any));
    assert_eq!(parse_class(b"CLASS0"), Some(Class::Code(0)));
    // The generic form canonicalises to the named class.
    assert_eq!(parse_class(b"CLASS3"), Some(Class::Ch));
    assert_eq!(parse_class(b"CLASS65536"), None);
    assert_eq!(parse_class(b"KLASse"), None);
}

#[test]
fn rtype_mnemonics_and_generic_form_decode() {
    assert_eq!(parse_rtype(b"A"), Some(1));
    assert_eq!(parse_rtype(b"AAAA"), Some(28));
    assert_eq!(parse_rtype(b"TYPE65"), Some(65));
    assert_eq!(parse_rtype(b"NSAP-PTR"), Some(23));
    assert_eq!(parse_rtype(b"NOT-A-TYPE"), None);
}

#[test]
fn shared_memory_code_lookups() {
    assert_eq!(rr_type(28), Some("AAAA"));
    assert_eq!(rr_type(1), Some("A"));
    assert_eq!(rr_type(9999), None);
    assert_eq!(rr_class(1), Some("IN"));
    assert_eq!(rr_class(2), None);
    assert_eq!(rr_opcode(0), Some("QUERY"));
    assert_eq!(rr_opcode(3), None);
    assert_eq!(rr_rcode(3), Some("NXDOMAIN"));
    assert_eq!(rr_rcode(11), None);
}

#[test]
fn unsigned_decoding_accepts_digits_only() {
    assert_eq!(parse_u64(b"0"), Some(0));
    assert_eq!(parse_u64(b"18446744073709551615"), Some(u64::MAX));
    assert_eq!(parse_u64(b"18446744073709551616"), None);
    assert_eq!(parse_u64(b"+7"), Some(7));
    assert_eq!(parse_u64(b""), None);
    assert_eq!(parse_u64(b"1 2"), None);
    assert_eq!(parse_u64(b"-1"), None);
}

#[test]
fn fixed_decoding_truncates_to_nanoseconds() {
    assert_eq!(parse_fixed(b"0.280601"), FixedParse::Value(280_601_000));
    assert_eq!(parse_fixed(b"1580162982.458731"), FixedParse::Value(1_580_162_982_458_731_000));
    assert_eq!(parse_fixed(b"7"), FixedParse::Value(7_000_000_000));
    assert_eq!(parse_fixed(b".5"), FixedParse::Value(500_000_000));
    assert_eq!(parse_fixed(b"5."), FixedParse::Value(5_000_000_000));
    assert_eq!(parse_fixed(b"0.1234567891"), FixedParse::Value(123_456_789));
    assert_eq!(parse_fixed(b"-0"), FixedParse::Value(0));
    assert_eq!(parse_fixed(b"-1"), FixedParse::OutOfRange);
    assert_eq!(parse_fixed(b"18446744073709551616"), FixedParse::OutOfRange);
    assert_eq!(parse_fixed(b"1.2.3"), FixedParse::Malformed);
    assert_eq!(parse_fixed(b""), FixedParse::Malformed);
    assert_eq!(parse_fixed(b"."), FixedParse::Malformed);
}

#[test]
fn transport_holders_keep_their_addresses() {
    let t = TextTransport::new(String::from("127.0.0.1:8953"));
    assert_eq!(t.host, "127.0.0.1:8953");
    let u = UdsTransport::new(String::from("/run/unbound.ctl"));
    assert_eq!(u.path, "/run/unbound.ctl");
    let s = UdsSource::new(String::from("/run/unbound.ctl"));
    assert_eq!(s.path, "/run/unbound.ctl");
}
