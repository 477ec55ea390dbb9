//! DNS code vocabularies: query opcodes, response codes, record
//! classes and record types, with their textual mnemonics as the
//! statistics text format spells them.

use vstd::prelude::*;

use vstd::string::StringSliceAdditionalSpecFns;

use crate::bytes::bytes_eq;
use crate::numbers::{dec_digits, parse_u16, push_decimal, spec_parse_u16};

verus! {

//---------------------------------------------------------------- Opcode
/// A DNS query opcode.
#[derive(Clone, Copy, Debug, PartialEq, Eq, Structural)]
pub enum Opcode {
    Query,
    IQuery,
    Status,
    Notify,
    Update,
    Dso,
}

/// The opcode a mnemonic denotes, or nothing for an unknown mnemonic.
pub open spec fn spec_parse_opcode(s: Seq<u8>) -> Option<Opcode> {
    if s == "QUERY".spec_bytes() {
        Some(Opcode::Query)
    } else if s == "IQUERY".spec_bytes() {
        Some(Opcode::IQuery)
    } else if s == "STATUS".spec_bytes() {
        Some(Opcode::Status)
    } else if s == "NOTIFY".spec_bytes() {
        Some(Opcode::Notify)
    } else if s == "UPDATE".spec_bytes() {
        Some(Opcode::Update)
    } else if s == "DSO".spec_bytes() {
        Some(Opcode::Dso)
    } else {
        None
    }
}

/// Decode an opcode mnemonic.
pub fn parse_opcode(s: &[u8]) -> (r: Option<Opcode>)
    ensures
        r == spec_parse_opcode(s@),
{
    if bytes_eq(s, "QUERY".as_bytes()) {
        Some(Opcode::Query)
    } else if bytes_eq(s, "IQUERY".as_bytes()) {
        Some(Opcode::IQuery)
    } else if bytes_eq(s, "STATUS".as_bytes()) {
        Some(Opcode::Status)
    } else if bytes_eq(s, "NOTIFY".as_bytes()) {
        Some(Opcode::Notify)
    } else if bytes_eq(s, "UPDATE".as_bytes()) {
        Some(Opcode::Update)
    } else if bytes_eq(s, "DSO".as_bytes()) {
        Some(Opcode::Dso)
    } else {
        None
    }
}

/// The mnemonic of an opcode.
pub open spec fn spec_opcode_label(c: Opcode) -> Seq<u8> {
    match c {
        Opcode::Query => "QUERY".spec_bytes(),
        Opcode::IQuery => "IQUERY".spec_bytes(),
        Opcode::Status => "STATUS".spec_bytes(),
        Opcode::Notify => "NOTIFY".spec_bytes(),
        Opcode::Update => "UPDATE".spec_bytes(),
        Opcode::Dso => "DSO".spec_bytes(),
    }
}

/// Render an opcode as its mnemonic.
pub fn opcode_label(c: Opcode) -> (r: &'static str)
    ensures
        r.spec_bytes() == spec_opcode_label(c),
{
    match c {
        Opcode::Query => "QUERY",
        Opcode::IQuery => "IQUERY",
        Opcode::Status => "STATUS",
        Opcode::Notify => "NOTIFY",
        Opcode::Update => "UPDATE",
        Opcode::Dso => "DSO",
    }
}

//---------------------------------------------------------------- Rcode
/// A DNS response code.
#[derive(Clone, Copy, Debug, PartialEq, Eq, Structural)]
pub enum Rcode {
    NoError,
    FormErr,
    ServFail,
    NXDomain,
    NotImp,
    Refused,
    YXDomain,
    YXRRSet,
    NXRRSet,
    NotAuth,
    NotZone,
}

/// The response code a mnemonic denotes, or nothing for an unknown one.
pub open spec fn spec_parse_rcode(s: Seq<u8>) -> Option<Rcode> {
    if s == "NOERROR".spec_bytes() {
        Some(Rcode::NoError)
    } else if s == "FORMERR".spec_bytes() {
        Some(Rcode::FormErr)
    } else if s == "SERVFAIL".spec_bytes() {
        Some(Rcode::ServFail)
    } else if s == "NXDOMAIN".spec_bytes() {
        Some(Rcode::NXDomain)
    } else if s == "NOTIMPL".spec_bytes() {
        Some(Rcode::NotImp)
    } else if s == "REFUSED".spec_bytes() {
        Some(Rcode::Refused)
    } else if s == "YXDOMAIN".spec_bytes() {
        Some(Rcode::YXDomain)
    } else if s == "YXRRSET".spec_bytes() {
        Some(Rcode::YXRRSet)
    } else if s == "NXRRSET".spec_bytes() {
        Some(Rcode::NXRRSet)
    } else if s == "NOTAUTH".spec_bytes() {
        Some(Rcode::NotAuth)
    } else if s == "NOTZONE".spec_bytes() {
        Some(Rcode::NotZone)
    } else {
        None
    }
}

/// Decode a response-code mnemonic.
pub fn parse_rcode(s: &[u8]) -> (r: Option<Rcode>)
    ensures
        r == spec_parse_rcode(s@),
{
    if bytes_eq(s, "NOERROR".as_bytes()) {
        Some(Rcode::NoError)
    } else if bytes_eq(s, "FORMERR".as_bytes()) {
        Some(Rcode::FormErr)
    } else if bytes_eq(s, "SERVFAIL".as_bytes()) {
        Some(Rcode::ServFail)
    } else if bytes_eq(s, "NXDOMAIN".as_bytes()) {
        Some(Rcode::NXDomain)
    } else if bytes_eq(s, "NOTIMPL".as_bytes()) {
        Some(Rcode::NotImp)
    } else if bytes_eq(s, "REFUSED".as_bytes()) {
        Some(Rcode::Refused)
    } else if bytes_eq(s, "YXDOMAIN".as_bytes()) {
        Some(Rcode::YXDomain)
    } else if bytes_eq(s, "YXRRSET".as_bytes()) {
        Some(Rcode::YXRRSet)
    } else if bytes_eq(s, "NXRRSET".as_bytes()) {
        Some(Rcode::NXRRSet)
    } else if bytes_eq(s, "NOTAUTH".as_bytes()) {
        Some(Rcode::NotAuth)
    } else if bytes_eq(s, "NOTZONE".as_bytes()) {
        Some(Rcode::NotZone)
    } else {
        None
    }
}

/// The mnemonic of a response code.
pub open spec fn spec_rcode_label(c: Rcode) -> Seq<u8> {
    match c {
        Rcode::NoError => "NOERROR".spec_bytes(),
        Rcode::FormErr => "FORMERR".spec_bytes(),
        Rcode::ServFail => "SERVFAIL".spec_bytes(),
        Rcode::NXDomain => "NXDOMAIN".spec_bytes(),
        Rcode::NotImp => "NOTIMPL".spec_bytes(),
        Rcode::Refused => "REFUSED".spec_bytes(),
        Rcode::YXDomain => "YXDOMAIN".spec_bytes(),
        Rcode::YXRRSet => "YXRRSET".spec_bytes(),
        Rcode::NXRRSet => "NXRRSET".spec_bytes(),
        Rcode::NotAuth => "NOTAUTH".spec_bytes(),
        Rcode::NotZone => "NOTZONE".spec_bytes(),
    }
}

/// Render a response code as its mnemonic.
pub fn rcode_label(c: Rcode) -> (r: &'static str)
    ensures
        r.spec_bytes() == spec_rcode_label(c),
{
    match c {
        Rcode::NoError => "NOERROR",
        Rcode::FormErr => "FORMERR",
        Rcode::ServFail => "SERVFAIL",
        Rcode::NXDomain => "NXDOMAIN",
        Rcode::NotImp => "NOTIMPL",
        Rcode::Refused => "REFUSED",
        Rcode::YXDomain => "YXDOMAIN",
        Rcode::YXRRSet => "YXRRSET",
        Rcode::NXRRSet => "NXRRSET",
        Rcode::NotAuth => "NOTAUTH",
        Rcode::NotZone => "NOTZONE",
    }
}

//---------------------------------------------------------------- Class
/// A DNS record class: the classes with mnemonics, or any other 16-bit
/// class code.
#[derive(Clone, Copy, Debug, PartialEq, Eq, Structural)]
pub enum Class {
    In,
    Ch,
    Hs,
    NoneClass,
    Any,
    Code(u16),
}

/// The 16-bit code of a class.
pub open spec fn class_code(c: Class) -> u16 {
    match c {
        Class::In => 1,
        Class::Ch => 3,
        Class::Hs => 4,
        Class::NoneClass => 254,
        Class::Any => 255,
        Class::Code(v) => v,
    }
}

/// The canonical class for a 16-bit code: a named variant where one
/// exists, so that equal codes compare equal.
pub open spec fn spec_class_from_int(v: u16) -> Class {
    if v == 1 {
        Class::In
    } else if v == 3 {
        Class::Ch
    } else if v == 4 {
        Class::Hs
    } else if v == 254 {
        Class::NoneClass
    } else if v == 255 {
        Class::Any
    } else {
        Class::Code(v)
    }
}

impl Class {
    /// The canonical class value holding the code `v`.
    pub fn from_int(v: u16) -> (r: Class)
        ensures
            r == spec_class_from_int(v),
            class_code(r) == v,
    {
        if v == 1 {
            Class::In
        } else if v == 3 {
            Class::Ch
        } else if v == 4 {
            Class::Hs
        } else if v == 254 {
            Class::NoneClass
        } else if v == 255 {
            Class::Any
        } else {
            Class::Code(v)
        }
    }
}

/// The class a key segment denotes: a mnemonic, or the generic
/// `CLASS` form followed by a decimal 16-bit code.
pub open spec fn spec_parse_class(s: Seq<u8>) -> Option<Class> {
    if s == "IN".spec_bytes() {
        Some(Class::In)
    } else if s == "CH".spec_bytes() {
        Some(Class::Ch)
    } else if s == "HS".spec_bytes() {
        Some(Class::Hs)
    } else if s == "NONE".spec_bytes() {
        Some(Class::NoneClass)
    } else if s == "ANY".spec_bytes() {
        Some(Class::Any)
    } else if s.len() > "CLASS".spec_bytes().len() && crate::bytes::spec_has_prefix(
        s,
        "CLASS".spec_bytes(),
    ) {
        match spec_parse_u16(s.skip("CLASS".spec_bytes().len() as int)) {
            Some(v) => Some(spec_class_from_int(v)),
            None => None,
        }
    } else {
        None
    }
}

/// Decode a class key segment.
pub fn parse_class(s: &[u8]) -> (r: Option<Class>)
    ensures
        r == spec_parse_class(s@),
{
    if bytes_eq(s, "IN".as_bytes()) {
        Some(Class::In)
    } else if bytes_eq(s, "CH".as_bytes()) {
        Some(Class::Ch)
    } else if bytes_eq(s, "HS".as_bytes()) {
        Some(Class::Hs)
    } else if bytes_eq(s, "NONE".as_bytes()) {
        Some(Class::NoneClass)
    } else if bytes_eq(s, "ANY".as_bytes()) {
        Some(Class::Any)
    } else {
        let p = "CLASS".as_bytes();
        if s.len() > p.len() && crate::bytes::has_prefix(s, p) {
            let rest = vstd::slice::slice_subrange(s, p.len(), s.len());
            proof {
                assert(rest@ =~= s@.skip("CLASS".spec_bytes().len() as int));
            }
            match parse_u16(rest) {
                Some(v) => Some(Class::from_int(v)),
                None => None,
            }
        } else {
            None
        }
    }
}

/// The label a class renders as: its mnemonic, or `CLASS` followed by
/// the decimal code.
pub open spec fn spec_class_label(c: Class) -> Seq<u8> {
    match c {
        Class::In => "IN".spec_bytes(),
        Class::Ch => "CH".spec_bytes(),
        Class::Hs => "HS".spec_bytes(),
        Class::NoneClass => "NONE".spec_bytes(),
        Class::Any => "ANY".spec_bytes(),
        Class::Code(v) => "CLASS".spec_bytes() + dec_digits(v as nat),
    }
}

/// Append the label of a class to `out`.
pub fn push_class_label(out: &mut Vec<u8>, c: Class)
    ensures
        final(out)@ == old(out)@ + spec_class_label(c),
{
    match c {
        Class::In => crate::bytes::push_bytes(out, "IN".as_bytes()),
        Class::Ch => crate::bytes::push_bytes(out, "CH".as_bytes()),
        Class::Hs => crate::bytes::push_bytes(out, "HS".as_bytes()),
        Class::NoneClass => crate::bytes::push_bytes(out, "NONE".as_bytes()),
        Class::Any => crate::bytes::push_bytes(out, "ANY".as_bytes()),
        Class::Code(v) => {
            crate::bytes::push_bytes(out, "CLASS".as_bytes());
            push_decimal(out, v as u128);
            proof {
                assert(out@ =~= old(out)@ + ("CLASS".spec_bytes() + dec_digits(v as nat)));
            }
        },
    }
}

//---------------------------------------------------------------- Rtype
/// What the `domain` crate's record-type decoder returns for a byte
/// string: the 16-bit type code, or nothing when the string is neither
/// a known mnemonic nor the generic `TYPE` form.
pub uninterp spec fn rtype_code(s: Seq<u8>) -> Option<u16>;

/// Relies on `domain`'s `Rtype::from_bytes`: decodes a record-type
/// mnemonic (case-insensitively) or the generic `TYPE` form followed
/// by a decimal code; the result depends on the bytes alone.
#[verifier::external_body]
fn rtype_from_bytes(s: &[u8]) -> (r: Option<u16>)
    ensures
        r == rtype_code(s@),
{
    domain::base::iana::Rtype::from_bytes(s).map(|t| t.to_int())
}

/// What the `domain` crate's record-type renderer returns for a code:
/// the mnemonic, or the generic `TYPE` form for codes without one.
pub uninterp spec fn rtype_label(code: u16) -> Seq<u8>;

/// Relies on `domain`'s `Display` for `Rtype`: a known code renders as
/// its mnemonic, any other as `TYPE` followed by the decimal code; the
/// result depends on the code alone.
#[verifier::external_body]
pub(crate) fn rtype_to_bytes(code: u16) -> (r: Vec<u8>)
    ensures
        r@ == rtype_label(code),
{
    domain::base::iana::Rtype::from_int(code).to_string().into_bytes()
}

/// The record-type code a key segment denotes.
///
/// The statistics text spells the NSAP pointer type `NSAP-PTR`, which
/// the `domain` crate's vocabulary does not contain; it is mapped to
/// its code by hand.
pub open spec fn spec_parse_rtype(s: Seq<u8>) -> Option<u16> {
    if s == "NSAP-PTR".spec_bytes() {
        Some(23u16)
    } else {
        rtype_code(s)
    }
}

/// Decode a record-type key segment into its 16-bit code.
pub fn parse_rtype(s: &[u8]) -> (r: Option<u16>)
    ensures
        r == spec_parse_rtype(s@),
{
    if bytes_eq(s, "NSAP-PTR".as_bytes()) {
        Some(23u16)
    } else {
        rtype_from_bytes(s)
    }
}

//---------------------------------------------------------------- Shared-memory code lookups
/// The mnemonic `rr_type` knows for a record-type number.
pub open spec fn spec_rr_type(v: int) -> Option<Seq<u8>> {
    if v == 1 {
        Some("A".spec_bytes())
    } else if v == 2 {
        Some("NS".spec_bytes())
    } else if v == 5 {
        Some("CNAME".spec_bytes())
    } else if v == 6 {
        Some("SOA".spec_bytes())
    } else if v == 10 {
        Some("NULL".spec_bytes())
    } else if v == 12 {
        Some("PTR".spec_bytes())
    } else if v == 15 {
        Some("MX".spec_bytes())
    } else if v == 16 {
        Some("TXT".spec_bytes())
    } else if v == 24 {
        Some("SIG".spec_bytes())
    } else if v == 25 {
        Some("KEY".spec_bytes())
    } else if v == 28 {
        Some("AAAA".spec_bytes())
    } else if v == 33 {
        Some("SRV".spec_bytes())
    } else if v == 35 {
        Some("NAPTR".spec_bytes())
    } else if v == 41 {
        Some("OPT".spec_bytes())
    } else if v == 43 {
        Some("DS".spec_bytes())
    } else if v == 44 {
        Some("SSHFP".spec_bytes())
    } else if v == 46 {
        Some("RRSIG".spec_bytes())
    } else if v == 47 {
        Some("NSEC".spec_bytes())
    } else if v == 48 {
        Some("DNSKEY".spec_bytes())
    } else if v == 50 {
        Some("NSEC3".spec_bytes())
    } else if v == 51 {
        Some("NSEC3PARAM".spec_bytes())
    } else if v == 52 {
        Some("TLSA".spec_bytes())
    } else if v == 61 {
        Some("OPENPGPKEY".spec_bytes())
    } else if v == 255 {
        Some("ANY".spec_bytes())
    } else if v == 252 {
        Some("AXFR".spec_bytes())
    } else if v == 257 {
        Some("CAA".spec_bytes())
    } else {
        None
    }
}

/// The popular record-type mnemonics, looked up by number.
pub fn rr_type(value: usize) -> (r: Option<&'static str>)
    ensures
        match r {
            Some(s) => spec_rr_type(value as int) == Some(s.spec_bytes()),
            None => spec_rr_type(value as int) is None,
        },
{
    let type_: &'static str = match value {
        1 => "A",
        2 => "NS",
        5 => "CNAME",
        6 => "SOA",
        10 => "NULL",
        12 => "PTR",
        15 => "MX",
        16 => "TXT",
        24 => "SIG",
        25 => "KEY",
        28 => "AAAA",
        33 => "SRV",
        35 => "NAPTR",
        41 => "OPT",
        43 => "DS",
        44 => "SSHFP",
        46 => "RRSIG",
        47 => "NSEC",
        48 => "DNSKEY",
        50 => "NSEC3",
        51 => "NSEC3PARAM",
        52 => "TLSA",
        61 => "OPENPGPKEY",
        255 => "ANY",
        252 => "AXFR",
        257 => "CAA",
        _ => {
            return None;
        },
    };
    Some(type_)
}

/// The class mnemonics, looked up by number.
pub open spec fn spec_rr_class(v: int) -> Option<Seq<u8>> {
    if v == 1 {
        Some("IN".spec_bytes())
    } else if v == 3 {
        Some("CH".spec_bytes())
    } else if v == 4 {
        Some("HS".spec_bytes())
    } else if v == 254 {
        Some("NONE".spec_bytes())
    } else if v == 255 {
        Some("ANY".spec_bytes())
    } else {
        None
    }
}

/// The class mnemonics, looked up by number.
pub fn rr_class(value: usize) -> (r: Option<&'static str>)
    ensures
        match r {
            Some(s) => spec_rr_class(value as int) == Some(s.spec_bytes()),
            None => spec_rr_class(value as int) is None,
        },
{
    match value {
        1 => Some("IN"),
        3 => Some("CH"),
        4 => Some("HS"),
        254 => Some("NONE"),
        255 => Some("ANY"),
        _ => None,
    }
}

/// The opcode mnemonics, looked up by number.
pub open spec fn spec_rr_opcode(v: int) -> Option<Seq<u8>> {
    if v == 0 {
        Some("QUERY".spec_bytes())
    } else if v == 1 {
        Some("IQUERY".spec_bytes())
    } else if v == 2 {
        Some("STATUS".spec_bytes())
    } else if v == 4 {
        Some("NOTIFY".spec_bytes())
    } else if v == 5 {
        Some("UPDATE".spec_bytes())
    } else {
        None
    }
}

/// The opcode mnemonics, looked up by number.
pub fn rr_opcode(value: usize) -> (r: Option<&'static str>)
    ensures
        match r {
            Some(s) => spec_rr_opcode(value as int) == Some(s.spec_bytes()),
            None => spec_rr_opcode(value as int) is None,
        },
{
    match value {
        0 => Some("QUERY"),
        1 => Some("IQUERY"),
        2 => Some("STATUS"),
        4 => Some("NOTIFY"),
        5 => Some("UPDATE"),
        _ => None,
    }
}

/// The response-code mnemonics, looked up by number.
pub open spec fn spec_rr_rcode(v: int) -> Option<Seq<u8>> {
    if v == 0 {
        Some("NOERROR".spec_bytes())
    } else if v == 1 {
        Some("FORMERR".spec_bytes())
    } else if v == 2 {
        Some("SERVFAIL".spec_bytes())
    } else if v == 3 {
        Some("NXDOMAIN".spec_bytes())
    } else if v == 4 {
        Some("NOTIMPL".spec_bytes())
    } else if v == 5 {
        Some("REFUSED".spec_bytes())
    } else if v == 6 {
        Some("YXDOMAIN".spec_bytes())
    } else if v == 7 {
        Some("YXRRSET".spec_bytes())
    } else if v == 8 {
        Some("NXRRSET".spec_bytes())
    } else if v == 9 {
        Some("NOTAUTH".spec_bytes())
    } else if v == 10 {
        Some("NOTZONE".spec_bytes())
    } else {
        None
    }
}

/// The response-code mnemonics, looked up by number.
pub fn rr_rcode(value: usize) -> (r: Option<&'static str>)
    ensures
        match r {
            Some(s) => spec_rr_rcode(value as int) == Some(s.spec_bytes()),
            None => spec_rr_rcode(value as int) is None,
        },
{
    match value {
        0 => Some("NOERROR"),
        1 => Some("FORMERR"),
        2 => Some("SERVFAIL"),
        3 => Some("NXDOMAIN"),
        4 => Some("NOTIMPL"),
        5 => Some("REFUSED"),
        6 => Some("YXDOMAIN"),
        7 => Some("YXRRSET"),
        8 => Some("NXRRSET"),
        9 => Some("NOTAUTH"),
        10 => Some("NOTZONE"),
        _ => None,
    }
}

} // verus!
