//! Decoding one kernel address-notification record.
//!
//! A record arrives as a list of typed attributes. The decoder scans it once,
//! in order, remembering whichever of the two interesting attributes (address
//! bytes, interface label) it saw first, and succeeds the instant both have
//! been seen. Attribute order is immaterial to success; an address attribute
//! whose payload is not exactly four bytes is skipped, not fatal.

use vstd::prelude::*;

use crate::addr::{bits_of_octets, Ipv4};

verus! {

/// One typed attribute of a raw address record: the address payload, the
/// interface label, or anything else (ignored).
#[derive(Clone, Debug, PartialEq, Eq)]
pub enum Attr {
    Address(Vec<u8>),
    Label(String),
    Other,
}

/// Why a record failed to decode.
#[derive(Clone, Copy, Debug, PartialEq, Eq, Structural)]
pub enum DecodeError {
    /// The scan ended without both an address and a label.
    NotFound,
    /// The record is not an address add/delete notification.
    InvalidData,
}

/// A decoded address record: the IPv4 address and the interface label it was
/// reported under.
#[derive(Clone, Debug, PartialEq, Eq)]
pub struct Address {
    pub addr: Ipv4,
    pub label: String,
}

/// An attribute that counts as an address: four payload bytes exactly.
pub open spec fn is_addr_attr(a: Attr) -> bool {
    a matches Attr::Address(b) && b@.len() == 4
}

/// An attribute that counts as an interface label.
pub open spec fn is_label_attr(a: Attr) -> bool {
    a is Label
}

/// The numeric address an address attribute's four bytes spell.
pub open spec fn attr_bits(a: Attr) -> int
    recommends
        is_addr_attr(a),
{
    bits_of_octets(a->Address_0@[0], a->Address_0@[1], a->Address_0@[2], a->Address_0@[3])
}

/// Whether some attribute of the record is a well-formed address.
pub open spec fn has_addr(attrs: Seq<Attr>) -> bool {
    exists|i: int| 0 <= i < attrs.len() && is_addr_attr(attrs[i])
}

/// Whether some attribute of the record is a label.
pub open spec fn has_label(attrs: Seq<Attr>) -> bool {
    exists|i: int| 0 <= i < attrs.len() && is_label_attr(attrs[i])
}

/// The one-pass scan of the record, carrying the address and label seen so
/// far. It yields the pair the instant both are known — the address from the
/// latest well-formed address attribute, the label from the latest label
/// attribute — and nothing if the record runs out first.
pub open spec fn scan(attrs: Seq<Attr>, a: Option<int>, l: Option<Seq<char>>) -> Option<
    (int, Seq<char>),
>
    decreases attrs.len(),
{
    if attrs.len() == 0 {
        None
    } else {
        let rest = attrs.drop_first();
        match attrs[0] {
            Attr::Address(bytes) => {
                if bytes@.len() == 4 {
                    if l is Some {
                        Some((attr_bits(attrs[0]), l->0))
                    } else {
                        scan(rest, Some(attr_bits(attrs[0])), l)
                    }
                } else {
                    scan(rest, a, l)
                }
            },
            Attr::Label(s) => {
                if a is Some {
                    Some((a->0, s@))
                } else {
                    scan(rest, a, Some(s@))
                }
            },
            Attr::Other => scan(rest, a, l),
        }
    }
}

/// What a record decodes to, before it is packed into an [`Address`].
pub open spec fn decoded(attrs: Seq<Attr>) -> Option<(int, Seq<char>)> {
    scan(attrs, None, None)
}

proof fn lemma_has_addr_unfold(attrs: Seq<Attr>)
    requires
        attrs.len() > 0,
    ensures
        has_addr(attrs) <==> (is_addr_attr(attrs[0]) || has_addr(attrs.drop_first())),
{
    let rest = attrs.drop_first();
    if is_addr_attr(attrs[0]) {
        assert(has_addr(attrs));
    }
    if has_addr(rest) {
        let i = choose|i: int| 0 <= i < rest.len() && is_addr_attr(rest[i]);
        assert(attrs[i + 1] == rest[i]);
        assert(has_addr(attrs));
    }
    if has_addr(attrs) && !is_addr_attr(attrs[0]) {
        let i = choose|i: int| 0 <= i < attrs.len() && is_addr_attr(attrs[i]);
        assert(rest[i - 1] == attrs[i]);
        assert(has_addr(rest));
    }
}

proof fn lemma_has_label_unfold(attrs: Seq<Attr>)
    requires
        attrs.len() > 0,
    ensures
        has_label(attrs) <==> (is_label_attr(attrs[0]) || has_label(attrs.drop_first())),
{
    let rest = attrs.drop_first();
    if is_label_attr(attrs[0]) {
        assert(has_label(attrs));
    }
    if has_label(rest) {
        let i = choose|i: int| 0 <= i < rest.len() && is_label_attr(rest[i]);
        assert(attrs[i + 1] == rest[i]);
        assert(has_label(attrs));
    }
    if has_label(attrs) && !is_label_attr(attrs[0]) {
        let i = choose|i: int| 0 <= i < attrs.len() && is_label_attr(attrs[i]);
        assert(rest[i - 1] == attrs[i]);
        assert(has_label(rest));
    }
}

/// The scan succeeds exactly when each of the two fields is either already in
/// hand or still to come — so, from an empty start, exactly when the record
/// holds both a well-formed address and a label.
pub proof fn lemma_scan_completes(attrs: Seq<Attr>, a: Option<int>, l: Option<Seq<char>>)
    requires
        !(a is Some && l is Some),
    ensures
        scan(attrs, a, l) is Some <==> ((a is Some || has_addr(attrs)) && (l is Some
            || has_label(attrs))),
    decreases attrs.len(),
{
    if attrs.len() > 0 {
        let rest = attrs.drop_first();
        lemma_has_addr_unfold(attrs);
        lemma_has_label_unfold(attrs);
        match attrs[0] {
            Attr::Address(bytes) => {
                if bytes@.len() == 4 {
                    if l is Some {
                    } else {
                        lemma_scan_completes(rest, Some(attr_bits(attrs[0])), l);
                    }
                } else {
                    lemma_scan_completes(rest, a, l);
                }
            },
            Attr::Label(_s) => {
                if a is Some {
                } else {
                    lemma_scan_completes(rest, a, Some(attrs[0]->Label_0@));
                }
            },
            Attr::Other => {
                lemma_scan_completes(rest, a, l);
            },
        }
    }
}

spec fn addr_acc(o: Option<Ipv4>) -> Option<int> {
    match o {
        Some(ip) => Some(ip.bits as int),
        None => None,
    }
}

spec fn label_acc(o: Option<String>) -> Option<Seq<char>> {
    match o {
        Some(s) => Some(s@),
        None => None,
    }
}

impl Address {
    /// Gets the IPv4 address.
    pub fn addr(&self) -> (r: &Ipv4)
        ensures
            r == self.addr,
    {
        &self.addr
    }

    /// Gets the label of the interface.
    pub fn label(&self) -> (r: &str)
        ensures
            r@ == self.label@,
    {
        self.label.as_str()
    }

    /// Decodes one raw record's attribute list.
    ///
    /// Succeeds exactly when the record holds a well-formed address attribute
    /// and a label attribute, whatever their order; the value is what the
    /// one-pass [`scan`] yields. Any other record is `NotFound`.
    pub fn decode(attrs: &Vec<Attr>) -> (r: Result<Address, DecodeError>)
        ensures
            match r {
                Ok(ad) => decoded(attrs@) == Some((ad.addr.bits as int, ad.label@)),
                Err(e) => decoded(attrs@) is None && e == DecodeError::NotFound,
            },
            r is Ok <==> has_addr(attrs@) && has_label(attrs@),
    {
        proof {
            lemma_scan_completes(attrs@, None, None);
            assert(attrs@.skip(0) =~= attrs@);
        }
        let mut the_addr: Option<Ipv4> = None;
        let mut the_label: Option<String> = None;
        let mut i: usize = 0;
        while i < attrs.len()
            invariant
                i <= attrs.len(),
                !(the_addr is Some && the_label is Some),
                scan(attrs@, None, None) == scan(
                    attrs@.skip(i as int),
                    addr_acc(the_addr),
                    label_acc(the_label),
                ),
            decreases attrs.len() - i,
        {
            proof {
                lemma_scan_completes(attrs@, None, None);
                assert(attrs@.skip(i as int)[0] == attrs@[i as int]);
                assert(attrs@.skip(i as int).drop_first() =~= attrs@.skip(i as int + 1));
            }
            match &attrs[i] {
                Attr::Address(bytes) => {
                    if bytes.len() == 4 {
                        let ip = Ipv4::from_octets(bytes[0], bytes[1], bytes[2], bytes[3]);
                        match &the_label {
                            Some(label) => {
                                return Ok(Address { addr: ip, label: label.clone() });
                            },
                            None => {
                                the_addr = Some(ip);
                            },
                        }
                    }
                },
                Attr::Label(s) => {
                    match &the_addr {
                        Some(ip) => {
                            return Ok(Address { addr: *ip, label: s.clone() });
                        },
                        None => {
                            the_label = Some(s.clone());
                        },
                    }
                },
                Attr::Other => {},
            }
            i = i + 1;
        }
        Err(DecodeError::NotFound)
    }
}

} // verus!
