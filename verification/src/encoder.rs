//! Wire-format encoding of a single DNS query.
//!
//! A query message is the 12-byte header of RFC 1035 section 4.1.1 followed
//! by one question: the QNAME (each non-empty dot-separated label of the
//! hostname as a length byte and the label's bytes, ASCII letters lowered,
//! ending in a zero byte), then QTYPE 1 (host address) and QCLASS 1
//! (Internet). A label longer than 255 bytes cannot carry its length in one
//! byte; such a hostname is rejected with [`EncodeError::LabelTooLong`].

use vstd::prelude::*;
use vstd::string::StringSliceAdditionalSpecFns;
use vstd::utf8::encode_utf8;

verus! {

/// Why encoding a query failed.
#[derive(Clone, Copy, Debug, PartialEq, Eq, Structural)]
pub enum EncodeError {
    /// A dot-separated label of the hostname is longer than 255 bytes.
    LabelTooLong,
}

/// A single DNS question: a caller-supplied transaction id, echoed verbatim
/// into the header, and the hostname to ask about.
pub struct DnsQuestion {
    /// The 16-bit transaction id, used only for wire-format correlation.
    pub tx: u16,
    /// The hostname, as dot-separated labels.
    pub hostname: String,
}

/// An ASCII upper-case letter lowered; every other byte unchanged.
pub open spec fn ascii_lower(b: u8) -> u8 {
    if 65 <= b && b <= 90 {
        (b + 32) as u8
    } else {
        b
    }
}

/// Every byte of `l` lowered by [`ascii_lower`].
pub open spec fn lower_all(l: Seq<u8>) -> Seq<u8> {
    l.map_values(|b: u8| ascii_lower(b))
}

/// The labels of `h` from the left, with `cur` the label bytes already read
/// before `h`: splitting on every dot, empty parts kept.
pub open spec fn split_labels_from(h: Seq<u8>, cur: Seq<u8>) -> Seq<Seq<u8>>
    decreases h.len(),
{
    if h.len() == 0 {
        seq![cur]
    } else if h[0] == 46u8 {
        seq![cur] + split_labels_from(h.skip(1), Seq::empty())
    } else {
        split_labels_from(h.skip(1), cur.push(h[0]))
    }
}

/// The dot-separated labels of a hostname's bytes, empty parts kept; the
/// empty hostname has the single empty label.
pub open spec fn host_labels(h: Seq<u8>) -> Seq<Seq<u8>> {
    split_labels_from(h, Seq::empty())
}

/// Every label fits the one length byte the wire format gives it.
pub open spec fn labels_fit(labels: Seq<Seq<u8>>) -> bool {
    forall|i: int| 0 <= i < labels.len() ==> (#[trigger] labels[i]).len() <= 255
}

/// A hostname encodes successfully exactly when all its labels fit.
pub open spec fn encodable(h: Seq<u8>) -> bool {
    labels_fit(host_labels(h))
}

/// One label on the wire: its length byte and its lowered bytes; an empty
/// label contributes nothing.
pub open spec fn label_wire(l: Seq<u8>) -> Seq<u8>
    recommends
        l.len() <= 255,
{
    if l.len() == 0 {
        Seq::empty()
    } else {
        seq![l.len() as u8] + lower_all(l)
    }
}

/// The QNAME without its terminator: each label on the wire, in order.
pub open spec fn qname_body(labels: Seq<Seq<u8>>) -> Seq<u8>
    decreases labels.len(),
{
    if labels.len() == 0 {
        Seq::empty()
    } else {
        label_wire(labels[0]) + qname_body(labels.skip(1))
    }
}

/// The full QNAME: the labels on the wire, ended by the zero byte of the
/// root's null label.
pub open spec fn qname_bytes(labels: Seq<Seq<u8>>) -> Seq<u8> {
    qname_body(labels) + seq![0u8]
}

/// The 12 header bytes: the transaction id big-endian, the two fixed flag
/// bytes (`0b0000_0101` and zero; see [`crate::flags::spec_query_flags`]),
/// QDCOUNT 1, and ANCOUNT, NSCOUNT and ARCOUNT all zero.
pub open spec fn header_bytes(tx: u16) -> Seq<u8> {
    seq![
        (tx / 256) as u8,
        (tx % 256) as u8,
        0b0000_0101u8,
        0u8,
        0u8,
        1u8,
        0u8,
        0u8,
        0u8,
        0u8,
        0u8,
        0u8,
    ]
}

/// The 4 bytes after the QNAME: QTYPE 1 (host address) and QCLASS 1
/// (Internet), big-endian.
pub open spec fn question_footer() -> Seq<u8> {
    seq![0u8, 1u8, 0u8, 1u8]
}

/// The whole query message for transaction id `tx` and hostname bytes `h`.
pub open spec fn spec_encode(tx: u16, h: Seq<u8>) -> Seq<u8> {
    header_bytes(tx) + qname_bytes(host_labels(h)) + question_footer()
}

/// Appending a label to the emitted prefix extends the QNAME body by exactly
/// that label's wire bytes.
proof fn lemma_qname_body_push(labels: Seq<Seq<u8>>, l: Seq<u8>)
    ensures
        qname_body(labels.push(l)) == qname_body(labels) + label_wire(l),
    decreases labels.len(),
{
    if labels.len() == 0 {
        assert(labels.push(l)[0] == l);
        assert(labels.push(l).skip(1) =~= Seq::<Seq<u8>>::empty());
        assert(qname_body(labels.push(l)) == label_wire(l) + qname_body(
            Seq::<Seq<u8>>::empty(),
        ));
        assert(label_wire(l) + Seq::<u8>::empty() =~= Seq::<u8>::empty() + label_wire(l));
    } else {
        assert(labels.push(l)[0] == labels[0]);
        assert(labels.push(l).skip(1) =~= labels.skip(1).push(l));
        lemma_qname_body_push(labels.skip(1), l);
        assert(qname_body(labels.push(l)) == label_wire(labels[0]) + (qname_body(labels.skip(1))
            + label_wire(l)));
        assert(label_wire(labels[0]) + (qname_body(labels.skip(1)) + label_wire(l))
            =~= (label_wire(labels[0]) + qname_body(labels.skip(1))) + label_wire(l));
    }
}

/// Encodes one query message over the hostname's raw bytes: the header, the
/// QNAME of `host`'s labels, and the question footer. Fails exactly when
/// some label is longer than 255 bytes, and then yields no bytes at all.
pub fn encode_bytes(tx: u16, host: &[u8]) -> (r: Result<Vec<u8>, EncodeError>)
    ensures
        r is Ok <==> encodable(host@),
        r matches Ok(buf) ==> buf@ == spec_encode(tx, host@),
        r matches Err(e) ==> e == EncodeError::LabelTooLong,
{
    let mut out: Vec<u8> = Vec::new();
    out.push((tx / 256) as u8);
    out.push((tx % 256) as u8);
    out.push(0b0000_0101u8);
    out.push(0u8);
    out.push(0u8);
    out.push(1u8);
    out.push(0u8);
    out.push(0u8);
    out.push(0u8);
    out.push(0u8);
    out.push(0u8);
    out.push(0u8);
    assert(out@ =~= header_bytes(tx));

    let ghost mut done: Seq<Seq<u8>> = Seq::empty();
    let ghost mut raw: Seq<u8> = Seq::empty();
    let mut cur: Vec<u8> = Vec::new();
    let mut i: usize = 0;
    proof {
        assert(host@.skip(0) =~= host@);
    }
    while i < host.len()
        invariant
            i <= host@.len(),
            host_labels(host@) == done + split_labels_from(host@.skip(i as int), raw),
            labels_fit(done),
            cur@ == lower_all(raw),
            out@ == header_bytes(tx) + qname_body(done),
        decreases host@.len() - i,
    {
        let b = host[i];
        proof {
            assert(host@.skip(i as int)[0] == b);
            assert(host@.skip(i as int).skip(1) =~= host@.skip(i + 1));
        }
        if b == 46 {
            if cur.len() > 255 {
                proof {
                    let labels = host_labels(host@);
                    assert(split_labels_from(host@.skip(i as int), raw) == seq![raw]
                        + split_labels_from(host@.skip(i + 1), Seq::empty()));
                    assert(labels[done.len() as int] == raw);
                    assert(raw.len() == cur@.len());
                    assert(!labels_fit(labels));
                }
                return Err(EncodeError::LabelTooLong);
            }
            if cur.len() > 0 {
                out.push(cur.len() as u8);
                out.extend_from_slice(cur.as_slice());
            }
            proof {
                lemma_qname_body_push(done, raw);
                assert(label_wire(raw) =~= if raw.len() == 0 {
                    Seq::<u8>::empty()
                } else {
                    seq![raw.len() as u8] + cur@
                });
                assert(out@ =~= header_bytes(tx) + qname_body(done.push(raw)));
                assert(labels_fit(done.push(raw)));
                assert(done.push(raw) + split_labels_from(host@.skip(i + 1), Seq::empty())
                    =~= done + (seq![raw] + split_labels_from(host@.skip(i + 1), Seq::empty())));
                done = done.push(raw);
                raw = Seq::empty();
            }
            cur = Vec::new();
        } else {
            let lb = if 65 <= b && b <= 90 {
                b + 32
            } else {
                b
            };
            cur.push(lb);
            proof {
                assert(split_labels_from(host@.skip(i as int), raw) == split_labels_from(
                    host@.skip(i + 1),
                    raw.push(b),
                ));
                assert(cur@ =~= lower_all(raw.push(b)));
                raw = raw.push(b);
            }
        }
        i += 1;
    }
    proof {
        assert(host@.skip(i as int) =~= Seq::<u8>::empty());
        assert(host_labels(host@) == done + seq![raw]);
        assert(host_labels(host@) =~= done.push(raw));
    }
    if cur.len() > 255 {
        proof {
            assert(host_labels(host@)[done.len() as int] == raw);
            assert(!labels_fit(host_labels(host@)));
        }
        return Err(EncodeError::LabelTooLong);
    }
    if cur.len() > 0 {
        out.push(cur.len() as u8);
        out.extend_from_slice(cur.as_slice());
    }
    proof {
        lemma_qname_body_push(done, raw);
        assert(label_wire(raw) =~= if raw.len() == 0 {
            Seq::<u8>::empty()
        } else {
            seq![raw.len() as u8] + cur@
        });
        assert(out@ =~= header_bytes(tx) + qname_body(host_labels(host@)));
        assert(labels_fit(host_labels(host@)));
    }
    out.push(0u8);
    out.push(0u8);
    out.push(1u8);
    out.push(0u8);
    out.push(1u8);
    assert(out@ =~= spec_encode(tx, host@));
    Ok(out)
}

/// Encodes the query for `tx` and `hostname`, working on the hostname's
/// UTF-8 bytes; pure, so repeated calls on the same inputs agree.
pub fn encode(tx: u16, hostname: &str) -> (r: Result<Vec<u8>, EncodeError>)
    ensures
        r is Ok <==> encodable(hostname.spec_bytes()),
        r matches Ok(buf) ==> buf@ == spec_encode(tx, hostname.spec_bytes()),
        r matches Err(e) ==> e == EncodeError::LabelTooLong,
{
    encode_bytes(tx, hostname.as_bytes())
}

impl DnsQuestion {
    /// The question's wire bytes: [`spec_encode`] of its transaction id and
    /// its hostname's UTF-8 bytes.
    pub fn tobuf(&self) -> (r: Result<Vec<u8>, EncodeError>)
        ensures
            r is Ok <==> encodable(encode_utf8(self.hostname@)),
            r matches Ok(buf) ==> buf@ == spec_encode(self.tx, encode_utf8(self.hostname@)),
            r matches Err(e) ==> e == EncodeError::LabelTooLong,
    {
        encode(self.tx, self.hostname.as_str())
    }
}

/// The wire length of a label sequence's QNAME body: one length byte and the
/// label's bytes for each non-empty label.
pub open spec fn labels_wire_len(labels: Seq<Seq<u8>>) -> int
    decreases labels.len(),
{
    if labels.len() == 0 {
        0
    } else {
        label_wire(labels[0]).len() + labels_wire_len(labels.skip(1))
    }
}

proof fn lemma_qname_body_len(labels: Seq<Seq<u8>>)
    ensures
        qname_body(labels).len() == labels_wire_len(labels),
    decreases labels.len(),
{
    if labels.len() > 0 {
        lemma_qname_body_len(labels.skip(1));
    }
}

/// An encoded query's length is the 12 header bytes, then for each non-empty
/// label of the hostname one length byte plus the label, then the
/// terminating zero byte and the 4 footer bytes.
pub proof fn lemma_encode_len(tx: u16, h: Seq<u8>)
    ensures
        spec_encode(tx, h).len() == 12 + labels_wire_len(host_labels(h)) + 1 + 4,
{
    lemma_qname_body_len(host_labels(h));
}

/// Encoding is deterministic: any two buffers that encode the same
/// transaction id and hostname bytes are byte-identical.
pub proof fn lemma_encode_deterministic(tx: u16, h: Seq<u8>, b1: Seq<u8>, b2: Seq<u8>)
    requires
        b1 == spec_encode(tx, h),
        b2 == spec_encode(tx, h),
    ensures
        b1 == b2,
{
}

/// The fixed flag bytes the header carries are exactly the packing of the
/// crate's query flags: the bit layout is written down once, in `flags`.
pub proof fn lemma_header_flag_bytes(tx: u16)
    ensures
        header_bytes(tx)[2] == crate::flags::spec_flags_byte1(crate::flags::spec_query_flags()),
        header_bytes(tx)[3] == crate::flags::spec_flags_byte2(crate::flags::spec_query_flags()),
{
}

/// A hostname with any label longer than 255 bytes is not encodable, so
/// [`encode`] rejects it and produces no output at all.
pub proof fn lemma_overlong_label_unencodable(h: Seq<u8>, i: int)
    requires
        0 <= i < host_labels(h).len(),
        host_labels(h)[i].len() > 255,
    ensures
        !encodable(h),
{
}

} // verus!
