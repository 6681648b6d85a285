//! Qualified names: the (namespace URI, local name) identity of an XML
//! element, and the fixed names of the RFC 4918 vocabulary.

use vstd::prelude::*;

use crate::bytes::bytes_eq;

verus! {

/// Mathematical model of a qualified name.
#[verifier::ext_equal]
pub struct QnModel {
    pub ns: Seq<u8>,
    pub local: Seq<u8>,
}

/// A qualified name: namespace URI and local name, as UTF-8 bytes.
#[derive(Debug, PartialEq, Eq)]
pub struct QName {
    pub ns: Vec<u8>,
    pub local: Vec<u8>,
}

impl View for QName {
    type V = QnModel;

    open spec fn view(&self) -> QnModel {
        QnModel { ns: self.ns@, local: self.local@ }
    }
}

impl QName {
    /// Equality of qualified names, byte for byte.
    pub fn matches(&self, other: &QName) -> (r: bool)
        ensures
            r == (self@ == other@),
    {
        let r = bytes_eq(&self.ns, &other.ns) && bytes_eq(&self.local, &other.local);
        if r {
            assert(self@ =~= other@);
        }
        r
    }
}

/// The WebDAV namespace URI, `DAV:`.
pub open spec fn dav_ns() -> Seq<u8> {
    seq![68u8, 65, 86, 58]
}

pub open spec fn ln_multistatus() -> Seq<u8> {
    seq![109u8, 117, 108, 116, 105, 115, 116, 97, 116, 117, 115]
}

pub open spec fn ln_response() -> Seq<u8> {
    seq![114u8, 101, 115, 112, 111, 110, 115, 101]
}

pub open spec fn ln_responsedescription() -> Seq<u8> {
    seq![114u8, 101, 115, 112, 111, 110, 115, 101, 100, 101, 115, 99, 114, 105, 112, 116, 105, 111, 110]
}

pub open spec fn ln_propstat() -> Seq<u8> {
    seq![112u8, 114, 111, 112, 115, 116, 97, 116]
}

pub open spec fn ln_prop() -> Seq<u8> {
    seq![112u8, 114, 111, 112]
}

pub open spec fn ln_href() -> Seq<u8> {
    seq![104u8, 114, 101, 102]
}

pub open spec fn ln_status() -> Seq<u8> {
    seq![115u8, 116, 97, 116, 117, 115]
}

pub open spec fn ln_creationdate() -> Seq<u8> {
    seq![99u8, 114, 101, 97, 116, 105, 111, 110, 100, 97, 116, 101]
}

pub open spec fn ln_getlastmodified() -> Seq<u8> {
    seq![103u8, 101, 116, 108, 97, 115, 116, 109, 111, 100, 105, 102, 105, 101, 100]
}

pub open spec fn ln_getcontentlength() -> Seq<u8> {
    seq![103u8, 101, 116, 99, 111, 110, 116, 101, 110, 116, 108, 101, 110, 103, 116, 104]
}

pub open spec fn ln_resourcetype() -> Seq<u8> {
    seq![114u8, 101, 115, 111, 117, 114, 99, 101, 116, 121, 112, 101]
}

pub open spec fn ln_collection() -> Seq<u8> {
    seq![99u8, 111, 108, 108, 101, 99, 116, 105, 111, 110]
}

pub open spec fn qn_multistatus() -> QnModel {
    QnModel { ns: dav_ns(), local: ln_multistatus() }
}

pub open spec fn qn_response() -> QnModel {
    QnModel { ns: dav_ns(), local: ln_response() }
}

pub open spec fn qn_responsedescription() -> QnModel {
    QnModel { ns: dav_ns(), local: ln_responsedescription() }
}

pub open spec fn qn_propstat() -> QnModel {
    QnModel { ns: dav_ns(), local: ln_propstat() }
}

pub open spec fn qn_prop() -> QnModel {
    QnModel { ns: dav_ns(), local: ln_prop() }
}

pub open spec fn qn_href() -> QnModel {
    QnModel { ns: dav_ns(), local: ln_href() }
}

pub open spec fn qn_status() -> QnModel {
    QnModel { ns: dav_ns(), local: ln_status() }
}

pub open spec fn qn_creationdate() -> QnModel {
    QnModel { ns: dav_ns(), local: ln_creationdate() }
}

pub open spec fn qn_getlastmodified() -> QnModel {
    QnModel { ns: dav_ns(), local: ln_getlastmodified() }
}

pub open spec fn qn_getcontentlength() -> QnModel {
    QnModel { ns: dav_ns(), local: ln_getcontentlength() }
}

pub open spec fn qn_resourcetype() -> QnModel {
    QnModel { ns: dav_ns(), local: ln_resourcetype() }
}

pub open spec fn qn_collection() -> QnModel {
    QnModel { ns: dav_ns(), local: ln_collection() }
}


/// The fixed RFC 4918 names are pairwise distinct where the decoders
/// rely on it.
pub proof fn lemma_qn_distinct()
    ensures
        qn_prop() != qn_status(),
        qn_prop() != qn_responsedescription(),
        qn_prop() != qn_href(),
        qn_prop() != qn_propstat(),
        qn_status() != qn_responsedescription(),
        qn_href() != qn_propstat(),
        qn_href() != qn_status(),
        qn_href() != qn_responsedescription(),
        qn_propstat() != qn_status(),
        qn_propstat() != qn_responsedescription(),
        qn_response() != qn_responsedescription(),
{
    assert(ln_prop().len() == 4);
    assert(ln_href().len() == 4);
    assert(ln_status().len() == 6);
    assert(ln_propstat().len() == 8);
    assert(ln_response().len() == 8);
    assert(ln_responsedescription().len() == 19);
    assert(ln_prop()[0] == 112);
    assert(ln_href()[0] == 104);
    assert(ln_propstat()[0] == 112);
    assert(ln_response()[0] == 114);
}

/// The `DAV:` namespace bytes, executable.
pub fn dav_ns_bytes() -> (v: Vec<u8>)
    ensures
        v@ == dav_ns(),
{
    let v = vec![68u8, 65, 86, 58];
    assert(v@ =~= dav_ns());
    v
}

/// The `DAV:` qualified name of the `multistatus` element.
pub fn qname_multistatus() -> (q: QName)
    ensures
        q@ == qn_multistatus(),
{
    let local = vec![109u8, 117, 108, 116, 105, 115, 116, 97, 116, 117, 115];
    assert(local@ =~= ln_multistatus());
    let q = QName { ns: dav_ns_bytes(), local };
    assert(q@ =~= qn_multistatus());
    q
}

/// The `DAV:` qualified name of the `response` element.
pub fn qname_response() -> (q: QName)
    ensures
        q@ == qn_response(),
{
    let local = vec![114u8, 101, 115, 112, 111, 110, 115, 101];
    assert(local@ =~= ln_response());
    let q = QName { ns: dav_ns_bytes(), local };
    assert(q@ =~= qn_response());
    q
}

/// The `DAV:` qualified name of the `responsedescription` element.
pub fn qname_responsedescription() -> (q: QName)
    ensures
        q@ == qn_responsedescription(),
{
    let local = vec![114u8, 101, 115, 112, 111, 110, 115, 101, 100, 101, 115, 99, 114, 105, 112, 116, 105, 111, 110];
    assert(local@ =~= ln_responsedescription());
    let q = QName { ns: dav_ns_bytes(), local };
    assert(q@ =~= qn_responsedescription());
    q
}

/// The `DAV:` qualified name of the `propstat` element.
pub fn qname_propstat() -> (q: QName)
    ensures
        q@ == qn_propstat(),
{
    let local = vec![112u8, 114, 111, 112, 115, 116, 97, 116];
    assert(local@ =~= ln_propstat());
    let q = QName { ns: dav_ns_bytes(), local };
    assert(q@ =~= qn_propstat());
    q
}

/// The `DAV:` qualified name of the `prop` element.
pub fn qname_prop() -> (q: QName)
    ensures
        q@ == qn_prop(),
{
    let local = vec![112u8, 114, 111, 112];
    assert(local@ =~= ln_prop());
    let q = QName { ns: dav_ns_bytes(), local };
    assert(q@ =~= qn_prop());
    q
}

/// The `DAV:` qualified name of the `href` element.
pub fn qname_href() -> (q: QName)
    ensures
        q@ == qn_href(),
{
    let local = vec![104u8, 114, 101, 102];
    assert(local@ =~= ln_href());
    let q = QName { ns: dav_ns_bytes(), local };
    assert(q@ =~= qn_href());
    q
}

/// The `DAV:` qualified name of the `status` element.
pub fn qname_status() -> (q: QName)
    ensures
        q@ == qn_status(),
{
    let local = vec![115u8, 116, 97, 116, 117, 115];
    assert(local@ =~= ln_status());
    let q = QName { ns: dav_ns_bytes(), local };
    assert(q@ =~= qn_status());
    q
}

/// The `DAV:` qualified name of the `creationdate` element.
pub fn qname_creationdate() -> (q: QName)
    ensures
        q@ == qn_creationdate(),
{
    let local = vec![99u8, 114, 101, 97, 116, 105, 111, 110, 100, 97, 116, 101];
    assert(local@ =~= ln_creationdate());
    let q = QName { ns: dav_ns_bytes(), local };
    assert(q@ =~= qn_creationdate());
    q
}

/// The `DAV:` qualified name of the `getlastmodified` element.
pub fn qname_getlastmodified() -> (q: QName)
    ensures
        q@ == qn_getlastmodified(),
{
    let local = vec![103u8, 101, 116, 108, 97, 115, 116, 109, 111, 100, 105, 102, 105, 101, 100];
    assert(local@ =~= ln_getlastmodified());
    let q = QName { ns: dav_ns_bytes(), local };
    assert(q@ =~= qn_getlastmodified());
    q
}

/// The `DAV:` qualified name of the `getcontentlength` element.
pub fn qname_getcontentlength() -> (q: QName)
    ensures
        q@ == qn_getcontentlength(),
{
    let local = vec![103u8, 101, 116, 99, 111, 110, 116, 101, 110, 116, 108, 101, 110, 103, 116, 104];
    assert(local@ =~= ln_getcontentlength());
    let q = QName { ns: dav_ns_bytes(), local };
    assert(q@ =~= qn_getcontentlength());
    q
}

/// The `DAV:` qualified name of the `resourcetype` element.
pub fn qname_resourcetype() -> (q: QName)
    ensures
        q@ == qn_resourcetype(),
{
    let local = vec![114u8, 101, 115, 111, 117, 114, 99, 101, 116, 121, 112, 101];
    assert(local@ =~= ln_resourcetype());
    let q = QName { ns: dav_ns_bytes(), local };
    assert(q@ =~= qn_resourcetype());
    q
}

/// The `DAV:` qualified name of the `collection` element.
pub fn qname_collection() -> (q: QName)
    ensures
        q@ == qn_collection(),
{
    let local = vec![99u8, 111, 108, 108, 101, 99, 116, 105, 111, 110];
    assert(local@ =~= ln_collection());
    let q = QName { ns: dav_ns_bytes(), local };
    assert(q@ =~= qn_collection());
    q
}

} // verus!
