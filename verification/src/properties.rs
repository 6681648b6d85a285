//! The typed WebDAV properties this client understands: creation date,
//! last-modified date, content length, and resource type.

use vstd::prelude::*;

use crate::element::Element;
use crate::error::DecodeError;
use crate::qname::{
    qn_collection, qn_creationdate, qn_getcontentlength, qn_getlastmodified, qn_resourcetype,
    qname_collection, qname_creationdate, qname_getcontentlength, qname_getlastmodified,
    qname_resourcetype, QName, QnModel,
};
use crate::status::sp_is_digit;
use crate::timestamp::{
    parse_rfc1123, parse_rfc3339, sp_parse_rfc1123, sp_parse_rfc3339, Timestamp,
};
use crate::value::{sp_lookup, ValModel, Value, ValueMap};

verus! {

/// Every byte an ASCII digit.
pub open spec fn sp_all_digits(t: Seq<u8>) -> bool {
    forall|i: int| 0 <= i < t.len() ==> sp_is_digit(t[i])
}

/// Value of a digit string read in base ten.
pub open spec fn sp_digits_val(t: Seq<u8>) -> int
    decreases t.len(),
{
    if t.len() == 0 {
        0
    } else {
        10 * sp_digits_val(t.drop_last()) + (t.last() - 48)
    }
}

/// Parsing a non-negative decimal integer: at least one digit, digits
/// only, and a value that fits in a `u64`.
pub open spec fn sp_parse_u64(t: Seq<u8>) -> Option<u64> {
    if t.len() == 0 || !sp_all_digits(t) {
        None
    } else if sp_digits_val(t) > u64::MAX {
        None
    } else {
        Some(sp_digits_val(t) as u64)
    }
}

proof fn lemma_digits_val_nonneg(t: Seq<u8>)
    requires
        sp_all_digits(t),
    ensures
        sp_digits_val(t) >= 0,
    decreases t.len(),
{
    if t.len() > 0 {
        lemma_digits_val_nonneg(t.drop_last());
    }
}

proof fn lemma_digits_val_step(t: Seq<u8>, k: int)
    requires
        0 <= k < t.len(),
    ensures
        sp_digits_val(t.take(k + 1)) == 10 * sp_digits_val(t.take(k)) + (t[k] - 48),
    decreases t.len(),
{
    assert(t.take(k + 1).drop_last() =~= t.take(k));
    assert(t.take(k + 1).last() == t[k]);
}

proof fn lemma_digits_val_grow(t: Seq<u8>, k: int)
    requires
        sp_all_digits(t),
        0 <= k <= t.len(),
    ensures
        sp_digits_val(t) >= sp_digits_val(t.take(k)),
    decreases t.len() - k,
{
    if k == t.len() {
        assert(t.take(k) =~= t);
    } else {
        lemma_digits_val_step(t, k);
        assert(sp_all_digits(t.take(k)));
        lemma_digits_val_nonneg(t.take(k));
        lemma_digits_val_grow(t, k + 1);
    }
}

/// Parse a non-negative decimal integer.
pub fn parse_u64(t: &Vec<u8>) -> (r: Option<u64>)
    ensures
        r == sp_parse_u64(t@),
{
    let n = t.len();
    if n == 0 {
        return None;
    }
    let mut acc: u64 = 0;
    let mut i: usize = 0;
    while i < n
        invariant
            0 <= i <= n,
            n == t@.len(),
            sp_all_digits(t@.take(i as int)),
            acc == sp_digits_val(t@.take(i as int)),
        decreases n - i,
    {
        let b = t[i];
        if !(48 <= b && b <= 57) {
            assert(!sp_all_digits(t@));
            return None;
        }
        let d: u64 = (b - 48) as u64;
        proof {
            lemma_digits_val_step(t@, i as int);
            assert(sp_all_digits(t@.take(i as int + 1)));
        }
        if acc > (u64::MAX - d) / 10 {
            proof {
                assert(u64::MAX - d == 10 * ((u64::MAX - d) / 10) + (u64::MAX - d) % 10);
                assert(10 * acc + d > u64::MAX);
                assert(sp_digits_val(t@.take(i as int + 1)) > u64::MAX);
                if sp_all_digits(t@) {
                    lemma_digits_val_grow(t@, i as int + 1);
                    assert(sp_digits_val(t@) > u64::MAX);
                }
            }
            return None;
        }
        proof {
            assert(u64::MAX - d == 10 * ((u64::MAX - d) / 10) + (u64::MAX - d) % 10);
            assert(10 * acc + d <= u64::MAX);
        }
        acc = acc * 10 + d;
        i += 1;
    }
    proof {
        assert(t@.take(n as int) =~= t@);
        lemma_digits_val_nonneg(t@);
    }
    Some(acc)
}

/// The `creationdate` property: an RFC 3339 timestamp.
#[derive(Clone, Copy, Debug, PartialEq, Eq, Structural)]
pub struct CreationDate(pub Timestamp);

impl View for CreationDate {
    type V = Timestamp;

    open spec fn view(&self) -> Timestamp {
        self.0
    }
}

impl Element for CreationDate {
    open spec fn qn() -> QnModel {
        qn_creationdate()
    }

    open spec fn decode_model(v: ValModel) -> Result<Timestamp, DecodeError> {
        match v {
            ValModel::Text(t) => match sp_parse_rfc3339(t) {
                Some(ts) => Ok(ts),
                None => Err(DecodeError::MalformedDate),
            },
            _ => Err(DecodeError::ExpectedText),
        }
    }

    fn qname() -> (q: QName) {
        qname_creationdate()
    }

    fn from_value(v: &Value) -> (r: Result<Self, DecodeError>) {
        match v {
            Value::Text(t) => match parse_rfc3339(t) {
                Some(ts) => Ok(CreationDate(ts)),
                None => Err(DecodeError::MalformedDate),
            },
            _ => Err(DecodeError::ExpectedText),
        }
    }
}

/// The `getlastmodified` property: an RFC 1123 HTTP-date.
#[derive(Clone, Copy, Debug, PartialEq, Eq, Structural)]
pub struct LastModified(pub Timestamp);

impl View for LastModified {
    type V = Timestamp;

    open spec fn view(&self) -> Timestamp {
        self.0
    }
}

impl Element for LastModified {
    open spec fn qn() -> QnModel {
        qn_getlastmodified()
    }

    open spec fn decode_model(v: ValModel) -> Result<Timestamp, DecodeError> {
        match v {
            ValModel::Text(t) => match sp_parse_rfc1123(t) {
                Some(ts) => Ok(ts),
                None => Err(DecodeError::MalformedDate),
            },
            _ => Err(DecodeError::ExpectedText),
        }
    }

    fn qname() -> (q: QName) {
        qname_getlastmodified()
    }

    fn from_value(v: &Value) -> (r: Result<Self, DecodeError>) {
        match v {
            Value::Text(t) => match parse_rfc1123(t) {
                Some(ts) => Ok(LastModified(ts)),
                None => Err(DecodeError::MalformedDate),
            },
            _ => Err(DecodeError::ExpectedText),
        }
    }
}

/// The `getcontentlength` property: a non-negative integer.
#[derive(Clone, Copy, Debug, PartialEq, Eq, Structural)]
pub struct ContentLength(pub u64);

impl View for ContentLength {
    type V = u64;

    open spec fn view(&self) -> u64 {
        self.0
    }
}

impl Element for ContentLength {
    open spec fn qn() -> QnModel {
        qn_getcontentlength()
    }

    open spec fn decode_model(v: ValModel) -> Result<u64, DecodeError> {
        match v {
            ValModel::Text(t) => match sp_parse_u64(t) {
                Some(n) => Ok(n),
                None => Err(DecodeError::MalformedInteger),
            },
            _ => Err(DecodeError::ExpectedText),
        }
    }

    fn qname() -> (q: QName) {
        qname_getcontentlength()
    }

    fn from_value(v: &Value) -> (r: Result<Self, DecodeError>) {
        match v {
            Value::Text(t) => match parse_u64(t) {
                Some(n) => Ok(ContentLength(n)),
                None => Err(DecodeError::MalformedInteger),
            },
            _ => Err(DecodeError::ExpectedText),
        }
    }
}

/// The `resourcetype` property: a map of marker children, of which a
/// `collection` child marks a directory.
#[derive(Debug, PartialEq)]
pub struct ResourceType(pub ValueMap);

impl View for ResourceType {
    type V = Seq<(QnModel, ValModel)>;

    open spec fn view(&self) -> Seq<(QnModel, ValModel)> {
        self.0@
    }
}

impl Element for ResourceType {
    open spec fn qn() -> QnModel {
        qn_resourcetype()
    }

    open spec fn decode_model(v: ValModel) -> Result<Seq<(QnModel, ValModel)>, DecodeError> {
        match v {
            ValModel::Children(es) => Ok(es),
            _ => Err(DecodeError::ExpectedChildren),
        }
    }

    fn qname() -> (q: QName) {
        qname_resourcetype()
    }

    fn from_value(v: &Value) -> (r: Result<Self, DecodeError>) {
        match v {
            Value::Children(m) => Ok(ResourceType(m.duplicate())),
            _ => Err(DecodeError::ExpectedChildren),
        }
    }
}

impl ResourceType {
    /// Whether a `collection` marker child is present.
    pub fn is_collection(&self) -> (r: bool)
        ensures
            r == (sp_lookup(self@, qn_collection()) is Some),
    {
        self.0.get_value(&qname_collection()).is_some()
    }
}

/// The `collection` marker element inside `resourcetype`.
#[derive(Clone, Copy, Debug, PartialEq, Eq, Structural)]
pub struct Collection;

impl View for Collection {
    type V = ();

    open spec fn view(&self) -> () {
        ()
    }
}

impl Element for Collection {
    open spec fn qn() -> QnModel {
        qn_collection()
    }

    open spec fn decode_model(v: ValModel) -> Result<(), DecodeError> {
        Ok(())
    }

    fn qname() -> (q: QName) {
        qname_collection()
    }

    fn from_value(v: &Value) -> (r: Result<Self, DecodeError>) {
        Ok(Collection)
    }
}

} // verus!
