//! The response-to-file reducer: from an outer transport status and a
//! raw body to a list of file records or a typed error.

use vstd::prelude::*;

use crate::elements::{sp_decode_multistatus, Multistatus};
use crate::element::Element;
use crate::error::WebdavError;
use crate::qname::{qn_multistatus, qname_multistatus};
use crate::reduce::{files_from_multistatus, recs_model, sp_files, FileRecModel, FileRecord};
use crate::status::{interpret_status, sp_is_success, sp_status_error, sp_status_outcome};
use crate::xml::{parse_xml, sp_parse_xml};

verus! {

/// The record list a body decodes to, if the bytes parse as a
/// multistatus document.
pub open spec fn sp_body_files(body: Seq<u8>) -> Option<Seq<FileRecModel>> {
    match sp_parse_xml(body) {
        None => None,
        Some((q, v)) => if q == qn_multistatus() {
            match sp_decode_multistatus(v) {
                Ok(ms) => Some(sp_files(ms)),
                Err(_) => None,
            }
        } else {
            None
        },
    }
}

/// The outcome of a whole read operation: a failing outer status maps
/// through the status interpreter without touching the body; otherwise
/// the body either decodes to the record list or is a protocol error.
pub open spec fn sp_files_outcome(status: u16, body: Seq<u8>) -> Result<
    Seq<FileRecModel>,
    WebdavError,
> {
    if !sp_is_success(status) {
        Err(sp_status_error(status))
    } else {
        match sp_body_files(body) {
            Some(fs) => Ok(fs),
            None => Err(WebdavError::ProtocolError),
        }
    }
}

/// Whether an executable result matches the specified outcome.
pub open spec fn files_outcome_matches(
    status: u16,
    body: Seq<u8>,
    r: Result<Seq<FileRecModel>, WebdavError>,
) -> bool {
    r == sp_files_outcome(status, body)
}

/// One response of the server, as plain values: the outer transport
/// status code and the raw body bytes.
#[derive(Debug, PartialEq)]
pub struct ResponseParser {
    pub status_code: u16,
    pub body: Vec<u8>,
}

impl ResponseParser {
    /// Interpret the outer transport status alone, as mutation
    /// operations do.
    pub fn status(&self) -> (r: Result<(), WebdavError>)
        ensures
            r == sp_status_outcome(self.status_code),
    {
        interpret_status(self.status_code)
    }

    /// Decode the response into file records.  A failing outer status
    /// short-circuits to its mapped error without parsing the body; a
    /// body that does not decode as a multistatus document is a protocol
    /// error.
    pub fn files(self) -> (r: Result<Vec<FileRecord>, WebdavError>)
        ensures
            match r {
                Ok(fs) => files_outcome_matches(
                    self.status_code,
                    self.body@,
                    Ok(recs_model(fs@)),
                ),
                Err(e) => files_outcome_matches(
                    self.status_code,
                    self.body@,
                    Err::<Seq<FileRecModel>, _>(e),
                ),
            },
    {
        match interpret_status(self.status_code) {
            Err(e) => Err(e),
            Ok(()) => {
                let (q, v) = match parse_xml(&self.body) {
                    None => {
                        return Err(WebdavError::ProtocolError);
                    },
                    Some(x) => x,
                };
                if !q.matches(&qname_multistatus()) {
                    return Err(WebdavError::ProtocolError);
                }
                let ms = match Multistatus::from_value(&v) {
                    Err(_) => {
                        return Err(WebdavError::ProtocolError);
                    },
                    Ok(ms) => ms,
                };
                Ok(files_from_multistatus(&ms))
            },
        }
    }
}

/// Decoding is a pure function of the input: two runs on equal status
/// and body yield equal outcomes, record for record.
pub proof fn lemma_files_deterministic(
    status: u16,
    body: Seq<u8>,
    r1: Result<Seq<FileRecModel>, WebdavError>,
    r2: Result<Seq<FileRecModel>, WebdavError>,
)
    requires
        files_outcome_matches(status, body, r1),
        files_outcome_matches(status, body, r2),
    ensures
        r1 == r2,
{
}

/// A failing outer transport status short-circuits body parsing: the
/// outcome is its mapped error whatever the body holds.
pub proof fn lemma_outer_failure_short_circuits(status: u16, b1: Seq<u8>, b2: Seq<u8>)
    requires
        !sp_is_success(status),
    ensures
        sp_files_outcome(status, b1) == Err::<Seq<FileRecModel>, _>(sp_status_error(status)),
        sp_files_outcome(status, b1) == sp_files_outcome(status, b2),
{
}

} // verus!
