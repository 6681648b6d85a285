//! HTTP status lines inside `propstat`/`response` elements, and the
//! interpretation of numeric status codes as operation outcomes.

use vstd::prelude::*;

use crate::error::{DecodeError, WebdavError};

verus! {

/// Mathematical model of a status line.
#[verifier::ext_equal]
pub struct StatusModel {
    pub version: Seq<u8>,
    pub code: u16,
    pub reason: Seq<u8>,
}

/// A parsed HTTP status line: protocol version, numeric code, reason
/// phrase.
#[derive(Debug, PartialEq, Eq)]
pub struct Status {
    pub version: Vec<u8>,
    pub code: u16,
    pub reason: Vec<u8>,
}

impl View for Status {
    type V = StatusModel;

    open spec fn view(&self) -> StatusModel {
        StatusModel { version: self.version@, code: self.code, reason: self.reason@ }
    }
}

/// Index of the first occurrence of `b` in `t` at or after `from`, or
/// `t.len()` if there is none.
pub open spec fn sp_find(t: Seq<u8>, b: u8, from: int) -> int
    decreases t.len() - from,
{
    if from < 0 || from >= t.len() {
        t.len() as int
    } else if t[from] == b {
        from
    } else {
        sp_find(t, b, from + 1)
    }
}

/// An ASCII decimal digit.
pub open spec fn sp_is_digit(b: u8) -> bool {
    48 <= b <= 57
}

/// Parsing a status line `HTTP/<version> <code> <reason>`: decoding
/// fails unless all three tokens are present and `<code>` is a
/// three-digit integer.
pub open spec fn sp_parse_status(t: Seq<u8>) -> Result<StatusModel, DecodeError> {
    let sp1 = sp_find(t, 32, 0);
    if sp1 < 6 || sp1 + 5 >= t.len() {
        Err(DecodeError::InvalidStatusLine)
    } else if !(t[0] == 72 && t[1] == 84 && t[2] == 84 && t[3] == 80 && t[4] == 47) {
        Err(DecodeError::InvalidStatusLine)
    } else if !(sp_is_digit(t[sp1 + 1]) && sp_is_digit(t[sp1 + 2]) && sp_is_digit(t[sp1 + 3]))
        || t[sp1 + 4] != 32 {
        Err(DecodeError::InvalidStatusLine)
    } else {
        Ok(
            StatusModel {
                version: t.subrange(5, sp1),
                code: (100 * ((t[sp1 + 1] - 48) as u16) + 10 * ((t[sp1 + 2] - 48) as u16) + ((
                t[sp1 + 3] - 48) as u16)) as u16,
                reason: t.subrange(sp1 + 5, t.len() as int),
            },
        )
    }
}

/// The three ASCII digits of a code in `100..=999`.
pub open spec fn sp_code_digits(c: u16) -> Seq<u8> {
    seq![(48 + c / 100) as u8, (48 + (c % 100) / 10) as u8, (48 + c % 10) as u8]
}

/// Rendering a status line from its parts.
pub open spec fn sp_render_status(s: StatusModel) -> Seq<u8> {
    seq![72u8, 84, 84, 80, 47] + s.version + seq![32u8] + sp_code_digits(s.code) + seq![32u8]
        + s.reason
}

/// A status value whose rendering parses back to itself: non-empty
/// version without spaces, three-digit code, non-empty reason.
pub open spec fn wf_status(s: StatusModel) -> bool {
    &&& s.version.len() > 0
    &&& forall|i: int| 0 <= i < s.version.len() ==> s.version[i] != 32
    &&& 100 <= s.code <= 999
    &&& s.reason.len() > 0
}

proof fn lemma_find_from(t: Seq<u8>, b: u8, from: int, k: int)
    requires
        0 <= from <= k < t.len(),
        t[k] == b,
        forall|j: int| from <= j < k ==> t[j] != b,
    ensures
        sp_find(t, b, from) == k,
    decreases k - from,
{
    if from < k {
        lemma_find_from(t, b, from + 1, k);
    }
}

/// Parsing is a left inverse of rendering on well-formed status values.
pub proof fn lemma_status_roundtrip(s: StatusModel)
    requires
        wf_status(s),
    ensures
        sp_parse_status(sp_render_status(s)) == Ok::<StatusModel, DecodeError>(s),
{
    let t = sp_render_status(s);
    let vl = s.version.len() as int;
    assert(t.len() == 5 + vl + 1 + 3 + 1 + s.reason.len());
    assert(t[5 + vl] == 32);
    assert forall|j: int| 0 <= j < 5 + vl implies t[j] != 32 by {
        if j >= 5 {
            assert(t[j] == s.version[j - 5]);
        }
    }
    lemma_find_from(t, 32, 0, 5 + vl);
    let sp1 = 5 + vl;
    let c = s.code as int;
    assert(t[sp1 + 1] == (48 + c / 100) as u8);
    assert(t[sp1 + 2] == (48 + (c % 100) / 10) as u8);
    assert(t[sp1 + 3] == (48 + c % 10) as u8);
    assert(c == 100 * (c / 100) + (c % 100));
    assert(c % 100 == 10 * ((c % 100) / 10) + (c % 100) % 10);
    assert((c % 100) % 10 == c % 10);
    assert(sp_parse_status(t) is Ok);
    let p = sp_parse_status(t)->Ok_0;
    assert(p.version =~= s.version);
    assert(p.reason =~= s.reason);
    assert(p.code == s.code);
}

impl Status {
    /// Parse a status line, decoding failure if the three tokens are not
    /// present or the code is not a three-digit integer.
    pub fn parse(t: &Vec<u8>) -> (r: Result<Status, DecodeError>)
        ensures
            crate::element::res_model(r) == sp_parse_status(t@),
    {
        let n = t.len();
        let mut sp1: usize = 0;
        while sp1 < n && t[sp1] != 32
            invariant
                0 <= sp1 <= n,
                n == t@.len(),
                forall|j: int| 0 <= j < sp1 ==> t@[j] != 32,
            decreases n - sp1,
        {
            sp1 += 1;
        }
        proof {
            if sp1 < n {
                lemma_find_from(t@, 32, 0, sp1 as int);
            } else {
                assert(sp_find(t@, 32, 0) == t@.len()) by {
                    lemma_find_none(t@, 32, 0);
                }
            }
        }
        if sp1 < 6 || sp1 >= n || n - sp1 <= 5 {
            return Err(DecodeError::InvalidStatusLine);
        }
        if !(t[0] == 72 && t[1] == 84 && t[2] == 84 && t[3] == 80 && t[4] == 47) {
            return Err(DecodeError::InvalidStatusLine);
        }
        let d0 = t[sp1 + 1];
        let d1 = t[sp1 + 2];
        let d2 = t[sp1 + 3];
        if !(48 <= d0 && d0 <= 57 && 48 <= d1 && d1 <= 57 && 48 <= d2 && d2 <= 57) || t[sp1 + 4]
            != 32 {
            return Err(DecodeError::InvalidStatusLine);
        }
        let code: u16 = 100 * ((d0 - 48) as u16) + 10 * ((d1 - 48) as u16) + ((d2 - 48) as u16);
        let mut version: Vec<u8> = Vec::new();
        let mut i: usize = 5;
        while i < sp1
            invariant
                5 <= i <= sp1,
                sp1 < n,
                n == t@.len(),
                version@ =~= t@.subrange(5, i as int),
            decreases sp1 - i,
        {
            version.push(t[i]);
            i += 1;
        }
        let mut reason: Vec<u8> = Vec::new();
        let mut j: usize = sp1 + 5;
        while j < n
            invariant
                sp1 + 5 <= j <= n,
                n == t@.len(),
                reason@ =~= t@.subrange(sp1 + 5, j as int),
            decreases n - j,
        {
            reason.push(t[j]);
            j += 1;
        }
        let s = Status { version, code, reason };
        proof {
            assert(s@.version =~= t@.subrange(5, sp1 as int));
            assert(s@.reason =~= t@.subrange(sp1 + 5, t@.len() as int));
        }
        Ok(s)
    }

    /// Render the status line these parts came from.
    pub fn render(&self) -> (r: Vec<u8>)
        requires
            100 <= self.code <= 999,
        ensures
            r@ == sp_render_status(self@),
    {
        let mut out: Vec<u8> = Vec::new();
        out.push(72);
        out.push(84);
        out.push(84);
        out.push(80);
        out.push(47);
        let mut i: usize = 0;
        while i < self.version.len()
            invariant
                i <= self.version@.len(),
                out@ =~= seq![72u8, 84, 84, 80, 47] + self.version@.subrange(0, i as int),
            decreases self.version@.len() - i,
        {
            out.push(self.version[i]);
            i += 1;
        }
        out.push(32);
        out.push(48 + (self.code / 100) as u8);
        out.push(48 + ((self.code % 100) / 10) as u8);
        out.push(48 + (self.code % 10) as u8);
        out.push(32);
        let ghost mid = out@;
        let mut j: usize = 0;
        while j < self.reason.len()
            invariant
                j <= self.reason@.len(),
                out@ =~= mid + self.reason@.subrange(0, j as int),
            decreases self.reason@.len() - j,
        {
            out.push(self.reason[j]);
            j += 1;
        }
        proof {
            assert(self.version@.subrange(0, self.version@.len() as int) =~= self.version@);
            assert(self.reason@.subrange(0, self.reason@.len() as int) =~= self.reason@);
            assert(out@ =~= sp_render_status(self@));
        }
        out
    }
}

proof fn lemma_find_none(t: Seq<u8>, b: u8, from: int)
    requires
        0 <= from <= t.len(),
        forall|j: int| from <= j < t.len() ==> t[j] != b,
    ensures
        sp_find(t, b, from) == t.len(),
    decreases t.len() - from,
{
    if from < t.len() {
        lemma_find_none(t, b, from + 1);
    }
}

/// Success of a numeric status code: any 2xx.
pub open spec fn sp_is_success(code: u16) -> bool {
    200 <= code < 300
}

/// The error a non-success status code maps to.
pub open spec fn sp_status_error(code: u16) -> WebdavError {
    if code == 401 {
        WebdavError::AuthenticationFailed
    } else if code == 403 {
        WebdavError::AccessDenied
    } else if code == 400 || code == 404 {
        WebdavError::NotFound
    } else {
        WebdavError::ProtocolError
    }
}

/// The outcome of a status code: success for 2xx, the mapped error
/// otherwise.
pub open spec fn sp_status_outcome(code: u16) -> Result<(), WebdavError> {
    if sp_is_success(code) {
        Ok(())
    } else {
        Err(sp_status_error(code))
    }
}

/// Interpret a numeric status code as an operation outcome.
pub fn interpret_status(code: u16) -> (r: Result<(), WebdavError>)
    ensures
        r == sp_status_outcome(code),
{
    if 200 <= code && code < 300 {
        Ok(())
    } else if code == 401 {
        Err(WebdavError::AuthenticationFailed)
    } else if code == 403 {
        Err(WebdavError::AccessDenied)
    } else if code == 400 || code == 404 {
        Err(WebdavError::NotFound)
    } else {
        Err(WebdavError::ProtocolError)
    }
}

/// Status-code interpretation is total and deterministic: every 2xx code
/// succeeds, 401 is an authentication failure, 403 is access denied,
/// 400 and 404 are not-found, and every other non-2xx code is a protocol
/// error.
pub proof fn lemma_status_mapping(code: u16)
    ensures
        sp_is_success(code) <==> sp_status_outcome(code) == Ok::<(), WebdavError>(()),
        sp_status_outcome(401) == Err::<(), WebdavError>(WebdavError::AuthenticationFailed),
        sp_status_outcome(403) == Err::<(), WebdavError>(WebdavError::AccessDenied),
        sp_status_outcome(400) == Err::<(), WebdavError>(WebdavError::NotFound),
        sp_status_outcome(404) == Err::<(), WebdavError>(WebdavError::NotFound),
        !sp_is_success(code) && code != 401 && code != 403 && code != 400 && code != 404
            ==> sp_status_outcome(code) == Err::<(), WebdavError>(WebdavError::ProtocolError),
{
}

} // verus!
