//! The fixed RFC 4918 document skeleton: `multistatus`, `response`,
//! `propstat`, `prop`, `href`, `status`, `responsedescription`, each
//! decoded from the generic value tree through the shared element
//! contract.

use vstd::prelude::*;

use crate::element::{res_model, Element};
use crate::error::DecodeError;
use crate::qname::{
    qn_href, qn_multistatus, qn_prop, qn_propstat, qn_response, qn_responsedescription, qn_status,
    qname_href, qname_multistatus, qname_prop, qname_propstat, qname_response,
    qname_responsedescription, qname_status, QName, QnModel,
};
use crate::status::{sp_parse_status, Status, StatusModel};
use crate::value::{
    copy_bytes, lemma_list_model, list_model, sp_lookup, ValModel, Value, ValueMap,
};

verus! {

/// The `href` element: a pass-through URI/path wrapper, no
/// normalization.
#[derive(Debug, PartialEq, Eq)]
pub struct Href(pub Vec<u8>);

impl View for Href {
    type V = Seq<u8>;

    open spec fn view(&self) -> Seq<u8> {
        self.0@
    }
}

/// The `responsedescription` element: free text.
#[derive(Debug, PartialEq, Eq)]
pub struct ResponseDescription(pub Vec<u8>);

impl View for ResponseDescription {
    type V = Seq<u8>;

    open spec fn view(&self) -> Seq<u8> {
        self.0@
    }
}

/// The `prop` element: arbitrary named properties, read through the
/// typed accessors.
#[derive(Debug, PartialEq)]
pub struct Properties(pub ValueMap);

impl View for Properties {
    type V = Seq<(QnModel, ValModel)>;

    open spec fn view(&self) -> Seq<(QnModel, ValModel)> {
        self.0@
    }
}

/// One property-status block: the properties and the status that applied
/// to retrieving them.
#[derive(Debug, PartialEq)]
pub struct Propstat {
    pub prop: Properties,
    pub status: Status,
    pub responsedescription: Option<ResponseDescription>,
}

/// Mathematical model of a [`Propstat`].
#[verifier::ext_equal]
pub struct PropstatModel {
    pub prop: Seq<(QnModel, ValModel)>,
    pub status: StatusModel,
    pub responsedescription: Option<Seq<u8>>,
}

/// Model of an optional response description.
pub open spec fn opt_rd_model(o: Option<ResponseDescription>) -> Option<Seq<u8>> {
    match o {
        None => None,
        Some(rd) => Some(rd@),
    }
}

impl View for Propstat {
    type V = PropstatModel;

    open spec fn view(&self) -> PropstatModel {
        PropstatModel {
            prop: self.prop@,
            status: self.status@,
            responsedescription: opt_rd_model(self.responsedescription),
        }
    }
}

/// Models of a sequence of propstat blocks.
pub open spec fn propstats_model(ps: Seq<Propstat>) -> Seq<PropstatModel> {
    ps.map_values(|p: Propstat| p@)
}

/// Models of a sequence of hrefs.
pub open spec fn hrefs_model(hs: Seq<Href>) -> Seq<Seq<u8>> {
    hs.map_values(|h: Href| h@)
}

/// One per-resource entry of a multistatus: either one or more
/// property-status blocks for a resource, or a resource reported with a
/// single top-level status.
#[derive(Debug, PartialEq)]
pub enum Response {
    Propstat {
        href: Href,
        propstat: Vec<Propstat>,
        responsedescription: Option<ResponseDescription>,
    },
    Status {
        href: Vec<Href>,
        status: Status,
        responsedescription: Option<ResponseDescription>,
    },
}

/// Mathematical model of a [`Response`].
#[verifier::ext_equal]
pub enum ResponseModel {
    Propstat {
        href: Seq<u8>,
        propstat: Seq<PropstatModel>,
        responsedescription: Option<Seq<u8>>,
    },
    Status {
        href: Seq<Seq<u8>>,
        status: StatusModel,
        responsedescription: Option<Seq<u8>>,
    },
}

impl View for Response {
    type V = ResponseModel;

    open spec fn view(&self) -> ResponseModel {
        match self {
            Response::Propstat { href, propstat, responsedescription } => ResponseModel::Propstat {
                href: href@,
                propstat: propstats_model(propstat@),
                responsedescription: opt_rd_model(*responsedescription),
            },
            Response::Status { href, status, responsedescription } => ResponseModel::Status {
                href: hrefs_model(href@),
                status: status@,
                responsedescription: opt_rd_model(*responsedescription),
            },
        }
    }
}

/// Models of a sequence of responses.
pub open spec fn responses_model(rs: Seq<Response>) -> Seq<ResponseModel> {
    rs.map_values(|r: Response| r@)
}

/// The whole `multistatus` document: per-resource entries in document
/// order, and an optional description.
#[derive(Debug, PartialEq)]
pub struct Multistatus {
    pub response: Vec<Response>,
    pub responsedescription: Option<ResponseDescription>,
}

/// Mathematical model of a [`Multistatus`].
#[verifier::ext_equal]
pub struct MultistatusModel {
    pub response: Seq<ResponseModel>,
    pub responsedescription: Option<Seq<u8>>,
}

impl View for Multistatus {
    type V = MultistatusModel;

    open spec fn view(&self) -> MultistatusModel {
        MultistatusModel {
            response: responses_model(self.response@),
            responsedescription: opt_rd_model(self.responsedescription),
        }
    }
}

/// Decoding scalar text, as `href` and `responsedescription` need it.
pub open spec fn sp_decode_text(v: ValModel) -> Result<Seq<u8>, DecodeError> {
    match v {
        ValModel::Text(t) => Ok(t),
        _ => Err(DecodeError::ExpectedText),
    }
}

/// Decoding an optional `responsedescription` child: absent is fine,
/// present-but-empty is empty text.
pub open spec fn sp_opt_rd(es: Seq<(QnModel, ValModel)>) -> Result<
    Option<Seq<u8>>,
    DecodeError,
> {
    match sp_lookup(es, qn_responsedescription()) {
        None => Ok(None),
        Some(ValModel::Empty) => Ok(Some(Seq::empty())),
        Some(v) => match sp_decode_text(v) {
            Ok(t) => Ok(Some(t)),
            Err(e) => Err(e),
        },
    }
}

/// Decoding a `status` child: its text is a status line.
pub open spec fn sp_decode_status_el(v: ValModel) -> Result<StatusModel, DecodeError> {
    match v {
        ValModel::Text(t) => sp_parse_status(t),
        _ => Err(DecodeError::ExpectedText),
    }
}

/// Decoding a `prop` child: a map of named properties; an empty element
/// is an empty property set.
pub open spec fn sp_decode_props(v: ValModel) -> Result<Seq<(QnModel, ValModel)>, DecodeError> {
    match v {
        ValModel::Children(es) => Ok(es),
        ValModel::Empty => Ok(Seq::empty()),
        _ => Err(DecodeError::ExpectedChildren),
    }
}

/// Decoding one `propstat` block: `prop` and `status` are required,
/// `responsedescription` is optional.
pub open spec fn sp_decode_propstat(v: ValModel) -> Result<PropstatModel, DecodeError> {
    match v {
        ValModel::Children(es) => {
            let pr = match sp_lookup(es, qn_prop()) {
                None => Err(DecodeError::MissingProp),
                Some(pv) => sp_decode_props(pv),
            };
            match pr {
                Err(e) => Err(e),
                Ok(prop) => {
                    let st = match sp_lookup(es, qn_status()) {
                        None => Err(DecodeError::MissingStatus),
                        Some(sv) => sp_decode_status_el(sv),
                    };
                    match st {
                        Err(e) => Err(e),
                        Ok(status) => match sp_opt_rd(es) {
                            Err(e) => Err(e),
                            Ok(rd) => Ok(
                                PropstatModel { prop, status, responsedescription: rd },
                            ),
                        },
                    }
                },
            }
        },
        _ => Err(DecodeError::ExpectedChildren),
    }
}

/// Decoding a list of `propstat` values, each a map.
pub open spec fn sp_decode_propstat_list(l: Seq<ValModel>) -> Result<
    Seq<PropstatModel>,
    DecodeError,
>
    decreases l.len(),
{
    if l.len() == 0 {
        Ok(Seq::empty())
    } else {
        match sp_decode_propstat(l[0]) {
            Err(e) => Err(e),
            Ok(p) => match sp_decode_propstat_list(l.skip(1)) {
                Err(e) => Err(e),
                Ok(rest) => Ok(seq![p] + rest),
            },
        }
    }
}

/// Decoding the one-or-many `propstat` child of a `response`.
pub open spec fn sp_decode_propstats(v: ValModel) -> Result<Seq<PropstatModel>, DecodeError> {
    match v {
        ValModel::List(l) => sp_decode_propstat_list(l),
        ValModel::Children(_) => match sp_decode_propstat(v) {
            Err(e) => Err(e),
            Ok(p) => Ok(seq![p]),
        },
        _ => Err(DecodeError::ExpectedChildren),
    }
}

/// Decoding a list of `href` values, each scalar text.
pub open spec fn sp_decode_href_list(l: Seq<ValModel>) -> Result<Seq<Seq<u8>>, DecodeError>
    decreases l.len(),
{
    if l.len() == 0 {
        Ok(Seq::empty())
    } else {
        match sp_decode_text(l[0]) {
            Err(e) => Err(e),
            Ok(h) => match sp_decode_href_list(l.skip(1)) {
                Err(e) => Err(e),
                Ok(rest) => Ok(seq![h] + rest),
            },
        }
    }
}

/// Decoding the one-or-many `href` children of a status-only `response`.
pub open spec fn sp_decode_hrefs(v: ValModel) -> Result<Seq<Seq<u8>>, DecodeError> {
    match v {
        ValModel::List(l) => sp_decode_href_list(l),
        ValModel::Text(t) => Ok(seq![t]),
        _ => Err(DecodeError::ExpectedText),
    }
}

/// Decoding one `response` entry.  A `propstat` child selects the
/// propstat-bearing shape; otherwise a `status` child selects the
/// status-only shape; any other shape is a decode failure.
pub open spec fn sp_decode_response(v: ValModel) -> Result<ResponseModel, DecodeError> {
    match v {
        ValModel::Children(es) => match sp_lookup(es, qn_propstat()) {
            Some(pv) => {
                let hr = match sp_lookup(es, qn_href()) {
                    None => Err(DecodeError::MissingHref),
                    Some(hv) => sp_decode_text(hv),
                };
                match hr {
                    Err(e) => Err(e),
                    Ok(href) => match sp_decode_propstats(pv) {
                        Err(e) => Err(e),
                        Ok(pss) => match sp_opt_rd(es) {
                            Err(e) => Err(e),
                            Ok(rd) => Ok(
                                ResponseModel::Propstat {
                                    href,
                                    propstat: pss,
                                    responsedescription: rd,
                                },
                            ),
                        },
                    },
                }
            },
            None => match sp_lookup(es, qn_status()) {
                Some(sv) => {
                    let hr = match sp_lookup(es, qn_href()) {
                        None => Err(DecodeError::MissingHref),
                        Some(hv) => sp_decode_hrefs(hv),
                    };
                    match hr {
                        Err(e) => Err(e),
                        Ok(hrefs) => match sp_decode_status_el(sv) {
                            Err(e) => Err(e),
                            Ok(status) => match sp_opt_rd(es) {
                                Err(e) => Err(e),
                                Ok(rd) => Ok(
                                    ResponseModel::Status {
                                        href: hrefs,
                                        status,
                                        responsedescription: rd,
                                    },
                                ),
                            },
                        },
                    }
                },
                None => Err(DecodeError::InvalidResponseShape),
            },
        },
        _ => Err(DecodeError::ExpectedChildren),
    }
}

/// Decoding a list of `response` values, each a map.
pub open spec fn sp_decode_response_list(l: Seq<ValModel>) -> Result<
    Seq<ResponseModel>,
    DecodeError,
>
    decreases l.len(),
{
    if l.len() == 0 {
        Ok(Seq::empty())
    } else {
        match sp_decode_response(l[0]) {
            Err(e) => Err(e),
            Ok(r) => match sp_decode_response_list(l.skip(1)) {
                Err(e) => Err(e),
                Ok(rest) => Ok(seq![r] + rest),
            },
        }
    }
}

/// Decoding the `response` child of a `multistatus`: absent or empty is
/// zero entries, a map is one, a list is many.
pub open spec fn sp_decode_responses(v: ValModel) -> Result<Seq<ResponseModel>, DecodeError> {
    match v {
        ValModel::Empty => Ok(Seq::empty()),
        ValModel::List(l) => sp_decode_response_list(l),
        ValModel::Children(_) => match sp_decode_response(v) {
            Err(e) => Err(e),
            Ok(r) => Ok(seq![r]),
        },
        _ => Err(DecodeError::ExpectedChildren),
    }
}

/// Decoding a whole `multistatus` value: an empty element is a
/// multistatus with zero responses.
pub open spec fn sp_decode_multistatus(v: ValModel) -> Result<MultistatusModel, DecodeError> {
    match v {
        ValModel::Empty => Ok(
            MultistatusModel { response: Seq::empty(), responsedescription: None },
        ),
        ValModel::Children(es) => {
            let rs = match sp_lookup(es, qn_response()) {
                None => Ok(Seq::<ResponseModel>::empty()),
                Some(rv) => sp_decode_responses(rv),
            };
            match rs {
                Err(e) => Err(e),
                Ok(response) => match sp_opt_rd(es) {
                    Err(e) => Err(e),
                    Ok(rd) => Ok(MultistatusModel { response, responsedescription: rd }),
                },
            }
        },
        _ => Err(DecodeError::ExpectedChildren),
    }
}

impl Element for Href {
    open spec fn qn() -> QnModel {
        qn_href()
    }

    open spec fn decode_model(v: ValModel) -> Result<Seq<u8>, DecodeError> {
        sp_decode_text(v)
    }

    fn qname() -> (q: QName) {
        qname_href()
    }

    fn from_value(v: &Value) -> (r: Result<Self, DecodeError>) {
        match v {
            Value::Text(t) => Ok(Href(copy_bytes(t))),
            _ => Err(DecodeError::ExpectedText),
        }
    }
}

impl Element for ResponseDescription {
    open spec fn qn() -> QnModel {
        qn_responsedescription()
    }

    open spec fn decode_model(v: ValModel) -> Result<Seq<u8>, DecodeError> {
        sp_decode_text(v)
    }

    fn qname() -> (q: QName) {
        qname_responsedescription()
    }

    fn from_value(v: &Value) -> (r: Result<Self, DecodeError>) {
        match v {
            Value::Text(t) => Ok(ResponseDescription(copy_bytes(t))),
            _ => Err(DecodeError::ExpectedText),
        }
    }
}

impl Element for Status {
    open spec fn qn() -> QnModel {
        qn_status()
    }

    open spec fn decode_model(v: ValModel) -> Result<StatusModel, DecodeError> {
        sp_decode_status_el(v)
    }

    fn qname() -> (q: QName) {
        qname_status()
    }

    fn from_value(v: &Value) -> (r: Result<Self, DecodeError>) {
        match v {
            Value::Text(t) => Status::parse(t),
            _ => Err(DecodeError::ExpectedText),
        }
    }
}

impl Element for Properties {
    open spec fn qn() -> QnModel {
        qn_prop()
    }

    open spec fn decode_model(v: ValModel) -> Result<Seq<(QnModel, ValModel)>, DecodeError> {
        sp_decode_props(v)
    }

    fn qname() -> (q: QName) {
        qname_prop()
    }

    fn from_value(v: &Value) -> (r: Result<Self, DecodeError>) {
        match v {
            Value::Children(m) => Ok(Properties(m.duplicate())),
            Value::Empty => Ok(Properties(ValueMap::new())),
            _ => Err(DecodeError::ExpectedChildren),
        }
    }
}

/// Decode an optional `responsedescription` child of `es`.
fn decode_opt_rd(m: &ValueMap) -> (r: Result<Option<ResponseDescription>, DecodeError>)
    ensures
        match r {
            Ok(rd) => sp_opt_rd(m@) == Ok::<_, DecodeError>(opt_rd_model(rd)),
            Err(e) => sp_opt_rd(m@) == Err::<Option<Seq<u8>>, _>(e),
        },
{
    match m.get_value(&qname_responsedescription()) {
        None => Ok(None),
        Some(v) => match v {
            Value::Text(t) => Ok(Some(ResponseDescription(copy_bytes(t)))),
            Value::Empty => {
                let rd = ResponseDescription(Vec::new());
                assert(rd@ =~= Seq::<u8>::empty());
                Ok(Some(rd))
            },
            _ => Err(DecodeError::ExpectedText),
        },
    }
}

impl Element for Propstat {
    open spec fn qn() -> QnModel {
        qn_propstat()
    }

    open spec fn decode_model(v: ValModel) -> Result<PropstatModel, DecodeError> {
        sp_decode_propstat(v)
    }

    fn qname() -> (q: QName) {
        qname_propstat()
    }

    fn from_value(v: &Value) -> (r: Result<Self, DecodeError>) {
        let m = match v {
            Value::Children(m) => m,
            _ => {
                return Err(DecodeError::ExpectedChildren);
            },
        };
        let prop = match m.get_value(&qname_prop()) {
            None => {
                return Err(DecodeError::MissingProp);
            },
            Some(pv) => match Properties::from_value(pv) {
                Ok(p) => p,
                Err(e) => {
                    return Err(e);
                },
            },
        };
        let status = match m.get_value(&qname_status()) {
            None => {
                return Err(DecodeError::MissingStatus);
            },
            Some(sv) => match Status::from_value(sv) {
                Ok(s) => s,
                Err(e) => {
                    return Err(e);
                },
            },
        };
        let responsedescription = match decode_opt_rd(m) {
            Ok(rd) => rd,
            Err(e) => {
                return Err(e);
            },
        };
        Ok(Propstat { prop, status, responsedescription })
    }
}

/// The models decoded from a prefix of a value list, each known to
/// decode to a propstat.
spec fn sp_oks_ps(s: Seq<ValModel>, i: int) -> Seq<PropstatModel> {
    Seq::new(i as nat, |j: int| sp_decode_propstat(s[j])->Ok_0)
}

proof fn lemma_ps_split(s: Seq<ValModel>, i: int)
    requires
        0 <= i <= s.len(),
        forall|j: int| 0 <= j < i ==> #[trigger] sp_decode_propstat(s[j]) is Ok,
    ensures
        sp_decode_propstat_list(s) == match sp_decode_propstat_list(s.skip(i)) {
            Ok(rest) => Ok::<_, DecodeError>(sp_oks_ps(s, i) + rest),
            Err(e) => Err::<Seq<PropstatModel>, _>(e),
        },
    decreases i,
{
    if i == 0 {
        assert(s.skip(0) =~= s);
        match sp_decode_propstat_list(s) {
            Ok(rest) => {
                assert(sp_oks_ps(s, 0) + rest =~= rest);
            },
            Err(_) => {},
        }
    } else {
        lemma_ps_split(s, i - 1);
        assert(s.skip(i - 1).skip(1) =~= s.skip(i));
        assert(s.skip(i - 1)[0] == s[i - 1]);
        match sp_decode_propstat_list(s.skip(i)) {
            Ok(rest) => {
                assert(sp_decode_propstat_list(s.skip(i - 1)) == Ok::<_, DecodeError>(
                    seq![sp_decode_propstat(s[i - 1])->Ok_0] + rest,
                ));
                assert(sp_oks_ps(s, i - 1) + (seq![sp_decode_propstat(s[i - 1])->Ok_0] + rest)
                    =~= sp_oks_ps(s, i) + rest);
            },
            Err(_) => {},
        }
    }
}

/// Decode each value of a `propstat` list.
fn decode_propstat_items(l: &Vec<Value>) -> (r: Result<Vec<Propstat>, DecodeError>)
    ensures
        match r {
            Ok(ps) => sp_decode_propstat_list(list_model(l@)) == Ok::<_, DecodeError>(
                propstats_model(ps@),
            ),
            Err(e) => sp_decode_propstat_list(list_model(l@)) == Err::<Seq<PropstatModel>, _>(e),
        },
{
    let ghost s = list_model(l@);
    proof {
        lemma_list_model(l@);
    }
    let mut out: Vec<Propstat> = Vec::new();
    let mut i: usize = 0;
    while i < l.len()
        invariant
            0 <= i <= l@.len(),
            s == list_model(l@),
            s.len() == l@.len(),
            forall|j: int| 0 <= j < l@.len() ==> s[j] == val_model_of(l@, j),
            out@.len() == i,
            forall|j: int| 0 <= j < i ==> #[trigger] sp_decode_propstat(s[j]) is Ok,
            forall|j: int| 0 <= j < i ==> out@[j]@ == sp_decode_propstat(s[j])->Ok_0,
        decreases l@.len() - i,
    {
        match Propstat::from_value(&l[i]) {
            Ok(p) => {
                out.push(p);
                i += 1;
            },
            Err(e) => {
                proof {
                    lemma_ps_split(s, i as int);
                    assert(s.skip(i as int)[0] == s[i as int]);
                    assert(sp_decode_propstat_list(s.skip(i as int))
                        == Err::<Seq<PropstatModel>, _>(e));
                }
                return Err(e);
            },
        }
    }
    proof {
        lemma_ps_split(s, s.len() as int);
        assert(s.skip(s.len() as int) =~= Seq::<ValModel>::empty());
        assert(sp_oks_ps(s, s.len() as int) + Seq::<PropstatModel>::empty() =~= sp_oks_ps(
            s,
            s.len() as int,
        ));
        assert(propstats_model(out@) =~= sp_oks_ps(s, s.len() as int));
    }
    Ok(out)
}

/// Spec-level view of one element of a value sequence.
pub open spec fn val_model_of(l: Seq<Value>, j: int) -> ValModel {
    crate::value::val_model(l[j])
}

/// The texts decoded from a prefix of a value list, each known to be
/// scalar.
spec fn sp_oks_hr(s: Seq<ValModel>, i: int) -> Seq<Seq<u8>> {
    Seq::new(i as nat, |j: int| sp_decode_text(s[j])->Ok_0)
}

proof fn lemma_hr_split(s: Seq<ValModel>, i: int)
    requires
        0 <= i <= s.len(),
        forall|j: int| 0 <= j < i ==> #[trigger] sp_decode_text(s[j]) is Ok,
    ensures
        sp_decode_href_list(s) == match sp_decode_href_list(s.skip(i)) {
            Ok(rest) => Ok::<_, DecodeError>(sp_oks_hr(s, i) + rest),
            Err(e) => Err::<Seq<Seq<u8>>, _>(e),
        },
    decreases i,
{
    if i == 0 {
        assert(s.skip(0) =~= s);
        match sp_decode_href_list(s) {
            Ok(rest) => {
                assert(sp_oks_hr(s, 0) + rest =~= rest);
            },
            Err(_) => {},
        }
    } else {
        lemma_hr_split(s, i - 1);
        assert(s.skip(i - 1).skip(1) =~= s.skip(i));
        assert(s.skip(i - 1)[0] == s[i - 1]);
        match sp_decode_href_list(s.skip(i)) {
            Ok(rest) => {
                assert(sp_decode_href_list(s.skip(i - 1)) == Ok::<_, DecodeError>(
                    seq![sp_decode_text(s[i - 1])->Ok_0] + rest,
                ));
                assert(sp_oks_hr(s, i - 1) + (seq![sp_decode_text(s[i - 1])->Ok_0] + rest)
                    =~= sp_oks_hr(s, i) + rest);
            },
            Err(_) => {},
        }
    }
}

/// Decode each value of an `href` list.
fn decode_href_items(l: &Vec<Value>) -> (r: Result<Vec<Href>, DecodeError>)
    ensures
        match r {
            Ok(hs) => sp_decode_href_list(list_model(l@)) == Ok::<_, DecodeError>(
                hrefs_model(hs@),
            ),
            Err(e) => sp_decode_href_list(list_model(l@)) == Err::<Seq<Seq<u8>>, _>(e),
        },
{
    let ghost s = list_model(l@);
    proof {
        lemma_list_model(l@);
    }
    let mut out: Vec<Href> = Vec::new();
    let mut i: usize = 0;
    while i < l.len()
        invariant
            0 <= i <= l@.len(),
            s == list_model(l@),
            s.len() == l@.len(),
            forall|j: int| 0 <= j < l@.len() ==> s[j] == val_model_of(l@, j),
            out@.len() == i,
            forall|j: int| 0 <= j < i ==> #[trigger] sp_decode_text(s[j]) is Ok,
            forall|j: int| 0 <= j < i ==> out@[j]@ == sp_decode_text(s[j])->Ok_0,
        decreases l@.len() - i,
    {
        match Href::from_value(&l[i]) {
            Ok(h) => {
                out.push(h);
                i += 1;
            },
            Err(e) => {
                proof {
                    lemma_hr_split(s, i as int);
                    assert(s.skip(i as int)[0] == s[i as int]);
                    assert(sp_decode_href_list(s.skip(i as int)) == Err::<Seq<Seq<u8>>, _>(e));
                }
                return Err(e);
            },
        }
    }
    proof {
        lemma_hr_split(s, s.len() as int);
        assert(s.skip(s.len() as int) =~= Seq::<ValModel>::empty());
        assert(sp_oks_hr(s, s.len() as int) + Seq::<Seq<u8>>::empty() =~= sp_oks_hr(
            s,
            s.len() as int,
        ));
        assert(hrefs_model(out@) =~= sp_oks_hr(s, s.len() as int));
    }
    Ok(out)
}

/// Decode the one-or-many `href` children of a status-only `response`.
fn decode_hrefs(v: &Value) -> (r: Result<Vec<Href>, DecodeError>)
    ensures
        match r {
            Ok(hs) => sp_decode_hrefs(v@) == Ok::<_, DecodeError>(hrefs_model(hs@)),
            Err(e) => sp_decode_hrefs(v@) == Err::<Seq<Seq<u8>>, _>(e),
        },
{
    match v {
        Value::Text(t) => {
            let mut hs: Vec<Href> = Vec::new();
            hs.push(Href(copy_bytes(t)));
            assert(hrefs_model(hs@) =~= seq![t@]);
            Ok(hs)
        },
        Value::List(l) => decode_href_items(l),
        _ => Err(DecodeError::ExpectedText),
    }
}

impl Element for Response {
    open spec fn qn() -> QnModel {
        qn_response()
    }

    open spec fn decode_model(v: ValModel) -> Result<ResponseModel, DecodeError> {
        sp_decode_response(v)
    }

    fn qname() -> (q: QName) {
        qname_response()
    }

    fn from_value(v: &Value) -> (r: Result<Self, DecodeError>) {
        let m = match v {
            Value::Children(m) => m,
            _ => {
                return Err(DecodeError::ExpectedChildren);
            },
        };
        match m.get_value(&qname_propstat()) {
            Some(pv) => {
                let href = match m.get_value(&qname_href()) {
                    None => {
                        return Err(DecodeError::MissingHref);
                    },
                    Some(hv) => match Href::from_value(hv) {
                        Ok(h) => h,
                        Err(e) => {
                            return Err(e);
                        },
                    },
                };
                let propstat: Vec<Propstat> = match pv {
                    Value::List(l) => match decode_propstat_items(l) {
                        Ok(ps) => ps,
                        Err(e) => {
                            return Err(e);
                        },
                    },
                    Value::Children(_) => match Propstat::from_value(pv) {
                        Ok(p) => {
                            let mut ps: Vec<Propstat> = Vec::new();
                            let ghost pm = p@;
                            ps.push(p);
                            assert(propstats_model(ps@) =~= seq![pm]);
                            ps
                        },
                        Err(e) => {
                            return Err(e);
                        },
                    },
                    _ => {
                        return Err(DecodeError::ExpectedChildren);
                    },
                };
                let responsedescription = match decode_opt_rd(m) {
                    Ok(rd) => rd,
                    Err(e) => {
                        return Err(e);
                    },
                };
                Ok(Response::Propstat { href, propstat, responsedescription })
            },
            None => match m.get_value(&qname_status()) {
                Some(sv) => {
                    let href = match m.get_value(&qname_href()) {
                        None => {
                            return Err(DecodeError::MissingHref);
                        },
                        Some(hv) => match decode_hrefs(hv) {
                            Ok(hs) => hs,
                            Err(e) => {
                                return Err(e);
                            },
                        },
                    };
                    let status = match Status::from_value(sv) {
                        Ok(s) => s,
                        Err(e) => {
                            return Err(e);
                        },
                    };
                    let responsedescription = match decode_opt_rd(m) {
                        Ok(rd) => rd,
                        Err(e) => {
                            return Err(e);
                        },
                    };
                    Ok(Response::Status { href, status, responsedescription })
                },
                None => Err(DecodeError::InvalidResponseShape),
            },
        }
    }
}

/// The responses decoded from a prefix of a value list, each known to
/// decode.
spec fn sp_oks_rs(s: Seq<ValModel>, i: int) -> Seq<ResponseModel> {
    Seq::new(i as nat, |j: int| sp_decode_response(s[j])->Ok_0)
}

proof fn lemma_rs_split(s: Seq<ValModel>, i: int)
    requires
        0 <= i <= s.len(),
        forall|j: int| 0 <= j < i ==> #[trigger] sp_decode_response(s[j]) is Ok,
    ensures
        sp_decode_response_list(s) == match sp_decode_response_list(s.skip(i)) {
            Ok(rest) => Ok::<_, DecodeError>(sp_oks_rs(s, i) + rest),
            Err(e) => Err::<Seq<ResponseModel>, _>(e),
        },
    decreases i,
{
    if i == 0 {
        assert(s.skip(0) =~= s);
        match sp_decode_response_list(s) {
            Ok(rest) => {
                assert(sp_oks_rs(s, 0) + rest =~= rest);
            },
            Err(_) => {},
        }
    } else {
        lemma_rs_split(s, i - 1);
        assert(s.skip(i - 1).skip(1) =~= s.skip(i));
        assert(s.skip(i - 1)[0] == s[i - 1]);
        match sp_decode_response_list(s.skip(i)) {
            Ok(rest) => {
                assert(sp_decode_response_list(s.skip(i - 1)) == Ok::<_, DecodeError>(
                    seq![sp_decode_response(s[i - 1])->Ok_0] + rest,
                ));
                assert(sp_oks_rs(s, i - 1) + (seq![sp_decode_response(s[i - 1])->Ok_0] + rest)
                    =~= sp_oks_rs(s, i) + rest);
            },
            Err(_) => {},
        }
    }
}

/// Decode each value of a `response` list.
fn decode_response_items(l: &Vec<Value>) -> (r: Result<Vec<Response>, DecodeError>)
    ensures
        match r {
            Ok(rs) => sp_decode_response_list(list_model(l@)) == Ok::<_, DecodeError>(
                responses_model(rs@),
            ),
            Err(e) => sp_decode_response_list(list_model(l@)) == Err::<Seq<ResponseModel>, _>(e),
        },
{
    let ghost s = list_model(l@);
    proof {
        lemma_list_model(l@);
    }
    let mut out: Vec<Response> = Vec::new();
    let mut i: usize = 0;
    while i < l.len()
        invariant
            0 <= i <= l@.len(),
            s == list_model(l@),
            s.len() == l@.len(),
            forall|j: int| 0 <= j < l@.len() ==> s[j] == val_model_of(l@, j),
            out@.len() == i,
            forall|j: int| 0 <= j < i ==> #[trigger] sp_decode_response(s[j]) is Ok,
            forall|j: int| 0 <= j < i ==> out@[j]@ == sp_decode_response(s[j])->Ok_0,
        decreases l@.len() - i,
    {
        match Response::from_value(&l[i]) {
            Ok(p) => {
                out.push(p);
                i += 1;
            },
            Err(e) => {
                proof {
                    lemma_rs_split(s, i as int);
                    assert(s.skip(i as int)[0] == s[i as int]);
                    assert(sp_decode_response_list(s.skip(i as int)) == Err::<
                        Seq<ResponseModel>,
                        _,
                    >(e));
                }
                return Err(e);
            },
        }
    }
    proof {
        lemma_rs_split(s, s.len() as int);
        assert(s.skip(s.len() as int) =~= Seq::<ValModel>::empty());
        assert(sp_oks_rs(s, s.len() as int) + Seq::<ResponseModel>::empty() =~= sp_oks_rs(
            s,
            s.len() as int,
        ));
        assert(responses_model(out@) =~= sp_oks_rs(s, s.len() as int));
    }
    Ok(out)
}

impl Element for Multistatus {
    open spec fn qn() -> QnModel {
        qn_multistatus()
    }

    open spec fn decode_model(v: ValModel) -> Result<MultistatusModel, DecodeError> {
        sp_decode_multistatus(v)
    }

    fn qname() -> (q: QName) {
        qname_multistatus()
    }

    fn from_value(v: &Value) -> (r: Result<Self, DecodeError>) {
        let m = match v {
            Value::Children(m) => m,
            Value::Empty => {
                let ms = Multistatus { response: Vec::new(), responsedescription: None };
                assert(responses_model(ms.response@) =~= Seq::<ResponseModel>::empty());
                return Ok(ms);
            },
            _ => {
                return Err(DecodeError::ExpectedChildren);
            },
        };
        let response: Vec<Response> = match m.get_value(&qname_response()) {
            None => {
                let rs: Vec<Response> = Vec::new();
                assert(responses_model(rs@) =~= Seq::<ResponseModel>::empty());
                rs
            },
            Some(rv) => match rv {
                Value::Empty => {
                    let rs: Vec<Response> = Vec::new();
                    assert(responses_model(rs@) =~= Seq::<ResponseModel>::empty());
                    rs
                },
                Value::List(l) => match decode_response_items(l) {
                    Ok(rs) => rs,
                    Err(e) => {
                        return Err(e);
                    },
                },
                Value::Children(_) => match Response::from_value(rv) {
                    Ok(one) => {
                        let mut rs: Vec<Response> = Vec::new();
                        let ghost om = one@;
                        rs.push(one);
                        assert(responses_model(rs@) =~= seq![om]);
                        rs
                    },
                    Err(e) => {
                        return Err(e);
                    },
                },
                _ => {
                    return Err(DecodeError::ExpectedChildren);
                },
            },
        };
        let responsedescription = match decode_opt_rd(m) {
            Ok(rd) => rd,
            Err(e) => {
                return Err(e);
            },
        };
        Ok(Multistatus { response, responsedescription })
    }
}

/// A four-state property access result, mapped to its model.
pub open spec fn getres_model<T: View>(r: Option<Option<Result<T, DecodeError>>>) -> Option<
    Option<Result<T::V, DecodeError>>,
> {
    match r {
        None => None,
        Some(None) => Some(None),
        Some(Some(q)) => Some(Some(res_model(q))),
    }
}

/// What reading property `P` from a property map yields: `None` if the
/// key is absent, `Some(None)` if it is present but empty, and otherwise
/// the decode outcome.
pub open spec fn sp_props_get<P: Element>(es: Seq<(QnModel, ValModel)>) -> Option<
    Option<Result<P::V, DecodeError>>,
> {
    match sp_lookup(es, P::qn()) {
        None => None,
        Some(ValModel::Empty) => Some(None),
        Some(v) => Some(Some(P::decode_model(v))),
    }
}

impl Properties {
    /// Read a specific property from this `prop` element.
    ///
    /// Returns
    /// - `None` if the property doesn't exist
    /// - `Some(None)` if the property exists and is empty
    /// - `Some(Some(Ok(_)))` if the property exists and was successfully
    ///   extracted
    /// - `Some(Some(Err(_)))` if the property exists and extraction
    ///   failed
    pub fn get<P: Element>(&self) -> (r: Option<Option<Result<P, DecodeError>>>)
        ensures
            getres_model(r) == sp_props_get::<P>(self@),
    {
        match self.0.get_value(&P::qname()) {
            None => None,
            Some(v) => match v {
                Value::Empty => Some(None),
                _ => Some(Some(P::from_value(v))),
            },
        }
    }

    /// Read the `creationdate` property.
    pub fn creationdate(&self) -> (r: Option<
        Option<Result<crate::properties::CreationDate, DecodeError>>,
    >)
        ensures
            getres_model(r) == sp_props_get::<crate::properties::CreationDate>(self@),
    {
        self.get()
    }

    /// Read the `getcontentlength` property.
    pub fn getcontentlength(&self) -> (r: Option<
        Option<Result<crate::properties::ContentLength, DecodeError>>,
    >)
        ensures
            getres_model(r) == sp_props_get::<crate::properties::ContentLength>(self@),
    {
        self.get()
    }

    /// Read the `getlastmodified` property.
    pub fn getlastmodified(&self) -> (r: Option<
        Option<Result<crate::properties::LastModified, DecodeError>>,
    >)
        ensures
            getres_model(r) == sp_props_get::<crate::properties::LastModified>(self@),
    {
        self.get()
    }
}

/// The map entries an optional `responsedescription` encodes to.
pub open spec fn sp_rd_entries(rd: Option<Seq<u8>>) -> Seq<(QnModel, ValModel)> {
    match rd {
        None => Seq::empty(),
        Some(t) => seq![(qn_responsedescription(), ValModel::Text(t))],
    }
}

/// Encoding one propstat block back into a generic value.
pub open spec fn sp_encode_propstat(p: PropstatModel) -> ValModel {
    ValModel::Children(
        seq![
            (qn_prop(), ValModel::Children(p.prop)),
            (qn_status(), ValModel::Text(crate::status::sp_render_status(p.status))),
        ] + sp_rd_entries(p.responsedescription),
    )
}

/// Encoding the propstat blocks of a response: repeated siblings become
/// one list.
pub open spec fn sp_encode_propstats(pss: Seq<PropstatModel>) -> ValModel {
    ValModel::List(pss.map_values(|p: PropstatModel| sp_encode_propstat(p)))
}

/// Encoding the hrefs of a status-only response: a single occurrence is
/// scalar, repetitions become a list.
pub open spec fn sp_encode_hrefs(hs: Seq<Seq<u8>>) -> ValModel {
    if hs.len() == 1 {
        ValModel::Text(hs[0])
    } else {
        ValModel::List(hs.map_values(|h: Seq<u8>| ValModel::Text(h)))
    }
}

/// Encoding one response entry.
pub open spec fn sp_encode_response(r: ResponseModel) -> ValModel {
    match r {
        ResponseModel::Propstat { href, propstat, responsedescription } => ValModel::Children(
            seq![(qn_href(), ValModel::Text(href)), (qn_propstat(), sp_encode_propstats(propstat))]
                + sp_rd_entries(responsedescription),
        ),
        ResponseModel::Status { href, status, responsedescription } => ValModel::Children(
            seq![
                (qn_href(), sp_encode_hrefs(href)),
                (qn_status(), ValModel::Text(crate::status::sp_render_status(status))),
            ] + sp_rd_entries(responsedescription),
        ),
    }
}

/// Encoding a whole multistatus: zero responses encode as a present but
/// empty `response` child.
pub open spec fn sp_encode_multistatus(m: MultistatusModel) -> ValModel {
    ValModel::Children(
        seq![
            (
                qn_response(),
                if m.response.len() == 0 {
                    ValModel::Empty
                } else {
                    ValModel::List(
                        m.response.map_values(|r: ResponseModel| sp_encode_response(r)),
                    )
                },
            ),
        ] + sp_rd_entries(m.responsedescription),
    )
}

/// A propstat whose encoding decodes back to itself.
pub open spec fn wf_propstat(p: PropstatModel) -> bool {
    crate::status::wf_status(p.status)
}

/// A response whose encoding decodes back to itself: at least one
/// propstat or one href, and well-formed status lines.
pub open spec fn wf_response(r: ResponseModel) -> bool {
    match r {
        ResponseModel::Propstat { propstat, .. } => propstat.len() > 0 && forall|i: int|
            0 <= i < propstat.len() ==> wf_propstat(#[trigger] propstat[i]),
        ResponseModel::Status { href, status, .. } => href.len() > 0 && crate::status::wf_status(
            status,
        ),
    }
}

/// A multistatus whose encoding decodes back to itself.
pub open spec fn wf_multistatus(m: MultistatusModel) -> bool {
    forall|i: int| 0 <= i < m.response.len() ==> wf_response(#[trigger] m.response[i])
}

/// Decoding is a left inverse of encoding on well-formed propstats.
pub proof fn lemma_propstat_roundtrip(p: PropstatModel)
    requires
        wf_propstat(p),
    ensures
        sp_decode_propstat(sp_encode_propstat(p)) == Ok::<PropstatModel, DecodeError>(p),
{
    reveal_with_fuel(sp_lookup, 5);
    crate::qname::lemma_qn_distinct();
    crate::status::lemma_status_roundtrip(p.status);
    let e0 = (qn_prop(), ValModel::Children(p.prop));
    let e1 = (qn_status(), ValModel::Text(crate::status::sp_render_status(p.status)));
    let rds = sp_rd_entries(p.responsedescription);
    let es = seq![e0, e1] + rds;
    assert(es[0] == e0);
    assert(es.skip(1) =~= seq![e1] + rds);
    assert((seq![e1] + rds)[0] == e1);
    assert((seq![e1] + rds).skip(1) =~= rds);
    assert(sp_lookup(es, qn_prop()) == Some(ValModel::Children(p.prop)));
    assert(sp_lookup(es, qn_status()) == Some(
        ValModel::Text(crate::status::sp_render_status(p.status)),
    ));
    match p.responsedescription {
        None => {
            assert(rds.len() == 0);
            assert(sp_lookup(es, qn_responsedescription()) is None);
        },
        Some(t) => {
            assert(rds[0] == (qn_responsedescription(), ValModel::Text(t)));
            assert(sp_lookup(es, qn_responsedescription()) == Some(ValModel::Text(t)));
        },
    }
    let d = sp_decode_propstat(sp_encode_propstat(p));
    assert(d is Ok);
    assert(d->Ok_0 =~= p);
}

proof fn lemma_propstat_list_roundtrip(pss: Seq<PropstatModel>)
    requires
        forall|i: int| 0 <= i < pss.len() ==> wf_propstat(#[trigger] pss[i]),
    ensures
        sp_decode_propstat_list(pss.map_values(|p: PropstatModel| sp_encode_propstat(p)))
            == Ok::<Seq<PropstatModel>, DecodeError>(pss),
    decreases pss.len(),
{
    let mapped = pss.map_values(|p: PropstatModel| sp_encode_propstat(p));
    if pss.len() == 0 {
        assert(mapped =~= Seq::<ValModel>::empty());
        assert(pss =~= Seq::<PropstatModel>::empty());
    } else {
        lemma_propstat_roundtrip(pss[0]);
        lemma_propstat_list_roundtrip(pss.skip(1));
        assert(mapped[0] == sp_encode_propstat(pss[0]));
        assert(mapped.skip(1) =~= pss.skip(1).map_values(
            |p: PropstatModel| sp_encode_propstat(p),
        ));
        assert(seq![pss[0]] + pss.skip(1) =~= pss);
    }
}

proof fn lemma_href_list_roundtrip(hs: Seq<Seq<u8>>)
    ensures
        sp_decode_href_list(hs.map_values(|h: Seq<u8>| ValModel::Text(h))) == Ok::<
            Seq<Seq<u8>>,
            DecodeError,
        >(hs),
    decreases hs.len(),
{
    let mapped = hs.map_values(|h: Seq<u8>| ValModel::Text(h));
    if hs.len() == 0 {
        assert(mapped =~= Seq::<ValModel>::empty());
        assert(hs =~= Seq::<Seq<u8>>::empty());
    } else {
        lemma_href_list_roundtrip(hs.skip(1));
        assert(mapped[0] == ValModel::Text(hs[0]));
        assert(mapped.skip(1) =~= hs.skip(1).map_values(|h: Seq<u8>| ValModel::Text(h)));
        assert(seq![hs[0]] + hs.skip(1) =~= hs);
    }
}

proof fn lemma_hrefs_roundtrip(hs: Seq<Seq<u8>>)
    requires
        hs.len() > 0,
    ensures
        sp_decode_hrefs(sp_encode_hrefs(hs)) == Ok::<Seq<Seq<u8>>, DecodeError>(hs),
{
    if hs.len() == 1 {
        assert(seq![hs[0]] =~= hs);
    } else {
        lemma_href_list_roundtrip(hs);
    }
}

/// Decoding is a left inverse of encoding on well-formed responses.
pub proof fn lemma_response_roundtrip(r: ResponseModel)
    requires
        wf_response(r),
    ensures
        sp_decode_response(sp_encode_response(r)) == Ok::<ResponseModel, DecodeError>(r),
{
    reveal_with_fuel(sp_lookup, 5);
    crate::qname::lemma_qn_distinct();
    match r {
        ResponseModel::Propstat { href, propstat, responsedescription } => {
            lemma_propstat_list_roundtrip(propstat);
            let e0 = (qn_href(), ValModel::Text(href));
            let e1 = (qn_propstat(), sp_encode_propstats(propstat));
            let rds = sp_rd_entries(responsedescription);
            let es = seq![e0, e1] + rds;
            assert(es[0] == e0);
            assert(es.skip(1) =~= seq![e1] + rds);
            assert((seq![e1] + rds)[0] == e1);
            assert((seq![e1] + rds).skip(1) =~= rds);
            assert(sp_lookup(es, qn_propstat()) == Some(sp_encode_propstats(propstat)));
            assert(sp_lookup(es, qn_href()) == Some(ValModel::Text(href)));
            match responsedescription {
                None => {
                    assert(rds.len() == 0);
                    assert(sp_lookup(es, qn_responsedescription()) is None);
                },
                Some(t) => {
                    assert(rds[0] == (qn_responsedescription(), ValModel::Text(t)));
                    assert(sp_lookup(es, qn_responsedescription()) == Some(ValModel::Text(t)));
                },
            }
            let d = sp_decode_response(sp_encode_response(r));
            assert(d is Ok);
            assert(d->Ok_0 =~= r);
        },
        ResponseModel::Status { href, status, responsedescription } => {
            lemma_hrefs_roundtrip(href);
            crate::status::lemma_status_roundtrip(status);
            let e0 = (qn_href(), sp_encode_hrefs(href));
            let e1 = (qn_status(), ValModel::Text(crate::status::sp_render_status(status)));
            let rds = sp_rd_entries(responsedescription);
            let es = seq![e0, e1] + rds;
            assert(es[0] == e0);
            assert(es.skip(1) =~= seq![e1] + rds);
            assert((seq![e1] + rds)[0] == e1);
            assert((seq![e1] + rds).skip(1) =~= rds);
            match responsedescription {
                None => {
                    assert(rds.len() == 0);
                    assert(sp_lookup(es, qn_propstat()) is None);
                    assert(sp_lookup(es, qn_responsedescription()) is None);
                },
                Some(t) => {
                    assert(rds[0] == (qn_responsedescription(), ValModel::Text(t)));
                    assert(sp_lookup(es, qn_propstat()) is None);
                    assert(sp_lookup(es, qn_responsedescription()) == Some(ValModel::Text(t)));
                },
            }
            assert(sp_lookup(es, qn_status()) == Some(
                ValModel::Text(crate::status::sp_render_status(status)),
            ));
            assert(sp_lookup(es, qn_href()) == Some(sp_encode_hrefs(href)));
            let d = sp_decode_response(sp_encode_response(r));
            assert(d is Ok);
            assert(d->Ok_0 =~= r);
        },
    }
}

proof fn lemma_response_list_roundtrip(rs: Seq<ResponseModel>)
    requires
        forall|i: int| 0 <= i < rs.len() ==> wf_response(#[trigger] rs[i]),
    ensures
        sp_decode_response_list(rs.map_values(|r: ResponseModel| sp_encode_response(r))) == Ok::<
            Seq<ResponseModel>,
            DecodeError,
        >(rs),
    decreases rs.len(),
{
    let mapped = rs.map_values(|r: ResponseModel| sp_encode_response(r));
    if rs.len() == 0 {
        assert(mapped =~= Seq::<ValModel>::empty());
        assert(rs =~= Seq::<ResponseModel>::empty());
    } else {
        lemma_response_roundtrip(rs[0]);
        lemma_response_list_roundtrip(rs.skip(1));
        assert(mapped[0] == sp_encode_response(rs[0]));
        assert(mapped.skip(1) =~= rs.skip(1).map_values(
            |r: ResponseModel| sp_encode_response(r),
        ));
        assert(seq![rs[0]] + rs.skip(1) =~= rs);
    }
}

/// Round trip: decoding is a left inverse of encoding on well-formed
/// multistatus values, so construction and decoding are inverses on the
/// shapes this crate defines.
pub proof fn lemma_multistatus_roundtrip(m: MultistatusModel)
    requires
        wf_multistatus(m),
    ensures
        sp_decode_multistatus(sp_encode_multistatus(m)) == Ok::<MultistatusModel, DecodeError>(m),
{
    reveal_with_fuel(sp_lookup, 5);
    crate::qname::lemma_qn_distinct();
    let rv = if m.response.len() == 0 {
        ValModel::Empty
    } else {
        ValModel::List(m.response.map_values(|r: ResponseModel| sp_encode_response(r)))
    };
    let e0 = (qn_response(), rv);
    let rds = sp_rd_entries(m.responsedescription);
    let es = seq![e0] + rds;
    assert(es[0] == e0);
    assert(es.skip(1) =~= rds);
    assert(sp_lookup(es, qn_response()) == Some(rv));
    match m.responsedescription {
        None => {
            assert(rds.len() == 0);
            assert(sp_lookup(es, qn_responsedescription()) is None);
        },
        Some(t) => {
            assert(rds[0] == (qn_responsedescription(), ValModel::Text(t)));
            assert(sp_lookup(es, qn_responsedescription()) == Some(ValModel::Text(t)));
        },
    }
    if m.response.len() == 0 {
        let d = sp_decode_multistatus(sp_encode_multistatus(m));
        assert(d is Ok);
        assert(d->Ok_0 =~= m);
    } else {
        lemma_response_list_roundtrip(m.response);
        let d = sp_decode_multistatus(sp_encode_multistatus(m));
        assert(d is Ok);
        assert(d->Ok_0 =~= m);
    }
}

impl Properties {
    /// Encode back into a generic value.
    pub fn to_value(&self) -> (v: Value)
        ensures
            v@ == ValModel::Children(self@),
    {
        Value::Children(self.0.duplicate())
    }
}

impl Propstat {
    /// Encode back into a generic value.
    pub fn to_value(&self) -> (v: Value)
        requires
            100 <= self.status.code <= 999,
        ensures
            v@ == sp_encode_propstat(self@),
    {
        proof {
            crate::qname::lemma_qn_distinct();
        }
        let mut m = ValueMap::new();
        m.insert(Properties::qname(), self.prop.to_value());
        m.insert(Status::qname(), Value::Text(self.status.render()));
        let ghost e0 = (qn_prop(), ValModel::Children(self@.prop));
        let ghost e1 = (
            qn_status(),
            ValModel::Text(crate::status::sp_render_status(self@.status)),
        );
        proof {
            crate::value::lemma_insert_absent(seq![e0], qn_status(), e1.1);
            assert(m@ =~= seq![e0, e1]);
        }
        match &self.responsedescription {
            None => {
                proof {
                    assert(seq![e0, e1] + sp_rd_entries(self@.responsedescription) =~= m@);
                }
            },
            Some(rd) => {
                m.insert(ResponseDescription::qname(), Value::Text(copy_bytes(&rd.0)));
                proof {
                    crate::value::lemma_insert_absent(
                        seq![e0, e1],
                        qn_responsedescription(),
                        ValModel::Text(rd.0@),
                    );
                    assert(m@ =~= seq![e0, e1] + sp_rd_entries(self@.responsedescription));
                }
            },
        }
        Value::Children(m)
    }
}

impl Response {
    /// Encode back into a generic value.
    #[verifier::loop_isolation(false)]
    pub fn to_value(&self) -> (v: Value)
        requires
            wf_response(self@),
        ensures
            v@ == sp_encode_response(self@),
    {
        proof {
            crate::qname::lemma_qn_distinct();
        }
        match self {
            Response::Propstat { href, propstat, responsedescription } => {
                let ghost pssm = propstats_model(propstat@);
                let mut l: Vec<Value> = Vec::new();
                let mut i: usize = 0;
                proof {
                    lemma_list_model(l@);
                }
                while i < propstat.len()
                    invariant
                        0 <= i <= propstat@.len(),
                        pssm.len() == propstat@.len(),
                        list_model(l@).len() == i,
                        forall|j: int|
                            0 <= j < i ==> list_model(l@)[j] == sp_encode_propstat(pssm[j]),
                    decreases propstat@.len() - i,
                {
                    let ps = &propstat[i];
                    proof {
                        assert(pssm[i as int] == ps@);
                        assert(wf_propstat(pssm[i as int]));
                    }
                    let pv = ps.to_value();
                    let ghost pvm = pv@;
                    let ghost prev = l@;
                    l.push(pv);
                    proof {
                        crate::value::lemma_list_model(l@);
                        crate::value::lemma_list_model(prev);
                        assert forall|j: int|
                            0 <= j <= prev.len() implies list_model(l@)[j] == sp_encode_propstat(
                            pssm[j],
                        ) by {
                            if j < prev.len() {
                                assert(l@[j] == prev[j]);
                                assert(list_model(prev)[j] == crate::value::val_model(prev[j]));
                            } else {
                                assert(l@[j] == l@.last());
                                assert(crate::value::val_model(l@[j]) == pvm);
                            }
                        }
                    }
                    i += 1;
                }
                proof {
                    assert(list_model(l@) =~= pssm.map_values(
                        |p: PropstatModel| sp_encode_propstat(p),
                    ));
                }
                let mut m = ValueMap::new();
                m.insert(Href::qname(), Value::Text(copy_bytes(&href.0)));
                m.insert(Propstat::qname(), Value::List(l));
                let ghost e0 = (qn_href(), ValModel::Text(href.0@));
                let ghost e1 = (qn_propstat(), sp_encode_propstats(pssm));
                proof {
                    crate::value::lemma_insert_absent(seq![e0], qn_propstat(), e1.1);
                    assert(m@ =~= seq![e0, e1]);
                }
                match responsedescription {
                    None => {
                        proof {
                            assert(seq![e0, e1] + sp_rd_entries(opt_rd_model(*responsedescription))
                                =~= m@);
                        }
                    },
                    Some(rd) => {
                        m.insert(ResponseDescription::qname(), Value::Text(copy_bytes(&rd.0)));
                        proof {
                            crate::value::lemma_insert_absent(
                                seq![e0, e1],
                                qn_responsedescription(),
                                ValModel::Text(rd.0@),
                            );
                            assert(m@ =~= seq![e0, e1] + sp_rd_entries(
                                opt_rd_model(*responsedescription),
                            ));
                        }
                    },
                }
                Value::Children(m)
            },
            Response::Status { href, status, responsedescription } => {
                let ghost hsm = hrefs_model(href@);
                let hv: Value = if href.len() == 1 {
                    let t = Value::Text(copy_bytes(&href[0].0));
                    proof {
                        assert(hsm[0] == href@[0]@);
                        assert(t@ == sp_encode_hrefs(hsm));
                    }
                    t
                } else {
                    let mut l: Vec<Value> = Vec::new();
                    let mut i: usize = 0;
                    proof {
                        lemma_list_model(l@);
                    }
                    while i < href.len()
                        invariant
                            0 <= i <= href@.len(),
                            hsm.len() == href@.len(),
                            list_model(l@).len() == i,
                            forall|j: int|
                                0 <= j < i ==> list_model(l@)[j] == ValModel::Text(hsm[j]),
                        decreases href@.len() - i,
                    {
                        let ghost prev = l@;
                        proof {
                            assert(hsm[i as int] == href@[i as int]@);
                        }
                        let tv = Value::Text(copy_bytes(&href[i].0));
                        let ghost tvm = tv@;
                        l.push(tv);
                        proof {
                            crate::value::lemma_list_model(l@);
                            crate::value::lemma_list_model(prev);
                            assert forall|j: int|
                                0 <= j <= prev.len() implies list_model(l@)[j] == ValModel::Text(
                                hsm[j],
                            ) by {
                                if j < prev.len() {
                                    assert(l@[j] == prev[j]);
                                    assert(list_model(prev)[j] == crate::value::val_model(
                                        prev[j],
                                    ));
                                } else {
                                    assert(l@[j] == l@.last());
                                    assert(crate::value::val_model(l@[j]) == tvm);
                                }
                            }
                        }
                        i += 1;
                    }
                    proof {
                        assert(list_model(l@) =~= hsm.map_values(|h: Seq<u8>| ValModel::Text(h)));
                    }
                    Value::List(l)
                };
                let mut m = ValueMap::new();
                m.insert(Href::qname(), hv);
                m.insert(Status::qname(), Value::Text(status.render()));
                let ghost e0 = (qn_href(), sp_encode_hrefs(hsm));
                let ghost e1 = (
                    qn_status(),
                    ValModel::Text(crate::status::sp_render_status(status@)),
                );
                proof {
                    crate::value::lemma_insert_absent(seq![e0], qn_status(), e1.1);
                    assert(m@ =~= seq![e0, e1]);
                }
                match responsedescription {
                    None => {
                        proof {
                            assert(seq![e0, e1] + sp_rd_entries(opt_rd_model(*responsedescription))
                                =~= m@);
                        }
                    },
                    Some(rd) => {
                        m.insert(ResponseDescription::qname(), Value::Text(copy_bytes(&rd.0)));
                        proof {
                            crate::value::lemma_insert_absent(
                                seq![e0, e1],
                                qn_responsedescription(),
                                ValModel::Text(rd.0@),
                            );
                            assert(m@ =~= seq![e0, e1] + sp_rd_entries(
                                opt_rd_model(*responsedescription),
                            ));
                        }
                    },
                }
                Value::Children(m)
            },
        }
    }
}

impl Multistatus {
    /// Encode back into a generic value tree, the inverse of decoding on
    /// the shapes this crate defines.
    #[verifier::loop_isolation(false)]
    pub fn to_value(&self) -> (v: Value)
        requires
            wf_multistatus(self@),
        ensures
            v@ == sp_encode_multistatus(self@),
    {
        proof {
            crate::qname::lemma_qn_distinct();
        }
        let ghost rsm = responses_model(self.response@);
        let rv: Value = if self.response.len() == 0 {
            Value::Empty
        } else {
            let mut l: Vec<Value> = Vec::new();
            let mut i: usize = 0;
            proof {
                lemma_list_model(l@);
            }
            while i < self.response.len()
                invariant
                    0 <= i <= self.response@.len(),
                    rsm.len() == self.response@.len(),
                    list_model(l@).len() == i,
                    forall|j: int| 0 <= j < i ==> list_model(l@)[j] == sp_encode_response(rsm[j]),
                decreases self.response@.len() - i,
            {
                let r = &self.response[i];
                proof {
                    assert(rsm[i as int] == r@);
                    assert(wf_response(rsm[i as int]));
                }
                let rvx = r.to_value();
                let ghost rvm = rvx@;
                let ghost prev = l@;
                l.push(rvx);
                proof {
                    crate::value::lemma_list_model(l@);
                    crate::value::lemma_list_model(prev);
                    assert forall|j: int|
                        0 <= j <= prev.len() implies list_model(l@)[j] == sp_encode_response(
                        rsm[j],
                    ) by {
                        if j < prev.len() {
                            assert(l@[j] == prev[j]);
                            assert(list_model(prev)[j] == crate::value::val_model(prev[j]));
                        } else {
                            assert(l@[j] == l@.last());
                            assert(crate::value::val_model(l@[j]) == rvm);
                        }
                    }
                }
                i += 1;
            }
            proof {
                assert(list_model(l@) =~= rsm.map_values(
                    |r: ResponseModel| sp_encode_response(r),
                ));
            }
            Value::List(l)
        };
        let mut m = ValueMap::new();
        m.insert(Response::qname(), rv);
        let ghost e0 = (
            qn_response(),
            if rsm.len() == 0 {
                ValModel::Empty
            } else {
                ValModel::List(rsm.map_values(|r: ResponseModel| sp_encode_response(r)))
            },
        );
        proof {
            assert(m@ =~= seq![e0]);
        }
        match &self.responsedescription {
            None => {
                proof {
                    assert(seq![e0] + sp_rd_entries(self@.responsedescription) =~= m@);
                }
            },
            Some(rd) => {
                m.insert(ResponseDescription::qname(), Value::Text(copy_bytes(&rd.0)));
                proof {
                    crate::value::lemma_insert_absent(
                        seq![e0],
                        qn_responsedescription(),
                        ValModel::Text(rd.0@),
                    );
                    assert(m@ =~= seq![e0] + sp_rd_entries(self@.responsedescription));
                }
            },
        }
        Value::Children(m)
    }
}

} // verus!
