//! From raw bytes to the generic value tree: a trusted tokenizer hands
//! back a flat token stream, and a verified builder resolves namespace
//! prefixes and assembles [`Value`]s, merging repeated siblings through
//! the ordered multi-map.

use vstd::prelude::*;

use xmlparser::ElementEnd as XE;
use xmlparser::StrSpan;
use xmlparser::Token as XT;
use xmlparser::Tokenizer;

use crate::qname::{QName, QnModel};
use crate::value::{
    copy_bytes, entries_model, lemma_entries_model, sp_insert, ValModel, Value, ValueMap,
};

verus! {

/// One XML token, reduced to what the builder needs.
#[derive(Debug, PartialEq)]
pub enum Tok {
    /// `<prefix:local`
    Open(Vec<u8>, Vec<u8>),
    /// `prefix:local="value"` inside an open tag
    Attr(Vec<u8>, Vec<u8>, Vec<u8>),
    /// `>` ending an open tag
    Gt,
    /// `/>` ending an empty element
    SelfClose,
    /// `</prefix:local>`
    Close(Vec<u8>, Vec<u8>),
    /// character content
    Text(Vec<u8>),
    /// anything the builder ignores: declaration, comment, doctype
    Skip,
}

/// Mathematical model of a [`Tok`].
#[verifier::ext_equal]
pub enum TokModel {
    Open(Seq<u8>, Seq<u8>),
    Attr(Seq<u8>, Seq<u8>, Seq<u8>),
    Gt,
    SelfClose,
    Close(Seq<u8>, Seq<u8>),
    Text(Seq<u8>),
    Skip,
}

impl View for Tok {
    type V = TokModel;

    open spec fn view(&self) -> TokModel {
        match self {
            Tok::Open(p, l) => TokModel::Open(p@, l@),
            Tok::Attr(p, l, v) => TokModel::Attr(p@, l@, v@),
            Tok::Gt => TokModel::Gt,
            Tok::SelfClose => TokModel::SelfClose,
            Tok::Close(p, l) => TokModel::Close(p@, l@),
            Tok::Text(t) => TokModel::Text(t@),
            Tok::Skip => TokModel::Skip,
        }
    }
}

/// Models of a token sequence.
pub open spec fn toks_model(ts: Seq<Tok>) -> Seq<TokModel> {
    ts.map_values(|t: Tok| t@)
}

/// The token stream an XML text tokenizes to, or nothing when the text
/// is not well-formed XML.  The stream depends on the text alone.
pub uninterp spec fn xml_tokens_of(s: Seq<char>) -> Option<Seq<TokModel>>;

/// Relies on str::from_utf8: succeeds exactly on valid UTF-8, and the
/// characters are the decoding of the bytes.
#[verifier::external_body]
fn utf8_str(b: &Vec<u8>) -> (r: Option<&str>)
    ensures
        match r {
            Some(s) => vstd::utf8::valid_utf8(b@) && s@ == vstd::utf8::decode_utf8(b@),
            None => !vstd::utf8::valid_utf8(b@),
        },
{
    core::str::from_utf8(b.as_slice()).ok()
}

/// Relies on xmlparser::Tokenizer: it tokenizes the text into element,
/// attribute and text tokens, failing on malformed XML, as a function of
/// the text alone.
#[verifier::external_body]
fn tokenize(s: &str) -> (r: Option<Vec<Tok>>)
    ensures
        match r {
            Some(v) => xml_tokens_of(s@) == Some(toks_model(v@)),
            None => xml_tokens_of(s@) is None,
        },
{
    let b = |x: StrSpan| x.as_str().as_bytes().to_vec();
    let mut out = Vec::new();
    for t in Tokenizer::from(s) {
        out.push(match t.ok()? {
            XT::ElementStart { prefix, local, .. } => Tok::Open(b(prefix), b(local)),
            XT::Attribute { prefix, local, value, .. } => Tok::Attr(b(prefix), b(local), b(value)),
            XT::ElementEnd { end, .. } => match end {
                XE::Open => Tok::Gt, XE::Empty => Tok::SelfClose, XE::Close(p, l) => Tok::Close(b(p), b(l)),
            },
            XT::Text { text } => Tok::Text(b(text)),
            _ => Tok::Skip,
        });
    }
    Some(out)
}

/// The `xmlns` attribute name.
pub open spec fn sp_xmlns() -> Seq<u8> {
    seq![120u8, 109, 108, 110, 115]
}

/// `&amp;`
pub open spec fn sp_ent_amp() -> Seq<u8> {
    seq![38u8, 97, 109, 112, 59]
}

/// `&lt;`
pub open spec fn sp_ent_lt() -> Seq<u8> {
    seq![38u8, 108, 116, 59]
}

/// `&gt;`
pub open spec fn sp_ent_gt() -> Seq<u8> {
    seq![38u8, 103, 116, 59]
}

/// `&quot;`
pub open spec fn sp_ent_quot() -> Seq<u8> {
    seq![38u8, 113, 117, 111, 116, 59]
}

/// `&apos;`
pub open spec fn sp_ent_apos() -> Seq<u8> {
    seq![38u8, 97, 112, 111, 115, 59]
}

/// Character content with the five predefined entity references
/// decoded; an unrecognized or unterminated reference stays as it is.
pub open spec fn sp_unescape(t: Seq<u8>) -> Seq<u8>
    decreases t.len(),
{
    if t.len() == 0 {
        Seq::empty()
    } else if t[0] != 38 {
        seq![t[0]] + sp_unescape(t.skip(1))
    } else if t.len() >= 4 && t.subrange(0, 4) == sp_ent_lt() {
        seq![60u8] + sp_unescape(t.skip(4))
    } else if t.len() >= 4 && t.subrange(0, 4) == sp_ent_gt() {
        seq![62u8] + sp_unescape(t.skip(4))
    } else if t.len() >= 5 && t.subrange(0, 5) == sp_ent_amp() {
        seq![38u8] + sp_unescape(t.skip(5))
    } else if t.len() >= 6 && t.subrange(0, 6) == sp_ent_quot() {
        seq![34u8] + sp_unescape(t.skip(6))
    } else if t.len() >= 6 && t.subrange(0, 6) == sp_ent_apos() {
        seq![39u8] + sp_unescape(t.skip(6))
    } else {
        seq![t[0]] + sp_unescape(t.skip(1))
    }
}

/// Whether the bytes of `t` from `i` match `pat`.
fn match_at(t: &Vec<u8>, i: usize, pat: &Vec<u8>) -> (r: bool)
    requires
        i <= t@.len(),
    ensures
        r == (i + pat@.len() <= t@.len() && t@.subrange(i as int, i + pat@.len()) == pat@),
{
    let nt = t.len();
    if nt - i < pat.len() {
        return false;
    }
    let mut k: usize = 0;
    while k < pat.len()
        invariant
            0 <= k <= pat@.len(),
            nt == t@.len(),
            i + pat@.len() <= nt,
            forall|j: int| 0 <= j < k ==> t@[i + j] == pat@[j],
        decreases pat@.len() - k,
    {
        if t[i + k] != pat[k] {
            assert(t@.subrange(i as int, i + pat@.len())[k as int] != pat@[k as int]);
            return false;
        }
        k += 1;
    }
    assert(t@.subrange(i as int, i + pat@.len()) =~= pat@);
    true
}

/// Decode the five predefined entity references.
#[verifier::loop_isolation(false)]
fn unescape(t: &Vec<u8>) -> (r: Vec<u8>)
    ensures
        r@ == sp_unescape(t@),
{
    let ent_lt = vec![38u8, 108, 116, 59];
    let ent_gt = vec![38u8, 103, 116, 59];
    let ent_amp = vec![38u8, 97, 109, 112, 59];
    let ent_quot = vec![38u8, 113, 117, 111, 116, 59];
    let ent_apos = vec![38u8, 97, 112, 111, 115, 59];
    proof {
        assert(ent_lt@ =~= sp_ent_lt());
        assert(ent_gt@ =~= sp_ent_gt());
        assert(ent_amp@ =~= sp_ent_amp());
        assert(ent_quot@ =~= sp_ent_quot());
        assert(ent_apos@ =~= sp_ent_apos());
    }
    let mut r: Vec<u8> = Vec::new();
    let mut i: usize = 0;
    proof {
        assert(t@.skip(0) =~= t@);
        assert(r@ + sp_unescape(t@) =~= sp_unescape(t@));
    }
    while i < t.len()
        invariant
            0 <= i <= t@.len(),
            r@ + sp_unescape(t@.skip(i as int)) =~= sp_unescape(t@),
        decreases t@.len() - i,
    {
        let ghost rem = t@.skip(i as int);
        proof {
            assert(rem[0] == t@[i as int]);
            assert(forall|n: int|
                0 <= n <= rem.len() ==> rem.subrange(0, n) =~= t@.subrange(i as int, i + n));
            assert(forall|n: int| 0 <= n <= rem.len() ==> rem.skip(n) =~= t@.skip(i + n));
        }
        let (b, step): (u8, usize) = if t[i] != 38 {
            (t[i], 1)
        } else if match_at(t, i, &ent_lt) {
            (60, 4)
        } else if match_at(t, i, &ent_gt) {
            (62, 4)
        } else if match_at(t, i, &ent_amp) {
            (38, 5)
        } else if match_at(t, i, &ent_quot) {
            (34, 6)
        } else if match_at(t, i, &ent_apos) {
            (39, 6)
        } else {
            (t[i], 1)
        };
        proof {
            assert(sp_unescape(rem) == seq![b] + sp_unescape(t@.skip(i + step)));
        }
        let ghost prev = r@;
        r.push(b);
        i += step;
        proof {
            assert(r@ =~= prev.push(b));
            assert(prev.push(b) + sp_unescape(t@.skip(i as int)) =~= prev + sp_unescape(rem));
        }
    }
    proof {
        assert(t@.skip(t@.len() as int) =~= Seq::<u8>::empty());
        assert(r@ + Seq::<u8>::empty() =~= r@);
    }
    r
}

/// Namespace bindings in scope: prefix to URI, later bindings shadowing
/// earlier ones.
pub open spec fn sp_lookup_ns(env: Seq<(Seq<u8>, Seq<u8>)>, prefix: Seq<u8>) -> Seq<u8>
    decreases env.len(),
{
    if env.len() == 0 {
        Seq::empty()
    } else if env.last().0 == prefix {
        env.last().1
    } else {
        sp_lookup_ns(env.drop_last(), prefix)
    }
}

/// Scan the attributes of an open tag, collecting `xmlns` and
/// `xmlns:prefix` bindings and ignoring other attributes; yields the
/// extended bindings and the index of the first non-attribute token.
pub open spec fn sp_scan_attrs(toks: Seq<TokModel>, i: int, env: Seq<(Seq<u8>, Seq<u8>)>) -> (
    Seq<(Seq<u8>, Seq<u8>)>,
    int,
)
    decreases toks.len() - i,
{
    if i < 0 || i >= toks.len() {
        (env, i)
    } else {
        match toks[i] {
            TokModel::Attr(p, l, v) => {
                let env2 = if p == sp_xmlns() {
                    env.push((l, v))
                } else if p.len() == 0 && l == sp_xmlns() {
                    env.push((Seq::empty(), v))
                } else {
                    env
                };
                sp_scan_attrs(toks, i + 1, env2)
            },
            _ => (env, i),
        }
    }
}

/// Fold a sequence of named child values into map entries, merging
/// repeated names into lists.
pub open spec fn sp_fold_pairs(ps: Seq<(QnModel, ValModel)>) -> Seq<(QnModel, ValModel)>
    decreases ps.len(),
{
    if ps.len() == 0 {
        Seq::empty()
    } else {
        sp_insert(sp_fold_pairs(ps.drop_last()), ps.last().0, ps.last().1)
    }
}

/// Folding well-formed non-list child values yields a well-formed map:
/// distinct keys, lists non-empty and flat.
pub proof fn lemma_fold_pairs_wf(ps: Seq<(QnModel, ValModel)>)
    requires
        forall|i: int|
            0 <= i < ps.len() ==> crate::value::wf_val(#[trigger] ps[i].1) && !(ps[i].1 is List),
    ensures
        crate::value::wf_entries(sp_fold_pairs(ps)),
    decreases ps.len(),
{
    if ps.len() > 0 {
        lemma_fold_pairs_wf(ps.drop_last());
        crate::value::lemma_insert_preserves_wf(
            sp_fold_pairs(ps.drop_last()),
            ps.last().0,
            ps.last().1,
        );
    }
}

/// The value of an element with the given children and text: child
/// elements win over interleaved whitespace text, text alone is scalar,
/// and nothing at all is empty.
pub open spec fn sp_mk_value(pairs: Seq<(QnModel, ValModel)>, text: Seq<u8>) -> ValModel {
    if pairs.len() > 0 {
        ValModel::Children(sp_fold_pairs(pairs))
    } else if text.len() > 0 {
        ValModel::Text(text)
    } else {
        ValModel::Empty
    }
}

/// Parse one element starting at an open tag: attributes, then either a
/// self-closing end or content up to the matching close tag.  Yields the
/// resolved name, the element's value, and the index after the element.
pub open spec fn sp_element(toks: Seq<TokModel>, i: int, env: Seq<(Seq<u8>, Seq<u8>)>) -> Option<
    (QnModel, ValModel, int),
>
    decreases toks.len() - i, 0int,
{
    if i < 0 || i >= toks.len() {
        None
    } else {
        match toks[i] {
            TokModel::Open(p, l) => {
                let sc = sp_scan_attrs(toks, i + 1, env);
                let env2 = sc.0;
                let j = if sc.1 < i + 1 {
                    i + 1
                } else {
                    sc.1
                };
                let qn = QnModel { ns: sp_lookup_ns(env2, p), local: l };
                if j >= toks.len() {
                    None
                } else if toks[j] is SelfClose {
                    Some((qn, ValModel::Empty, j + 1))
                } else if toks[j] is Gt {
                    match sp_content(toks, j + 1, env2) {
                        None => None,
                        Some((pairs, text, cp, cl, k)) => if cp == p && cl == l {
                            Some((qn, sp_mk_value(pairs, text), k))
                        } else {
                            None
                        },
                    }
                } else {
                    None
                }
            },
            _ => None,
        }
    }
}

/// Parse element content up to a close tag: child elements in document
/// order, concatenated text, the close tag's name, and the index after
/// it.
pub open spec fn sp_content(toks: Seq<TokModel>, i: int, env: Seq<(Seq<u8>, Seq<u8>)>) -> Option<
    (Seq<(QnModel, ValModel)>, Seq<u8>, Seq<u8>, Seq<u8>, int),
>
    decreases toks.len() - i, 1int,
{
    if i < 0 || i >= toks.len() {
        None
    } else {
        match toks[i] {
            TokModel::Close(cp, cl) => Some((Seq::empty(), Seq::empty(), cp, cl, i + 1)),
            TokModel::Text(t) => match sp_content(toks, i + 1, env) {
                None => None,
                Some((ps, txt, cp, cl, k)) => Some((ps, sp_unescape(t) + txt, cp, cl, k)),
            },
            TokModel::Skip => sp_content(toks, i + 1, env),
            TokModel::Open(_, _) => match sp_element(toks, i, env) {
                None => None,
                Some((q, v, j0)) => {
                    let j = if j0 <= i {
                        i + 1
                    } else if j0 > toks.len() {
                        toks.len() as int
                    } else {
                        j0
                    };
                    match sp_content(toks, j, env) {
                        None => None,
                        Some((ps, txt, cp, cl, k)) => Some((seq![(q, v)] + ps, txt, cp, cl, k)),
                    }
                },
            },
            _ => None,
        }
    }
}

/// Parse a document: leading text, declarations and comments are
/// skipped, then the root element; anything after it is ignored.
pub open spec fn sp_document_from(toks: Seq<TokModel>, i: int) -> Option<(QnModel, ValModel)>
    decreases toks.len() - i,
{
    if i < 0 || i >= toks.len() {
        None
    } else {
        match toks[i] {
            TokModel::Open(_, _) => match sp_element(toks, i, Seq::empty()) {
                None => None,
                Some((q, v, _)) => Some((q, v)),
            },
            TokModel::Text(_) => sp_document_from(toks, i + 1),
            TokModel::Skip => sp_document_from(toks, i + 1),
            _ => None,
        }
    }
}

/// The root name and value a token stream parses to.
pub open spec fn sp_document(toks: Seq<TokModel>) -> Option<(QnModel, ValModel)> {
    sp_document_from(toks, 0)
}

/// Model of a namespace environment.
pub open spec fn env_model(env: Seq<(Vec<u8>, Vec<u8>)>) -> Seq<(Seq<u8>, Seq<u8>)> {
    env.map_values(|b: (Vec<u8>, Vec<u8>)| (b.0@, b.1@))
}

/// The `xmlns` attribute name, executable.
fn xmlns_bytes() -> (v: Vec<u8>)
    ensures
        v@ == sp_xmlns(),
{
    let v = vec![120u8, 109, 108, 110, 115];
    assert(v@ =~= sp_xmlns());
    v
}

/// Copy a namespace environment.
fn copy_env(env: &Vec<(Vec<u8>, Vec<u8>)>) -> (r: Vec<(Vec<u8>, Vec<u8>)>)
    ensures
        env_model(r@) == env_model(env@),
{
    let mut r: Vec<(Vec<u8>, Vec<u8>)> = Vec::new();
    let mut i: usize = 0;
    while i < env.len()
        invariant
            0 <= i <= env@.len(),
            r@.len() == i,
            forall|j: int| 0 <= j < i ==> (r@[j].0@, r@[j].1@) == (env@[j].0@, env@[j].1@),
        decreases env@.len() - i,
    {
        let e = &env[i];
        r.push((copy_bytes(&e.0), copy_bytes(&e.1)));
        i += 1;
    }
    assert(env_model(r@) =~= env_model(env@));
    r
}

/// Resolve a prefix against the bindings in scope.
fn lookup_ns(env: &Vec<(Vec<u8>, Vec<u8>)>, prefix: &Vec<u8>) -> (r: Vec<u8>)
    ensures
        r@ == sp_lookup_ns(env_model(env@), prefix@),
{
    let ghost em = env_model(env@);
    proof {
        assert(em.take(env@.len() as int) =~= em);
    }
    let mut i: usize = env.len();
    while i > 0
        invariant
            0 <= i <= env@.len(),
            em == env_model(env@),
            em.len() == env@.len(),
            sp_lookup_ns(em, prefix@) == sp_lookup_ns(em.take(i as int), prefix@),
        decreases i,
    {
        proof {
            assert(em.take(i as int).last() == em[i - 1]);
            assert(em[i - 1] == (env@[i - 1].0@, env@[i - 1].1@));
            assert(em.take(i as int).drop_last() =~= em.take(i as int - 1));
        }
        let e = &env[i - 1];
        if crate::bytes::bytes_eq(&e.0, prefix) {
            return copy_bytes(&e.1);
        }
        i -= 1;
    }
    proof {
        assert(em.take(0) =~= Seq::<(Seq<u8>, Seq<u8>)>::empty());
    }
    let r: Vec<u8> = Vec::new();
    assert(r@ =~= Seq::<u8>::empty());
    r
}

/// Scan attributes, extending the bindings in place.
#[verifier::loop_isolation(false)]
fn scan_attrs(toks: &Vec<Tok>, i: usize, env: &mut Vec<(Vec<u8>, Vec<u8>)>) -> (j: usize)
    requires
        i <= toks@.len(),
    ensures
        (env_model(final(env)@), j as int) == sp_scan_attrs(
            toks_model(toks@),
            i as int,
            env_model(old(env)@),
        ),
        i <= j <= toks@.len(),
    decreases toks@.len() - i,
{
    let ghost tm = toks_model(toks@);
    if i >= toks.len() {
        return i;
    }
    match &toks[i] {
        Tok::Attr(p, l, v) => {
            proof {
                assert(tm[i as int] == toks@[i as int]@);
            }
            let xm = xmlns_bytes();
            if crate::bytes::bytes_eq(p, &xm) {
                env.push((copy_bytes(l), copy_bytes(v)));
                proof {
                    assert(env_model(env@) =~= env_model(old(env)@).push((l@, v@)));
                }
            } else if p.len() == 0 && crate::bytes::bytes_eq(l, &xm) {
                let empty_p: Vec<u8> = Vec::new();
                assert(empty_p@ =~= Seq::<u8>::empty());
                env.push((empty_p, copy_bytes(v)));
                proof {
                    assert(env_model(env@) =~= env_model(old(env)@).push(
                        (Seq::<u8>::empty(), v@),
                    ));
                }
            }
            scan_attrs(toks, i + 1, env)
        },
        _ => {
            proof {
                assert(tm[i as int] == toks@[i as int]@);
            }
            i
        },
    }
}

/// Build the entry map of an element from its child pairs in document
/// order.
#[verifier::loop_isolation(false)]
fn fold_pairs(pairs: Vec<(QName, Value)>) -> (m: ValueMap)
    ensures
        m@ == sp_fold_pairs(entries_model(pairs@)),
{
    let ghost psm = entries_model(pairs@);
    proof {
        lemma_entries_model(pairs@);
    }
    let mut m = ValueMap::new();
    let mut i: usize = 0;
    let n = pairs.len();
    let mut rest = pairs;
    proof {
        assert(psm.take(0) =~= Seq::<(QnModel, ValModel)>::empty());
    }
    while i < n
        invariant
            0 <= i <= n,
            n == psm.len(),
            rest@.len() == n - i,
            forall|j: int|
                0 <= j < n - i ==> (rest@[j].0@, crate::value::val_model(rest@[j].1)) == psm[
                    j + i
                ],
            m@ == sp_fold_pairs(psm.take(i as int)),
        decreases n - i,
    {
        let (q, v) = rest.remove(0);
        let ghost qm = q@;
        let ghost vm = crate::value::val_model(v);
        m.insert(q, v);
        proof {
            assert(psm.take(i as int + 1).drop_last() =~= psm.take(i as int));
            assert(psm.take(i as int + 1).last() == psm[i as int]);
            assert((qm, vm) == psm[i as int]);
        }
        i += 1;
    }
    proof {
        assert(psm.take(n as int) =~= psm);
    }
    m
}

/// Build an element's value from its children and text.
fn mk_value(pairs: Vec<(QName, Value)>, text: Vec<u8>) -> (v: Value)
    ensures
        v@ == sp_mk_value(entries_model(pairs@), text@),
{
    proof {
        lemma_entries_model(pairs@);
    }
    if pairs.len() > 0 {
        Value::Children(fold_pairs(pairs))
    } else if text.len() > 0 {
        Value::Text(text)
    } else {
        Value::Empty
    }
}

/// Parse one element starting at an open tag.
#[verifier::loop_isolation(false)]
fn parse_element(toks: &Vec<Tok>, i: usize, env: &Vec<(Vec<u8>, Vec<u8>)>) -> (r: Option<
    (QName, Value, usize),
>)
    ensures
        match r {
            Some((q, v, k)) => sp_element(toks_model(toks@), i as int, env_model(env@)) == Some(
                (q@, v@, k as int),
            ) && i < k <= toks@.len(),
            None => sp_element(toks_model(toks@), i as int, env_model(env@)) is None,
        },
    decreases toks@.len() - i, 0int,
{
    let ghost tm = toks_model(toks@);
    if i >= toks.len() {
        return None;
    }
    proof {
        assert(tm[i as int] == toks@[i as int]@);
    }
    let (p, l) = match &toks[i] {
        Tok::Open(p, l) => (p, l),
        _ => {
            return None;
        },
    };
    let mut env2 = copy_env(env);
    let j = scan_attrs(toks, i + 1, &mut env2);
    let qn = QName { ns: lookup_ns(&env2, p), local: copy_bytes(l) };
    if j >= toks.len() {
        return None;
    }
    proof {
        assert(tm[j as int] == toks@[j as int]@);
    }
    match &toks[j] {
        Tok::SelfClose => Some((qn, Value::Empty, j + 1)),
        Tok::Gt => {
            match parse_content(toks, j + 1, &env2) {
                None => None,
                Some((pairs, text, cp, cl, k)) => {
                    if crate::bytes::bytes_eq(&cp, p) && crate::bytes::bytes_eq(&cl, l) {
                        Some((qn, mk_value(pairs, text), k))
                    } else {
                        None
                    }
                },
            }
        },
        _ => None,
    }
}

/// Parse element content up to a close tag.
#[verifier::loop_isolation(false)]
fn parse_content(toks: &Vec<Tok>, i: usize, env: &Vec<(Vec<u8>, Vec<u8>)>) -> (r: Option<
    (Vec<(QName, Value)>, Vec<u8>, Vec<u8>, Vec<u8>, usize),
>)
    ensures
        match r {
            Some((pairs, text, cp, cl, k)) => sp_content(
                toks_model(toks@),
                i as int,
                env_model(env@),
            ) == Some((entries_model(pairs@), text@, cp@, cl@, k as int)) && i < k <= toks@.len(),
            None => sp_content(toks_model(toks@), i as int, env_model(env@)) is None,
        },
    decreases toks@.len() - i, 1int,
{
    let ghost tm = toks_model(toks@);
    if i >= toks.len() {
        return None;
    }
    proof {
        assert(tm[i as int] == toks@[i as int]@);
    }
    match &toks[i] {
        Tok::Close(cp, cl) => {
            let pairs: Vec<(QName, Value)> = Vec::new();
            let text: Vec<u8> = Vec::new();
            proof {
                assert(entries_model(pairs@) =~= Seq::<(QnModel, ValModel)>::empty());
                assert(text@ =~= Seq::<u8>::empty());
            }
            Some((pairs, text, copy_bytes(cp), copy_bytes(cl), i + 1))
        },
        Tok::Text(t) => {
            match parse_content(toks, i + 1, env) {
                None => None,
                Some((pairs, text, cp, cl, k)) => {
                    let mut tt = unescape(t);
                    let mut rest = text;
                    tt.append(&mut rest);
                    Some((pairs, tt, cp, cl, k))
                },
            }
        },
        Tok::Skip => parse_content(toks, i + 1, env),
        Tok::Open(_, _) => {
            match parse_element(toks, i, env) {
                None => None,
                Some((q, v, j)) => {
                    match parse_content(toks, j, env) {
                        None => None,
                        Some((pairs, text, cp, cl, k)) => {
                            let ghost qm = q@;
                            let ghost vm = v@;
                            let ghost prev = pairs@;
                            let mut pairs2 = pairs;
                            pairs2.insert(0, (q, v));
                            proof {
                                lemma_entries_model(pairs2@);
                                lemma_entries_model(prev);
                                assert(pairs2@ =~= seq![(pairs2@[0].0, pairs2@[0].1)] + prev);
                                assert(entries_model(pairs2@) =~= seq![(qm, vm)] + entries_model(
                                    prev,
                                ));
                            }
                            Some((pairs2, text, cp, cl, k))
                        },
                    }
                },
            }
        },
        _ => None,
    }
}

/// Parse a whole document into its root name and value.
pub fn parse_document(toks: &Vec<Tok>) -> (r: Option<(QName, Value)>)
    ensures
        match r {
            Some((q, v)) => sp_document(toks_model(toks@)) == Some((q@, v@)),
            None => sp_document(toks_model(toks@)) is None,
        },
{
    parse_document_from(toks, 0)
}

fn parse_document_from(toks: &Vec<Tok>, i: usize) -> (r: Option<(QName, Value)>)
    requires
        i <= toks@.len(),
    ensures
        match r {
            Some((q, v)) => sp_document_from(toks_model(toks@), i as int) == Some((q@, v@)),
            None => sp_document_from(toks_model(toks@), i as int) is None,
        },
    decreases toks@.len() - i,
{
    let ghost tm = toks_model(toks@);
    if i >= toks.len() {
        return None;
    }
    proof {
        assert(tm[i as int] == toks@[i as int]@);
    }
    match &toks[i] {
        Tok::Open(_, _) => {
            let env: Vec<(Vec<u8>, Vec<u8>)> = Vec::new();
            proof {
                assert(env_model(env@) =~= Seq::<(Seq<u8>, Seq<u8>)>::empty());
            }
            match parse_element(toks, i, &env) {
                None => None,
                Some((q, v, _)) => Some((q, v)),
            }
        },
        Tok::Text(_) => parse_document_from(toks, i + 1),
        Tok::Skip => parse_document_from(toks, i + 1),
        _ => None,
    }
}

/// An ASCII whitespace byte.
pub open spec fn sp_is_ws(b: u8) -> bool {
    b == 32 || b == 9 || b == 10 || b == 13
}

/// Index of the first non-whitespace byte, or the length.
pub open spec fn sp_ws_end(b: Seq<u8>, i: int) -> int
    decreases b.len() - i,
{
    if i < 0 || i >= b.len() {
        b.len() as int
    } else if sp_is_ws(b[i]) {
        sp_ws_end(b, i + 1)
    } else {
        i
    }
}

/// A body without its leading ASCII whitespace, which is tolerated
/// before the XML declaration.
pub open spec fn sp_trim_start(b: Seq<u8>) -> Seq<u8> {
    b.skip(sp_ws_end(b, 0))
}

proof fn lemma_ws_end(b: Seq<u8>, from: int, k: int)
    requires
        0 <= from <= k <= b.len(),
        forall|j: int| from <= j < k ==> sp_is_ws(b[j]),
        k < b.len() ==> !sp_is_ws(b[k]),
    ensures
        sp_ws_end(b, from) == k,
    decreases k - from,
{
    if from < k {
        lemma_ws_end(b, from + 1, k);
    }
}

/// Drop leading ASCII whitespace.
fn trim_start(b: &Vec<u8>) -> (r: Vec<u8>)
    ensures
        r@ == sp_trim_start(b@),
{
    let n = b.len();
    let mut i: usize = 0;
    while i < n && (b[i] == 32 || b[i] == 9 || b[i] == 10 || b[i] == 13)
        invariant
            0 <= i <= n,
            n == b@.len(),
            forall|j: int| 0 <= j < i ==> sp_is_ws(b@[j]),
        decreases n - i,
    {
        i += 1;
    }
    proof {
        lemma_ws_end(b@, 0, i as int);
    }
    let mut r: Vec<u8> = Vec::new();
    let mut j: usize = i;
    while j < n
        invariant
            i <= j <= n,
            n == b@.len(),
            r@ =~= b@.subrange(i as int, j as int),
        decreases n - j,
    {
        r.push(b[j]);
        j += 1;
    }
    proof {
        assert(r@ =~= b@.skip(i as int));
    }
    r
}

/// Tokenize a byte body and parse it into its root name and value: the
/// external tokenizer's stream, then the verified builder.
pub fn parse_xml(body: &Vec<u8>) -> (r: Option<(QName, Value)>)
    ensures
        match r {
            Some((q, v)) => sp_parse_xml(body@) == Some((q@, v@)),
            None => sp_parse_xml(body@) is None,
        },
{
    let trimmed = trim_start(body);
    let s = match utf8_str(&trimmed) {
        Some(s) => s,
        None => {
            return None;
        },
    };
    let toks = match tokenize(s) {
        Some(t) => t,
        None => {
            return None;
        },
    };
    parse_document(&toks)
}

/// The root name and value a byte body parses to: nothing unless the
/// bytes, less leading whitespace, are valid UTF-8, the text tokenizes,
/// and the tokens form a well-nested document.
pub open spec fn sp_parse_xml(body: Seq<u8>) -> Option<(QnModel, ValModel)> {
    let b = sp_trim_start(body);
    if !vstd::utf8::valid_utf8(b) {
        None
    } else {
        match xml_tokens_of(vstd::utf8::decode_utf8(b)) {
            None => None,
            Some(ts) => sp_document(ts),
        }
    }
}

} // verus!
