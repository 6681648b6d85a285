//! Reduction of a decoded multistatus to a flat list of file records:
//! one record per successful property-status block, in document order.

use vstd::prelude::*;

use crate::bytes::{ends_in_slash, sp_ends_in_slash};
use crate::elements::{
    sp_props_get, Multistatus, MultistatusModel, Properties, PropstatModel, Response,
    ResponseModel,
};
use crate::properties::{ContentLength, CreationDate, LastModified};
use crate::qname::QnModel;
use crate::status::sp_is_success;
use crate::timestamp::Timestamp;
use crate::value::{sp_lookup, ValModel};

verus! {

/// File-or-directory classification of a record.
#[derive(Clone, Copy, Debug, PartialEq, Eq, Structural)]
pub enum FileKind {
    File,
    Directory,
}

/// Metadata of one remote file record.
#[derive(Clone, Copy, Debug, PartialEq, Eq)]
pub struct FileMetadata {
    pub created: Option<Timestamp>,
    pub modified: Option<Timestamp>,
    pub size: u64,
    pub kind: FileKind,
}

/// One remote file record: the server-supplied path, as returned, and
/// its metadata.
#[derive(Debug, PartialEq, Eq)]
pub struct FileRecord {
    pub path: Vec<u8>,
    pub metadata: FileMetadata,
}

/// Mathematical model of a [`FileRecord`].
#[verifier::ext_equal]
pub struct FileRecModel {
    pub path: Seq<u8>,
    pub metadata: FileMetadata,
}

impl View for FileRecord {
    type V = FileRecModel;

    open spec fn view(&self) -> FileRecModel {
        FileRecModel { path: self.path@, metadata: self.metadata }
    }
}

impl FileRecord {
    /// Whether this record is classified as a directory.
    pub fn is_dir(&self) -> (r: bool)
        ensures
            r == (self.metadata.kind == FileKind::Directory),
    {
        matches!(self.metadata.kind, FileKind::Directory)
    }

    /// Whether this record is classified as a plain file.
    pub fn is_file(&self) -> (r: bool)
        ensures
            r == (self.metadata.kind == FileKind::File),
    {
        matches!(self.metadata.kind, FileKind::File)
    }
}

/// Models of a sequence of records.
pub open spec fn recs_model(fs: Seq<FileRecord>) -> Seq<FileRecModel> {
    fs.map_values(|f: FileRecord| f@)
}

/// The creation date a property map yields: present, non-empty and
/// well-formed, or nothing.
pub open spec fn sp_prop_created(prop: Seq<(QnModel, ValModel)>) -> Option<Timestamp> {
    match sp_props_get::<CreationDate>(prop) {
        Some(Some(Ok(ts))) => Some(ts),
        _ => None,
    }
}

/// The modification date a property map yields.
pub open spec fn sp_prop_modified(prop: Seq<(QnModel, ValModel)>) -> Option<Timestamp> {
    match sp_props_get::<LastModified>(prop) {
        Some(Some(Ok(ts))) => Some(ts),
        _ => None,
    }
}

/// The size a property map yields, zero when absent, empty or
/// malformed.
pub open spec fn sp_prop_size(prop: Seq<(QnModel, ValModel)>) -> u64 {
    match sp_props_get::<ContentLength>(prop) {
        Some(Some(Ok(n))) => n,
        _ => 0,
    }
}

/// Classification by the href's trailing path separator.
pub open spec fn sp_kind_of(href: Seq<u8>) -> FileKind {
    if sp_ends_in_slash(href) {
        FileKind::Directory
    } else {
        FileKind::File
    }
}

/// The record one `prop` block produces for a resource at `href`.
pub open spec fn sp_record(href: Seq<u8>, prop: Seq<(QnModel, ValModel)>) -> FileRecModel {
    FileRecModel {
        path: href,
        metadata: FileMetadata {
            created: sp_prop_created(prop),
            modified: sp_prop_modified(prop),
            size: sp_prop_size(prop),
            kind: sp_kind_of(href),
        },
    }
}

/// The records the propstat blocks of one resource produce: one per
/// block whose status is a success.
pub open spec fn sp_propstat_files(href: Seq<u8>, pss: Seq<PropstatModel>) -> Seq<FileRecModel>
    decreases pss.len(),
{
    if pss.len() == 0 {
        Seq::empty()
    } else {
        let rest = sp_propstat_files(href, pss.skip(1));
        if sp_is_success(pss[0].status.code) {
            seq![sp_record(href, pss[0].prop)] + rest
        } else {
            rest
        }
    }
}

/// The records one response entry produces: none for the status-only
/// shape.
pub open spec fn sp_response_files(r: ResponseModel) -> Seq<FileRecModel> {
    match r {
        ResponseModel::Propstat { href, propstat, .. } => sp_propstat_files(href, propstat),
        ResponseModel::Status { .. } => Seq::empty(),
    }
}

/// The records of a sequence of responses, in document order.
pub open spec fn sp_responses_files(rs: Seq<ResponseModel>) -> Seq<FileRecModel>
    decreases rs.len(),
{
    if rs.len() == 0 {
        Seq::empty()
    } else {
        sp_response_files(rs[0]) + sp_responses_files(rs.skip(1))
    }
}

/// The flat record list of a whole multistatus.
pub open spec fn sp_files(ms: MultistatusModel) -> Seq<FileRecModel> {
    sp_responses_files(ms.response)
}

/// Build the record one `prop` block produces.
fn record_from(href: &Vec<u8>, prop: &Properties) -> (f: FileRecord)
    ensures
        f@ == sp_record(href@, prop@),
{
    let created: Option<Timestamp> = match prop.creationdate() {
        Some(Some(Ok(d))) => Some(d.0),
        _ => None,
    };
    let modified: Option<Timestamp> = match prop.getlastmodified() {
        Some(Some(Ok(d))) => Some(d.0),
        _ => None,
    };
    let size: u64 = match prop.getcontentlength() {
        Some(Some(Ok(n))) => n.0,
        _ => 0,
    };
    let kind = if ends_in_slash(href) {
        FileKind::Directory
    } else {
        FileKind::File
    };
    FileRecord {
        path: crate::value::copy_bytes(href),
        metadata: FileMetadata { created, modified, size, kind },
    }
}

/// Append the records of one response entry.
#[verifier::loop_isolation(false)]
fn push_response_files(out: &mut Vec<FileRecord>, r: &Response)
    ensures
        recs_model(final(out)@) == recs_model(old(out)@) + sp_response_files(r@),
{
    match r {
        Response::Status { .. } => {
            assert(recs_model(out@) =~= recs_model(out@) + sp_response_files(r@));
        },
        Response::Propstat { href, propstat, .. } => {
            let ghost base = recs_model(out@);
            let ghost pssm = crate::elements::propstats_model(propstat@);
            proof {
                assert(pssm.skip(0) =~= pssm);
                assert(base + sp_propstat_files(href@, pssm) =~= base + sp_propstat_files(
                    href@,
                    pssm,
                ));
            }
            let mut i: usize = 0;
            while i < propstat.len()
                invariant
                    0 <= i <= propstat@.len(),
                    pssm.len() == propstat@.len(),
                    recs_model(out@) + sp_propstat_files(href@, pssm.skip(i as int)) =~= base
                        + sp_propstat_files(href@, pssm),
                decreases propstat@.len() - i,
            {
                let ghost pre = recs_model(out@);
                let ps = &propstat[i];
                proof {
                    assert(pssm.skip(i as int)[0] == pssm[i as int]);
                    assert(pssm[i as int] == ps@);
                    assert(pssm.skip(i as int).skip(1) =~= pssm.skip(i as int + 1));
                }
                if 200 <= ps.status.code && ps.status.code < 300 {
                    let f = record_from(&href.0, &ps.prop);
                    let ghost fm = f@;
                    out.push(f);
                    proof {
                        assert(recs_model(out@) =~= pre.push(fm));
                        assert(sp_propstat_files(href@, pssm.skip(i as int)) == seq![fm]
                            + sp_propstat_files(href@, pssm.skip(i as int + 1)));
                        assert(pre.push(fm) + sp_propstat_files(href@, pssm.skip(i as int + 1))
                            =~= pre + sp_propstat_files(href@, pssm.skip(i as int)));
                    }
                } else {
                    proof {
                        assert(sp_propstat_files(href@, pssm.skip(i as int)) == sp_propstat_files(
                            href@,
                            pssm.skip(i as int + 1),
                        ));
                    }
                }
                i += 1;
            }
            proof {
                assert(pssm.skip(propstat@.len() as int) =~= Seq::<PropstatModel>::empty());
                assert(recs_model(out@) + Seq::<FileRecModel>::empty() =~= recs_model(out@));
            }
        },
    }
}

/// Walk a decoded multistatus and yield one file record per successful
/// propstat block, in document order; status-only entries contribute
/// none.
#[verifier::loop_isolation(false)]
pub fn files_from_multistatus(ms: &Multistatus) -> (r: Vec<FileRecord>)
    ensures
        recs_model(r@) == sp_files(ms@),
{
    let ghost rsm = crate::elements::responses_model(ms.response@);
    let mut out: Vec<FileRecord> = Vec::new();
    assert(recs_model(out@) =~= Seq::<FileRecModel>::empty());
    proof {
        assert(rsm.skip(0) =~= rsm);
        assert(recs_model(out@) + sp_responses_files(rsm) =~= sp_responses_files(rsm));
    }
    let mut i: usize = 0;
    while i < ms.response.len()
        invariant
            0 <= i <= ms.response@.len(),
            rsm.len() == ms.response@.len(),
            recs_model(out@) + sp_responses_files(rsm.skip(i as int)) =~= sp_responses_files(rsm),
        decreases ms.response@.len() - i,
    {
        let ghost pre = recs_model(out@);
        proof {
            assert(rsm.skip(i as int)[0] == rsm[i as int]);
            assert(rsm[i as int] == ms.response@[i as int]@);
            assert(rsm.skip(i as int).skip(1) =~= rsm.skip(i as int + 1));
        }
        push_response_files(&mut out, &ms.response[i]);
        proof {
            assert(recs_model(out@) =~= pre + sp_response_files(rsm[i as int]));
            assert((pre + sp_response_files(rsm[i as int])) + sp_responses_files(
                rsm.skip(i as int + 1),
            ) =~= pre + sp_responses_files(rsm.skip(i as int)));
        }
        i += 1;
    }
    proof {
        assert(rsm.skip(ms.response@.len() as int) =~= Seq::<ResponseModel>::empty());
        assert(recs_model(out@) + Seq::<FileRecModel>::empty() =~= recs_model(out@));
    }
    out
}

/// A multistatus with zero `response` entries reduces to an empty list,
/// not an error.
pub proof fn lemma_empty_multistatus(ms: MultistatusModel)
    requires
        ms.response.len() == 0,
    ensures
        sp_files(ms) == Seq::<FileRecModel>::empty(),
{
}

/// A well-formed `prop` block missing every optional property produces a
/// record with default metadata: no timestamps and size zero.
pub proof fn lemma_absent_properties_default(href: Seq<u8>, prop: Seq<(QnModel, ValModel)>)
    requires
        sp_lookup(prop, crate::qname::qn_creationdate()) is None,
        sp_lookup(prop, crate::qname::qn_getlastmodified()) is None,
        sp_lookup(prop, crate::qname::qn_getcontentlength()) is None,
    ensures
        sp_record(href, prop).metadata.created is None,
        sp_record(href, prop).metadata.modified is None,
        sp_record(href, prop).metadata.size == 0,
{
}

/// A record is classified as a directory exactly when its href ends in
/// the path separator, whatever its properties hold.
pub proof fn lemma_classification(href: Seq<u8>, prop: Seq<(QnModel, ValModel)>)
    ensures
        sp_record(href, prop).metadata.kind == FileKind::Directory <==> sp_ends_in_slash(href),
        sp_record(href, prop).metadata.kind == FileKind::File <==> !sp_ends_in_slash(href),
{
}

} // verus!
