//! The boundary: what a request must look like before the engine is called,
//! and what the caller is told afterwards.

use crate::engine::{complete, complete_package, WorkflowError};
use crate::marks::{mark_list, mark_list_view, Mark, MarkListUnit};
use crate::packagers::{get_working_list, work_list_view, working_list, WorkListUnit};
use crate::store::{Store, StoreView};
use crate::text::{same_text, texts_view};
use crate::vocab::StatusKind;
use vstd::prelude::*;

verus! {

/// Whether a request was served.
#[derive(Clone, Copy, PartialEq, Eq, Structural, Debug)]
pub enum ReqStatus {
    /// The request was served.
    Done,
    /// The request was refused or failed.
    Fail,
}

/// What the caller is told: a response class, whether the request was
/// served, a message for readers and a detail for operators.
pub struct MsgResp {
    /// The HTTP status code of the response.
    pub code: u16,
    /// Whether the request was served.
    pub status: ReqStatus,
    /// A short message.
    pub msg: String,
    /// The cause, or what was done.
    pub detail: String,
}

/// What a [`MsgResp`] says.
pub struct MsgRespView {
    pub code: u16,
    pub status: ReqStatus,
    pub msg: Seq<char>,
    pub detail: Seq<char>,
}

impl View for MsgResp {
    type V = MsgRespView;

    open spec fn view(&self) -> MsgRespView {
        MsgRespView { code: self.code, status: self.status, msg: self.msg@, detail: self.detail@ }
    }
}

impl MsgResp {
    /// The response to a request that was served.
    pub fn new_200_msg(detail: &str) -> (r: MsgResp)
        ensures
            r@ == (MsgRespView {
                code: 200,
                status: ReqStatus::Done,
                msg: "Request success"@,
                detail: detail@,
            }),
    {
        MsgResp {
            code: 200,
            status: ReqStatus::Done,
            msg: "Request success".to_owned(),
            detail: detail.to_owned(),
        }
    }

    /// The response to a request that failed inside the server.
    pub fn new_500_resp(msg: &str, detail: &str) -> (r: MsgResp)
        ensures
            r@ == (MsgRespView { code: 500, status: ReqStatus::Fail, msg: msg@, detail: detail@ }),
    {
        MsgResp {
            code: 500,
            status: ReqStatus::Fail,
            msg: msg.to_owned(),
            detail: detail.to_owned(),
        }
    }

    /// The response to a request that may not be made.
    pub fn new_403_resp(detail: &str) -> (r: MsgResp)
        ensures
            r@ == (MsgRespView {
                code: 403,
                status: ReqStatus::Fail,
                msg: "forbidden"@,
                detail: detail@,
            }),
    {
        MsgResp {
            code: 403,
            status: ReqStatus::Fail,
            msg: "forbidden".to_owned(),
            detail: detail.to_owned(),
        }
    }

    /// The response to a request that is wrong in itself.
    pub fn new_400_resp(detail: &str) -> (r: MsgResp)
        ensures
            r@ == (MsgRespView {
                code: 400,
                status: ReqStatus::Fail,
                msg: "bad request"@,
                detail: detail@,
            }),
    {
        MsgResp {
            code: 400,
            status: ReqStatus::Fail,
            msg: "bad request".to_owned(),
            detail: detail.to_owned(),
        }
    }
}

/// The status dashboard: who works on what, and which package carries which
/// marks.
pub struct PkgJsonResponse {
    pub work_list: Vec<WorkListUnit>,
    pub mark_list: Vec<MarkListUnit>,
}

/// Takes the snapshot for the status dashboard.
pub fn pkg(store: &Store) -> (r: PkgJsonResponse)
    ensures
        work_list_view(r.work_list@) == working_list(store@),
        mark_list_view(r.mark_list@) == mark_list(store@),
{
    let work_list = get_working_list(store);
    let mark_list = Mark::fetch_all(store);
    PkgJsonResponse { work_list, mark_list }
}

/// The path of a request that reports a package as done.
pub struct RouteDeletePathSegment {
    /// The package's name.
    pub pkgname: String,
    /// The kind of status that the caller reports, `ftbfs` or `leaf`.
    pub status: String,
}

/// The query of a request that reports a package as done.
pub struct RouteDeleteQuery {
    /// The shared secret that allows the request.
    pub token: String,
}

/// Whether a status kind is one that the request may carry.
pub open spec fn status_allowed(status: Seq<char>) -> bool {
    StatusKind::parse_text(status) is Some
}

/// The detail of the refusal of a status kind.
pub open spec fn bad_status_text(status: Seq<char>) -> Seq<char> {
    "Required 'ftbfs' or 'leaf', get "@ + status
}

/// What a request that reports a package as done is answered with, and what
/// it leaves behind.
pub struct DeletedView {
    pub response: MsgRespView,
    pub notices: Seq<Seq<char>>,
    pub store: StoreView,
}

/// Serving a request that reports a package as done.
///
/// A wrong token is refused as forbidden, then a status kind that is not
/// allowed as a bad request, then a package without assignee as a bad
/// request; none of them changes the store or sends a notice. Else the
/// package is completed, and the request is answered as served.
pub open spec fn deleted(
    s: StoreView,
    expected: Seq<char>,
    token: Seq<char>,
    pkgname: Seq<char>,
    status: Seq<char>,
) -> DeletedView {
    if token != expected {
        DeletedView {
            response: MsgRespView {
                code: 403,
                status: ReqStatus::Fail,
                msg: "forbidden"@,
                detail: "invalid token"@,
            },
            notices: Seq::empty(),
            store: s,
        }
    } else if !status_allowed(status) {
        DeletedView {
            response: MsgRespView {
                code: 400,
                status: ReqStatus::Fail,
                msg: "bad request"@,
                detail: bad_status_text(status),
            },
            notices: Seq::empty(),
            store: s,
        }
    } else {
        match complete(s, pkgname) {
            Err(_) => DeletedView {
                response: MsgRespView {
                    code: 400,
                    status: ReqStatus::Fail,
                    msg: "bad request"@,
                    detail: "fail to fetch packager"@,
                },
                notices: Seq::empty(),
                store: s,
            },
            Ok(c) => DeletedView {
                response: MsgRespView {
                    code: 200,
                    status: ReqStatus::Done,
                    msg: "Request success"@,
                    detail: "package deleted"@,
                },
                notices: c.notices,
                store: c.store,
            },
        }
    }
}

/// The answer to a request that reports a package as done.
pub struct Deleted {
    /// What the caller is told.
    pub response: MsgResp,
    /// The notices to send, in order.
    pub notices: Vec<String>,
}

/// Serves a request that reports a package as done: checks the token and the
/// status kind, then completes the package.
pub fn delete(
    path: &RouteDeletePathSegment,
    q: &RouteDeleteQuery,
    token: &str,
    store: &mut Store,
) -> (r: Deleted)
    ensures
        deleted(old(store)@, token@, q.token@, path.pkgname@, path.status@) == (DeletedView {
            response: r.response@,
            notices: texts_view(r.notices@),
            store: final(store)@,
        }),
        old(store)@.valid() ==> final(store)@.valid(),
{
    if !same_text(q.token.as_str(), token) {
        let r = Deleted { response: MsgResp::new_403_resp("invalid token"), notices: Vec::new() };
        assert(texts_view(r.notices@) =~= Seq::<Seq<char>>::empty());
        return r;
    }
    let status = path.status.as_str();
    if StatusKind::from_name(status).is_none() {
        let mut detail = "Required 'ftbfs' or 'leaf', get ".to_owned();
        detail.append(status);
        let r = Deleted { response: MsgResp::new_400_resp(detail.as_str()), notices: Vec::new() };
        assert(texts_view(r.notices@) =~= Seq::<Seq<char>>::empty());
        return r;
    }
    match complete_package(store, path.pkgname.as_str()) {
        Err(WorkflowError::PreconditionFailed) => {
            let r = Deleted {
                response: MsgResp::new_400_resp("fail to fetch packager"),
                notices: Vec::new(),
            };
            assert(texts_view(r.notices@) =~= Seq::<Seq<char>>::empty());
            r
        },
        Ok(notices) => Deleted { response: MsgResp::new_200_msg("package deleted"), notices },
    }
}

} // verus!
