//! The per-request pipeline of the gateway, as a state machine.
//!
//! The caller owns the object store and runs the loop: it starts a request
//! with `GatewayService::start`, performs the store operation that each
//! returned `Step` names, and hands the outcome to the matching `on_*` method,
//! until a `Step::Respond` comes back. Each store operation is asked for at
//! most once per request and nothing is retried.
use vstd::prelude::*;
use vstd::string::*;
use crate::content::{content_type_of, guess_content_type};
use crate::domain::{host_allowed, is_allow_domain, string_views};
use crate::key::{get_object_key, opt_view, resolved_key};
use crate::request::{get_host, host_part, request_host};
use crate::text::{chars_eq, chars_of};

verus! {

pub const OK: u16 = 200;
pub const BAD_REQUEST: u16 = 400;
pub const FORBIDDEN: u16 = 403;
pub const NOT_FOUND: u16 = 404;
pub const METHOD_NOT_ALLOWED: u16 = 405;
pub const INTERNAL_SERVER_ERROR: u16 = 500;
pub const FOUND: u16 = 302;

/// What the gateway answers.
pub enum Reply {
    /// 200 with the object's bytes, labelled with a media type.
    Object { content_type: String, body: Vec<u8> },
    /// 302 to another path of the same host.
    Redirect { location: String },
    /// A status with a plain-text body that only names the status.
    Plain(u16),
}

pub enum ReplyModel {
    Object { content_type: Seq<char>, body: Seq<u8> },
    Redirect { location: Seq<char> },
    Plain(u16),
}

impl View for Reply {
    type V = ReplyModel;

    open spec fn view(&self) -> ReplyModel {
        match self {
            Reply::Object { content_type, body } => ReplyModel::Object {
                content_type: content_type@,
                body: body@,
            },
            Reply::Redirect { location } => ReplyModel::Redirect { location: location@ },
            Reply::Plain(status) => ReplyModel::Plain(*status),
        }
    }
}

pub open spec fn reply_status(r: ReplyModel) -> u16 {
    match r {
        ReplyModel::Object { .. } => OK,
        ReplyModel::Redirect { .. } => FOUND,
        ReplyModel::Plain(status) => status,
    }
}

impl Reply {
    /// The HTTP status of the reply.
    pub fn status(&self) -> (r: u16)
        ensures
            r == reply_status(self@),
    {
        match self {
            Reply::Object { .. } => OK,
            Reply::Redirect { .. } => FOUND,
            Reply::Plain(status) => *status,
        }
    }
}

/// What the pipeline needs next.
pub enum Step {
    /// Answer the client; the request is done.
    Respond(Reply),
    /// Check that `bucket` belongs to `expected_owner`, then call
    /// `GatewayService::on_owner_checked`.
    VerifyOwner { bucket: String, key: String, expected_owner: String },
    /// Fetch `key` from `bucket`, then call `GatewayService::on_object`.
    GetObject { bucket: String, key: String },
    /// Check that `key` exists in `bucket`, then call
    /// `GatewayService::on_redirect_checked`.
    HeadObject { bucket: String, key: String },
}

pub enum StepModel {
    Respond(ReplyModel),
    VerifyOwner { bucket: Seq<char>, key: Seq<char>, expected_owner: Seq<char> },
    GetObject { bucket: Seq<char>, key: Seq<char> },
    HeadObject { bucket: Seq<char>, key: Seq<char> },
}

impl View for Step {
    type V = StepModel;

    open spec fn view(&self) -> StepModel {
        match self {
            Step::Respond(reply) => StepModel::Respond(reply@),
            Step::VerifyOwner { bucket, key, expected_owner } => StepModel::VerifyOwner {
                bucket: bucket@,
                key: key@,
                expected_owner: expected_owner@,
            },
            Step::GetObject { bucket, key } => StepModel::GetObject { bucket: bucket@, key: key@ },
            Step::HeadObject { bucket, key } => StepModel::HeadObject {
                bucket: bucket@,
                key: key@,
            },
        }
    }
}

/// How a fetch of an object came out.
pub enum GetOutcome {
    /// The object exists; its bytes.
    Found(Vec<u8>),
    /// The store has no object under the key.
    NoSuchKey,
    /// Any other failure: permissions, a timeout, a fault of the service.
    Failed,
}

pub open spec fn plain(status: u16) -> StepModel {
    StepModel::Respond(ReplyModel::Plain(status))
}

/// The gateway's configuration and its own account identity, fixed at
/// startup and shared by every request.
pub struct GatewayService {
    pub allow_domains: Vec<String>,
    pub root_object: Option<String>,
    pub subdir_root_object: Option<String>,
    pub no_such_key_redirect_object: Option<String>,
    /// When set, buckets owned by other accounts may be served.
    pub allow_cross_account: bool,
    /// The account the gateway runs as; only needed when cross-account access
    /// is not allowed.
    pub self_account_id: Option<String>,
}

impl GatewayService {
    /// The bucket owner that requests must be checked against, if any.
    pub open spec fn expected_owner(&self) -> Option<Seq<char>> {
        if self.allow_cross_account {
            None
        } else {
            opt_view(self.self_account_id)
        }
    }

    /// The first step for a request with the given method, `Host` header and
    /// path: method, then host, then allow-list, then key, then ownership.
    pub open spec fn start_model(
        &self,
        is_get: bool,
        host_header: Option<Seq<char>>,
        path: Seq<char>,
    ) -> StepModel {
        if !is_get {
            plain(METHOD_NOT_ALLOWED)
        } else {
            match request_host(host_header) {
                None => plain(BAD_REQUEST),
                Some(host) => if !host_allowed(string_views(self.allow_domains@), host) {
                    plain(FORBIDDEN)
                } else {
                    match resolved_key(
                        path,
                        opt_view(self.root_object),
                        opt_view(self.subdir_root_object),
                    ) {
                        None => plain(NOT_FOUND),
                        Some(key) => self.guard_model(host, key),
                    }
                },
            }
        }
    }

    /// The ownership guard: skipped when cross-account access is allowed,
    /// otherwise the bucket's owner is checked against the gateway's own
    /// account; without that account nothing is served.
    pub open spec fn guard_model(&self, bucket: Seq<char>, key: Seq<char>) -> StepModel {
        if self.allow_cross_account {
            StepModel::GetObject { bucket, key }
        } else {
            match self.self_account_id {
                Some(id) => StepModel::VerifyOwner { bucket, key, expected_owner: id@ },
                None => plain(FORBIDDEN),
            }
        }
    }

    /// After a fetch of `key`: the object is served; a missing key falls back
    /// to the redirect object, unless there is none or it is the key itself;
    /// any other failure is an internal error.
    pub open spec fn on_object_model(
        &self,
        bucket: Seq<char>,
        key: Seq<char>,
        outcome: GetOutcome,
    ) -> StepModel {
        match outcome {
            GetOutcome::Found(body) => StepModel::Respond(
                ReplyModel::Object { content_type: content_type_of(key), body: body@ },
            ),
            GetOutcome::NoSuchKey => match self.no_such_key_redirect_object {
                Some(target) => if target@ == key {
                    plain(NOT_FOUND)
                } else {
                    StepModel::HeadObject { bucket, key: target@ }
                },
                None => plain(NOT_FOUND),
            },
            GetOutcome::Failed => plain(INTERNAL_SERVER_ERROR),
        }
    }

    /// Builds the service. Unless cross-account access is allowed, the
    /// gateway's own account must be known: without it there is no service.
    pub fn new(
        allow_domains: Vec<String>,
        root_object: Option<String>,
        subdir_root_object: Option<String>,
        no_such_key_redirect_object: Option<String>,
        allow_cross_account: bool,
        self_account_id: Option<String>,
    ) -> (r: Option<GatewayService>)
        ensures
            r is Some <==> (allow_cross_account || self_account_id is Some),
            r matches Some(s) ==> {
                &&& s.allow_domains == allow_domains
                &&& s.root_object == root_object
                &&& s.subdir_root_object == subdir_root_object
                &&& s.no_such_key_redirect_object == no_such_key_redirect_object
                &&& s.allow_cross_account == allow_cross_account
                &&& s.self_account_id == self_account_id
            },
    {
        if !allow_cross_account && self_account_id.is_none() {
            return None;
        }
        Some(
            GatewayService {
                allow_domains,
                root_object,
                subdir_root_object,
                no_such_key_redirect_object,
                allow_cross_account,
                self_account_id,
            },
        )
    }

    fn guard(&self, bucket: String, key: String) -> (r: Step)
        ensures
            r@ == self.guard_model(bucket@, key@),
    {
        if self.allow_cross_account {
            Step::GetObject { bucket, key }
        } else {
            match &self.self_account_id {
                Some(id) => Step::VerifyOwner { bucket, key, expected_owner: id.clone() },
                None => Step::Respond(Reply::Plain(FORBIDDEN)),
            }
        }
    }

    /// Starts a request. `host_header` is the `Host` header's value, if the
    /// request has one that reads as text.
    pub fn start(&self, is_get: bool, host_header: Option<&str>, path: &str) -> (r: Step)
        ensures
            r@ == self.start_model(
                is_get,
                match host_header {
                    Some(h) => Some(h@),
                    None => None,
                },
                path@,
            ),
    {
        if !is_get {
            return Step::Respond(Reply::Plain(METHOD_NOT_ALLOWED));
        }
        let host = match host_header {
            Some(h) => get_host(h),
            None => None,
        };
        let host = match host {
            Some(host) => host,
            None => {
                return Step::Respond(Reply::Plain(BAD_REQUEST));
            },
        };
        if !is_allow_domain(&self.allow_domains, host.as_str()) {
            return Step::Respond(Reply::Plain(FORBIDDEN));
        }
        match get_object_key(path, &self.root_object, &self.subdir_root_object) {
            None => Step::Respond(Reply::Plain(NOT_FOUND)),
            Some(key) => self.guard(host, key),
        }
    }

    /// Continues after the ownership check of `bucket`: a bucket that is not
    /// verified to belong to the gateway's account is forbidden, whatever the
    /// reason the check failed.
    pub fn on_owner_checked(&self, bucket: String, key: String, verified: bool) -> (r: Step)
        ensures
            verified ==> r@ == (StepModel::GetObject { bucket: bucket@, key: key@ }),
            !verified ==> r@ == plain(FORBIDDEN),
    {
        if verified {
            Step::GetObject { bucket, key }
        } else {
            Step::Respond(Reply::Plain(FORBIDDEN))
        }
    }

    /// Continues after the fetch of `key` from `bucket`.
    pub fn on_object(&self, bucket: String, key: String, outcome: GetOutcome) -> (r: Step)
        ensures
            r@ == self.on_object_model(bucket@, key@, outcome),
    {
        match outcome {
            GetOutcome::Found(body) => {
                let content_type = guess_content_type(key.as_str());
                Step::Respond(Reply::Object { content_type, body })
            },
            GetOutcome::NoSuchKey => match &self.no_such_key_redirect_object {
                Some(target) => {
                    if target.eq(&key) {
                        Step::Respond(Reply::Plain(NOT_FOUND))
                    } else {
                        Step::HeadObject { bucket, key: target.clone() }
                    }
                },
                None => Step::Respond(Reply::Plain(NOT_FOUND)),
            },
            GetOutcome::Failed => Step::Respond(Reply::Plain(INTERNAL_SERVER_ERROR)),
        }
    }

    /// Finishes after checking that the redirect object `target` exists: a
    /// redirect to `/target` if it does, not found otherwise (also when the
    /// check itself failed).
    pub fn on_redirect_checked(&self, target: String, exists: bool) -> (r: Reply)
        ensures
            exists ==> r@ == (ReplyModel::Redirect { location: seq!['/'] + target@ }),
            !exists ==> r@ == ReplyModel::Plain(NOT_FOUND),
    {
        if exists {
            proof {
                reveal_strlit("/");
            }
            let location = String::from_str("/").concat(target.as_str());
            assert(location@ =~= seq!['/'] + target@);
            Reply::Redirect { location }
        } else {
            Reply::Plain(NOT_FOUND)
        }
    }
}

/// The management surface: a health check and nothing else.
pub struct ManagementService;

impl ManagementService {
    /// `GET /health` is 200; everything else is 404.
    pub fn route(&self, is_get: bool, path: &str) -> (r: Reply)
        ensures
            r@ == ReplyModel::Plain(
                if is_get && path@ == "/health"@ {
                    OK
                } else {
                    NOT_FOUND
                },
            ),
    {
        if is_get && chars_eq(&chars_of(path), &chars_of("/health")) {
            Reply::Plain(OK)
        } else {
            Reply::Plain(NOT_FOUND)
        }
    }
}

/// A missing key that is itself the redirect object is not found: the gateway
/// never redirects a request to the key it could not find.
pub proof fn lemma_no_redirect_to_itself(s: GatewayService, bucket: Seq<char>, key: Seq<char>)
    requires
        s.no_such_key_redirect_object matches Some(target) && target@ == key,
    ensures
        s.on_object_model(bucket, key, GetOutcome::NoSuchKey) == plain(NOT_FOUND),
{
}

/// A request whose `Host` header is empty, or holds only a port, is a bad
/// request, whatever the path and the configuration.
pub proof fn lemma_empty_host_is_bad_request(
    s: GatewayService,
    header: Seq<char>,
    path: Seq<char>,
)
    requires
        header.len() == 0 || header[0] == ':',
    ensures
        s.start_model(true, Some(header), path) == plain(BAD_REQUEST),
        s.start_model(true, None, path) == plain(BAD_REQUEST),
{
    assert(host_part(header).len() == 0);
}

/// Any method but GET is refused before the host is looked at.
pub proof fn lemma_only_get(
    s: GatewayService,
    host_header: Option<Seq<char>>,
    path: Seq<char>,
)
    ensures
        s.start_model(false, host_header, path) == plain(METHOD_NOT_ALLOWED),
{
}

/// Unless cross-account access is allowed, no object is fetched before its
/// bucket's owner is checked: a request starts with an ownership check or is
/// answered at once, and a failed check is forbidden.
pub proof fn lemma_owner_checked_before_fetch(
    s: GatewayService,
    is_get: bool,
    host_header: Option<Seq<char>>,
    path: Seq<char>,
)
    requires
        !s.allow_cross_account,
    ensures
        s.start_model(is_get, host_header, path) is VerifyOwner || s.start_model(
            is_get,
            host_header,
            path,
        ) is Respond,
        s.start_model(is_get, host_header, path) matches StepModel::VerifyOwner {
            bucket,
            expected_owner,
            ..
        } ==> (request_host(host_header) == Some(bucket) && opt_view(s.self_account_id) == Some(
            expected_owner,
        )),
{
}

} // verus!
