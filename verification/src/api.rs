//! The API: what requests and answers look like, how errors are answered, and what the routes
//! decide.
use crate::base64;
use crate::base64::{base64_decode, base64_encode};
use crate::catalog::{HostGroupRecord, ImageRecord, ServiceRecord, SnapshotRecord};
use crate::client::{AgentError, AgentErrorView, ExecResult};
use crate::forwards;
use crate::guard;
use crate::guard::{
    exec_command_allowed, exec_env_allowed, is_allowed_guest_path, is_authorized, is_image_authorized,
    is_rate_limited_route, ApiPolicy,
};
use crate::ident;
use crate::ident::{current_time, format_uuid};
use crate::json::{Json, JsonView};
use crate::limiter;
use crate::limiter::SlidingWindowRateLimiter;
use crate::orchestrator::{CoreError, CoreErrorView, HuskCore};
use crate::state::{PortForwardRecord, PortForwardView, VmRecord, VmRecordView};
use crate::text;
use crate::text::{copy_opt, decimal_of, same_text};
use crate::vmm::{VmmError, VmmErrorView};
use vstd::prelude::*;
use vstd::string::*;

verus! {

/// A VM, as the API shows it.
#[derive(Debug)]
pub struct VmResponse {
    pub id: String,
    pub name: String,
    pub state: String,
    pub pid: Option<u32>,
    pub vcpu_count: u32,
    pub mem_size_mib: u32,
    pub vsock_cid: u32,
    pub host_ip: Option<String>,
    pub guest_ip: Option<String>,
    pub created_at: String,
    pub updated_at: String,
    pub userdata_status: Option<String>,
}

/// A host group, as the API shows it.
#[derive(Debug)]
pub struct HostGroupResponse {
    pub id: String,
    pub name: String,
    pub description: Option<String>,
    pub created_at: String,
    pub updated_at: String,
}

/// A service, as the API shows it.
#[derive(Debug)]
pub struct ServiceResponse {
    pub id: String,
    pub name: String,
    pub host_group_id: Option<String>,
    pub desired_instances: u32,
    pub image: Option<String>,
    pub created_at: String,
    pub updated_at: String,
}

/// A snapshot, as the API shows it.
#[derive(Debug)]
pub struct SnapshotResponse {
    pub id: String,
    pub name: String,
    pub source_vm_name: String,
    pub file_path: String,
    pub created_at: String,
}

/// An image, as the API shows it.
#[derive(Debug)]
pub struct ImageResponse {
    pub id: String,
    pub name: String,
    pub format: String,
    pub file_path: String,
    pub created_at: String,
}

/// A request to change how many instances there should be of a service.
#[derive(Debug)]
pub struct ScaleServiceRequest {
    pub desired_instances: u32,
}

/// A request to run a command in a guest.
#[derive(Debug)]
pub struct ExecRequest {
    pub command: String,
    pub args: Vec<String>,
    pub working_dir: Option<String>,
    pub env: Vec<(String, String)>,
}

/// How a command ended.
#[derive(Debug)]
pub struct ExecResponse {
    pub exit_code: i32,
    pub stdout: String,
    pub stderr: String,
}

/// A request for a file of a guest.
#[derive(Debug)]
pub struct ReadFileRequest {
    pub path: String,
}

/// A file of a guest.
#[derive(Debug)]
pub struct ReadFileResponse {
    /// The contents in Base64.
    pub data: String,
    pub size: u64,
}

/// A request to write a file of a guest.
#[derive(Debug)]
pub struct WriteFileRequest {
    pub path: String,
    /// The contents in Base64.
    pub data: String,
    pub mode: Option<u32>,
}

/// How much of a file was written.
#[derive(Debug)]
pub struct WriteFileResponse {
    pub bytes_written: u64,
}

/// A request to forward a port.
#[derive(Debug)]
pub struct AddPortForwardRequest {
    pub host_port: u16,
    pub guest_port: u16,
}

/// A port forward, as the API shows it.
#[derive(Debug)]
pub struct PortForwardResponse {
    pub host_port: u16,
    pub guest_port: u16,
    pub protocol: String,
    pub created_at: String,
}

/// How an error is answered.
#[derive(Debug)]
pub struct ErrorResponse {
    /// What went wrong, in one word.
    pub code: String,
    pub message: String,
    /// What may help.
    pub hint: Option<String>,
    pub details: Option<Json>,
    /// The message again, under the name that it had first.
    pub error: Option<String>,
}

/// How an error is answered, over sequences.
pub struct ErrorView {
    pub code: Seq<char>,
    pub message: Seq<char>,
    pub hint: Option<Seq<char>>,
    pub details: Option<JsonView>,
    pub error: Option<Seq<char>>,
}

impl View for ErrorResponse {
    type V = ErrorView;

    open spec fn view(&self) -> ErrorView {
        ErrorView {
            code: self.code@,
            message: self.message@,
            hint: text::opt_text(self.hint),
            details: match self.details {
                Some(j) => Some(crate::json::json_view(j)),
                None => None,
            },
            error: text::opt_text(self.error),
        }
    }
}

/// An answer that is an error, with its HTTP status.
#[derive(Debug)]
pub struct ApiError {
    pub status: u16,
    pub body: ErrorResponse,
}

/// An answer that is an error, over sequences.
pub struct ApiErrorView {
    pub status: u16,
    pub body: ErrorView,
}

impl View for ApiError {
    type V = ApiErrorView;

    open spec fn view(&self) -> ApiErrorView {
        ApiErrorView { status: self.status, body: self.body@ }
    }
}

/// The answer for an error without a hint.
pub open spec fn plain(status: u16, code: Seq<char>, message: Seq<char>) -> ApiErrorView {
    ApiErrorView {
        status,
        body: ErrorView { code, message, hint: None, details: None, error: Some(message) },
    }
}

/// The answer for an error with a hint.
pub open spec fn hinted(status: u16, code: Seq<char>, message: Seq<char>, hint: Seq<char>) -> ApiErrorView {
    ApiErrorView {
        status,
        body: ErrorView { code, message, hint: Some(hint), details: None, error: Some(message) },
    }
}

/// An error without a hint.
pub fn error_response(code: &str, message: String) -> (r: ErrorResponse)
    ensures
        r@ == plain(0, code@, message@).body,
{
    let error = Some(message.clone());
    ErrorResponse { code: code.to_owned(), message, hint: None, details: None, error }
}

/// An error with a hint.
pub fn error_response_with_hint(code: &str, message: String, hint: &str) -> (r: ErrorResponse)
    ensures
        r@ == hinted(0, code@, message@, hint@).body,
{
    let error = Some(message.clone());
    ErrorResponse {
        code: code.to_owned(),
        message,
        hint: Some(hint.to_owned()),
        details: None,
        error,
    }
}

/// The status and the code for an error of an operation.
pub open spec fn status_and_code(e: CoreErrorView) -> (u16, Seq<char>) {
    match e {
        CoreErrorView::VmNotFound(_) => (404, "vm_not_found"@),
        CoreErrorView::HostGroupNotFound(_) => (404, "host_group_not_found"@),
        CoreErrorView::ServiceNotFound(_) => (404, "service_not_found"@),
        CoreErrorView::SnapshotNotFound(_) => (404, "snapshot_not_found"@),
        CoreErrorView::ImageNotFound(_) => (404, "image_not_found"@),
        CoreErrorView::InvalidState { .. } => (409, "invalid_state"@),
        CoreErrorView::InvalidArgument(_) => (400, "invalid_argument"@),
        CoreErrorView::VmAlreadyExists(_) => (409, "vm_already_exists"@),
        CoreErrorView::HostGroupAlreadyExists(_) => (409, "host_group_already_exists"@),
        CoreErrorView::ServiceAlreadyExists(_) => (409, "service_already_exists"@),
        CoreErrorView::SnapshotAlreadyExists(_) => (409, "snapshot_already_exists"@),
        CoreErrorView::ImageAlreadyExists(_) => (409, "image_already_exists"@),
        CoreErrorView::PortAlreadyForwarded(_) => (409, "port_already_forwarded"@),
        CoreErrorView::Agent(AgentErrorView::NotReady(_)) => (503, "agent_not_ready"@),
        CoreErrorView::Storage(_) => (500, "storage_error"@),
        CoreErrorView::State(_) => (500, "state_error"@),
        CoreErrorView::Vmm(_) => (500, "vmm_error"@),
        CoreErrorView::Network(_) => (500, "network_error"@),
        CoreErrorView::Agent(_) => (500, "agent_error"@),
    }
}

/// The answer for an error of an operation.
pub open spec fn answer_for(e: CoreErrorView) -> ApiErrorView {
    plain(status_and_code(e).0, status_and_code(e).1, e.text())
}

/// The answer for an error of an operation.
pub fn map_error(err: &CoreError) -> (r: ApiError)
    ensures
        r@ == answer_for(err@),
{
    let (status, code): (u16, &str) = match err {
        CoreError::VmNotFound(_) => (404, "vm_not_found"),
        CoreError::HostGroupNotFound(_) => (404, "host_group_not_found"),
        CoreError::ServiceNotFound(_) => (404, "service_not_found"),
        CoreError::SnapshotNotFound(_) => (404, "snapshot_not_found"),
        CoreError::ImageNotFound(_) => (404, "image_not_found"),
        CoreError::InvalidState { .. } => (409, "invalid_state"),
        CoreError::InvalidArgument(_) => (400, "invalid_argument"),
        CoreError::VmAlreadyExists(_) => (409, "vm_already_exists"),
        CoreError::HostGroupAlreadyExists(_) => (409, "host_group_already_exists"),
        CoreError::ServiceAlreadyExists(_) => (409, "service_already_exists"),
        CoreError::SnapshotAlreadyExists(_) => (409, "snapshot_already_exists"),
        CoreError::ImageAlreadyExists(_) => (409, "image_already_exists"),
        CoreError::PortAlreadyForwarded(_) => (409, "port_already_forwarded"),
        CoreError::Agent(AgentError::NotReady(_)) => (503, "agent_not_ready"),
        CoreError::Storage(_) => (500, "storage_error"),
        CoreError::State(_) => (500, "state_error"),
        CoreError::Vmm(_) => (500, "vmm_error"),
        CoreError::Network(_) => (500, "network_error"),
        CoreError::Agent(_) => (500, "agent_error"),
    };
    ApiError { status, body: error_response(code, err.message()) }
}

/// Whether an error means that the agent of a VM does not answer yet.
pub open spec fn agent_is_away(e: CoreErrorView) -> bool {
    match e {
        CoreErrorView::Vmm(VmmErrorView::VmNotFound(_)) => true,
        CoreErrorView::Vmm(VmmErrorView::ProcessError(_)) => true,
        CoreErrorView::Vmm(VmmErrorView::ApiError(_)) => true,
        CoreErrorView::Agent(AgentErrorView::Connection(_)) => true,
        CoreErrorView::Agent(AgentErrorView::VsockConnectRejected(_)) => true,
        CoreErrorView::Agent(AgentErrorView::NotReady(_)) => true,
        _ => false,
    }
}

/// The answer where the agent of a VM could not be reached.
pub open spec fn connect_answer_for(e: CoreErrorView) -> ApiErrorView {
    if agent_is_away(e) {
        hinted(
            503,
            "agent_not_ready"@,
            "agent not ready: "@ + e.text(),
            "retry after the VM boot sequence has completed"@,
        )
    } else {
        answer_for(e)
    }
}

/// The answer where the agent of a VM could not be reached.
pub fn map_agent_connect_error(err: &CoreError) -> (r: ApiError)
    ensures
        r@ == connect_answer_for(err@),
{
    let away = match err {
        CoreError::Vmm(VmmError::VmNotFound(_)) => true,
        CoreError::Vmm(VmmError::ProcessError(_)) => true,
        CoreError::Vmm(VmmError::ApiError(_)) => true,
        CoreError::Agent(AgentError::Connection(_)) => true,
        CoreError::Agent(AgentError::VsockConnectRejected(_)) => true,
        CoreError::Agent(AgentError::NotReady(_)) => true,
        _ => false,
    };
    if away {
        let mut message = "agent not ready: ".to_owned();
        message.append(err.message().as_str());
        ApiError {
            status: 503,
            body: error_response_with_hint(
                "agent_not_ready",
                message,
                "retry after the VM boot sequence has completed",
            ),
        }
    } else {
        map_error(err)
    }
}

/// The optional text of an id.
pub open spec fn opt_uuid(id: Option<u128>) -> Option<Seq<char>> {
    match id {
        Some(id) => Some(ident::uuid_text(id)),
        None => None,
    }
}

/// Whether an answer shows what is recorded of a VM.
pub open spec fn shows_vm(v: VmResponse, r: VmRecordView) -> bool {
    &&& v.id@ == ident::uuid_text(r.id)
    &&& v.name@ == r.name
    &&& v.state@ == r.state
    &&& v.pid == r.pid
    &&& v.vcpu_count == r.vcpu_count
    &&& v.mem_size_mib == r.mem_size_mib
    &&& v.vsock_cid == r.vsock_cid
    &&& text::opt_text(v.host_ip) == r.host_ip
    &&& text::opt_text(v.guest_ip) == r.guest_ip
    &&& v.created_at@ == r.created_at
    &&& v.updated_at@ == r.updated_at
    &&& text::opt_text(v.userdata_status) == r.userdata_status
}

/// Whether an answer shows what is recorded of a port forward.
pub open spec fn shows_forward(v: PortForwardResponse, f: PortForwardView) -> bool {
    &&& v.host_port == f.host_port
    &&& v.guest_port == f.guest_port
    &&& v.protocol@ == f.protocol
    &&& v.created_at@ == f.created_at
}

/// A VM, as the API shows it.
pub fn record_to_response(r: &VmRecord) -> (v: VmResponse)
    ensures
        v.id@ == ident::uuid_text(r.id),
        v.name@ == r.name@,
        v.state@ == r.state@,
        v.pid == r.pid,
        v.vcpu_count == r.vcpu_count,
        v.mem_size_mib == r.mem_size_mib,
        v.vsock_cid == r.vsock_cid,
        text::opt_text(v.host_ip) == text::opt_text(r.host_ip),
        text::opt_text(v.guest_ip) == text::opt_text(r.guest_ip),
        v.created_at@ == r.created_at@,
        v.updated_at@ == r.updated_at@,
        text::opt_text(v.userdata_status) == text::opt_text(r.userdata_status),
        shows_vm(v, r@),
{
    VmResponse {
        id: format_uuid(r.id),
        name: r.name.clone(),
        state: r.state.clone(),
        pid: r.pid,
        vcpu_count: r.vcpu_count,
        mem_size_mib: r.mem_size_mib,
        vsock_cid: r.vsock_cid,
        host_ip: copy_opt(&r.host_ip),
        guest_ip: copy_opt(&r.guest_ip),
        created_at: r.created_at.clone(),
        updated_at: r.updated_at.clone(),
        userdata_status: copy_opt(&r.userdata_status),
    }
}

/// A host group, as the API shows it.
pub fn host_group_to_response(r: &HostGroupRecord) -> (v: HostGroupResponse)
    ensures
        v.id@ == ident::uuid_text(r.id),
        v.name@ == r.name@,
        text::opt_text(v.description) == text::opt_text(r.description),
        v.created_at@ == r.created_at@,
        v.updated_at@ == r.updated_at@,
{
    HostGroupResponse {
        id: format_uuid(r.id),
        name: r.name.clone(),
        description: copy_opt(&r.description),
        created_at: r.created_at.clone(),
        updated_at: r.updated_at.clone(),
    }
}

/// A service, as the API shows it.
pub fn service_to_response(r: &ServiceRecord) -> (v: ServiceResponse)
    ensures
        v.id@ == ident::uuid_text(r.id),
        v.name@ == r.name@,
        text::opt_text(v.host_group_id) == opt_uuid(r.host_group_id),
        v.desired_instances == r.desired_instances,
        text::opt_text(v.image) == text::opt_text(r.image),
        v.created_at@ == r.created_at@,
        v.updated_at@ == r.updated_at@,
{
    ServiceResponse {
        id: format_uuid(r.id),
        name: r.name.clone(),
        host_group_id: match r.host_group_id {
            Some(id) => Some(format_uuid(id)),
            None => None,
        },
        desired_instances: r.desired_instances,
        image: copy_opt(&r.image),
        created_at: r.created_at.clone(),
        updated_at: r.updated_at.clone(),
    }
}

/// A snapshot, as the API shows it.
pub fn snapshot_to_response(r: &SnapshotRecord) -> (v: SnapshotResponse)
    ensures
        v.id@ == ident::uuid_text(r.id),
        v.name@ == r.name@,
        v.source_vm_name@ == r.source_vm_name@,
        v.file_path@ == r.file_path@,
        v.created_at@ == r.created_at@,
{
    SnapshotResponse {
        id: format_uuid(r.id),
        name: r.name.clone(),
        source_vm_name: r.source_vm_name.clone(),
        file_path: r.file_path.clone(),
        created_at: r.created_at.clone(),
    }
}

/// An image, as the API shows it.
pub fn image_to_response(r: &ImageRecord) -> (v: ImageResponse)
    ensures
        v.id@ == ident::uuid_text(r.id),
        v.name@ == r.name@,
        v.format@ == r.format@,
        v.file_path@ == r.file_path@,
        v.created_at@ == r.created_at@,
{
    ImageResponse {
        id: format_uuid(r.id),
        name: r.name.clone(),
        format: r.format.clone(),
        file_path: r.file_path.clone(),
        created_at: r.created_at.clone(),
    }
}

/// What is shown of a port forward that was just added.
pub fn added_port_forward(host_port: u16, guest_port: u16) -> (v: PortForwardResponse)
    ensures
        v.host_port == host_port,
        v.guest_port == guest_port,
        v.protocol@ == "tcp"@,
        ident::is_utc(v.created_at@),
        shows_forward(v, forwards::new_forward(0, host_port, guest_port, v.created_at@)),
{
    PortForwardResponse {
        host_port,
        guest_port,
        protocol: "tcp".to_owned(),
        created_at: current_time(),
    }
}

/// A port forward, as the API shows it.
pub fn port_forward_to_response(r: &PortForwardRecord) -> (v: PortForwardResponse)
    ensures
        v.host_port == r.host_port,
        v.guest_port == r.guest_port,
        v.protocol@ == r.protocol@,
        v.created_at@ == r.created_at@,
        shows_forward(v, r@),
{
    PortForwardResponse {
        host_port: r.host_port,
        guest_port: r.guest_port,
        protocol: r.protocol.clone(),
        created_at: r.created_at.clone(),
    }
}

/// The answer to a request that does not bring the token that it needs.
pub open spec fn missing_token() -> ApiErrorView {
    hinted(
        401,
        "unauthorized"@,
        "unauthorized: missing or invalid bearer token"@,
        "set Authorization: Bearer <token>"@,
    )
}

/// Refuses a request that does not bring the token that it needs.
pub fn authorize(token: Option<&str>, method: &str, path: &str, provided: Option<&str>) -> (r:
    Result<(), ApiError>)
    ensures
        match r {
            Ok(_) => guard::authorized(opt_str(token), method@, path@, opt_str(provided)),
            Err(e) => {
                &&& !guard::authorized(opt_str(token), method@, path@, opt_str(provided))
                &&& e@ == missing_token()
            },
        },
{
    if is_authorized(token, method, path, provided) {
        Ok(())
    } else {
        Err(unauthorized())
    }
}

/// Refuses a request that changes images and does not bring the token that is set.
pub fn authorize_image(token: Option<&str>, method: &str, path: &str, provided: Option<&str>) -> (r:
    Result<(), ApiError>)
    ensures
        match r {
            Ok(_) => guard::image_authorized(opt_str(token), method@, path@, opt_str(provided)),
            Err(e) => {
                &&& !guard::image_authorized(opt_str(token), method@, path@, opt_str(provided))
                &&& e@ == missing_token()
            },
        },
{
    if is_image_authorized(token, method, path, provided) {
        Ok(())
    } else {
        Err(unauthorized())
    }
}

fn unauthorized() -> (e: ApiError)
    ensures
        e@ == missing_token(),
{
    ApiError {
        status: 401,
        body: error_response_with_hint(
            "unauthorized",
            "unauthorized: missing or invalid bearer token".to_owned(),
            "set Authorization: Bearer <token>",
        ),
    }
}

/// The characters of an optional text.
pub open spec fn opt_str(s: Option<&str>) -> Option<Seq<char>> {
    match s {
        Some(s) => Some(s@),
        None => None,
    }
}

/// Under what key the requests of a client to a kind of route are counted.
pub open spec fn rate_key(kind: Seq<char>, client: Option<Seq<char>>) -> Seq<char> {
    kind + ":"@ + match client {
        Some(c) => c,
        None => "local"@,
    }
}

/// Counts a request, and refuses it where there were too many. Clients are told apart by the
/// address for which the request was forwarded.
pub fn check_rate(
    limits: &mut SlidingWindowRateLimiter,
    policy: &ApiPolicy,
    method: &str,
    path: &str,
    forwarded_for: Option<&str>,
    now: u64,
) -> (r: Result<(), ApiError>)
    requires
        old(limits).wf(),
    ensures
        final(limits).wf(),
        match guard::rate_kind(method@, path@) {
            None => r is Ok && final(limits)@ == old(limits)@,
            Some(kind) => {
                let key = rate_key(kind, opt_str(forwarded_for));
                let limit = policy.sensitive_rate_limit_per_minute;
                let times = limiter::times_of(old(limits)@, key);
                &&& final(limits)@ == if limit == 0 {
                    old(limits)@
                } else {
                    old(limits)@.insert(key, limiter::after_request(times, limit, now))
                }
                &&& match r {
                    Ok(_) => limit == 0 || limiter::passes(times, limit, now),
                    Err(e) => {
                        &&& limit != 0 && !limiter::passes(times, limit, now)
                        &&& e@ == hinted(
                            429,
                            "rate_limited"@,
                            "too many requests to sensitive endpoint"@,
                            "retry after a short delay"@,
                        )
                    },
                }
            },
        },
{
    match is_rate_limited_route(method, path) {
        Some(kind) => {
            let mut key = kind.to_owned();
            key.append(":");
            match forwarded_for {
                Some(client) => key.append(client),
                None => key.append("local"),
            }
            if limits.allow(key.as_str(), policy.sensitive_rate_limit_per_minute, now) {
                return Ok(());
            }
            Err(
                ApiError {
                    status: 429,
                    body: error_response_with_hint(
                        "rate_limited",
                        "too many requests to sensitive endpoint".to_owned(),
                        "retry after a short delay",
                    ),
                },
            )
        },
        None => Ok(()),
    }
}

/// The id under which a request is traced: its own, or one with the given number.
pub fn request_id(provided: Option<&str>, number: u64) -> (s: String)
    ensures
        s@ == (match provided {
            Some(id) => id@,
            None => "req-"@ + text::decimal(number as nat),
        }),
{
    match provided {
        Some(id) => id.to_owned(),
        None => {
            let mut s = "req-".to_owned();
            s.append(decimal_of(number).as_str());
            s
        },
    }
}

/// Whether an HTTP status counts as an error.
pub fn is_error_status(status: u16) -> (r: bool)
    ensures
        r == (400 <= status < 600),
{
    400 <= status && status < 600
}

/// Why a command may not be run, if so.
pub open spec fn exec_refusal(req: ExecRequest, policy: ApiPolicy) -> Option<ApiErrorView> {
    if !guard::command_allowed(req.command@, policy) {
        Some(
            hinted(
                403,
                "policy_exec_command_denied"@,
                "command '"@ + req.command@ + "' is blocked by execution policy"@,
                "adjust exec allow/deny policy"@,
            ),
        )
    } else if !guard::env_allowed(text::pair_texts(req.env@), policy) {
        Some(
            hinted(
                403,
                "policy_exec_env_denied"@,
                "one or more environment keys are not allowed"@,
                "adjust exec env allowlist policy"@,
            ),
        )
    } else {
        None
    }
}

/// For how many seconds a command may run.
pub open spec fn exec_seconds(policy: ApiPolicy) -> u64 {
    if policy.exec_timeout_secs == 0 {
        1
    } else {
        policy.exec_timeout_secs
    }
}

/// Decides whether a command may be run, and for how many seconds.
pub fn check_exec(req: &ExecRequest, policy: &ApiPolicy) -> (r: Result<u64, ApiError>)
    ensures
        match r {
            Ok(secs) => exec_refusal(*req, *policy) is None && secs == if policy.exec_timeout_secs
                == 0 {
                1
            } else {
                policy.exec_timeout_secs
            },
            Err(e) => exec_refusal(*req, *policy) == Some(e@),
        },
        r matches Ok(secs) ==> secs == exec_seconds(*policy),
{
    if !exec_command_allowed(req.command.as_str(), policy) {
        let mut message = "command '".to_owned();
        message.append(req.command.as_str());
        message.append("' is blocked by execution policy");
        return Err(
            ApiError {
                status: 403,
                body: error_response_with_hint(
                    "policy_exec_command_denied",
                    message,
                    "adjust exec allow/deny policy",
                ),
            },
        );
    }
    if !exec_env_allowed(req.env.as_slice(), policy) {
        return Err(
            ApiError {
                status: 403,
                body: error_response_with_hint(
                    "policy_exec_env_denied",
                    "one or more environment keys are not allowed".to_owned(),
                    "adjust exec env allowlist policy",
                ),
            },
        );
    }
    if policy.exec_timeout_secs == 0 {
        Ok(1)
    } else {
        Ok(policy.exec_timeout_secs)
    }
}

/// What became of a command.
pub enum ExecOutcome {
    TimedOut,
    Ended(Result<ExecResult, AgentError>),
}

/// Whether an answer tells what became of a command: its exit code, its output and its error
/// output.
pub open spec fn tells_outcome(a: ExecResponse, outcome: (i32, Seq<char>, Seq<char>)) -> bool {
    a.exit_code == outcome.0 && a.stdout@ == outcome.1 && a.stderr@ == outcome.2
}

/// The answer to a request to run a command.
pub fn exec_answer(outcome: ExecOutcome) -> (r: Result<ExecResponse, ApiError>)
    ensures
        match outcome {
            ExecOutcome::TimedOut => r matches Err(e) && e@ == hinted(
                408,
                "exec_timeout"@,
                "command execution timed out"@,
                "increase exec timeout policy or optimize guest command runtime"@,
            ),
            ExecOutcome::Ended(Err(err)) => r matches Err(e) && e@ == answer_for(
                CoreErrorView::Agent(err@),
            ),
            ExecOutcome::Ended(Ok(result)) => r matches Ok(a) && a.exit_code == result.exit_code
                && a.stdout == result.stdout && a.stderr == result.stderr,
        },
        outcome matches ExecOutcome::Ended(Ok(result)) ==> (r matches Ok(a) && tells_outcome(
            a,
            (result.exit_code, result.stdout@, result.stderr@),
        )),
{
    match outcome {
        ExecOutcome::TimedOut => Err(
            ApiError {
                status: 408,
                body: error_response_with_hint(
                    "exec_timeout",
                    "command execution timed out".to_owned(),
                    "increase exec timeout policy or optimize guest command runtime",
                ),
            },
        ),
        ExecOutcome::Ended(Ok(result)) => Ok(
            ExecResponse {
                exit_code: result.exit_code,
                stdout: result.stdout,
                stderr: result.stderr,
            },
        ),
        ExecOutcome::Ended(Err(err)) => Err(map_error(&CoreError::Agent(err))),
    }
}

/// The message for a path that may not be used.
pub open spec fn path_message(path: Seq<char>, purpose: Seq<char>) -> Seq<char> {
    "guest path '"@ + path + "' is not allowed for "@ + purpose
}

fn path_message_of(path: &str, purpose: &str) -> (s: String)
    ensures
        s@ == path_message(path@, purpose@),
{
    let mut s = "guest path '".to_owned();
    s.append(path);
    s.append("' is not allowed for ");
    s.append(purpose);
    s
}

/// The message for contents that are too long.
pub open spec fn size_message(what: Seq<char>, len: nat, limit: nat) -> Seq<char> {
    what + " exceeds limit ("@ + text::decimal(len) + " bytes > "@ + text::decimal(limit)
        + " bytes)"@
}

fn size_message_of(what: &str, len: usize, limit: usize) -> (s: String)
    ensures
        s@ == size_message(what@, len as nat, limit as nat),
{
    let mut s = what.to_owned();
    s.append(" exceeds limit (");
    s.append(decimal_of(len as u64).as_str());
    s.append(" bytes > ");
    s.append(decimal_of(limit as u64).as_str());
    s.append(" bytes)");
    s
}

/// Why a file of a guest may not be read, if so.
pub open spec fn read_refusal(path: Seq<char>, policy: ApiPolicy) -> Option<ApiErrorView> {
    if guard::path_allowed(path, text::texts(policy.allowed_read_paths@)) {
        None
    } else {
        Some(
            hinted(
                403,
                "policy_read_path_denied"@,
                path_message(path, "read"@),
                "set allowed_read_paths in daemon config"@,
            ),
        )
    }
}

/// Decides whether a file of a guest may be read.
pub fn check_read(req: &ReadFileRequest, policy: &ApiPolicy) -> (r: Result<(), ApiError>)
    ensures
        match r {
            Ok(_) => guard::path_allowed(req.path@, text::texts(policy.allowed_read_paths@)),
            Err(e) => {
                &&& !guard::path_allowed(req.path@, text::texts(policy.allowed_read_paths@))
                &&& e@ == hinted(
                    403,
                    "policy_read_path_denied"@,
                    path_message(req.path@, "read"@),
                    "set allowed_read_paths in daemon config"@,
                )
            },
        },
        match r {
            Ok(_) => read_refusal(req.path@, *policy) is None,
            Err(e) => read_refusal(req.path@, *policy) == Some(e@),
        },
{
    if is_allowed_guest_path(req.path.as_str(), policy.allowed_read_paths.as_slice()) {
        return Ok(());
    }
    Err(
        ApiError {
            status: 403,
            body: error_response_with_hint(
                "policy_read_path_denied",
                path_message_of(req.path.as_str(), "read"),
                "set allowed_read_paths in daemon config",
            ),
        },
    )
}

/// The answer to a request for a file of a guest.
pub fn read_answer(outcome: Result<Vec<u8>, AgentError>, policy: &ApiPolicy) -> (r: Result<
    ReadFileResponse,
    ApiError,
>)
    ensures
        match outcome {
            Err(err) => r matches Err(e) && e@ == answer_for(CoreErrorView::Agent(err@)),
            Ok(data) => if data@.len() > policy.max_file_read_bytes {
                r matches Err(e) && e@ == hinted(
                    413,
                    "read_file_too_large"@,
                    size_message(
                        "read result"@,
                        data@.len(),
                        policy.max_file_read_bytes as nat,
                    ),
                    "increase max_file_read_bytes policy if needed"@,
                )
            } else {
                r matches Ok(a) && a.data@ == base64::encoded(data@) && a.size == data@.len()
            },
        },
{
    match outcome {
        Err(err) => Err(map_error(&CoreError::Agent(err))),
        Ok(data) => {
            let len = data.len();
            if len > policy.max_file_read_bytes {
                return Err(
                    ApiError {
                        status: 413,
                        body: error_response_with_hint(
                            "read_file_too_large",
                            size_message_of("read result", len, policy.max_file_read_bytes),
                            "increase max_file_read_bytes policy if needed",
                        ),
                    },
                );
            }
            Ok(ReadFileResponse { data: base64_encode(data.as_slice()), size: len as u64 })
        },
    }
}

/// Why a file of a guest may not be written, or the contents that are to be written.
pub open spec fn write_decision(req: WriteFileRequest, policy: ApiPolicy) -> Result<
    Seq<u8>,
    ApiErrorView,
> {
    if !guard::path_allowed(req.path@, text::texts(policy.allowed_write_paths@)) {
        Err(
            hinted(
                403,
                "policy_write_path_denied"@,
                path_message(req.path@, "write"@),
                "set allowed_write_paths in daemon config"@,
            ),
        )
    } else {
        match base64::decoded_text(req.data@) {
            Err(_) => Err(
                hinted(
                    400,
                    "invalid_base64"@,
                    "invalid base64 in data field"@,
                    "provide a valid base64 payload"@,
                ),
            ),
            Ok(data) => if data.len() > policy.max_file_write_bytes {
                Err(
                    hinted(
                        413,
                        "write_file_too_large"@,
                        size_message(
                            "write payload"@,
                            data.len(),
                            policy.max_file_write_bytes as nat,
                        ),
                        "increase max_file_write_bytes policy if needed"@,
                    ),
                )
            } else {
                Ok(data)
            },
        }
    }
}

/// Decides whether a file of a guest may be written, and with which contents.
pub fn check_write(req: &WriteFileRequest, policy: &ApiPolicy) -> (r: Result<Vec<u8>, ApiError>)
    ensures
        match r {
            Ok(data) => write_decision(*req, *policy) == Ok::<Seq<u8>, ApiErrorView>(data@),
            Err(e) => write_decision(*req, *policy) == Err::<Seq<u8>, ApiErrorView>(e@),
        },
{
    if !is_allowed_guest_path(req.path.as_str(), policy.allowed_write_paths.as_slice()) {
        return Err(
            ApiError {
                status: 403,
                body: error_response_with_hint(
                    "policy_write_path_denied",
                    path_message_of(req.path.as_str(), "write"),
                    "set allowed_write_paths in daemon config",
                ),
            },
        );
    }
    match base64_decode(req.data.as_str()) {
        Err(_) => Err(
            ApiError {
                status: 400,
                body: error_response_with_hint(
                    "invalid_base64",
                    "invalid base64 in data field".to_owned(),
                    "provide a valid base64 payload",
                ),
            },
        ),
        Ok(data) => {
            let len = data.len();
            if len > policy.max_file_write_bytes {
                return Err(
                    ApiError {
                        status: 413,
                        body: error_response_with_hint(
                            "write_file_too_large",
                            size_message_of("write payload", len, policy.max_file_write_bytes),
                            "increase max_file_write_bytes policy if needed",
                        ),
                    },
                );
            }
            Ok(data)
        },
    }
}

/// The answer to a request to write a file of a guest.
pub fn write_answer(outcome: Result<u64, AgentError>) -> (r: Result<WriteFileResponse, ApiError>)
    ensures
        match outcome {
            Ok(n) => r matches Ok(a) && a.bytes_written == n,
            Err(err) => r matches Err(e) && e@ == answer_for(CoreErrorView::Agent(err@)),
        },
{
    match outcome {
        Ok(bytes_written) => Ok(WriteFileResponse { bytes_written }),
        Err(err) => Err(map_error(&CoreError::Agent(err))),
    }
}

/// How many VMs there are.
#[derive(Debug, Clone, Copy)]
pub struct VmCounts {
    pub total: u64,
    pub running: u64,
}

/// How the daemon is.
#[derive(Debug)]
pub struct HealthResponse {
    pub status: String,
    pub version: String,
    pub vms: VmCounts,
    /// The parts of the daemon, and how each of them is.
    pub checks: Vec<(String, String)>,
    pub uptime_seconds: u64,
}

/// How many of the VMs run.
pub open spec fn running_count(vms: Seq<VmRecordView>) -> nat
    decreases vms.len(),
{
    if vms.len() == 0 {
        0
    } else if vms.last().state == "running"@ {
        running_count(vms.drop_last()) + 1
    } else {
        running_count(vms.drop_last())
    }
}

/// How many VMs there are; none where the records could not be read.
pub fn vm_counts(core: Option<&HuskCore>) -> (c: VmCounts)
    ensures
        match core {
            Some(core) => c.total == core@.state.vms.len() && c.running == running_count(
                core@.state.vms,
            ),
            None => c.total == 0 && c.running == 0,
        },
{
    match core {
        None => VmCounts { total: 0, running: 0 },
        Some(core) => {
            let mut running: u64 = 0;
            let mut i: usize = 0;
            let ghost all = core@.state.vms;
            proof {
                assert(all.take(0) =~= seq![]);
            }
            while i < core.state.vms.len()
                invariant
                    i <= core.state.vms@.len(),
                    all == core@.state.vms,
                    running == running_count(all.take(i as int)),
                    running <= i,
                decreases core.state.vms.len() - i,
            {
                proof {
                    assert(all.take(i + 1).drop_last() =~= all.take(i as int));
                    assert(all.take(i + 1).last() == core.state.vms@[i as int]@);
                }
                if same_text(core.state.vms[i].state.as_str(), "running") {
                    running += 1;
                }
                i += 1;
            }
            proof {
                assert(all.take(i as int) =~= all);
            }
            VmCounts { total: i as u64, running }
        },
    }
}

/// How the parts of the daemon are.
pub open spec fn health_checks(records_ok: bool, host_network: bool) -> Seq<(Seq<char>, Seq<char>)> {
    let records = if records_ok {
        "ok"@
    } else {
        "degraded"@
    };
    let network = if host_network {
        "ok"@
    } else {
        "n/a"@
    };
    seq![("state_db"@, records), ("vmm_backend"@, records), ("network_backend"@, network)]
}

/// How the daemon is. There are no records where they could not be read.
pub fn health(core: Option<&HuskCore>, host_network: bool, version: &str, uptime_seconds: u64) -> (r:
    HealthResponse)
    ensures
        r.status@ == "ok"@,
        r.version@ == version@,
        r.uptime_seconds == uptime_seconds,
        text::pair_texts(r.checks@) == health_checks(core is Some, host_network),
        match core {
            Some(core) => r.vms.total == core@.state.vms.len() && r.vms.running == running_count(
                core@.state.vms,
            ),
            None => r.vms.total == 0 && r.vms.running == 0,
        },
{
    let records = match core {
        Some(_) => "ok",
        None => "degraded",
    };
    let network = if host_network {
        "ok"
    } else {
        "n/a"
    };
    let mut checks: Vec<(String, String)> = Vec::new();
    checks.push(("state_db".to_owned(), records.to_owned()));
    checks.push(("vmm_backend".to_owned(), records.to_owned()));
    checks.push(("network_backend".to_owned(), network.to_owned()));
    proof {
        assert(text::pair_texts(checks@) =~= health_checks(core is Some, host_network));
    }
    HealthResponse {
        status: "ok".to_owned(),
        version: version.to_owned(),
        vms: vm_counts(core),
        checks,
        uptime_seconds,
    }
}

/// What the daemon has counted.
#[derive(Debug, Clone, Copy)]
pub struct ApiMetrics {
    pub requests_total: u64,
    pub errors_total: u64,
    pub rate_limited_total: u64,
    pub exec_total: u64,
    pub file_reads_total: u64,
    pub file_writes_total: u64,
    pub shell_sessions_total: u64,
}

/// One metric: its type, and its value.
pub open spec fn metric(name: Seq<char>, kind: Seq<char>, value: u64) -> Seq<char> {
    "# TYPE "@ + name + kind + name + " "@ + text::decimal(value as nat) + "\n"@
}

fn push_metric(s: &mut String, name: &str, kind: &str, value: u64)
    ensures
        final(s)@ == old(s)@ + metric(name@, kind@, value),
{
    s.append("# TYPE ");
    s.append(name);
    s.append(kind);
    s.append(name);
    s.append(" ");
    s.append(decimal_of(value).as_str());
    s.append("\n");
    proof {
        assert(s@ =~= old(s)@ + metric(name@, kind@, value));
    }
}

/// What the daemon has counted, as a scraper reads it.
pub open spec fn metrics_text(m: ApiMetrics, vms: VmCounts, uptime_seconds: u64) -> Seq<char> {
    metric("husk_api_requests_total"@, " counter\n"@, m.requests_total) + metric(
        "husk_api_errors_total"@,
        " counter\n"@,
        m.errors_total,
    ) + metric("husk_api_rate_limited_total"@, " counter\n"@, m.rate_limited_total) + metric(
        "husk_exec_total"@,
        " counter\n"@,
        m.exec_total,
    ) + metric("husk_file_reads_total"@, " counter\n"@, m.file_reads_total) + metric(
        "husk_file_writes_total"@,
        " counter\n"@,
        m.file_writes_total,
    ) + metric("husk_shell_sessions_total"@, " counter\n"@, m.shell_sessions_total) + metric(
        "husk_vms_total"@,
        " gauge\n"@,
        vms.total,
    ) + metric("husk_vms_running"@, " gauge\n"@, vms.running) + metric(
        "husk_api_uptime_seconds"@,
        " gauge\n"@,
        uptime_seconds,
    )
}

/// What the daemon has counted, as a scraper reads it.
pub fn metrics(m: &ApiMetrics, vms: VmCounts, uptime_seconds: u64) -> (s: String)
    ensures
        s@ == metrics_text(*m, vms, uptime_seconds),
{
    let mut s = String::new();
    push_metric(&mut s, "husk_api_requests_total", " counter\n", m.requests_total);
    proof {
        assert(s@ =~= metric("husk_api_requests_total"@, " counter\n"@, m.requests_total));
    }
    push_metric(&mut s, "husk_api_errors_total", " counter\n", m.errors_total);
    push_metric(&mut s, "husk_api_rate_limited_total", " counter\n", m.rate_limited_total);
    push_metric(&mut s, "husk_exec_total", " counter\n", m.exec_total);
    push_metric(&mut s, "husk_file_reads_total", " counter\n", m.file_reads_total);
    push_metric(&mut s, "husk_file_writes_total", " counter\n", m.file_writes_total);
    push_metric(&mut s, "husk_shell_sessions_total", " counter\n", m.shell_sessions_total);
    push_metric(&mut s, "husk_vms_total", " gauge\n", vms.total);
    push_metric(&mut s, "husk_vms_running", " gauge\n", vms.running);
    push_metric(&mut s, "husk_api_uptime_seconds", " gauge\n", uptime_seconds);
    s
}

/// A file that was read can be written back: what a read answers with, a write takes as the
/// same contents, where its path and size are allowed.
pub proof fn read_answer_can_be_written_back(data: Seq<u8>, req: WriteFileRequest, policy: ApiPolicy)
    requires
        req.data@ == base64::encoded(data),
        guard::path_allowed(req.path@, text::texts(policy.allowed_write_paths@)),
        data.len() <= policy.max_file_write_bytes,
    ensures
        write_decision(req, policy) == Ok::<Seq<u8>, ApiErrorView>(data),
{
    base64::decode_inverts_encode(data);
}

/// Only errors of the client and of the daemon are answered with an error status.
pub proof fn errors_have_error_statuses(e: CoreErrorView)
    ensures
        400 <= answer_for(e).status < 600,
        400 <= connect_answer_for(e).status < 600,
{
}

/// What is not there is answered with 404, what is there already or in the way with 409, a request
/// that makes no sense with 400, and an agent that does not answer yet with 503; what goes wrong in
/// the daemon itself with 500.
pub proof fn statuses_tell_errors_apart(e: CoreErrorView)
    ensures
        e is VmNotFound || e is HostGroupNotFound || e is ServiceNotFound || e is SnapshotNotFound
            || e is ImageNotFound <==> answer_for(e).status == 404,
        e is VmAlreadyExists || e is HostGroupAlreadyExists || e is ServiceAlreadyExists || e
            is SnapshotAlreadyExists || e is ImageAlreadyExists || e is PortAlreadyForwarded || e
            is InvalidState <==> answer_for(e).status == 409,
        e is InvalidArgument <==> answer_for(e).status == 400,
        e matches CoreErrorView::Agent(a) && a is NotReady <==> answer_for(e).status == 503,
        answer_for(e).status == 500 ==> e is Storage || e is State || e is Vmm || e is Network || e
            is Agent,
        answer_for(e).body.message == e.text(),
        answer_for(e).body.error == Some(e.text()),
{
}

/// A guest whose agent cannot be reached yet is answered with 503 and a hint, also where the monitor
/// does not know it yet; every other error as elsewhere.
pub proof fn unreachable_agent_can_be_tried_again(e: CoreErrorView)
    ensures
        e matches CoreErrorView::Agent(AgentErrorView::Connection(_)) ==> connect_answer_for(
            e,
        ).status == 503,
        e matches CoreErrorView::Agent(AgentErrorView::VsockConnectRejected(_))
            ==> connect_answer_for(e).status == 503,
        e matches CoreErrorView::Agent(AgentErrorView::NotReady(_)) ==> connect_answer_for(e).status
            == 503,
        e matches CoreErrorView::Vmm(VmmErrorView::VmNotFound(_)) ==> connect_answer_for(e).status
            == 503,
        e matches CoreErrorView::Vmm(VmmErrorView::ProcessError(_)) ==> connect_answer_for(e).status
            == 503,
        e matches CoreErrorView::Vmm(VmmErrorView::ApiError(_)) ==> connect_answer_for(e).status
            == 503,
        e is Storage || e is Network || e is State ==> connect_answer_for(e).status == 500,
        e is VmNotFound ==> connect_answer_for(e).status == 404,
        e is InvalidState ==> connect_answer_for(e).status == 409,
        connect_answer_for(e).status == 503 ==> connect_answer_for(e).body.hint is Some,
        connect_answer_for(e).status != 503 ==> connect_answer_for(e) == answer_for(e),
{
}

/// A request without the token is answered with 401, and told how to bring it.
pub proof fn missing_token_is_told()
    ensures
        missing_token().status == 401,
        missing_token().body.hint is Some,
{
}

/// Requests are counted by client and by kind of route: two that differ in either are counted
/// apart. A request that was not forwarded counts as one client, of a name that is no address.
pub proof fn clients_are_counted_apart(
    a: Seq<char>,
    b: Seq<char>,
    kind: Seq<char>,
    other: Seq<char>,
)
    requires
        !kind.contains(':'),
        !other.contains(':'),
    ensures
        rate_key(kind, Some(a)) == rate_key(other, Some(b)) ==> a == b && kind == other,
        rate_key(kind, None) == rate_key(kind, Some(a)) ==> a == "local"@,
{
    reveal_strlit(":");
    let x = rate_key(kind, Some(a));
    let y = rate_key(other, Some(b));
    let local = rate_key(kind, None);
    assert(x.skip(kind.len() as int + 1) =~= a);
    assert(local.skip(kind.len() as int + 1) =~= "local"@);
    if x == y {
        assert(x[kind.len() as int] == ':');
        assert(y[other.len() as int] == ':');
        if kind.len() < other.len() {
            assert(y[kind.len() as int] == other[kind.len() as int]);
            assert(other.contains(other[kind.len() as int]));
        }
        if other.len() < kind.len() {
            assert(x[other.len() as int] == kind[other.len() as int]);
            assert(kind.contains(kind[other.len() as int]));
        }
        assert(x.take(kind.len() as int) =~= kind);
        assert(y.take(other.len() as int) =~= other);
        assert(y.skip(other.len() as int + 1) =~= b);
    }
}

/// A command that is denied, or a variable that is not allowed, is refused with 403 before anything
/// is run, and the command first.
pub proof fn policy_refuses_before_running(req: ExecRequest, policy: ApiPolicy)
    ensures
        exec_refusal(req, policy) is None <==> guard::command_allowed(req.command@, policy)
            && guard::env_allowed(text::pair_texts(req.env@), policy),
        exec_refusal(req, policy) matches Some(e) ==> e.status == 403,
{
}

/// A file is written exactly where its path is allowed, its contents can be decoded and are not too
/// long, and then with just those contents; 403, 400 and 413 say what is wrong.
pub proof fn write_is_decided_by_path_and_size(req: WriteFileRequest, policy: ApiPolicy)
    ensures
        ({
            let allowed = guard::path_allowed(req.path@, text::texts(policy.allowed_write_paths@));
            let decoded = base64::decoded_text(req.data@);
            &&& write_decision(req, policy) matches Ok(data) ==> allowed && decoded == Ok::<
                Seq<u8>,
                Seq<char>,
            >(data) && data.len() <= policy.max_file_write_bytes
            &&& !allowed ==> (write_decision(req, policy) matches Err(e) && e.status == 403)
            &&& allowed && decoded is Err ==> (write_decision(req, policy) matches Err(e)
                && e.status == 400)
            &&& allowed && decoded is Ok && decoded->Ok_0.len() > policy.max_file_write_bytes ==> (
            write_decision(req, policy) matches Err(e) && e.status == 413)
        }),
{
}

/// As many VMs run as are recorded as running, at most all of them; one more where one is started.
pub proof fn running_vms_are_counted(vms: Seq<VmRecordView>, v: VmRecordView)
    ensures
        running_count(vms) <= vms.len(),
        running_count(vms.push(v)) == running_count(vms) + if v.state == "running"@ {
            1nat
        } else {
            0nat
        },
        (forall|i: int| 0 <= i < vms.len() ==> (#[trigger] vms[i]).state == "running"@)
            ==> running_count(vms) == vms.len(),
    decreases vms.len(),
{
    assert(vms.push(v).drop_last() =~= vms);
    if vms.len() > 0 {
        running_vms_are_counted(vms.drop_last(), v);
        assert(vms[vms.len() - 1] == vms.last());
    }
}

/// The daemon says that its records are well exactly where it could read them, and speaks of its
/// network only where the monitor needs one.
pub proof fn health_tells_what_is_wrong(records_ok: bool, host_network: bool)
    ensures
        ({
            let checks = health_checks(records_ok, host_network);
            &&& checks.contains(("state_db"@, "ok"@)) <==> records_ok
            &&& checks.contains(("state_db"@, "degraded"@)) <==> !records_ok
            &&& checks.contains(("network_backend"@, "ok"@)) <==> host_network
            &&& checks.contains(("network_backend"@, "n/a"@)) <==> !host_network
        }),
{
    reveal_strlit("ok");
    reveal_strlit("degraded");
    reveal_strlit("n/a");
    reveal_strlit("state_db");
    reveal_strlit("vmm_backend");
    reveal_strlit("network_backend");
    assert("ok"@.len() == 2 && "degraded"@.len() == 8 && "n/a"@.len() == 3);
    assert("state_db"@.len() == 8 && "vmm_backend"@.len() == 11 && "network_backend"@.len() == 15);
    let checks = health_checks(records_ok, host_network);
    assert(checks[0].0 == "state_db"@ && checks[1].0 == "vmm_backend"@ && checks[2].0
        == "network_backend"@);
    if records_ok {
        assert(checks[0] == ("state_db"@, "ok"@));
    } else {
        assert(checks[0] == ("state_db"@, "degraded"@));
    }
    if host_network {
        assert(checks[2] == ("network_backend"@, "ok"@));
    } else {
        assert(checks[2] == ("network_backend"@, "n/a"@));
    }
}

/// The line in which a scraper finds the value of a metric.
pub open spec fn value_line(name: Seq<char>, value: u64) -> Seq<char> {
    "\n"@ + name + " "@ + text::decimal(value as nat) + "\n"@
}

proof fn lemma_metric_line(before: Seq<char>, name: Seq<char>, gauge: bool, value: u64, after: Seq<char>)
    ensures
        ({
            let kind = if gauge { " gauge\n"@ } else { " counter\n"@ };
            text::occurs_in(value_line(name, value), before + metric(name, kind, value) + after)
        }),
{
    reveal_strlit(" counter\n");
    reveal_strlit(" gauge\n");
    reveal_strlit("\n");
    let kind = if gauge { " gauge\n"@ } else { " counter\n"@ };
    let line = value_line(name, value);
    let whole = before + metric(name, kind, value) + after;
    let at = before.len() + "# TYPE "@.len() + name.len() + kind.len() - 1;
    let front = before + "# TYPE "@ + name + kind.drop_last();
    assert(kind.last() == '\n');
    assert(kind =~= kind.drop_last() + "\n"@);
    assert(whole =~= front + line + after);
    assert forall|k: int| 0 <= k < line.len() implies whole[at + k] == #[trigger] line[k] by {
        assert((front + line + after)[front.len() + k] == line[k]);
    }
    text::lemma_occurs(line, whole, at);
}

proof fn lemma_regroup(a: Seq<char>, b: Seq<char>, c: Seq<char>)
    ensures
        a + b + c == a + (b + c),
{
    assert(a + b + c =~= a + (b + c));
}

proof fn lemma_nothing_added(s: Seq<char>)
    ensures
        s + Seq::<char>::empty() == s,
        Seq::<char>::empty() + s == s,
{
    assert(s + Seq::<char>::empty() =~= s);
    assert(Seq::<char>::empty() + s =~= s);
}

/// A scraper finds each count under the name of what was counted.
pub proof fn metrics_name_their_counts(m: ApiMetrics, vms: VmCounts, uptime_seconds: u64)
    ensures
        ({
            let s = metrics_text(m, vms, uptime_seconds);
            &&& text::occurs_in(value_line("husk_api_requests_total"@, m.requests_total), s)
            &&& text::occurs_in(value_line("husk_api_errors_total"@, m.errors_total), s)
            &&& text::occurs_in(value_line("husk_api_rate_limited_total"@, m.rate_limited_total), s)
            &&& text::occurs_in(value_line("husk_exec_total"@, m.exec_total), s)
            &&& text::occurs_in(value_line("husk_file_reads_total"@, m.file_reads_total), s)
            &&& text::occurs_in(value_line("husk_file_writes_total"@, m.file_writes_total), s)
            &&& text::occurs_in(value_line("husk_shell_sessions_total"@, m.shell_sessions_total), s)
            &&& text::occurs_in(value_line("husk_vms_total"@, vms.total), s)
            &&& text::occurs_in(value_line("husk_vms_running"@, vms.running), s)
            &&& text::occurs_in(value_line("husk_api_uptime_seconds"@, uptime_seconds), s)
        }),
{
    let m0 = metric("husk_api_requests_total"@, " counter\n"@, m.requests_total);
    let m1 = metric("husk_api_errors_total"@, " counter\n"@, m.errors_total);
    let m2 = metric("husk_api_rate_limited_total"@, " counter\n"@, m.rate_limited_total);
    let m3 = metric("husk_exec_total"@, " counter\n"@, m.exec_total);
    let m4 = metric("husk_file_reads_total"@, " counter\n"@, m.file_reads_total);
    let m5 = metric("husk_file_writes_total"@, " counter\n"@, m.file_writes_total);
    let m6 = metric("husk_shell_sessions_total"@, " counter\n"@, m.shell_sessions_total);
    let m7 = metric("husk_vms_total"@, " gauge\n"@, vms.total);
    let m8 = metric("husk_vms_running"@, " gauge\n"@, vms.running);
    let m9 = metric("husk_api_uptime_seconds"@, " gauge\n"@, uptime_seconds);
    let none: Seq<char> = seq![];
    let s1 = m0 + m1;
    let s2 = s1 + m2;
    let s3 = s2 + m3;
    let s4 = s3 + m4;
    let s5 = s4 + m5;
    let s6 = s5 + m6;
    let s7 = s6 + m7;
    let s8 = s7 + m8;
    let s9 = s8 + m9;
    let r8 = m8 + m9;
    let r7 = m7 + r8;
    let r6 = m6 + r7;
    let r5 = m5 + r6;
    let r4 = m4 + r5;
    let r3 = m3 + r4;
    let r2 = m2 + r3;
    let r1 = m1 + r2;
    lemma_regroup(s7, m8, m9);
    lemma_regroup(s6, m7, r8);
    lemma_regroup(s5, m6, r7);
    lemma_regroup(s4, m5, r6);
    lemma_regroup(s3, m4, r5);
    lemma_regroup(s2, m3, r4);
    lemma_regroup(s1, m2, r3);
    lemma_regroup(m0, m1, r2);
    lemma_regroup(none, m0, r1);
    lemma_nothing_added(m0 + r1);
    lemma_nothing_added(s9);
    lemma_metric_line(none, "husk_api_requests_total"@, false, m.requests_total, r1);
    lemma_metric_line(m0, "husk_api_errors_total"@, false, m.errors_total, r2);
    lemma_metric_line(s1, "husk_api_rate_limited_total"@, false, m.rate_limited_total, r3);
    lemma_metric_line(s2, "husk_exec_total"@, false, m.exec_total, r4);
    lemma_metric_line(s3, "husk_file_reads_total"@, false, m.file_reads_total, r5);
    lemma_metric_line(s4, "husk_file_writes_total"@, false, m.file_writes_total, r6);
    lemma_metric_line(s5, "husk_shell_sessions_total"@, false, m.shell_sessions_total, r7);
    lemma_metric_line(s6, "husk_vms_total"@, true, vms.total, r8);
    lemma_metric_line(s7, "husk_vms_running"@, true, vms.running, m9);
    lemma_metric_line(s8, "husk_api_uptime_seconds"@, true, uptime_seconds, none);
}

/// An agent that answers with an error is there: the error is not answered as one that may pass, and
/// what the agent said is told.
pub proof fn answering_agent_is_there(reply: crate::client::Reply)
    requires
        reply matches Ok(Some(answer)) && answer is Error,
    ensures
        ({
            let fault = crate::client::reply_fault(reply);
            let said = (reply->Ok_0->0)->Error_0.message@;
            &&& !agent_is_away(CoreErrorView::Agent(fault))
            &&& text::ends_with(fault.text(), said)
            &&& text::ends_with(connect_answer_for(CoreErrorView::Agent(fault)).body.message, said)
            &&& connect_answer_for(CoreErrorView::Agent(fault)).status == 500
        }),
{
    let fault = crate::client::reply_fault(reply);
    let said = (reply->Ok_0->0)->Error_0.message@;
    let t = fault.text();
    assert(t.skip(t.len() - said.len()) =~= said);
    let m = connect_answer_for(CoreErrorView::Agent(fault)).body.message;
    assert(m.skip(m.len() - said.len()) =~= said);
}

/// What may be read is decided by the list for reading alone, and what may be written by the list
/// for writing and the limit for writing alone. A refusal names the path.
pub proof fn reading_and_writing_are_decided_apart(
    path: Seq<char>,
    req: WriteFileRequest,
    p: ApiPolicy,
    q: ApiPolicy,
)
    ensures
        p.allowed_read_paths == q.allowed_read_paths ==> read_refusal(path, p) == read_refusal(
            path,
            q,
        ),
        p.allowed_write_paths == q.allowed_write_paths && p.max_file_write_bytes
            == q.max_file_write_bytes ==> write_decision(req, p) == write_decision(req, q),
        read_refusal(path, p) matches Some(e) ==> e.status == 403 && text::occurs_in(
            path,
            e.body.message,
        ),
        read_refusal(path, p) is None <==> guard::path_allowed(
            path,
            text::texts(p.allowed_read_paths@),
        ),
{
    if let Some(e) = read_refusal(path, p) {
        text::lemma_occurs(path, e.body.message, "guest path '"@.len() as int);
    }
}

/// A command may run for as long as the policy says, and for a second at least.
pub proof fn commands_have_their_time(policy: ApiPolicy)
    ensures
        exec_seconds(policy) >= 1,
        policy.exec_timeout_secs >= 1 ==> exec_seconds(policy) == policy.exec_timeout_secs,
{
}

/// What a client is told of a command is what became of it in the guest.
pub proof fn client_learns_the_outcome(
    a: ExecResponse,
    code: i32,
    stdout: Seq<u8>,
    stderr: Seq<u8>,
)
    requires
        crate::client::command_outcome(
            crate::agent::exec_answer(Some(code), stdout, stderr),
        ) matches Some(outcome) && tells_outcome(a, outcome),
    ensures
        a.exit_code == code,
        a.stdout@ == text::lossy_text(stdout),
        a.stderr@ == text::lossy_text(stderr),
{
}

/// What is shown of a VM that was created is what was made: the size that the monitor tells, the
/// addresses of the host and of the guest, and the context id.
pub proof fn shown_vm_is_the_one_that_was_made(
    v: VmResponse,
    c: crate::orchestrator::Creation,
    info: crate::vmm::VmInfoView,
    now: Seq<char>,
)
    requires
        shows_vm(v, c.record(info, now)),
    ensures
        v.name@ == c.request.name@,
        v.state@ == info.state.text(),
        v.pid == info.pid,
        v.vcpu_count == info.vcpu_count,
        v.mem_size_mib == info.mem_size_mib,
        v.vsock_cid == c.cid,
        c.ips matches Some((host, guest)) ==> v.host_ip is Some && v.guest_ip is Some
            && crate::ip::ip_value(v.host_ip->0@) == Some(host) && crate::ip::ip_value(
            v.guest_ip->0@,
        ) == Some(guest),
        c.ips is None ==> v.host_ip is None && v.guest_ip is None,
        v.created_at@ == now && v.updated_at@ == now,
{
    if let Some((host, guest)) = c.ips {
        crate::ip::parse_inverts_format(host);
        crate::ip::parse_inverts_format(guest);
    }
}

/// What is shown of a port forward that was added is where it leads from and to.
pub proof fn shown_forward_is_the_one_that_was_added(
    v: PortForwardResponse,
    id: u128,
    host_port: u16,
    guest_port: u16,
    now: Seq<char>,
)
    requires
        shows_forward(v, forwards::new_forward(id, host_port, guest_port, now)),
    ensures
        v.host_port == host_port,
        v.guest_port == guest_port,
        v.created_at@ == now,
{
}

} // verus!
