//! Who may do what over the API: guest paths, commands, request rates and bearer tokens.
use crate::text;
use crate::text::{has_prefix, has_suffix, join_texts, same_text, split_text};
use vstd::prelude::*;
use vstd::string::*;

verus! {

/// The limits under which the API serves requests.
#[derive(Debug, Clone)]
pub struct ApiPolicy {
    pub max_request_bytes: usize,
    pub max_file_read_bytes: usize,
    pub max_file_write_bytes: usize,
    /// How many requests a client may send to a sensitive route within a minute; zero for no
    /// limit.
    pub sensitive_rate_limit_per_minute: u32,
    /// Directories of the guest that may be read; all where there is none.
    pub allowed_read_paths: Vec<String>,
    /// Directories of the guest that may be written; all where there is none.
    pub allowed_write_paths: Vec<String>,
    pub exec_timeout_secs: u64,
    /// Commands that may be run; all where there is none.
    pub exec_allowlist: Vec<String>,
    /// Commands that may not be run.
    pub exec_denylist: Vec<String>,
    /// Environment variables that may be set; all where there is none.
    pub exec_env_allowlist: Vec<String>,
}

impl Default for ApiPolicy {
    fn default() -> (p: Self)
        ensures
            p.max_request_bytes == 2_097_152,
            p.max_file_read_bytes == 1_048_576,
            p.max_file_write_bytes == 1_048_576,
            p.sensitive_rate_limit_per_minute == 120,
            p.exec_timeout_secs == 30,
            p.allowed_read_paths@.len() == 0,
            p.allowed_write_paths@.len() == 0,
            p.exec_allowlist@.len() == 0,
            p.exec_denylist@.len() == 0,
            p.exec_env_allowlist@.len() == 0,
    {
        ApiPolicy {
            max_request_bytes: 2_097_152,
            max_file_read_bytes: 1_048_576,
            max_file_write_bytes: 1_048_576,
            sensitive_rate_limit_per_minute: 120,
            allowed_read_paths: Vec::new(),
            allowed_write_paths: Vec::new(),
            exec_timeout_secs: 30,
            exec_allowlist: Vec::new(),
            exec_denylist: Vec::new(),
            exec_env_allowlist: Vec::new(),
        }
    }
}

/// Puts a policy in the place of the current one.
pub fn set_policy(current: &mut ApiPolicy, policy: ApiPolicy)
    ensures
        *final(current) == policy,
{
    *current = policy;
}

/// Whether a segment of a path leads anywhere: an empty one and "." do not.
pub open spec fn leads_somewhere(segment: Seq<char>) -> bool {
    segment.len() > 0 && segment != "."@
}

/// The segments of a path that lead somewhere.
pub open spec fn kept_segments(segments: Seq<Seq<char>>) -> Seq<Seq<char>>
    decreases segments.len(),
{
    if segments.len() == 0 {
        seq![]
    } else if leads_somewhere(segments.last()) {
        kept_segments(segments.drop_last()).push(segments.last())
    } else {
        kept_segments(segments.drop_last())
    }
}

/// The plain form of an absolute path of the guest. A path that is not absolute, or that leads
/// back to a parent, has none.
pub open spec fn normalized(path: Seq<char>) -> Option<Seq<char>> {
    if path.len() == 0 || path[0] != '/' || text::split(path, '/').contains(".."@) {
        None
    } else {
        Some("/"@ + text::join(kept_segments(text::split(path, '/')), "/"@))
    }
}

/// The plain form of an absolute path of the guest.
pub fn normalize_guest_path(path: &str) -> (r: Option<String>)
    ensures
        text::opt_text(r) == normalized(path@),
{
    proof {
        reveal_strlit("/");
        assert("/"@ =~= seq!['/']);
    }
    let absolute = has_prefix(path, "/");
    proof {
        assert(absolute == (path@.len() > 0 && path@[0] == '/')) by {
            if path@.len() > 0 && path@[0] == '/' {
                assert(path@.take(1) =~= seq!['/']);
            }
            if absolute {
                assert(path@.take(1)[0] == path@[0]);
            }
        }
    }
    if !absolute {
        return None;
    }
    let segments = split_text(path, '/');
    let ghost all = text::split(path@, '/');
    let mut kept: Vec<String> = Vec::new();
    let mut i: usize = 0;
    proof {
        assert(text::texts(kept@) =~= kept_segments(all.take(0)));
    }
    while i < segments.len()
        invariant
            i <= segments@.len(),
            text::texts(segments@) == all,
            all == text::split(path@, '/'),
            text::texts(kept@) == kept_segments(all.take(i as int)),
            forall|j: int| 0 <= j < i ==> #[trigger] all[j] != ".."@,
        decreases segments.len() - i,
    {
        let segment = segments[i].as_str();
        proof {
            assert(all[i as int] == segments@[i as int]@);
            assert(all.take(i + 1).drop_last() =~= all.take(i as int));
            assert(all.take(i + 1).last() == all[i as int]);
            reveal_strlit("");
        }
        if same_text(segment, "..") {
            proof {
                assert(all.contains(".."@));
            }
            return None;
        }
        let empty = same_text(segment, "");
        proof {
            assert(""@ =~= Seq::<char>::empty());
            assert(empty == (segment@.len() == 0)) by {
                if segment@.len() == 0 {
                    assert(segment@ =~= ""@);
                }
            }
        }
        if !empty && !same_text(segment, ".") {
            let ghost before = text::texts(kept@);
            kept.push(segments[i].clone());
            proof {
                assert(text::texts(kept@) =~= before.push(segment@));
            }
        }
        i += 1;
    }
    proof {
        assert(all.take(i as int) =~= all);
        assert(!all.contains(".."@));
    }
    let mut out = "/".to_owned();
    out.append(join_texts(kept.as_slice(), "/").as_str());
    Some(out)
}

/// Whether a plain path is a directory or lies in it.
pub open spec fn lies_in(path: Seq<char>, dir: Seq<char>) -> bool {
    path == dir || text::starts_with(path, dir + "/"@)
}

/// Whether a path of the guest may be used, given the directories that are allowed.
pub open spec fn path_allowed(path: Seq<char>, allowlist: Seq<Seq<char>>) -> bool {
    normalized(path) matches Some(plain) && (allowlist.len() == 0 || exists|i: int|
        0 <= i < allowlist.len() && (normalized(#[trigger] allowlist[i]) matches Some(dir)
            && lies_in(plain, dir)))
}

/// Whether a path of the guest may be used, given the directories that are allowed.
pub fn is_allowed_guest_path(path: &str, allowlist: &[String]) -> (r: bool)
    ensures
        r == path_allowed(path@, text::texts(allowlist@)),
{
    let plain = match normalize_guest_path(path) {
        Some(plain) => plain,
        None => return false,
    };
    proof {
        assert(text::texts(allowlist@).len() == allowlist@.len());
    }
    if allowlist.len() == 0 {
        return true;
    }
    let ghost all = text::texts(allowlist@);
    let mut i: usize = 0;
    while i < allowlist.len()
        invariant
            i <= allowlist@.len(),
            all == text::texts(allowlist@),
            normalized(path@) == Some(plain@),
            forall|j: int|
                0 <= j < i ==> !(normalized(#[trigger] all[j]) matches Some(dir) && lies_in(
                    plain@,
                    dir,
                )),
        decreases allowlist.len() - i,
    {
        proof {
            assert(all[i as int] == allowlist@[i as int]@);
        }
        match normalize_guest_path(allowlist[i].as_str()) {
            Some(dir) => {
                let mut inside = dir.clone();
                inside.append("/");
                if same_text(plain.as_str(), dir.as_str()) || has_prefix(
                    plain.as_str(),
                    inside.as_str(),
                ) {
                    proof {
                        assert(normalized(all[i as int]) matches Some(d) && lies_in(plain@, d));
                    }
                    return true;
                }
            },
            None => {},
        }
        i += 1;
    }
    false
}

/// Whether a text is in a list.
fn is_listed(item: &str, list: &[String]) -> (r: bool)
    ensures
        r == text::texts(list@).contains(item@),
{
    let mut i: usize = 0;
    while i < list.len()
        invariant
            i <= list@.len(),
            forall|j: int| 0 <= j < i ==> (#[trigger] list@[j])@ != item@,
        decreases list.len() - i,
    {
        if same_text(list[i].as_str(), item) {
            proof {
                assert(text::texts(list@)[i as int] == item@);
            }
            return true;
        }
        i += 1;
    }
    proof {
        if text::texts(list@).contains(item@) {
            let k = choose|k: int|
                0 <= k < text::texts(list@).len() && text::texts(list@)[k] == item@;
            assert(list@[k]@ == item@);
        }
    }
    false
}

/// Whether a command may be run: it is not denied, and it is allowed where only some are.
pub open spec fn command_allowed(command: Seq<char>, policy: ApiPolicy) -> bool {
    &&& !text::texts(policy.exec_denylist@).contains(command)
    &&& policy.exec_allowlist@.len() == 0 || text::texts(policy.exec_allowlist@).contains(command)
}

/// Whether a command may be run.
pub fn exec_command_allowed(command: &str, policy: &ApiPolicy) -> (r: bool)
    ensures
        r == command_allowed(command@, *policy),
{
    if is_listed(command, policy.exec_denylist.as_slice()) {
        return false;
    }
    if policy.exec_allowlist.len() == 0 {
        return true;
    }
    is_listed(command, policy.exec_allowlist.as_slice())
}

/// Whether an environment may be set: every variable is allowed where only some are.
pub open spec fn env_allowed(env: Seq<(Seq<char>, Seq<char>)>, policy: ApiPolicy) -> bool {
    policy.exec_env_allowlist@.len() == 0 || forall|i: int|
        0 <= i < env.len() ==> text::texts(policy.exec_env_allowlist@).contains(
            (#[trigger] env[i]).0,
        )
}

/// Whether an environment may be set.
pub fn exec_env_allowed(env: &[(String, String)], policy: &ApiPolicy) -> (r: bool)
    ensures
        r == env_allowed(text::pair_texts(env@), *policy),
{
    if policy.exec_env_allowlist.len() == 0 {
        return true;
    }
    let ghost all = text::pair_texts(env@);
    let mut i: usize = 0;
    while i < env.len()
        invariant
            i <= env@.len(),
            all == text::pair_texts(env@),
            policy.exec_env_allowlist@.len() > 0,
            forall|j: int|
                0 <= j < i ==> text::texts(policy.exec_env_allowlist@).contains(
                    (#[trigger] all[j]).0,
                ),
        decreases env.len() - i,
    {
        proof {
            assert(all[i as int].0 == env@[i as int].0@);
        }
        if !is_listed(env[i].0.as_str(), policy.exec_env_allowlist.as_slice()) {
            proof {
                assert(!text::texts(policy.exec_env_allowlist@).contains(all[i as int].0));
            }
            return false;
        }
        i += 1;
    }
    true
}

/// Under what name requests of a route are counted, or `None` for a route without a limit.
pub open spec fn rate_kind(method: Seq<char>, path: Seq<char>) -> Option<Seq<char>> {
    if method == "POST"@ && text::ends_with(path, "/exec"@) {
        Some("exec"@)
    } else if method == "POST"@ && text::ends_with(path, "/files/read"@) {
        Some("file_read"@)
    } else if method == "POST"@ && text::ends_with(path, "/files/write"@) {
        Some("file_write"@)
    } else if method == "GET"@ && text::ends_with(path, "/shell"@) {
        Some("shell"@)
    } else {
        None
    }
}

/// Under what name requests of a route are counted, or `None` for a route without a limit.
pub fn is_rate_limited_route(method: &str, path: &str) -> (r: Option<&'static str>)
    ensures
        match r {
            Some(kind) => rate_kind(method@, path@) == Some(kind@),
            None => rate_kind(method@, path@) is None,
        },
{
    let post = same_text(method, "POST");
    if post && has_suffix(path, "/exec") {
        return Some("exec");
    }
    if post && has_suffix(path, "/files/read") {
        return Some("file_read");
    }
    if post && has_suffix(path, "/files/write") {
        return Some("file_write");
    }
    if same_text(method, "GET") && has_suffix(path, "/shell") {
        return Some("shell");
    }
    None
}

/// Whether a route changes VMs, services, host groups or snapshots, or gives a shell, and so needs a
/// token where one is set. Only paths that begin with one of these four prefixes are meant; routes
/// of images have a rule of their own.
pub open spec fn needs_token(method: Seq<char>, path: Seq<char>) -> bool {
    &&& text::starts_with(path, "/v1/vms"@) || text::starts_with(path, "/v1/services"@)
        || text::starts_with(path, "/v1/host-groups"@) || text::starts_with(path, "/v1/snapshots"@)
    &&& method != "GET"@ || text::ends_with(path, "/shell"@)
}

/// Whether a route of VMs, services, host groups or snapshots needs a token where one is set.
pub fn is_protected_route(method: &str, path: &str) -> (r: bool)
    ensures
        r == needs_token(method@, path@),
{
    let known = has_prefix(path, "/v1/vms") || has_prefix(path, "/v1/services") || has_prefix(
        path,
        "/v1/host-groups",
    ) || has_prefix(path, "/v1/snapshots");
    if !known {
        return false;
    }
    if !same_text(method, "GET") {
        return true;
    }
    has_suffix(path, "/shell")
}

/// Whether a request may pass: no token is set, the route needs none, or it brings the token.
pub open spec fn authorized(
    token: Option<Seq<char>>,
    method: Seq<char>,
    path: Seq<char>,
    provided: Option<Seq<char>>,
) -> bool {
    token matches Some(t) ==> !needs_token(method, path) || provided == Some("Bearer "@ + t)
}

/// Whether a request may pass, given the token that is set and the `Authorization` header that
/// it brings.
pub fn is_authorized(token: Option<&str>, method: &str, path: &str, provided: Option<&str>) -> (r:
    bool)
    ensures
        r == authorized(
            match token {
                Some(t) => Some(t@),
                None => None,
            },
            method@,
            path@,
            match provided {
                Some(p) => Some(p@),
                None => None,
            },
        ),
{
    match token {
        None => true,
        Some(t) => {
            if !is_protected_route(method, path) {
                return true;
            }
            let mut expected = "Bearer ".to_owned();
            expected.append(t);
            match provided {
                Some(p) => same_text(p, expected.as_str()),
                None => false,
            }
        },
    }
}

/// Whether a route changes images, or writes one to the host.
pub open spec fn changes_images(method: Seq<char>, path: Seq<char>) -> bool {
    text::starts_with(path, "/v1/images"@) && method != "GET"@
}

/// Whether a request may pass as far as images are concerned: no token is set, it does not change
/// them, or it brings the token.
pub open spec fn image_authorized(
    token: Option<Seq<char>>,
    method: Seq<char>,
    path: Seq<char>,
    provided: Option<Seq<char>>,
) -> bool {
    token matches Some(t) ==> !changes_images(method, path) || provided == Some("Bearer "@ + t)
}

/// Whether a request may pass as far as images are concerned.
pub fn is_image_authorized(
    token: Option<&str>,
    method: &str,
    path: &str,
    provided: Option<&str>,
) -> (r: bool)
    ensures
        r == image_authorized(
            match token {
                Some(t) => Some(t@),
                None => None,
            },
            method@,
            path@,
            match provided {
                Some(p) => Some(p@),
                None => None,
            },
        ),
{
    match token {
        None => true,
        Some(t) => {
            if !has_prefix(path, "/v1/images") || same_text(method, "GET") {
                return true;
            }
            let mut expected = "Bearer ".to_owned();
            expected.append(t);
            match provided {
                Some(p) => same_text(p, expected.as_str()),
                None => false,
            }
        },
    }
}

proof fn lemma_split_rooted(parts: Seq<Seq<char>>)
    requires
        parts.len() > 0,
        forall|i: int| 0 <= i < parts.len() ==> !(#[trigger] parts[i]).contains('/'),
    ensures
        text::split(seq!['/'] + text::join(parts, seq!['/']), '/') == seq![Seq::<char>::empty()]
            + parts,
    decreases parts.len(),
{
    let sep = seq!['/'];
    let first = seq![Seq::<char>::empty()];
    if parts.len() == 1 {
        assert(Seq::<char>::empty().push('/') =~= sep);
        assert(sep + text::join(parts, sep) =~= Seq::<char>::empty().push('/') + parts[0]);
        text::lemma_split_last(Seq::empty(), '/', parts[0]);
        assert(text::split(Seq::empty(), '/') =~= first);
        assert(first.push(parts[0]) =~= first + parts);
    } else {
        let init = parts.drop_last();
        assert forall|i: int| 0 <= i < init.len() implies !(#[trigger] init[i]).contains('/') by {
            assert(init[i] == parts[i]);
        }
        lemma_split_rooted(init);
        let head = sep + text::join(init, sep);
        assert(sep + text::join(parts, sep) =~= head.push('/') + parts.last());
        text::lemma_split_last(head, '/', parts.last());
        assert((first + init).push(parts.last()) =~= first + parts);
    }
}

proof fn lemma_kept_segments(segments: Seq<Seq<char>>)
    ensures
        forall|i: int|
            0 <= i < kept_segments(segments).len() ==> leads_somewhere(
                #[trigger] kept_segments(segments)[i],
            ) && segments.contains(kept_segments(segments)[i]),
    decreases segments.len(),
{
    if segments.len() > 0 {
        lemma_kept_segments(segments.drop_last());
        let kept = kept_segments(segments);
        assert forall|i: int| 0 <= i < kept.len() implies leads_somewhere(#[trigger] kept[i])
            && segments.contains(kept[i]) by {
            let before = kept_segments(segments.drop_last());
            if i < before.len() {
                assert(kept[i] == before[i]);
                let k = choose|k: int|
                    0 <= k < segments.drop_last().len() && segments.drop_last()[k] == before[i];
                assert(segments[k] == kept[i]);
            } else {
                assert(kept[i] == segments.last());
                assert(segments[segments.len() - 1] == kept[i]);
            }
        }
    }
}

proof fn lemma_all_kept(segments: Seq<Seq<char>>)
    requires
        forall|i: int| 0 <= i < segments.len() ==> leads_somewhere(#[trigger] segments[i]),
    ensures
        kept_segments(seq![Seq::<char>::empty()] + segments) == segments,
    decreases segments.len(),
{
    let first = seq![Seq::<char>::empty()];
    if segments.len() == 0 {
        assert(first + segments =~= first);
        assert(first.drop_last() =~= seq![]);
        reveal_with_fuel(kept_segments, 2);
        assert(kept_segments(first) =~= segments);
    } else {
        let init = segments.drop_last();
        assert forall|i: int| 0 <= i < init.len() implies leads_somewhere(#[trigger] init[i]) by {
            assert(init[i] == segments[i]);
        }
        lemma_all_kept(init);
        assert((first + segments).drop_last() =~= first + init);
        assert((first + segments).last() == segments.last());
        assert(init.push(segments.last()) =~= segments);
    }
}

/// The plain form of a path is its own plain form. It is absolute and leads to no parent.
pub proof fn plain_path_is_stable(path: Seq<char>)
    requires
        normalized(path) is Some,
    ensures
        normalized(normalized(path)->0) == normalized(path),
        !text::split(normalized(path)->0, '/').contains(".."@),
{
    reveal_strlit("/");
    reveal_strlit("..");
    assert("/"@ =~= seq!['/']);
    let segments = text::split(path, '/');
    let kept = kept_segments(segments);
    let plain = normalized(path)->0;
    lemma_kept_segments(segments);
    text::lemma_split_pieces(path, '/');
    assert forall|i: int| 0 <= i < kept.len() implies !(#[trigger] kept[i]).contains('/') && kept[i]
        != ".."@ by {
        assert(segments.contains(kept[i]));
    }
    assert(plain[0] == '/');
    if kept.len() == 0 {
        assert(plain =~= Seq::<char>::empty().push('/') + seq![]);
        text::lemma_split_last(Seq::empty(), '/', seq![]);
        let s = text::split(plain, '/');
        assert(text::split(Seq::empty(), '/') =~= seq![Seq::<char>::empty()]);
        assert(s =~= seq![Seq::<char>::empty(), Seq::<char>::empty()]);
        assert(s.drop_last() =~= seq![Seq::<char>::empty()]);
        assert(s.drop_last().drop_last() =~= seq![]);
        reveal_with_fuel(kept_segments, 3);
        assert(kept_segments(s) =~= kept);
    } else {
        lemma_split_rooted(kept);
        lemma_all_kept(kept);
        let s = text::split(plain, '/');
        if s.contains(".."@) {
            let k = choose|k: int| 0 <= k < s.len() && s[k] == ".."@;
            if k > 0 {
                assert(s[k] == kept[k - 1]);
            }
        }
    }
}

/// A path that leads back to a parent is never allowed, whatever the list says.
pub proof fn parent_is_never_allowed(path: Seq<char>, allowlist: Seq<Seq<char>>)
    requires
        text::split(path, '/').contains(".."@),
    ensures
        !path_allowed(path, allowlist),
{
}

/// A command that is denied cannot be run, even if it is allowed as well.
pub proof fn denied_command_is_not_allowed(command: Seq<char>, policy: ApiPolicy)
    requires
        text::texts(policy.exec_denylist@).contains(command),
    ensures
        !command_allowed(command, policy),
{
}

/// Where a token is set, a request without it that changes VMs, services, host groups or snapshots,
/// or asks for a shell, is refused.
pub proof fn change_without_token_is_refused(
    token: Seq<char>,
    method: Seq<char>,
    path: Seq<char>,
    provided: Option<Seq<char>>,
)
    requires
        needs_token(method, path),
        provided != Some("Bearer "@ + token),
    ensures
        !authorized(Some(token), method, path, provided),
{
}

/// Where a token is set, a request without it that changes images is refused.
pub proof fn image_change_without_token_is_refused(
    token: Seq<char>,
    method: Seq<char>,
    path: Seq<char>,
    provided: Option<Seq<char>>,
)
    requires
        changes_images(method, path),
        provided != Some("Bearer "@ + token),
    ensures
        !image_authorized(Some(token), method, path, provided),
{
}

/// A request of any method but GET to VMs, services, host groups or snapshots, or to anything below
/// them, needs the token, and so does a shell; reading needs none, and nor does anything else.
pub proof fn changes_and_shells_need_the_token(method: Seq<char>, rest: Seq<char>)
    ensures
        method != "GET"@ ==> needs_token(method, "/v1/vms"@ + rest) && needs_token(
            method,
            "/v1/services"@ + rest,
        ) && needs_token(method, "/v1/host-groups"@ + rest) && needs_token(
            method,
            "/v1/snapshots"@ + rest,
        ),
        needs_token("GET"@, "/v1/vms"@ + rest + "/shell"@),
        !text::ends_with("/v1/vms"@ + rest, "/shell"@) ==> !needs_token("GET"@, "/v1/vms"@ + rest),
        !needs_token(method, "/v1/health"@),
        !needs_token(method, "/v1/metrics"@),
{
    assert(("/v1/vms"@ + rest).take("/v1/vms"@.len() as int) =~= "/v1/vms"@);
    assert(("/v1/services"@ + rest).take("/v1/services"@.len() as int) =~= "/v1/services"@);
    assert(("/v1/host-groups"@ + rest).take("/v1/host-groups"@.len() as int)
        =~= "/v1/host-groups"@);
    assert(("/v1/snapshots"@ + rest).take("/v1/snapshots"@.len() as int) =~= "/v1/snapshots"@);
    let shell = "/v1/vms"@ + rest + "/shell"@;
    assert(shell.take("/v1/vms"@.len() as int) =~= "/v1/vms"@);
    assert(shell.skip(shell.len() - "/shell"@.len()) =~= "/shell"@);
    lemma_no_prefix_of_status_routes();
}

proof fn lemma_no_prefix_of_status_routes()
    ensures
        forall|path: Seq<char>|
            path == "/v1/health"@ || path == "/v1/metrics"@ ==> !(#[trigger] text::starts_with(
                path,
                "/v1/vms"@,
            )) && !text::starts_with(path, "/v1/services"@) && !text::starts_with(
                path,
                "/v1/host-groups"@,
            ) && !text::starts_with(path, "/v1/snapshots"@),
{
    reveal_strlit("/v1/health");
    reveal_strlit("/v1/metrics");
    reveal_strlit("/v1/vms");
    reveal_strlit("/v1/services");
    reveal_strlit("/v1/host-groups");
    reveal_strlit("/v1/snapshots");
    assert forall|path: Seq<char>| path == "/v1/health"@ || path == "/v1/metrics"@ implies !(
    #[trigger] text::starts_with(path, "/v1/vms"@)) && !text::starts_with(path, "/v1/services"@)
        && !text::starts_with(path, "/v1/host-groups"@) && !text::starts_with(
        path,
        "/v1/snapshots"@,
    ) by {
        assert(path.take(7)[4] != 'v');
        assert(path.len() <= 11);
    }
}

/// Whoever brings the token passes everywhere, and everyone passes where no token is set; another
/// token than the one that is set does not help.
pub proof fn the_token_opens_every_route(
    token: Seq<char>,
    other: Seq<char>,
    method: Seq<char>,
    path: Seq<char>,
    provided: Option<Seq<char>>,
)
    ensures
        authorized(Some(token), method, path, Some("Bearer "@ + token)),
        image_authorized(Some(token), method, path, Some("Bearer "@ + token)),
        authorized(None, method, path, provided),
        image_authorized(None, method, path, provided),
        other != token && needs_token(method, path) ==> !authorized(
            Some(token),
            method,
            path,
            Some("Bearer "@ + other),
        ),
        needs_token(method, path) ==> !authorized(Some(token), method, path, None),
        other != token && changes_images(method, path) ==> !image_authorized(
            Some(token),
            method,
            path,
            Some("Bearer "@ + other),
        ),
{
    let a = "Bearer "@ + token;
    let b = "Bearer "@ + other;
    assert(a.skip("Bearer "@.len() as int) =~= token);
    assert(b.skip("Bearer "@.len() as int) =~= other);
}

/// Images are changed by every method but GET on their routes.
pub proof fn image_routes_are_guarded(method: Seq<char>, rest: Seq<char>)
    ensures
        changes_images(method, "/v1/images"@ + rest) <==> method != "GET"@,
{
    assert(("/v1/images"@ + rest).take("/v1/images"@.len() as int) =~= "/v1/images"@);
}

proof fn lemma_suffix(front: Seq<char>, end: Seq<char>)
    ensures
        text::ends_with(front + end, end),
{
    assert((front + end).skip((front + end).len() - end.len()) =~= end);
}

/// Running a command, reading and writing files and opening a shell are counted, each of them by
/// itself, whatever VM is meant; other routes are not.
pub proof fn sensitive_routes_are_counted(vm: Seq<char>)
    ensures
        rate_kind("POST"@, vm + "/exec"@) == Some("exec"@),
        rate_kind("POST"@, vm + "/files/read"@) == Some("file_read"@),
        rate_kind("POST"@, vm + "/files/write"@) == Some("file_write"@),
        rate_kind("GET"@, vm + "/shell"@) == Some("shell"@),
        rate_kind("GET"@, vm + "/exec"@) is None,
        rate_kind("DELETE"@, vm) is None,
{
    reveal_strlit("/exec");
    reveal_strlit("/files/read");
    reveal_strlit("/files/write");
    reveal_strlit("/shell");
    reveal_strlit("POST");
    reveal_strlit("GET");
    reveal_strlit("DELETE");
    assert("POST"@.len() == 4 && "GET"@.len() == 3 && "DELETE"@.len() == 6);
    lemma_suffix(vm, "/exec"@);
    lemma_suffix(vm, "/files/read"@);
    lemma_suffix(vm, "/files/write"@);
    lemma_suffix(vm, "/shell"@);
    let read = vm + "/files/read"@;
    let write = vm + "/files/write"@;
    let exec = vm + "/exec"@;
    assert(!text::ends_with(read, "/exec"@)) by {
        assert(read.skip(read.len() - 5)[4] == 'd');
    }
    assert(!text::ends_with(write, "/exec"@)) by {
        assert(write.skip(write.len() - 5)[4] == 'e');
    }
    assert(!text::ends_with(write, "/files/read"@)) by {
        if write.len() >= 11 {
            assert(write.skip(write.len() - 11)[10] == 'e');
        }
    }
    assert(!text::ends_with(exec, "/shell"@)) by {
        if exec.len() >= 6 {
            assert(exec.skip(exec.len() - 6)[5] == 'c');
        }
    }
}

/// What lies in a directory is the directory itself and what follows it behind a slash. A name that
/// only begins like the directory's is not in it.
pub proof fn siblings_are_not_inside(dir: Seq<char>, rest: Seq<char>)
    ensures
        lies_in(dir, dir),
        lies_in(dir + "/"@ + rest, dir),
        rest.len() > 0 && rest[0] != '/' ==> !lies_in(dir + rest, dir),
        rest.len() > 0 ==> !lies_in(dir, dir + rest),
{
    reveal_strlit("/");
    let inside = dir + "/"@ + rest;
    assert(inside.take(dir.len() as int + 1) =~= dir + "/"@);
    if rest.len() > 0 && rest[0] != '/' {
        let s = dir + rest;
        if text::starts_with(s, dir + "/"@) {
            assert(s.take(dir.len() as int + 1)[dir.len() as int] == rest[0]);
            assert((dir + "/"@)[dir.len() as int] == '/');
        }
        assert(s.len() != dir.len());
    }
    if rest.len() > 0 {
        assert(dir.len() != (dir + rest).len());
    }
}

/// With directories that are allowed, a path may be used exactly if its plain form lies in the plain
/// form of one of them; without any, exactly if it has a plain form.
pub proof fn allowed_paths_lie_in_allowed_directories(path: Seq<char>, dir: Seq<char>)
    requires
        normalized(dir) is Some,
    ensures
        path_allowed(path, seq![dir]) <==> normalized(path) is Some && lies_in(
            normalized(path)->0,
            normalized(dir)->0,
        ),
        path_allowed(path, seq![]) <==> normalized(path) is Some,
        path_allowed(dir, seq![dir]),
{
    let list = seq![dir];
    assert(list[0] == dir);
}

/// A command may be run exactly if it is not denied and, where commands are allowed by name, is
/// among those. A variable may be set exactly if it is among those that are allowed, or all are.
pub proof fn lists_decide_commands(
    command: Seq<char>,
    env: Seq<(Seq<char>, Seq<char>)>,
    policy: ApiPolicy,
)
    ensures
        policy.exec_denylist@.len() == 0 && policy.exec_allowlist@.len() == 0 ==> command_allowed(
            command,
            policy,
        ),
        policy.exec_allowlist@.len() > 0 && !text::texts(policy.exec_allowlist@).contains(command)
            ==> !command_allowed(command, policy),
        policy.exec_denylist@.len() == 0 && text::texts(policy.exec_allowlist@).contains(command)
            ==> command_allowed(command, policy),
        policy.exec_env_allowlist@.len() == 0 ==> env_allowed(env, policy),
        env.len() == 0 ==> env_allowed(env, policy),
        forall|i: int|
            0 <= i < env.len() && policy.exec_env_allowlist@.len() > 0 && !text::texts(
                policy.exec_env_allowlist@,
            ).contains((#[trigger] env[i]).0) ==> !env_allowed(env, policy),
{
    assert(policy.exec_denylist@.len() == 0 ==> !text::texts(policy.exec_denylist@).contains(
        command,
    ));
}

} // verus!
