use vstd::prelude::*;
use vstd::string::*;
use crate::ledger::{Ledger, Status, KeyView, RecordView, done_in, done_for_all_in, attempted};

verus! {

/// The two watched roots. Private content is encrypted before upload.
#[derive(Clone, Copy, Debug, PartialEq, Eq, Structural)]
pub enum Role {
    Public,
    Private,
}

/// Name of the watched subdirectory of each role.
pub open spec fn role_dir_name(role: Role) -> Seq<char> {
    match role {
        Role::Public => seq!['P', 'u', 'b', 'l', 'i', 'c'],
        Role::Private => seq!['P', 'r', 'i', 'v', 'a', 't', 'e'],
    }
}

/// The watched directory of a role under `root`.
pub open spec fn role_dir(root: Seq<char>, role: Role) -> Seq<char> {
    root + seq!['/'] + role_dir_name(role)
}

/// Whether `path` names a direct child of `dir`: `dir`, a separator, then a
/// non-empty name holding no separator.
pub open spec fn is_child_path(dir: Seq<char>, path: Seq<char>) -> bool {
    &&& path.len() > dir.len() + 1
    &&& path.take(dir.len() as int) == dir
    &&& path[dir.len() as int] == '/'
    &&& forall|i: int| dir.len() + 1 <= i < path.len() ==> path[i] != '/'
}

/// The role of a path, or none for a path outside both watched directories.
pub open spec fn role_of(root: Seq<char>, path: Seq<char>) -> Option<Role> {
    if is_child_path(role_dir(root, Role::Private), path) {
        Some(Role::Private)
    } else if is_child_path(role_dir(root, Role::Public), path) {
        Some(Role::Public)
    } else {
        None
    }
}

impl Role {
    /// Name of the watched subdirectory of this role.
    pub fn dir_name(&self) -> (r: &'static str)
        ensures
            r@ == role_dir_name(*self),
    {
        proof {
            reveal_strlit("Public");
            reveal_strlit("Private");
        }
        match self {
            Role::Public => "Public",
            Role::Private => "Private",
        }
    }

    /// Whether content of this role is encrypted before upload.
    pub fn encrypts(&self) -> (r: bool)
        ensures
            r == (*self == Role::Private),
    {
        match self {
            Role::Public => false,
            Role::Private => true,
        }
    }
}

/// The watched directory of `role` under `root`.
pub fn role_dir_path(root: &str, role: Role) -> (r: String)
    ensures
        r@ == role_dir(root@, role),
{
    proof {
        reveal_strlit("/");
    }
    let d = root.to_owned().concat("/");
    d.concat(role.dir_name())
}

fn child_path_check(dir: &str, path: &str) -> (r: bool)
    ensures
        r == is_child_path(dir@, path@),
{
    let dn = dir.unicode_len();
    let pn = path.unicode_len();
    if pn <= dn || pn - dn <= 1 {
        return false;
    }
    let mut i: usize = 0;
    while i < dn
        invariant
            dn == dir@.len(),
            pn == path@.len(),
            dn + 1 < pn,
            i <= dn,
            forall|j: int| 0 <= j < i ==> path@[j] == dir@[j],
        decreases dn - i,
    {
        if path.get_char(i) != dir.get_char(i) {
            assert(path@.take(dn as int)[i as int] != dir@[i as int]);
            return false;
        }
        i = i + 1;
    }
    assert(path@.take(dn as int) =~= dir@);
    if path.get_char(dn) != '/' {
        return false;
    }
    let mut k: usize = dn + 1;
    while k < pn
        invariant
            dn == dir@.len(),
            pn == path@.len(),
            dn + 1 <= k <= pn,
            forall|j: int| dn + 1 <= j < k ==> path@[j] != '/',
        decreases pn - k,
    {
        if path.get_char(k) == '/' {
            return false;
        }
        k = k + 1;
    }
    true
}

/// The role of `path` given the watched `root`, or `None` for any other path.
pub fn classify(root: &str, path: &str) -> (r: Option<Role>)
    ensures
        r == role_of(root@, path@),
{
    let private_dir = role_dir_path(root, Role::Private);
    if child_path_check(private_dir.as_str(), path) {
        return Some(Role::Private);
    }
    let public_dir = role_dir_path(root, Role::Public);
    if child_path_check(public_dir.as_str(), path) {
        return Some(Role::Public);
    }
    None
}

/// The path relative to `root`: what follows `root` and its separator, or the
/// whole path when it does not lie under `root`.
pub open spec fn relative_to(root: Seq<char>, path: Seq<char>) -> Seq<char> {
    if path.len() > root.len() && path.take(root.len() as int) == root && path[root.len() as int]
        == '/' {
        path.skip(root.len() as int + 1)
    } else {
        path
    }
}

/// The path of a watched file relative to the watched root, as stored in the ledger.
pub fn relative_path(root: &str, path: &str) -> (r: String)
    ensures
        r@ == relative_to(root@, path@),
{
    let rn = root.unicode_len();
    let pn = path.unicode_len();
    if pn <= rn {
        return path.to_owned();
    }
    let mut i: usize = 0;
    while i < rn
        invariant
            rn == root@.len(),
            pn == path@.len(),
            rn < pn,
            i <= rn,
            forall|j: int| 0 <= j < i ==> path@[j] == root@[j],
        decreases rn - i,
    {
        if path.get_char(i) != root.get_char(i) {
            assert(path@.take(rn as int)[i as int] != root@[i as int]);
            return path.to_owned();
        }
        i = i + 1;
    }
    assert(path@.take(rn as int) =~= root@);
    if path.get_char(rn) != '/' {
        return path.to_owned();
    }
    let rest = path.substring_char(rn + 1, pn);
    assert(rest@ =~= path@.skip(rn as int + 1));
    rest.to_owned()
}

/// What the coordinator does for one destination of a unit.
#[derive(Clone, Copy, Debug, PartialEq, Eq, Structural)]
pub enum Action {
    /// The destination already holds this content: no network call.
    Skip,
    /// Private content with no key: recorded failed, no network call.
    FailNoKey,
    /// Upload the content, encrypted when `encrypt` holds.
    Upload { encrypt: bool },
}

/// The action for one destination, given whether it is already done there.
pub open spec fn action_for(done: bool, role: Role, has_key: bool) -> Action {
    if done {
        Action::Skip
    } else if role == Role::Private && !has_key {
        Action::FailNoKey
    } else {
        Action::Upload { encrypt: role == Role::Private }
    }
}

/// The status recorded after an action; none for a skipped destination.
pub open spec fn status_after(action: Action, upload_ok: bool) -> Option<Status> {
    match action {
        Action::Skip => None,
        Action::FailNoKey => Some(Status::Failed),
        Action::Upload { .. } => Some(
            if upload_ok {
                Status::Done
            } else {
                Status::Failed
            },
        ),
    }
}

/// What the coordinator knows of one observed file once it is fingerprinted.
#[derive(Clone, Debug)]
pub struct Unit {
    pub fingerprint: String,
    pub size: u64,
    pub rel_path: String,
    pub role: Role,
}

/// Whether any destination still lacks this content: when it returns false the
/// unit is skipped whole.
pub fn needs_upload(ledger: &Ledger, unit: &Unit, dests: &Vec<String>) -> (r: bool)
    requires
        ledger.wf(),
    ensures
        r == !done_for_all_in(ledger@, unit.fingerprint@, dests@),
{
    !ledger.is_done_for_all(&unit.fingerprint, dests)
}

/// Decides what to do for `dest`, consulting the ledger first.
pub fn plan_destination(ledger: &Ledger, unit: &Unit, dest: &String, has_key: bool) -> (r: Action)
    requires
        ledger.wf(),
    ensures
        r == action_for(done_in(ledger@, unit.fingerprint@, dest@), unit.role, has_key),
{
    if ledger.is_done(&unit.fingerprint, dest) {
        Action::Skip
    } else if unit.role.encrypts() && !has_key {
        Action::FailNoKey
    } else {
        Action::Upload { encrypt: unit.role.encrypts() }
    }
}

/// The status an action leads to, given whether its upload succeeded.
pub fn outcome_status(action: Action, upload_ok: bool) -> (r: Option<Status>)
    ensures
        r == status_after(action, upload_ok),
{
    match action {
        Action::Skip => None,
        Action::FailNoKey => Some(Status::Failed),
        Action::Upload { .. } => if upload_ok {
            Some(Status::Done)
        } else {
            Some(Status::Failed)
        },
    }
}

/// The ledger after settling one destination of a unit.
pub open spec fn settled(
    m: Map<KeyView, RecordView>,
    unit: Unit,
    dest: Seq<char>,
    action: Action,
    upload_ok: bool,
    now: i64,
) -> Map<KeyView, RecordView> {
    match status_after(action, upload_ok) {
        None => m,
        Some(st) => attempted(
            m,
            (unit.fingerprint@, dest),
            unit.size,
            unit.rel_path@,
            unit.role == Role::Private,
            st,
            now,
        ),
    }
}

/// Records in the ledger what came of `action` for `dest`.
pub fn settle_destination(
    ledger: &mut Ledger,
    unit: &Unit,
    dest: &String,
    action: Action,
    upload_ok: bool,
    now: i64,
)
    requires
        old(ledger).wf(),
    ensures
        final(ledger).wf(),
        final(ledger)@ == settled(old(ledger)@, *unit, dest@, action, upload_ok, now),
{
    match outcome_status(action, upload_ok) {
        None => {},
        Some(st) => {
            ledger.record_attempt(
                &unit.fingerprint,
                unit.size,
                &unit.rel_path,
                unit.role.encrypts(),
                dest,
                st,
                now,
            );
        },
    }
}

/// Relies on chrono::Utc::now and DateTime::timestamp: seconds since the Unix
/// epoch. Nothing is known of the value.
#[verifier::external_body]
fn now_epoch_seconds() -> (r: i64) {
    chrono::Utc::now().timestamp()
}

/// Records what came of `action` for `dest`, stamped with the current time.
pub fn settle_destination_now(
    ledger: &mut Ledger,
    unit: &Unit,
    dest: &String,
    action: Action,
    upload_ok: bool,
)
    requires
        old(ledger).wf(),
    ensures
        final(ledger).wf(),
        exists|now: i64| final(ledger)@ == settled(old(ledger)@, *unit, dest@, action, upload_ok, now),
{
    let now = now_epoch_seconds();
    settle_destination(ledger, unit, dest, action, upload_ok, now);
}

/// A destination already done for a content is never uploaded to again, and
/// settling it leaves the ledger as it was.
pub proof fn lemma_done_destination_is_skipped(
    m: Map<KeyView, RecordView>,
    unit: Unit,
    dest: Seq<char>,
    has_key: bool,
    upload_ok: bool,
    now: i64,
)
    requires
        done_in(m, unit.fingerprint@, dest),
    ensures
        action_for(done_in(m, unit.fingerprint@, dest), unit.role, has_key) == Action::Skip,
        settled(
            m,
            unit,
            dest,
            action_for(done_in(m, unit.fingerprint@, dest), unit.role, has_key),
            upload_ok,
            now,
        ) == m,
{
}

/// Once content has been uploaded to a destination, any other unit with the
/// same fingerprint, whatever its path or role, is skipped there.
pub proof fn lemma_same_content_uploads_once(
    m: Map<KeyView, RecordView>,
    first: Unit,
    second: Unit,
    dest: Seq<char>,
    has_key: bool,
    now: i64,
)
    requires
        first.fingerprint@ == second.fingerprint@,
        action_for(done_in(m, first.fingerprint@, dest), first.role, has_key) is Upload,
    ensures
        action_for(
            done_in(
                settled(
                    m,
                    first,
                    dest,
                    action_for(done_in(m, first.fingerprint@, dest), first.role, has_key),
                    true,
                    now,
                ),
                second.fingerprint@,
                dest,
            ),
            second.role,
            has_key,
        ) == Action::Skip,
{
}

/// Private content without a key makes no network call and is recorded failed,
/// never done.
pub proof fn lemma_private_without_key_fails(
    m: Map<KeyView, RecordView>,
    unit: Unit,
    dest: Seq<char>,
    upload_ok: bool,
    now: i64,
)
    requires
        unit.role == Role::Private,
        !done_in(m, unit.fingerprint@, dest),
    ensures
        action_for(false, unit.role, false) == Action::FailNoKey,
        settled(m, unit, dest, Action::FailNoKey, upload_ok, now)[(unit.fingerprint@, dest)].status
            == Status::Failed,
{
}

/// Settling one destination leaves every other key of the ledger untouched.
pub proof fn lemma_settle_is_local(
    m: Map<KeyView, RecordView>,
    unit: Unit,
    dest: Seq<char>,
    action: Action,
    upload_ok: bool,
    now: i64,
    other: KeyView,
)
    requires
        other != (unit.fingerprint@, dest),
    ensures
        settled(m, unit, dest, action, upload_ok, now).contains_key(other) == m.contains_key(other),
        m.contains_key(other) ==> settled(m, unit, dest, action, upload_ok, now)[other] == m[other],
{
}

} // verus!
