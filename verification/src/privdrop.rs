//! Giving up root: who to become, and in which order.
use vstd::prelude::*;

verus! {

/// Why there is nobody to become.
#[derive(Clone, Copy, Debug, PartialEq, Eq, Structural)]
pub enum PrivError {
    /// The user database could not be read.
    UserLookup,
    UserNotFound,
    /// The group database could not be read.
    GroupLookup,
    GroupNotFound,
}

impl PrivError {
    /// The error in words.
    pub open spec fn text(self) -> Seq<char> {
        match self {
            PrivError::UserLookup => "looking up user"@,
            PrivError::UserNotFound => "user not found"@,
            PrivError::GroupLookup => "looking up group"@,
            PrivError::GroupNotFound => "group not found"@,
        }
    }

    /// The error in words.
    pub fn message(self) -> (r: &'static str)
        ensures
            r@ == self.text(),
    {
        match self {
            PrivError::UserLookup => "looking up user",
            PrivError::UserNotFound => "user not found",
            PrivError::GroupLookup => "looking up group",
            PrivError::GroupNotFound => "group not found",
        }
    }
}

/// A name that no database can hold: it has a zero character in it.
pub open spec fn is_unlisted(name: Seq<char>) -> bool {
    name.contains('\0')
}

/// `nix::unistd::User::from_name`: the user and group number of a user in the
/// system's database. A name with a zero character is in none, without a look.
/// Nothing else is claimed of what the database holds.
#[verifier::external_body]
fn user_by_name(name: &str) -> (r: Result<Option<(u32, u32)>, ()>)
    ensures
        match r {
            Ok(found) => is_unlisted(name@) ==> found is None,
            Err(_) => !is_unlisted(name@),
        },
{
    match nix::unistd::User::from_name(name) {
        Ok(found) => Ok(found.map(|u| (u.uid.as_raw(), u.gid.as_raw()))),
        Err(_) => Err(()),
    }
}

/// `nix::unistd::Group::from_name`: the number of a group in the system's
/// database. A name with a zero character is in none, without a look. Nothing else is
/// claimed of what the database holds.
#[verifier::external_body]
fn group_by_name(name: &str) -> (r: Result<Option<u32>, ()>)
    ensures
        match r {
            Ok(found) => is_unlisted(name@) ==> found is None,
            Err(_) => !is_unlisted(name@),
        },
{
    match nix::unistd::Group::from_name(name) {
        Ok(found) => Ok(found.map(|g| g.gid.as_raw())),
        Err(_) => Err(()),
    }
}

/// The numbers of the user and group to become, given what the databases say: a
/// group that is named, and else the group of the user.
pub open spec fn ids(
    user: Result<Option<(u32, u32)>, ()>,
    group: Option<Result<Option<u32>, ()>>,
) -> Result<(u32, u32), PrivError> {
    match user {
        Err(_) => Err(PrivError::UserLookup),
        Ok(None) => Err(PrivError::UserNotFound),
        Ok(Some((uid, gid))) => match group {
            None => Ok((uid, gid)),
            Some(Err(_)) => Err(PrivError::GroupLookup),
            Some(Ok(None)) => Err(PrivError::GroupNotFound),
            Some(Ok(Some(g))) => Ok((uid, g)),
        },
    }
}

/// The numbers of the user and group to become, given what the databases say.
pub fn ids_from(user: Result<Option<(u32, u32)>, ()>, group: Option<Result<Option<u32>, ()>>) -> (r:
    Result<(u32, u32), PrivError>)
    ensures
        r == ids(user, group),
{
    match user {
        Err(_) => Err(PrivError::UserLookup),
        Ok(None) => Err(PrivError::UserNotFound),
        Ok(Some((uid, gid))) => match group {
            None => Ok((uid, gid)),
            Some(Err(_)) => Err(PrivError::GroupLookup),
            Some(Ok(None)) => Err(PrivError::GroupNotFound),
            Some(Ok(Some(g))) => Ok((uid, g)),
        },
    }
}

/// The numbers of the user and group to become, where a group is named or not.
pub open spec fn ids_for(
    user: Result<Option<(u32, u32)>, ()>,
    group: Result<Option<u32>, ()>,
    named: bool,
) -> Result<(u32, u32), PrivError> {
    ids(
        user,
        if named {
            Some(group)
        } else {
            None
        },
    )
}

/// What the databases may say of a user and of a group, where one is named.
pub open spec fn may_say(
    name: Seq<char>,
    group: Option<&str>,
    user: Result<Option<(u32, u32)>, ()>,
    found: Result<Option<u32>, ()>,
) -> bool {
    &&& is_unlisted(name) ==> user == Ok::<Option<(u32, u32)>, ()>(None)
    &&& match group {
        Some(g) => is_unlisted(g@) ==> found == Ok::<Option<u32>, ()>(None),
        None => true,
    }
}

/// The numbers of a user and a group in the system's databases. Without a group
/// it is the user's own.
pub fn resolve_ids(user: &str, group: Option<&str>) -> (r: Result<(u32, u32), PrivError>)
    ensures
        exists|u: Result<Option<(u32, u32)>, ()>, g: Result<Option<u32>, ()>|
            may_say(user@, group, u, g) && r == #[trigger] ids_for(u, g, group is Some),
        is_unlisted(user@) ==> r == Err::<(u32, u32), PrivError>(PrivError::UserNotFound),
        match group {
            Some(g) => is_unlisted(g@) ==> r is Err && r != Err::<(u32, u32), PrivError>(
                PrivError::GroupLookup,
            ),
            None => true,
        },
{
    let u = user_by_name(user);
    match group {
        None => {
            let none: Option<Result<Option<u32>, ()>> = None;
            let ghost any: Result<Option<u32>, ()> = Err(());
            assert(may_say(user@, group, u, any));
            assert(ids_for(u, any, group is Some) == ids(u, none));
            ids_from(u, none)
        },
        Some(name) => {
            let g = group_by_name(name);
            assert(may_say(user@, group, u, g));
            assert(ids_for(u, g, group is Some) == ids(u, Some(g)));
            ids_from(u, Some(g))
        },
    }
}

/// One step of giving up root.
#[derive(Clone, Copy, Debug, PartialEq, Eq, Structural)]
pub enum DropStep {
    /// Be in this group only.
    SetGroups(u32),
    SetGid(u32),
    SetUid(u32),
    /// Try to become root again, which must fail.
    TryRegain,
}

/// The steps of giving up root. The user comes last, since nothing can be
/// changed behind that, and then it is tried out.
pub open spec fn drop_steps(uid: u32, gid: u32, inherit_groups: bool) -> Seq<DropStep> {
    (if inherit_groups {
        Seq::empty()
    } else {
        seq![DropStep::SetGroups(gid)]
    }) + seq![DropStep::SetGid(gid), DropStep::SetUid(uid), DropStep::TryRegain]
}

/// The steps of giving up root for a user and a group by number.
pub fn plan_drop(uid: u32, gid: u32, inherit_groups: bool) -> (r: Vec<DropStep>)
    ensures
        r@ == drop_steps(uid, gid, inherit_groups),
{
    let mut out: Vec<DropStep> = Vec::new();
    if !inherit_groups {
        out.push(DropStep::SetGroups(gid));
    }
    out.push(DropStep::SetGid(gid));
    out.push(DropStep::SetUid(uid));
    out.push(DropStep::TryRegain);
    assert(out@ =~= drop_steps(uid, gid, inherit_groups));
    out
}

/// The steps of giving up root for a user and a group by name. Whoever is not
/// root has nothing to give up, whatever the names are.
pub fn drop_privileges(
    is_root: bool,
    user: &str,
    group: Option<&str>,
    inherit_groups: bool,
) -> (r: Result<Vec<DropStep>, PrivError>)
    ensures
        !is_root ==> (r matches Ok(v) && v@ == Seq::<DropStep>::empty()),
        is_root ==> exists|u: Result<Option<(u32, u32)>, ()>, g: Result<Option<u32>, ()>|
            may_say(user@, group, u, g) && match #[trigger] ids_for(u, g, group is Some) {
                Ok((uid, gid)) => r matches Ok(v) && v@ == drop_steps(uid, gid, inherit_groups),
                Err(e) => r matches Err(x) && x == e,
            },
        is_root && is_unlisted(user@) ==> (r matches Err(e) && e is UserNotFound),
        match group {
            Some(g) => is_root && is_unlisted(g@) ==> (r matches Err(e) && !(e is GroupLookup)),
            None => true,
        },
{
    if !is_root {
        return Ok(Vec::new());
    }
    match resolve_ids(user, group) {
        Ok((uid, gid)) => Ok(plan_drop(uid, gid, inherit_groups)),
        Err(e) => Err(e),
    }
}

/// Who the state directory is to belong to: nobody in particular where the
/// process is not root.
pub fn prepare_state_dir(is_root: bool, user: &str, group: Option<&str>) -> (r: Result<
    Option<(u32, u32)>,
    PrivError,
>)
    ensures
        !is_root ==> r == Ok::<Option<(u32, u32)>, PrivError>(None),
        is_root ==> exists|u: Result<Option<(u32, u32)>, ()>, g: Result<Option<u32>, ()>|
            may_say(user@, group, u, g) && match #[trigger] ids_for(u, g, group is Some) {
                Ok(who) => r == Ok::<Option<(u32, u32)>, PrivError>(Some(who)),
                Err(e) => r == Err::<Option<(u32, u32)>, PrivError>(e),
            },
        is_root && is_unlisted(user@) ==> r == Err::<Option<(u32, u32)>, PrivError>(
            PrivError::UserNotFound,
        ),
        match group {
            Some(g) => is_root && is_unlisted(g@) ==> (r matches Err(e) && !(e is GroupLookup)),
            None => true,
        },
{
    if !is_root {
        return Ok(None);
    }
    match resolve_ids(user, group) {
        Ok(who) => Ok(Some(who)),
        Err(e) => Err(e),
    }
}

/// The user is changed behind everything that only root can change, and whether
/// root can come back is tried last.
pub proof fn law_user_changes_last(uid: u32, gid: u32, inherit_groups: bool, i: int, j: int)
    requires
        0 <= i < drop_steps(uid, gid, inherit_groups).len(),
        0 <= j < drop_steps(uid, gid, inherit_groups).len(),
        drop_steps(uid, gid, inherit_groups)[j] is SetUid,
    ensures
        drop_steps(uid, gid, inherit_groups)[i] is SetGroups ==> i < j,
        drop_steps(uid, gid, inherit_groups)[i] is SetGid ==> i < j,
        drop_steps(uid, gid, inherit_groups)[i] is TryRegain ==> i > j,
{
}

/// Who the process becomes: the user, in the named group or else in the user's own. What is
/// wrong with the user is told before what is wrong with the group.
pub proof fn law_who_the_process_becomes(
    uid: u32,
    own: u32,
    gid: u32,
    user: Result<Option<(u32, u32)>, ()>,
    group: Result<Option<u32>, ()>,
    named: bool,
)
    ensures
        ids_for(Err(()), group, named) == Err::<(u32, u32), _>(PrivError::UserLookup),
        ids_for(Ok(None), group, named) == Err::<(u32, u32), _>(PrivError::UserNotFound),
        ids_for(Ok(Some((uid, own))), group, false) == Ok::<_, PrivError>((uid, own)),
        ids_for(Ok(Some((uid, own))), Err(()), true) == Err::<(u32, u32), _>(
            PrivError::GroupLookup,
        ),
        ids_for(Ok(Some((uid, own))), Ok(None), true) == Err::<(u32, u32), _>(
            PrivError::GroupNotFound,
        ),
        ids_for(Ok(Some((uid, own))), Ok(Some(gid)), true) == Ok::<_, PrivError>((uid, gid)),
        ids(user, None) == ids_for(user, group, false),
        ids(user, Some(group)) == ids_for(user, group, true),
{
}

/// The steps that give privileges up, in order: the group is the only one unless groups are
/// kept.
pub proof fn law_steps_of_a_drop(uid: u32, gid: u32)
    ensures
        drop_steps(uid, gid, true) == seq![
            DropStep::SetGid(gid),
            DropStep::SetUid(uid),
            DropStep::TryRegain,
        ],
        drop_steps(uid, gid, false) == seq![
            DropStep::SetGroups(gid),
            DropStep::SetGid(gid),
            DropStep::SetUid(uid),
            DropStep::TryRegain,
        ],
{
}

/// No user or group has a name with a zero character in it.
pub proof fn law_unlisted_names(name: Seq<char>)
    ensures
        is_unlisted(name) <==> exists|i: int| 0 <= i < name.len() && #[trigger] name[i] as int == 0,
{
}

} // verus!
