use hypershunt::privdrop::{
    drop_privileges, ids_from, plan_drop, prepare_state_dir, resolve_ids, DropStep, PrivError,
};
use nix::unistd::{getuid, Group, Uid, User};

/// The user that the test process runs as, or root where it runs as nobody that
/// the database knows.
fn current_user() -> User {
    let me = User::from_uid(getuid()).unwrap();
    me.or_else(|| User::from_uid(Uid::from_raw(0)).unwrap()).unwrap()
}

#[test]
fn drop_privileges_is_noop_when_not_root() {
    // Even a nonexistent user must succeed: the not-root check
    // comes before any lookup, making the call safe to issue
    // unconditionally on any deployment.
    assert_eq!(drop_privileges(false, "no-such-user-zz", None, false).unwrap(), vec![]);
}

#[test]
fn prepare_state_dir_is_noop_when_not_root() {
    // No-op means no side effects: nobody gets the directory.
    assert_eq!(prepare_state_dir(false, "no-such-user-zz", None), Ok(None));
}

#[test]
fn resolve_ids_finds_current_user_primary_gid() {
    let me = current_user();
    let (uid, gid) = resolve_ids(&me.name, None).unwrap();
    assert_eq!(uid, me.uid.as_raw());
    assert_eq!(gid, me.gid.as_raw(), "None group must fall back to primary");
}

#[test]
fn resolve_ids_honors_explicit_group() {
    let me = current_user();
    let group = Group::from_gid(me.gid).unwrap().unwrap();
    let (uid, gid) = resolve_ids(&me.name, Some(&group.name)).unwrap();
    assert_eq!(uid, me.uid.as_raw());
    assert_eq!(gid, group.gid.as_raw());
}

#[test]
fn resolve_ids_rejects_unknown_user() {
    let err = resolve_ids("no-such-user-zz", None).unwrap_err().message();
    assert!(err.contains("not found"), "got: {err}");
}

#[test]
fn resolve_ids_rejects_unknown_group() {
    let me = current_user();
    let err = resolve_ids(&me.name, Some("no-such-group-zz")).unwrap_err().message();
    assert!(err.contains("not found"), "got: {err}");
}

#[test]
fn unknown_names_stop_root() {
    assert_eq!(
        drop_privileges(true, "no-such-user-zz", None, false),
        Err(PrivError::UserNotFound)
    );
    assert_eq!(
        prepare_state_dir(true, "no-such-user-zz", Some("no-such-group-zz")),
        Err(PrivError::UserNotFound)
    );
}

#[test]
fn root_resolves_itself() {
    let me = current_user();
    let steps = drop_privileges(true, &me.name, None, false).unwrap();
    assert_eq!(steps, plan_drop(me.uid.as_raw(), me.gid.as_raw(), false));
    let who = prepare_state_dir(true, &me.name, None).unwrap();
    assert_eq!(who, Some((me.uid.as_raw(), me.gid.as_raw())));
}

#[test]
fn each_answer_of_the_databases_counts() {
    assert_eq!(ids_from(Err(()), None), Err(PrivError::UserLookup));
    assert_eq!(ids_from(Ok(None), None), Err(PrivError::UserNotFound));
    assert_eq!(ids_from(Ok(Some((5, 6))), None), Ok((5, 6)));
    assert_eq!(ids_from(Ok(Some((5, 6))), Some(Ok(Some(7)))), Ok((5, 7)));
    assert_eq!(ids_from(Ok(Some((5, 6))), Some(Ok(None))), Err(PrivError::GroupNotFound));
    assert_eq!(ids_from(Ok(Some((5, 6))), Some(Err(()))), Err(PrivError::GroupLookup));
}

#[test]
fn user_changes_last() {
    assert_eq!(
        plan_drop(1000, 100, false),
        vec![
            DropStep::SetGroups(100),
            DropStep::SetGid(100),
            DropStep::SetUid(1000),
            DropStep::TryRegain
        ]
    );
    assert_eq!(
        plan_drop(1000, 100, true),
        vec![DropStep::SetGid(100), DropStep::SetUid(1000), DropStep::TryRegain]
    );
}

#[test]
fn names_with_a_zero_character_are_in_no_database() {
    let me = current_user();
    assert_eq!(resolve_ids("ro\0ot", None), Err(PrivError::UserNotFound));
    assert_eq!(resolve_ids("\0", Some("\0")), Err(PrivError::UserNotFound));
    assert_eq!(resolve_ids(&me.name, Some("g\0")), Err(PrivError::GroupNotFound));
    assert!(matches!(drop_privileges(true, "u\0", None, false), Err(PrivError::UserNotFound)));
    assert_eq!(prepare_state_dir(true, "u\0", None), Err(PrivError::UserNotFound));
    assert_eq!(prepare_state_dir(false, "u\0", None), Ok(None));
}
