use bellhop::auth::Dummy;
use bellhop::hooks::{hook_step, Error, ErrorKind, Hook, HookPoint};
use bellhop::Bellhop;
use bellhop::models::{find_jenkins_hook, JenkinsHook};

#[test]
fn hook_point_codes_round_trip() {
    for code in 0..3i16 {
        assert_eq!(HookPoint::from_code(code).code(), code);
    }
    assert_eq!(HookPoint::Leased.code(), 0);
    assert_eq!(HookPoint::Returned.code(), 1);
    assert_eq!(HookPoint::Evicted.code(), 2);
    assert_eq!(HookPoint::Warned.code(), 3);
}

#[test]
fn hook_point_names() {
    assert_eq!(HookPoint::Leased.name(), "leased");
    assert_eq!(HookPoint::Returned.name(), "returned");
    assert_eq!(HookPoint::Evicted.name(), "evicted");
    assert_eq!(HookPoint::Warned.name(), "warned");
}

#[test]
fn error_kind_message() {
    match ErrorKind::msg("unable to parse") {
        ErrorKind::Msg(m) => assert_eq!(m, "unable to parse"),
    }
}

fn jenkins(id: i32, asset_type_id: i32, hook_at: i16) -> JenkinsHook {
    JenkinsHook {
        id,
        asset_type_id,
        hook_at,
        username: "ci".to_string(),
        token: "SECRET-REDACTED".to_string(),
        url: format!("http://ci.example.com/job/{}", id),
    }
}

#[test]
fn jenkins_hook_lookup() {
    let hooks = vec![jenkins(1, 5, 0), jenkins(2, 5, 2), jenkins(3, 6, 2), jenkins(4, 5, 2)];
    assert_eq!(find_jenkins_hook(&hooks, 5, HookPoint::Evicted.code()), Some(1));
    assert_eq!(find_jenkins_hook(&hooks, 6, 2), Some(2));
    assert_eq!(find_jenkins_hook(&hooks, 6, 1), None);
    let h = &hooks[1];
    assert_eq!(h.hook_at(), HookPoint::Evicted);
    assert_eq!(h.asset_type_id(), 5);
    assert_eq!(h.username(), "ci");
    assert_eq!(h.token(), "SECRET-REDACTED");
    assert_eq!(h.url(), "http://ci.example.com/job/2");
}

#[derive(Debug, PartialEq)]
struct Quiet(u8);

impl Hook for Quiet {}

#[test]
fn plugin_registry_keeps_order() {
    let b: Bellhop<Quiet, Dummy> = Bellhop::new().hook(Quiet(1)).hook(Quiet(2)).auth(Dummy);
    assert_eq!(b.hooks.hooks, vec![Quiet(1), Quiet(2)]);
    assert_eq!(b.hooks.len(), 2);
    assert_eq!(b.auths.auths.len(), 1);
}

#[test]
fn hook_step_outcomes() {
    assert!(hook_step(0, Ok(())).is_none());
    let failure = hook_step(3, Err(Error::with_msg("down"))).unwrap();
    assert_eq!(failure.hook_index, 3);
    match failure.error.kind {
        ErrorKind::Msg(m) => assert_eq!(m, "down"),
    }
}
