use mc_receptionist::receptionist::{
    decide_join, get_public_ip, get_transfer, should_launch, InstanceInfo, InstanceState,
    JoinDecision,
};

fn instance(state: Option<InstanceState>, ips: Vec<Option<&str>>) -> InstanceInfo {
    InstanceInfo {
        instance_id: Some("i-0abc".to_string()),
        state,
        public_ips: ips.into_iter().map(|i| i.map(|s| s.to_string())).collect(),
    }
}

#[test]
fn first_public_ip() {
    let i = instance(Some(InstanceState::Running), vec![None, Some("203.0.113.5"), Some("198.51.100.1")]);
    assert_eq!(get_public_ip(&i), Some("203.0.113.5".to_string()));
    assert_eq!(get_public_ip(&instance(None, vec![None])), None);
    assert_eq!(get_public_ip(&instance(None, vec![])), None);
}

#[test]
fn transfer_only_when_running() {
    let running = instance(Some(InstanceState::Running), vec![Some("203.0.113.5")]);
    let t = get_transfer(&running, 25565).unwrap();
    assert_eq!(t.hostname, "203.0.113.5");
    assert_eq!(t.port, 25565);
    let stopped = instance(Some(InstanceState::Stopped), vec![Some("203.0.113.5")]);
    assert!(get_transfer(&stopped, 25565).is_none());
    let no_ip = instance(Some(InstanceState::Running), vec![None]);
    assert!(get_transfer(&no_ip, 25565).is_none());
}

#[test]
fn launch_only_when_stopped() {
    assert!(should_launch(&instance(Some(InstanceState::Stopped), vec![])));
    assert!(!should_launch(&instance(Some(InstanceState::Pending), vec![])));
    assert!(!should_launch(&instance(None, vec![])));
}

#[test]
fn join_decisions() {
    match decide_join(&instance(Some(InstanceState::Running), vec![Some("10.0.0.1")]), 7) {
        JoinDecision::Transfer(t) => assert_eq!((t.hostname.as_str(), t.port), ("10.0.0.1", 7)),
        other => panic!("unexpected {:?}", other),
    }
    match decide_join(&instance(Some(InstanceState::Stopped), vec![]), 7) {
        JoinDecision::Launch(id) => assert_eq!(id, "i-0abc"),
        other => panic!("unexpected {:?}", other),
    }
    assert!(matches!(decide_join(&instance(Some(InstanceState::Stopping), vec![]), 7), JoinDecision::Wait));
    let mut no_id = instance(Some(InstanceState::Stopped), vec![]);
    no_id.instance_id = None;
    assert!(matches!(decide_join(&no_id, 7), JoinDecision::Wait));
}
