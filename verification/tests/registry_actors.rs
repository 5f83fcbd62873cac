use botrunner::actors::{time_to_die, ActorError, WorkerState, WorkerStatus};
use botrunner::registry::{next_id, KeyError, MasterActor, WorkerId, WorkerKey};
use botrunner::worker_info::{WorkerInfo, WorkerState as Activity};

fn register(m: &mut MasterActor<String>, addr: &str) -> (WorkerKey, WorkerId, u128) {
    let reg = m.begin_registration();
    m.add_worker(reg.uid, reg.id, addr.to_string());
    (reg.key, reg.id, reg.uid)
}

#[test]
fn next_id_counts_up() {
    let mut last = WorkerId(0);
    assert_eq!(next_id(&mut last), WorkerId(1));
    assert_eq!(next_id(&mut last), WorkerId(2));
    assert_eq!(last, WorkerId(2));
}

#[test]
fn registration_key_is_hyphenated_v4_uid() {
    let mut m: MasterActor<String> = MasterActor::new();
    let reg = m.begin_registration();
    assert_eq!(reg.id, WorkerId(1));
    let k = &reg.key.0;
    assert_eq!(k.len(), 36);
    for (i, c) in k.chars().enumerate() {
        if i == 8 || i == 13 || i == 18 || i == 23 {
            assert_eq!(c, '-');
        } else {
            assert!(c.is_ascii_hexdigit() && !c.is_ascii_uppercase());
        }
    }
    assert_eq!(k.chars().nth(14), Some('4'));
    assert_eq!(k.replace('-', ""), format!("{:032x}", reg.uid));
    assert!("89ab".contains(k.chars().nth(19).unwrap()));
    let other = m.begin_registration();
    assert_eq!(other.id, WorkerId(2));
    assert_ne!(other.uid, reg.uid);
}

#[test]
fn added_workers_are_found_by_uid_id_and_key() {
    let mut m: MasterActor<String> = MasterActor::new();
    let (k1, id1, uid1) = register(&mut m, "w1");
    let (k2, id2, uid2) = register(&mut m, "w2");
    assert_eq!(m.get_worker_addr_by_uid(uid1).map(|a| a.as_str()), Some("w1"));
    assert_eq!(m.get_worker_addr_by_uid(uid2).map(|a| a.as_str()), Some("w2"));
    assert_eq!(m.get_worker_addr_by_id(&id1).map(|a| a.as_str()), Some("w1"));
    assert_eq!(m.get_worker_addr_by_id(&id2).map(|a| a.as_str()), Some("w2"));
    assert_eq!(m.find_worker_by_key(&k2).ok().map(|a| a.as_str()), Some("w2"));
    assert_eq!(m.worker_addr_by_key(&k1), "w1");
    let upper = WorkerKey(k1.0.to_uppercase());
    assert_eq!(m.find_worker_by_key(&upper).ok().map(|a| a.as_str()), Some("w1"));
    assert!(m.get_worker_addr_by_uid(12345).is_none());
    assert!(m.get_worker_addr_by_id(&WorkerId(99)).is_none());
}

#[test]
fn key_errors() {
    let mut m: MasterActor<String> = MasterActor::new();
    register(&mut m, "w1");
    assert_eq!(
        m.find_worker_by_key(&WorkerKey("not a key".to_string())).err(),
        Some(KeyError::Malformed)
    );
    assert_eq!(
        m.find_worker_by_key(&WorkerKey("00000000-0000-0000-0000-000000000000".to_string()))
            .err(),
        Some(KeyError::UnknownWorker)
    );
}

#[test]
fn removed_worker_is_gone() {
    let mut m: MasterActor<String> = MasterActor::new();
    let (k1, id1, uid1) = register(&mut m, "w1");
    m.remove_worker(id1);
    assert!(m.get_worker_addr_by_id(&id1).is_none());
    assert!(m.get_worker_addr_by_uid(uid1).is_none());
    assert_eq!(m.find_worker_by_key(&k1).err(), Some(KeyError::UnknownWorker));
}

#[test]
fn removal_keeps_earlier_slots_and_strands_later_ones() {
    let mut m: MasterActor<String> = MasterActor::new();
    let (k1, _id1, uid1) = register(&mut m, "w1");
    let (_k2, id2, _uid2) = register(&mut m, "w2");
    let (k3, _id3, _uid3) = register(&mut m, "w3");
    m.remove_worker(id2);
    assert_eq!(m.get_worker_addr_by_uid(uid1).map(|a| a.as_str()), Some("w1"));
    assert_eq!(m.find_worker_by_key(&k1).ok().map(|a| a.as_str()), Some("w1"));
    assert_eq!(m.find_worker_by_key(&k3).err(), Some(KeyError::StaleReference));
}

#[test]
fn actor_errors() {
    assert_eq!(ActorError::Unauthorized.message(), "Unauthorized");
    assert_eq!(ActorError::InternalError.message(), "InternalError");
    assert_eq!(ActorError::Unauthorized.status_code(), 401);
    assert_eq!(ActorError::InternalError.status_code(), 500);
}

#[test]
fn die_timeout_boundary() {
    assert!(!time_to_die(0, 0));
    assert!(!time_to_die(59, 999_999_999));
    assert!(!time_to_die(60, 0));
    assert!(time_to_die(60, 1));
    assert!(time_to_die(61, 0));
}

#[test]
fn worker_state_lifecycle() {
    let mut w = WorkerState::new(WorkerId(7));
    assert_eq!(w.id, WorkerId(7));
    assert_eq!(w.status, WorkerStatus::Idle);
    assert!(!w.should_die());
    w.update();
    w.set_status(WorkerStatus::Idle);
    assert_eq!(w.id, WorkerId(7));
    assert!(!w.should_die());
}

#[test]
fn worker_info_starts_idle() {
    let w = WorkerInfo::new();
    assert_eq!(w.state, Activity::Idle);
}

#[test]
fn registry_precondition_tests() {
    let mut m: MasterActor<String> = MasterActor::new();
    assert!(m.can_allocate_id());
    assert!(m.can_add_worker());
    assert!(!m.is_removable(WorkerId(1)));
    let (_k, id, uid) = register(&mut m, "w");
    assert!(m.is_removable(id));
    assert!(m.uid_reference_in_bounds(uid));
    assert!(m.uid_reference_in_bounds(uid.wrapping_add(1)));
    m.remove_worker(id);
    assert!(!m.is_removable(id));
}

#[test]
fn key_forms_accepted_by_the_parser() {
    let mut m: MasterActor<String> = MasterActor::new();
    let (key, _id, uid) = register(&mut m, "w");
    let found = |k: String| m.find_worker_by_key(&WorkerKey(k)).ok().map(|a| a.clone());
    assert_eq!(found(format!("{:032x}", uid)), Some("w".to_string()));
    assert_eq!(found(format!("{:032X}", uid)), Some("w".to_string()));
    assert_eq!(found(format!("urn:uuid:{}", key.0)), Some("w".to_string()));
    assert_eq!(
        m.find_worker_by_key(&WorkerKey(format!("-{}", &key.0[1..]))).err(),
        Some(KeyError::Malformed)
    );
    assert_eq!(
        m.find_worker_by_key(&WorkerKey(format!("URN:uuid:{}", key.0))).err(),
        Some(KeyError::Malformed)
    );
    assert_eq!(
        m.find_worker_by_key(&WorkerKey(format!("{{{}}}", key.0))).err(),
        Some(KeyError::Malformed)
    );
}
