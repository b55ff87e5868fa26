use zen::user::{
    Collaborator, ContactRequestStatus, OrganizationId, Credentials, EditPredictionUsage, PeerId, ProjectId, ProtoCollaborator,
    ProtoUser, RequestUsage, UsageLimit, UserStore,
};

fn proto(id: u64, login: &str) -> ProtoUser {
    ProtoUser { id, github_login: login.to_string(), avatar_url: String::new(), name: None }
}

#[test]
fn inserted_users_are_found_and_the_last_wins() {
    let mut store = UserStore::new();
    let users = store.insert(vec![proto(1, "ada"), proto(2, "bob"), proto(1, "ada2")]);
    assert_eq!(users.len(), 3);
    assert_eq!(users[2].github_login, "ada2");
    assert_eq!(store.get_cached_user(1).unwrap().github_login, "ada2");
    assert_eq!(store.get_user(2).github_login, "bob");
    assert!(store.get_cached_user(3).is_none());
}

#[test]
fn unknown_users_get_a_placeholder() {
    let store = UserStore::new();
    let u = store.get_user(42);
    assert_eq!(u.id, 42);
    assert_eq!(u.github_login, "user-42");
    assert_eq!(u.avatar_uri, "");
    assert!(u.name.is_none());
}

#[test]
fn participant_names_cover_known_users() {
    let mut store = UserStore::new();
    store.insert(vec![proto(1, "ada"), proto(2, "bob")]);
    let names = store.participant_names(vec![2, 3]);
    assert_eq!(names.len(), 1);
    assert_eq!(names.get(&2).map(|s| s.as_str()), Some("bob"));
}

#[test]
fn nobody_is_signed_in() {
    let store = UserStore::new();
    assert!(store.current_user().is_none());
    let u = store.get_user(1);
    assert_eq!(store.contact_request_status(&u), ContactRequestStatus::NoRequest);
    assert!(!store.has_contact(&u));
    assert!(!store.has_incoming_contact_request(1));
    assert!(store.plan().is_none());
    assert!(store.edit_prediction_usage().is_none());
}

#[test]
fn usage_limits() {
    assert!(RequestUsage { limit: UsageLimit::Limited(5), amount: 5 }.over_limit());
    assert!(!RequestUsage { limit: UsageLimit::Limited(5), amount: 4 }.over_limit());
    assert!(!RequestUsage { limit: UsageLimit::Unlimited, amount: 1000 }.over_limit());
    let usage = EditPredictionUsage::from_headers();
    assert_eq!(usage.usage().limit, UsageLimit::Unlimited);
    assert_eq!(usage.usage().amount, 0);
}

#[test]
fn wire_values_convert() {
    assert_eq!(ProjectId(9).to_proto(), 9);
    let c = Collaborator::from_proto(ProtoCollaborator {
        peer_id: None,
        replica_id: 0x1_0005,
        user_id: 3,
        is_host: true,
        committer_name: None,
        committer_email: Some("a@b.c".to_string()),
    });
    assert_eq!(c.peer_id, PeerId { owner_id: 0, id: 0 });
    assert_eq!(c.replica_id.0, 5);
    assert_eq!(c.user_id, 3);
    assert!(c.is_host);
    let creds = Credentials { user_id: 17, access_token: "tok".to_string() };
    assert_eq!(creds.authorization_header(), "17 tok");
}

#[test]
fn store_stubs_answer_nothing() {
    let mut store = UserStore::new();
    assert!(store.incoming_contact_requests().is_empty());
    assert!(store.outgoing_contact_requests().is_empty());
    assert!(store.cached_user_by_github_login("octocat").is_none());
    assert!(store.plan_for_organization(&OrganizationId::empty()).is_none());
    assert!(store.subscription_period().is_none());
    assert!(store.trial_started_at().is_none());
    assert!(!store.account_too_young());
    assert!(!store.has_overdue_invoices());
    assert!(store.get_user_optimistic(3).is_none());
    store.clear_cache();
    store.clear_organizations();
    store.clear_plan_and_usage();
    assert!(store.current_user().is_none());
}
