//! Users, the cache of known users, participants, plans and usage limits.
use std::collections::HashMap;
use vstd::prelude::*;

use crate::text::{append_chars, chars_to_string, decimal, push_decimal, to_chars};

verus! {

broadcast use vstd::std_specs::hash::group_hash_axioms;

/// The id of a user.
pub type UserId = u64;

/// The id of a channel.
#[derive(Clone, Copy, PartialEq, Eq, Structural, Debug, Hash, PartialOrd, Ord)]
pub struct ChannelId(pub u64);

/// The id of a shared project.
#[derive(Clone, Copy, PartialEq, Eq, Structural, Debug, Hash, PartialOrd, Ord)]
pub struct ProjectId(pub u64);

impl ProjectId {
    /// The id as sent over the wire.
    pub fn to_proto(self) -> (r: u64)
        ensures
            r == self.0,
    {
        self.0
    }
}

/// The index of a participant in a call, which picks its color.
#[derive(Clone, Copy, PartialEq, Eq, Structural, Debug)]
pub struct ParticipantIndex(pub u32);

/// A user.
pub struct User {
    /// The user's id.
    pub id: UserId,
    /// The user's login.
    pub github_login: String,
    /// The address of the user's avatar.
    pub avatar_uri: String,
    /// The user's name, if known.
    pub name: Option<String>,
}

impl User {
    /// A copy of the user.
    pub fn duplicate(&self) -> (r: User)
        ensures
            r == *self,
    {
        User {
            id: self.id,
            github_login: self.github_login.clone(),
            avatar_uri: self.avatar_uri.clone(),
            name: match &self.name {
                Some(n) => Some(n.clone()),
                None => None,
            },
        }
    }

    /// Whether two users are the same: same id and same login.
    pub fn same_user(&self, other: &User) -> (r: bool)
        ensures
            r == (self.id == other.id && self.github_login@ == other.github_login@),
    {
        self.id == other.id && crate::text::str_eq(
            self.github_login.as_str(),
            other.github_login.as_str(),
        )
    }
}

/// A user as it arrives over the wire.
pub struct ProtoUser {
    /// The user's id.
    pub id: u64,
    /// The user's login.
    pub github_login: String,
    /// The address of the user's avatar.
    pub avatar_url: String,
    /// The user's name, if known.
    pub name: Option<String>,
}

/// The user a wire message describes.
pub open spec fn user_from_proto(m: ProtoUser) -> User {
    User { id: m.id, github_login: m.github_login, avatar_uri: m.avatar_url, name: m.name }
}

/// The state of a contact request.
#[derive(Clone, Copy, PartialEq, Eq, Structural, Debug)]
pub enum ContactRequestStatus {
    /// No request.
    NoRequest,
    /// A request was sent.
    RequestSent,
    /// A request was received.
    RequestReceived,
    /// A request was accepted.
    RequestAccepted,
}

/// What happened to a contact.
#[derive(Clone, Copy, PartialEq, Eq, Structural, Debug)]
pub enum ContactEventKind {
    /// A contact was requested.
    Requested,
    /// A request was accepted.
    Accepted,
    /// A request was cancelled.
    Cancelled,
}

/// An invitation.
pub struct InviteInfo {
    /// The number of invitations left.
    pub count: u32,
    /// The invitation address.
    pub url: String,
}

/// The id of an organization.
pub struct OrganizationId(pub String);

impl OrganizationId {
    /// The empty id.
    pub fn empty() -> (r: OrganizationId)
        ensures
            r.0@.len() == 0,
    {
        OrganizationId(String::new())
    }
}

/// A billing plan.
#[derive(Clone, Copy, PartialEq, Eq, Structural, Debug)]
pub enum Plan {
    /// The free plan.
    Free,
}

/// Information about a plan.
#[derive(Clone, Copy, PartialEq, Eq, Structural, Debug)]
pub struct PlanInfo {
    /// The plan.
    pub plan: Plan,
}

/// Whether edit predictions are enabled for an organization.
#[derive(Clone, Copy, PartialEq, Eq, Structural, Debug)]
pub struct OrganizationEditPredictionConfiguration {
    /// Whether edit predictions are enabled.
    pub is_enabled: bool,
}

impl OrganizationEditPredictionConfiguration {
    /// Edit predictions disabled.
    pub fn disabled() -> (r: Self)
        ensures
            !r.is_enabled,
    {
        OrganizationEditPredictionConfiguration { is_enabled: false }
    }
}

/// The configuration of an organization.
#[derive(Clone, Copy, PartialEq, Eq, Structural, Debug)]
pub struct OrganizationConfiguration {
    /// Edit predictions.
    pub edit_prediction: OrganizationEditPredictionConfiguration,
}

/// A limit on the number of requests.
#[derive(Clone, Copy, PartialEq, Eq, Structural, Debug)]
pub enum UsageLimit {
    /// At most this many.
    Limited(i32),
    /// No limit.
    Unlimited,
}

/// How many requests were made, and the limit.
#[derive(Clone, Copy, PartialEq, Eq, Structural, Debug)]
pub struct RequestUsage {
    /// The limit.
    pub limit: UsageLimit,
    /// The number of requests made.
    pub amount: i32,
}

impl RequestUsage {
    /// Whether the limit has been reached.
    pub fn over_limit(&self) -> (r: bool)
        ensures
            r == match self.limit {
                UsageLimit::Limited(limit) => self.amount >= limit,
                UsageLimit::Unlimited => false,
            },
    {
        match self.limit {
            UsageLimit::Limited(limit) => self.amount >= limit,
            UsageLimit::Unlimited => false,
        }
    }
}

/// The usage of edit predictions.
#[derive(Clone, Copy, PartialEq, Eq, Structural, Debug)]
pub struct EditPredictionUsage(pub RequestUsage);

impl EditPredictionUsage {
    /// The usage reported by a response: unlimited, none used.
    pub fn from_headers() -> (r: Self)
        ensures
            r.0.limit == UsageLimit::Unlimited,
            r.0.amount == 0,
    {
        EditPredictionUsage(RequestUsage { limit: UsageLimit::Unlimited, amount: 0 })
    }

    /// The underlying request usage.
    pub fn usage(&self) -> (r: &RequestUsage)
        ensures
            *r == self.0,
    {
        &self.0
    }
}

/// The login given to a user the cache does not know: `user-` and the id.
pub open spec fn placeholder_login(id: u64) -> Seq<char> {
    seq!['u', 's', 'e', 'r', '-'] + decimal(id as nat)
}

/// The cache after inserting the users of `msgs`, in order.
pub open spec fn users_after_insert(m: Map<u64, User>, msgs: Seq<ProtoUser>) -> Map<u64, User>
    decreases msgs.len(),
{
    if msgs.len() == 0 {
        m
    } else {
        users_after_insert(m, msgs.drop_last()).insert(
            msgs.last().id,
            user_from_proto(msgs.last()),
        )
    }
}

/// The map that collecting `pairs` builds: a later pair for a key wins.
pub open spec fn map_of_pairs<V>(pairs: Seq<(u64, V)>) -> Map<u64, V>
    decreases pairs.len(),
{
    if pairs.len() == 0 {
        Map::empty()
    } else {
        map_of_pairs(pairs.drop_last()).insert(pairs.last().0, pairs.last().1)
    }
}

/// The cache of known users, and the participants of the current call.
pub struct UserStore {
    users: HashMap<u64, User>,
    participant_indices: HashMap<u64, ParticipantIndex>,
    current_user: Option<User>,
}

impl UserStore {
    /// The known users, by id.
    pub closed spec fn spec_users(&self) -> Map<u64, User> {
        self.users@
    }

    /// The participants' indices, by user id.
    pub closed spec fn spec_participants(&self) -> Map<u64, ParticipantIndex> {
        self.participant_indices@
    }

    /// The signed-in user.
    pub closed spec fn spec_current_user(&self) -> Option<User> {
        self.current_user
    }

    /// An empty cache, with no one signed in.
    pub fn new() -> (r: Self)
        ensures
            r.spec_users() == Map::<u64, User>::empty(),
            r.spec_participants() == Map::<u64, ParticipantIndex>::empty(),
            r.spec_current_user() is None,
    {
        UserStore { users: HashMap::new(), participant_indices: HashMap::new(), current_user: None }
    }

    /// The user with id `user_id`, if the cache knows it.
    pub fn get_cached_user(&self, user_id: u64) -> (r: Option<User>)
        ensures
            self.spec_users().contains_key(user_id) ==> r == Some(self.spec_users()[user_id]),
            !self.spec_users().contains_key(user_id) ==> r is None,
    {
        match self.users.get(&user_id) {
            Some(u) => Some(u.duplicate()),
            None => None,
        }
    }

    /// The user with id `user_id`, as the cache knows it; otherwise a user
    /// with that id, the login `user-<id>`, no avatar and no name.
    pub fn get_user(&self, user_id: u64) -> (r: User)
        ensures
            self.spec_users().contains_key(user_id) ==> r == self.spec_users()[user_id],
            !self.spec_users().contains_key(user_id) ==> r.id == user_id
                && r.github_login@ == placeholder_login(user_id) && r.avatar_uri@.len() == 0
                && r.name is None,
    {
        match self.get_cached_user(user_id) {
            Some(u) => u,
            None => {
                let mut login = vec!['u', 's', 'e', 'r', '-'];
                push_decimal(user_id, &mut login);
                User {
                    id: user_id,
                    github_login: chars_to_string(&login),
                    avatar_uri: String::new(),
                    name: None,
                }
            },
        }
    }

    /// Adds the users of `users` to the cache, a later one replacing an
    /// earlier one with the same id, and returns them in order.
    pub fn insert(&mut self, users: Vec<ProtoUser>) -> (r: Vec<User>)
        ensures
            final(self).spec_users() == users_after_insert(old(self).spec_users(), users@),
            final(self).spec_participants() == old(self).spec_participants(),
            final(self).spec_current_user() == old(self).spec_current_user(),
            r@.len() == users@.len(),
            forall|i: int| 0 <= i < r@.len() ==> #[trigger] r@[i] == user_from_proto(users@[i]),
    {
        let ghost msgs = users@;
        let ghost start = self.users@;
        let mut out: Vec<User> = Vec::new();
        let mut users = users;
        let mut taken: Vec<ProtoUser> = Vec::new();
        // Reverse so that popping yields the users in order.
        while users.len() > 0
            invariant
                taken@ + users@.reverse() == msgs.reverse(),
            decreases users.len(),
        {
            let ghost before_users = users@;
            let ghost before_taken = taken@;
            let m = users.pop().unwrap();
            taken.push(m);
            assert(taken@ + users@.reverse() =~= before_taken + before_users.reverse());
        }
        assert(taken@ =~= msgs.reverse());
        let ghost rev = taken@;
        let mut i: usize = 0;
        let n = taken.len();
        while taken.len() > 0
            invariant
                n == msgs.len(),
                i + taken@.len() == n,
                taken@ == rev.take(n - i),
                rev == msgs.reverse(),
                self.users@ == users_after_insert(start, msgs.take(i as int)),
                self.participant_indices@ == old(self).participant_indices@,
                self.current_user == old(self).current_user,
                start == old(self).users@,
                out@.len() == i,
                forall|k: int| 0 <= k < i ==> #[trigger] out@[k] == user_from_proto(msgs[k]),
            decreases taken.len(),
        {
            let m = taken.pop().unwrap();
            assert(m == msgs[i as int]) by {
                assert(rev[n - i - 1] == msgs[n - 1 - (n - i - 1)]);
            }
            let user = User {
                id: m.id,
                github_login: m.github_login,
                avatar_uri: m.avatar_url,
                name: m.name,
            };
            self.users.insert(user.id, user.duplicate());
            assert(msgs.take(i + 1).drop_last() =~= msgs.take(i as int));
            out.push(user);
            i = i + 1;
            assert(taken@ =~= rev.take(n - i));
        }
        assert(msgs.take(n as int) =~= msgs);
        out
    }

    /// Replaces the participants' indices by those of `pairs`, a later pair
    /// for a user replacing an earlier one.
    pub fn set_participant_indices(&mut self, pairs: Vec<(u64, ParticipantIndex)>)
        ensures
            final(self).spec_participants() == map_of_pairs(pairs@),
            final(self).spec_users() == old(self).spec_users(),
            final(self).spec_current_user() == old(self).spec_current_user(),
    {
        let mut m: HashMap<u64, ParticipantIndex> = HashMap::new();
        let mut i: usize = 0;
        while i < pairs.len()
            invariant
                i <= pairs@.len(),
                m@ == map_of_pairs(pairs@.take(i as int)),
            decreases pairs.len() - i,
        {
            let (k, v) = pairs[i];
            m.insert(k, v);
            assert(pairs@.take(i + 1).drop_last() =~= pairs@.take(i as int));
            i = i + 1;
        }
        assert(pairs@.take(pairs@.len() as int) =~= pairs@);
        self.participant_indices = m;
    }

    /// The participants' indices, by user id.
    pub fn participant_indices(&self) -> (r: &HashMap<u64, ParticipantIndex>)
        ensures
            r@ == self.spec_participants(),
    {
        &self.participant_indices
    }

    /// The logins of the participants among `participant_ids` that the cache knows.
    pub fn participant_names(&self, participant_ids: Vec<u64>) -> (r: HashMap<u64, String>)
        ensures
            forall|id: u64|
                #![trigger r@.contains_key(id)]
                r@.contains_key(id) == (participant_ids@.contains(id) && self.spec_users().contains_key(id)),
            forall|id: u64|
                #![trigger r@[id]]
                r@.contains_key(id) ==> r@[id] == self.spec_users()[id].github_login,
    {
        let mut out: HashMap<u64, String> = HashMap::new();
        let mut i: usize = 0;
        while i < participant_ids.len()
            invariant
                i <= participant_ids@.len(),
                forall|id: u64|
                    #![trigger out@.contains_key(id)]
                    out@.contains_key(id) == (participant_ids@.take(i as int).contains(id)
                        && self.users@.contains_key(id)),
                forall|id: u64|
                    #![trigger out@[id]]
                    out@.contains_key(id) ==> out@[id] == self.users@[id].github_login,
            decreases participant_ids.len() - i,
        {
            let id = participant_ids[i];
            let ghost before = participant_ids@.take(i as int);
            assert(participant_ids@.take(i + 1) =~= before.push(id));
            match self.users.get(&id) {
                Some(u) => {
                    out.insert(id, u.github_login.clone());
                },
                None => {},
            }
            assert forall|x: u64| x != id implies before.push(id).contains(x) == before.contains(x) by {
                if before.contains(x) {
                    let k = choose|k: int| 0 <= k < before.len() && before[k] == x;
                    assert(before.push(id)[k] == x);
                }
                if before.push(id).contains(x) {
                    let k = choose|k: int| 0 <= k < before.len() + 1 && before.push(id)[k] == x;
                    assert(before[k] == x);
                }
            }
            assert(before.push(id)[before.len() as int] == id);
            i = i + 1;
        }
        assert(participant_ids@.take(participant_ids@.len() as int) =~= participant_ids@);
        out
    }

    /// The signed-in user: nobody, as this build never signs in.
    pub fn current_user(&self) -> (r: Option<User>)
        ensures
            r == self.spec_current_user(),
    {
        match &self.current_user {
            Some(u) => Some(u.duplicate()),
            None => None,
        }
    }

    /// The state of a contact request with `user`: none, as contacts are unavailable.
    pub fn contact_request_status(&self, user: &User) -> (r: ContactRequestStatus)
        ensures
            r == ContactRequestStatus::NoRequest,
    {
        ContactRequestStatus::NoRequest
    }

    /// Whether `user` is a contact: no, as contacts are unavailable.
    pub fn has_contact(&self, user: &User) -> (r: bool)
        ensures
            !r,
    {
        false
    }

    /// Whether a request from `user_id` is pending: no, as contacts are unavailable.
    pub fn has_incoming_contact_request(&self, user_id: u64) -> (r: bool)
        ensures
            !r,
    {
        false
    }

    /// The plan of the signed-in user: none.
    pub fn plan(&self) -> (r: Option<Plan>)
        ensures
            r is None,
    {
        None
    }

    /// The edit-prediction usage of the signed-in user: none.
    pub fn edit_prediction_usage(&self) -> (r: Option<EditPredictionUsage>)
        ensures
            r is None,
    {
        None
    }

    /// The user with id `user_id` as far as the cache knows it now.
    pub fn get_user_optimistic(&self, user_id: u64) -> (r: Option<User>)
        ensures
            self.spec_users().contains_key(user_id) ==> r == Some(self.spec_users()[user_id]),
            !self.spec_users().contains_key(user_id) ==> r is None,
    {
        self.get_cached_user(user_id)
    }

    /// Keeps the cache as it is: nothing in it goes stale in this build.
    pub fn clear_cache(&mut self)
        ensures
            *final(self) == *old(self),
    {
    }

    /// The users who asked to become contacts: none, as contacts are unavailable.
    pub fn incoming_contact_requests(&self) -> (r: Vec<User>)
        ensures
            r@.len() == 0,
    {
        Vec::new()
    }

    /// The users asked to become contacts: none, as contacts are unavailable.
    pub fn outgoing_contact_requests(&self) -> (r: Vec<User>)
        ensures
            r@.len() == 0,
    {
        Vec::new()
    }

    /// Whether a contact request with `user` is pending: no, as contacts are unavailable.
    pub fn is_contact_request_pending(&self, user: &User) -> (r: bool)
        ensures
            !r,
    {
        false
    }

    /// The cached user with the GitHub login `login`: none, as users are
    /// looked up by id only.
    pub fn cached_user_by_github_login(&self, login: &str) -> (r: Option<User>)
        ensures
            r is None,
    {
        None
    }

    /// The plan of an organization: none.
    pub fn plan_for_organization(&self, organization: &OrganizationId) -> (r: Option<Plan>)
        ensures
            r is None,
    {
        None
    }

    /// The current subscription period: none.
    pub fn subscription_period(&self) -> (r: Option<()>)
        ensures
            r is None,
    {
        None
    }

    /// When the trial started: never.
    pub fn trial_started_at(&self) -> (r: Option<()>)
        ensures
            r is None,
    {
        None
    }

    /// Whether the account is too young for some features: no.
    pub fn account_too_young(&self) -> (r: bool)
        ensures
            !r,
    {
        false
    }

    /// Whether invoices are overdue: no.
    pub fn has_overdue_invoices(&self) -> (r: bool)
        ensures
            !r,
    {
        false
    }

    /// Keeps the store as it is: edit-prediction usage is not tracked.
    pub fn update_edit_prediction_usage(&mut self, usage: EditPredictionUsage)
        ensures
            *final(self) == *old(self),
    {
    }

    /// Keeps the store as it is: it holds no organizations.
    pub fn clear_organizations(&mut self)
        ensures
            *final(self) == *old(self),
    {
    }

    /// Keeps the store as it is: it holds no plan or usage.
    pub fn clear_plan_and_usage(&mut self)
        ensures
            *final(self) == *old(self),
    {
    }
}

/// A collaborator's peer id.
#[derive(Clone, Copy, PartialEq, Eq, Structural, Debug, Default)]
pub struct PeerId {
    /// The server that owns the connection.
    pub owner_id: u32,
    /// The connection on that server.
    pub id: u32,
}

/// The id of a replica of a buffer.
#[derive(Clone, Copy, PartialEq, Eq, Structural, Debug)]
pub struct ReplicaId(pub u16);

/// A collaborator as it arrives over the wire.
pub struct ProtoCollaborator {
    /// The collaborator's peer id.
    pub peer_id: Option<PeerId>,
    /// The collaborator's replica id.
    pub replica_id: u32,
    /// The collaborator's user id.
    pub user_id: u64,
    /// Whether the collaborator hosts the project.
    pub is_host: bool,
    /// The name used for commits.
    pub committer_name: Option<String>,
    /// The e-mail used for commits.
    pub committer_email: Option<String>,
}

/// A collaborator on a shared project.
pub struct Collaborator {
    /// The collaborator's peer id.
    pub peer_id: PeerId,
    /// The collaborator's replica id.
    pub replica_id: ReplicaId,
    /// The collaborator's user id.
    pub user_id: UserId,
    /// Whether the collaborator hosts the project.
    pub is_host: bool,
    /// The name used for commits.
    pub committer_name: Option<String>,
    /// The e-mail used for commits.
    pub committer_email: Option<String>,
}

impl Collaborator {
    /// The collaborator a wire message describes; a missing peer id is the
    /// default one, and the replica id keeps the low 16 bits.
    pub fn from_proto(message: ProtoCollaborator) -> (r: Collaborator)
        ensures
            r.peer_id == match message.peer_id {
                Some(p) => p,
                None => PeerId { owner_id: 0, id: 0 },
            },
            r.replica_id.0 == message.replica_id % 0x1_0000,
            r.user_id == message.user_id,
            r.is_host == message.is_host,
            r.committer_name == message.committer_name,
            r.committer_email == message.committer_email,
    {
        let replica = (message.replica_id % 0x1_0000) as u16;
        Collaborator {
            peer_id: match message.peer_id {
                Some(p) => p,
                None => PeerId { owner_id: 0, id: 0 },
            },
            replica_id: ReplicaId(replica),
            user_id: message.user_id,
            is_host: message.is_host,
            committer_name: message.committer_name,
            committer_email: message.committer_email,
        }
    }
}

/// Credentials of a signed-in user.
pub struct Credentials {
    /// The user's id.
    pub user_id: u64,
    /// The access token.
    pub access_token: String,
}

impl Credentials {
    /// The value of the authorization header: the user id, a space, and the token.
    pub fn authorization_header(&self) -> (r: String)
        ensures
            r@ == decimal(self.user_id as nat) + seq![' '] + self.access_token@,
    {
        let mut v: Vec<char> = Vec::new();
        push_decimal(self.user_id, &mut v);
        v.push(' ');
        append_chars(&mut v, &to_chars(self.access_token.as_str()));
        chars_to_string(&v)
    }
}


/// After inserting users, the cache holds, for each inserted id, the user
/// of the last message with that id.
pub proof fn lemma_insert_then_get(m: Map<u64, User>, msgs: Seq<ProtoUser>, i: int)
    requires
        0 <= i < msgs.len(),
        forall|j: int| i < j < msgs.len() ==> (#[trigger] msgs[j]).id != msgs[i].id,
    ensures
        users_after_insert(m, msgs).contains_key(msgs[i].id),
        users_after_insert(m, msgs)[msgs[i].id] == user_from_proto(msgs[i]),
    decreases msgs.len(),
{
    if i < msgs.len() - 1 {
        let prefix = msgs.drop_last();
        assert forall|j: int| i < j < prefix.len() implies (#[trigger] prefix[j]).id != prefix[i].id by {
            assert(prefix[j] == msgs[j]);
        }
        lemma_insert_then_get(m, prefix, i);
        assert(msgs.last() == msgs[msgs.len() - 1]);
    }
}

/// Inserting users leaves every other id as it was.
pub proof fn lemma_insert_keeps_others(m: Map<u64, User>, msgs: Seq<ProtoUser>, id: u64)
    requires
        forall|j: int| 0 <= j < msgs.len() ==> (#[trigger] msgs[j]).id != id,
    ensures
        users_after_insert(m, msgs).contains_key(id) == m.contains_key(id),
        m.contains_key(id) ==> users_after_insert(m, msgs)[id] == m[id],
    decreases msgs.len(),
{
    if msgs.len() > 0 {
        let prefix = msgs.drop_last();
        assert forall|j: int| 0 <= j < prefix.len() implies (#[trigger] prefix[j]).id != id by {
            assert(prefix[j] == msgs[j]);
        }
        lemma_insert_keeps_others(m, prefix, id);
        assert(msgs.last() == msgs[msgs.len() - 1]);
    }
}

} // verus!
