//! The identity store: identity rows keyed by email, provider-link rows
//! keyed by (provider, subject id), and the three operations the
//! authentication backend needs — upsert an identity, upsert a provider
//! link, and load an identity together with its link.
//!
//! The store is specified by a mathematical model ([`StoreView`]) with a
//! well-formedness invariant ([`store_wf`]) and pure transition functions
//! (`spec_upsert_identity`, `spec_upsert_provider_link`, ...). The
//! executable [`MemStore`] is verified to implement those transitions
//! exactly.

use vstd::prelude::*;

use crate::profile::{UserProfile, UserProfileView};

verus! {

// ---------------------------------------------------------------------------
// Rows
// ---------------------------------------------------------------------------

/// One identity row. Created on first successful authentication for an
/// email; on later logins with the same email only `image` is updated.
pub struct UserRow {
    pub id: u64,
    pub email: String,
    pub first_name: String,
    pub last_name: String,
    pub email_verified: bool,
    pub image: Option<String>,
}

/// The mathematical value of a [`UserRow`].
#[verifier::ext_equal]
pub struct UserRowView {
    pub id: u64,
    pub email: Seq<char>,
    pub first_name: Seq<char>,
    pub last_name: Seq<char>,
    pub email_verified: bool,
    pub image: Option<Seq<char>>,
}

impl View for UserRow {
    type V = UserRowView;

    open spec fn view(&self) -> UserRowView {
        UserRowView {
            id: self.id,
            email: self.email@,
            first_name: self.first_name@,
            last_name: self.last_name@,
            email_verified: self.email_verified,
            image: match self.image {
                Some(s) => Some(s@),
                None => None,
            },
        }
    }
}

impl Clone for UserRow {
    fn clone(&self) -> (r: Self)
        ensures
            r == *self,
    {
        UserRow {
            id: self.id,
            email: self.email.clone(),
            first_name: self.first_name.clone(),
            last_name: self.last_name.clone(),
            email_verified: self.email_verified,
            image: match &self.image {
                Some(s) => Some(s.clone()),
                None => None,
            },
        }
    }
}

/// One provider-link row: the provider's name and subject id, the owning
/// identity, and the access token of the latest login through that link.
pub struct ProviderLink {
    pub id: u64,
    pub provider: String,
    pub provider_id: String,
    pub user_id: u64,
    pub access_token: String,
}

/// The mathematical value of a [`ProviderLink`].
#[verifier::ext_equal]
pub struct ProviderLinkView {
    pub id: u64,
    pub provider: Seq<char>,
    pub provider_id: Seq<char>,
    pub user_id: u64,
    pub access_token: Seq<char>,
}

impl View for ProviderLink {
    type V = ProviderLinkView;

    open spec fn view(&self) -> ProviderLinkView {
        ProviderLinkView {
            id: self.id,
            provider: self.provider@,
            provider_id: self.provider_id@,
            user_id: self.user_id,
            access_token: self.access_token@,
        }
    }
}

impl Clone for ProviderLink {
    fn clone(&self) -> (r: Self)
        ensures
            r == *self,
    {
        ProviderLink {
            id: self.id,
            provider: self.provider.clone(),
            provider_id: self.provider_id.clone(),
            user_id: self.user_id,
            access_token: self.access_token.clone(),
        }
    }
}

// ---------------------------------------------------------------------------
// The model
// ---------------------------------------------------------------------------

/// The mathematical state of the store.
#[verifier::ext_equal]
pub struct StoreView {
    pub users: Seq<UserRowView>,
    pub links: Seq<ProviderLinkView>,
    pub next_user_id: u64,
    pub next_link_id: u64,
}

/// The state of a freshly created store.
pub open spec fn empty_store() -> StoreView {
    StoreView { users: Seq::empty(), links: Seq::empty(), next_user_id: 1, next_link_id: 1 }
}

/// Some identity row carries this id.
pub open spec fn user_id_exists(users: Seq<UserRowView>, id: u64) -> bool {
    exists|i: int| 0 <= i < users.len() && #[trigger] users[i].id == id
}

/// Well-formedness of the store: identity ids and emails are unique, link
/// (provider, subject) keys are unique, ids are below the id counters, and
/// every link references an existing identity (the foreign key).
pub open spec fn store_wf(s: StoreView) -> bool {
    &&& forall|i: int, j: int|
        #![trigger s.users[i], s.users[j]]
        0 <= i < s.users.len() && 0 <= j < s.users.len() && i != j ==> s.users[i].id
            != s.users[j].id
    &&& forall|i: int, j: int|
        #![trigger s.users[i], s.users[j]]
        0 <= i < s.users.len() && 0 <= j < s.users.len() && i != j ==> s.users[i].email
            != s.users[j].email
    &&& forall|i: int| 0 <= i < s.users.len() ==> (#[trigger] s.users[i]).id < s.next_user_id
    &&& forall|i: int, j: int|
        #![trigger s.links[i], s.links[j]]
        0 <= i < s.links.len() && 0 <= j < s.links.len() && i != j ==> !(s.links[i].provider
            == s.links[j].provider && s.links[i].provider_id == s.links[j].provider_id)
    &&& forall|i: int| 0 <= i < s.links.len() ==> (#[trigger] s.links[i]).id < s.next_link_id
    &&& forall|i: int|
        0 <= i < s.links.len() ==> user_id_exists(s.users, (#[trigger] s.links[i]).user_id)
}

// ---------------------------------------------------------------------------
// First-index functions and their characterizations
// ---------------------------------------------------------------------------

/// Index of the first identity row with this email, if any.
pub open spec fn user_index_by_email(users: Seq<UserRowView>, email: Seq<char>) -> Option<int>
    decreases users.len(),
{
    if users.len() == 0 {
        None
    } else if users[0].email == email {
        Some(0)
    } else {
        match user_index_by_email(users.drop_first(), email) {
            Some(i) => Some(i + 1),
            None => None,
        }
    }
}

/// Index of the first identity row with this id, if any.
pub open spec fn user_index_by_id(users: Seq<UserRowView>, id: u64) -> Option<int>
    decreases users.len(),
{
    if users.len() == 0 {
        None
    } else if users[0].id == id {
        Some(0)
    } else {
        match user_index_by_id(users.drop_first(), id) {
            Some(i) => Some(i + 1),
            None => None,
        }
    }
}

/// Index of the first link with this (provider, subject) key, if any.
pub open spec fn link_index_by_key(
    links: Seq<ProviderLinkView>,
    provider: Seq<char>,
    provider_id: Seq<char>,
) -> Option<int>
    decreases links.len(),
{
    if links.len() == 0 {
        None
    } else if links[0].provider == provider && links[0].provider_id == provider_id {
        Some(0)
    } else {
        match link_index_by_key(links.drop_first(), provider, provider_id) {
            Some(i) => Some(i + 1),
            None => None,
        }
    }
}

/// Index of the first link owned by this identity, if any.
pub open spec fn link_index_by_user(links: Seq<ProviderLinkView>, user_id: u64) -> Option<int>
    decreases links.len(),
{
    if links.len() == 0 {
        None
    } else if links[0].user_id == user_id {
        Some(0)
    } else {
        match link_index_by_user(links.drop_first(), user_id) {
            Some(i) => Some(i + 1),
            None => None,
        }
    }
}

/// What `user_index_by_email` returns: the least index carrying the email,
/// or `None` when no row carries it.
pub proof fn lemma_user_index_by_email(users: Seq<UserRowView>, email: Seq<char>)
    ensures
        match user_index_by_email(users, email) {
            Some(i) => 0 <= i < users.len() && users[i].email == email && (forall|k: int|
                0 <= k < i ==> (#[trigger] users[k]).email != email),
            None => forall|k: int| 0 <= k < users.len() ==> (#[trigger] users[k]).email != email,
        },
    decreases users.len(),
{
    if users.len() > 0 && users[0].email != email {
        lemma_user_index_by_email(users.drop_first(), email);
        match user_index_by_email(users, email) {
            Some(i) => {
                assert(users.drop_first()[i - 1] == users[i]);
                assert forall|k: int| 0 <= k < i implies (#[trigger] users[k]).email != email by {
                    if k > 0 {
                        assert(users.drop_first()[k - 1] == users[k]);
                    }
                }
            },
            None => {
                assert forall|k: int|
                    0 <= k < users.len() implies (#[trigger] users[k]).email != email by {
                    if k > 0 {
                        assert(users.drop_first()[k - 1] == users[k]);
                    }
                }
            },
        }
    }
}

pub proof fn lemma_user_index_by_email_is(users: Seq<UserRowView>, email: Seq<char>, i: int)
    requires
        0 <= i < users.len(),
        users[i].email == email,
        forall|k: int| 0 <= k < i ==> (#[trigger] users[k]).email != email,
    ensures
        user_index_by_email(users, email) == Some(i),
    decreases i,
{
    if i > 0 {
        assert(forall|k: int|
            0 <= k < users.len() - 1 ==> #[trigger] users.drop_first()[k] == users[k + 1]);
        lemma_user_index_by_email_is(users.drop_first(), email, i - 1);
    }
}

pub proof fn lemma_user_index_by_email_absent(users: Seq<UserRowView>, email: Seq<char>)
    requires
        forall|k: int| 0 <= k < users.len() ==> (#[trigger] users[k]).email != email,
    ensures
        user_index_by_email(users, email) is None,
{
    lemma_user_index_by_email(users, email);
    if user_index_by_email(users, email) is Some {
        let i = user_index_by_email(users, email)->Some_0;
        assert(users[i].email != email);
    }
}

/// What `user_index_by_id` returns.
pub proof fn lemma_user_index_by_id(users: Seq<UserRowView>, id: u64)
    ensures
        match user_index_by_id(users, id) {
            Some(i) => 0 <= i < users.len() && users[i].id == id && (forall|k: int|
                0 <= k < i ==> (#[trigger] users[k]).id != id),
            None => forall|k: int| 0 <= k < users.len() ==> (#[trigger] users[k]).id != id,
        },
    decreases users.len(),
{
    if users.len() > 0 && users[0].id != id {
        lemma_user_index_by_id(users.drop_first(), id);
        match user_index_by_id(users, id) {
            Some(i) => {
                assert(users.drop_first()[i - 1] == users[i]);
                assert forall|k: int| 0 <= k < i implies (#[trigger] users[k]).id != id by {
                    if k > 0 {
                        assert(users.drop_first()[k - 1] == users[k]);
                    }
                }
            },
            None => {
                assert forall|k: int|
                    0 <= k < users.len() implies (#[trigger] users[k]).id != id by {
                    if k > 0 {
                        assert(users.drop_first()[k - 1] == users[k]);
                    }
                }
            },
        }
    }
}

pub proof fn lemma_user_index_by_id_is(users: Seq<UserRowView>, id: u64, i: int)
    requires
        0 <= i < users.len(),
        users[i].id == id,
        forall|k: int| 0 <= k < i ==> (#[trigger] users[k]).id != id,
    ensures
        user_index_by_id(users, id) == Some(i),
    decreases i,
{
    if i > 0 {
        assert(forall|k: int|
            0 <= k < users.len() - 1 ==> #[trigger] users.drop_first()[k] == users[k + 1]);
        lemma_user_index_by_id_is(users.drop_first(), id, i - 1);
    }
}

pub proof fn lemma_user_index_by_id_absent(users: Seq<UserRowView>, id: u64)
    requires
        forall|k: int| 0 <= k < users.len() ==> (#[trigger] users[k]).id != id,
    ensures
        user_index_by_id(users, id) is None,
{
    lemma_user_index_by_id(users, id);
    if user_index_by_id(users, id) is Some {
        let i = user_index_by_id(users, id)->Some_0;
        assert(users[i].id != id);
    }
}

/// What `link_index_by_key` returns.
pub proof fn lemma_link_index_by_key(
    links: Seq<ProviderLinkView>,
    provider: Seq<char>,
    provider_id: Seq<char>,
)
    ensures
        match link_index_by_key(links, provider, provider_id) {
            Some(i) => 0 <= i < links.len() && links[i].provider == provider
                && links[i].provider_id == provider_id && (forall|k: int|
                0 <= k < i ==> !((#[trigger] links[k]).provider == provider && links[k].provider_id
                    == provider_id)),
            None => forall|k: int|
                0 <= k < links.len() ==> !((#[trigger] links[k]).provider == provider
                    && links[k].provider_id == provider_id),
        },
    decreases links.len(),
{
    if links.len() > 0 && !(links[0].provider == provider && links[0].provider_id == provider_id) {
        lemma_link_index_by_key(links.drop_first(), provider, provider_id);
        match link_index_by_key(links, provider, provider_id) {
            Some(i) => {
                assert(links.drop_first()[i - 1] == links[i]);
                assert forall|k: int|
                    0 <= k < i implies !((#[trigger] links[k]).provider == provider
                    && links[k].provider_id == provider_id) by {
                    if k > 0 {
                        assert(links.drop_first()[k - 1] == links[k]);
                    }
                }
            },
            None => {
                assert forall|k: int|
                    0 <= k < links.len() implies !((#[trigger] links[k]).provider == provider
                    && links[k].provider_id == provider_id) by {
                    if k > 0 {
                        assert(links.drop_first()[k - 1] == links[k]);
                    }
                }
            },
        }
    }
}

pub proof fn lemma_link_index_by_key_is(
    links: Seq<ProviderLinkView>,
    provider: Seq<char>,
    provider_id: Seq<char>,
    i: int,
)
    requires
        0 <= i < links.len(),
        links[i].provider == provider,
        links[i].provider_id == provider_id,
        forall|k: int|
            0 <= k < i ==> !((#[trigger] links[k]).provider == provider && links[k].provider_id
                == provider_id),
    ensures
        link_index_by_key(links, provider, provider_id) == Some(i),
    decreases i,
{
    if i > 0 {
        assert(forall|k: int|
            0 <= k < links.len() - 1 ==> #[trigger] links.drop_first()[k] == links[k + 1]);
        lemma_link_index_by_key_is(links.drop_first(), provider, provider_id, i - 1);
    }
}

pub proof fn lemma_link_index_by_key_absent(
    links: Seq<ProviderLinkView>,
    provider: Seq<char>,
    provider_id: Seq<char>,
)
    requires
        forall|k: int|
            0 <= k < links.len() ==> !((#[trigger] links[k]).provider == provider
                && links[k].provider_id == provider_id),
    ensures
        link_index_by_key(links, provider, provider_id) is None,
{
    lemma_link_index_by_key(links, provider, provider_id);
    if link_index_by_key(links, provider, provider_id) is Some {
        let i = link_index_by_key(links, provider, provider_id)->Some_0;
        assert(!(links[i].provider == provider && links[i].provider_id == provider_id));
    }
}

/// What `link_index_by_user` returns.
pub proof fn lemma_link_index_by_user(links: Seq<ProviderLinkView>, user_id: u64)
    ensures
        match link_index_by_user(links, user_id) {
            Some(i) => 0 <= i < links.len() && links[i].user_id == user_id && (forall|k: int|
                0 <= k < i ==> (#[trigger] links[k]).user_id != user_id),
            None => forall|k: int|
                0 <= k < links.len() ==> (#[trigger] links[k]).user_id != user_id,
        },
    decreases links.len(),
{
    if links.len() > 0 && links[0].user_id != user_id {
        lemma_link_index_by_user(links.drop_first(), user_id);
        match link_index_by_user(links, user_id) {
            Some(i) => {
                assert(links.drop_first()[i - 1] == links[i]);
                assert forall|k: int| 0 <= k < i implies (#[trigger] links[k]).user_id != user_id by {
                    if k > 0 {
                        assert(links.drop_first()[k - 1] == links[k]);
                    }
                }
            },
            None => {
                assert forall|k: int|
                    0 <= k < links.len() implies (#[trigger] links[k]).user_id != user_id by {
                    if k > 0 {
                        assert(links.drop_first()[k - 1] == links[k]);
                    }
                }
            },
        }
    }
}

pub proof fn lemma_link_index_by_user_is(links: Seq<ProviderLinkView>, user_id: u64, i: int)
    requires
        0 <= i < links.len(),
        links[i].user_id == user_id,
        forall|k: int| 0 <= k < i ==> (#[trigger] links[k]).user_id != user_id,
    ensures
        link_index_by_user(links, user_id) == Some(i),
    decreases i,
{
    if i > 0 {
        assert(forall|k: int|
            0 <= k < links.len() - 1 ==> #[trigger] links.drop_first()[k] == links[k + 1]);
        lemma_link_index_by_user_is(links.drop_first(), user_id, i - 1);
    }
}

pub proof fn lemma_link_index_by_user_absent(links: Seq<ProviderLinkView>, user_id: u64)
    requires
        forall|k: int| 0 <= k < links.len() ==> (#[trigger] links[k]).user_id != user_id,
    ensures
        link_index_by_user(links, user_id) is None,
{
    lemma_link_index_by_user(links, user_id);
    if link_index_by_user(links, user_id) is Some {
        let i = link_index_by_user(links, user_id)->Some_0;
        assert(links[i].user_id != user_id);
    }
}

// ---------------------------------------------------------------------------
// Transitions
// ---------------------------------------------------------------------------

/// Insert an identity for this profile; on conflict on the email key,
/// update only the avatar and keep every other field of the existing row.
/// Returns the new store and the canonical stored row.
pub open spec fn spec_upsert_identity(s: StoreView, p: UserProfileView) -> (StoreView, UserRowView) {
    match user_index_by_email(s.users, p.email) {
        Some(i) => {
            let row = UserRowView { image: Some(p.picture), ..s.users[i] };
            (StoreView { users: s.users.update(i, row), ..s }, row)
        },
        None => {
            let row = UserRowView {
                id: s.next_user_id,
                email: p.email,
                first_name: p.given_name,
                last_name: p.family_name,
                email_verified: p.email_verified,
                image: Some(p.picture),
            };
            (
                StoreView {
                    users: s.users.push(row),
                    next_user_id: (s.next_user_id + 1) as u64,
                    ..s
                },
                row,
            )
        },
    }
}

/// Insert a provider link; on conflict on the (provider, subject) key,
/// update only the stored access token.
pub open spec fn spec_upsert_provider_link(
    s: StoreView,
    provider: Seq<char>,
    provider_id: Seq<char>,
    user_id: u64,
    access_token: Seq<char>,
) -> StoreView {
    match link_index_by_key(s.links, provider, provider_id) {
        Some(i) => {
            let row = ProviderLinkView { access_token: access_token, ..s.links[i] };
            StoreView { links: s.links.update(i, row), ..s }
        },
        None => {
            let row = ProviderLinkView {
                id: s.next_link_id,
                provider: provider,
                provider_id: provider_id,
                user_id: user_id,
                access_token: access_token,
            };
            StoreView { links: s.links.push(row), next_link_id: (s.next_link_id + 1) as u64, ..s }
        },
    }
}

/// Overwrite the access token stored on the link with this key, if present.
/// This is the revocation handle: every session whose integrity value was
/// captured from the old token becomes invalid.
pub open spec fn spec_rotate_access_token(
    s: StoreView,
    provider: Seq<char>,
    provider_id: Seq<char>,
    new_token: Seq<char>,
) -> StoreView {
    match link_index_by_key(s.links, provider, provider_id) {
        Some(i) => {
            let row = ProviderLinkView { access_token: new_token, ..s.links[i] };
            StoreView { links: s.links.update(i, row), ..s }
        },
        None => s,
    }
}

/// Load an identity row by id, together with the first link owned by it.
pub open spec fn spec_load_identity_with_link(s: StoreView, user_id: u64) -> Option<
    (UserRowView, Option<ProviderLinkView>),
> {
    match user_index_by_id(s.users, user_id) {
        None => None,
        Some(i) => Some(
            (
                s.users[i],
                match link_index_by_user(s.links, user_id) {
                    None => None,
                    Some(j) => Some(s.links[j]),
                },
            ),
        ),
    }
}

/// The access token currently stored on the link with this key, if any.
pub open spec fn spec_link_token(
    s: StoreView,
    provider: Seq<char>,
    provider_id: Seq<char>,
) -> Option<Seq<char>> {
    match link_index_by_key(s.links, provider, provider_id) {
        Some(i) => Some(s.links[i].access_token),
        None => None,
    }
}

// ---------------------------------------------------------------------------
// Preservation of well-formedness
// ---------------------------------------------------------------------------

/// The identity upsert preserves well-formedness; it touches no link and
/// returns a row that carries the profile's email and exists in the result.
pub proof fn lemma_upsert_identity_wf(s: StoreView, p: UserProfileView)
    requires
        store_wf(s),
        s.next_user_id < u64::MAX,
    ensures
        ({
            let (s1, row) = spec_upsert_identity(s, p);
            &&& store_wf(s1)
            &&& s1.links == s.links
            &&& s1.next_link_id == s.next_link_id
            &&& s1.next_user_id < u64::MAX || s1.next_user_id == s.next_user_id + 1
            &&& row.email == p.email
            &&& row.id < s1.next_user_id
            &&& user_id_exists(s1.users, row.id)
            &&& user_index_by_id(s1.users, row.id) is Some
        }),
{
    lemma_user_index_by_email(s.users, p.email);
    let (s1, row) = spec_upsert_identity(s, p);
    match user_index_by_email(s.users, p.email) {
        Some(i) => {
            assert(s1.users[i] == row);
            assert(forall|k: int|
                0 <= k < s.users.len() && k != i ==> #[trigger] s1.users[k] == s.users[k]);
            assert(forall|k: int|
                0 <= k < s1.links.len() ==> user_id_exists(
                    s1.users,
                    (#[trigger] s1.links[k]).user_id,
                )) by {
                assert forall|k: int| 0 <= k < s1.links.len() implies user_id_exists(
                    s1.users,
                    (#[trigger] s1.links[k]).user_id,
                ) by {
                    let w = choose|w: int|
                        0 <= w < s.users.len() && #[trigger] s.users[w].id == s.links[k].user_id;
                    assert(s1.users[w].id == s.links[k].user_id);
                }
            }
            lemma_user_index_by_id(s1.users, row.id);
            if user_index_by_id(s1.users, row.id) is None {
                assert(s1.users[i].id != row.id);
            }
        },
        None => {
            assert(forall|k: int|
                0 <= k < s.users.len() ==> #[trigger] s1.users[k] == s.users[k]);
            assert(s1.users[s.users.len() as int] == row);
            assert(forall|k: int|
                0 <= k < s1.links.len() ==> user_id_exists(
                    s1.users,
                    (#[trigger] s1.links[k]).user_id,
                )) by {
                assert forall|k: int| 0 <= k < s1.links.len() implies user_id_exists(
                    s1.users,
                    (#[trigger] s1.links[k]).user_id,
                ) by {
                    let w = choose|w: int|
                        0 <= w < s.users.len() && #[trigger] s.users[w].id == s.links[k].user_id;
                    assert(s1.users[w].id == s.links[k].user_id);
                }
            }
            lemma_user_index_by_id(s1.users, row.id);
            if user_index_by_id(s1.users, row.id) is None {
                assert(s1.users[s.users.len() as int].id != row.id);
            }
        },
    }
}

/// The link upsert preserves well-formedness and touches no identity row.
pub proof fn lemma_upsert_provider_link_wf(
    s: StoreView,
    provider: Seq<char>,
    provider_id: Seq<char>,
    user_id: u64,
    access_token: Seq<char>,
)
    requires
        store_wf(s),
        s.next_link_id < u64::MAX,
        user_id_exists(s.users, user_id),
    ensures
        ({
            let s1 = spec_upsert_provider_link(s, provider, provider_id, user_id, access_token);
            &&& store_wf(s1)
            &&& s1.users == s.users
            &&& s1.next_user_id == s.next_user_id
        }),
{
    lemma_link_index_by_key(s.links, provider, provider_id);
    let s1 = spec_upsert_provider_link(s, provider, provider_id, user_id, access_token);
    match link_index_by_key(s.links, provider, provider_id) {
        Some(i) => {
            assert(forall|k: int|
                0 <= k < s.links.len() && k != i ==> #[trigger] s1.links[k] == s.links[k]);
            assert(s1.links[i].provider == s.links[i].provider && s1.links[i].provider_id
                == s.links[i].provider_id && s1.links[i].id == s.links[i].id && s1.links[i].user_id
                == s.links[i].user_id);
        },
        None => {
            assert(forall|k: int|
                0 <= k < s.links.len() ==> #[trigger] s1.links[k] == s.links[k]);
            assert(s1.links[s.links.len() as int].user_id == user_id);
        },
    }
}

/// Token rotation preserves well-formedness and changes nothing but the
/// access token of the addressed link.
pub proof fn lemma_rotate_access_token_wf(
    s: StoreView,
    provider: Seq<char>,
    provider_id: Seq<char>,
    new_token: Seq<char>,
)
    requires
        store_wf(s),
    ensures
        ({
            let s1 = spec_rotate_access_token(s, provider, provider_id, new_token);
            &&& store_wf(s1)
            &&& s1.users == s.users
            &&& s1.next_user_id == s.next_user_id
            &&& s1.next_link_id == s.next_link_id
            &&& s1.links.len() == s.links.len()
        }),
{
    let s1 = spec_rotate_access_token(s, provider, provider_id, new_token);
    lemma_link_index_by_key(s.links, provider, provider_id);
    match link_index_by_key(s.links, provider, provider_id) {
        Some(i) => {
            assert(forall|k: int|
                0 <= k < s.links.len() && k != i ==> #[trigger] s1.links[k] == s.links[k]);
            assert(s1.links[i].provider == s.links[i].provider && s1.links[i].provider_id
                == s.links[i].provider_id && s1.links[i].id == s.links[i].id && s1.links[i].user_id
                == s.links[i].user_id);
        },
        None => {},
    }
}

// ---------------------------------------------------------------------------
// The executable store
// ---------------------------------------------------------------------------

/// The value of a sequence of stored rows.
pub open spec fn users_view(rows: Seq<UserRow>) -> Seq<UserRowView> {
    rows.map_values(|r: UserRow| r@)
}

/// The value of a sequence of stored links.
pub open spec fn links_view(rows: Seq<ProviderLink>) -> Seq<ProviderLinkView> {
    rows.map_values(|r: ProviderLink| r@)
}

/// An in-memory identity store, verified against the model above.
pub struct MemStore {
    users: Vec<UserRow>,
    links: Vec<ProviderLink>,
    next_user_id: u64,
    next_link_id: u64,
}

impl View for MemStore {
    type V = StoreView;

    closed spec fn view(&self) -> StoreView {
        StoreView {
            users: users_view(self.users@),
            links: links_view(self.links@),
            next_user_id: self.next_user_id,
            next_link_id: self.next_link_id,
        }
    }
}

impl MemStore {
    /// The store's invariant, in terms of its model.
    pub open spec fn wf(&self) -> bool {
        store_wf(self@)
    }

    /// An empty store.
    pub fn new() -> (s: Self)
        ensures
            s@ == empty_store(),
            s.wf(),
    {
        let s = MemStore { users: Vec::new(), links: Vec::new(), next_user_id: 1, next_link_id: 1 };
        proof {
            assert(s@ =~= empty_store());
        }
        s
    }

    /// Whether one more login can be recorded: both id counters are still
    /// below their machine limit. Callers test this before `authenticate`.
    pub fn has_capacity(&self) -> (r: bool)
        ensures
            r == (self@.next_user_id < u64::MAX && self@.next_link_id < u64::MAX),
    {
        self.next_user_id < u64::MAX && self.next_link_id < u64::MAX
    }

    /// How many identity rows the store holds.
    pub fn users_len(&self) -> (r: usize)
        ensures
            r == self@.users.len(),
    {
        self.users.len()
    }

    /// How many provider links the store holds.
    pub fn links_len(&self) -> (r: usize)
        ensures
            r == self@.links.len(),
    {
        self.links.len()
    }

    fn find_user_by_email(&self, email: &String) -> (r: Option<usize>)
        ensures
            match r {
                Some(i) => user_index_by_email(self@.users, email@) == Some(i as int),
                None => user_index_by_email(self@.users, email@) is None,
            },
    {
        let mut i: usize = 0;
        while i < self.users.len()
            invariant
                i <= self.users.len(),
                forall|k: int| 0 <= k < i ==> (#[trigger] self@.users[k]).email != email@,
            decreases self.users.len() - i,
        {
            if self.users[i].email == *email {
                proof {
                    lemma_user_index_by_email_is(self@.users, email@, i as int);
                }
                return Some(i);
            }
            i = i + 1;
        }
        proof {
            lemma_user_index_by_email_absent(self@.users, email@);
        }
        None
    }

    fn find_user_by_id(&self, id: u64) -> (r: Option<usize>)
        ensures
            match r {
                Some(i) => user_index_by_id(self@.users, id) == Some(i as int),
                None => user_index_by_id(self@.users, id) is None,
            },
    {
        let mut i: usize = 0;
        while i < self.users.len()
            invariant
                i <= self.users.len(),
                forall|k: int| 0 <= k < i ==> (#[trigger] self@.users[k]).id != id,
            decreases self.users.len() - i,
        {
            if self.users[i].id == id {
                proof {
                    lemma_user_index_by_id_is(self@.users, id, i as int);
                }
                return Some(i);
            }
            i = i + 1;
        }
        proof {
            lemma_user_index_by_id_absent(self@.users, id);
        }
        None
    }

    fn find_link_by_key(&self, provider: &String, provider_id: &String) -> (r: Option<usize>)
        ensures
            match r {
                Some(i) => link_index_by_key(self@.links, provider@, provider_id@) == Some(i as int),
                None => link_index_by_key(self@.links, provider@, provider_id@) is None,
            },
    {
        let mut i: usize = 0;
        while i < self.links.len()
            invariant
                i <= self.links.len(),
                forall|k: int|
                    0 <= k < i ==> !((#[trigger] self@.links[k]).provider == provider@
                        && self@.links[k].provider_id == provider_id@),
            decreases self.links.len() - i,
        {
            if self.links[i].provider == *provider && self.links[i].provider_id == *provider_id {
                proof {
                    lemma_link_index_by_key_is(self@.links, provider@, provider_id@, i as int);
                }
                return Some(i);
            }
            i = i + 1;
        }
        proof {
            lemma_link_index_by_key_absent(self@.links, provider@, provider_id@);
        }
        None
    }

    fn find_link_by_user(&self, user_id: u64) -> (r: Option<usize>)
        ensures
            match r {
                Some(i) => link_index_by_user(self@.links, user_id) == Some(i as int),
                None => link_index_by_user(self@.links, user_id) is None,
            },
    {
        let mut i: usize = 0;
        while i < self.links.len()
            invariant
                i <= self.links.len(),
                forall|k: int| 0 <= k < i ==> (#[trigger] self@.links[k]).user_id != user_id,
            decreases self.links.len() - i,
        {
            if self.links[i].user_id == user_id {
                proof {
                    lemma_link_index_by_user_is(self@.links, user_id, i as int);
                }
                return Some(i);
            }
            i = i + 1;
        }
        proof {
            lemma_link_index_by_user_absent(self@.links, user_id);
        }
        None
    }

    /// Insert an identity row for this profile; on conflict on the email
    /// key, update only the avatar. Returns the canonical stored row.
    pub fn upsert_identity(&mut self, profile: &UserProfile) -> (row: UserRow)
        requires
            old(self).wf(),
            old(self)@.next_user_id < u64::MAX,
        ensures
            final(self).wf(),
            final(self)@ == spec_upsert_identity(old(self)@, profile@).0,
            row@ == spec_upsert_identity(old(self)@, profile@).1,
    {
        proof {
            lemma_upsert_identity_wf(old(self)@, profile@);
        }
        match Self::find_user_by_email(self, &profile.email) {
            Some(i) => {
                proof {
                    lemma_user_index_by_email(self@.users, profile.email@);
                }
                let mut row = self.users[i].clone();
                row.image = Some(profile.picture.clone());
                let stored = row.clone();
                self.users[i] = stored;
                proof {
                    assert(self@.users =~= spec_upsert_identity(old(self)@, profile@).0.users);
                    assert(self@ =~= spec_upsert_identity(old(self)@, profile@).0);
                    assert(row@ =~= spec_upsert_identity(old(self)@, profile@).1);
                }
                row
            },
            None => {
                let row = UserRow {
                    id: self.next_user_id,
                    email: profile.email.clone(),
                    first_name: profile.given_name.clone(),
                    last_name: profile.family_name.clone(),
                    email_verified: profile.email_verified,
                    image: Some(profile.picture.clone()),
                };
                self.next_user_id = self.next_user_id + 1;
                let stored = row.clone();
                self.users.push(stored);
                proof {
                    assert(self@.users =~= spec_upsert_identity(old(self)@, profile@).0.users);
                    assert(self@ =~= spec_upsert_identity(old(self)@, profile@).0);
                    assert(row@ =~= spec_upsert_identity(old(self)@, profile@).1);
                }
                row
            },
        }
    }

    /// Insert a provider link for this identity; on conflict on the
    /// (provider, subject) key, overwrite only the stored access token.
    pub fn upsert_provider_link(
        &mut self,
        provider: String,
        provider_id: String,
        user_id: u64,
        access_token: String,
    )
        requires
            old(self).wf(),
            old(self)@.next_link_id < u64::MAX,
            user_id_exists(old(self)@.users, user_id),
        ensures
            final(self).wf(),
            final(self)@ == spec_upsert_provider_link(
                old(self)@,
                provider@,
                provider_id@,
                user_id,
                access_token@,
            ),
    {
        proof {
            lemma_upsert_provider_link_wf(
                old(self)@,
                provider@,
                provider_id@,
                user_id,
                access_token@,
            );
        }
        let ghost target = spec_upsert_provider_link(
            old(self)@,
            provider@,
            provider_id@,
            user_id,
            access_token@,
        );
        match Self::find_link_by_key(self, &provider, &provider_id) {
            Some(i) => {
                proof {
                    lemma_link_index_by_key(self@.links, provider@, provider_id@);
                }
                let mut row = self.links[i].clone();
                row.access_token = access_token;
                self.links[i] = row;
                proof {
                    assert(self@.links =~= target.links);
                    assert(self@ =~= target);
                }
            },
            None => {
                let row = ProviderLink {
                    id: self.next_link_id,
                    provider: provider,
                    provider_id: provider_id,
                    user_id: user_id,
                    access_token: access_token,
                };
                self.next_link_id = self.next_link_id + 1;
                self.links.push(row);
                proof {
                    assert(self@.links =~= target.links);
                    assert(self@ =~= target);
                }
            },
        }
    }

    /// Overwrite the access token of the link with this key. Returns whether
    /// such a link existed.
    pub fn rotate_access_token(
        &mut self,
        provider: &String,
        provider_id: &String,
        new_token: String,
    ) -> (r: bool)
        requires
            old(self).wf(),
        ensures
            final(self).wf(),
            final(self)@ == spec_rotate_access_token(
                old(self)@,
                provider@,
                provider_id@,
                new_token@,
            ),
            r == (link_index_by_key(old(self)@.links, provider@, provider_id@) is Some),
    {
        proof {
            lemma_rotate_access_token_wf(old(self)@, provider@, provider_id@, new_token@);
        }
        let ghost target = spec_rotate_access_token(old(self)@, provider@, provider_id@, new_token@);
        match Self::find_link_by_key(self, provider, provider_id) {
            Some(i) => {
                proof {
                    lemma_link_index_by_key(self@.links, provider@, provider_id@);
                }
                let mut row = self.links[i].clone();
                row.access_token = new_token;
                self.links[i] = row;
                proof {
                    assert(self@.links =~= target.links);
                    assert(self@ =~= target);
                }
                true
            },
            None => {
                proof {
                    assert(self@ =~= target);
                }
                false
            },
        }
    }

    /// Load the identity row with this id, together with the first provider
    /// link owned by it. `None` when the id is unknown.
    pub fn load_identity_with_link(&self, user_id: u64) -> (r: Option<(UserRow, Option<ProviderLink>)>)
        ensures
            match r {
                None => spec_load_identity_with_link(self@, user_id) is None,
                Some(p) => match spec_load_identity_with_link(self@, user_id) {
                    Some(q) => p.0@ == q.0 && (match (p.1, q.1) {
                        (None, None) => true,
                        (Some(l), Some(lv)) => l@ == lv,
                        _ => false,
                    }),
                    None => false,
                },
            },
    {
        match Self::find_user_by_id(self, user_id) {
            None => None,
            Some(i) => {
                proof {
                    lemma_user_index_by_id(self@.users, user_id);
                }
                let row = self.users[i].clone();
                match Self::find_link_by_user(self, user_id) {
                    None => Some((row, None)),
                    Some(j) => {
                        proof {
                            lemma_link_index_by_user(self@.links, user_id);
                        }
                        let link = self.links[j].clone();
                        Some((row, Some(link)))
                    },
                }
            },
        }
    }

    /// The access token currently stored on the link with this key.
    pub fn stored_access_token(&self, provider: &String, provider_id: &String) -> (r: Option<
        &String,
    >)
        ensures
            match r {
                Some(t) => spec_link_token(self@, provider@, provider_id@) == Some(t@),
                None => spec_link_token(self@, provider@, provider_id@) is None,
            },
    {
        match Self::find_link_by_key(self, provider, provider_id) {
            Some(i) => {
                proof {
                    lemma_link_index_by_key(self@.links, provider@, provider_id@);
                }
                Some(&self.links[i].access_token)
            },
            None => None,
        }
    }
}

} // verus!
