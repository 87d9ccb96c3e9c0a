//! Proved statements that relate the backend's entry points to each other:
//! the CSRF gate rejects without side effects, the identity upsert is
//! idempotent with last-write-wins tokens, a fresh login reloads to the
//! same principal, and rotating a stored token invalidates sessions bound
//! to the old one.

use vstd::prelude::*;

use crate::backend::{
    google_provider, spec_authenticate, spec_get_user, CredentialsView, ProviderOutcomeView,
};
use crate::error::BackendError;
use crate::profile::GoogleResView;
use crate::store::{
    lemma_link_index_by_key, lemma_link_index_by_key_is, lemma_link_index_by_user_is,
    lemma_upsert_identity_wf, lemma_upsert_provider_link_wf, lemma_user_index_by_email,
    lemma_user_index_by_email_is, lemma_user_index_by_id, link_index_by_key, link_index_by_user,
    spec_link_token, spec_upsert_identity, spec_upsert_provider_link, store_wf,
    user_index_by_email, user_index_by_id, StoreView,
};
use crate::user::UserView;

verus! {

/// The store invariant is preserved by every authentication: whatever the
/// credentials and whatever the provider answered, the store stays
/// well-formed and each id counter advances by at most one.
pub proof fn lemma_authenticate_preserves_invariant(
    s: StoreView,
    creds: CredentialsView,
    outcome: ProviderOutcomeView,
)
    requires
        store_wf(s),
        s.next_user_id < u64::MAX,
        s.next_link_id < u64::MAX,
    ensures
        ({
            let (s2, r) = spec_authenticate(s, creds, outcome);
            &&& store_wf(s2)
            &&& s2.next_user_id <= s.next_user_id + 1
            &&& s2.next_link_id <= s.next_link_id + 1
        }),
{
    if creds.old_state == creds.new_state {
        match outcome {
            ProviderOutcomeView::Success(g) => {
                lemma_upsert_identity_wf(s, g.profile);
                let (s1, row) = spec_upsert_identity(s, g.profile);
                lemma_upsert_provider_link_wf(
                    s1,
                    google_provider(),
                    g.profile.sub,
                    row.id,
                    g.access_token,
                );
            },
            _ => {},
        }
    }
}

/// A CSRF mismatch is rejected outright: whatever the provider would have
/// answered, `authenticate` returns `Ok(None)` and the store is exactly the
/// store it started with — zero writes. Together with `begin_authenticate`
/// returning `None` on a mismatch, a mismatched callback causes zero calls
/// to the provider and zero calls to the store.
pub proof fn lemma_csrf_mismatch_rejects(
    s: StoreView,
    creds: CredentialsView,
    outcome: ProviderOutcomeView,
)
    requires
        creds.old_state != creds.new_state,
    ensures
        spec_authenticate(s, creds, outcome) == (
            s,
            Ok::<Option<UserView>, BackendError>(None),
        ),
{
}

/// A provider failure is a hard error that leaves the store untouched: an
/// outage is never reported as a mere rejection, and writes nothing.
pub proof fn lemma_provider_failure_is_hard_error(s: StoreView, creds: CredentialsView)
    requires
        creds.old_state == creds.new_state,
    ensures
        spec_authenticate(s, creds, ProviderOutcomeView::ExchangeFailed) == (
            s,
            Err::<Option<UserView>, BackendError>(BackendError::ProviderExchange),
        ),
        spec_authenticate(s, creds, ProviderOutcomeView::ProfileFailed) == (
            s,
            Err::<Option<UserView>, BackendError>(BackendError::ProviderProfile),
        ),
{
}

/// The upsert is idempotent on the identity: two successful logins whose
/// profiles carry the same email and the same provider subject yield the
/// same identity id, and the access token stored on the link afterwards is
/// the second login's token — last write wins.
pub proof fn lemma_upsert_idempotent(
    s0: StoreView,
    creds1: CredentialsView,
    creds2: CredentialsView,
    g1: GoogleResView,
    g2: GoogleResView,
)
    requires
        store_wf(s0),
        s0.next_user_id + 1 < u64::MAX,
        s0.next_link_id + 1 < u64::MAX,
        creds1.old_state == creds1.new_state,
        creds2.old_state == creds2.new_state,
        g1.profile.email == g2.profile.email,
        g1.profile.sub == g2.profile.sub,
    ensures
        ({
            let (s1, r1) = spec_authenticate(s0, creds1, ProviderOutcomeView::Success(g1));
            let (s2, r2) = spec_authenticate(s1, creds2, ProviderOutcomeView::Success(g2));
            match (r1, r2) {
                (Ok(Some(u1)), Ok(Some(u2))) => u1.id == u2.id && spec_link_token(
                    s2,
                    google_provider(),
                    g2.profile.sub,
                ) == Some(g2.access_token),
                _ => false,
            }
        }),
{
    let email = g1.profile.email;
    let sub = g1.profile.sub;

    // First login.
    lemma_user_index_by_email(s0.users, email);
    lemma_upsert_identity_wf(s0, g1.profile);
    let (sa, row1) = spec_upsert_identity(s0, g1.profile);
    lemma_upsert_provider_link_wf(sa, google_provider(), sub, row1.id, g1.access_token);
    let s1 = spec_upsert_provider_link(sa, google_provider(), sub, row1.id, g1.access_token);

    // The second identity upsert finds the same row.
    match user_index_by_email(s0.users, email) {
        Some(i) => {
            assert(sa.users[i] == row1);
            assert(forall|k: int|
                0 <= k < i ==> #[trigger] sa.users[k] == s0.users[k]);
            lemma_user_index_by_email_is(sa.users, email, i);
        },
        None => {
            assert(sa.users[s0.users.len() as int] == row1);
            assert(forall|k: int|
                0 <= k < s0.users.len() ==> #[trigger] sa.users[k] == s0.users[k]);
            lemma_user_index_by_email_is(sa.users, email, s0.users.len() as int);
        },
    }
    assert(s1.users == sa.users);
    lemma_upsert_identity_wf(s1, g2.profile);
    let (sb, row2) = spec_upsert_identity(s1, g2.profile);
    assert(row2.id == row1.id);

    // The first link upsert left a link keyed (google, sub) in s1.
    lemma_link_index_by_key(s0.links, google_provider(), sub);
    let ghost witness: int = match link_index_by_key(s0.links, google_provider(), sub) {
        Some(j) => j,
        None => s0.links.len() as int,
    };
    assert(0 <= witness < s1.links.len() && s1.links[witness].provider == google_provider()
        && s1.links[witness].provider_id == sub);

    // So the second link upsert updates some keyed link with g2's token.
    assert(sb.links == s1.links);
    lemma_link_index_by_key(sb.links, google_provider(), sub);
    let j2 = match link_index_by_key(sb.links, google_provider(), sub) {
        Some(j) => j,
        None => {
            assert(!(sb.links[witness].provider == google_provider()
                && sb.links[witness].provider_id == sub));
            0
        },
    };
    let s2 = spec_upsert_provider_link(sb, google_provider(), sub, row2.id, g2.access_token);
    assert(forall|k: int| 0 <= k < j2 ==> #[trigger] s2.links[k] == sb.links[k]);
    lemma_link_index_by_key_is(s2.links, google_provider(), sub, j2);
    assert(s2.links[j2].access_token == g2.access_token);
}

/// The identities and links touched by a login for this (email, subject)
/// pair are mutually consistent in the store: every link of the email's
/// identity carries this (provider, subject) key, and the link with this
/// key, if stored at all, belongs to that identity. This holds in
/// particular of every store populated only by logins whose provider
/// subject determines the email.
pub open spec fn profile_subject_consistent(
    s: StoreView,
    email: Seq<char>,
    sub: Seq<char>,
) -> bool {
    &&& match user_index_by_email(s.users, email) {
        Some(i) => forall|k: int|
            0 <= k < s.links.len() && (#[trigger] s.links[k]).user_id == s.users[i].id
                ==> s.links[k].provider == google_provider() && s.links[k].provider_id == sub,
        None => true,
    }
    &&& match link_index_by_key(s.links, google_provider(), sub) {
        Some(j) => match user_index_by_email(s.users, email) {
            Some(i) => s.links[j].user_id == s.users[i].id,
            None => false,
        },
        None => true,
    }
}

/// Reload consistency: after a successful login, reloading the returned
/// principal's id yields a principal with the same id, the same email, and
/// the access token of that login.
pub proof fn lemma_reload_consistency(s0: StoreView, creds: CredentialsView, g: GoogleResView)
    requires
        store_wf(s0),
        s0.next_user_id < u64::MAX,
        s0.next_link_id < u64::MAX,
        creds.old_state == creds.new_state,
        profile_subject_consistent(s0, g.profile.email, g.profile.sub),
    ensures
        ({
            let (s1, r1) = spec_authenticate(s0, creds, ProviderOutcomeView::Success(g));
            match r1 {
                Ok(Some(u)) => spec_get_user(s1, u.id) == Ok::<Option<UserView>, BackendError>(
                    Some(UserView { id: u.id, email: u.email, access_token: g.access_token }),
                ),
                _ => false,
            }
        }),
{
    let email = g.profile.email;
    let sub = g.profile.sub;

    lemma_user_index_by_email(s0.users, email);
    lemma_upsert_identity_wf(s0, g.profile);
    let (sa, row) = spec_upsert_identity(s0, g.profile);
    lemma_upsert_provider_link_wf(sa, google_provider(), sub, row.id, g.access_token);
    let s1 = spec_upsert_provider_link(sa, google_provider(), sub, row.id, g.access_token);

    // The identity row is found again by its id, and it is `row`.
    lemma_user_index_by_id(sa.users, row.id);
    let i2 = user_index_by_id(sa.users, row.id)->Some_0;
    assert(sa.users[i2].id == row.id);
    match user_index_by_email(s0.users, email) {
        Some(i) => {
            assert(sa.users[i] == row);
            assert(sa.users[i2] == row);
        },
        None => {
            assert(sa.users[s0.users.len() as int] == row);
            assert(sa.users[i2] == row);
        },
    }

    // The first link of that identity is the one this login wrote.
    lemma_link_index_by_key(s0.links, google_provider(), sub);
    match link_index_by_key(s0.links, google_provider(), sub) {
        Some(j0) => {
            // The keyed link belongs to the email's identity, so the email
            // was present and row.id is that identity's id.
            let i = user_index_by_email(s0.users, email)->Some_0;
            assert(s0.links[j0].user_id == s0.users[i].id);
            assert(row.id == s0.users[i].id);
            assert(s1.links[j0].user_id == row.id);
            assert(s1.links[j0].access_token == g.access_token);
            assert forall|k: int| 0 <= k < j0 implies (#[trigger] s1.links[k]).user_id != row.id by {
                assert(s1.links[k] == s0.links[k]);
                if s0.links[k].user_id == row.id {
                    assert(s0.links[k].provider == google_provider() && s0.links[k].provider_id
                        == sub);
                }
            }
            lemma_link_index_by_user_is(s1.links, row.id, j0);
        },
        None => {
            // No keyed link: the login pushed a fresh one, and the identity
            // had no other link.
            let pushed = s0.links.len() as int;
            assert(s1.links[pushed].user_id == row.id);
            assert(s1.links[pushed].access_token == g.access_token);
            assert forall|k: int| 0 <= k < pushed implies (#[trigger] s1.links[k]).user_id
                != row.id by {
                assert(s1.links[k] == s0.links[k]);
                match user_index_by_email(s0.users, email) {
                    Some(i) => {
                        if s0.links[k].user_id == row.id {
                            assert(s0.links[k].provider == google_provider()
                                && s0.links[k].provider_id == sub);
                        }
                    },
                    None => {
                        // row.id is fresh: every stored link references an
                        // identity whose id is below the counter.
                        let w = choose|w: int|
                            0 <= w < s0.users.len() && #[trigger] s0.users[w].id
                                == s0.links[k].user_id;
                        assert(s0.users[w].id < s0.next_user_id);
                    },
                }
            }
            lemma_link_index_by_user_is(s1.links, row.id, pushed);
        },
    }
}

/// Session-integrity invalidation: once every link of an identity carries
/// an access token different from the one a session captured at login,
/// reloading that identity can only return a principal whose integrity
/// secret differs — the stored session fails its integrity check and is
/// forced to log in again.
pub proof fn lemma_session_integrity_invalidation(s: StoreView, user_id: u64, old_hash: Seq<char>)
    requires
        forall|k: int|
            0 <= k < s.links.len() && (#[trigger] s.links[k]).user_id == user_id
                ==> s.links[k].access_token != old_hash,
    ensures
        match spec_get_user(s, user_id) {
            Ok(Some(p)) => p.access_token != old_hash,
            _ => true,
        },
{
    crate::store::lemma_link_index_by_user(s.links, user_id);
}

} // verus!
