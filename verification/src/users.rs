//! Users: a row is created the first time a caller is seen, and never
//! again.

use crate::ids::{current_timestamp, identity_text, identity_to_string};
use crate::model::{User, UserView};
use crate::store::{MusicStore, StoreView};
use vstd::prelude::*;
use vstd::string::*;

verus! {

/// How many characters of an identity go into a username.
pub const USERNAME_DIGITS: usize = 8;

/// The first characters of `identity` that go into a username: eight, or
/// all of them where there are fewer.
pub open spec fn identity_prefix(identity: Seq<char>) -> Seq<char> {
    if identity.len() < USERNAME_DIGITS {
        identity
    } else {
        identity.take(USERNAME_DIGITS as int)
    }
}

/// The username that a caller gets on first contact: `user_` followed by
/// the first eight characters of the identity.
pub open spec fn username_for(identity: Seq<char>) -> Seq<char> {
    "user_"@ + identity_prefix(identity)
}

impl StoreView {
    /// The store with one more user at the end.
    pub open spec fn with_user(self, user: UserView) -> StoreView {
        StoreView { users: self.users.push(user), ..self }
    }

    /// The store after the caller `identity` was seen at `date_joined`: with
    /// a new user row where the identity had none, else unchanged.
    pub open spec fn registered(self, identity: Seq<char>, date_joined: u64) -> StoreView {
        if self.has_user(identity) {
            self
        } else {
            self.with_user(
                UserView { id: identity, username: username_for(identity), date_joined },
            )
        }
    }
}

/// The username for `identity`.
pub fn make_username(identity: &String) -> (username: String)
    ensures
        username@ == username_for(identity@),
{
    let text = identity.as_str();
    let length = text.unicode_len();
    let taken = if length < USERNAME_DIGITS {
        length
    } else {
        USERNAME_DIGITS
    };
    let prefix = text.substring_char(0, taken);
    proof {
        assert(identity@.subrange(0, taken as int) =~= identity_prefix(identity@));
    }
    String::from_str("user_").concat(prefix)
}

/// Makes sure that the caller `identity` has a user row: creates one, with
/// `date_joined` as its date, where there is none. Returns whether a row was
/// created.
pub fn register_user(store: &mut MusicStore, identity: String, date_joined: u64) -> (created: bool)
    ensures
        created == !old(store)@.has_user(identity@),
        final(store)@ == old(store)@.registered(identity@, date_joined),
        final(store)@.has_user(identity@),
        old(store)@.wf() ==> final(store)@.wf(),
{
    if store.has_user(&identity) {
        return false;
    }
    let username = make_username(&identity);
    let user = User { id: identity, username, date_joined };
    store.users.push(user);
    proof {
        let last = old(store)@.users.len() as int;
        assert(final(store)@.users =~= old(store)@.users.push(user@));
        assert(final(store)@.user_ids() =~= old(store)@.user_ids().push(user@.id));
        assert(final(store)@.user_ids()[last] == identity@);
    }
    true
}

/// Notes that a caller has connected: the caller gets a user row, named
/// after the first eight digits of the identity's text and dated now, unless
/// there is one already. Returns whether a row was created.
///
/// `identity` holds the 32 bytes of the caller's identity, most significant
/// first.
pub fn identity_connected(store: &mut MusicStore, identity: &[u8; 32]) -> (created: bool)
    ensures
        created == !old(store)@.has_user(identity_text(identity@)),
        final(store)@ == if created {
            old(store)@.with_user(
                UserView {
                    id: identity_text(identity@),
                    username: username_for(identity_text(identity@)),
                    date_joined: final(store)@.users.last().date_joined,
                },
            )
        } else {
            old(store)@
        },
        final(store)@.has_user(identity_text(identity@)),
        old(store)@.wf() ==> final(store)@.wf(),
{
    let user_id = identity_to_string(identity);
    let date_joined = current_timestamp();
    register_user(store, user_id, date_joined)
}

/// Seeing a caller again changes nothing: after the first contact a second
/// one, at whatever time, leaves the store as it is.
pub proof fn lemma_registration_is_idempotent(
    s: StoreView,
    identity: Seq<char>,
    first: u64,
    second: u64,
)
    ensures
        s.registered(identity, first).has_user(identity),
        s.registered(identity, first).registered(identity, second) == s.registered(
            identity,
            first,
        ),
{
    let once = s.registered(identity, first);
    if !s.has_user(identity) {
        assert(once.user_ids()[s.users.len() as int] == identity);
    }
}

} // verus!
