//! Entries of a credentials file.
use crate::collections::{is_sorted, TextSet};
use crate::config::{
    actions_sorted, config_error_message, names_action, AccessKeyConfig, ActionSet, ConfigErrorView,
    CredentialView, S3Action,
};
use crate::text::{opt_text, texts};
use vstd::prelude::*;

verus! {

/// What is said of an action name that is not supported.
pub open spec fn unsupported_action_message() -> Seq<char> {
    config_error_message(
        ConfigErrorView::InvalidAuthConfig(
            "allowed_actions must contain supported S3 action names"@,
        ),
    )
}

/// Whether a text names an action.
pub open spec fn is_action_name(text: Seq<char>) -> bool {
    exists|action: S3Action| names_action(text, action)
}

/// Parses an action name of the command line or of a credentials file.
pub fn parse_s3_action(value: &str) -> (result: Result<S3Action, String>)
    ensures
        match result {
            Ok(action) => names_action(value@, action),
            Err(message) => !is_action_name(value@) && message@ == unsupported_action_message(),
        },
{
    match S3Action::from_str(value) {
        Ok(action) => Ok(action),
        Err(error) => Err(error.message()),
    }
}

/// Credentials are active unless their entry says otherwise.
pub fn default_active() -> (active: bool)
    ensures
        active,
{
    true
}

/// One entry of a credentials file.
#[derive(Debug)]
pub struct CredentialFileEntry {
    /// Access key ID.
    pub access_key_id: String,
    /// Secret key.
    pub secret_key: String,
    /// Optional session token.
    pub session_token: Option<String>,
    /// Whether the credential can authenticate requests.
    pub active: bool,
    /// Bucket allow-list.
    pub allowed_buckets: Vec<String>,
    /// Action allow-list, by name.
    pub allowed_actions: Vec<String>,
}

/// Whether every action that an entry lists is supported.
pub open spec fn is_supported(entry: CredentialFileEntry) -> bool {
    forall|i: int|
        0 <= i < entry.allowed_actions@.len() ==> is_action_name(
            #[trigger] entry.allowed_actions@[i]@,
        )
}

/// Whether a name among some names is the name of an action.
pub open spec fn some_name_of(names: Seq<Seq<char>>, action: S3Action) -> bool {
    exists|i: int| 0 <= i < names.len() && names_action(#[trigger] names[i], action)
}

/// Whether a credential is the one that an entry describes: its lists hold what the entry lists,
/// in order and without repetition.
pub open spec fn describes(entry: CredentialFileEntry, credential: CredentialView) -> bool {
    &&& credential.access_key_id == entry.access_key_id@
    &&& credential.secret_key == entry.secret_key@
    &&& credential.session_token == opt_text(entry.session_token)
    &&& credential.active == entry.active
    &&& is_sorted(credential.allowed_buckets)
    &&& credential.allowed_buckets.to_set() == texts(entry.allowed_buckets@).to_set()
    &&& actions_sorted(credential.allowed_actions)
    &&& forall|action: S3Action|
        credential.allowed_actions.to_set().contains(action) <==> #[trigger] some_name_of(
            texts(entry.allowed_actions@),
            action,
        )
}

impl CredentialFileEntry {
    /// Makes the credential that the entry describes.
    pub fn try_into_config(self) -> (result: Result<AccessKeyConfig, String>)
        ensures
            match result {
                Ok(config) => is_supported(self) && describes(self, config@),
                Err(message) => !is_supported(self) && message@ == unsupported_action_message(),
            },
    {
        let ghost names = texts(self.allowed_actions@);
        let mut actions = ActionSet::new();
        let mut i: usize = 0;
        assert(forall|action: S3Action| !some_name_of(names.take(0), action));
        while i < self.allowed_actions.len()
            invariant
                i <= self.allowed_actions@.len(),
                names == texts(self.allowed_actions@),
                actions_sorted(actions@),
                forall|j: int| 0 <= j < i ==> is_action_name(#[trigger] self.allowed_actions@[j]@),
                forall|action: S3Action|
                    actions@.to_set().contains(action) <==> #[trigger] some_name_of(
                        names.take(i as int),
                        action,
                    ),
            decreases self.allowed_actions.len() - i,
        {
            let action = match parse_s3_action(self.allowed_actions[i].as_str()) {
                Ok(action) => action,
                Err(message) => {
                    assert(!is_action_name(self.allowed_actions@[i as int]@));
                    return Err(message);
                },
            };
            let ghost before = actions@.to_set();
            actions.insert(action);
            proof {
                let shorter = names.take(i as int);
                let longer = names.take(i + 1);
                let name = names[i as int];
                assert forall|other: S3Action|
                    actions@.to_set().contains(other) <==> #[trigger] some_name_of(
                        longer,
                        other,
                    ) by {
                    if some_name_of(shorter, other) {
                        let k = choose|k: int|
                            0 <= k < shorter.len() && names_action(#[trigger] shorter[k], other);
                        assert(longer[k] == shorter[k]);
                    }
                    if other == action {
                        assert(longer[i as int] == name);
                    }
                    if some_name_of(longer, other) {
                        let k = choose|k: int|
                            0 <= k < longer.len() && names_action(#[trigger] longer[k], other);
                        if k < i {
                            assert(shorter[k] == longer[k]);
                        } else {
                            crate::config::law_action_names_are_unambiguous(name, action, other);
                        }
                    }
                }
            }
            i += 1;
        }
        assert(names.take(i as int) =~= names);
        let allowed_buckets = TextSet::from_list(&self.allowed_buckets);
        Ok(
            AccessKeyConfig {
                access_key_id: self.access_key_id,
                secret_key: self.secret_key,
                session_token: self.session_token,
                active: self.active,
                allowed_buckets,
                allowed_actions: actions,
            },
        )
    }
}

/// Makes the credentials that the entries of a file describe, in order. One action that is not
/// supported makes the whole file unusable.
pub fn credentials_from_entries(entries: Vec<CredentialFileEntry>) -> (result: Result<
    Vec<AccessKeyConfig>,
    String,
>)
    ensures
        match result {
            Ok(list) => {
                &&& list@.len() == entries@.len()
                &&& forall|i: int|
                    0 <= i < entries@.len() ==> is_supported(#[trigger] entries@[i]) && describes(
                        entries@[i],
                        list@[i]@,
                    )
            },
            Err(message) => {
                &&& exists|i: int| 0 <= i < entries@.len() && !is_supported(#[trigger] entries@[i])
                &&& message@ == unsupported_action_message()
            },
        },
{
    let ghost all = entries@;
    let mut rest = entries;
    let mut list: Vec<AccessKeyConfig> = Vec::new();
    while rest.len() > 0
        invariant
            all == entries@,
            list@.len() + rest@.len() == all.len(),
            rest@ == all.skip(list@.len() as int),
            forall|i: int|
                0 <= i < list@.len() ==> is_supported(#[trigger] all[i]) && describes(
                    all[i],
                    list@[i]@,
                ),
        decreases rest@.len(),
    {
        let ghost at = list@.len() as int;
        let entry = rest.remove(0);
        assert(entry == all[at]);
        assert(rest@ =~= all.skip(at + 1));
        match entry.try_into_config() {
            Ok(config) => list.push(config),
            Err(message) => {
                return Err(message);
            },
        }
    }
    Ok(list)
}

} // verus!
