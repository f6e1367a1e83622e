//! Named secrets kept in the platform secret store.
//!
//! Every entry carries two attributes: a fixed application tag shared by all
//! entries of this tool, and a per-secret name tag. The store itself is the
//! platform's: what its calls return depends on the environment, so their
//! contracts state only what holds of every outcome, and the decisions taken
//! over those outcomes are verified here.

use vstd::prelude::*;
use std::collections::HashMap;
use oo7::Keyring as Oo7Keyring;

verus! {

/// A named secret: the account name and the Base32-encoded secret text.
#[derive(Debug)]
pub struct Secret {
    name: String,
    secret: String,
}

impl Secret {
    pub closed spec fn spec_name(&self) -> Seq<char> {
        self.name@
    }

    pub closed spec fn spec_secret(&self) -> Seq<char> {
        self.secret@
    }

    pub fn new(name: &str, secret: &str) -> (r: Self)
        ensures
            r.spec_name() == name@,
            r.spec_secret() == secret@,
    {
        Secret { name: name.to_owned(), secret: secret.to_owned() }
    }

    pub fn name(&self) -> (r: &str)
        ensures
            r@ == self.spec_name(),
    {
        self.name.as_str()
    }

    pub fn secret(&self) -> (r: &str)
        ensures
            r@ == self.spec_secret(),
    {
        self.secret.as_str()
    }
}

/// An error of the secret store, carrying a message.
#[derive(Debug, Clone)]
pub struct KeyringError {
    msg: String,
}

impl KeyringError {
    pub closed spec fn spec_msg(&self) -> Seq<char> {
        self.msg@
    }

    pub fn from_slice(msg: &str) -> (r: Self)
        ensures
            r.spec_msg() == msg@,
    {
        KeyringError { msg: msg.to_owned() }
    }

    pub fn from_string(msg: String) -> (r: Self)
        ensures
            r.spec_msg() == msg@,
    {
        KeyringError { msg }
    }

    pub fn message(&self) -> (r: &str)
        ensures
            r@ == self.spec_msg(),
    {
        self.msg.as_str()
    }
}

#[verifier::external_type_specification]
#[verifier::external_body]
pub struct ExOo7Keyring(Oo7Keyring);

#[verifier::external_type_specification]
#[verifier::external_body]
pub struct ExOo7Item(oo7::Item);

#[verifier::external_type_specification]
#[verifier::external_body]
pub struct ExTokioRuntime(tokio::runtime::Runtime);

/// A connection to the platform secret store, held for the process lifetime,
/// together with the event loop that drives its asynchronous calls.
pub struct Keyring {
    keyring: oo7::Keyring,
    runtime: tokio::runtime::Runtime,
}

impl Keyring {
    fn attribute_key() -> (r: &'static str)
        ensures
            r@ == "rauthp_secret_id"@,
    {
        "rauthp_secret_id"
    }

    /// The fixed tag that marks an entry as belonging to this tool.
    fn secrets_common_attribute() -> (r: Vec<(String, String)>)
        ensures
            r@.len() == 1,
            r@[0].0@ == "application_id"@,
            r@[0].1@ == "25fa6cf5-ba20-481d-b382-f3acab4da54e"@,
    {
        let mut v: Vec<(String, String)> = Vec::new();
        v.push(("application_id".to_owned(), "25fa6cf5-ba20-481d-b382-f3acab4da54e".to_owned()));
        v
    }

    /// The attributes of one named secret: the application tag and the name
    /// tag. Every entry this store creates carries both.
    fn secret_attributes(name: &str) -> (r: Vec<(String, String)>)
        ensures
            r@.len() == 2,
            r@[0].0@ == "application_id"@,
            r@[0].1@ == "25fa6cf5-ba20-481d-b382-f3acab4da54e"@,
            r@[1].0@ == "rauthp_secret_id"@,
            r@[1].1@ == name@,
    {
        let mut v = Self::secrets_common_attribute();
        v.push((Self::attribute_key().to_owned(), name.to_owned()));
        v
    }

    /// Relies on tokio's current-thread runtime `Builder`: an event loop that
    /// drives the store's asynchronous calls from synchronous code.
    #[verifier::external_body]
    fn build_runtime() -> (r: Result<tokio::runtime::Runtime, KeyringError>) {
        match tokio::runtime::Builder::new_current_thread().enable_all().build() {
            Ok(rt) => Ok(rt),
            Err(e) => Err(KeyringError::from_string(e.to_string())),
        }
    }

    /// Relies on oo7's `Keyring::new`: connects to the platform secret store.
    #[verifier::external_body]
    fn connect(runtime: &tokio::runtime::Runtime) -> (r: Result<oo7::Keyring, KeyringError>) {
        match runtime.block_on(oo7::Keyring::new()) {
            Ok(k) => Ok(k),
            Err(e) => Err(KeyringError::from_string(e.to_string())),
        }
    }

    /// Acquires the store connection; it is then held until the value drops.
    pub fn new() -> (r: Result<Keyring, KeyringError>) {
        let runtime = match Self::build_runtime() {
            Ok(rt) => rt,
            Err(e) => {
                return Err(e);
            },
        };
        let keyring = match Self::connect(&runtime) {
            Ok(k) => k,
            Err(e) => {
                return Err(e);
            },
        };
        Ok(Keyring { keyring, runtime })
    }

    /// Relies on oo7's `Keyring::search_items`: the entries whose attributes
    /// contain the given pairs. What comes back depends on the platform store.
    #[verifier::external_body]
    fn search(&self, attributes: &Vec<(String, String)>) -> (r: Result<
        Vec<oo7::Item>,
        KeyringError,
    >) {
        match self.runtime.block_on(self.keyring.search_items(attributes)) {
            Ok(items) => Ok(items),
            Err(e) => Err(KeyringError::from_string(e.to_string())),
        }
    }

    /// Relies on oo7's `Keyring::create_item`: persists one entry under the
    /// given label, attributes and text payload, replacing nothing. The
    /// precondition fixes the attributes, so every entry this store creates
    /// carries the application tag and exactly one name tag, the name being
    /// the label.
    #[verifier::external_body]
    fn create(&self, label: &str, attributes: &Vec<(String, String)>, secret: &str) -> (r: Result<
        (),
        KeyringError,
    >)
        requires
            attributes@.len() == 2,
            attributes@[0].0@ == "application_id"@,
            attributes@[0].1@ == "25fa6cf5-ba20-481d-b382-f3acab4da54e"@,
            attributes@[1].0@ == "rauthp_secret_id"@,
            attributes@[1].1@ == label@,
    {
        match self.runtime.block_on(self.keyring.create_item(label, attributes, secret, false)) {
            Ok(()) => Ok(()),
            Err(e) => Err(KeyringError::from_string(e.to_string())),
        }
    }

    /// Relies on oo7's `Keyring::delete`: removes the entries whose
    /// attributes contain the given pairs; removing none is not an error.
    #[verifier::external_body]
    fn delete(&self, attributes: &Vec<(String, String)>) -> (r: Result<(), KeyringError>) {
        match self.runtime.block_on(self.keyring.delete(attributes)) {
            Ok(()) => Ok(()),
            Err(e) => Err(KeyringError::from_string(e.to_string())),
        }
    }

    /// Relies on oo7's `Item::secret`: the stored payload, its bytes read as
    /// UTF-8 text (`None` when they are not valid UTF-8).
    #[verifier::external_body]
    fn item_secret_string(&self, item: &oo7::Item) -> (r: Result<Option<String>, KeyringError>) {
        match self.runtime.block_on(item.secret()) {
            Ok(secret) => Ok(String::from_utf8(secret.as_bytes().to_vec()).ok()),
            Err(e) => Err(KeyringError::from_string(e.to_string())),
        }
    }

    /// Relies on oo7's `Item::attributes`: the attribute pairs of one entry.
    #[verifier::external_body]
    fn item_attributes(&self, item: &oo7::Item) -> (r: Result<
        HashMap<String, String>,
        KeyringError,
    >) {
        match self.runtime.block_on(item.attributes()) {
            Ok(attrs) => Ok(attrs),
            Err(e) => Err(KeyringError::from_string(e.to_string())),
        }
    }

    /// Decides a lookup of `name` from what the store returned: how many
    /// entries matched, and the payload of the single match where there was
    /// one. No match gives `None`; more than one is a store inconsistency,
    /// since the name tag is expected unique; a single match without a
    /// readable payload is one too.
    pub fn resolve_lookup(name: &str, match_count: usize, value: Option<String>) -> (r: Result<
        Option<Secret>,
        KeyringError,
    >)
        ensures
            match_count == 0 ==> (r matches Ok(o) && o is None),
            match_count > 1 ==> (r matches Err(e) && e.spec_msg() == "Too many results"@),
            match_count == 1 && value is Some ==> (r matches Ok(o) && (o matches Some(s)
                && s.spec_name() == name@ && s.spec_secret() == value.unwrap()@)),
            match_count == 1 && value is None ==> (r matches Err(e) && e.spec_msg()
                == "Failed to read the value of the secret"@),
    {
        if match_count == 0 {
            return Ok(None);
        }
        if match_count > 1 {
            return Err(KeyringError::from_slice("Too many results"));
        }
        match value {
            Some(text) => Ok(Some(Secret::new(name, text.as_str()))),
            None => Err(KeyringError::from_slice("Failed to read the value of the secret")),
        }
    }

    /// Looks the name up under the application tag, deciding the outcome as
    /// `resolve_lookup` states it.
    pub fn get_secret(&self, name: &str) -> (r: Result<Option<Secret>, KeyringError>)
        ensures
            r matches Ok(Some(s)) ==> s.spec_name() == name@,
    {
        let attributes = Self::secret_attributes(name);
        let items = match self.search(&attributes) {
            Ok(items) => items,
            Err(e) => {
                return Err(e);
            },
        };
        let value: Option<String> = if items.len() == 1 {
            match self.item_secret_string(&items[0]) {
                Ok(v) => v,
                Err(e) => {
                    return Err(e);
                },
            }
        } else {
            None
        };
        Self::resolve_lookup(name, items.len(), value)
    }

    /// Decides a store from the outcome of the existence pre-check: a failed
    /// check is propagated unchanged, a found entry is reported as a
    /// duplicate — if and only if one was found — and only a clean miss
    /// clears the way for the insert.
    pub fn resolve_store(pre_check: Result<Option<Secret>, KeyringError>) -> (r: Result<
        (),
        KeyringError,
    >)
        ensures
            pre_check matches Ok(found) ==> (found is Some <==> (r matches Err(e) && e.spec_msg()
                == "Secret already exists"@)),
            pre_check matches Ok(found) && found is None ==> r is Ok,
            pre_check matches Err(e0) ==> r == Err::<(), KeyringError>(e0),
    {
        match pre_check {
            Err(e) => Err(e),
            Ok(found) => {
                if found.is_some() {
                    Err(KeyringError::from_slice("Secret already exists"))
                } else {
                    Ok(())
                }
            },
        }
    }

    /// Stores a new named secret. The name must be free: an entry that
    /// already carries it is reported, not replaced, as `resolve_store`
    /// states it, and the insert is reached only when that decision clears
    /// it; what the insert hands the backend is fixed by `create`'s
    /// precondition. The existence check and the insert are two separate
    /// round trips, so a concurrent writer may still insert the same name in
    /// between; this store does not guard against that.
    pub fn store_secret(&self, name: &str, secret: &str) -> (r: Result<(), KeyringError>) {
        let pre_check = self.get_secret(name);
        match Self::resolve_store(pre_check) {
            Err(e) => Err(e),
            Ok(()) => {
                let attributes = Self::secret_attributes(name);
                self.create(name, &attributes, secret)
            },
        }
    }

    /// Removes the entries carrying this name under the application tag.
    /// Deleting a name with no entry is a no-op, not an error.
    pub fn delete_secret(&self, name: &str) -> (r: Result<(), KeyringError>) {
        let attributes = Self::secret_attributes(name);
        self.delete(&attributes)
    }

    /// Builds the listing from what came back for each entry: its name
    /// attribute and its decoded payload. All-or-nothing: one incomplete
    /// entry fails the whole listing, so corruption is never silently
    /// dropped.
    pub fn collect_secrets(parts: Vec<(Option<String>, Option<String>)>) -> (r: Result<
        Vec<Secret>,
        KeyringError,
    >)
        ensures
            r is Ok <==> (forall|i: int|
                0 <= i < parts@.len() ==> parts@[i].0 is Some && parts@[i].1 is Some),
            r matches Ok(v) ==> {
                &&& v@.len() == parts@.len()
                &&& forall|i: int|
                    0 <= i < parts@.len() ==> v@[i].spec_name() == parts@[i].0.unwrap()@
                        && v@[i].spec_secret() == parts@[i].1.unwrap()@
            },
            r matches Err(e) ==> e.spec_msg() == "Failed to retrieve the value of a secret"@
                || e.spec_msg() == "Failed to retrieve the name of a secret"@,
    {
        let mut out: Vec<Secret> = Vec::new();
        let mut idx: usize = 0;
        while idx < parts.len()
            invariant
                idx <= parts@.len(),
                out@.len() == idx,
                forall|i: int| 0 <= i < idx ==> parts@[i].0 is Some && parts@[i].1 is Some,
                forall|i: int|
                    0 <= i < idx ==> out@[i].spec_name() == parts@[i].0.unwrap()@
                        && out@[i].spec_secret() == parts@[i].1.unwrap()@,
            decreases parts@.len() - idx,
        {
            match (&parts[idx].0, &parts[idx].1) {
                (_, None) => {
                    return Err(
                        KeyringError::from_slice("Failed to retrieve the value of a secret"),
                    );
                },
                (None, _) => {
                    return Err(KeyringError::from_slice("Failed to retrieve the name of a secret"));
                },
                (Some(name), Some(value)) => {
                    out.push(Secret::new(name.as_str(), value.as_str()));
                },
            }
            idx += 1;
        }
        Ok(out)
    }

    /// Lists every secret stored under the application tag, pairing each
    /// entry's name with its payload; fails as a whole when any entry comes
    /// back incomplete.
    pub fn get_all_secrets(&self) -> (r: Result<Vec<Secret>, KeyringError>) {
        let attributes = Self::secrets_common_attribute();
        let items = match self.search(&attributes) {
            Ok(items) => items,
            Err(e) => {
                return Err(e);
            },
        };
        let mut parts: Vec<(Option<String>, Option<String>)> = Vec::new();
        let mut idx: usize = 0;
        while idx < items.len()
            invariant
                idx <= items@.len(),
            decreases items@.len() - idx,
        {
            let value: Option<String> = match self.item_secret_string(&items[idx]) {
                Ok(v) => v,
                Err(_) => None,
            };
            let name: Option<String> = match self.item_attributes(&items[idx]) {
                Ok(attrs) => match attrs.get(Self::attribute_key()) {
                    Some(n) => Some(n.clone()),
                    None => None,
                },
                Err(_) => None,
            };
            parts.push((name, value));
            idx += 1;
        }
        Self::collect_secrets(parts)
    }
}

} // verus!
