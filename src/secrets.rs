//! The credential store: per-provider API credentials, keyed by provider
//! name. Reading and writing the file that holds them is left to the caller.
use vstd::prelude::*;

use crate::assoc::{
    assoc_map, keys_unique, lemma_absent, lemma_found, lemma_push, lemma_remove, lemma_update,
};
use crate::config::config_dir_spec;
use crate::dns::Credentials;

verus! {

/// The stored credentials of every provider, each provider once.
pub struct CredentialsFile {
    providers: Vec<(String, Credentials)>,
}

/// A provider that has no stored credentials.
#[derive(Clone, Debug)]
pub enum CredentialError {
    NotFound { provider: String },
}

impl CredentialError {
    /// The provider the error is about.
    pub open spec fn provider_spec(self) -> Seq<char> {
        match self {
            CredentialError::NotFound { provider } => provider@,
        }
    }

    /// The text shown for a failed lookup, pointing at the command that stores
    /// credentials.
    pub fn message(&self) -> (r: String)
        ensures
            r@ == "Credentials not found for provider: "@ + self.provider_spec()
                + ". Use 'ipdnsd set-key "@ + self.provider_spec() + "' to store credentials."@,
    {
        match self {
            CredentialError::NotFound { provider } => {
                let r = String::from_str("Credentials not found for provider: ");
                let r = r.concat(provider.as_str());
                let r = r.concat(". Use 'ipdnsd set-key ");
                let r = r.concat(provider.as_str());
                r.concat("' to store credentials.")
            },
        }
    }
}

pub open spec fn pair_view(p: (String, Credentials)) -> (Seq<char>, (Seq<char>, Seq<char>)) {
    (p.0@, p.1@)
}

impl CredentialsFile {
    pub closed spec fn pairs(&self) -> Seq<(Seq<char>, (Seq<char>, Seq<char>))> {
        self.providers@.map_values(|p: (String, Credentials)| pair_view(p))
    }

    #[verifier::type_invariant]
    closed spec fn inv(&self) -> bool {
        keys_unique(self.pairs())
    }

    pub fn new() -> (r: CredentialsFile)
        ensures
            r@ == Map::<Seq<char>, (Seq<char>, Seq<char>)>::empty(),
    {
        let r = CredentialsFile { providers: Vec::new() };
        assert(r.pairs() =~= Seq::empty());
        r
    }

    /// The stored pairs, each provider once, in the order they were first
    /// stored.
    pub fn providers(&self) -> (r: &Vec<(String, Credentials)>)
        ensures
            assoc_map(r@.map_values(|p: (String, Credentials)| pair_view(p))) == self@,
            keys_unique(r@.map_values(|p: (String, Credentials)| pair_view(p))),
    {
        proof {
            use_type_invariant(self);
        }
        &self.providers
    }

    /// Where `provider` stands, if anywhere.
    fn find(&self, provider: &str) -> (r: Option<usize>)
        ensures
            match r {
                Some(i) => i < self.pairs().len() && self.pairs()[i as int].0 == provider@,
                None => forall|i: int|
                    0 <= i < self.pairs().len() ==> self.pairs()[i].0 != provider@,
            },
    {
        let key = String::from_str(provider);
        let mut i: usize = 0;
        while i < self.providers.len()
            invariant
                i <= self.providers@.len(),
                key@ == provider@,
                forall|j: int| 0 <= j < i ==> self.pairs()[j].0 != provider@,
            decreases self.providers@.len() - i,
        {
            if self.providers[i].0 == key {
                return Some(i);
            }
            i = i + 1;
        }
        None
    }
}

impl View for CredentialsFile {
    type V = Map<Seq<char>, (Seq<char>, Seq<char>)>;

    closed spec fn view(&self) -> Map<Seq<char>, (Seq<char>, Seq<char>)> {
        assoc_map(self.pairs())
    }
}

/// Where the credentials are kept on disk.
pub fn credentials_path() -> (r: String)
    ensures
        r@ == config_dir_spec() + "/credentials.toml"@,
{
    String::from_str("/etc/ipdnsd").concat("/credentials.toml")
}

/// Stores the credentials of `provider`, replacing any it had.
pub fn store_credentials(file: &mut CredentialsFile, provider: &str, api_key: &str, api_secret: &str)
    ensures
        final(file)@ == old(file)@.insert(provider@, (api_key@, api_secret@)),
{
    proof {
        use_type_invariant(&*file);
    }
    let creds = Credentials {
        api_key: String::from_str(api_key),
        api_secret: String::from_str(api_secret),
    };
    let ghost s = file.pairs();
    let found = file.find(provider);
    let mut taken = CredentialsFile::new();
            std::mem::swap(file, &mut taken);
    let mut providers = taken.providers;
    match found {
        Some(i) => {
            proof {
                lemma_update(s, i as int, (api_key@, api_secret@));
            }
            providers.set(i, (String::from_str(provider), creds));
            assert(providers@.map_values(|p: (String, Credentials)| pair_view(p)) =~= s.update(
                i as int,
                (s[i as int].0, (api_key@, api_secret@)),
            ));
        },
        None => {
            proof {
                lemma_push(s, provider@, (api_key@, api_secret@));
            }
            providers.push((String::from_str(provider), creds));
            assert(providers@.map_values(|p: (String, Credentials)| pair_view(p)) =~= s.push(
                (provider@, (api_key@, api_secret@)),
            ));
        },
    }
    *file = CredentialsFile { providers };
}

/// The credentials of `provider`, or `NotFound` when none are stored.
pub fn get_credentials(file: &CredentialsFile, provider: &str) -> (r: Result<Credentials, CredentialError>)
    ensures
        r is Ok <==> file@.contains_key(provider@),
        r matches Ok(c) ==> c@ == file@[provider@],
        r matches Err(CredentialError::NotFound { provider: p }) ==> p@ == provider@,
{
    proof {
        use_type_invariant(file);
    }
    match file.find(provider) {
        Some(i) => {
            proof {
                lemma_found(file.pairs(), i as int);
            }
            let c = &file.providers[i].1;
            Ok(Credentials { api_key: c.api_key.clone(), api_secret: c.api_secret.clone() })
        },
        None => {
            proof {
                lemma_absent(file.pairs(), provider@);
            }
            Err(CredentialError::NotFound { provider: String::from_str(provider) })
        },
    }
}

/// Removes the credentials of `provider`; `NotFound`, and nothing changed,
/// when none are stored.
pub fn delete_credentials(file: &mut CredentialsFile, provider: &str) -> (r: Result<(), CredentialError>)
    ensures
        r is Ok <==> old(file)@.contains_key(provider@),
        r is Ok ==> final(file)@ == old(file)@.remove(provider@),
        r is Err ==> final(file)@ == old(file)@,
        r matches Err(CredentialError::NotFound { provider: p }) ==> p@ == provider@,
{
    proof {
        use_type_invariant(&*file);
    }
    let ghost s = file.pairs();
    match file.find(provider) {
        Some(i) => {
            proof {
                lemma_found(s, i as int);
                lemma_remove(s, i as int);
            }
            let mut taken = CredentialsFile::new();
            std::mem::swap(file, &mut taken);
            let mut providers = taken.providers;
            providers.remove(i);
            assert(providers@.map_values(|p: (String, Credentials)| pair_view(p)) =~= s.remove(
                i as int,
            ));
            *file = CredentialsFile { providers };
            Ok(())
        },
        None => {
            proof {
                lemma_absent(s, provider@);
            }
            Err(CredentialError::NotFound { provider: String::from_str(provider) })
        },
    }
}

} // verus!
