use vstd::prelude::*;

verus! {

/// Outside services that need an API key.
#[derive(Clone, Copy, Debug, PartialEq, Eq, Structural, Hash)]
pub enum APIProvider {
    Anthropic,
    BraveSearch,
    SendGrid,
}

/// The settings that affect outside services, permissions and other
/// configuration. All projects share one workspace.
#[derive(Debug)]
pub struct Workspace {
    pub uuid: String,
    pub name: String,
    pub description: Option<String>,
    /// API keys by provider; the first entry of a provider is its key.
    pub api_keys: Vec<(APIProvider, String)>,
    pub sendgrid_sender_email: Option<String>,
    pub sendgrid_receiver_email: Option<String>,
}

/// The changes to a workspace that the user asks for.
#[derive(Debug)]
pub struct WorkspaceUpdate {
    pub name: Option<String>,
    pub description: Option<String>,
    pub anthropic_api_key: Option<String>,
    pub brave_search_api_key: Option<String>,
    pub sendgrid_api_key: Option<String>,
    pub sendgrid_sender_email: Option<String>,
    pub sendgrid_receiver_email: Option<String>,
}

/// The collection of workspaces.
pub struct WorkspaceCollection {}

/// The key stored for a provider: that of its first entry.
pub open spec fn stored_key(keys: Seq<(APIProvider, String)>, p: APIProvider) -> Option<String>
    decreases keys.len(),
{
    if keys.len() == 0 {
        None
    } else if keys[0].0 == p {
        Some(keys[0].1)
    } else {
        stored_key(keys.subrange(1, keys.len() as int), p)
    }
}

/// The key of a provider, when one is stored and it is not empty.
pub open spec fn api_key_of(keys: Seq<(APIProvider, String)>, p: APIProvider) -> Option<String> {
    match stored_key(keys, p) {
        Some(k) => if k@.len() == 0 {
            None
        } else {
            Some(k)
        },
        None => None,
    }
}

/// The test that an entry is for another provider than `p`.
pub open spec fn other_provider(p: APIProvider) -> spec_fn((APIProvider, String)) -> bool {
    |e: (APIProvider, String)| e.0 != p
}

/// The keys after storing `key` for `p`.
pub open spec fn keys_with(keys: Seq<(APIProvider, String)>, p: APIProvider, key: String) -> Seq<(APIProvider, String)> {
    keys.filter(other_provider(p)).push((p, key))
}

/// True when no provider has two entries, as in a map from providers to
/// keys.
pub open spec fn providers_distinct(keys: Seq<(APIProvider, String)>) -> bool {
    forall|i: int, j: int| 0 <= i < j < keys.len() ==> (#[trigger] keys[i]).0 != (#[trigger] keys[j]).0
}

/// Keeping some of the entries keeps each provider once, and keeps only
/// entries the list had.
proof fn lemma_filter_keeps_distinct(s: Seq<(APIProvider, String)>, q: spec_fn((APIProvider, String)) -> bool)
    requires
        providers_distinct(s),
    ensures
        providers_distinct(s.filter(q)),
        forall|x: (APIProvider, String)| #[trigger] s.filter(q).contains(x) ==> s.contains(x),
    decreases s.len(),
{
    if s.len() > 0 {
        let t = s.drop_last();
        let x = s.last();
        assert(providers_distinct(t)) by {
            assert forall|i: int, j: int| 0 <= i < j < t.len() implies (#[trigger] t[i]).0 != (#[trigger] t[j]).0 by {
                assert(t[i] == s[i] && t[j] == s[j]);
            }
        }
        lemma_filter_keeps_distinct(t, q);
        assert(s =~= t.push(x));
        crate::engine::api::lemma_filter_push(t, x, q);
        let f = t.filter(q);
        assert forall|y: (APIProvider, String)| s.filter(q).contains(y) implies s.contains(y) by {
            if f.contains(y) {
                assert(t.contains(y));
                let k = choose|k: int| 0 <= k < t.len() && t[k] == y;
                assert(s[k] == y);
            } else {
                assert(s[s.len() - 1] == y);
            }
        }
        if q(x) {
            let g = f.push(x);
            assert forall|i: int, j: int| 0 <= i < j < g.len() implies (#[trigger] g[i]).0 != (#[trigger] g[j]).0 by {
                if j == f.len() {
                    assert(g[i] == f[i]);
                    assert(f.contains(f[i]));
                    assert(t.contains(f[i]));
                    let k = choose|k: int| 0 <= k < t.len() && t[k] == f[i];
                    assert(s[k] == f[i]);
                    assert(s[s.len() - 1] == x);
                } else {
                    assert(g[i] == f[i] && g[j] == f[j]);
                }
            }
        }
    }
}

/// Storing a key keeps each provider once.
pub proof fn lemma_keys_with_distinct(keys: Seq<(APIProvider, String)>, p: APIProvider, key: String)
    requires
        providers_distinct(keys),
    ensures
        providers_distinct(keys_with(keys, p, key)),
{
    let q = other_provider(p);
    lemma_filter_keeps_distinct(keys, q);
    let f = keys.filter(q);
    keys.filter_lemma(q);
    let g = f.push((p, key));
    assert forall|i: int, j: int| 0 <= i < j < g.len() implies (#[trigger] g[i]).0 != (#[trigger] g[j]).0 by {
        if j == f.len() {
            assert(g[i] == f[i]);
            assert(q(f[i]));
        } else {
            assert(g[i] == f[i] && g[j] == f[j]);
        }
    }
}

impl Workspace {
    /// The API key of a provider; none when it is missing or empty.
    pub fn get_api_key(&self, provider: &APIProvider) -> (r: Option<&String>)
        ensures
            match r {
                Some(k) => api_key_of(self.api_keys@, *provider) == Some(*k),
                None => api_key_of(self.api_keys@, *provider) is None,
            },
    {
        let mut i: usize = 0;
        assert(self.api_keys@.subrange(0, self.api_keys@.len() as int) =~= self.api_keys@);
        while i < self.api_keys.len()
            invariant
                i <= self.api_keys@.len(),
                stored_key(self.api_keys@, *provider) == stored_key(
                    self.api_keys@.subrange(i as int, self.api_keys@.len() as int),
                    *provider,
                ),
            decreases self.api_keys@.len() - i,
        {
            let ghost rest = self.api_keys@.subrange(i as int, self.api_keys@.len() as int);
            if self.api_keys[i].0 == *provider {
                let key = &self.api_keys[i].1;
                if key.as_str().is_empty() {
                    return None;
                } else {
                    return Some(key);
                }
            }
            assert(rest.subrange(1, rest.len() as int) =~= self.api_keys@.subrange(
                i as int + 1,
                self.api_keys@.len() as int,
            ));
            i = i + 1;
        }
        None
    }

    /// Stores the key of a provider, in place of any key it had.
    pub fn set_api_key(&mut self, provider: APIProvider, key: String)
        ensures
            final(self).api_keys@ == keys_with(old(self).api_keys@, provider, key),
            providers_distinct(old(self).api_keys@) ==> providers_distinct(final(self).api_keys@),
            final(self).uuid == old(self).uuid,
            final(self).name == old(self).name,
            final(self).description == old(self).description,
            final(self).sendgrid_sender_email == old(self).sendgrid_sender_email,
            final(self).sendgrid_receiver_email == old(self).sendgrid_receiver_email,
    {
        let ghost p = other_provider(provider);
        let mut kept: Vec<(APIProvider, String)> = Vec::new();
        let mut i: usize = 0;
        while i < self.api_keys.len()
            invariant
                i <= self.api_keys@.len(),
                self.api_keys@ == old(self).api_keys@,
                p == other_provider(provider),
                kept@ == self.api_keys@.subrange(0, i as int).filter(p),
            decreases self.api_keys@.len() - i,
        {
            let e = &self.api_keys[i];
            proof {
                assert(self.api_keys@.subrange(0, i as int + 1) =~= self.api_keys@.subrange(0, i as int).push(*e));
                crate::engine::api::lemma_filter_push(self.api_keys@.subrange(0, i as int), *e, p);
            }
            if e.0 != provider {
                kept.push((e.0, e.1.clone()));
            }
            i = i + 1;
        }
        assert(self.api_keys@.subrange(0, self.api_keys@.len() as int) =~= self.api_keys@);
        kept.push((provider, key));
        self.api_keys = kept;
        proof {
            if providers_distinct(old(self).api_keys@) {
                lemma_keys_with_distinct(old(self).api_keys@, provider, key);
            }
        }
    }

    /// The workspace after the update: each API key and each SendGrid email
    /// address that the update sets is stored; the name and description are
    /// not taken over, and nothing else changes.
    pub fn apply_update(&mut self, update: &WorkspaceUpdate)
        ensures
            final(self).api_keys@ == {
                let k1 = match update.anthropic_api_key {
                    Some(k) => keys_with(old(self).api_keys@, APIProvider::Anthropic, k),
                    None => old(self).api_keys@,
                };
                let k2 = match update.brave_search_api_key {
                    Some(k) => keys_with(k1, APIProvider::BraveSearch, k),
                    None => k1,
                };
                match update.sendgrid_api_key {
                    Some(k) => keys_with(k2, APIProvider::SendGrid, k),
                    None => k2,
                }
            },
            providers_distinct(old(self).api_keys@) ==> providers_distinct(final(self).api_keys@),
            final(self).uuid == old(self).uuid,
            final(self).name == old(self).name,
            final(self).description == old(self).description,
            final(self).sendgrid_sender_email == if update.sendgrid_sender_email is Some {
                update.sendgrid_sender_email
            } else {
                old(self).sendgrid_sender_email
            },
            final(self).sendgrid_receiver_email == if update.sendgrid_receiver_email is Some {
                update.sendgrid_receiver_email
            } else {
                old(self).sendgrid_receiver_email
            },
    {
        if let Some(k) = &update.anthropic_api_key {
            self.set_api_key(APIProvider::Anthropic, k.clone());
        }
        if let Some(k) = &update.brave_search_api_key {
            self.set_api_key(APIProvider::BraveSearch, k.clone());
        }
        if let Some(k) = &update.sendgrid_api_key {
            self.set_api_key(APIProvider::SendGrid, k.clone());
        }
        if update.sendgrid_sender_email.is_some() {
            self.sendgrid_sender_email = update.sendgrid_sender_email.clone();
        }
        if update.sendgrid_receiver_email.is_some() {
            self.sendgrid_receiver_email = update.sendgrid_receiver_email.clone();
        }
    }
}

impl WorkspaceCollection {
    /// The workspace created when there is none: named "Default", with no
    /// description, keys or emails.
    pub fn new_default(uuid: String) -> (r: Workspace)
        ensures
            r.uuid == uuid,
            r.name@ == "Default"@,
            r.description is None,
            r.api_keys@.len() == 0,
            providers_distinct(r.api_keys@),
            r.sendgrid_sender_email is None,
            r.sendgrid_receiver_email is None,
    {
        Workspace {
            uuid,
            name: String::from_str("Default"),
            description: None,
            api_keys: Vec::new(),
            sendgrid_sender_email: None,
            sendgrid_receiver_email: None,
        }
    }
}

} // verus!
