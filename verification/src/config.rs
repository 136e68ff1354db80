use vstd::prelude::*;
use crate::text::concat;

verus! {

/// Settings of the command line tool, kept in the user's config directory.
#[derive(Debug)]
pub struct Settings {
    pub path_to_storage_dir: Option<String>,
    /// When the hostname is set, certificates are looked for under
    /// `<config dir>/pixlie_ai/<hostname>/Certificates/`.
    pub hostname: Option<String>,
}

/// The hostname to serve the API on, with the paths of its certificate and
/// key.
#[derive(Debug)]
pub struct WithHostname {
    pub hostname: String,
    pub path_to_certificate: String,
    pub path_to_key: String,
}

/// Why the settings are not complete.
#[derive(Clone, Copy, Debug, PartialEq, Eq, Structural)]
pub enum SettingsIncompleteReason {
    StorageDirNotConfigured,
}

/// Whether the settings are complete, and if not, why.
#[derive(Debug)]
pub enum SettingsStatus {
    Incomplete(Vec<SettingsIncompleteReason>),
    Complete,
}

/// The directory under the config directory where the hostname's files are
/// kept.
pub open spec fn hostname_dir(config_dir: Seq<char>, hostname: Seq<char>) -> Seq<char> {
    config_dir + "/pixlie_ai/"@ + hostname
}

impl Settings {
    /// Complete when the storage directory is set.
    pub fn get_settings_status(&self) -> (r: SettingsStatus)
        ensures
            match r {
                SettingsStatus::Complete => self.path_to_storage_dir is Some,
                SettingsStatus::Incomplete(reasons) => self.path_to_storage_dir is None
                    && reasons@ == seq![SettingsIncompleteReason::StorageDirNotConfigured],
            },
    {
        let mut incomplete_reasons: Vec<SettingsIncompleteReason> = Vec::new();
        if self.path_to_storage_dir.is_none() {
            incomplete_reasons.push(SettingsIncompleteReason::StorageDirNotConfigured);
        }
        if incomplete_reasons.len() == 0 {
            SettingsStatus::Complete
        } else {
            assert(incomplete_reasons@ =~= seq![SettingsIncompleteReason::StorageDirNotConfigured]);
            SettingsStatus::Incomplete(incomplete_reasons)
        }
    }

    /// Takes over each setting that the update sets, and keeps the others.
    pub fn merge_updates(&mut self, updates: &Settings)
        ensures
            final(self).path_to_storage_dir == if updates.path_to_storage_dir is Some {
                updates.path_to_storage_dir
            } else {
                old(self).path_to_storage_dir
            },
            final(self).hostname == if updates.hostname is Some {
                updates.hostname
            } else {
                old(self).hostname
            },
    {
        if updates.path_to_storage_dir.is_some() {
            self.path_to_storage_dir = updates.path_to_storage_dir.clone();
        }
        if updates.hostname.is_some() {
            self.hostname = updates.hostname.clone();
        }
    }

    /// The hostname with the paths of its certificate and key, under the
    /// given config directory; none when no hostname is set.
    pub fn get_hostname(&self, config_dir: &str) -> (r: Option<WithHostname>)
        ensures
            match self.hostname {
                None => r is None,
                Some(h) => r matches Some(w) && w.hostname == h
                    && w.path_to_certificate@ == hostname_dir(config_dir@, h@) + "/Certificates/cert.pem"@
                    && w.path_to_key@ == hostname_dir(config_dir@, h@) + "/Certificates/key.pem"@,
            },
    {
        match &self.hostname {
            None => None,
            Some(h) => {
                let base = concat(config_dir, "/pixlie_ai/");
                let dir = concat(base.as_str(), h.as_str());
                let cert = concat(dir.as_str(), "/Certificates/cert.pem");
                let key = concat(dir.as_str(), "/Certificates/key.pem");
                Some(WithHostname { hostname: h.clone(), path_to_certificate: cert, path_to_key: key })
            },
        }
    }
}

} // verus!
