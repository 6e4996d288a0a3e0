use vstd::prelude::*;

verus! {

/// Length of generated passwords unless the user asks for another.
pub const DEFAULT_PASSWORD_LENGTH: usize = 16;

/// Settings of a vault installation.
pub struct Config {
    pub db_path: String,
    pub backup_path: Option<String>,
    pub default_password_length: usize,
    pub auto_save: bool,
}

/// Relies on std's `Path::exists`: whether something is at the path now.
/// What is on disk can change at any time, so nothing is promised.
#[verifier::external_body]
fn path_exists(path: &str) -> (r: bool) {
    std::path::Path::new(path).exists()
}

impl Default for Config {
    /// The store in `vault.db`, no backup, 16-character passwords, saving
    /// on.
    fn default() -> (r: Config)
        ensures
            r.db_path@ == "vault.db"@,
            r.backup_path is None,
            r.default_password_length == DEFAULT_PASSWORD_LENGTH,
            r.auto_save,
    {
        Config {
            db_path: "vault.db".to_owned(),
            backup_path: None,
            default_password_length: DEFAULT_PASSWORD_LENGTH,
            auto_save: true,
        }
    }
}

impl Config {
    /// The default settings.
    pub fn new() -> (r: Self)
        ensures
            r.db_path@ == "vault.db"@,
            r.backup_path is None,
            r.default_password_length == DEFAULT_PASSWORD_LENGTH,
            r.auto_save,
    {
        Self::default()
    }

    /// These settings with the store at `path`.
    pub fn with_db_path(self, path: &str) -> (r: Self)
        ensures
            r.db_path@ == path@,
            r.backup_path == self.backup_path,
            r.default_password_length == self.default_password_length,
            r.auto_save == self.auto_save,
    {
        let mut c = self;
        c.db_path = path.to_owned();
        c
    }

    /// The path of the store file.
    pub fn get_db_path(&self) -> (r: &str)
        ensures
            r@ == self.db_path@,
    {
        self.db_path.as_str()
    }

    /// Whether the store file is present on disk.
    pub fn db_exists(&self) -> bool {
        path_exists(self.db_path.as_str())
    }
}

} // verus!
