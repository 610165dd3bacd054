use vstd::prelude::*;
use vstd::string::StringExecFns;
use vstd::string::StrSliceExecFns;

verus! {

/// Whether `c` has the Unicode `White_Space` property, the set of characters
/// that `str::trim` removes.
pub open spec fn is_white_space(c: char) -> bool {
    let u = c as u32;
    (0x9 <= u && u <= 0xD) || u == 0x20 || u == 0x85 || u == 0xA0 || u == 0x1680
        || (0x2000 <= u && u <= 0x200A) || u == 0x2028 || u == 0x2029 || u == 0x202F
        || u == 0x205F || u == 0x3000
}

/// A text is blank when trimming it leaves nothing: every character is white space.
pub open spec fn is_blank(s: Seq<char>) -> bool {
    forall|i: int| 0 <= i < s.len() ==> is_white_space(#[trigger] s[i])
}

/// Tells whether a character is white space in the sense of `is_white_space`.
pub fn is_white_space_char(c: char) -> (r: bool)
    ensures
        r == is_white_space(c),
{
    let u = c as u32;
    (0x9 <= u && u <= 0xD) || u == 0x20 || u == 0x85 || u == 0xA0 || u == 0x1680
        || (0x2000 <= u && u <= 0x200A) || u == 0x2028 || u == 0x2029 || u == 0x202F
        || u == 0x205F || u == 0x3000
}

/// Tells whether `s` holds nothing but white space (the empty text included).
pub fn is_blank_str(s: &str) -> (r: bool)
    ensures
        r == is_blank(s@),
{
    let n = s.unicode_len();
    let mut i: usize = 0;
    while i < n
        invariant
            n == s@.len(),
            i <= n,
            forall|j: int| 0 <= j < i ==> is_white_space(#[trigger] s@[j]),
        decreases n - i,
    {
        if !is_white_space_char(s.get_char(i)) {
            return false;
        }
        i = i + 1;
    }
    true
}

/// Settings of one sync run, as read from the configuration file.
pub struct Config {
    pub webdav_url: String,
    pub username: Option<String>,
    pub password: Option<String>,
    pub folders: Vec<String>,
    /// Local file that holds the hash ledger.
    pub hash_store_path: String,
    /// Remote path the hash ledger is published to.
    pub remote_hash_path: String,
    pub timeout_secs: u64,
    /// Remote directory under which the folders are mirrored; empty for the root.
    pub target_dir: String,
}

/// Why a configuration was rejected.
#[derive(Debug, Clone, Copy, PartialEq, Eq, Structural)]
pub enum ConfigError {
    /// The endpoint URL is empty or white space.
    EmptyUrl,
    /// No folder is listed.
    NoFolders,
    /// A listed folder path is empty or white space.
    EmptyFolder,
}

/// The first rule that `c` breaks, in the order the rules are checked.
pub open spec fn config_error(c: Config) -> Option<ConfigError> {
    if is_blank(c.webdav_url@) {
        Some(ConfigError::EmptyUrl)
    } else if c.folders@.len() == 0 {
        Some(ConfigError::NoFolders)
    } else if exists|i: int| 0 <= i < c.folders@.len() && is_blank(#[trigger] c.folders@[i]@) {
        Some(ConfigError::EmptyFolder)
    } else {
        None
    }
}

impl ConfigError {
    /// A one-line description of the error, naming the offending field.
    pub fn message(&self) -> (r: String)
        ensures
            r@ == match self {
                ConfigError::EmptyUrl => "webdav_url cannot be empty"@,
                ConfigError::NoFolders => "folders list cannot be empty"@,
                ConfigError::EmptyFolder => "folder path cannot be empty"@,
            },
    {
        match self {
            ConfigError::EmptyUrl => String::from_str("webdav_url cannot be empty"),
            ConfigError::NoFolders => String::from_str("folders list cannot be empty"),
            ConfigError::EmptyFolder => String::from_str("folder path cannot be empty"),
        }
    }
}

impl Config {
    /// Checks the required fields: a non-blank URL and a non-empty list of
    /// non-blank folder paths.
    pub fn validate(&self) -> (r: Result<(), ConfigError>)
        ensures
            match config_error(*self) {
                Some(e) => r == Err::<(), ConfigError>(e),
                None => r is Ok,
            },
    {
        if is_blank_str(self.webdav_url.as_str()) {
            return Err(ConfigError::EmptyUrl);
        }
        if self.folders.len() == 0 {
            return Err(ConfigError::NoFolders);
        }
        let mut i: usize = 0;
        while i < self.folders.len()
            invariant
                i <= self.folders@.len(),
                !is_blank(self.webdav_url@),
                self.folders@.len() > 0,
                forall|j: int| 0 <= j < i ==> !is_blank(#[trigger] self.folders@[j]@),
            decreases self.folders@.len() - i,
        {
            if is_blank_str(self.folders[i].as_str()) {
                assert(is_blank(self.folders@[i as int]@));
                return Err(ConfigError::EmptyFolder);
            }
            i = i + 1;
        }
        Ok(())
    }
}

/// Ledger file used when the configuration names none.
pub fn default_hash_path() -> (r: String)
    ensures
        r@ == "hashes.yaml"@,
{
    String::from_str("hashes.yaml")
}

/// Remote ledger path used when the configuration names none.
pub fn default_remote_hash_path() -> (r: String)
    ensures
        r@ == "remote_hashes.yaml"@,
{
    String::from_str("remote_hashes.yaml")
}

/// Per-request timeout, in seconds, used when the configuration gives none.
pub fn default_timeout_secs() -> (r: u64)
    ensures
        r == 3,
{
    3
}

/// Remote target directory used when the configuration gives none: the root.
pub fn default_target_dir() -> (r: String)
    ensures
        r@ == Seq::<char>::empty(),
{
    String::new()
}

} // verus!
