//! Backup settings and the pure parts of the backup manager: which
//! components an archive holds, and the byte mask applied to its files.

use vstd::prelude::*;
use vstd::string::StrSliceExecFns;

verus! {

/// Settings of the backup.
#[derive(Clone, Debug)]
pub struct BackupConfig {
    pub enabled: bool,
    pub auto_backup: bool,
    pub backup_interval_hours: u32,
    pub max_backup_files: u32,
    pub compression_level: u32,
    pub include_images: bool,
    pub include_plugins: bool,
    pub backup_locations: Vec<String>,
    pub encryption_enabled: bool,
    pub encryption_key: Option<String>,
}

impl BackupConfig {
    /// The default settings: daily automatic backups, thirty archives
    /// kept, compression level six, images and plugins included, one
    /// location `backups`, no encryption.
    pub open spec fn is_default(self) -> bool {
        &&& self.enabled
        &&& self.auto_backup
        &&& self.backup_interval_hours == 24
        &&& self.max_backup_files == 30
        &&& self.compression_level == 6
        &&& self.include_images
        &&& self.include_plugins
        &&& self.backup_locations@.len() == 1
        &&& self.backup_locations@[0]@ == "backups"@
        &&& !self.encryption_enabled
        &&& self.encryption_key is None
    }
}

impl Default for BackupConfig {
    fn default() -> (config: Self)
        ensures
            config.is_default(),
    {
        let mut backup_locations: Vec<String> = Vec::new();
        backup_locations.push("backups".to_owned());
        BackupConfig {
            enabled: true,
            auto_backup: true,
            backup_interval_hours: 24,
            max_backup_files: 30,
            compression_level: 6,
            include_images: true,
            include_plugins: true,
            backup_locations,
            encryption_enabled: false,
            encryption_key: None,
        }
    }
}

/// One file of an archive.
#[derive(Clone, Debug)]
pub struct BackupFileInfo {
    /// Where the file came from.
    pub path: String,
    /// The extension of `path`, without its dot, where it has one.
    pub extension: Option<String>,
    /// Where the file lies in the archive.
    pub zip_path: String,
    pub size: u64,
    pub checksum: String,
    pub encrypted: bool,
}

/// A part of the application that an archive may hold.
#[derive(Clone, Copy, Debug, PartialEq, Eq, Structural)]
pub enum BackupComponent {
    Database,
    Images,
    Plugins,
    Configuration,
}

impl BackupComponent {
    /// The name of the component as the archive's metadata lists it.
    pub fn name(&self) -> (name: &'static str)
        ensures
            *self == BackupComponent::Database ==> name@ == "database"@,
            *self == BackupComponent::Images ==> name@ == "images"@,
            *self == BackupComponent::Plugins ==> name@ == "plugins"@,
            *self == BackupComponent::Configuration ==> name@ == "configuration"@,
    {
        match self {
            BackupComponent::Database => "database",
            BackupComponent::Images => "images",
            BackupComponent::Plugins => "plugins",
            BackupComponent::Configuration => "configuration",
        }
    }
}

/// The file lies under the archive directory `prefix`.
pub open spec fn lies_under(file: BackupFileInfo, prefix: Seq<char>) -> bool {
    prefix.is_prefix_of(file.zip_path@)
}

/// The file is a database file: it lies under `data/` and its extension is
/// `db`.
pub open spec fn is_database_file(file: BackupFileInfo) -> bool {
    &&& lies_under(file, "data/"@)
    &&& file.extension matches Some(extension)
    &&& extension@ == "db"@
}

/// Some file is a database file.
pub open spec fn holds_database(files: Seq<BackupFileInfo>) -> bool {
    exists|i: int| 0 <= i < files.len() && is_database_file(#[trigger] files[i])
}

/// Some file lies under the archive directory `prefix`.
pub open spec fn holds_under(files: Seq<BackupFileInfo>, prefix: Seq<char>) -> bool {
    exists|i: int| 0 <= i < files.len() && lies_under(#[trigger] files[i], prefix)
}

/// The one component where `held` holds, else none.
pub open spec fn component_if(held: bool, component: BackupComponent) -> Seq<BackupComponent> {
    if held {
        seq![component]
    } else {
        Seq::empty()
    }
}

/// The components that the files of an archive make up, in the order
/// database, images, plugins, configuration.
pub open spec fn components_of(files: Seq<BackupFileInfo>) -> Seq<BackupComponent> {
    component_if(holds_database(files), BackupComponent::Database) + component_if(
        holds_under(files, "images/"@),
        BackupComponent::Images,
    ) + component_if(holds_under(files, "plugins/"@), BackupComponent::Plugins) + component_if(
        holds_under(files, "config/"@),
        BackupComponent::Configuration,
    )
}

/// Data masked with a key: each byte combined by exclusive or with the key
/// byte at its position, the key repeating.
pub open spec fn masked(data: Seq<u8>, key: Seq<u8>) -> Seq<u8> {
    Seq::new(data.len(), |i: int| data[i] ^ key[i % (key.len() as int)])
}

/// Whether `text` starts with `prefix`, character by character.
pub fn starts_with(text: &str, prefix: &str) -> (found: bool)
    ensures
        found == prefix@.is_prefix_of(text@),
{
    let n: usize = prefix.unicode_len();
    if n > text.unicode_len() {
        return false;
    }
    let mut i: usize = 0;
    while i < n
        invariant
            i <= n,
            n == prefix@.len(),
            n <= text@.len(),
            forall|j: int| 0 <= j < i ==> text@[j] == prefix@[j],
        decreases n - i,
    {
        if text.get_char(i) != prefix.get_char(i) {
            assert(text@.subrange(0, n as int)[i as int] != prefix@[i as int]);
            return false;
        }
        i += 1;
    }
    assert(prefix@ =~= text@.subrange(0, n as int));
    true
}

/// Whether the file is a database file.
pub fn is_database(file: &BackupFileInfo) -> (found: bool)
    ensures
        found == is_database_file(*file),
{
    if !starts_with(file.zip_path.as_str(), "data/") {
        return false;
    }
    match &file.extension {
        Some(extension) => same_text(extension.as_str(), "db"),
        None => false,
    }
}

/// Whether two texts are the same, character by character.
pub fn same_text(left: &str, right: &str) -> (same: bool)
    ensures
        same == (left@ == right@),
{
    let n: usize = left.unicode_len();
    if n != right.unicode_len() {
        return false;
    }
    let found = starts_with(left, right);
    proof {
        if found {
            assert(left@ =~= left@.subrange(0, n as int));
        }
    }
    found
}

/// The backup manager: its settings, its directory and, once encryption
/// is set up, its key.
#[derive(Clone, Debug)]
pub struct BackupManager {
    pub config: BackupConfig,
    pub backup_dir: String,
    pub encryption_key: Option<Vec<u8>>,
}

impl BackupManager {
    /// A manager for the directory `backup_dir`, with the default settings
    /// and no key.
    pub fn new(backup_dir: String) -> (manager: Self)
        ensures
            manager.config.is_default(),
            manager.backup_dir == backup_dir,
            manager.encryption_key is None,
    {
        BackupManager { config: BackupConfig::default(), backup_dir, encryption_key: None }
    }

    /// Sets up encryption: where the settings hold a key, its bytes in
    /// UTF-8 become the key of the manager; where they hold none, the
    /// manager stays as it is.
    pub fn initialize_encryption(&mut self)
        ensures
            final(self).config == old(self).config,
            final(self).backup_dir == old(self).backup_dir,
            match old(self).config.encryption_key {
                Some(key) => final(self).encryption_key matches Some(bytes) && bytes@
                    == vstd::utf8::encode_utf8(key@),
                None => final(self).encryption_key == old(self).encryption_key,
            },
    {
        match &self.config.encryption_key {
            Some(key) => {
                let bytes = key.as_str().as_bytes_vec();
                self.encryption_key = Some(bytes);
            },
            None => {},
        }
    }

    /// Whether stored data is taken to be masked: exactly when the manager
    /// has a key. The data itself carries no marker and is not read.
    pub fn is_file_encrypted(&self, _data: &Vec<u8>) -> (encrypted: bool)
        ensures
            encrypted == (self.encryption_key is Some),
    {
        self.encryption_key.is_some()
    }

    /// The components that the files of an archive make up.
    pub fn get_included_components(&self, files: &Vec<BackupFileInfo>) -> (components: Vec<
        BackupComponent,
    >)
        ensures
            components@ == components_of(files@),
    {
        let mut database: bool = false;
        let mut images: bool = false;
        let mut plugins: bool = false;
        let mut configuration: bool = false;
        let mut i: usize = 0;
        while i < files.len()
            invariant
                i <= files.len(),
                database == holds_database(files@.take(i as int)),
                images == holds_under(files@.take(i as int), "images/"@),
                plugins == holds_under(files@.take(i as int), "plugins/"@),
                configuration == holds_under(files@.take(i as int), "config/"@),
            decreases files.len() - i,
        {
            let file = &files[i];
            let is_db = is_database(file);
            let is_image = starts_with(file.zip_path.as_str(), "images/");
            let is_plugin = starts_with(file.zip_path.as_str(), "plugins/");
            let is_config = starts_with(file.zip_path.as_str(), "config/");
            proof {
                lemma_holds_database_step(files@, i as int);
                lemma_holds_under_step(files@, i as int, "images/"@);
                lemma_holds_under_step(files@, i as int, "plugins/"@);
                lemma_holds_under_step(files@, i as int, "config/"@);
            }
            database = database || is_db;
            images = images || is_image;
            plugins = plugins || is_plugin;
            configuration = configuration || is_config;
            i += 1;
        }
        proof {
            assert(files@.take(files.len() as int) =~= files@);
        }
        let mut components: Vec<BackupComponent> = Vec::new();
        if database {
            components.push(BackupComponent::Database);
        }
        if images {
            components.push(BackupComponent::Images);
        }
        if plugins {
            components.push(BackupComponent::Plugins);
        }
        if configuration {
            components.push(BackupComponent::Configuration);
        }
        proof {
            assert(components@ =~= components_of(files@));
        }
        components
    }

    /// Masks data with a key. The key must hold a byte.
    pub fn encrypt_data(&self, data: &Vec<u8>, key: &Vec<u8>) -> (out: Vec<u8>)
        requires
            key@.len() > 0,
        ensures
            out@ == masked(data@, key@),
    {
        let mut out: Vec<u8> = Vec::new();
        let mut i: usize = 0;
        while i < data.len()
            invariant
                i <= data.len(),
                key@.len() > 0,
                out@.len() == i,
                forall|j: int| 0 <= j < i ==> out@[j] == data@[j] ^ key@[j % (key@.len() as int)],
            decreases data.len() - i,
        {
            out.push(data[i] ^ key[i % key.len()]);
            i += 1;
        }
        proof {
            assert(out@ =~= masked(data@, key@));
        }
        out
    }

    /// Unmasks data: the mask is its own inverse, so this masks again.
    pub fn decrypt_data(&self, data: &Vec<u8>, key: &Vec<u8>) -> (out: Vec<u8>)
        requires
            key@.len() > 0,
        ensures
            out@ == masked(data@, key@),
    {
        self.encrypt_data(data, key)
    }
}

/// Looking at one more file, there is a database file exactly when there
/// was one before or the new file is one.
pub proof fn lemma_holds_database_step(files: Seq<BackupFileInfo>, i: int)
    requires
        0 <= i < files.len(),
    ensures
        holds_database(files.take(i + 1)) == (holds_database(files.take(i)) || is_database_file(
            files[i],
        )),
{
    let before = files.take(i);
    let upto = files.take(i + 1);
    assert(upto[i] == files[i]);
    if holds_database(before) {
        let j = choose|j: int| 0 <= j < before.len() && is_database_file(#[trigger] before[j]);
        assert(is_database_file(upto[j]));
    }
    if holds_database(upto) {
        let j = choose|j: int| 0 <= j < upto.len() && is_database_file(#[trigger] upto[j]);
        if j < i {
            assert(is_database_file(before[j]));
        }
    }
}

/// Looking at one more file, something lies under a directory exactly when
/// it did before or the new file does.
pub proof fn lemma_holds_under_step(files: Seq<BackupFileInfo>, i: int, prefix: Seq<char>)
    requires
        0 <= i < files.len(),
    ensures
        holds_under(files.take(i + 1), prefix) == (holds_under(files.take(i), prefix) || lies_under(
            files[i],
            prefix,
        )),
{
    let before = files.take(i);
    let upto = files.take(i + 1);
    assert(upto[i] == files[i]);
    if holds_under(before, prefix) {
        let j = choose|j: int| 0 <= j < before.len() && lies_under(#[trigger] before[j], prefix);
        assert(lies_under(upto[j], prefix));
    }
    if holds_under(upto, prefix) {
        let j = choose|j: int| 0 <= j < upto.len() && lies_under(#[trigger] upto[j], prefix);
        if j < i {
            assert(lies_under(before[j], prefix));
        }
    }
}

/// Masking twice with the same key gives the data back.
pub proof fn lemma_mask_is_own_inverse(data: Seq<u8>, key: Seq<u8>)
    requires
        key.len() > 0,
    ensures
        masked(masked(data, key), key) == data,
{
    assert forall|i: int| 0 <= i < data.len() implies masked(masked(data, key), key)[i]
        == data[i] by {
        let a = data[i];
        let b = key[i % (key.len() as int)];
        assert((a ^ b) ^ b == a) by (bit_vector);
    }
    assert(masked(masked(data, key), key) =~= data);
}

} // verus!
