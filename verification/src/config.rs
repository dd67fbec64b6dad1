//! The configuration files: their names, their encryption and the key that the
//! credential store of the system keeps for them.

use vstd::prelude::*;
use vstd::utf8::encode_utf8;

use crate::crypto::{array48, cbc_decrypt, cbc_encrypt, cbc_opened, cbc_sealed, random_array};
use crate::encoding::{
    hex_complaint, hex_decode, hex_decoded, hex_encode, hex_encoded, hex_pair, hex_value, is_hex,
    law_lossy_text, lossy, lossy_text,
};
use crate::platform::Platform;
use crate::text::{
    bytes_of, chars_of, concat, concat3, digits, hexadecimal, is_alphanumeric, outcome,
};

verus! {

/// What came of reading a file.
pub enum FileRead {
    Data(Vec<u8>),
    Missing,
    Failed(String),
}

/// What came of reading an entry of the credential store.
pub enum KeyRead {
    Secret(Vec<u8>),
    NoEntry,
    Failed(String),
}

/// A file to be written.
pub struct FileWrite {
    pub file: String,
    pub bytes: Vec<u8>,
}

/// The configuration files of one user: encrypted under a key of 32 bytes and an
/// initialization vector of 16, or in the clear.
pub struct ConfigStore {
    key: Option<[u8; 48]>,
    /// The key has just been drawn.
    created: bool,
}

/// What has to happen next on the way to a store.
pub enum SetupStep {
    /// Read the settings key, and go on with `ConfigStore::key_read`.
    ReadKey,
    /// Look for a key of an older kind, and go on with `ConfigStore::legacy_read`.
    ReadLegacyKey,
    /// Store this secret as the settings key, and go on with `ConfigStore::key_read`.
    CopyKey(Vec<u8>),
    /// Call `draw_key`, store its secret, and go on with `ConfigStore::key_stored`.
    DrawKey,
    /// The store is ready.
    Done(ConfigStore),
    /// There is no store.
    Fail(String),
}

/// The model of a setup step.
pub enum Setup {
    ReadKey,
    ReadLegacyKey,
    CopyKey(Seq<u8>),
    DrawKey,
    Done { key: Option<Seq<u8>>, created: bool },
    Fail(Seq<char>),
}

impl View for SetupStep {
    type V = Setup;

    open spec fn view(&self) -> Setup {
        match *self {
            SetupStep::ReadKey => Setup::ReadKey,
            SetupStep::ReadLegacyKey => Setup::ReadLegacyKey,
            SetupStep::CopyKey(secret) => Setup::CopyKey(secret@),
            SetupStep::DrawKey => Setup::DrawKey,
            SetupStep::Done(store) => Setup::Done {
                key: store.secret(),
                created: store.created(),
            },
            SetupStep::Fail(message) => Setup::Fail(message@),
        }
    }
}

/// A new settings key, with the text under which the credential store keeps it.
pub struct NewKey {
    pub key: [u8; 48],
    pub secret: Vec<u8>,
}

/// A file in the clear that moves into the store: what is written, and what is
/// removed once that is done.
pub struct Migration {
    pub write: FileWrite,
    pub remove: String,
}

/// Which of the older keys is taken.
#[derive(Clone, Copy, Debug, PartialEq, Eq, Structural)]
pub enum LegacyKey {
    Absent,
    FirstLocked,
    FirstUnlocked,
}

/// A character that the name of a configuration may hold.
pub open spec fn is_name_char(c: char) -> bool {
    is_alphanumeric(c) || c == '-' || c == '_'
}

/// The names that a configuration may have.
pub open spec fn is_config_name(name: Seq<char>) -> bool {
    &&& name.len() > 0
    &&& forall|i: int| 0 <= i < name.len() ==> is_name_char(#[trigger] name[i])
}

/// The key that a secret of the credential store writes in hexadecimal digits.
pub open spec fn settings_key_of(secret: Seq<u8>) -> Result<Seq<u8>, Seq<char>> {
    if secret.len() % 2 != 0 {
        Err("Invalid settings key: "@ + "Odd number of digits"@)
    } else if !is_hex(secret) {
        Err("Invalid settings key: "@ + hex_complaint(secret))
    } else if secret.len() != 96 {
        Err("Settings key must contain 48 bytes"@)
    } else {
        Ok(hex_decoded(secret))
    }
}

/// The configurations that older versions kept in the clear.
pub open spec fn plain_names() -> Seq<Seq<char>> {
    seq![
        "file-info"@,
        "app-settings"@,
        "runtime-data"@,
        "update-info"@,
        "plugin-gallery"@,
        "plugins"@,
    ]
}

/// What follows once the settings key has been read.
pub open spec fn setup_after_key(platform: Platform, read: KeyRead) -> Setup {
    match read {
        KeyRead::Secret(secret) => match settings_key_of(secret@) {
            Ok(key) => Setup::Done { key: Some(key), created: false },
            Err(message) => Setup::Fail(message),
        },
        KeyRead::NoEntry => if platform is Linux {
            Setup::ReadLegacyKey
        } else {
            Setup::DrawKey
        },
        KeyRead::Failed(message) => Setup::Fail("Cannot read settings key: "@ + message@),
    }
}

/// What follows once an older key has been looked for.
pub open spec fn setup_after_legacy(secret: Option<Vec<u8>>) -> Setup {
    match secret {
        Some(bytes) => Setup::CopyKey(bytes@),
        None => Setup::DrawKey,
    }
}

/// The file of a configuration in the clear.
pub open spec fn plain_path(name: Seq<char>) -> Seq<char> {
    name + ".json"@
}

impl ConfigStore {
    /// The key, if the files are encrypted.
    pub closed spec fn secret(self) -> Option<Seq<u8>> {
        match self.key {
            Some(key) => Some(key@),
            None => None,
        }
    }

    /// Whether the key has just been drawn, so that files in the clear are to move into
    /// the store.
    pub closed spec fn created(self) -> bool {
        self.created
    }

    /// The name of the file of a configuration.
    pub open spec fn file_of(self, name: Seq<char>) -> Seq<char> {
        name + "."@ + if self.secret() is Some {
            "dat"@
        } else {
            "json"@
        }
    }

    /// The bytes that a file holds for a text.
    pub open spec fn stored(self, data: Seq<char>) -> Seq<u8> {
        match self.secret() {
            Some(key) => cbc_sealed(key, encode_utf8(data)),
            None => encode_utf8(data),
        }
    }

    /// The text that the bytes of a file hold; none if they are damaged.
    pub open spec fn opened(self, bytes: Seq<u8>) -> Option<Seq<char>> {
        match self.secret() {
            Some(key) => match cbc_opened(key, bytes) {
                Some(message) => Some(lossy(message)),
                None => None,
            },
            None => Some(lossy(bytes)),
        }
    }

    /// What moves a configuration in the clear into the store: its text is written to the
    /// file of the store, from which it can be loaded, and the file in the clear is removed.
    pub open spec fn moves(self, name: Seq<char>, bytes: Seq<u8>, m: Migration) -> bool {
        &&& m.write.file@ == self.file_of(name)
        &&& m.write.bytes@ == self.stored(lossy(bytes))
        &&& self.opened(m.write.bytes@) == Some(lossy(bytes))
        &&& m.remove@ == plain_path(name)
    }

    /// Starts the setup: a portable store needs no key.
    pub fn new(portable: bool) -> (r: SetupStep)
        ensures
            r@ == if portable {
                Setup::Done { key: None, created: false }
            } else {
                Setup::ReadKey
            },
    {
        if portable {
            SetupStep::Done(ConfigStore { key: None, created: false })
        } else {
            SetupStep::ReadKey
        }
    }

    /// Goes on once the settings key has been read, or an older key copied.
    pub fn key_read(platform: Platform, read: KeyRead) -> (r: SetupStep)
        ensures
            r@ == setup_after_key(platform, read),
    {
        match read {
            KeyRead::Secret(secret) => match settings_key(&secret) {
                Ok(key) => SetupStep::Done(ConfigStore { key: Some(key), created: false }),
                Err(message) => SetupStep::Fail(message),
            },
            KeyRead::NoEntry => match platform {
                Platform::Linux => SetupStep::ReadLegacyKey,
                _ => SetupStep::DrawKey,
            },
            KeyRead::Failed(message) => SetupStep::Fail(
                concat("Cannot read settings key: ", message.as_str()),
            ),
        }
    }

    /// Goes on once an older key has been looked for.
    pub fn legacy_read(secret: Option<Vec<u8>>) -> (r: SetupStep)
        ensures
            r@ == setup_after_legacy(secret),
    {
        match secret {
            Some(bytes) => SetupStep::CopyKey(bytes),
            None => SetupStep::DrawKey,
        }
    }

    /// The store under a new key, once the key has been stored.
    pub fn key_stored(key: [u8; 48]) -> (r: ConfigStore)
        ensures
            r.secret() == Some(key@),
            r.created(),
    {
        ConfigStore { key: Some(key), created: true }
    }

    /// Whether the key has just been drawn.
    pub fn is_created(&self) -> (r: bool)
        ensures
            r == self.created(),
    {
        self.created
    }

    /// The name of the file of a configuration, in the directory of the user.
    pub fn path(&self, name: &str) -> (r: Result<String, String>)
        ensures
            match r {
                Ok(file) => is_config_name(name@) && file@ == self.file_of(name@),
                Err(e) => !is_config_name(name@) && e@ == "Invalid config name"@,
            },
    {
        if !config_name(name) {
            return Err("Invalid config name".to_owned());
        }
        let extension = if self.key.is_some() {
            "dat"
        } else {
            "json"
        };
        Ok(concat3(name, ".", extension))
    }

    /// The text of a configuration, from what came of reading its file. Damaged
    /// ciphertext is ignored, such as what does not fill its last block.
    pub fn load(&self, name: &str, read: FileRead) -> (r: Result<Option<String>, String>)
        ensures
            match r {
                Ok(text) => {
                    &&& is_config_name(name@)
                    &&& match read {
                        FileRead::Data(bytes) => {
                            &&& crate::text::opt_text(text) == self.opened(bytes@)
                            &&& self.secret() is Some && (bytes@.len() == 0 || bytes@.len() % 16
                                != 0) ==> text is None
                        },
                        FileRead::Missing => text is None,
                        FileRead::Failed(_) => false,
                    }
                },
                Err(e) => if !is_config_name(name@) {
                    e@ == "Invalid config name"@
                } else {
                    match read {
                        FileRead::Failed(message) => e@ == "Error reading config "@ + name@ + ": "@
                            + message@,
                        _ => false,
                    }
                },
            },
    {
        if !config_name(name) {
            return Err("Invalid config name".to_owned());
        }
        match read {
            FileRead::Data(bytes) => {
                match &self.key {
                    Some(key) => match cbc_decrypt(key, bytes.as_slice()) {
                        Some(message) => Ok(Some(lossy_text(message.as_slice()))),
                        None => Ok(None),
                    },
                    None => Ok(Some(lossy_text(bytes.as_slice()))),
                }
            },
            FileRead::Missing => Ok(None),
            FileRead::Failed(message) => {
                let mut e = concat3("Error reading config ", name, ": ");
                e.append(message.as_str());
                Err(e)
            },
        }
    }

    /// The file that keeps a configuration. Whoever loads it gets the text back.
    pub fn save(&self, name: &str, data: &str) -> (r: Result<FileWrite, String>)
        ensures
            match r {
                Ok(write) => {
                    &&& is_config_name(name@)
                    &&& write.file@ == self.file_of(name@)
                    &&& write.bytes@ == self.stored(data@)
                    &&& self.opened(write.bytes@) == Some(data@)
                },
                Err(e) => !is_config_name(name@) && e@ == "Invalid config name"@,
            },
    {
        let file = self.path(name)?;
        let message = bytes_of(data);
        proof {
            law_lossy_text(data@);
        }
        let bytes = match &self.key {
            Some(key) => cbc_encrypt(key, message.as_slice()),
            None => message,
        };
        Ok(FileWrite { file, bytes })
    }

    /// Moves one of the configurations in the clear into the store, from what came
    /// of reading its file.
    pub fn migrate(&self, index: usize, read: FileRead) -> (r: Result<Option<Migration>, String>)
        requires
            index < plain_names().len(),
        ensures
            match (read, r) {
                (FileRead::Data(bytes), Ok(Some(m))) => self.moves(
                    plain_names()[index as int],
                    bytes@,
                    m,
                ),
                (FileRead::Missing, Ok(None)) => true,
                (FileRead::Failed(message), Err(e)) => e@ == message@,
                _ => false,
            },
    {
        let name = plain_name(index);
        match read {
            FileRead::Data(bytes) => {
                proof {
                    lemma_plain_names();
                }
                let text = lossy_text(bytes.as_slice());
                let write = self.save(name, text.as_str())?;
                Ok(Some(Migration { write, remove: concat(name, ".json") }))
            },
            FileRead::Missing => Ok(None),
            FileRead::Failed(message) => Err(message),
        }
    }
}

/// The six names may all be used.
proof fn lemma_plain_names()
    ensures
        forall|i: int| 0 <= i < plain_names().len() ==> is_config_name(#[trigger] plain_names()[i]),
{
    reveal_strlit("file-info");
    reveal_strlit("app-settings");
    reveal_strlit("runtime-data");
    reveal_strlit("update-info");
    reveal_strlit("plugin-gallery");
    reveal_strlit("plugins");
}

/// One of the names of the configurations that older versions kept in the clear.
fn plain_name(index: usize) -> (r: &'static str)
    requires
        index < plain_names().len(),
    ensures
        r@ == plain_names()[index as int],
{
    match index {
        0 => "file-info",
        1 => "app-settings",
        2 => "runtime-data",
        3 => "update-info",
        4 => "plugin-gallery",
        _ => "plugins",
    }
}

/// The file of a configuration in the clear, while there are more of them.
pub fn plain_file(index: usize) -> (r: Option<String>)
    ensures
        match r {
            Some(file) => index < plain_names().len() && file@ == plain_path(
                plain_names()[index as int],
            ),
            None => index >= plain_names().len(),
        },
{
    if index < 6 {
        Some(concat(plain_name(index), ".json"))
    } else {
        None
    }
}

/// The next file in the clear that moves into a store. Files move only when the key has
/// just been drawn: with a key that was stored already, none is read or removed.
pub fn next_plain_file(created: bool, index: usize) -> (r: Option<String>)
    ensures
        !created ==> r is None,
        created ==> match r {
            Some(file) => index < plain_names().len() && file@ == plain_path(
                plain_names()[index as int],
            ),
            None => index >= plain_names().len(),
        },
{
    if created {
        plain_file(index)
    } else {
        None
    }
}

/// Whether a configuration may have that name.
pub fn config_name(name: &str) -> (r: bool)
    ensures
        r == is_config_name(name@),
{
    let chars = chars_of(name);
    let mut i: usize = 0;
    while i < chars.len()
        invariant
            i <= chars@.len(),
            chars@ == name@,
            forall|k: int| 0 <= k < i ==> is_name_char(#[trigger] name@[k]),
        decreases chars.len() - i,
    {
        let c = chars[i];
        if !(('a' <= c && c <= 'z') || ('A' <= c && c <= 'Z') || ('0' <= c && c <= '9') || c == '-'
            || c == '_') {
            assert(!is_name_char(name@[i as int]));
            return false;
        }
        i += 1;
    }
    chars.len() > 0
}

/// The key that a secret of the credential store holds.
pub fn settings_key(secret: &Vec<u8>) -> (r: Result<[u8; 48], String>)
    ensures
        match r {
            Ok(key) => settings_key_of(secret@) == Ok::<Seq<u8>, Seq<char>>(key@),
            Err(e) => settings_key_of(secret@) == Err::<Seq<u8>, Seq<char>>(e@),
        },
{
    match hex_decode(secret.as_slice()) {
        Ok(decoded) => match array48(&decoded) {
            Some(key) => Ok(key),
            None => Err("Settings key must contain 48 bytes".to_owned()),
        },
        Err(message) => Err(concat("Invalid settings key: ", message.as_str())),
    }
}

/// A new random key: what `drawn_settings_key` makes of random bytes. The secret that
/// goes into the credential store gives the key back when it is read. Which bytes these
/// are, and whether there are any, is up to the system.
pub fn draw_key() -> (r: Result<NewKey, String>)
    ensures
        r matches Ok(new) ==> {
            &&& new.secret@ == encode_utf8(hex_encoded(new.key@))
            &&& settings_key_of(new.secret@) == Ok::<Seq<u8>, Seq<char>>(new.key@)
        },
{
    drawn_settings_key(random_array())
}

/// The settings key that drawn bytes are, with its secret. Where none could be drawn,
/// there is none.
pub fn drawn_settings_key(drawn: Result<[u8; 48], String>) -> (r: Result<NewKey, String>)
    ensures
        match drawn {
            Ok(key) => {
                &&& r matches Ok(new)
                &&& new.key == key
                &&& new.secret@ == encode_utf8(hex_encoded(key@))
                &&& settings_key_of(new.secret@) == Ok::<Seq<u8>, Seq<char>>(key@)
            },
            Err(message) => outcome(r) == Err::<NewKey, Seq<char>>(message@),
        },
{
    match drawn {
        Ok(key) => {
            let secret = bytes_of(hex_encode(key.as_slice()).as_str());
            proof {
                law_key_survives_storage(key@);
            }
            Ok(NewKey { key, secret })
        },
        Err(message) => Err(message),
    }
}

/// The message for a file that could not be written.
pub fn write_error(name: &str, message: &str) -> (r: String)
    ensures
        r@ == "Error writing config "@ + name@ + ": "@ + message@,
{
    let mut r = concat3("Error writing config ", name, ": ");
    r.append(message);
    r
}

/// Which of the older keys is taken: one that is locked before one that is not,
/// and none if there is any doubt which is meant.
pub fn legacy_linux_key(locked: usize, unlocked: usize) -> (r: Result<LegacyKey, String>)
    ensures
        outcome(r) == if locked + unlocked > 1 {
            Err("Multiple legacy settings keys found in Secret Service"@)
        } else if locked == 1 {
            Ok(LegacyKey::FirstLocked)
        } else if unlocked == 1 {
            Ok(LegacyKey::FirstUnlocked)
        } else {
            Ok(LegacyKey::Absent)
        },
{
    if locked > 1 || unlocked > 1 || (locked == 1 && unlocked == 1) {
        Err("Multiple legacy settings keys found in Secret Service".to_owned())
    } else if locked == 1 {
        Ok(LegacyKey::FirstLocked)
    } else if unlocked == 1 {
        Ok(LegacyKey::FirstUnlocked)
    } else {
        Ok(LegacyKey::Absent)
    }
}

// ---------------------------------------------------------------------------
// Laws
// ---------------------------------------------------------------------------

/// A text that a portable store has written is read back unchanged.
pub proof fn law_portable_round_trip(store: ConfigStore, data: Seq<char>)
    requires
        store.secret() is None,
    ensures
        store.opened(store.stored(data)) == Some(data),
{
    law_lossy_text(data);
}

/// The file of a configuration stays in its directory: its name holds letters,
/// digits, dots, hyphens and underscores only, and does not begin with a dot.
pub proof fn law_file_stays_in_directory(store: ConfigStore, name: Seq<char>)
    requires
        is_config_name(name),
    ensures
        store.file_of(name).len() > 0,
        store.file_of(name)[0] != '.',
        forall|i: int|
            0 <= i < store.file_of(name).len() ==> is_name_char(#[trigger] store.file_of(name)[i])
                || store.file_of(name)[i] == '.',
{
    reveal_strlit(".");
    reveal_strlit("dat");
    reveal_strlit("json");
    assert(store.file_of(name)[0] == name[0]);
    assert(is_name_char(name[0]));
}

/// An encrypted file and the file in the clear that it replaces are two files, so
/// that removing the one leaves the other.
pub proof fn law_migration_keeps_the_new_file(store: ConfigStore, name: Seq<char>)
    requires
        store.secret() is Some,
    ensures
        store.file_of(name) != name + ".json"@,
{
    reveal_strlit(".");
    reveal_strlit("dat");
    reveal_strlit(".json");
    assert(store.file_of(name).len() == name.len() + 4);
    assert((name + ".json"@).len() == name.len() + 5);
}

/// A key is drawn exactly if the credential store has none, and on Linux no older one
/// either. A store under a key that was there already is not a created one.
pub proof fn law_key_is_drawn_if_there_is_none(
    platform: Platform,
    read: KeyRead,
    legacy: Option<Vec<u8>>,
)
    ensures
        setup_after_key(platform, read) is DrawKey <==> read is NoEntry && !(platform is Linux),
        setup_after_key(platform, read) is ReadLegacyKey <==> read is NoEntry && platform is Linux,
        setup_after_legacy(legacy) is DrawKey <==> legacy is None,
        setup_after_key(platform, read) matches Setup::Done { key, created } ==> !created,
{
}

/// The files of a directory after some moves, each of which may have found nothing.
pub open spec fn after_moves(directory: Map<Seq<char>, Seq<u8>>, moves: Seq<Option<Migration>>) -> Map<
    Seq<char>,
    Seq<u8>,
>
    decreases moves.len(),
{
    if moves.len() == 0 {
        directory
    } else {
        let before = after_moves(directory, moves.drop_last());
        match moves.last() {
            Some(m) => before.insert(m.write.file@, m.write.bytes@).remove(m.remove@),
            None => before,
        }
    }
}

/// What comes of a move of one of the names in a directory: it moves the file in the clear
/// if there is one, and else does nothing.
pub open spec fn is_move(
    store: ConfigStore,
    directory: Map<Seq<char>, Seq<u8>>,
    name: Seq<char>,
    found: Option<Migration>,
) -> bool {
    if directory.dom().contains(plain_path(name)) {
        found matches Some(m) && store.moves(name, directory[plain_path(name)], m)
    } else {
        found is None
    }
}

/// The files of the six names, in the clear and encrypted, are twelve files.
proof fn lemma_files_are_distinct(store: ConfigStore, i: int, j: int)
    requires
        store.secret() is Some,
        0 <= i < plain_names().len(),
        0 <= j < plain_names().len(),
    ensures
        store.file_of(plain_names()[i]) != plain_path(plain_names()[j]),
        i != j ==> plain_path(plain_names()[i]) != plain_path(plain_names()[j]),
        i != j ==> store.file_of(plain_names()[i]) != store.file_of(plain_names()[j]),
{
    reveal_strlit(".");
    reveal_strlit("dat");
    reveal_strlit(".json");
    reveal_strlit("file-info");
    reveal_strlit("app-settings");
    reveal_strlit("runtime-data");
    reveal_strlit("update-info");
    reveal_strlit("plugin-gallery");
    reveal_strlit("plugins");
    let a = plain_names()[i];
    let b = plain_names()[j];
    assert(store.file_of(a).last() == 't');
    assert(plain_path(b).last() == 'n');
    assert(plain_path(a).take(a.len() as int) =~= a);
    assert(plain_path(b).take(b.len() as int) =~= b);
    assert(store.file_of(a).take(a.len() as int) =~= a);
    assert(store.file_of(b).take(b.len() as int) =~= b);
    assert(plain_path(a).len() == a.len() + 5 && plain_path(b).len() == b.len() + 5);
    assert(store.file_of(a).len() == a.len() + 4 && store.file_of(b).len() == b.len() + 4);
    if i != j && a.len() == b.len() {
        assert(a[0] != b[0]);
    }
}

/// After the moves of the first names, these have moved and the others are as before.
proof fn lemma_moved(
    store: ConfigStore,
    directory: Map<Seq<char>, Seq<u8>>,
    moves: Seq<Option<Migration>>,
    k: int,
)
    requires
        store.secret() is Some,
        0 <= k <= moves.len() == plain_names().len(),
        forall|i: int|
            0 <= i < moves.len() ==> is_move(
                store,
                after_moves(directory, moves.take(i)),
                plain_names()[i],
                #[trigger] moves[i],
            ),
    ensures
        ({
            let now = after_moves(directory, moves.take(k));
            &&& forall|i: int|
                #![trigger plain_names()[i]]
                0 <= i < k ==> {
                    &&& !now.dom().contains(plain_path(plain_names()[i]))
                    &&& directory.dom().contains(plain_path(plain_names()[i])) ==> {
                        &&& now.dom().contains(store.file_of(plain_names()[i]))
                        &&& store.opened(now[store.file_of(plain_names()[i])]) == Some(
                            lossy(directory[plain_path(plain_names()[i])]),
                        )
                    }
                }
            &&& forall|i: int|
                #![trigger plain_names()[i]]
                k <= i < plain_names().len() ==> {
                    &&& now.dom().contains(plain_path(plain_names()[i])) <==> directory.dom().contains(
                        plain_path(plain_names()[i]),
                    )
                    &&& now[plain_path(plain_names()[i])] == directory[plain_path(plain_names()[i])]
                }
            &&& forall|file: Seq<char>|
                (forall|i: int|
                    0 <= i < plain_names().len() ==> file != plain_path(#[trigger] plain_names()[i])
                        && file != store.file_of(plain_names()[i])) ==> (
                #[trigger] now.dom().contains(file) <==> directory.dom().contains(file)) && now[file]
                    == directory[file]
        }),
    decreases k,
{
    if k == 0 {
        assert(moves.take(0) =~= Seq::empty());
    } else {
        lemma_moved(store, directory, moves, k - 1);
        assert(moves.take(k).drop_last() =~= moves.take(k - 1));
        assert(moves.take(k).last() == moves[k - 1]);
        let before = after_moves(directory, moves.take(k - 1));
        let now = after_moves(directory, moves.take(k));
        let name = plain_names()[k - 1];
        assert(is_move(store, before, name, moves[k - 1]));
        assert forall|i: int| #![trigger plain_names()[i]] 0 <= i < plain_names().len() implies {
            &&& plain_path(plain_names()[i]) != store.file_of(name)
            &&& store.file_of(plain_names()[i]) != plain_path(name)
            &&& i != k - 1 ==> plain_path(plain_names()[i]) != plain_path(name)
            &&& i != k - 1 ==> store.file_of(plain_names()[i]) != store.file_of(name)
        } by {
            lemma_files_are_distinct(store, i, k - 1);
            lemma_files_are_distinct(store, k - 1, i);
        }
        assert forall|file: Seq<char>|
            (forall|i: int|
                0 <= i < plain_names().len() ==> file != plain_path(#[trigger] plain_names()[i])
                    && file != store.file_of(plain_names()[i])) implies (
        #[trigger] now.dom().contains(file) <==> directory.dom().contains(file)) && now[file]
            == directory[file] by {
            assert(before.dom().contains(file) <==> directory.dom().contains(file));
            assert(file != plain_path(name) && file != store.file_of(name));
        }
    }
}

/// When the key has just been drawn, all configurations in the clear move into the store:
/// their files are gone, loading each of them gives its text, and no other file changes.
/// The moves are those that `ConfigStore::migrate` tells, one name after another.
pub proof fn law_plain_files_move(
    store: ConfigStore,
    directory: Map<Seq<char>, Seq<u8>>,
    moves: Seq<Option<Migration>>,
    i: int,
    other: Seq<char>,
)
    requires
        store.secret() is Some,
        moves.len() == plain_names().len(),
        forall|k: int|
            0 <= k < moves.len() ==> is_move(
                store,
                after_moves(directory, moves.take(k)),
                plain_names()[k],
                #[trigger] moves[k],
            ),
        0 <= i < plain_names().len(),
    ensures
        ({
            let plain = plain_path(plain_names()[i]);
            let file = store.file_of(plain_names()[i]);
            let end = after_moves(directory, moves);
            &&& !end.dom().contains(plain)
            &&& directory.dom().contains(plain) ==> end.dom().contains(file) && store.opened(
                end[file],
            ) == Some(lossy(directory[plain]))
            &&& (forall|k: int|
                0 <= k < plain_names().len() ==> other != plain_path(#[trigger] plain_names()[k])
                    && other != store.file_of(plain_names()[k])) ==> (end.dom().contains(other)
                <==> directory.dom().contains(other)) && end[other] == directory[other]
        }),
{
    lemma_moved(store, directory, moves, moves.len() as int);
    assert(moves.take(moves.len() as int) =~= moves);
}

/// The digits of a byte write that byte.
proof fn lemma_hex_pair(b: u8)
    ensures
        hex_pair(b).len() == 2,
        '\0' <= hex_pair(b)[0] <= '\u{7f}',
        '\0' <= hex_pair(b)[1] <= '\u{7f}',
        hex_value(hex_pair(b)[0] as u8) == Some(b as int / 16),
        hex_value(hex_pair(b)[1] as u8) == Some(b as int % 16),
{
    reveal_with_fuel(hexadecimal, 3);
    let high = b as nat / 16;
    assert(high / 16 == 0);
    assert(hex_pair(b) =~= seq![digits()[(high % 16) as int], digits()[(b as nat % 16) as int]]);
    assert forall|d: int| 0 <= d < 16 implies '\0' <= #[trigger] digits()[d] <= '\u{7f}'
        && hex_value(digits()[d] as u8) == Some(d) by {
    }
}

/// The digits of some bytes write those bytes.
proof fn lemma_hex_encoded(bytes: Seq<u8>)
    ensures
        hex_encoded(bytes).len() == 2 * bytes.len(),
        vstd::utf8::is_ascii_chars(hex_encoded(bytes)),
        forall|i: int|
            #![trigger bytes[i]]
            0 <= i < bytes.len() ==> hex_value(hex_encoded(bytes)[2 * i] as u8) == Some(
                bytes[i] as int / 16,
            ) && hex_value(hex_encoded(bytes)[2 * i + 1] as u8) == Some(bytes[i] as int % 16),
    decreases bytes.len(),
{
    if bytes.len() > 0 {
        let before = bytes.drop_last();
        lemma_hex_encoded(before);
        lemma_hex_pair(bytes.last());
        assert forall|i: int| #![trigger bytes[i]] 0 <= i < bytes.len() implies hex_value(
            hex_encoded(bytes)[2 * i] as u8,
        ) == Some(bytes[i] as int / 16) && hex_value(hex_encoded(bytes)[2 * i + 1] as u8) == Some(
            bytes[i] as int % 16,
        ) by {
            if i < before.len() {
                assert(before[i] == bytes[i]);
            }
        }
    }
}

/// A settings key that is stored as hexadecimal digits is read back unchanged.
pub proof fn law_key_survives_storage(key: Seq<u8>)
    requires
        key.len() == 48,
    ensures
        settings_key_of(encode_utf8(hex_encoded(key))) == Ok::<Seq<u8>, Seq<char>>(key),
{
    lemma_hex_encoded(key);
    let text = hex_encoded(key);
    let secret = encode_utf8(text);
    vstd::utf8::is_ascii_chars_encode_utf8(text);
    assert forall|i: int| 0 <= i < secret.len() implies hex_value(#[trigger] secret[i]) is Some by {
        assert(text[i] as u8 == secret[i]);
        let j = i / 2;
        let b = key[j];
        assert(hex_value(text[2 * j] as u8) == Some(b as int / 16));
        assert(hex_value(text[2 * j + 1] as u8) == Some(b as int % 16));
        assert(i == 2 * j || i == 2 * j + 1);
    }
    assert forall|i: int| 0 <= i < 48 implies hex_decoded(secret)[i] == key[i] by {
        assert(text[2 * i] as u8 == secret[2 * i]);
        assert(text[2 * i + 1] as u8 == secret[2 * i + 1]);
    }
    assert(hex_decoded(secret) =~= key);
}

// ---------------------------------------------------------------------------
// What the operations do
// ---------------------------------------------------------------------------

/// What is saved is loaded again, whether it is encrypted or not.
pub proof fn law_saved_is_loaded(
    store: &ConfigStore,
    name: &str,
    data: &str,
    saved: Result<FileWrite, String>,
    r: Result<Option<String>, String>,
)
    requires
        call_ensures(ConfigStore::save, (store, name, data), saved),
        saved is Ok,
        call_ensures(ConfigStore::load, (store, name, FileRead::Data((saved->Ok_0).bytes)), r),
    ensures
        r is Ok,
        r->Ok_0 is Some,
        r->Ok_0->Some_0@ == data@,
{
}

/// A name is accepted exactly if it holds letters, digits, hyphens and underscores only,
/// and at least one of them; for all operations alike.
pub proof fn law_config_names(
    store: &ConfigStore,
    name: &str,
    data: &str,
    read: FileRead,
    accepted: bool,
    file: Result<String, String>,
    saved: Result<FileWrite, String>,
    loaded: Result<Option<String>, String>,
)
    requires
        call_ensures(config_name, (name,), accepted),
        call_ensures(ConfigStore::path, (store, name), file),
        call_ensures(ConfigStore::save, (store, name, data), saved),
        call_ensures(ConfigStore::load, (store, name, read), loaded),
    ensures
        accepted <==> name@.len() > 0 && forall|i: int|
            0 <= i < name@.len() ==> {
                let c = #[trigger] name@[i];
                'a' <= c <= 'z' || 'A' <= c <= 'Z' || '0' <= c <= '9' || c == '-' || c == '_'
            },
        accepted <==> file is Ok,
        accepted <==> saved is Ok,
        !accepted ==> loaded is Err,
        !accepted ==> (file->Err_0)@ == "Invalid config name"@ && (saved->Err_0)@
            == "Invalid config name"@ && (loaded->Err_0)@ == "Invalid config name"@,
        accepted && !(read is Failed) ==> loaded is Ok,
        accepted && read is Missing ==> loaded->Ok_0 is None,
{
    if accepted {
        assert forall|i: int| 0 <= i < name@.len() implies {
            let c = #[trigger] name@[i];
            'a' <= c <= 'z' || 'A' <= c <= 'Z' || '0' <= c <= '9' || c == '-' || c == '_'
        } by {
            assert(is_name_char(name@[i]));
        }
    }
}

/// An encrypted file and a plain one differ in their extensions, not in their names; what
/// is written goes where the path says. A plain file holds the text as it is, an encrypted
/// one is sealed with the key of the store.
pub proof fn law_saved_file(
    store: &ConfigStore,
    name: &str,
    data: &str,
    file: Result<String, String>,
    saved: Result<FileWrite, String>,
)
    requires
        call_ensures(ConfigStore::path, (store, name), file),
        call_ensures(ConfigStore::save, (store, name, data), saved),
    ensures
        saved matches Ok(write) ==> {
            &&& write.file@ == (file->Ok_0)@
            &&& store.secret() is None ==> write.file@ == name@ + ".json"@ && write.bytes@
                == encode_utf8(data@)
            &&& store.secret() is Some ==> write.file@ == name@ + ".dat"@ && write.bytes@
                == cbc_sealed(store.secret()->Some_0, encode_utf8(data@))
        },
{
    reveal_strlit(".");
    reveal_strlit("dat");
    reveal_strlit("json");
    reveal_strlit(".dat");
    reveal_strlit(".json");
    assert(name@ + "."@ + "dat"@ =~= name@ + ".dat"@);
    assert(name@ + "."@ + "json"@ =~= name@ + ".json"@);
}

/// A plain file is read as it is; an encrypted one is opened with the key of the store, and
/// counts as missing if that does not open it.
pub proof fn law_loaded_text(
    store: &ConfigStore,
    name: &str,
    bytes: Vec<u8>,
    r: Result<Option<String>, String>,
)
    requires
        call_ensures(ConfigStore::load, (store, name, FileRead::Data(bytes)), r),
        r is Ok,
    ensures
        store.secret() is None ==> r->Ok_0 is Some && r->Ok_0->Some_0@ == lossy(bytes@),
        store.secret() matches Some(key) ==> match cbc_opened(key, bytes@) {
            Some(message) => r->Ok_0 is Some && r->Ok_0->Some_0@ == lossy(message),
            None => r->Ok_0 is None,
        },
{
}

/// A new key is stored for later starts; a portable store needs none.
pub proof fn law_first_step(portable: bool, r: SetupStep)
    requires
        call_ensures(ConfigStore::new, (portable,), r),
    ensures
        !portable ==> r is ReadKey,
        portable ==> r is Done && (r->Done_0).secret() is None && !(r->Done_0).created(),
{
}

/// A stored key is used if it is one. Only a missing key leads on: on Linux to the legacy
/// key, elsewhere to a new one. A failure to read it never does.
pub proof fn law_key_that_was_read(platform: Platform, read: KeyRead, r: SetupStep)
    requires
        call_ensures(ConfigStore::key_read, (platform, read), r),
    ensures
        read matches KeyRead::Secret(secret) ==> {
            &&& r is Done <==> secret@.len() == 96 && forall|i: int|
                0 <= i < 96 ==> hex_value(#[trigger] secret@[i]) is Some
            &&& r is Done ==> (r->Done_0).secret() is Some && !(r->Done_0).created()
            &&& r is Done || r is Fail
        },
        read is NoEntry && platform is Linux <==> r is ReadLegacyKey,
        read is NoEntry && !(platform is Linux) <==> r is DrawKey,
        read matches KeyRead::Failed(message) ==> r is Fail && (r->Fail_0)@
            == "Cannot read settings key: "@ + message@,
{
}

/// Each byte of the key is two digits of base sixteen, the higher one first.
pub proof fn law_key_digits(secret: &Vec<u8>, r: Result<[u8; 48], String>, i: int)
    requires
        call_ensures(settings_key, (secret,), r),
        r is Ok,
        0 <= i < 48,
    ensures
        secret@.len() == 96,
        hex_value(secret@[2 * i]) is Some,
        hex_value(secret@[2 * i + 1]) is Some,
        (r->Ok_0)@[i] == 16 * hex_value(secret@[2 * i])->0 + hex_value(secret@[2 * i + 1])->0,
{
    let high = hex_value(secret@[2 * i])->0;
    let low = hex_value(secret@[2 * i + 1])->0;
    assert(0 <= high < 16 && 0 <= low < 16);
    assert((r->Ok_0)@ == hex_decoded(secret@));
    assert((r->Ok_0)@[i] == (high * 16 + low) as u8);
}

/// What is no key is told apart: an odd number of digits, something else than digits, and
/// another number of bytes than 48.
pub proof fn law_bad_keys(secret: &Vec<u8>, r: Result<[u8; 48], String>)
    requires
        call_ensures(settings_key, (secret,), r),
    ensures
        secret@.len() % 2 == 1 ==> r is Err && (r->Err_0)@ == "Invalid settings key: "@
            + "Odd number of digits"@,
        secret@.len() % 2 == 0 && secret@.len() != 96 && (forall|i: int|
            0 <= i < secret@.len() ==> hex_value(#[trigger] secret@[i]) is Some) ==> r is Err && (
        r->Err_0)@ == "Settings key must contain 48 bytes"@,
        (exists|i: int| 0 <= i < secret@.len() && hex_value(#[trigger] secret@[i]) is None) ==> r is Err,
        secret@.len() == 96 && (forall|i: int|
            0 <= i < secret@.len() ==> hex_value(#[trigger] secret@[i]) is Some) ==> r is Ok,
{
}

/// The legacy key is copied to the letter, and a new one is drawn if there is none.
pub proof fn law_legacy_key(secret: Option<Vec<u8>>, r: SetupStep)
    requires
        call_ensures(ConfigStore::legacy_read, (secret,), r),
    ensures
        secret matches Some(bytes) ==> r is CopyKey && (r->CopyKey_0)@ == bytes@,
        secret is None ==> r is DrawKey,
{
}

/// One legacy key is taken, whether it is locked or not; of several, none.
pub proof fn law_one_legacy_key(locked: usize, unlocked: usize, r: Result<LegacyKey, String>)
    requires
        call_ensures(legacy_linux_key, (locked, unlocked), r),
    ensures
        r is Err <==> locked + unlocked >= 2,
        r matches Err(e) ==> e@ == "Multiple legacy settings keys found in Secret Service"@,
        r matches Ok(LegacyKey::FirstLocked) <==> locked == 1 && unlocked == 0,
        r matches Ok(LegacyKey::FirstUnlocked) <==> locked == 0 && unlocked == 1,
        r matches Ok(LegacyKey::Absent) <==> locked == 0 && unlocked == 0,
{
}

/// The files that move to a new store, one after another; only a store with a new key has
/// any to move.
pub proof fn law_plain_files(created: bool, index: usize, r: Option<String>)
    requires
        call_ensures(next_plain_file, (created, index), r),
    ensures
        r is Some <==> created && index < 6,
        r matches Some(file) ==> {
            &&& index == 0 ==> file@ == "file-info.json"@
            &&& index == 1 ==> file@ == "app-settings.json"@
            &&& index == 2 ==> file@ == "runtime-data.json"@
            &&& index == 3 ==> file@ == "update-info.json"@
            &&& index == 4 ==> file@ == "plugin-gallery.json"@
            &&& index == 5 ==> file@ == "plugins.json"@
        },
{
    reveal_strlit(".json");
    reveal_strlit("file-info");
    reveal_strlit("app-settings");
    reveal_strlit("runtime-data");
    reveal_strlit("update-info");
    reveal_strlit("plugin-gallery");
    reveal_strlit("plugins");
    reveal_strlit("file-info.json");
    reveal_strlit("app-settings.json");
    reveal_strlit("runtime-data.json");
    reveal_strlit("update-info.json");
    reveal_strlit("plugin-gallery.json");
    reveal_strlit("plugins.json");
    assert("file-info"@ + ".json"@ =~= "file-info.json"@);
    assert("app-settings"@ + ".json"@ =~= "app-settings.json"@);
    assert("runtime-data"@ + ".json"@ =~= "runtime-data.json"@);
    assert("update-info"@ + ".json"@ =~= "update-info.json"@);
    assert("plugin-gallery"@ + ".json"@ =~= "plugin-gallery.json"@);
    assert("plugins"@ + ".json"@ =~= "plugins.json"@);
}

/// What moves is what the plain file held: it is written under the same name, where it can
/// be loaded again, and the plain file goes. A file that is missing is skipped.
pub proof fn law_moved_file_is_loaded(
    store: &ConfigStore,
    index: usize,
    bytes: Vec<u8>,
    plain: Option<String>,
    name: &str,
    moved: Result<Option<Migration>, String>,
    r: Result<Option<String>, String>,
)
    requires
        index < 6,
        call_ensures(plain_file, (index,), plain),
        call_ensures(ConfigStore::migrate, (store, index, FileRead::Data(bytes)), moved),
        plain->Some_0@ == name@ + ".json"@,
        call_ensures(
            ConfigStore::load,
            (store, name, FileRead::Data((moved->Ok_0->Some_0).write.bytes)),
            r,
        ),
    ensures
        plain is Some,
        moved is Ok,
        moved->Ok_0 is Some,
        ({
            let m = moved->Ok_0->Some_0;
            &&& m.remove@ == plain->Some_0@
            &&& store.secret() is Some ==> m.write.file@ == name@ + ".dat"@
            &&& r is Ok
            &&& r->Ok_0 is Some
            &&& r->Ok_0->Some_0@ == lossy(bytes@)
        }),
{
    reveal_strlit(".");
    reveal_strlit("dat");
    reveal_strlit(".dat");
    let known = plain_names()[index as int];
    assert(known + ".json"@ == name@ + ".json"@);
    assert(known =~= name@) by {
        let a = known + ".json"@;
        let b = name@ + ".json"@;
        assert(a.len() == b.len());
        assert forall|i: int| 0 <= i < known.len() implies known[i] == name@[i] by {
            assert(a[i] == b[i]);
        }
    }
    lemma_plain_names();
    assert(name@ + "."@ + "dat"@ =~= name@ + ".dat"@);
}

/// A key that was drawn is stored in a form from which it is read back, and the store that
/// uses it knows that it is new.
pub proof fn law_drawn_key_is_read_back(
    drawn: Result<[u8; 48], String>,
    new: Result<NewKey, String>,
    read: Result<[u8; 48], String>,
    store: ConfigStore,
    created: bool,
)
    requires
        call_ensures(drawn_settings_key, (drawn,), new),
        new is Ok ==> call_ensures(settings_key, (&(new->Ok_0).secret,), read),
        new is Ok ==> call_ensures(ConfigStore::key_stored, ((new->Ok_0).key,), store),
        call_ensures(ConfigStore::is_created, (&store,), created),
    ensures
        new is Ok <==> drawn is Ok,
        new matches Ok(key) ==> {
            &&& key.key == drawn->Ok_0
            &&& read is Ok && (read->Ok_0)@ == key.key@
            &&& store.secret() == Some(key.key@)
            &&& created
        },
        new matches Err(e) ==> e@ == (drawn->Err_0)@,
{
}

} // verus!
