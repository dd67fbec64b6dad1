//! Where the shell keeps its files.

use vstd::prelude::*;
use vstd::utf8::encode_utf8;

use crate::json;
use crate::json::JsonValue;
use crate::platform::Platform;
use crate::text;

verus! {

// ---------------------------------------------------------------------------
// The directory of the user
// ---------------------------------------------------------------------------

/// A directory of the system.
#[derive(Clone, Copy, Debug, PartialEq, Eq, Structural)]
pub enum Base {
    Home,
    AppData,
    XdgConfig,
    /// The directory that the system has for the application.
    AppConfig,
}

/// The directory of the user in an ordinary installation.
pub struct DefaultDirectory {
    pub base: Base,
    /// The way from there, empty for the directory itself.
    pub path: &'static str,
}

/// The directory of the user in an ordinary installation: its base and the way from
/// there. `app_data` and `xdg_config` tell whether these are set.
pub open spec fn default_path(platform: Platform, app_data: bool, xdg_config: bool) -> Result<
    (Base, Seq<char>),
    Seq<char>,
> {
    match platform {
        Platform::MacOs => Ok((Base::Home, "Library/Application Support/KeeWeb"@)),
        Platform::Windows => if app_data {
            Ok((Base::AppData, "KeeWeb"@))
        } else {
            Err("APPDATA is not set"@)
        },
        Platform::Linux => if xdg_config {
            Ok((Base::XdgConfig, "KeeWeb"@))
        } else {
            Ok((Base::Home, ".config/KeeWeb"@))
        },
        Platform::Unix | Platform::Other => Ok((Base::AppConfig, ""@)),
    }
}

/// The directory of the user in an ordinary installation.
pub fn default_directory(platform: Platform, app_data: bool, xdg_config: bool) -> (r: Result<
    DefaultDirectory,
    String,
>)
    ensures
        match r {
            Ok(directory) => default_path(platform, app_data, xdg_config) == Ok::<
                (Base, Seq<char>),
                Seq<char>,
            >((directory.base, directory.path@)),
            Err(e) => default_path(platform, app_data, xdg_config) == Err::<
                (Base, Seq<char>),
                Seq<char>,
            >(e@),
        },
{
    match platform {
        Platform::MacOs => Ok(
            DefaultDirectory { base: Base::Home, path: "Library/Application Support/KeeWeb" },
        ),
        Platform::Windows => if app_data {
            Ok(DefaultDirectory { base: Base::AppData, path: "KeeWeb" })
        } else {
            Err("APPDATA is not set".to_owned())
        },
        Platform::Linux => if xdg_config {
            Ok(DefaultDirectory { base: Base::XdgConfig, path: "KeeWeb" })
        } else {
            Ok(DefaultDirectory { base: Base::Home, path: ".config/KeeWeb" })
        },
        Platform::Unix | Platform::Other => Ok(DefaultDirectory { base: Base::AppConfig, path: "" }),
    }
}

/// The first directory that the parts of a path name: a part that is empty or a dot names
/// none.
pub open spec fn first_directory(parts: Seq<Seq<char>>) -> Seq<char>
    decreases parts.len(),
{
    if parts.len() == 0 {
        Seq::empty()
    } else if parts[0].len() == 0 || parts[0] == "."@ {
        first_directory(parts.drop_first())
    } else {
        parts[0]
    }
}

/// Whether a program lies below `/usr` or `/opt`, or is one of these.
pub open spec fn is_of_system(executable: Seq<char>) -> bool {
    let first = first_directory(text::pieces(executable, '/'));
    text::begins(executable, "/"@) && (first == "usr"@ || first == "opt"@)
}

/// Whether a program lies below `/usr` or `/opt`, or is one of these.
pub fn of_system(executable: &str) -> (r: bool)
    ensures
        r == is_of_system(executable@),
{
    if !text::starts_with(executable, "/") {
        return false;
    }
    let parts = text::split(executable, '/');
    let ghost all = text::texts(parts@);
    proof {
        reveal_strlit("usr");
        reveal_strlit("opt");
    }
    let mut i: usize = 0;
    assert(all.skip(0) =~= all);
    while i < parts.len()
        invariant
            i <= parts@.len(),
            all == text::texts(parts@),
            first_directory(all) == first_directory(all.skip(i as int)),
            text::begins(executable@, "/"@),
            all == text::pieces(executable@, '/'),
        decreases parts@.len() - i,
    {
        let part = parts[i].as_str();
        assert(all.skip(i as int)[0] == part@);
        assert(all.skip(i as int).drop_first() =~= all.skip(i + 1));
        if !part.is_empty() && !text::same_text(part, ".") {
            return text::same_text(part, "usr") || text::same_text(part, "opt");
        }
        i += 1;
    }
    false
}

/// Whether a program at a place may be portable: not one that is installed.
pub open spec fn is_movable(platform: Platform, executable: Seq<char>) -> bool {
    match platform {
        Platform::MacOs => !text::occurs(executable, "/Applications/"@),
        Platform::Windows => !text::occurs(executable, "Program Files"@),
        _ => !is_of_system(executable),
    }
}

/// Whether a program may be portable. In debug builds a variable decides, if it says
/// yes or no in JSON.
pub open spec fn may_be_portable(
    platform: Platform,
    executable: Seq<char>,
    debug: bool,
    variable: Option<Seq<char>>,
) -> bool {
    match variable {
        Some(value) if debug => match json::json_document(encode_utf8(value)) {
            Ok(document) => match document.root {
                json::Json::Bool(answer) => answer,
                _ => is_movable(platform, executable),
            },
            Err(_) => is_movable(platform, executable),
        },
        _ => is_movable(platform, executable),
    }
}

fn movable(platform: Platform, executable: &str) -> (r: bool)
    ensures
        r == is_movable(platform, executable@),
{
    match platform {
        Platform::MacOs => !text::contains(executable, "/Applications/"),
        Platform::Windows => !text::contains(executable, "Program Files"),
        _ => !of_system(executable),
    }
}

/// What a variable decides: yes or no, or nothing.
pub fn portable_answer(value: Result<JsonValue, String>, otherwise: bool) -> (r: bool)
    ensures
        r == match value {
            Ok(JsonValue::Bool(answer)) => answer,
            _ => otherwise,
        },
{
    match value {
        Ok(JsonValue::Bool(answer)) => answer,
        _ => otherwise,
    }
}

/// Whether a program may be portable.
pub fn portable_allowed(
    platform: Platform,
    executable: &str,
    debug: bool,
    variable: Option<String>,
) -> (r: bool)
    ensures
        r == may_be_portable(platform, executable@, debug, text::opt_text(variable)),
{
    if debug {
        if let Some(value) = variable {
            proof {
                reveal_strlit("");
            }
            let bytes = text::bytes_of(value.as_str());
            let answer = json::json_value(bytes.as_slice(), "");
            return portable_answer(answer, movable(platform, executable));
        }
    }
    movable(platform, executable)
}

/// The position of the bundle among a program and the directories around it, from the
/// inside out: the first that is an application bundle, or the program itself. The
/// portable configuration lies beside it.
pub fn bundle_index(is_bundle: &Vec<bool>) -> (r: usize)
    ensures
        (forall|i: int| 0 <= i < is_bundle@.len() ==> !is_bundle@[i]) ==> r == 0,
        (exists|i: int| 0 <= i < is_bundle@.len() && is_bundle@[i]) ==> r < is_bundle@.len()
            && is_bundle@[r as int] && forall|i: int| 0 <= i < r ==> !is_bundle@[i],
{
    let mut i: usize = 0;
    while i < is_bundle.len()
        invariant
            i <= is_bundle@.len(),
            forall|k: int| 0 <= k < i ==> !is_bundle@[k],
        decreases is_bundle@.len() - i,
    {
        if is_bundle[i] {
            return i;
        }
        i += 1;
    }
    0
}

/// What decides where the directory of the user is.
#[derive(Clone, Copy, Debug, PartialEq, Eq, Structural)]
pub enum DirectoryStep {
    /// A variable names it. The profile and the keys of the user are not touched.
    Override,
    /// The portable configuration, if there is one.
    PortableConfig,
    /// The ordinary directory.
    Ordinary,
}

/// What decides where the directory of the user is. `allowed` tells whether the program
/// may be portable, and `has_parent` that there is a directory around it.
pub fn user_data_dir(overridden: bool, allowed: bool, has_parent: bool) -> (r: Result<
    DirectoryStep,
    String,
>)
    ensures
        text::outcome(r) == if overridden {
            Ok(DirectoryStep::Override)
        } else if !allowed {
            Ok(DirectoryStep::Ordinary)
        } else if has_parent {
            Ok(DirectoryStep::PortableConfig)
        } else {
            Err("Executable has no parent"@)
        },
{
    if overridden {
        Ok(DirectoryStep::Override)
    } else if !allowed {
        Ok(DirectoryStep::Ordinary)
    } else if has_parent {
        Ok(DirectoryStep::PortableConfig)
    } else {
        Err("Executable has no parent".to_owned())
    }
}

/// What came of reading the portable configuration.
pub enum PortableFile {
    Text(String),
    Missing,
    Failed(String),
}

/// The directory that a portable configuration names.
pub open spec fn portable_choice(text: Seq<char>, file: Seq<char>) -> Result<Seq<char>, Seq<char>> {
    match json::json_document(encode_utf8(text)) {
        Ok(document) => match json::as_text(document.member("userDataDir"@)) {
            Some(directory) => Ok(directory),
            None => Err("Portable config requires userDataDir"@),
        },
        Err(message) => Err(file + ": "@ + message),
    }
}

/// The directory in a member of a portable configuration.
pub fn portable_member(member: Result<JsonValue, String>, file: &str) -> (r: Result<String, String>)
    ensures
        text::text_outcome(r) == match member {
            Ok(value) => match json::as_text(value@) {
                Some(directory) => Ok(directory),
                None => Err("Portable config requires userDataDir"@),
            },
            Err(message) => Err(file@ + ": "@ + message@),
        },
{
    match member {
        Ok(JsonValue::Text(directory)) => Ok(directory),
        Ok(_) => Err("Portable config requires userDataDir".to_owned()),
        Err(message) => Err(text::concat3(file, ": ", message.as_str())),
    }
}

/// The directory that the portable configuration names, if there is one. `file` is how
/// its own path is written.
pub fn portable_directory(config: PortableFile, file: &str) -> (r: Result<Option<String>, String>)
    ensures
        match (config, r) {
            (PortableFile::Missing, Ok(directory)) => directory is None,
            (PortableFile::Failed(message), Err(e)) => e@ == message@,
            (PortableFile::Text(text), Ok(Some(directory))) => portable_choice(text@, file@)
                == Ok::<Seq<char>, Seq<char>>(directory@),
            (PortableFile::Text(text), Err(e)) => portable_choice(text@, file@) == Err::<
                Seq<char>,
                Seq<char>,
            >(e@),
            _ => false,
        },
{
    let content = match config {
        PortableFile::Text(content) => content,
        PortableFile::Missing => return Ok(None),
        PortableFile::Failed(message) => return Err(message),
    };
    proof {
        reveal_strlit("userDataDir");
    }
    let bytes = text::bytes_of(content.as_str());
    let member = json::json_member(bytes.as_slice(), "userDataDir");
    match portable_member(member, file) {
        Ok(directory) => Ok(Some(directory)),
        Err(message) => Err(message),
    }
}

/// The directory of the user.
pub enum UserDirectory {
    /// The one that a variable names.
    Override,
    /// The one that the portable configuration names, from the directory that it lies in.
    Portable(String),
    /// The ordinary one.
    Ordinary,
}

/// The model of the directory of the user.
pub enum Directory {
    Override,
    Portable(Seq<char>),
    Ordinary,
}

impl View for UserDirectory {
    type V = Directory;

    open spec fn view(&self) -> Directory {
        match *self {
            UserDirectory::Override => Directory::Override,
            UserDirectory::Portable(path) => Directory::Portable(path@),
            UserDirectory::Ordinary => Directory::Ordinary,
        }
    }
}

/// The directory of the user, and whether it is portable.
pub struct DirectoryChoice {
    pub directory: UserDirectory,
    pub portable: bool,
}

/// The directory of the user, and whether it is portable, from what decides and from the
/// directory that the portable configuration names. Without such a configuration the
/// ordinary directory is taken.
pub open spec fn directory_choice(
    step: DirectoryStep,
    found: Result<Option<Seq<char>>, Seq<char>>,
) -> Result<(Directory, bool), Seq<char>> {
    match step {
        DirectoryStep::Override => Ok((Directory::Override, true)),
        DirectoryStep::Ordinary => Ok((Directory::Ordinary, false)),
        DirectoryStep::PortableConfig => match found {
            Ok(Some(path)) => Ok((Directory::Portable(path), true)),
            Ok(None) => Ok((Directory::Ordinary, false)),
            Err(message) => Err(message),
        },
    }
}

/// The directory of the user, and whether it is portable. What `portable_directory` has
/// found counts only if the portable configuration decides.
pub fn chosen_directory(step: DirectoryStep, found: Result<Option<String>, String>) -> (r: Result<
    DirectoryChoice,
    String,
>)
    ensures
        ({
            let expected = directory_choice(
                step,
                match found {
                    Ok(path) => Ok(text::opt_text(path)),
                    Err(message) => Err(message@),
                },
            );
            match r {
                Ok(choice) => expected == Ok::<(Directory, bool), Seq<char>>(
                    (choice.directory@, choice.portable),
                ),
                Err(e) => expected == Err::<(Directory, bool), Seq<char>>(e@),
            }
        }),
{
    match step {
        DirectoryStep::Override => Ok(
            DirectoryChoice { directory: UserDirectory::Override, portable: true },
        ),
        DirectoryStep::Ordinary => Ok(
            DirectoryChoice { directory: UserDirectory::Ordinary, portable: false },
        ),
        DirectoryStep::PortableConfig => match found {
            Ok(Some(path)) => Ok(
                DirectoryChoice { directory: UserDirectory::Portable(path), portable: true },
            ),
            Ok(None) => Ok(DirectoryChoice { directory: UserDirectory::Ordinary, portable: false }),
            Err(message) => Err(message),
        },
    }
}

/// A directory is portable exactly if it is not the ordinary one.
pub proof fn law_only_the_ordinary_directory_is_not_portable(
    step: DirectoryStep,
    found: Result<Option<Seq<char>>, Seq<char>>,
)
    ensures
        directory_choice(step, found) matches Ok(choice) ==> choice.1 == !(choice.0 is Ordinary),
{
}

// ---------------------------------------------------------------------------
// Other directories
// ---------------------------------------------------------------------------

/// The directories that the user interface can ask for.
#[derive(Clone, Copy, Debug, PartialEq, Eq, Structural)]
pub enum PathKind {
    UserData,
    /// The directory of the application among those of the system for temporary files.
    Temp,
    Documents,
    App,
    WorkDir,
}

/// The name of the directory for temporary files.
pub const TEMP_DIRECTORY: &'static str = "KeeWeb";

/// The directory that a name stands for.
pub open spec fn path_kind(kind: Seq<char>) -> Option<PathKind> {
    if kind == "userData"@ {
        Some(PathKind::UserData)
    } else if kind == "temp"@ {
        Some(PathKind::Temp)
    } else if kind == "documents"@ {
        Some(PathKind::Documents)
    } else if kind == "app"@ {
        Some(PathKind::App)
    } else if kind == "workDir"@ {
        Some(PathKind::WorkDir)
    } else {
        None
    }
}

/// The directory that a name stands for.
pub fn get_path(kind: &str) -> (r: Result<PathKind, String>)
    ensures
        text::outcome(r) == match path_kind(kind@) {
            Some(found) => Ok(found),
            None => Err("Unknown path kind: "@ + kind@),
        },
{
    if text::same_text(kind, "userData") {
        Ok(PathKind::UserData)
    } else if text::same_text(kind, "temp") {
        Ok(PathKind::Temp)
    } else if text::same_text(kind, "documents") {
        Ok(PathKind::Documents)
    } else if text::same_text(kind, "app") {
        Ok(PathKind::App)
    } else if text::same_text(kind, "workDir") {
        Ok(PathKind::WorkDir)
    } else {
        Err(text::concat("Unknown path kind: ", kind))
    }
}

/// The text of a path, which it has if it is UTF-8; `shown` is how it is written
/// otherwise.
pub fn path_text(path: Option<String>, shown: &str) -> (r: Result<String, String>)
    ensures
        text::text_outcome(r) == match path {
            Some(path) => Ok(path@),
            None => Err("Path is not UTF-8: "@ + shown@),
        },
{
    match path {
        Some(path) => Ok(path),
        None => Err(text::concat("Path is not UTF-8: ", shown)),
    }
}

// ---------------------------------------------------------------------------
// What the operations do
// ---------------------------------------------------------------------------

/// Where the data stands unless something else is chosen, by platform.
pub proof fn law_default_directories(
    platform: Platform,
    app_data: bool,
    xdg_config: bool,
    r: Result<DefaultDirectory, String>,
)
    requires
        call_ensures(default_directory, (platform, app_data, xdg_config), r),
    ensures
        r is Err <==> platform is Windows && !app_data,
        r matches Err(e) ==> e@ == "APPDATA is not set"@,
        r matches Ok(d) ==> {
            &&& platform is MacOs ==> d.base is Home && d.path@
                == "Library/Application Support/KeeWeb"@
            &&& platform is Windows ==> d.base is AppData && d.path@ == "KeeWeb"@
            &&& platform is Linux && xdg_config ==> d.base is XdgConfig && d.path@ == "KeeWeb"@
            &&& platform is Linux && !xdg_config ==> d.base is Home && d.path@ == ".config/KeeWeb"@
            &&& platform is Unix || platform is Other ==> d.base is AppConfig && d.path@ == ""@
        },
{
}

proof fn lemma_first_of_path(name: Seq<char>, rest: Seq<char>)
    requires
        !name.contains('/'),
    ensures
        text::pieces(seq!['/'] + name, '/') == seq![Seq::<char>::empty(), name],
        text::pieces(seq!['/'] + name + seq!['/'] + rest, '/') == seq![Seq::<char>::empty(), name]
            + text::pieces(rest, '/'),
{
    let none = Seq::<char>::empty();
    text::law_one_piece(none, '/');
    text::law_one_piece(name, '/');
    text::law_pieces_around(none, '/', name);
    assert(none + seq!['/'] + name =~= seq!['/'] + name);
    assert(text::pieces(seq!['/'] + name, '/') =~= seq![none, name]);
    text::law_pieces_around(seq!['/'] + name, '/', rest);
}

/// An executable belongs to the system exactly if its path is absolute and the first
/// directory on it is `usr` or `opt`, whatever follows.
pub proof fn law_first_directory_decides(name: Seq<char>, rest: Seq<char>, executable: &str, r: bool)
    requires
        call_ensures(of_system, (executable,), r),
        name.len() > 0,
        name != "."@,
        !name.contains('/'),
    ensures
        executable@ == seq!['/'] + name || executable@ == seq!['/'] + name + seq!['/'] + rest ==> (r
            <==> name == "usr"@ || name == "opt"@),
        executable@.len() == 0 || executable@[0] != '/' ==> !r,
{
    reveal_strlit("/");
    assert("/"@ =~= seq!['/']);
    if executable@.len() > 0 {
        assert(executable@.subrange(0, 1) =~= seq![executable@[0]]);
        assert(seq![executable@[0]][0] == executable@[0]);
    }
    lemma_first_of_path(name, rest);
    let none = Seq::<char>::empty();
    let short = seq![none, name];
    let long = short + text::pieces(rest, '/');
    assert(short.drop_first() =~= seq![name]);
    assert(long.drop_first()[0] == name);
    reveal_with_fuel(first_directory, 3);
}

/// A further slash, or a dot as a directory, makes no difference to that.
pub proof fn law_needless_directories(rest: Seq<char>, path: &str, longer: &str, r: bool, q: bool)
    requires
        call_ensures(of_system, (path,), r),
        call_ensures(of_system, (longer,), q),
        path@ == seq!['/'] + rest,
        longer@ == seq!['/', '/'] + rest || longer@ == seq!['/', '.', '/'] + rest,
    ensures
        r == q,
{
    reveal_strlit("/");
    reveal_strlit(".");
    assert("/"@ =~= seq!['/']);
    assert("."@ =~= seq!['.']);
    let none = Seq::<char>::empty();
    let parts = text::pieces(rest, '/');
    text::law_one_piece(none, '/');
    text::law_pieces_around(none, '/', rest);
    assert(none + seq!['/'] + rest =~= path@);
    assert(text::pieces(path@, '/') =~= seq![none] + parts);
    assert((seq![none] + parts).drop_first() =~= parts);
    assert(path@.subrange(0, 1) =~= seq!['/']);
    assert(longer@.subrange(0, 1) =~= seq!['/']);
    let middle = if longer@ == seq!['/', '/'] + rest {
        none
    } else {
        seq!['.']
    };
    assert(!middle.contains('/')) by {
        if middle.contains('/') {
            let i = choose|i: int| 0 <= i < middle.len() && middle[i] == '/';
        }
    }
    lemma_first_of_path(middle, rest);
    assert(longer@ =~= seq!['/'] + middle + seq!['/'] + rest);
    let all = seq![none, middle] + parts;
    assert(all.drop_first().drop_first() =~= parts);
    assert(all.drop_first()[0] == middle);
    assert(first_directory(all) == first_directory(all.drop_first()));
    assert(first_directory(all.drop_first()) == first_directory(parts));
}

/// Without an answer in the environment, an executable is portable where programs are not
/// installed on its platform. In release builds the environment has no say.
pub proof fn law_portable_places(
    platform: Platform,
    executable: &str,
    debug: bool,
    variable: Option<String>,
    system: bool,
    r: bool,
)
    requires
        call_ensures(portable_allowed, (platform, executable, debug, variable), r),
        call_ensures(of_system, (executable,), system),
        !debug || variable is None,
    ensures
        platform is MacOs ==> (r <==> !text::occurs(executable@, "/Applications/"@)),
        platform is Windows ==> (r <==> !text::occurs(executable@, "Program Files"@)),
        !(platform is MacOs || platform is Windows) ==> (r <==> !system),
{
}

/// In a debug build, a variable that holds true or false is the answer; one that holds
/// anything else is as good as none.
pub proof fn law_portable_by_variable(
    platform: Platform,
    executable: &str,
    value: String,
    r: bool,
    without: bool,
)
    requires
        call_ensures(portable_allowed, (platform, executable, true, Some(value)), r),
        call_ensures(portable_allowed, (platform, executable, true, None), without),
    ensures
        ({
            let document = json::json_document(encode_utf8(value@));
            &&& document is Ok && document->Ok_0.root == json::Json::Bool(true) ==> r
            &&& document is Ok && document->Ok_0.root == json::Json::Bool(false) ==> !r
            &&& document is Err || !(document->Ok_0.root is Bool) ==> r == without
        }),
{
}

/// An override prevails; else a portable configuration is looked for, if that is allowed.
pub proof fn law_where_to_look(
    overridden: bool,
    allowed: bool,
    has_parent: bool,
    r: Result<DirectoryStep, String>,
)
    requires
        call_ensures(user_data_dir, (overridden, allowed, has_parent), r),
    ensures
        overridden <==> r is Ok && r->Ok_0 is Override,
        !overridden && !allowed <==> r is Ok && r->Ok_0 is Ordinary,
        !overridden && allowed && has_parent <==> r is Ok && r->Ok_0 is PortableConfig,
        r matches Err(e) ==> e@ == "Executable has no parent"@,
{
}

/// The directory is the one that was looked for: the override whatever a configuration
/// says, the one that a portable configuration names, and else the ordinary one.
pub proof fn law_chosen_directory(
    step: DirectoryStep,
    found: Result<Option<String>, String>,
    r: Result<DirectoryChoice, String>,
)
    requires
        call_ensures(chosen_directory, (step, found), r),
    ensures
        step is Override ==> r is Ok && r->Ok_0.directory is Override && r->Ok_0.portable,
        step is Ordinary ==> r is Ok && r->Ok_0.directory is Ordinary && !r->Ok_0.portable,
        step is PortableConfig ==> {
            &&& found is Err ==> r is Err && (r->Err_0)@ == (found->Err_0)@
            &&& found matches Ok(Some(path)) ==> r is Ok && r->Ok_0.portable
                && r->Ok_0.directory is Portable && r->Ok_0.directory->Portable_0@ == path@
            &&& found matches Ok(None) ==> r is Ok && r->Ok_0.directory is Ordinary
                && !r->Ok_0.portable
        },
{
}

/// A portable configuration that is there has to name the directory; one that is missing
/// is none, and a failure to read it is reported.
pub proof fn law_portable_configuration(
    config: PortableFile,
    file: &str,
    r: Result<Option<String>, String>,
)
    requires
        call_ensures(portable_directory, (config, file), r),
    ensures
        config is Missing ==> r is Ok && r->Ok_0 is None,
        config matches PortableFile::Failed(message) ==> r is Err && (r->Err_0)@ == message@,
        config matches PortableFile::Text(text) ==> {
            let document = json::json_document(encode_utf8(text@));
            &&& document is Err ==> r is Err && (r->Err_0)@ == file@ + ": "@ + document->Err_0
            &&& document is Ok && document->Ok_0.member("userDataDir"@) is Text ==> r is Ok
                && r->Ok_0 is Some && r->Ok_0->Some_0@ == document->Ok_0.member(
                "userDataDir"@,
            )->Text_0
            &&& document is Ok && !(document->Ok_0.member("userDataDir"@) is Text) ==> r is Err
                && (r->Err_0)@ == "Portable config requires userDataDir"@
        },
{
}

/// The five kinds of paths, by their names; any other name is refused.
pub proof fn law_path_kinds(kind: &str, r: Result<PathKind, String>)
    requires
        call_ensures(get_path, (kind,), r),
    ensures
        r matches Ok(found) ==> match found {
            PathKind::UserData => kind@ == "userData"@,
            PathKind::Temp => kind@ == "temp"@,
            PathKind::Documents => kind@ == "documents"@,
            PathKind::App => kind@ == "app"@,
            PathKind::WorkDir => kind@ == "workDir"@,
        },
        r matches Err(e) ==> e@ == "Unknown path kind: "@ + kind@ && kind@ != "userData"@ && kind@
            != "temp"@ && kind@ != "documents"@ && kind@ != "app"@ && kind@ != "workDir"@,
{
}

/// The first directory that is a bundle counts, and without any the nearest one.
pub proof fn law_bundles(is_bundle: &Vec<bool>, r: usize)
    requires
        call_ensures(bundle_index, (is_bundle,), r),
    ensures
        is_bundle@.contains(true) ==> r < is_bundle@.len() && is_bundle@[r as int] && forall|i: int|
            0 <= i < r ==> !(#[trigger] is_bundle@[i]),
        !is_bundle@.contains(true) ==> r == 0,
{
    if is_bundle@.contains(true) {
        let i = choose|i: int| 0 <= i < is_bundle@.len() && is_bundle@[i] == true;
        assert(is_bundle@[i]);
    } else {
        assert forall|i: int| 0 <= i < is_bundle@.len() implies !is_bundle@[i] by {
            if is_bundle@[i] {
                assert(is_bundle@.contains(is_bundle@[i]));
            }
        }
    }
}

/// An answer in a variable counts if it is true or false; a directory in a configuration if
/// it is text; and a path if it is text too.
pub proof fn law_values_that_count(
    value: Result<JsonValue, String>,
    otherwise: bool,
    answer: bool,
    member: Result<JsonValue, String>,
    file: &str,
    directory: Result<String, String>,
    path: Option<String>,
    shown: &str,
    told: Result<String, String>,
)
    requires
        call_ensures(portable_answer, (value, otherwise), answer),
        call_ensures(portable_member, (member, file), directory),
        call_ensures(path_text, (path, shown), told),
    ensures
        value matches Ok(JsonValue::Bool(b)) ==> answer == b,
        value is Err || !(value->Ok_0 is Bool) ==> answer == otherwise,
        directory is Ok <==> member is Ok && member->Ok_0 is Text,
        directory matches Ok(d) ==> d@ == (member->Ok_0->Text_0)@,
        told is Ok <==> path is Some,
        told matches Ok(p) ==> p@ == path->Some_0@,
{
}

} // verus!
