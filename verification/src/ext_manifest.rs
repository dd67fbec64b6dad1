//! How browsers find the program that connects an extension to the shell: its place
//! and the manifest that describes it.

use vstd::prelude::*;

use crate::encoding;
use crate::platform::{Arch, Platform};
use crate::text;

verus! {

pub const KWC_CHROME: &'static str = "chrome-extension://pikpfmjfkekaeinceagbebpfkmkdlcjk/";

pub const KWC_EDGE: &'static str = "chrome-extension://nmggpehkjmeaeocmaijenpejbepckinm/";

pub const KWC_FIREFOX: &'static str = "keeweb-connect-addon@keeweb.info";

pub const KWC_SAFARI: &'static str = "safari-keeweb-connect";

pub const KPXC_CHROME: &'static str = "chrome-extension://oboonakemofpalcgghocfoadofidjkkk/";

pub const KPXC_EDGE: &'static str = "chrome-extension://pdffhmdngciaglkoonimfcmckehcpafo/";

pub const KPXC_FIREFOX: &'static str = "keepassxc-browser@keepassxc.org";

// ---------------------------------------------------------------------------
// Names
// ---------------------------------------------------------------------------

/// The name under which a browser knows the program, for an extension.
pub open spec fn host_of(extension: Seq<char>) -> Option<Seq<char>> {
    if extension == "KWC"@ {
        Some("net.antelle.keeweb.keeweb_connect"@)
    } else if extension == "KPXC"@ {
        Some("org.keepassxc.keepassxc_browser"@)
    } else {
        None
    }
}

/// The name under which a browser knows the program, for an extension.
pub fn host_name(extension: &str) -> (r: Result<&'static str, String>)
    ensures
        match (r, host_of(extension@)) {
            (Ok(name), Some(host)) => name@ == host,
            (Err(e), None) => e@ == "Unknown browser extension"@,
            _ => false,
        },
{
    if text::same_text(extension, "KWC") {
        Ok("net.antelle.keeweb.keeweb_connect")
    } else if text::same_text(extension, "KPXC") {
        Ok("org.keepassxc.keepassxc_browser")
    } else {
        Err("Unknown browser extension".to_owned())
    }
}

/// The origins of extensions that are being developed.
pub open spec fn dev_origin_texts(ids: Option<Seq<char>>) -> Seq<Seq<char>> {
    match ids {
        Some(ids) => text::pieces(ids, ',').map_values(
            |id: Seq<char>| "chrome-extension://"@ + id + "/"@,
        ),
        None => Seq::empty(),
    }
}

/// The origins of extensions that are being developed, from a list of their names.
pub fn dev_origins(ids: Option<String>) -> (r: Vec<String>)
    ensures
        text::texts(r@) == dev_origin_texts(text::opt_text(ids)),
{
    let mut origins: Vec<String> = Vec::new();
    let ids = match ids {
        Some(ids) => ids,
        None => {
            assert(text::texts(origins@) =~= Seq::empty());
            return origins;
        },
    };
    let list = text::split(ids.as_str(), ',');
    let ghost all = text::texts(list@);
    let ghost wrap = |id: Seq<char>| "chrome-extension://"@ + id + "/"@;
    let mut i: usize = 0;
    while i < list.len()
        invariant
            i <= list@.len(),
            all == text::texts(list@),
            wrap == (|id: Seq<char>| "chrome-extension://"@ + id + "/"@),
            text::texts(origins@) =~= all.take(i as int).map_values(wrap),
        decreases list@.len() - i,
    {
        let ghost before = origins@;
        let origin = text::concat3("chrome-extension://", list[i].as_str(), "/");
        let ghost written = origin@;
        origins.push(origin);
        assert(text::texts(origins@) =~= text::texts(before).push(written));
        assert(written == wrap(all[i as int]));
        assert(all.take(i + 1) =~= all.take(i as int).push(all[i as int]));
        i += 1;
    }
    assert(all.take(i as int) =~= all);
    assert(text::texts(origins@) =~= dev_origin_texts(Some(ids@)));
    origins
}

// ---------------------------------------------------------------------------
// The program
// ---------------------------------------------------------------------------

/// Where the program lies.
pub struct HostPath {
    /// In debug builds, the directory for the machine among those of the package.
    pub directory: Option<String>,
    pub executable: &'static str,
}

/// Where the program lies: among the packages while the shell is being debugged, by a
/// directory for the machine, and else beside the shell.
pub open spec fn host_directory(platform: Platform, arch: Arch, debug: bool) -> Result<
    Option<Seq<char>>,
    Seq<char>,
> {
    if !debug {
        Ok(None)
    } else if !platform.is_desktop() {
        Err("Not supported on this platform"@)
    } else if arch is Other {
        Err("Unsupported native messaging host architecture"@)
    } else {
        Ok(
            Some(
                match platform {
                    Platform::MacOs => "darwin"@,
                    Platform::Windows => "win32"@,
                    _ => "linux"@,
                } + "-"@ + match arch {
                    Arch::X64 => "x64"@,
                    Arch::Arm64 => "arm64"@,
                    _ => "ia32"@,
                },
            ),
        )
    }
}

/// Where the program lies.
pub fn native_host_path(platform: Platform, arch: Arch, debug: bool) -> (r: Result<
    HostPath,
    String,
>)
    ensures
        match r {
            Ok(path) => {
                &&& host_directory(platform, arch, debug) == Ok::<Option<Seq<char>>, Seq<char>>(
                    text::opt_text(path.directory),
                )
                &&& path.executable@ == if platform is Windows {
                    "keeweb-native-messaging-host.exe"@
                } else {
                    "keeweb-native-messaging-host"@
                }
            },
            Err(e) => host_directory(platform, arch, debug) == Err::<Option<Seq<char>>, Seq<char>>(
                e@,
            ),
        },
{
    let executable = match platform {
        Platform::Windows => "keeweb-native-messaging-host.exe",
        _ => "keeweb-native-messaging-host",
    };
    if !debug {
        return Ok(HostPath { directory: None, executable });
    }
    let system = match platform {
        Platform::MacOs => "darwin",
        Platform::Windows => "win32",
        Platform::Linux => "linux",
        Platform::Unix | Platform::Other => {
            return Err("Not supported on this platform".to_owned());
        },
    };
    let machine = match arch {
        Arch::X64 => "x64",
        Arch::Arm64 => "arm64",
        Arch::X86 => "ia32",
        Arch::Other => {
            return Err("Unsupported native messaging host architecture".to_owned());
        },
    };
    Ok(HostPath { directory: Some(text::concat3(system, "-", machine)), executable })
}

/// The message for a program that is not where it should be.
pub fn host_missing(shown: &str) -> (r: String)
    ensures
        r@ == "Native messaging host not found: "@ + shown@,
{
    text::concat("Native messaging host not found: ", shown)
}

// ---------------------------------------------------------------------------
// The manifest
// ---------------------------------------------------------------------------

/// Who may start the program.
pub enum Allowed {
    /// Extensions, by their names.
    Extensions(Vec<String>),
    /// Extensions, by their origins.
    Origins(Vec<String>),
}

/// The manifest for a browser, but for the path of the program. Its kind is always
/// that of a program which is spoken to through its input and output.
pub struct Manifest {
    pub name: &'static str,
    pub description: &'static str,
    pub allowed: Allowed,
}

/// The extensions that may start the program under Firefox.
pub open spec fn allowed_extensions(kwc: bool) -> Seq<Seq<char>> {
    seq![
        if kwc {
            KWC_FIREFOX@
        } else {
            KPXC_FIREFOX@
        },
    ]
}

/// The origins that may start the program under other browsers.
pub open spec fn allowed_origins(kwc: bool, dev: Seq<Seq<char>>) -> Seq<Seq<char>> {
    if kwc {
        seq![KWC_CHROME@, KWC_EDGE@] + dev
    } else {
        seq![KPXC_CHROME@, KPXC_EDGE@]
    }
}

/// The manifest for a browser and an extension. `dev` are the origins of extensions
/// that are being developed; only the extension of this project may be.
pub fn create_manifest(browser: &str, extension: &str, dev: &Vec<String>) -> (r: Result<
    Manifest,
    String,
>)
    ensures
        match r {
            Ok(manifest) => {
                let kwc = extension@ == "KWC"@;
                &&& host_of(extension@) == Some(manifest.name@)
                &&& manifest.description@ == if kwc {
                    "KeeWeb native messaging host"@
                } else {
                    "Native messaging host created by KeeWeb"@
                }
                &&& match manifest.allowed {
                    Allowed::Extensions(names) => browser@ == "Firefox"@ && text::texts(names@)
                        == allowed_extensions(kwc),
                    Allowed::Origins(origins) => browser@ != "Firefox"@ && text::texts(origins@)
                        == allowed_origins(kwc, text::texts(dev@)),
                }
            },
            Err(e) => host_of(extension@) is None && e@ == "Unknown browser extension"@,
        },
{
    let name = host_name(extension)?;
    let kwc = text::same_text(extension, "KWC");
    let description = if kwc {
        "KeeWeb native messaging host"
    } else {
        "Native messaging host created by KeeWeb"
    };
    let mut list: Vec<String> = Vec::new();
    if text::same_text(browser, "Firefox") {
        if kwc {
            list.push(KWC_FIREFOX.to_owned());
        } else {
            list.push(KPXC_FIREFOX.to_owned());
        }
        assert(text::texts(list@) =~= allowed_extensions(kwc));
        return Ok(Manifest { name, description, allowed: Allowed::Extensions(list) });
    }
    if !kwc {
        list.push(KPXC_CHROME.to_owned());
        list.push(KPXC_EDGE.to_owned());
        assert(text::texts(list@) =~= allowed_origins(kwc, text::texts(dev@)));
        return Ok(Manifest { name, description, allowed: Allowed::Origins(list) });
    }
    list.push(KWC_CHROME.to_owned());
    list.push(KWC_EDGE.to_owned());
    let ghost all = text::texts(dev@);
    let ghost fixed = seq![KWC_CHROME@, KWC_EDGE@];
    let mut i: usize = 0;
    while i < dev.len()
        invariant
            i <= dev@.len(),
            all == text::texts(dev@),
            text::texts(list@) =~= fixed + all.take(i as int),
        decreases dev@.len() - i,
    {
        let ghost before = list@;
        let origin = dev[i].as_str().to_owned();
        let ghost written = origin@;
        list.push(origin);
        assert(text::texts(list@) =~= text::texts(before).push(written));
        assert(all.take(i + 1) =~= all.take(i as int).push(all[i as int]));
        i += 1;
    }
    assert(all.take(i as int) =~= all);
    Ok(Manifest { name, description, allowed: Allowed::Origins(list) })
}

// ---------------------------------------------------------------------------
// The place of the manifest
// ---------------------------------------------------------------------------

/// The directory for manifests, from the home directory.
pub open spec fn directory_for(platform: Platform, browser: Seq<char>) -> Option<Seq<char>> {
    match platform {
        Platform::MacOs => if browser == "Chrome"@ {
            Some("Library/Application Support/Google/Chrome/NativeMessagingHosts"@)
        } else if browser == "Firefox"@ {
            Some("Library/Application Support/Mozilla/NativeMessagingHosts"@)
        } else if browser == "Edge"@ {
            Some("Library/Application Support/Microsoft Edge/NativeMessagingHosts"@)
        } else {
            None
        },
        Platform::Linux => if browser == "Chrome"@ {
            Some(".config/google-chrome/NativeMessagingHosts"@)
        } else if browser == "Firefox"@ {
            Some(".mozilla/native-messaging-hosts"@)
        } else if browser == "Edge"@ {
            Some(".config/microsoft-edge/NativeMessagingHosts"@)
        } else {
            None
        },
        _ => None,
    }
}

/// The directory for manifests, from the home directory.
pub fn manifest_dir(platform: Platform, browser: &str) -> (r: Option<&'static str>)
    ensures
        text::opt_str(r) == directory_for(platform, browser@),
{
    match platform {
        Platform::MacOs => if text::same_text(browser, "Chrome") {
            Some("Library/Application Support/Google/Chrome/NativeMessagingHosts")
        } else if text::same_text(browser, "Firefox") {
            Some("Library/Application Support/Mozilla/NativeMessagingHosts")
        } else if text::same_text(browser, "Edge") {
            Some("Library/Application Support/Microsoft Edge/NativeMessagingHosts")
        } else {
            None
        },
        Platform::Linux => if text::same_text(browser, "Chrome") {
            Some(".config/google-chrome/NativeMessagingHosts")
        } else if text::same_text(browser, "Firefox") {
            Some(".mozilla/native-messaging-hosts")
        } else if text::same_text(browser, "Edge") {
            Some(".config/microsoft-edge/NativeMessagingHosts")
        } else {
            None
        },
        _ => None,
    }
}

/// Where a manifest goes.
pub enum ManifestPlace {
    /// Nowhere: Safari needs none, and users of other browsers take care of it.
    Nowhere,
    /// A file in a directory below the home directory.
    Home { directory: &'static str, file: String },
    /// A file in the directory of the user, and a key of the registry that names it.
    Registry { file: String, key: String },
}

/// The model of where a manifest goes.
pub enum Place {
    Nowhere,
    Home { directory: Seq<char>, file: Seq<char> },
    Registry { file: Seq<char>, key: Seq<char> },
}

impl View for ManifestPlace {
    type V = Place;

    open spec fn view(&self) -> Place {
        match *self {
            ManifestPlace::Nowhere => Place::Nowhere,
            ManifestPlace::Home { directory, file } => Place::Home {
                directory: directory@,
                file: file@,
            },
            ManifestPlace::Registry { file, key } => Place::Registry { file: file@, key: key@ },
        }
    }
}

/// The part of a key of the registry that belongs to a browser.
pub open spec fn registry_vendor(browser: Seq<char>) -> Seq<char> {
    if browser == "Chrome"@ {
        "Google\\Chrome"@
    } else if browser == "Firefox"@ {
        "Mozilla"@
    } else {
        "Microsoft\\Edge"@
    }
}

/// Where a manifest goes for a browser and an extension.
pub open spec fn place_for(platform: Platform, browser: Seq<char>, extension: Seq<char>) -> Result<
    Place,
    Seq<char>,
> {
    if !platform.is_desktop() {
        Err("Not supported on this platform"@)
    } else if browser == "Safari"@ || browser == "Other"@ {
        Ok(Place::Nowhere)
    } else if browser != "Chrome"@ && browser != "Firefox"@ && browser != "Edge"@ {
        Err("Unknown browser"@)
    } else {
        match host_of(extension) {
            None => Err("Unknown browser extension"@),
            Some(name) => if platform is Windows {
                Ok(
                    Place::Registry {
                        file: "native-messaging-"@ + text::lowered(extension) + if browser
                            == "Firefox"@ {
                            ".firefox.json"@
                        } else {
                            ".chrome.json"@
                        },
                        key: "HKCU\\Software\\"@ + registry_vendor(browser)
                            + "\\NativeMessagingHosts\\"@ + name,
                    },
                )
            } else {
                Ok(
                    Place::Home {
                        directory: directory_for(platform, browser)->Some_0,
                        file: name + ".json"@,
                    },
                )
            },
        }
    }
}

/// Where a manifest goes for a browser and an extension.
pub fn install_manifest(platform: Platform, browser: &str, extension: &str) -> (r: Result<
    ManifestPlace,
    String,
>)
    ensures
        match r {
            Ok(place) => place_for(platform, browser@, extension@) == Ok::<Place, Seq<char>>(place@),
            Err(e) => place_for(platform, browser@, extension@) == Err::<Place, Seq<char>>(e@),
        },
{
    if !platform.desktop() {
        return Err("Not supported on this platform".to_owned());
    }
    if text::same_text(browser, "Safari") || text::same_text(browser, "Other") {
        return Ok(ManifestPlace::Nowhere);
    }
    let chrome = text::same_text(browser, "Chrome");
    let firefox = text::same_text(browser, "Firefox");
    if !chrome && !firefox && !text::same_text(browser, "Edge") {
        return Err("Unknown browser".to_owned());
    }
    let name = host_name(extension)?;
    if platform == Platform::Windows {
        let vendor = if chrome {
            "Google\\Chrome"
        } else if firefox {
            "Mozilla"
        } else {
            "Microsoft\\Edge"
        };
        let mut key = text::concat3("HKCU\\Software\\", vendor, "\\NativeMessagingHosts\\");
        key.append(name);
        let file = text::concat3(
            "native-messaging-",
            text::lower(extension).as_str(),
            if firefox {
                ".firefox.json"
            } else {
                ".chrome.json"
            },
        );
        return Ok(ManifestPlace::Registry { file, key });
    }
    match manifest_dir(platform, browser) {
        Some(directory) => Ok(
            ManifestPlace::Home { directory, file: text::concat(name, ".json") },
        ),
        None => Err("Not supported on this platform".to_owned()),
    }
}

/// What is done with a manifest.
pub enum ManifestStep {
    Nothing,
    /// Write the file.
    Write { directory: &'static str, file: String },
    /// Write the file, and let the key of the registry name it.
    WriteAndRegister { file: String, key: String },
    /// Remove the file.
    Remove { directory: &'static str, file: String },
    /// Delete the key of the registry. The file stays.
    Unregister { key: String },
}

/// The model of what is done with a manifest.
pub enum Step {
    Nothing,
    Write { directory: Seq<char>, file: Seq<char> },
    WriteAndRegister { file: Seq<char>, key: Seq<char> },
    Remove { directory: Seq<char>, file: Seq<char> },
    Unregister { key: Seq<char> },
}

impl View for ManifestStep {
    type V = Step;

    open spec fn view(&self) -> Step {
        match *self {
            ManifestStep::Nothing => Step::Nothing,
            ManifestStep::Write { directory, file } => Step::Write {
                directory: directory@,
                file: file@,
            },
            ManifestStep::WriteAndRegister { file, key } => Step::WriteAndRegister {
                file: file@,
                key: key@,
            },
            ManifestStep::Remove { directory, file } => Step::Remove {
                directory: directory@,
                file: file@,
            },
            ManifestStep::Unregister { key } => Step::Unregister { key: key@ },
        }
    }
}

/// What is done with the manifest at a place when the extension is enabled or disabled.
pub open spec fn step_at(place: Place, enabled: bool) -> Step {
    match place {
        Place::Nowhere => Step::Nothing,
        Place::Home { directory, file } => if enabled {
            Step::Write { directory, file }
        } else {
            Step::Remove { directory, file }
        },
        Place::Registry { file, key } => if enabled {
            Step::WriteAndRegister { file, key }
        } else {
            Step::Unregister { key }
        },
    }
}

/// What is done with the manifest at a place when the extension is enabled or disabled.
pub fn manifest_step(place: ManifestPlace, enabled: bool) -> (r: ManifestStep)
    ensures
        r@ == step_at(place@, enabled),
{
    match place {
        ManifestPlace::Nowhere => ManifestStep::Nothing,
        ManifestPlace::Home { directory, file } => if enabled {
            ManifestStep::Write { directory, file }
        } else {
            ManifestStep::Remove { directory, file }
        },
        ManifestPlace::Registry { file, key } => if enabled {
            ManifestStep::WriteAndRegister { file, key }
        } else {
            ManifestStep::Unregister { key }
        },
    }
}

/// What came of removing a manifest: it does not matter if there was none.
pub fn manifest_removed(missing: bool, failure: Option<String>) -> (r: Result<(), String>)
    ensures
        text::outcome(r) == match failure {
            Some(message) if !missing => Err(message@),
            _ => Ok(()),
        },
{
    match failure {
        Some(message) => if missing {
            Ok(())
        } else {
            Err(message)
        },
        None => Ok(()),
    }
}

/// The arguments of the program that changes the registry: it is to name a file, or to
/// forget the key.
pub fn registry_arguments(key: &str, file: Option<&str>) -> (r: Vec<String>)
    ensures
        text::texts(r@) == match file {
            Some(file) => seq!["ADD"@, key@, "/ve"@, "/d"@, file@, "/f"@],
            None => seq!["DELETE"@, key@, "/f"@],
        },
{
    let mut args: Vec<String> = Vec::new();
    match file {
        Some(file) => {
            args.push("ADD".to_owned());
            args.push(key.to_owned());
            args.push("/ve".to_owned());
            args.push("/d".to_owned());
            args.push(file.to_owned());
            args.push("/f".to_owned());
            assert(text::texts(args@) =~= seq!["ADD"@, key@, "/ve"@, "/d"@, file@, "/f"@]);
        },
        None => {
            args.push("DELETE".to_owned());
            args.push(key.to_owned());
            args.push("/f".to_owned());
            assert(text::texts(args@) =~= seq!["DELETE"@, key@, "/f"@]);
        },
    }
    args
}

/// The outcome of changing the registry.
pub fn registry(success: bool, errors: &Vec<u8>) -> (r: Result<(), String>)
    ensures
        text::outcome(r) == if success {
            Ok(())
        } else {
            Err("REG failed: "@ + text::trimmed(encoding::lossy(errors@)))
        },
{
    if success {
        Ok(())
    } else {
        let written = encoding::lossy_text(errors.as_slice());
        Err(text::concat("REG failed: ", text::trim(written.as_str()).as_str()))
    }
}

/// On every platform that has manifests, each known browser has a place for that of
/// each known extension, or needs none.
pub proof fn law_known_browsers_have_a_place(
    platform: Platform,
    browser: Seq<char>,
    extension: Seq<char>,
)
    requires
        platform.is_desktop(),
        browser == "Chrome"@ || browser == "Firefox"@ || browser == "Edge"@ || browser == "Safari"@
            || browser == "Other"@,
        host_of(extension) is Some,
    ensures
        place_for(platform, browser, extension) is Ok,
        !(platform is Windows) && !(browser == "Safari"@ || browser == "Other"@) ==> directory_for(
            platform,
            browser,
        ) is Some,
{
}

// ---------------------------------------------------------------------------
// What the operations do
// ---------------------------------------------------------------------------

/// Two extensions are known, each under its own name.
pub proof fn law_hosts(extension: &str, r: Result<&'static str, String>)
    requires
        call_ensures(host_name, (extension,), r),
    ensures
        r is Ok <==> extension@ == "KWC"@ || extension@ == "KPXC"@,
        r matches Ok(name) ==> {
            &&& name@ == "net.antelle.keeweb.keeweb_connect"@ && extension@ == "KWC"@ || name@
                == "org.keepassxc.keepassxc_browser"@ && extension@ == "KPXC"@
        },
        r matches Err(e) ==> e@ == "Unknown browser extension"@,
{
}

/// Each identifier in the list is an origin, in its order; without a list there is none.
pub proof fn law_development_origins(ids: Option<String>, r: Vec<String>, i: int)
    requires
        call_ensures(dev_origins, (ids,), r),
    ensures
        ids is None ==> r@.len() == 0,
        ids matches Some(list) ==> r@.len() == text::pieces(list@, ',').len(),
        ids is Some && 0 <= i < r@.len() ==> r@[i]@ == "chrome-extension://"@ + text::pieces(
            ids->Some_0@,
            ',',
        )[i] + "/"@,
{
    let all = text::texts(r@);
    assert(all.len() == r@.len());
    if 0 <= i < r@.len() {
        assert(all[i] == r@[i]@);
    }
}

/// The program stands beside the shell, or in a debug build in a directory that is named
/// after the platform and the processor. On Windows its name has an extension.
pub proof fn law_host_path(platform: Platform, arch: Arch, debug: bool, r: Result<HostPath, String>)
    requires
        call_ensures(native_host_path, (platform, arch, debug), r),
    ensures
        r is Ok <==> !debug || (platform is MacOs || platform is Windows || platform is Linux) && !(
        arch is Other),
        r matches Ok(path) ==> {
            &&& platform is Windows <==> path.executable@ == "keeweb-native-messaging-host.exe"@
            &&& !(platform is Windows) <==> path.executable@ == "keeweb-native-messaging-host"@
            &&& !debug ==> path.directory is None
            &&& debug ==> path.directory is Some && ({
                let directory = path.directory->Some_0@;
                let named = |p: Seq<char>, a: Seq<char>| directory == p + "-"@ + a;
                &&& platform is MacOs && arch is X64 ==> named("darwin"@, "x64"@)
                &&& platform is MacOs && arch is Arm64 ==> named("darwin"@, "arm64"@)
                &&& platform is MacOs && arch is X86 ==> named("darwin"@, "ia32"@)
                &&& platform is Windows && arch is X64 ==> named("win32"@, "x64"@)
                &&& platform is Windows && arch is Arm64 ==> named("win32"@, "arm64"@)
                &&& platform is Windows && arch is X86 ==> named("win32"@, "ia32"@)
                &&& platform is Linux && arch is X64 ==> named("linux"@, "x64"@)
                &&& platform is Linux && arch is Arm64 ==> named("linux"@, "arm64"@)
                &&& platform is Linux && arch is X86 ==> named("linux"@, "ia32"@)
            })
        },
{
    reveal_strlit("keeweb-native-messaging-host.exe");
    reveal_strlit("keeweb-native-messaging-host");
    assert("keeweb-native-messaging-host.exe"@.len() != "keeweb-native-messaging-host"@.len());
}

/// A manifest names the program of its extension and lets in that extension only: for
/// Firefox by its identifier, for other browsers by its origins, to which those under
/// development are added for one of the two extensions.
pub proof fn law_manifest(
    browser: &str,
    extension: &str,
    dev: &Vec<String>,
    origin: Seq<char>,
    name: Result<&'static str, String>,
    r: Result<Manifest, String>,
)
    requires
        call_ensures(host_name, (extension,), name),
        call_ensures(create_manifest, (browser, extension, dev), r),
    ensures
        r is Ok <==> name is Ok,
        r matches Ok(manifest) ==> {
            &&& manifest.name@ == (name->Ok_0)@
            &&& browser@ == "Firefox"@ <==> manifest.allowed is Extensions
            &&& manifest.allowed matches Allowed::Extensions(names) ==> names@.len() == 1
                && names@[0]@ == if extension@ == "KWC"@ {
                "keeweb-connect-addon@keeweb.info"@
            } else {
                "keepassxc-browser@keepassxc.org"@
            }
            &&& manifest.allowed matches Allowed::Origins(origins) ==> {
                &&& extension@ == "KWC"@ ==> (text::texts(origins@).contains(origin) <==> origin
                    == "chrome-extension://pikpfmjfkekaeinceagbebpfkmkdlcjk/"@ || origin
                    == "chrome-extension://nmggpehkjmeaeocmaijenpejbepckinm/"@ || text::texts(
                    dev@,
                ).contains(origin))
                &&& extension@ != "KWC"@ ==> (text::texts(origins@).contains(origin) <==> origin
                    == "chrome-extension://oboonakemofpalcgghocfoadofidjkkk/"@ || origin
                    == "chrome-extension://pdffhmdngciaglkoonimfcmckehcpafo/"@)
            }
        },
{
    if let Ok(manifest) = r {
        match manifest.allowed {
            Allowed::Extensions(names) => {
                assert(text::texts(names@).len() == names@.len());
                assert(allowed_extensions(extension@ == "KWC"@).len() == 1);
                assert(text::texts(names@)[0] == names@[0]@);
            },
            Allowed::Origins(origins) => {
                let all = text::texts(origins@);
                let more = text::texts(dev@);
                if extension@ == "KWC"@ {
                    assert(all[0] == KWC_CHROME@ && all[1] == KWC_EDGE@);
                    if more.contains(origin) {
                        let i = choose|i: int| 0 <= i < more.len() && more[i] == origin;
                        assert(all[i + 2] == origin);
                    }
                    if all.contains(origin) {
                        let i = choose|i: int| 0 <= i < all.len() && all[i] == origin;
                        if i >= 2 {
                            assert(more[i - 2] == origin);
                        }
                    }
                } else {
                    assert(all[0] == KPXC_CHROME@ && all[1] == KPXC_EDGE@);
                }
            },
        }
    }
}

/// Where browsers look for manifests, below the home directory.
pub proof fn law_manifest_directories(
    platform: Platform,
    browser: &str,
    r: Option<&'static str>,
)
    requires
        call_ensures(manifest_dir, (platform, browser), r),
    ensures
        r is Some <==> (platform is MacOs || platform is Linux) && (browser@ == "Chrome"@ || browser@
            == "Firefox"@ || browser@ == "Edge"@),
        r matches Some(directory) ==> {
            let at = |name: Seq<char>, path: Seq<char>| browser@ == name && directory@ == path;
            &&& platform is MacOs ==> {
                ||| at("Chrome"@, "Library/Application Support/Google/Chrome/NativeMessagingHosts"@)
                ||| at("Firefox"@, "Library/Application Support/Mozilla/NativeMessagingHosts"@)
                ||| at("Edge"@, "Library/Application Support/Microsoft Edge/NativeMessagingHosts"@)
            }
            &&& platform is Linux ==> {
                ||| at("Chrome"@, ".config/google-chrome/NativeMessagingHosts"@)
                ||| at("Firefox"@, ".mozilla/native-messaging-hosts"@)
                ||| at("Edge"@, ".config/microsoft-edge/NativeMessagingHosts"@)
            }
        },
{
}

/// A manifest is a file below the home directory, except on Windows, where the registry
/// points to it. It is named after the program, in the registry too. Two browsers need none.
pub proof fn law_place_of_a_manifest(
    platform: Platform,
    browser: &str,
    extension: &str,
    name: Result<&'static str, String>,
    directory: Option<&'static str>,
    r: Result<ManifestPlace, String>,
)
    requires
        call_ensures(host_name, (extension,), name),
        call_ensures(manifest_dir, (platform, browser), directory),
        call_ensures(install_manifest, (platform, browser, extension), r),
    ensures
        ({
            let desktop = platform is MacOs || platform is Windows || platform is Linux;
            let none = browser@ == "Safari"@ || browser@ == "Other"@;
            let known = browser@ == "Chrome"@ || browser@ == "Firefox"@ || browser@ == "Edge"@;
            &&& !desktop ==> r is Err && (r->Err_0)@ == "Not supported on this platform"@
            &&& desktop && none ==> r is Ok && r->Ok_0 is Nowhere
            &&& desktop && !none && !known ==> r is Err && (r->Err_0)@ == "Unknown browser"@
            &&& desktop && !none && known && name is Err ==> r is Err && (r->Err_0)@
                == "Unknown browser extension"@
            &&& desktop && !none && known && name is Ok ==> r is Ok && !(r->Ok_0 is Nowhere)
        }),
        r matches Ok(ManifestPlace::Home { directory: d, file }) ==> !(platform is Windows)
            && directory is Some && d@ == directory->Some_0@ && file@ == (name->Ok_0)@ + ".json"@,
        r matches Ok(ManifestPlace::Registry { file, key }) ==> {
            &&& platform is Windows
            &&& (name->Ok_0)@.is_suffix_of(key@)
            &&& browser@ == "Chrome"@ ==> key@ == "HKCU\\Software\\"@ + "Google\\Chrome"@
                + "\\NativeMessagingHosts\\"@ + (name->Ok_0)@
            &&& browser@ == "Firefox"@ ==> key@ == "HKCU\\Software\\"@ + "Mozilla"@
                + "\\NativeMessagingHosts\\"@ + (name->Ok_0)@
            &&& browser@ == "Edge"@ ==> key@ == "HKCU\\Software\\"@ + "Microsoft\\Edge"@
                + "\\NativeMessagingHosts\\"@ + (name->Ok_0)@
            &&& file@ == "native-messaging-"@ + text::lowered(extension@) + if browser@
                == "Firefox"@ {
                ".firefox.json"@
            } else {
                ".chrome.json"@
            }
        },
{
    reveal_strlit("Chrome");
    reveal_strlit("Firefox");
    reveal_strlit("Edge");
    reveal_strlit("Safari");
    reveal_strlit("Other");
    assert("Chrome"@.len() == 6 && "Chrome"@[0] == 'C');
    assert("Safari"@.len() == 6 && "Safari"@[0] == 'S');
    assert("Firefox"@.len() == 7 && "Edge"@.len() == 4 && "Other"@.len() == 5);
}

/// Enabling writes what disabling removes, at the same place; where there is no place,
/// neither does anything.
pub proof fn law_enabled_and_disabled(place: ManifestPlace, on: ManifestStep, off: ManifestStep)
    requires
        call_ensures(manifest_step, (place, true), on),
        call_ensures(manifest_step, (place, false), off),
    ensures
        place is Nowhere ==> on is Nothing && off is Nothing,
        place matches ManifestPlace::Home { directory, file } ==> {
            &&& on is Write && off is Remove
            &&& on->Write_directory@ == directory@ && on->Write_file@ == file@
            &&& off->Remove_directory@ == directory@ && off->Remove_file@ == file@
        },
        place matches ManifestPlace::Registry { file, key } ==> {
            &&& on is WriteAndRegister && off is Unregister
            &&& on->WriteAndRegister_file@ == file@ && on->WriteAndRegister_key@ == key@
            &&& off->Unregister_key@ == key@
        },
{
}

/// A manifest that is already gone is no failure to remove it; anything else is.
pub proof fn law_removal(missing: bool, failure: Option<String>, r: Result<(), String>)
    requires
        call_ensures(manifest_removed, (missing, failure), r),
    ensures
        r is Err <==> failure is Some && !missing,
        r matches Err(e) ==> e@ == failure->Some_0@,
{
}

/// The registry is told to set the key to the file, or to drop it, without asking back.
pub proof fn law_registry_arguments(key: &str, file: Option<&str>, r: Vec<String>)
    requires
        call_ensures(registry_arguments, (key, file), r),
    ensures
        r@.len() >= 3,
        r@[1]@ == key@,
        r@.last()@ == "/f"@,
        file matches Some(file) ==> r@.len() == 6 && r@[0]@ == "ADD"@ && r@[2]@ == "/ve"@ && r@[3]@
            == "/d"@ && r@[4]@ == file@,
        file is None ==> r@.len() == 3 && r@[0]@ == "DELETE"@,
{
    let all = text::texts(r@);
    assert(all.len() == r@.len());
    assert(all[0] == r@[0]@ && all[1] == r@[1]@ && all[2] == r@[2]@);
    if file is Some {
        assert(all[3] == r@[3]@ && all[4] == r@[4]@ && all[5] == r@[5]@);
    }
}

/// A failure of the registry is told with what it wrote, but for the white space around it.
pub proof fn law_registry_failure(success: bool, errors: &Vec<u8>, r: Result<(), String>)
    requires
        call_ensures(registry, (success, errors), r),
    ensures
        r is Ok <==> success,
        r matches Err(e) ==> "REG failed: "@.is_prefix_of(e@) && text::is_core(
            encoding::lossy(errors@),
            e@.skip("REG failed: "@.len() as int),
        ),
{
    text::law_trimming_drops_only_white_ends(encoding::lossy(errors@));
    if r is Err {
        let e = (r->Err_0)@;
        assert(e.skip("REG failed: "@.len() as int) =~= text::trimmed(encoding::lossy(errors@)));
    }
}

} // verus!
