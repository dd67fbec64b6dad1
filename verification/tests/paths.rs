use lemonkee::json::JsonValue;
use lemonkee::paths::{
    bundle_index, chosen_directory, default_directory, get_path, of_system, path_text,
    portable_allowed, portable_answer, portable_directory, portable_member, user_data_dir, Base,
    DirectoryStep, PathKind, PortableFile, UserDirectory,
};
use lemonkee::platform::Platform;

fn ordinary(platform: Platform, app_data: bool, xdg: bool) -> Result<(Base, &'static str), String> {
    default_directory(platform, app_data, xdg).map(|directory| (directory.base, directory.path))
}

#[test]
fn ordinary_directories() {
    assert_eq!(
        ordinary(Platform::MacOs, false, true),
        Ok((Base::Home, "Library/Application Support/KeeWeb"))
    );
    assert_eq!(ordinary(Platform::Windows, true, false), Ok((Base::AppData, "KeeWeb")));
    assert_eq!(ordinary(Platform::Windows, false, true), Err("APPDATA is not set".to_string()));
    assert_eq!(ordinary(Platform::Linux, true, true), Ok((Base::XdgConfig, "KeeWeb")));
    assert_eq!(ordinary(Platform::Linux, true, false), Ok((Base::Home, ".config/KeeWeb")));
    assert_eq!(ordinary(Platform::Unix, true, true), Ok((Base::AppConfig, "")));
    assert_eq!(ordinary(Platform::Other, true, true), Ok((Base::AppConfig, "")));
}

#[test]
fn installed_programs_are_not_portable() {
    let allowed = |platform, executable| portable_allowed(platform, executable, false, None);
    assert!(!allowed(Platform::MacOs, "/Applications/KeeWeb.app/Contents/MacOS/KeeWeb"));
    assert!(allowed(Platform::MacOs, "/Volumes/Stick/KeeWeb.app/Contents/MacOS/KeeWeb"));
    assert!(allowed(Platform::MacOs, "/usr/bin/keeweb"));
    assert!(!allowed(Platform::Windows, "C:\\Program Files\\KeeWeb\\KeeWeb.exe"));
    assert!(allowed(Platform::Windows, "D:\\KeeWeb.exe"));
    assert!(!allowed(Platform::Linux, "/usr/bin/keeweb"));
    assert!(!allowed(Platform::Unix, "/opt/keeweb/keeweb"));
    assert!(allowed(Platform::Linux, "/home/me/keeweb"));
}

#[test]
fn programs_of_the_system() {
    // The same as `Path::starts_with` says of the two directories.
    for executable in [
        "/usr/bin/keeweb", "/opt/keeweb", "/usr", "/opt/", "//usr//bin/keeweb", "/./opt/x", "/././usr/x",
        "/usrlocal/keeweb", "/home/usr/keeweb", "usr/bin/keeweb", "/../usr/x", "/", "", ".", "./usr/x", "/.usr/x",
    ] {
        let path = std::path::Path::new(executable);
        let expected = path.starts_with("/usr/") || path.starts_with("/opt/");
        assert_eq!(of_system(executable), expected, "{executable}");
    }
    assert!(of_system("/usr/bin/keeweb"));
    assert!(!of_system("/usrlocal/keeweb"));
}

#[test]
fn a_variable_decides_in_debug_builds() {
    let allowed = |debug, value: &str| portable_allowed(Platform::Linux, "/usr/x", debug, Some(value.to_string()));
    assert!(allowed(true, "true"));
    assert!(allowed(true, " true "));
    assert!(!allowed(true, "false"));
    assert!(!allowed(true, "1"));
    assert!(!allowed(true, "yes"));
    assert!(!allowed(false, "true"));
    assert!(!portable_allowed(Platform::Linux, "/x", true, Some("false".to_string())));
    assert!(portable_answer(Ok(JsonValue::Bool(true)), false));
    assert!(portable_answer(Ok(JsonValue::Null), true));
    assert!(!portable_answer(Err("bad".to_string()), false));
}

#[test]
fn bundles() {
    assert_eq!(bundle_index(&vec![false, false, false, true, false, true]), 3);
    assert_eq!(bundle_index(&vec![true, true]), 0);
    assert_eq!(bundle_index(&vec![false, false]), 0);
    assert_eq!(bundle_index(&vec![]), 0);
}

#[test]
fn directory_of_the_user() {
    assert_eq!(user_data_dir(true, true, false), Ok(DirectoryStep::Override));
    assert_eq!(user_data_dir(false, false, false), Ok(DirectoryStep::Ordinary));
    assert_eq!(user_data_dir(false, true, true), Ok(DirectoryStep::PortableConfig));
    assert_eq!(user_data_dir(false, true, false), Err("Executable has no parent".to_string()));
}

#[test]
fn choice_of_the_directory() {
    let choose = |step, found| chosen_directory(step, found).map(|choice| {
        let name = match choice.directory {
            UserDirectory::Override => "override".to_string(),
            UserDirectory::Portable(path) => path,
            UserDirectory::Ordinary => "ordinary".to_string(),
        };
        (name, choice.portable)
    });
    let data = || Ok(Some("data".to_string()));
    assert_eq!(choose(DirectoryStep::Override, data()), Ok(("override".to_string(), true)));
    assert_eq!(choose(DirectoryStep::Ordinary, data()), Ok(("ordinary".to_string(), false)));
    assert_eq!(choose(DirectoryStep::PortableConfig, data()), Ok(("data".to_string(), true)));
    assert_eq!(choose(DirectoryStep::PortableConfig, Ok(None)), Ok(("ordinary".to_string(), false)));
    assert_eq!(
        choose(DirectoryStep::PortableConfig, Err("denied".to_string())),
        Err("denied".to_string())
    );
}

#[test]
fn portable_configurations() {
    let read = |text: &str| portable_directory(PortableFile::Text(text.to_string()), "/x/keeweb-portable.json");
    assert_eq!(read("{\"userDataDir\":\"data\"}"), Ok(Some("data".to_string())));
    let missing = Err("Portable config requires userDataDir".to_string());
    assert_eq!(read("{}"), missing);
    assert_eq!(read("[]"), missing);
    assert_eq!(read("{\"userDataDir\":5}"), missing);
    assert_eq!(
        read("{"),
        Err("/x/keeweb-portable.json: EOF while parsing an object at line 1 column 1".to_string())
    );
    assert_eq!(portable_directory(PortableFile::Missing, "x"), Ok(None));
    assert_eq!(
        portable_directory(PortableFile::Failed("denied".to_string()), "x"),
        Err("denied".to_string())
    );
    assert_eq!(portable_member(Ok(JsonValue::Text("d".to_string())), "f"), Ok("d".to_string()));
    assert_eq!(portable_member(Err("bad".to_string()), "f"), Err("f: bad".to_string()));
}

#[test]
fn kinds_of_paths() {
    assert_eq!(get_path("userData"), Ok(PathKind::UserData));
    assert_eq!(get_path("temp"), Ok(PathKind::Temp));
    assert_eq!(get_path("documents"), Ok(PathKind::Documents));
    assert_eq!(get_path("app"), Ok(PathKind::App));
    assert_eq!(get_path("workDir"), Ok(PathKind::WorkDir));
    assert_eq!(get_path("home"), Err("Unknown path kind: home".to_string()));
    assert_eq!(path_text(Some("/a".to_string()), "?"), Ok("/a".to_string()));
    assert_eq!(path_text(None, "/\u{fffd}"), Err("Path is not UTF-8: /\u{fffd}".to_string()));
}
