use sq_app::error::UiError;
use sq_app::plugins::{
    check_manifest, check_removable, copy_plan, declared, installed_info, list_order, listed_info,
    missing, safe_join, valid_id, Base, Manifest, PluginInfo, Plugins, Provides, Status, ThemeDef, API,
};
use sq_app::plugins::ReaderDef;
use sq_app::reader::{settle, ReadStep, Reading, Refusal};
use std::path::Path;

fn manifest(id: &str, api: u32) -> Manifest {
    Manifest {
        id: id.to_string(),
        api,
        name: "Midnight".to_string(),
        version: "1.0.0".to_string(),
        provides: Provides {
            themes: vec![ThemeDef {
                id: "midnight".to_string(),
                name: "Midnight".to_string(),
                file: "midnight.css".to_string(),
                base: Base::Dark,
            }],
            layouts: Vec::new(),
            readers: Vec::new(),
        },
    }
}

#[test]
fn an_installed_plugin_is_listed_with_its_theme() {
    let plugins = Plugins::new("/data".to_string());
    let nothing: Vec<PluginInfo> = Vec::new();
    assert!(plugins.themes(&nothing).is_empty(), "nothing is installed yet");

    let m = manifest("com.example.midnight", API);
    assert!(check_manifest(&m).is_ok());
    let listed = vec![installed_info(m.clone())];
    assert_eq!(listed.len(), 1);
    assert_eq!(listed[0].status, Status::Usable);
    assert_eq!(plugins.themes(&listed)[0].key, "com.example.midnight/midnight");
    let css = plugins.theme_css_path("com.example.midnight", "midnight", Ok(m)).unwrap();
    assert_eq!(
        Path::new(&css),
        Path::new("/data/plugins/com.example.midnight/midnight.css")
    );
}

#[test]
fn a_plugin_built_for_another_api_is_listed_and_not_offered() {
    let plugins = Plugins::new("/data".to_string());
    let m = manifest("com.example.future", API + 1);
    let listed = vec![installed_info(m.clone())];
    assert_eq!(
        listed[0].status,
        Status::Api { wants: API + 1, speaks: API },
        "a package from a later build is listed, with why"
    );
    assert!(
        plugins.themes(&listed).is_empty(),
        "a theme that cannot be applied is not in the picker"
    );
    assert!(plugins.theme_css_path("com.example.future", "midnight", Ok(m)).is_err());
}

#[test]
fn a_package_that_declares_nothing_this_build_can_use_is_refused() {
    let mut m = manifest("com.example.typo", 1);
    m.name = "Typo".to_string();
    m.provides.themes.clear();
    let failure = check_manifest(&m).unwrap_err();
    assert!(format!("{failure:?}").contains("declares nothing"), "{failure:?}");
}

#[test]
fn a_manifest_naming_a_file_outside_the_package_is_refused() {
    let mut m = manifest("com.example.escape", 1);
    m.provides.themes[0].file = "../../secrets.json".to_string();
    assert!(check_manifest(&m).is_ok());
    let files = declared(&m.provides);
    assert!(copy_plan("/src/escape", "/data/plugins/com.example.escape", &files).is_err());
    assert!(safe_join("/src", "/etc/passwd").is_err());
    assert!(safe_join("/src", "").is_err());
    assert!(safe_join("/src", "themes/a.css").is_ok());
}

#[test]
fn a_removed_plugin_takes_its_folder_with_it() {
    assert!(check_removable("com.example.midnight").is_ok());
    assert!(check_removable("../evil").is_err());
    match missing("com.example.midnight") {
        UiError::NotFound { message } => assert_eq!(message, "plugin com.example.midnight"),
        other => panic!("{other:?}"),
    }
}

#[test]
fn a_folder_with_an_unreadable_manifest_is_shown_as_broken() {
    let listed = listed_info("com.example.broken".to_string(), Err("expected value".to_string()));
    assert!(matches!(listed.status, Status::Broken { .. }));
    assert_eq!(listed.name, "com.example.broken");
}

#[test]
fn the_list_is_in_name_order_letter_case_aside() {
    let mut a = installed_info(manifest("a.one", API));
    a.name = "beta".to_string();
    let mut b = installed_info(manifest("b.two", API));
    b.name = "Alpha".to_string();
    let mut c = installed_info(manifest("c.three", API));
    c.name = "alpha".to_string();
    assert_eq!(list_order(&vec![a, b, c]), vec![1, 2, 0]);
}

#[test]
fn an_id_is_dull() {
    assert!(valid_id("com.example-1_a"));
    assert!(!valid_id("Com.Example"));
    assert!(!valid_id(""));
    assert!(!valid_id(&"a".repeat(65)));
}

#[test]
fn a_file_is_offered_to_the_readers_of_its_ending_in_turn() {
    let plugins = Plugins::new("/data".to_string());
    let mut m = manifest("com.example.pdf", API);
    m.provides.readers = vec![
        ReaderDef {
            id: "statements".to_string(),
            file: "reader.wasm".to_string(),
            sample: "sample.pdf".to_string(),
            expected: "expected.json".to_string(),
            extensions: vec![".pdf".to_string()],
        },
        ReaderDef {
            id: "anything".to_string(),
            file: "any.wasm".to_string(),
            sample: "s".to_string(),
            expected: "e".to_string(),
            extensions: Vec::new(),
        },
    ];
    let listed = vec![installed_info(m)];
    let mut reading = plugins.read_file("Statement.PDF", &listed);
    let first = reading.next_reader().unwrap();
    assert_eq!(first.id, "com.example.pdf/statements");
    assert_eq!(
        Path::new(&first.module),
        Path::new("/data/plugins/com.example.pdf/reader.wasm")
    );
    assert!(matches!(settle(first.id, Err(Refusal::NotMine)), ReadStep::Next));
    let second = reading.next_reader().unwrap();
    assert_eq!(second.id, "com.example.pdf/anything");
    let read = settle(
        second.id,
        Ok(Reading { canonical: "{}".to_string(), warnings: Vec::new() }),
    );
    assert!(matches!(read, ReadStep::Read { .. }));
    assert!(reading.next_reader().is_none());

    let mut csv = plugins.read_file("export.csv", &listed);
    assert_eq!(csv.next_reader().unwrap().id, "com.example.pdf/anything");
    assert!(csv.next_reader().is_none());
}
