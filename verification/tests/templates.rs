use sq_app::templates::{hidden_path_for, listing, path_for, TemplateSource};

fn texts(v: &[&str]) -> Vec<String> {
    v.iter().map(|s| s.to_string()).collect()
}

#[test]
fn the_user_layouts_come_first_in_name_order() {
    let user = texts(&["Zeta", "Alpha", "Mid", "Alpha"]);
    let builtin = texts(&["Broker A", "Broker B"]);
    let hidden: Vec<String> = Vec::new();
    let list = listing(&user, &builtin, &hidden);
    assert_eq!(
        list,
        vec![
            (TemplateSource::User, 1),
            (TemplateSource::User, 3),
            (TemplateSource::User, 2),
            (TemplateSource::User, 0),
            (TemplateSource::Builtin, 0),
            (TemplateSource::Builtin, 1),
        ]
    );
}

/// A shipped preset the user has saved over by name is not listed twice, and a hidden one is
/// not listed at all.
#[test]
fn a_shipped_layout_gives_way_to_the_users_and_to_hiding() {
    let user = texts(&["Broker B"]);
    let builtin = texts(&["Broker A", "Broker B", "Broker C", "Broker A"]);
    let hidden = texts(&["Broker C"]);
    let list = listing(&user, &builtin, &hidden);
    assert_eq!(list, vec![(TemplateSource::User, 0), (TemplateSource::Builtin, 0)]);
}

#[test]
fn names_sort_by_code_point() {
    // an uppercase letter comes before every lowercase one, and a prefix before its extension
    let user = texts(&["b", "B", "ba", "a"]);
    let list = listing(&user, &Vec::new(), &Vec::new());
    let names: Vec<&str> = list.iter().map(|(_, i)| user[*i].as_str()).collect();
    assert_eq!(names, vec!["B", "a", "b", "ba"]);
    assert_eq!(TemplateSource::default(), TemplateSource::User);
}

#[test]
fn the_files_sit_beside_the_database() {
    assert_eq!(
        std::path::Path::new(&path_for("/d/p/portfolio.db")),
        std::path::Path::new("/d/p/import_templates.json")
    );
    assert_eq!(
        std::path::Path::new(&hidden_path_for("/d/p/portfolio.db")),
        std::path::Path::new("/d/p/import_presets_hidden.json")
    );
}
