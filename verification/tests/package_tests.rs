use fpm::config::Config;
use fpm::error::Error;
use fpm::package::{
    inherit_auto_imports, with_package_info, AutoImport, Dependency, Font, Package, PackageTemp,
    PACKAGE_INFO_INTERFACE,
};

fn dep(name: &str, alias: Option<&str>, implements: &[&str]) -> Dependency {
    Dependency {
        package: Package::new(name),
        version: None,
        notes: None,
        alias: alias.map(|a| a.to_string()),
        implements: implements.iter().map(|s| s.to_string()).collect(),
    }
}

fn import(path: &str, alias: Option<&str>) -> AutoImport {
    AutoImport { path: path.to_string(), alias: alias.map(|a| a.to_string()) }
}

fn font(name: &str, html: &str) -> Font {
    Font { name: name.to_string(), html: html.to_string(), html_name: format!("f-{}", name) }
}

fn config(package: Package) -> Config {
    Config {
        package,
        root: "/work/pkg".to_string(),
        packages_root: "/work/pkg/.packages".to_string(),
        original_directory: "/work".to_string(),
    }
}

#[test]
fn a_new_package_has_a_name_only() {
    let p = Package::new("amitu.com");
    assert_eq!(p.name, "amitu.com");
    assert!(p.translation_of.is_none());
    assert!(p.translations.is_empty());
    assert!(p.language.is_none() && p.about.is_none() && p.zip.is_none());
    assert!(p.translation_status_summary.is_none());
    assert!(p.canonical_url.is_none());
    assert!(p.dependencies.is_empty() && p.auto_import.is_empty());
    assert!(p.fpm_path.is_none());
    assert!(p.ignored_paths.is_empty() && p.fonts.is_empty());
    assert!(p.import_auto_imports_from_original);
}

#[test]
fn a_package_record_becomes_a_package() {
    let p = PackageTemp {
        name: "fr.amitu.com".to_string(),
        translation_of: Some("amitu.com".to_string()),
        translations: vec!["a".to_string(), "b".to_string()],
        language: Some("fr".to_string()),
        about: Some("about".to_string()),
        zip: Some("zip".to_string()),
        canonical_url: Some("https://x/".to_string()),
        import_auto_imports_from_original: false,
    }
    .into_package();
    assert_eq!(p.name, "fr.amitu.com");
    let original = p.translation_of.as_ref().as_ref().unwrap();
    assert_eq!(original.name, "amitu.com");
    assert!(original.import_auto_imports_from_original);
    assert_eq!(p.translations.len(), 2);
    assert_eq!(p.translations[0].name, "a");
    assert_eq!(p.translations[1].name, "b");
    assert_eq!(p.language.as_deref(), Some("fr"));
    assert_eq!(p.about.as_deref(), Some("about"));
    assert_eq!(p.zip.as_deref(), Some("zip"));
    assert_eq!(p.canonical_url.as_deref(), Some("https://x/"));
    assert!(!p.import_auto_imports_from_original);
    assert!(p.dependencies.is_empty() && p.fonts.is_empty());
}

#[test]
fn the_first_dependency_that_implements_is_found() {
    let mut p = Package::new("p");
    p.dependencies = vec![dep("a", None, &["x"]), dep("b", None, &["y", "z"]), dep("c", None, &["z"])];
    assert_eq!(p.get_dependency_for_interface("z").unwrap().package.name, "b");
    assert_eq!(p.get_dependency_for_interface("x").unwrap().package.name, "a");
    assert!(p.get_dependency_for_interface("w").is_none());
}

#[test]
fn dependencies_are_flattened_depth_first() {
    let mut c = dep("c", None, &[]);
    c.package.dependencies = vec![dep("d", None, &[])];
    let mut a = dep("a", None, &[]);
    a.package.dependencies = vec![dep("b", None, &[]), c];
    let mut p = Package::new("p");
    p.dependencies = vec![a, dep("e", None, &[])];
    let names: Vec<&str> =
        p.get_flattened_dependencies().iter().map(|d| d.package.name.as_str()).collect();
    assert_eq!(names, vec!["b", "d", "c", "a", "e"]);
    assert!(Package::new("q").get_flattened_dependencies().is_empty());
}

#[test]
fn font_html_has_one_rule_on_each_line() {
    let mut p = Package::new("p");
    assert_eq!(p.get_font_html(), "");
    p.fonts = vec![font("a", "@font-face { a }"), font("b", "@font-face { b }")];
    assert_eq!(p.get_font_html(), "@font-face { a }\n@font-face { b }\n");
}

#[test]
fn the_prefix_imports_every_auto_import() {
    let mut p = Package::new("p");
    assert_eq!(p.generate_prefix_string(true), None);
    assert_eq!(p.generate_prefix_string(false), None);
    p.auto_import = vec![import("fpm", None), import("lib/ui", Some("ui"))];
    p.dependencies = vec![dep("fifthtry.github.io/lib", Some("lib"), &[])];
    assert_eq!(
        p.generate_prefix_string(true).unwrap(),
        "\n-- import: fpm\n-- import: lib/ui as ui"
    );
    assert_eq!(
        p.generate_prefix_string(false).unwrap(),
        "\n-- import: fpm\n-- import: fifthtry.github.io/lib/ui as ui"
    );
}

#[test]
fn an_alias_is_resolved_as_a_whole_name_only() {
    let mut p = Package::new("p");
    p.dependencies = vec![dep("full.name", Some("lib"), &[]), dep("other.name", Some("li"), &[])];
    p.auto_import = vec![import("lib", None), import("library/x", None), import("a/lib/x", None), import("li/lib", None)];
    assert_eq!(
        p.generate_prefix_string(false).unwrap(),
        "\n-- import: full.name\n-- import: library/x\n-- import: a/lib/x\n-- import: other.name/lib"
    );
}

#[test]
fn the_last_matching_dependency_decides() {
    let mut p = Package::new("p");
    p.dependencies = vec![dep("first", Some("lib"), &[]), dep("second", Some("lib"), &[])];
    p.auto_import = vec![import("lib/x", None)];
    assert_eq!(p.generate_prefix_string(false).unwrap(), "\n-- import: second/x");
}

#[test]
fn the_body_gets_the_imports_in_front() {
    let mut p = Package::new("p");
    assert_eq!(p.get_prefixed_body("body", "index.ftd", true), "body");
    p.auto_import = vec![import("fpm", None), import("lib", Some("l"))];
    assert_eq!(
        p.get_prefixed_body("body", "index.ftd", true),
        "-- import: fpm\n-- import: lib as l\n\nbody"
    );
    assert_eq!(p.get_prefixed_body("body", "FPM/x.ftd", true), "body");
    assert_eq!(p.get_prefixed_body("body", "a/FPM/x.ftd", false), "body");
    assert_eq!(p.get_prefixed_body("body", "FPM.ftd", false), "-- import: fpm\n-- import: lib as l\n\nbody");
}

#[test]
fn auto_imports_are_found_by_alias_or_path() {
    let mut p = Package::new("p");
    p.auto_import = vec![import("lib/ui", Some("ui")), import("fpm", None), import("other", Some("fpm"))];
    assert_eq!(p.eval_auto_import("ui"), Some("lib/ui"));
    assert_eq!(p.eval_auto_import("fpm"), Some("fpm"));
    assert_eq!(p.eval_auto_import("lib/ui"), None);
    assert_eq!(p.eval_auto_import("other"), None);
}

#[test]
fn the_canonical_link_is_made_for_pages_of_the_site() {
    let mut p = Package::new("p");
    assert_eq!(p.generate_canonical_url("a/"), "");
    p.canonical_url = Some("https://fifthtry.com/".to_string());
    assert_eq!(
        p.generate_canonical_url("a/b/"),
        "\n<link rel=\"canonical\" href=\"https://fifthtry.com/a/b/\" />"
    );
    assert_eq!(p.generate_canonical_url("-/fpm/"), "");
    assert_eq!(p.generate_canonical_url(""), "\n<link rel=\"canonical\" href=\"https://fifthtry.com/\" />");
}

#[test]
fn aliases_name_the_packages_of_the_dependencies() {
    let mut p = Package::new("p");
    p.dependencies = vec![dep("full.name", Some("lib"), &[]), dep("other", None, &[]), dep("late", Some("other"), &[])];
    let map = p.aliases().unwrap();
    assert_eq!(map.len(), 4);
    assert_eq!(map.get("lib").unwrap().name, "full.name");
    assert_eq!(map.get("full.name").unwrap().name, "full.name");
    assert_eq!(map.get("other").unwrap().name, "late");
    assert_eq!(map.get("late").unwrap().name, "late");
}

#[test]
fn auto_import_lines_are_read() {
    let a = AutoImport::from_string("  lib/ui as ui ");
    assert_eq!(a.path, "lib/ui");
    assert_eq!(a.alias.as_deref(), Some("ui"));
    let b = AutoImport::from_string("fpm");
    assert_eq!(b.path, "fpm");
    assert_eq!(b.alias, None);
    let c = AutoImport::from_string("a as b as c");
    assert_eq!(c.path, "a");
    assert_eq!(c.alias.as_deref(), Some("b as c"));
}

#[test]
fn package_info_is_added_unless_implemented() {
    let deps = with_package_info("p", vec![dep("a", None, &[])]);
    assert_eq!(deps.len(), 2);
    assert_eq!(deps[1].package.name, PACKAGE_INFO_INTERFACE);
    assert!(deps[1].alias.is_none() && deps[1].implements.is_empty());
    let deps = with_package_info("p", vec![dep("a", None, &["x", PACKAGE_INFO_INTERFACE])]);
    assert_eq!(deps.len(), 1);
    let deps = with_package_info(PACKAGE_INFO_INTERFACE, vec![]);
    assert!(deps.is_empty());
    let deps = with_package_info("p", vec![]);
    assert_eq!(deps.len(), 1);
}

#[test]
fn a_translation_takes_the_imports_of_its_original() {
    let mut original = Package::new("o");
    original.auto_import = vec![import("fpm", None), import("lib", Some("l"))];
    let mut p = Package::new("t");
    p.translation_of = Box::new(Some(original));
    inherit_auto_imports(&mut p).unwrap();
    assert_eq!(p.auto_import.len(), 2);
    assert_eq!(p.auto_import[1].path, "lib");
    assert_eq!(p.auto_import[1].alias.as_deref(), Some("l"));
    match inherit_auto_imports(&mut p) {
        Err(Error::PackageError { message }) => assert_eq!(
            message,
            "Can't use `inherit-auto-imports-from-original` along with auto-imports defined for the translation package. Either set `inherit-auto-imports-from-original` to false or remove `fpm.auto-import` from the t/FPM.ftd file"
        ),
        other => panic!("unexpected {:?}", other),
    }
}

#[test]
fn other_packages_keep_their_imports() {
    let mut p = Package::new("t");
    p.auto_import = vec![import("mine", None)];
    inherit_auto_imports(&mut p).unwrap();
    assert_eq!(p.auto_import.len(), 1);
    let mut original = Package::new("o");
    original.auto_import = vec![import("fpm", None)];
    p.translation_of = Box::new(Some(original));
    p.import_auto_imports_from_original = false;
    inherit_auto_imports(&mut p).unwrap();
    assert_eq!(p.auto_import[0].path, "mine");
}

#[test]
fn paths_lie_below_the_root() {
    let c = config(Package::new("p"));
    assert_eq!(c.build_dir(), "/work/pkg/.build");
    assert_eq!(c.history_dir(), "/work/pkg/.history");
    assert_eq!(c.latest_ftd(), "/work/pkg/.history/.latest.ftd");
    assert_eq!(c.track_dir(), "/work/pkg/.tracks");
}

#[test]
fn the_original_path_is_the_directory_of_its_package_file() {
    let mut c = config(Package::new("t"));
    assert!(!c.is_translation_package());
    match c.original_path() {
        Err(Error::UsageError { message }) => {
            assert_eq!(message, "This package is not a translation package")
        }
        other => panic!("unexpected {:?}", other),
    }
    c.package.translation_of = Box::new(Some(Package::new("o")));
    assert!(c.is_translation_package());
    match c.original_path() {
        Err(Error::UsageError { message }) => {
            assert_eq!(message, "Unable to find `fpm_path` of the package o")
        }
        other => panic!("unexpected {:?}", other),
    }
    let mut o = Package::new("o");
    o.fpm_path = Some("/work/pkg/.packages/o/FPM.ftd".to_string());
    c.package.translation_of = Box::new(Some(o));
    assert_eq!(c.original_path().unwrap(), "/work/pkg/.packages/o");
    let mut o = Package::new("o");
    o.fpm_path = Some("/".to_string());
    c.package.translation_of = Box::new(Some(o));
    match c.original_path() {
        Err(Error::UsageError { message }) => {
            assert_eq!(message, "Unable to find the directory of the package o")
        }
        other => panic!("unexpected {:?}", other),
    }
}

#[test]
fn the_font_style_names_each_package_once() {
    let mut c = config(Package::new("p"));
    assert_eq!(c.get_font_style(), "");
    let mut a = dep("a", None, &[]);
    a.package.fonts = vec![font("fa", "A")];
    let mut a_again = dep("a", None, &[]);
    a_again.package.fonts = vec![font("fa2", "A2")];
    let mut b = dep("b", None, &[]);
    b.package.fonts = vec![font("fb", "B")];
    b.package.dependencies = vec![a_again];
    c.package.dependencies = vec![b, a];
    c.package.fonts = vec![font("own", "OWN")];
    assert_eq!(c.get_font_style(), "<style>OWN\n\nA2\n\nB\n</style>");
}

#[test]
fn dependencies_without_fonts_leave_no_style() {
    let mut c = config(Package::new("p"));
    c.package.dependencies = vec![dep("a", None, &[]), dep("b", None, &[])];
    assert_eq!(c.get_font_style(), "");
    c.package.fonts = vec![font("own", "  ")];
    assert_eq!(c.get_font_style(), "");
    c.package.fonts = vec![font("own", "x")];
    assert_eq!(c.get_font_style(), "<style>x\n\n\n</style>");
}
