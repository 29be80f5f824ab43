use fpm::assets::{build_tree, full_path_to_key, join_parts, process_leaf_node, split_path, tree_of_files, Dir};
use fpm::package::{Font, Package};

const ASSETS: &str = "-- import: fpm\n\n-- record ftd-file:\nstring ftd:\n-- record png-file:\nstring png:\n-- record svg-file:\nstring svg:\n-- record gitignore-file:\nstring gitignore:\n-- record md-file:\nstring md:\n-- record txt-file:\nstring txt:\n\n\n\n\n-- record images-icons-folder:\nsvg-file a:\nsvg-file b_c:\n-- record images-folder:\npng-file logo:\nimages-icons-folder icons:\n\n\n-- record docs-sub-folder:\nstring :\n-- record docs-folder:\nmd-file guide.v1:\nstring LICENSE:\ndocs-sub-folder sub:\n\n\n\n-- record a-b-c-folder:\ntxt-file d:\n-- record a-b-folder:\na-b-c-folder c:\n-- record a-folder:\na-b-folder b:\n\n-- record hidden-folder:\nftd-file x:\n\n\n-- ftd-file index-ftd:\nftd: index.ftd\n\n-- png-file images-logo-png:\npng: images/logo.png\n\n-- svg-file images-icons-a-svg:\nsvg: images/icons/a.svg\n-- svg-file images-icons-b-c-svg:\nsvg: images/icons/b_c.svg\n-- images-icons-folder images-icons:\na: $images-icons-a-svg\nb_c: $images-icons-b-c-svg\n-- images-folder images:\nlogo: $images-logo-png\nicons: $images-icons\n-- string README: README\n-- gitignore-file gitignore:\ngitignore: .gitignore\n\n-- md-file docs-guide-v1-md:\nmd: docs/guide.v1.md\n-- string LICENSE: docs/LICENSE\n\n-- string : docs/sub/\n-- docs-sub-folder docs-sub:\n: docs/sub/\n-- docs-folder docs:\nguide.v1: $docs-guide-v1-md\nLICENSE: docs/LICENSE\nsub: $docs-sub\n\n\n\n-- txt-file a-b-c-d-txt:\ntxt: a/b/c/d.txt\n-- a-b-c-folder a-b-c:\nd: $a-b-c-d-txt\n-- a-b-folder a-b:\nc: $a-b-c\n-- a-folder a:\nb: $a-b\n\n-- ftd-file hidden-x-ftd:\nftd: .hidden/x.ftd\n-- hidden-folder hidden:\nx: $hidden-x-ftd\n-- record font:\nstring Roboto:\nstring Mono:\n-- font fonts:\nRoboto: f1\nMono: f2\n";
const NO_ASSETS: &str = "-- import: fpm\n\n\n\n\n\n\n-- record font:\n-- font fonts:\n";

fn font(name: &str, html_name: &str) -> Font {
    Font { name: name.to_string(), html: String::new(), html_name: html_name.to_string() }
}

fn strings(list: &[&str]) -> Vec<String> {
    list.iter().map(|s| s.to_string()).collect()
}

#[test]
fn paths_are_split_at_slashes() {
    assert_eq!(split_path("a/b/c.txt"), strings(&["a", "b", "c.txt"]));
    assert_eq!(split_path(""), strings(&[""]));
    assert_eq!(split_path("/"), strings(&["", ""]));
    assert_eq!(split_path("a//b/"), strings(&["a", "", "b", ""]));
    for s in ["x", "a/b", "/a", "é/ü"] {
        let expected: Vec<String> = s.split('/').map(|p| p.to_string()).collect();
        assert_eq!(split_path(s), expected);
    }
}

#[test]
fn parts_are_joined_with_slashes() {
    let parts = strings(&["a", "b", "c"]);
    assert_eq!(join_parts(&parts, 0), "");
    assert_eq!(join_parts(&parts, 1), "a");
    assert_eq!(join_parts(&parts, 2), "a/b");
    assert_eq!(join_parts(&parts, 3), "a/b/c");
}

#[test]
fn keys_have_dashes() {
    assert_eq!(full_path_to_key("images/logo.png"), "images-logo-png");
    assert_eq!(full_path_to_key("..hidden/a_b.c"), "hidden-a-b-c");
    assert_eq!(full_path_to_key(". a "), "a");
    assert_eq!(full_path_to_key(""), "");
    assert_eq!(full_path_to_key("a.b."), "a-b-");
}

#[test]
fn names_and_extensions_of_files() {
    assert_eq!(process_leaf_node("logo.png"), ("logo".to_string(), Some("png".to_string())));
    assert_eq!(process_leaf_node("guide.v1.md"), ("guide.v1".to_string(), Some("md".to_string())));
    assert_eq!(process_leaf_node(".gitignore"), ("DOT".to_string(), Some("gitignore".to_string())));
    assert_eq!(process_leaf_node("README"), ("README".to_string(), None));
    assert_eq!(process_leaf_node("a."), ("a".to_string(), Some(String::new())));
    assert_eq!(process_leaf_node(""), (String::new(), None));
}

#[test]
fn a_path_enters_the_tree_once() {
    let top = Dir::new("root", "root");
    assert!(top.is_leaf());
    let top = build_tree(top, &strings(&["a", "b"]), 0);
    let top = build_tree(top, &strings(&["a", "c"]), 0);
    let top = build_tree(top, &strings(&["a", "b"]), 0);
    let top = build_tree(top, &strings(&["d"]), 0);
    assert_eq!(top.children.len(), 2);
    assert_eq!(top.find_child("a"), Some(0));
    assert_eq!(top.find_child("d"), Some(1));
    assert_eq!(top.find_child("b"), None);
    let a = &top.children[0];
    assert_eq!(a.full_path, "a");
    assert_eq!(a.children.len(), 2);
    assert_eq!(a.children[0].name, "b");
    assert_eq!(a.children[0].full_path, "a/b");
    assert_eq!(a.children[1].full_path, "a/c");
    assert!(a.children[1].is_leaf());
    assert_eq!(a.full_path_to_key(), "a");
}

#[test]
fn the_package_file_is_left_out_of_the_tree() {
    let top = tree_of_files(&strings(&["FPM.ftd", "index.ftd", "FPM.ftd"]));
    assert_eq!(top.name, "root");
    assert_eq!(top.children.len(), 1);
    assert_eq!(top.children[0].name, "index.ftd");
}

#[test]
fn the_assets_document() {
    let mut p = Package::new("p");
    p.fonts = vec![font("Roboto", "f1"), font("Mono", "f2"), font("Roboto", "f3")];
    let ids = strings(&[
        "FPM.ftd", "index.ftd", "images/logo.png", "images/icons/a.svg", "images/icons/b_c.svg",
        "README", ".gitignore", "docs/guide.v1.md", "docs/LICENSE", "images/logo.png",
        "a/b/c/d.txt", ".hidden/x.ftd", "docs/sub/",
    ]);
    assert_eq!(p.get_assets_doc(&ids), ASSETS);
}

#[test]
fn the_assets_document_of_an_empty_package() {
    let p = Package::new("p");
    assert_eq!(p.get_assets_doc(&strings(&["FPM.ftd"])), NO_ASSETS);
    assert_eq!(p.get_assets_doc(&Vec::new()), "-- import: fpm\n\n\n\n\n\n\n-- record font:\n-- font fonts:\n");
}
