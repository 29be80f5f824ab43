//! Packages: their dependencies, their automatic imports and their fonts.

use crate::error::{Error, ErrorView};
use crate::file_map::FileMap;
use crate::text::{
    contains, contains_text, find_from, has_prefix, join2, replace_first, replace_once,
    starts_with, str_equal, trim, trimmed,
};
use vstd::prelude::*;
use vstd::string::*;

verus! {

/// A document that every document of a package imports without saying so.
#[derive(Debug)]
pub struct AutoImport {
    pub path: String,
    pub alias: Option<String>,
}

/// A font of a package, as the renderer prepared it: the rule that declares
/// it, and the family name under which pages use it.
#[derive(Debug)]
pub struct Font {
    pub name: String,
    pub html: String,
    pub html_name: String,
}

/// How the translation of a package stands, in numbers of documents.
#[derive(Debug)]
pub struct TranslationStatusSummary {
    pub never_marked: u32,
    pub missing: u32,
    pub out_dated: u32,
    pub upto_date: u32,
    pub last_modified_on: Option<String>,
}

/// A package that another package depends on.
#[derive(Debug)]
pub struct Dependency {
    pub package: Package,
    pub version: Option<String>,
    pub notes: Option<String>,
    pub alias: Option<String>,
    pub implements: Vec<String>,
}

/// A package.
#[derive(Debug)]
pub struct Package {
    pub name: String,
    pub translation_of: Box<Option<Package>>,
    pub translations: Vec<Package>,
    pub language: Option<String>,
    pub about: Option<String>,
    pub zip: Option<String>,
    pub translation_status_summary: Option<TranslationStatusSummary>,
    pub canonical_url: Option<String>,
    /// The direct dependencies of the package.
    pub dependencies: Vec<Dependency>,
    /// The automatic imports of the package.
    pub auto_import: Vec<AutoImport>,
    /// Where the package file of the package lies.
    pub fpm_path: Option<String>,
    /// The paths that a build and a sync pass over.
    pub ignored_paths: Vec<String>,
    pub fonts: Vec<Font>,
    pub import_auto_imports_from_original: bool,
}

/// What `fpm.package` holds in a package file, before it becomes a `Package`.
#[derive(Debug)]
pub struct PackageTemp {
    pub name: String,
    pub translation_of: Option<String>,
    pub translations: Vec<String>,
    pub language: Option<String>,
    pub about: Option<String>,
    pub zip: Option<String>,
    pub canonical_url: Option<String>,
    pub import_auto_imports_from_original: bool,
}

/// The interface that every package gets an implementation of.
pub const PACKAGE_INFO_INTERFACE: &'static str = "fifthtry.github.io/package-info";

/// `p` is a package as `Package::new` makes it, with the given name.
pub open spec fn is_new_package(p: Package, name: Seq<char>) -> bool {
    &&& p.name@ == name
    &&& *p.translation_of is None
    &&& p.translations@.len() == 0
    &&& p.language is None
    &&& p.about is None
    &&& p.zip is None
    &&& p.translation_status_summary is None
    &&& p.canonical_url is None
    &&& p.dependencies@.len() == 0
    &&& p.auto_import@.len() == 0
    &&& p.fpm_path is None
    &&& p.ignored_paths@.len() == 0
    &&& p.fonts@.len() == 0
    &&& p.import_auto_imports_from_original
}

/// Whether the list of interfaces names `interface`.
pub open spec fn names_interface(implements: Seq<String>, interface: Seq<char>) -> bool {
    exists|i: int| 0 <= i < implements.len() && (#[trigger] implements[i])@ == interface
}

/// The position of the first dependency that implements `interface`.
pub open spec fn first_implementing(deps: Seq<Dependency>, interface: Seq<char>) -> Option<int>
    decreases deps.len(),
{
    if deps.len() == 0 {
        None
    } else if names_interface(deps[0].implements@, interface) {
        Some(0)
    } else {
        match first_implementing(deps.drop_first(), interface) {
            Some(i) => Some(i + 1),
            None => None,
        }
    }
}

/// All dependencies of a package, direct or not: for each direct dependency
/// in turn, those of its package, then the dependency itself.
pub open spec fn flattened(p: Package) -> Seq<Dependency>
    decreases p, 1nat,
{
    flattened_upto(p, p.dependencies@.len() as int)
}

/// The dependencies that the first `n` direct dependencies of `p` bring.
pub open spec fn flattened_upto(p: Package, n: int) -> Seq<Dependency>
    decreases p, 0nat, n,
{
    if n <= 0 || n > p.dependencies@.len() {
        Seq::empty()
    } else {
        flattened_upto(p, n - 1) + flattened(p.dependencies@[n - 1].package) + seq![
            p.dependencies@[n - 1],
        ]
    }
}

/// The rules that declare the fonts of a package, one on each line.
pub open spec fn font_html(fonts: Seq<Font>) -> Seq<char>
    decreases fonts.len(),
{
    if fonts.len() == 0 {
        Seq::empty()
    } else {
        font_html(fonts.drop_last()) + fonts.last().html@ + "\n"@
    }
}

/// What `path` stands for, the aliases of the dependencies resolved: where
/// `path` is the alias of a dependency, or goes below it, the alias at its
/// start gives way to the name of the package. The last such dependency
/// decides.
pub open spec fn import_path(deps: Seq<Dependency>, path: Seq<char>) -> Seq<char>
    decreases deps.len(),
{
    if deps.len() == 0 {
        path
    } else {
        let d = deps.last();
        if is_under_alias(d.alias, path) {
            replace_first(path, d.alias->Some_0@, d.package.name@)
        } else {
            import_path(deps.drop_last(), path)
        }
    }
}

/// Whether `path` is the alias, or goes below it.
pub open spec fn is_under_alias(alias: Option<String>, path: Seq<char>) -> bool {
    alias is Some && (alias->Some_0@ == path || has_prefix(path, alias->Some_0@ + "/"@))
}

/// The line that imports `import`.
pub open spec fn import_line(deps: Seq<Dependency>, import: AutoImport, with_alias: bool) -> Seq<
    char,
> {
    "\n-- import: "@ + (if with_alias {
        import.path@
    } else {
        import_path(deps, import.path@)
    }) + (match import.alias {
        Some(a) => " as "@ + a@,
        None => Seq::empty(),
    })
}

/// The lines that import `imports`, each starting with a line break; `None`
/// where there is nothing to import.
pub open spec fn prefix_string(deps: Seq<Dependency>, imports: Seq<AutoImport>, with_alias: bool) -> Option<
    Seq<char>,
>
    decreases imports.len(),
{
    if imports.len() == 0 {
        None
    } else {
        let before = match prefix_string(deps, imports.drop_last(), with_alias) {
            Some(s) => s,
            None => Seq::empty(),
        };
        Some(before + import_line(deps, imports.last(), with_alias))
    }
}

/// The body of the document `id` with the automatic imports of the package
/// before it. Documents below `FPM/` are left as they are.
pub open spec fn prefixed_body(p: Package, body: Seq<char>, id: Seq<char>, with_alias: bool) -> Seq<
    char,
> {
    if contains_text(id, "FPM/"@) {
        body
    } else {
        match prefix_string(p.dependencies@, p.auto_import@, with_alias) {
            Some(s) => trimmed(s) + "\n\n"@ + body,
            None => body,
        }
    }
}

/// The name under which an automatic import is used.
pub open spec fn import_name(import: AutoImport) -> Seq<char> {
    match import.alias {
        Some(a) => a@,
        None => import.path@,
    }
}

/// The position of the first automatic import that is used under `name`.
pub open spec fn first_import_named(imports: Seq<AutoImport>, name: Seq<char>) -> Option<int>
    decreases imports.len(),
{
    if imports.len() == 0 {
        None
    } else if import_name(imports[0]) == name {
        Some(0)
    } else {
        match first_import_named(imports.drop_first(), name) {
            Some(i) => Some(i + 1),
            None => None,
        }
    }
}

/// The link that names the canonical address of the page at `path`.
pub open spec fn canonical_url_of(canonical_url: Option<String>, path: Seq<char>) -> Seq<char> {
    match canonical_url {
        Some(url) => if !has_prefix(path, "-/"@) {
            "\n<link rel=\"canonical\" href=\""@ + url@ + path + "\" />"@
        } else {
            Seq::empty()
        },
        None => Seq::empty(),
    }
}

/// The packages that the names and aliases of the first `n` dependencies
/// stand for. A later dependency takes a name from an earlier one, and the
/// name of a package takes it from an alias of the same dependency.
pub open spec fn aliases_upto(deps: Seq<Dependency>, n: int) -> Map<Seq<char>, Package>
    decreases n,
{
    if n <= 0 || n > deps.len() {
        Map::empty()
    } else {
        let d = deps[n - 1];
        let before = aliases_upto(deps, n - 1);
        let with_alias = match d.alias {
            Some(a) => before.insert(a@, d.package),
            None => before,
        };
        with_alias.insert(d.package.name@, d.package)
    }
}

fn implements_interface(dep: &Dependency, interface: &str) -> (r: bool)
    ensures
        r == names_interface(dep.implements@, interface@),
{
    let mut i: usize = 0;
    while i < dep.implements.len()
        invariant
            i <= dep.implements.len(),
            forall|j: int| 0 <= j < i ==> (#[trigger] dep.implements@[j])@ != interface@,
        decreases dep.implements.len() - i,
    {
        if str_equal(dep.implements[i].as_str(), interface) {
            return true;
        }
        i += 1;
    }
    false
}

impl Package {
    /// A package of the given name and nothing else; it takes the automatic
    /// imports of its original where it turns out to be a translation.
    pub fn new(name: &str) -> (p: Package)
        ensures
            is_new_package(p, name@),
    {
        Package {
            name: name.to_owned(),
            translation_of: Box::new(None),
            translations: Vec::new(),
            language: None,
            about: None,
            zip: None,
            translation_status_summary: None,
            canonical_url: None,
            dependencies: Vec::new(),
            auto_import: Vec::new(),
            fpm_path: None,
            ignored_paths: Vec::new(),
            fonts: Vec::new(),
            import_auto_imports_from_original: true,
        }
    }

    /// The first direct dependency that implements `interface`.
    pub fn get_dependency_for_interface(&self, interface: &str) -> (r: Option<&Dependency>)
        ensures
            match first_implementing(self.dependencies@, interface@) {
                Some(i) => r == Some(&self.dependencies@[i]),
                None => r is None,
            },
    {
        let ghost deps = self.dependencies@;
        let mut i: usize = 0;
        assert(deps.skip(0) =~= deps);
        while i < self.dependencies.len()
            invariant
                deps == self.dependencies@,
                i <= deps.len(),
                match first_implementing(deps.skip(i as int), interface@) {
                    Some(k) => first_implementing(deps, interface@) == Some(k + i),
                    None => first_implementing(deps, interface@) is None,
                },
            decreases deps.len() - i,
        {
            assert(deps.skip(i as int).drop_first() =~= deps.skip(i + 1));
            assert(deps.skip(i as int)[0] == deps[i as int]);
            if implements_interface(&self.dependencies[i], interface) {
                return Some(&self.dependencies[i]);
            }
            i += 1;
        }
        None
    }

    /// All dependencies of the package, direct or not: for each direct
    /// dependency in turn, those of its package, then the dependency itself.
    pub fn get_flattened_dependencies(&self) -> (r: Vec<&Dependency>)
        ensures
            r@.map_values(|d: &Dependency| *d) == flattened(*self),
        decreases self,
    {
        let mut out: Vec<&Dependency> = Vec::new();
        let mut i: usize = 0;
        assert(out@.map_values(|d: &Dependency| *d) =~= flattened_upto(*self, 0));
        while i < self.dependencies.len()
            invariant
                i <= self.dependencies.len(),
                out@.map_values(|d: &Dependency| *d) == flattened_upto(*self, i as int),
            decreases self.dependencies.len() - i,
        {
            let dep = &self.dependencies[i];
            let ghost before = out@;
            let mut inner = dep.package.get_flattened_dependencies();
            let ghost brought = inner@;
            out.append(&mut inner);
            out.push(dep);
            assert(out@.map_values(|d: &Dependency| *d) =~= before.map_values(
                |d: &Dependency| *d,
            ) + brought.map_values(|d: &Dependency| *d) + seq![*dep]);
            i += 1;
        }
        out
    }

    /// The rules that declare the fonts of the package, one on each line.
    pub fn get_font_html(&self) -> (r: String)
        ensures
            r@ == font_html(self.fonts@),
    {
        let mut r = String::new();
        let mut i: usize = 0;
        while i < self.fonts.len()
            invariant
                i <= self.fonts.len(),
                r@ == font_html(self.fonts@.take(i as int)),
            decreases self.fonts.len() - i,
        {
            assert(self.fonts@.take(i + 1).drop_last() =~= self.fonts@.take(i as int));
            r.append(self.fonts[i].html.as_str());
            r.append("\n");
            i += 1;
        }
        assert(self.fonts@.take(self.fonts.len() as int) =~= self.fonts@);
        r
    }

    /// The path that an automatic import stands for, the aliases of the
    /// dependencies resolved.
    fn resolve_import_path(&self, path: &str) -> (r: String)
        ensures
            r@ == import_path(self.dependencies@, path@),
    {
        let mut r = path.to_owned();
        let mut i: usize = 0;
        while i < self.dependencies.len()
            invariant
                i <= self.dependencies.len(),
                r@ == import_path(self.dependencies@.take(i as int), path@),
            decreases self.dependencies.len() - i,
        {
            let dependency = &self.dependencies[i];
            proof {
                assert(self.dependencies@.take(i + 1).drop_last() =~= self.dependencies@.take(
                    i as int,
                ));
                assert(self.dependencies@.take(i + 1).last() == *dependency);
            }
            match &dependency.alias {
                Some(alias) => {
                    if str_equal(alias.as_str(), path) || starts_with(
                        path,
                        join2(alias.as_str(), "/").as_str(),
                    ) {
                        r = replace_once(path, alias.as_str(), dependency.package.name.as_str());
                    }
                },
                None => {},
            }
            i += 1;
        }
        assert(self.dependencies@.take(self.dependencies.len() as int) =~= self.dependencies@);
        r
    }

    /// The lines that import the automatic imports of the package, each
    /// starting with a line break; `None` where the package has none. With
    /// `with_alias` the imports are named as the package names them, else
    /// the aliases of the dependencies give way to the names of their packages.
    pub fn generate_prefix_string(&self, with_alias: bool) -> (r: Option<String>)
        ensures
            r.deep_view() == prefix_string(self.dependencies@, self.auto_import@, with_alias),
    {
        let mut pre: Option<String> = None;
        let mut i: usize = 0;
        while i < self.auto_import.len()
            invariant
                i <= self.auto_import.len(),
                pre.deep_view() == prefix_string(
                    self.dependencies@,
                    self.auto_import@.take(i as int),
                    with_alias,
                ),
            decreases self.auto_import.len() - i,
        {
            let ai = &self.auto_import[i];
            proof {
                assert(self.auto_import@.take(i + 1).drop_last() =~= self.auto_import@.take(
                    i as int,
                ));
                assert(self.auto_import@.take(i + 1).last() == *ai);
            }
            let import_doc_path = if with_alias {
                ai.path.clone()
            } else {
                self.resolve_import_path(ai.path.as_str())
            };
            let mut line = match pre {
                Some(s) => s,
                None => String::new(),
            };
            line.append("\n-- import: ");
            line.append(import_doc_path.as_str());
            match &ai.alias {
                Some(a) => {
                    line.append(" as ");
                    line.append(a.as_str());
                },
                None => {},
            }
            proof {
                let before = match prefix_string(
                    self.dependencies@,
                    self.auto_import@.take(i as int),
                    with_alias,
                ) {
                    Some(s) => s,
                    None => Seq::empty(),
                };
                assert(line@ =~= before + import_line(self.dependencies@, *ai, with_alias));
            }
            pre = Some(line);
            i += 1;
        }
        assert(self.auto_import@.take(self.auto_import.len() as int) =~= self.auto_import@);
        pre
    }

    /// The body of the document `id` with the automatic imports of the
    /// package before it. Documents below `FPM/` are left as they are.
    pub fn get_prefixed_body(&self, body: &str, id: &str, with_alias: bool) -> (r: String)
        ensures
            r@ == prefixed_body(*self, body@, id@, with_alias),
    {
        if contains(id, "FPM/") {
            return body.to_owned();
        }
        match self.generate_prefix_string(with_alias) {
            Some(s) => {
                let mut r = trim(s.as_str());
                r.append("\n\n");
                r.append(body);
                r
            },
            None => body.to_owned(),
        }
    }

    /// The path of the first automatic import that is used under `name`: its
    /// alias where it has one, else its path.
    pub fn eval_auto_import(&self, name: &str) -> (r: Option<&str>)
        ensures
            match first_import_named(self.auto_import@, name@) {
                Some(i) => r is Some && r->Some_0@ == self.auto_import@[i].path@,
                None => r is None,
            },
    {
        let ghost imports = self.auto_import@;
        let mut i: usize = 0;
        assert(imports.skip(0) =~= imports);
        while i < self.auto_import.len()
            invariant
                imports == self.auto_import@,
                i <= imports.len(),
                match first_import_named(imports.skip(i as int), name@) {
                    Some(k) => first_import_named(imports, name@) == Some(k + i),
                    None => first_import_named(imports, name@) is None,
                },
            decreases imports.len() - i,
        {
            assert(imports.skip(i as int).drop_first() =~= imports.skip(i + 1));
            assert(imports.skip(i as int)[0] == imports[i as int]);
            let x = &self.auto_import[i];
            let matching_string = match &x.alias {
                Some(a) => a.as_str(),
                None => x.path.as_str(),
            };
            if str_equal(matching_string, name) {
                return Some(x.path.as_str());
            }
            i += 1;
        }
        None
    }

    /// The link that names the canonical address of the page at `path`, for
    /// a package that has a canonical address; nothing for the pages below
    /// `-/`, which the canonical site does not have.
    pub fn generate_canonical_url(&self, path: &str) -> (r: String)
        ensures
            r@ == canonical_url_of(self.canonical_url, path@),
    {
        match &self.canonical_url {
            Some(url) => {
                if !starts_with(path, "-/") {
                    let mut r = "\n<link rel=\"canonical\" href=\"".to_owned();
                    r.append(url.as_str());
                    r.append(path);
                    r.append("\" />");
                    r
                } else {
                    String::new()
                }
            },
            None => String::new(),
        }
    }

    /// The packages of the direct dependencies, each under its name and,
    /// where it has one, under its alias.
    pub fn aliases(&self) -> (r: Result<FileMap<&Package>, Error>)
        ensures
            r is Ok,
            r->Ok_0.wf(),
            r->Ok_0@.dom() == aliases_upto(self.dependencies@, self.dependencies@.len() as int).dom(),
            forall|k: Seq<char>|
                r->Ok_0@.contains_key(k) ==> *r->Ok_0@[k] == aliases_upto(
                    self.dependencies@,
                    self.dependencies@.len() as int,
                )[k],
    {
        let mut resp: FileMap<&Package> = FileMap::new();
        let ghost deps = self.dependencies@;
        let mut i: usize = 0;
        assert(resp@.dom() =~= aliases_upto(deps, 0).dom());
        while i < self.dependencies.len()
            invariant
                deps == self.dependencies@,
                i <= deps.len(),
                resp.wf(),
                resp@.dom() == aliases_upto(deps, i as int).dom(),
                forall|k: Seq<char>|
                    resp@.contains_key(k) ==> *resp@[k] == aliases_upto(deps, i as int)[k],
            decreases deps.len() - i,
        {
            let d = &self.dependencies[i];
            match &d.alias {
                Some(a) => {
                    resp.insert(a.clone(), &d.package);
                },
                None => {},
            }
            resp.insert(d.package.name.clone(), &d.package);
            assert(resp@.dom() =~= aliases_upto(deps, i + 1).dom());
            i += 1;
        }
        Ok(resp)
    }
}

impl PackageTemp {
    /// The package that the record describes: its original and its
    /// translations are new packages of the names given, and it has no
    /// dependencies, imports, paths or fonts yet.
    pub fn into_package(self) -> (p: Package)
        ensures
            p.name@ == self.name@,
            match self.translation_of {
                Some(name) => *p.translation_of is Some && is_new_package(
                    p.translation_of->Some_0,
                    name@,
                ),
                None => *p.translation_of is None,
            },
            p.translations@.len() == self.translations@.len(),
            forall|i: int|
                0 <= i < self.translations@.len() ==> is_new_package(
                    #[trigger] p.translations@[i],
                    self.translations@[i]@,
                ),
            p.language == self.language,
            p.about == self.about,
            p.zip == self.zip,
            p.translation_status_summary is None,
            p.canonical_url == self.canonical_url,
            p.dependencies@.len() == 0,
            p.auto_import@.len() == 0,
            p.fpm_path is None,
            p.ignored_paths@.len() == 0,
            p.fonts@.len() == 0,
            p.import_auto_imports_from_original == self.import_auto_imports_from_original,
    {
        let translation_of = match &self.translation_of {
            Some(v) => Some(Package::new(v.as_str())),
            None => None,
        };
        let mut translations: Vec<Package> = Vec::new();
        let mut i: usize = 0;
        while i < self.translations.len()
            invariant
                i <= self.translations.len(),
                translations@.len() == i,
                forall|j: int|
                    0 <= j < i ==> is_new_package(
                        #[trigger] translations@[j],
                        self.translations@[j]@,
                    ),
            decreases self.translations.len() - i,
        {
            translations.push(Package::new(self.translations[i].as_str()));
            i += 1;
        }
        Package {
            name: self.name,
            translation_of: Box::new(translation_of),
            translations,
            language: self.language,
            about: self.about,
            zip: self.zip,
            translation_status_summary: None,
            canonical_url: self.canonical_url,
            dependencies: Vec::new(),
            auto_import: Vec::new(),
            fpm_path: None,
            ignored_paths: Vec::new(),
            fonts: Vec::new(),
            import_auto_imports_from_original: self.import_auto_imports_from_original,
        }
    }
}

/// The path and the alias that a line of `fpm.auto-import` names: what
/// stands before the first ` as ` and what stands after it, or the whole
/// line as the path where there is no ` as `; white space around the line
/// does not count.
pub open spec fn auto_import_of(line: Seq<char>) -> (Seq<char>, Option<Seq<char>>) {
    let l = trimmed(line);
    match find_from(l, " as "@, 0) {
        Some(i) => (l.take(i), Some(l.skip(i + 4))),
        None => (l, None),
    }
}

impl AutoImport {
    /// The automatic import that a line of `fpm.auto-import` names.
    pub fn from_string(line: &str) -> (r: AutoImport)
        ensures
            (r.path@, r.alias.deep_view()) == auto_import_of(line@),
    {
        let line = trim(line);
        let chars = crate::text::to_chars(line.as_str());
        proof {
            reveal_strlit(" as ");
        }
        let pat = crate::text::to_chars(" as ");
        match crate::text::find_chars(&chars, &pat, 0) {
            Some(i) => AutoImport {
                path: crate::text::from_chars(&chars, 0, i),
                alias: Some(crate::text::from_chars(&chars, i + 4, chars.len())),
            },
            None => AutoImport { path: line, alias: None },
        }
    }

    /// A copy of the import.
    pub fn copy(&self) -> (r: AutoImport)
        ensures
            r.path@ == self.path@,
            r.alias.deep_view() == self.alias.deep_view(),
    {
        AutoImport {
            path: self.path.clone(),
            alias: match &self.alias {
                Some(a) => Some(a.clone()),
                None => None,
            },
        }
    }
}

/// Whether one of `deps` implements `interface`.
pub open spec fn some_implements(deps: Seq<Dependency>, interface: Seq<char>) -> bool {
    exists|i: int| 0 <= i < deps.len() && names_interface((#[trigger] deps[i]).implements@, interface)
}

/// `d` is the dependency on the package that implements the package-info
/// interface by default.
pub open spec fn is_package_info_dependency(d: Dependency) -> bool {
    &&& is_new_package(d.package, PACKAGE_INFO_INTERFACE@)
    &&& d.version is None
    &&& d.notes is None
    &&& d.alias is None
    &&& d.implements@.len() == 0
}

/// The dependencies of the package `name`, given those that its package file
/// names: unless the package is the package-info interface itself, or one of
/// the dependencies implements that interface, a dependency on it is added
/// at the end.
pub fn with_package_info(name: &str, deps: Vec<Dependency>) -> (r: Vec<Dependency>)
    ensures
        if name@ != PACKAGE_INFO_INTERFACE@ && !some_implements(deps@, PACKAGE_INFO_INTERFACE@) {
            r@.len() == deps@.len() + 1 && r@.drop_last() == deps@ && is_package_info_dependency(
                r@.last(),
            )
        } else {
            r@ == deps@
        },
{
    let mut list = deps;
    if str_equal(name, PACKAGE_INFO_INTERFACE) {
        return list;
    }
    let mut i: usize = 0;
    while i < list.len()
        invariant
            list@ == deps@,
            i <= list.len(),
            forall|j: int|
                0 <= j < i ==> !names_interface(
                    (#[trigger] deps@[j]).implements@,
                    PACKAGE_INFO_INTERFACE@,
                ),
        decreases list.len() - i,
    {
        if implements_interface(&list[i], PACKAGE_INFO_INTERFACE) {
            assert(names_interface(deps@[i as int].implements@, PACKAGE_INFO_INTERFACE@));
            return list;
        }
        i += 1;
    }
    list.push(
        Dependency {
            package: Package::new(PACKAGE_INFO_INTERFACE),
            version: None,
            notes: None,
            alias: None,
            implements: Vec::new(),
        },
    );
    assert(list@.drop_last() =~= deps@);
    list
}

/// What is reported of a translation that has automatic imports of its own
/// and is to take those of its original.
pub open spec fn cannot_inherit(name: Seq<char>) -> Seq<char> {
    "Can't use `inherit-auto-imports-from-original` along with auto-imports defined for the translation package. Either set `inherit-auto-imports-from-original` to false or remove `fpm.auto-import` from the "@
        + name + "/FPM.ftd file"@
}

/// Whether the package is to take the automatic imports of its original.
pub open spec fn inherits_auto_imports(p: Package) -> bool {
    p.import_auto_imports_from_original && *p.translation_of is Some
}

/// Gives a translation the automatic imports of its original, where it is
/// to take them. It fails, and changes nothing, where the translation has
/// automatic imports of its own. A package that is no translation, or is not
/// to take the imports, stays as it is.
pub fn inherit_auto_imports(package: &mut Package) -> (r: Result<(), Error>)
    ensures
        final(package).name == old(package).name,
        final(package).translation_of == old(package).translation_of,
        final(package).dependencies == old(package).dependencies,
        final(package).fonts == old(package).fonts,
        if !inherits_auto_imports(*old(package)) {
            r is Ok && *final(package) == *old(package)
        } else if old(package).auto_import@.len() > 0 {
            r is Err && r->Err_0@ == (ErrorView::PackageError {
                message: cannot_inherit(old(package).name@),
            }) && *final(package) == *old(package)
        } else {
            let original = old(package).translation_of->Some_0;
            &&& r is Ok
            &&& final(package).auto_import@.len() == original.auto_import@.len()
            &&& forall|i: int|
                0 <= i < original.auto_import@.len() ==> (
                #[trigger] final(package).auto_import@[i]).path@ == original.auto_import@[i].path@
                    && final(package).auto_import@[i].alias.deep_view()
                    == original.auto_import@[i].alias.deep_view()
        },
{
    if !package.import_auto_imports_from_original {
        return Ok(());
    }
    let imports = match &*package.translation_of {
        Some(original) => {
            if package.auto_import.len() > 0 {
                let mut message =
                    "Can't use `inherit-auto-imports-from-original` along with auto-imports defined for the translation package. Either set `inherit-auto-imports-from-original` to false or remove `fpm.auto-import` from the ".to_owned();
                message.append(package.name.as_str());
                message.append("/FPM.ftd file");
                return Err(Error::PackageError { message });
            }
            let mut imports: Vec<AutoImport> = Vec::new();
            let mut i: usize = 0;
            while i < original.auto_import.len()
                invariant
                    i <= original.auto_import.len(),
                    imports@.len() == i,
                    forall|j: int|
                        0 <= j < i ==> (#[trigger] imports@[j]).path@
                            == original.auto_import@[j].path@ && imports@[j].alias.deep_view()
                            == original.auto_import@[j].alias.deep_view(),
                decreases original.auto_import.len() - i,
            {
                imports.push(original.auto_import[i].copy());
                i += 1;
            }
            imports
        },
        None => {
            return Ok(());
        },
    };
    package.auto_import = imports;
    Ok(())
}

} // verus!
