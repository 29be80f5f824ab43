//! The configuration of a run: the package at hand and where it lies.

use crate::error::{Error, ErrorView};
use crate::package::{flattened, font_html, Dependency, Package};
use crate::snapshot::{snapshot_id, snapshot_id_of, track_file};
use crate::text::{join2, str_equal, trim, trimmed};
use vstd::prelude::*;
use vstd::string::*;

verus! {

/// What is shared by the whole program: the package, and the directories
/// that it is worked on in.
#[derive(Debug)]
pub struct Config {
    pub package: Package,
    /// The package root: the directory that holds the package file.
    pub root: String,
    /// Where the packages that this one depends on are kept.
    pub packages_root: String,
    /// The directory from which the program was started.
    pub original_directory: String,
}

/// The path that `camino` makes of `path` adjoined to `base`. It is made of
/// the two texts alone, by the path syntax of the platform that the crate is
/// built for: no file system and no environment is asked.
pub uninterp spec fn joined_path(base: Seq<char>, path: Seq<char>) -> Seq<char>;

/// `camino::Utf8Path::join`: `path` adjoined to `base`. The result is what
/// `joined_path` names; nothing more is claimed of it.
#[verifier::external_body]
fn join_path(base: &str, path: &str) -> (r: String)
    ensures
        r@ == joined_path(base@, path@),
{
    camino::Utf8Path::new(base).join(path).into_string()
}

/// `camino::Utf8Path::parent`: the path without its last component, if it
/// has one to lose. Nothing is claimed of the result.
#[verifier::external_body]
fn parent_path(path: &str) -> (r: Option<String>) {
    camino::Utf8Path::new(path).parent().map(|p| p.as_str().to_owned())
}

/// What is reported of a package that is no translation.
pub open spec fn not_a_translation() -> Seq<char> {
    "This package is not a translation package"@
}

/// What is reported of an original whose package file was not found.
pub open spec fn no_fpm_path(name: Seq<char>) -> Seq<char> {
    "Unable to find `fpm_path` of the package "@ + name
}

/// What is reported of an original whose package file lies in no directory.
pub open spec fn no_parent(name: Seq<char>) -> Seq<char> {
    "Unable to find the directory of the package "@ + name
}

/// The dependencies among `deps` that are the first of their package name,
/// in the order of `deps`.
pub open spec fn unique_by_name(deps: Seq<Dependency>) -> Seq<Dependency>
    decreases deps.len(),
{
    if deps.len() == 0 {
        Seq::empty()
    } else {
        let before = unique_by_name(deps.drop_last());
        if named_before(deps.drop_last(), deps.last().package.name@) {
            before
        } else {
            before.push(deps.last())
        }
    }
}

/// Whether one of `deps` is a dependency on the package `name`.
pub open spec fn named_before(deps: Seq<Dependency>, name: Seq<char>) -> bool {
    exists|i: int| 0 <= i < deps.len() && (#[trigger] deps[i]).package.name@ == name
}

/// The font rules of a package followed by those of `deps`, each group on
/// lines of its own.
pub open spec fn font_rules(own: Seq<char>, deps: Seq<Dependency>) -> Seq<char>
    decreases deps.len(),
{
    if deps.len() == 0 {
        own
    } else {
        font_rules(own, deps.drop_last()) + "\n"@ + font_html(deps.last().package.fonts@)
    }
}

/// The style element with the font rules of a package and of all packages
/// it depends on, each package once; nothing where there is no rule.
pub open spec fn font_style(p: Package) -> Seq<char> {
    let rules = font_rules(font_html(p.fonts@), unique_by_name(flattened(p)));
    if trimmed(rules).len() == 0 {
        Seq::empty()
    } else {
        "<style>"@ + rules + "</style>"@
    }
}

impl Config {
    /// Where a build puts the pages it makes: `.build` below the package root.
    pub fn build_dir(&self) -> (r: String)
        ensures
            r@ == joined_path(self.root@, ".build"@),
    {
        join_path(self.root.as_str(), ".build")
    }

    /// Where the history of the package is kept: `.history` below the
    /// package root.
    pub fn history_dir(&self) -> (r: String)
        ensures
            r@ == joined_path(self.root@, ".history"@),
    {
        join_path(self.root.as_str(), ".history")
    }

    /// The manifest of the latest snapshots, `.latest.ftd` in the history of
    /// the package: one record for every file that is part of the package.
    pub fn latest_ftd(&self) -> (r: String)
        ensures
            r@ == joined_path(self.root@, ".history/.latest.ftd"@),
    {
        join_path(self.root.as_str(), ".history/.latest.ftd")
    }

    /// Where the track files are kept: `.tracks` below the package root.
    pub fn track_dir(&self) -> (r: String)
        ensures
            r@ == joined_path(self.root@, ".tracks"@),
    {
        join_path(self.root.as_str(), ".tracks")
    }

    /// Whether the package is a translation of another package.
    pub fn is_translation_package(&self) -> (b: bool)
        ensures
            b == (*self.package.translation_of is Some),
    {
        self.package.translation_of.is_some()
    }

    /// The directory of the original package, for a translation: the
    /// directory that holds the package file of the original.
    ///
    /// It fails where the package is no translation, where the package file
    /// of the original was not found, and where that file lies in no
    /// directory.
    pub fn original_path(&self) -> (r: Result<String, Error>)
        ensures
            match *self.package.translation_of {
                None => r is Err && r->Err_0@ == (ErrorView::UsageError {
                    message: not_a_translation(),
                }),
                Some(o) => match o.fpm_path {
                    None => r is Err && r->Err_0@ == (ErrorView::UsageError {
                        message: no_fpm_path(o.name@),
                    }),
                    Some(_) => r is Err ==> r->Err_0@ == (ErrorView::UsageError {
                        message: no_parent(o.name@),
                    }),
                },
            },
    {
        let o = match &*self.package.translation_of {
            Some(o) => o,
            None => {
                return Err(
                    Error::UsageError {
                        message: "This package is not a translation package".to_owned(),
                    },
                );
            },
        };
        match &o.fpm_path {
            Some(fpm_path) => after_parent(parent_path(fpm_path.as_str()), o.name.as_str()),
            None => Err(
                Error::UsageError {
                    message: join2("Unable to find `fpm_path` of the package ", o.name.as_str()),
                },
            ),
        }
    }

    /// The style element that declares the fonts of the package and of the
    /// packages it depends on, each package once; empty where no font is
    /// declared.
    pub fn get_font_style(&self) -> (r: String)
        ensures
            r@ == font_style(self.package),
    {
        let all = self.package.get_flattened_dependencies();
        let ghost deps = all@.map_values(|d: &Dependency| *d);
        let mut generated_style = self.package.get_font_html();
        let mut i: usize = 0;
        assert(deps.take(0) =~= Seq::<Dependency>::empty());
        while i < all.len()
            invariant
                i <= all.len(),
                deps == all@.map_values(|d: &Dependency| *d),
                generated_style@ == font_rules(
                    font_html(self.package.fonts@),
                    unique_by_name(deps.take(i as int)),
                ),
            decreases all.len() - i,
        {
            let dep = all[i];
            proof {
                assert(deps.take(i + 1).drop_last() =~= deps.take(i as int));
                assert(deps.take(i + 1).last() == *dep);
            }
            let mut seen = false;
            let mut j: usize = 0;
            while j < i && !seen
                invariant
                    j <= i,
                    i < all.len(),
                    deps == all@.map_values(|d: &Dependency| *d),
                    *dep == deps[i as int],
                    seen ==> named_before(deps.take(i as int), dep.package.name@),
                    !seen ==> forall|k: int|
                        0 <= k < j ==> (#[trigger] deps.take(i as int)[k]).package.name@
                            != dep.package.name@,
                decreases i - j + (if seen {
                    0int
                } else {
                    1int
                }),
            {
                if str_equal(all[j].package.name.as_str(), dep.package.name.as_str()) {
                    assert(deps.take(i as int)[j as int].package.name@ == dep.package.name@);
                    seen = true;
                } else {
                    j += 1;
                }
            }
            if !seen {
                let ghost before = unique_by_name(deps.take(i as int));
                assert(unique_by_name(deps.take(i + 1)).drop_last() =~= before);
                generated_style.append("\n");
                generated_style.append(dep.package.get_font_html().as_str());
            }
            i += 1;
        }
        assert(deps.take(all.len() as int) =~= deps);
        if trim(generated_style.as_str()).as_str().is_empty() {
            String::new()
        } else {
            let mut r = "<style>".to_owned();
            r.append(generated_style.as_str());
            r.append("</style>");
            r
        }
    }
}

/// The directory of the original package `name`, from what `parent` gave for
/// its package file.
pub fn after_parent(parent: Option<String>, name: &str) -> (r: Result<String, Error>)
    ensures
        match parent {
            Some(directory) => r is Ok && r->Ok_0@ == directory@,
            None => r is Err && r->Err_0@ == (ErrorView::UsageError { message: no_parent(name@) }),
        },
{
    match parent {
        Some(directory) => Ok(directory),
        None => Err(
            Error::UsageError {
                message: join2("Unable to find the directory of the package ", name),
            },
        ),
    }
}

/// Where the history below `base_path` holds the file `id` at the version
/// `timestamp`: in `.history`, under the name of the file with the version
/// before its extension.
pub fn history_path(id: &str, base_path: &str, timestamp: u128) -> (r: String)
    ensures
        r@ == joined_path(joined_path(base_path@, ".history"@), snapshot_id_of(id@, timestamp)),
{
    let history = join_path(base_path, ".history");
    join_path(history.as_str(), snapshot_id(id, timestamp).as_str())
}

/// Where the track file of the document `id` lies below `base_path`: in
/// `.tracks`, under the name of the document with `.track` after it.
pub fn track_path(id: &str, base_path: &str) -> (r: String)
    ensures
        r@ == joined_path(joined_path(base_path@, ".tracks"@), id@ + ".track"@),
{
    let tracks = join_path(base_path, ".tracks");
    join_path(tracks.as_str(), track_file(id).as_str())
}

} // verus!
