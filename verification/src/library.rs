//! The document that every document of a package can import as `fpm`: what
//! is known of the package, of the document at hand and of its translations,
//! written out as a document of its own.

use crate::config::Config;
use crate::file_map::FileMap;
use crate::package::{Package, TranslationStatusSummary};
use crate::text::{
    decimal, decimal_of, ends_with, has_suffix, replace, replace_all, str_equal, trim, trimmed,
};
use crate::translation::{TranslationData, TranslationStatus};
use vstd::prelude::*;
use vstd::string::*;

verus! {

/// The name of a language in English, by its two-letter code, for the codes
/// that `realm_lang` knows.
pub uninterp spec fn language_name(code: Seq<char>) -> Option<Seq<char>>;

/// `realm_lang::Language::from_2_letter_code`, then `human` on the language
/// found: the name of the language with the given code, or `None` for a code
/// that names no language.
#[verifier::external_body]
fn human_name(code: &str) -> (r: Option<String>)
    ensures
        r.deep_view() == language_name(code@),
{
    realm_lang::Language::from_2_letter_code(code).ok().map(|language| language.human())
}

/// What a language is called on a page: its name, or its code where the
/// code names no language.
pub open spec fn human_language(code: Seq<char>) -> Seq<char> {
    match language_name(code) {
        Some(name) => name,
        None => code,
    }
}

/// What a language is called on a page: its name, or its code where the
/// code names no language.
pub fn language_to_human(language: &str) -> (r: String)
    ensures
        r@ == human_language(language@),
{
    match human_name(language) {
        Some(name) => name,
        None => language.to_owned(),
    }
}

/// The code of the language in which a package speaks: its own where that
/// names a language, else English.
pub open spec fn spoken_language(code: Option<Seq<char>>) -> Seq<char> {
    match code {
        Some(c) => if language_name(c) is Some {
            c
        } else {
            "en"@
        },
        None => "en"@,
    }
}

/// The languages in which the texts of the user interface are looked up:
/// the language of the package, and the language of its original, which is
/// that of the package itself where the package is no translation or its
/// original names no language. Each is given by its code, English standing
/// in for a code that names no language.
pub fn ui_languages(package: &Package) -> (r: (String, String))
    ensures
        r.0@ == spoken_language(package.language.deep_view()),
        r.1@ == match *package.translation_of {
            Some(original) => match original.language {
                Some(code) => spoken_language(Some(code@)),
                None => r.0@,
            },
            None => r.0@,
        },
{
    let lang = known_or_english(&package.language);
    let primary = match &*package.translation_of {
        Some(original) => match &original.language {
            Some(_) => known_or_english(&original.language),
            None => lang.clone(),
        },
        None => lang.clone(),
    };
    (lang, primary)
}

fn known_or_english(code: &Option<String>) -> (r: String)
    ensures
        r@ == spoken_language(code.deep_view()),
{
    match code {
        Some(c) => {
            if human_name(c.as_str()).is_some() {
                c.clone()
            } else {
                "en".to_owned()
            }
        },
        None => "en".to_owned(),
    }
}

/// The number of texts that the user interface takes.
pub const UI_TEXTS: usize = 24;

/// The key under which the `i`-th text of the user interface is looked up
/// and written out.
pub open spec fn ui_key_of(i: int) -> Seq<char> {
    if i == 0 {
        "current-language"@
    } else if i == 1 {
        "document"@
    } else if i == 2 {
        "language-detail-page-body"@
    } else if i == 3 {
        "language-detail-page"@
    } else if i == 4 {
        "language"@
    } else if i == 5 {
        "last-modified-on"@
    } else if i == 6 {
        "missing"@
    } else if i == 7 {
        "never-marked"@
    } else if i == 8 {
        "never-synced"@
    } else if i == 9 {
        "other-available-languages"@
    } else if i == 10 {
        "out-dated-body"@
    } else if i == 11 {
        "out-dated-heading"@
    } else if i == 12 {
        "out-dated"@
    } else if i == 13 {
        "show-latest-version"@
    } else if i == 14 {
        "show-outdated-version"@
    } else if i == 15 {
        "show-translation-status"@
    } else if i == 16 {
        "show-unapproved-version"@
    } else if i == 17 {
        "status"@
    } else if i == 18 {
        "total-number-of-documents"@
    } else if i == 19 {
        "translation-not-available"@
    } else if i == 20 {
        "unapproved-heading"@
    } else if i == 21 {
        "upto-date"@
    } else if i == 22 {
        "welcome-fpm-page-subtitle"@
    } else {
        "welcome-fpm-page"@
    }
}

/// The key under which the `i`-th text of the user interface is looked up;
/// the last key for every `i` beyond it.
pub fn ui_key(i: usize) -> (r: &'static str)
    ensures
        r@ == ui_key_of(i as int),
{
    if i == 0 {
        "current-language"
    } else if i == 1 {
        "document"
    } else if i == 2 {
        "language-detail-page-body"
    } else if i == 3 {
        "language-detail-page"
    } else if i == 4 {
        "language"
    } else if i == 5 {
        "last-modified-on"
    } else if i == 6 {
        "missing"
    } else if i == 7 {
        "never-marked"
    } else if i == 8 {
        "never-synced"
    } else if i == 9 {
        "other-available-languages"
    } else if i == 10 {
        "out-dated-body"
    } else if i == 11 {
        "out-dated-heading"
    } else if i == 12 {
        "out-dated"
    } else if i == 13 {
        "show-latest-version"
    } else if i == 14 {
        "show-outdated-version"
    } else if i == 15 {
        "show-translation-status"
    } else if i == 16 {
        "show-unapproved-version"
    } else if i == 17 {
        "status"
    } else if i == 18 {
        "total-number-of-documents"
    } else if i == 19 {
        "translation-not-available"
    } else if i == 20 {
        "unapproved-heading"
    } else if i == 21 {
        "upto-date"
    } else if i == 22 {
        "welcome-fpm-page-subtitle"
    } else {
        "welcome-fpm-page"
    }
}

/// The `i`-th text of the user interface; empty where `texts` has none.
pub open spec fn ui_text(texts: Seq<String>, i: int) -> Seq<char> {
    if 0 <= i < texts.len() {
        texts[i]@
    } else {
        Seq::empty()
    }
}

/// The first `n` lines of the record of the user interface: each key with
/// its text.
pub open spec fn ui_lines(texts: Seq<String>, n: int) -> Seq<char>
    decreases n,
{
    if n <= 0 {
        "-- ui-data ui:\n"@
    } else {
        ui_lines(texts, n - 1) + ui_key_of(n - 1) + ": "@ + ui_text(texts, n - 1) + "\n"@
    }
}

/// The record of the texts of the user interface. `texts` holds the text
/// for each key, in the order of `ui_key`; texts beyond the last key are
/// passed over, and a missing text is written as empty.
pub fn construct_fpm_ui(texts: &Vec<String>) -> (r: String)
    ensures
        r@ == ui_lines(texts@, UI_TEXTS as int),
{
    let mut r = "-- ui-data ui:\n".to_owned();
    let mut i: usize = 0;
    while i < UI_TEXTS
        invariant
            i <= UI_TEXTS,
            r@ == ui_lines(texts@, i as int),
        decreases UI_TEXTS - i,
    {
        r.append(ui_key(i));
        r.append(": ");
        if i < texts.len() {
            r.append(texts[i].as_str());
        } else {
            assert(r@ + ui_text(texts@, i as int) =~= r@);
        }
        r.append("\n");
        i += 1;
    }
    r
}

/// The document with the mark of a translation.
pub open spec fn marked_as_translation(base: Seq<char>) -> Seq<char> {
    base
        + "\n\n-- is-translation-package: true\n"@
}

/// The document with the mark of a package that has translations.
pub open spec fn marked_as_translated(base: Seq<char>) -> Seq<char> {
    base
        + "\n\n-- has-translations: true\n"@
}

/// The document with the address of the archive of the package.
pub open spec fn with_package_zip(base: Seq<char>, value: Seq<char>) -> Seq<char> {
    base
        + "\n\n-- package-zip: "@
        + value
        + "\n"@
}

/// The document with the diff of the original.
pub open spec fn with_diff(base: Seq<char>, value: Seq<char>) -> Seq<char> {
    base
        + "\n\n-- diff: \n\n"@
        + value
        + "    \n"@
}

/// The document with the status of the translation.
pub open spec fn with_translation_status(base: Seq<char>, value: Seq<char>) -> Seq<char> {
    base
        + "\n\n-- translation-status: \n\n"@
        + value
        + "    \n"@
}

/// The document with the address of the status page of the package.
pub open spec fn with_translation_status_url(base: Seq<char>, value: Seq<char>) -> Seq<char> {
    base
        + "\n\n-- translation-status-url: //"@
        + value
        + "/FPM/translation-status    \n"@
}

/// The document with the number of documents of the package.
pub open spec fn with_number_of_documents(base: Seq<char>, value: Seq<char>) -> Seq<char> {
    base
        + "\n\n-- number-of-documents: "@
        + value
        + "    \n"@
}

/// The document with the time of the last change to the package.
pub open spec fn with_last_modified_on(base: Seq<char>, value: Seq<char>) -> Seq<char> {
    base
        + "\n\n-- last-modified-on: "@
        + value
        + "    \n"@
}

/// The document with the time of the last change to the document at hand.
pub open spec fn with_current_document_last_modified_on(base: Seq<char>, value: Seq<char>) -> Seq<char> {
    base
        + "\n\n-- current-document-last-modified-on: "@
        + value
        + "    \n"@
}

/// The document with the language of the package.
pub open spec fn with_language(base: Seq<char>, value: Seq<char>) -> Seq<char> {
    base
        + "\n\n-- language: "@
        + value
        + "     \n"@
}

/// The document with the version that the translation was last marked on.
pub open spec fn with_last_marked_on(base: Seq<char>, time: u128, rfc3339: Seq<char>) -> Seq<char> {
    base
        + "\n\n-- last-marked-on: "@
        + decimal_of(time as nat)
        + "\n-- last-marked-on-rfc3339: "@
        + rfc3339
        + "    \n"@
}

/// The document with the latest version of the original.
pub open spec fn with_original_latest(base: Seq<char>, time: u128, rfc3339: Seq<char>) -> Seq<char> {
    base
        + "\n\n-- original-latest: "@
        + decimal_of(time as nat)
        + "\n-- original-latest-rfc3339: "@
        + rfc3339
        + "    \n"@
}

/// The document with the latest version of the translation.
pub open spec fn with_translated_latest(base: Seq<char>, time: u128, rfc3339: Seq<char>) -> Seq<char> {
    base
        + "\n        \n-- translated-latest: "@
        + decimal_of(time as nat)
        + "\n-- translated-latest-rfc3339: "@
        + rfc3339
        + "    \n"@
}

/// The document with the name and the content of a markdown file.
pub open spec fn with_markdown(base: Seq<char>, filename: Seq<char>, content: Seq<char>) -> Seq<char> {
    base
        + "\n\n-- string markdown-filename: "@
        + filename
        + "                        \n-- string markdown-content:\n\n"@
        + content
        + "\n"@
}

/// The start of the document: the base, the texts of the user interface, and what names the document and the package.
pub open spec fn header(base: Seq<char>, fpm_ui: Seq<char>, document_id: Seq<char>, name: Seq<char>) -> Seq<char> {
    base
        + "\n"@
        + fpm_ui
        + "\n-- string document-id: "@
        + document_id
        + "\n-- string translation-status-url: "@
        + "//"@ + name
        + "\n-- string title: "@
        + name
        + "\n-- string package-name: "@
        + name
        + "\n-- optional string package-zip:\n-- string home-url: "@
        + "//"@ + name
        + "\n"@
}

/// The list of statuses with one more file.
pub open spec fn with_status_line(base: Seq<char>, file: Seq<char>, status: Seq<char>) -> Seq<char> {
    base
        + "\n\n-- status:\nfile: "@
        + file
        + "\nstatus: "@
        + status
        + "                                    \n"@
}

/// The list of files of one status with one more file.
pub open spec fn with_missing_file(base: Seq<char>, file: Seq<char>) -> Seq<char> {
    base
        + "\n\n-- missing-files: "@
        + file
        + "                                            \n"@
}

/// The list of files of one status with one more file.
pub open spec fn with_never_marked_file(base: Seq<char>, file: Seq<char>) -> Seq<char> {
    base
        + "\n\n-- never-marked-files: "@
        + file
        + "\n\n"@
}

/// The list of files of one status with one more file.
pub open spec fn with_outdated_file(base: Seq<char>, file: Seq<char>) -> Seq<char> {
    base
        + "\n\n-- outdated-files: "@
        + file
        + "\n\n"@
}

/// The list of files of one status with one more file.
pub open spec fn with_upto_date_file(base: Seq<char>, file: Seq<char>) -> Seq<char> {
    base
        + "\n\n-- upto-date-files: "@
        + file
        + "\n\n"@
}

/// The document with the status of every file and the files of each status.
pub open spec fn with_status_lists(base: Seq<char>, all: Seq<char>, missing: Seq<char>, never_marked: Seq<char>, outdated: Seq<char>, upto_date: Seq<char>) -> Seq<char> {
    base
        + "\n\n-- record status-data:\nstring file:\nstring status:\n\n-- status-data list status:\n\n"@
        + all
        + "\n\n-- string list missing-files:\n\n"@
        + missing
        + "\n\n-- string list never-marked-files:\n\n"@
        + never_marked
        + "\n\n-- string list outdated-files:\n\n"@
        + outdated
        + "\n\n-- string list upto-date-files:\n\n"@
        + upto_date
        + "\n\n\n"@
}

/// What is written of the translation of a package into one language.
pub open spec fn summary_of(language: Seq<char>, name: Seq<char>, summary: TranslationStatusSummary) -> Seq<char> {
    let counts = "-- status:\nlanguage: "@
        + language
        + "\nurl: "@
        + "https://"@ + name + "/FPM/translation-status/"@
        + "\nnever-marked: "@
        + decimal_of(summary.never_marked as nat)
        + "\nmissing: "@
        + decimal_of(summary.missing as nat)
        + "\nout-dated: "@
        + decimal_of(summary.out_dated as nat)
        + "\nupto-date: "@
        + decimal_of(summary.upto_date as nat)
        + "\n"@;
    match summary.last_modified_on {
        Some(time) => counts + "last-modified-on: "@ + time@ + "\n"@,
        None => counts,
    }
}

/// The list of summaries with one more.
pub open spec fn with_summary(base: Seq<char>, status: Seq<char>) -> Seq<char> {
    base
        + "\n\n"@
        + status
        + "\n\n"@
}

/// The document with the summaries of the translations.
pub open spec fn with_summaries(base: Seq<char>, list: Seq<char>) -> Seq<char> {
    base
        + "\n\n-- record status-data:\nstring language:\nstring url:\ninteger never-marked:\ninteger missing:\ninteger out-dated:\ninteger upto-date:\noptional string last-modified-on:\n\n-- status-data list status:\n\n"@
        + list
        + "\n\n"@
}

/// The list of languages with one more.
pub open spec fn with_language_entry(base: Seq<char>, language: Seq<char>, domain: Seq<char>) -> Seq<char> {
    base
        + "\n- "@
        + language
        + "\n  url: "@
        + domain
        + "\n"@
}

/// The document with the table of the other languages.
pub open spec fn with_language_toc(base: Seq<char>, languages: Seq<char>) -> Seq<char> {
    base
        + "\n\n-- language-toc:\n$processor$: toc\n\n"@
        + languages
        + "\n\n"@
}

fn add_marked_as_translation(out: &mut String)
    ensures
        final(out)@ == marked_as_translation(old(out)@),
{
    out.append("\n\n-- is-translation-package: true\n");
}

fn add_marked_as_translated(out: &mut String)
    ensures
        final(out)@ == marked_as_translated(old(out)@),
{
    out.append("\n\n-- has-translations: true\n");
}

fn add_with_package_zip(out: &mut String, value: &str)
    ensures
        final(out)@ == with_package_zip(old(out)@, value@),
{
    out.append("\n\n-- package-zip: ");
    out.append(value);
    out.append("\n");
}

fn add_with_diff(out: &mut String, value: &str)
    ensures
        final(out)@ == with_diff(old(out)@, value@),
{
    out.append("\n\n-- diff: \n\n");
    out.append(value);
    out.append("    \n");
}

fn add_with_translation_status(out: &mut String, value: &str)
    ensures
        final(out)@ == with_translation_status(old(out)@, value@),
{
    out.append("\n\n-- translation-status: \n\n");
    out.append(value);
    out.append("    \n");
}

fn add_with_translation_status_url(out: &mut String, value: &str)
    ensures
        final(out)@ == with_translation_status_url(old(out)@, value@),
{
    out.append("\n\n-- translation-status-url: //");
    out.append(value);
    out.append("/FPM/translation-status    \n");
}

fn add_with_number_of_documents(out: &mut String, value: &str)
    ensures
        final(out)@ == with_number_of_documents(old(out)@, value@),
{
    out.append("\n\n-- number-of-documents: ");
    out.append(value);
    out.append("    \n");
}

fn add_with_last_modified_on(out: &mut String, value: &str)
    ensures
        final(out)@ == with_last_modified_on(old(out)@, value@),
{
    out.append("\n\n-- last-modified-on: ");
    out.append(value);
    out.append("    \n");
}

fn add_with_current_document_last_modified_on(out: &mut String, value: &str)
    ensures
        final(out)@ == with_current_document_last_modified_on(old(out)@, value@),
{
    out.append("\n\n-- current-document-last-modified-on: ");
    out.append(value);
    out.append("    \n");
}

fn add_with_language(out: &mut String, value: &str)
    ensures
        final(out)@ == with_language(old(out)@, value@),
{
    out.append("\n\n-- language: ");
    out.append(value);
    out.append("     \n");
}

fn add_with_last_marked_on(out: &mut String, time: u128, rfc3339: &str)
    ensures
        final(out)@ == with_last_marked_on(old(out)@, time, rfc3339@),
{
    out.append("\n\n-- last-marked-on: ");
    out.append(decimal(time).as_str());
    out.append("\n-- last-marked-on-rfc3339: ");
    out.append(rfc3339);
    out.append("    \n");
}

fn add_with_original_latest(out: &mut String, time: u128, rfc3339: &str)
    ensures
        final(out)@ == with_original_latest(old(out)@, time, rfc3339@),
{
    out.append("\n\n-- original-latest: ");
    out.append(decimal(time).as_str());
    out.append("\n-- original-latest-rfc3339: ");
    out.append(rfc3339);
    out.append("    \n");
}

fn add_with_translated_latest(out: &mut String, time: u128, rfc3339: &str)
    ensures
        final(out)@ == with_translated_latest(old(out)@, time, rfc3339@),
{
    out.append("\n        \n-- translated-latest: ");
    out.append(decimal(time).as_str());
    out.append("\n-- translated-latest-rfc3339: ");
    out.append(rfc3339);
    out.append("    \n");
}

fn add_with_markdown(out: &mut String, filename: &str, content: &str)
    ensures
        final(out)@ == with_markdown(old(out)@, filename@, content@),
{
    out.append("\n\n-- string markdown-filename: ");
    out.append(filename);
    out.append("                        \n-- string markdown-content:\n\n");
    out.append(content);
    out.append("\n");
}

fn add_header(out: &mut String, fpm_ui: &str, document_id: &str, name: &str)
    ensures
        final(out)@ == header(old(out)@, fpm_ui@, document_id@, name@),
{
    out.append("\n");
    out.append(fpm_ui);
    out.append("\n-- string document-id: ");
    out.append(document_id);
    out.append("\n-- string translation-status-url: ");
    out.append("//");
    out.append(name);
    out.append("\n-- string title: ");
    out.append(name);
    out.append("\n-- string package-name: ");
    out.append(name);
    out.append("\n-- optional string package-zip:\n-- string home-url: ");
    out.append("//");
    out.append(name);
    out.append("\n");
}

fn add_with_status_line(out: &mut String, file: &str, status: &str)
    ensures
        final(out)@ == with_status_line(old(out)@, file@, status@),
{
    out.append("\n\n-- status:\nfile: ");
    out.append(file);
    out.append("\nstatus: ");
    out.append(status);
    out.append("                                    \n");
}

fn add_with_missing_file(out: &mut String, file: &str)
    ensures
        final(out)@ == with_missing_file(old(out)@, file@),
{
    out.append("\n\n-- missing-files: ");
    out.append(file);
    out.append("                                            \n");
}

fn add_with_never_marked_file(out: &mut String, file: &str)
    ensures
        final(out)@ == with_never_marked_file(old(out)@, file@),
{
    out.append("\n\n-- never-marked-files: ");
    out.append(file);
    out.append("\n\n");
}

fn add_with_outdated_file(out: &mut String, file: &str)
    ensures
        final(out)@ == with_outdated_file(old(out)@, file@),
{
    out.append("\n\n-- outdated-files: ");
    out.append(file);
    out.append("\n\n");
}

fn add_with_upto_date_file(out: &mut String, file: &str)
    ensures
        final(out)@ == with_upto_date_file(old(out)@, file@),
{
    out.append("\n\n-- upto-date-files: ");
    out.append(file);
    out.append("\n\n");
}

fn add_with_status_lists(out: &mut String, all: &str, missing: &str, never_marked: &str, outdated: &str, upto_date: &str)
    ensures
        final(out)@ == with_status_lists(old(out)@, all@, missing@, never_marked@, outdated@, upto_date@),
{
    out.append("\n\n-- record status-data:\nstring file:\nstring status:\n\n-- status-data list status:\n\n");
    out.append(all);
    out.append("\n\n-- string list missing-files:\n\n");
    out.append(missing);
    out.append("\n\n-- string list never-marked-files:\n\n");
    out.append(never_marked);
    out.append("\n\n-- string list outdated-files:\n\n");
    out.append(outdated);
    out.append("\n\n-- string list upto-date-files:\n\n");
    out.append(upto_date);
    out.append("\n\n\n");
}

fn add_with_summary(out: &mut String, status: &str)
    ensures
        final(out)@ == with_summary(old(out)@, status@),
{
    out.append("\n\n");
    out.append(status);
    out.append("\n\n");
}

fn add_with_summaries(out: &mut String, list: &str)
    ensures
        final(out)@ == with_summaries(old(out)@, list@),
{
    out.append("\n\n-- record status-data:\nstring language:\nstring url:\ninteger never-marked:\ninteger missing:\ninteger out-dated:\ninteger upto-date:\noptional string last-modified-on:\n\n-- status-data list status:\n\n");
    out.append(list);
    out.append("\n\n");
}

fn add_with_language_entry(out: &mut String, language: &str, domain: &str)
    ensures
        final(out)@ == with_language_entry(old(out)@, language@, domain@),
{
    out.append("\n- ");
    out.append(language);
    out.append("\n  url: ");
    out.append(domain);
    out.append("\n");
}

fn add_with_language_toc(out: &mut String, languages: &str)
    ensures
        final(out)@ == with_language_toc(old(out)@, languages@),
{
    out.append("\n\n-- language-toc:\n$processor$: toc\n\n");
    out.append(languages);
    out.append("\n\n");
}

/// What is written of the translation of a package into one language.
fn summary_text(language: &str, name: &str, summary: &TranslationStatusSummary) -> (out: String)
    ensures
        out@ == summary_of(language@, name@, *summary),
{
    let mut out = String::new();
    out.append("-- status:\nlanguage: ");
    out.append(language);
    out.append("\nurl: ");
    out.append("https://");
    out.append(name);
    out.append("/FPM/translation-status/");
    out.append("\nnever-marked: ");
    out.append(decimal(summary.never_marked as u128).as_str());
    out.append("\nmissing: ");
    out.append(decimal(summary.missing as u128).as_str());
    out.append("\nout-dated: ");
    out.append(decimal(summary.out_dated as u128).as_str());
    out.append("\nupto-date: ");
    out.append(decimal(summary.upto_date as u128).as_str());
    out.append("\n");
    match &summary.last_modified_on {
        Some(time) => {
            out.append("last-modified-on: ");
            out.append(time.as_str());
            out.append("\n");
        },
        None => {},
    }
    proof {
        assert(out@ =~= summary_of(language@, name@, *summary));
    }
    out
}

/// The list of files of status `kind` with one more file.
pub open spec fn with_file_of(kind: TranslationStatus, base: Seq<char>, file: Seq<char>) -> Seq<char> {
    match kind {
        TranslationStatus::Missing => with_missing_file(base, file),
        TranslationStatus::NeverMarked => with_never_marked_file(base, file),
        TranslationStatus::Outdated => with_outdated_file(base, file),
        TranslationStatus::UptoDate => with_upto_date_file(base, file),
    }
}

/// The status of each of the first `n` files, one after the other.
pub open spec fn status_lines(names: Seq<Seq<char>>, items: Seq<TranslationStatus>, n: int) -> Seq<
    char,
>
    decreases n,
{
    if n <= 0 {
        Seq::empty()
    } else {
        with_status_line(status_lines(names, items, n - 1), names[n - 1], items[n - 1].name())
    }
}

/// Those of the first `n` files that are of status `kind`, one after the other.
pub open spec fn files_of(
    kind: TranslationStatus,
    names: Seq<Seq<char>>,
    items: Seq<TranslationStatus>,
    n: int,
) -> Seq<char>
    decreases n,
{
    if n <= 0 {
        Seq::empty()
    } else if items[n - 1] == kind {
        with_file_of(kind, files_of(kind, names, items, n - 1), names[n - 1])
    } else {
        files_of(kind, names, items, n - 1)
    }
}

/// The summaries of the first `n` translations; a translation without a
/// summary or without a language is passed over.
pub open spec fn summaries(translations: Seq<Package>, n: int) -> Seq<char>
    decreases n,
{
    if n <= 0 {
        Seq::empty()
    } else {
        let t = translations[n - 1];
        let before = summaries(translations, n - 1);
        if t.translation_status_summary is Some && t.language is Some {
            with_summary(
                before,
                summary_of(t.language->Some_0@, t.name@, t.translation_status_summary->Some_0),
            )
        } else {
            before
        }
    }
}

/// The packages that hold the document in other languages: for a
/// translation its original and the translations of that, else the
/// translations of the package.
pub open spec fn other_language_packages(p: Package) -> Seq<Package> {
    match *p.translation_of {
        Some(original) => seq![original] + original.translations@,
        None => p.translations@,
    }
}

/// The packages that a list of references refers to.
pub open spec fn packages_of(refs: Seq<&Package>) -> Seq<Package> {
    Seq::new(refs.len(), |i: int| *refs[i])
}

/// The path of a document below the address of a package.
pub open spec fn document_path(document_id: Seq<char>) -> Seq<char> {
    if document_id == "index.ftd"@ {
        Seq::empty()
    } else {
        replace_all(document_id, ".ftd"@, "/"@)
    }
}

/// The address of a document in the package `name`.
pub open spec fn domain_of(name: Seq<char>, path: Seq<char>) -> Seq<char> {
    if has_suffix(name, "/"@) {
        "https://"@ + name + path
    } else {
        "https://"@ + name + "/"@ + path
    }
}

/// The entries of the first `n` packages in the table of languages; a
/// package without a language is passed over.
pub open spec fn languages_list(packages: Seq<Package>, path: Seq<char>, n: int) -> Seq<char>
    decreases n,
{
    if n <= 0 {
        Seq::empty()
    } else {
        let p = packages[n - 1];
        let before = languages_list(packages, path, n - 1);
        match p.language {
            Some(code) => with_language_entry(
                before,
                human_language(code@),
                domain_of(p.name@, path),
            ),
            None => before,
        }
    }
}

/// What is known of the document at hand.
#[derive(Debug)]
pub struct Library {
    pub config: Config,
    pub document_id: String,
    pub translated_data: TranslationData,
    /// The name and the content of the markdown file that the document
    /// shows, if it shows one.
    pub markdown: Option<(String, String)>,
}

/// What was read and looked up for the document before it is put together.
#[derive(Debug)]
pub struct Gathered {
    /// The definitions that every package shares.
    pub fpm_base: String,
    /// The texts of the user interface, in the order of `ui_key`.
    pub ui_texts: Vec<String>,
    pub number_of_documents: Option<String>,
    pub last_modified_on: Option<String>,
    pub current_document_last_modified_on: Option<String>,
    /// The three versions of the translation data as times of day.
    pub last_marked_on_rfc3339: String,
    pub original_latest_rfc3339: String,
    pub translated_latest_rfc3339: String,
    /// The status of every file of the original, for a translation.
    pub translation_status: Option<FileMap<TranslationStatus>>,
}

/// The start of the document: the header, and what is known of the
/// package and of the translation of the document.
pub open spec fn document_start(lib: Library, g: Gathered) -> Seq<char> {
    let p = lib.config.package;
    let d = lib.translated_data;
    let translation = *p.translation_of is Some;
    let translated = p.translations@.len() > 0;
    let s01 = header(g.fpm_base@, ui_lines(g.ui_texts@, UI_TEXTS as int), lib.document_id@, p.name@);
    let s02 = if translation {
        marked_as_translation(s01)
    } else {
        s01
    };
    let s03 = if translated {
        marked_as_translated(s02)
    } else {
        s02
    };
    let s04 = match p.zip {
        Some(zip) => with_package_zip(s03, zip@),
        None => s03,
    };
    let s05 = match d.diff {
        Some(diff) => with_diff(s04, diff@),
        None => s04,
    };
    let s06 = match d.status {
        Some(status) => with_translation_status(s05, status@),
        None => s05,
    };
    if translation || translated {
        with_translation_status_url(s06, p.name@)
    } else {
        s06
    }
}

/// The document with the counts and times that were gathered, the language
/// of the package, the versions of the translation data, and the markdown
/// file.
pub open spec fn with_facts(base: Seq<char>, lib: Library, g: Gathered) -> Seq<char> {
    let p = lib.config.package;
    let d = lib.translated_data;
    let s08 = match g.number_of_documents {
        Some(n) => with_number_of_documents(base, n@),
        None => base,
    };
    let s09 = match g.last_modified_on {
        Some(time) => with_last_modified_on(s08, time@),
        None => s08,
    };
    let s10 = match g.current_document_last_modified_on {
        Some(time) => with_current_document_last_modified_on(s09, time@),
        None => s09,
    };
    let s11 = match p.language {
        Some(code) => with_language(s10, human_language(code@)),
        None => s10,
    };
    let s12 = match d.last_marked_on {
        Some(time) => with_last_marked_on(s11, time, g.last_marked_on_rfc3339@),
        None => s11,
    };
    let s13 = match d.original_latest {
        Some(time) => with_original_latest(s12, time, g.original_latest_rfc3339@),
        None => s12,
    };
    let s14 = match d.translated_latest {
        Some(time) => with_translated_latest(s13, time, g.translated_latest_rfc3339@),
        None => s13,
    };
    match lib.markdown {
        Some(markdown) => with_markdown(s14, markdown.0@, markdown.1@),
        None => s14,
    }
}

/// The document with the status of every file, the summaries of the
/// translations, and the table of the other languages.
pub open spec fn with_lists(base: Seq<char>, lib: Library, g: Gathered) -> Seq<char> {
    let p = lib.config.package;
    let s16 = match g.translation_status {
        Some(status) => {
            let names = status.names();
            let items = status.items();
            let n = names.len() as int;
            with_status_lists(
                base,
                status_lines(names, items, n),
                files_of(TranslationStatus::Missing, names, items, n),
                files_of(TranslationStatus::NeverMarked, names, items, n),
                files_of(TranslationStatus::Outdated, names, items, n),
                files_of(TranslationStatus::UptoDate, names, items, n),
            )
        },
        None => base,
    };
    let s17 = if p.translations@.len() > 0 {
        with_summaries(s16, summaries(p.translations@, p.translations@.len() as int))
    } else {
        s16
    };
    let others = other_language_packages(p);
    let languages = languages_list(others, document_path(lib.document_id@), others.len() as int);
    if others.len() > 0 && trimmed(languages).len() > 0 {
        with_language_toc(s17, languages)
    } else {
        s17
    }
}

/// The document: the header, then a section for each thing that is known,
/// in a fixed order.
pub open spec fn fpm_document(lib: Library, g: Gathered) -> Seq<char> {
    with_lists(with_facts(document_start(lib, g), lib, g), lib, g)
}

fn status_lists(status: &FileMap<TranslationStatus>) -> (r: (String, String, String, String, String))
    requires
        status.wf(),
    ensures
        r.0@ == status_lines(status.names(), status.items(), status.names().len() as int),
        r.1@ == files_of(
            TranslationStatus::Missing,
            status.names(),
            status.items(),
            status.names().len() as int,
        ),
        r.2@ == files_of(
            TranslationStatus::NeverMarked,
            status.names(),
            status.items(),
            status.names().len() as int,
        ),
        r.3@ == files_of(
            TranslationStatus::Outdated,
            status.names(),
            status.items(),
            status.names().len() as int,
        ),
        r.4@ == files_of(
            TranslationStatus::UptoDate,
            status.names(),
            status.items(),
            status.names().len() as int,
        ),
{
    let mut all = String::new();
    let mut missing = String::new();
    let mut never_marked = String::new();
    let mut outdated = String::new();
    let mut upto_date = String::new();
    let ghost names = status.names();
    let ghost items = status.items();
    let mut i: usize = 0;
    while i < status.len()
        invariant
            status.wf(),
            names == status.names(),
            items == status.items(),
            i <= names.len(),
            all@ == status_lines(names, items, i as int),
            missing@ == files_of(TranslationStatus::Missing, names, items, i as int),
            never_marked@ == files_of(TranslationStatus::NeverMarked, names, items, i as int),
            outdated@ == files_of(TranslationStatus::Outdated, names, items, i as int),
            upto_date@ == files_of(TranslationStatus::UptoDate, names, items, i as int),
        decreases names.len() - i,
    {
        let file = status.name_at(i);
        let kind = status.item_at(i);
        add_with_status_line(&mut all, file.as_str(), kind.as_str());
        match kind {
            TranslationStatus::Missing => add_with_missing_file(&mut missing, file.as_str()),
            TranslationStatus::NeverMarked => add_with_never_marked_file(
                &mut never_marked,
                file.as_str(),
            ),
            TranslationStatus::Outdated => add_with_outdated_file(&mut outdated, file.as_str()),
            TranslationStatus::UptoDate => add_with_upto_date_file(&mut upto_date, file.as_str()),
        }
        i += 1;
    }
    (all, missing, never_marked, outdated, upto_date)
}

fn summaries_text(translations: &Vec<Package>) -> (r: String)
    ensures
        r@ == summaries(translations@, translations@.len() as int),
{
    let mut list = String::new();
    let mut i: usize = 0;
    while i < translations.len()
        invariant
            i <= translations.len(),
            list@ == summaries(translations@, i as int),
        decreases translations.len() - i,
    {
        let translation = &translations[i];
        match &translation.translation_status_summary {
            Some(summary) => match &translation.language {
                Some(language) => {
                    let status = summary_text(
                        language.as_str(),
                        translation.name.as_str(),
                        summary,
                    );
                    add_with_summary(&mut list, status.as_str());
                },
                None => {},
            },
            None => {},
        }
        i += 1;
    }
    list
}

fn domain(name: &str, path: &str) -> (r: String)
    ensures
        r@ == domain_of(name@, path@),
{
    let mut r = "https://".to_owned();
    r.append(name);
    if !ends_with(name, "/") {
        r.append("/");
    }
    r.append(path);
    r
}

fn languages_text(packages: &Vec<&Package>, path: &str) -> (r: String)
    ensures
        r@ == languages_list(
            packages_of(packages@),
            path@,
            packages@.len() as int,
        ),
{
    let ghost all = packages_of(packages@);
    let mut languages = String::new();
    let mut i: usize = 0;
    while i < packages.len()
        invariant
            i <= packages.len(),
            all == packages_of(packages@),
            languages@ == languages_list(all, path@, i as int),
        decreases packages.len() - i,
    {
        let lang_package = packages[i];
        assert(all[i as int] == *lang_package);
        match &lang_package.language {
            Some(lang) => {
                let language = language_to_human(lang.as_str());
                let address = domain(lang_package.name.as_str(), path);
                add_with_language_entry(&mut languages, language.as_str(), address.as_str());
            },
            None => {},
        }
        i += 1;
    }
    languages
}

fn others_of(package: &Package) -> (r: Vec<&Package>)
    ensures
        packages_of(r@) == other_language_packages(*package),
{
    let mut others: Vec<&Package> = Vec::new();
    match &*package.translation_of {
        Some(original) => {
            others.push(original);
            let mut i: usize = 0;
            assert(packages_of(others@) =~= seq![*original] + original.translations@.take(0));
            while i < original.translations.len()
                invariant
                    i <= original.translations.len(),
                    others@.len() == i + 1,
                    packages_of(others@) == seq![*original]
                        + original.translations@.take(i as int),
                decreases original.translations.len() - i,
            {
                let ghost before = others@;
                others.push(&original.translations[i]);
                assert(others@[i + 1] == &original.translations@[i as int]);
                assert forall|k: int| 0 <= k < others@.len() implies packages_of(others@)[k] == (
                seq![*original] + original.translations@.take(i + 1))[k] by {
                    if k <= i {
                        assert(packages_of(before)[k] == *before[k]);
                        assert(packages_of(before)[k] == (seq![*original]
                            + original.translations@.take(i as int))[k]);
                    }
                }
                assert(packages_of(others@) =~= seq![*original]
                    + original.translations@.take(i + 1));
                i += 1;
            }
            assert(original.translations@.take(original.translations@.len() as int)
                =~= original.translations@);
        },
        None => {
            let mut i: usize = 0;
            assert(packages_of(others@) =~= package.translations@.take(0));
            while i < package.translations.len()
                invariant
                    i <= package.translations.len(),
                    others@.len() == i,
                    packages_of(others@) == package.translations@.take(i as int),
                decreases package.translations.len() - i,
            {
                others.push(&package.translations[i]);
                assert(others@[i as int] == &package.translations@[i as int]);
                assert(packages_of(others@) =~= package.translations@.take(i + 1));
                i += 1;
            }
            assert(package.translations@.take(package.translations@.len() as int)
                =~= package.translations@);
        },
    }
    others
}

fn path_of_document(document_id: &str) -> (r: String)
    ensures
        r@ == document_path(document_id@),
{
    if str_equal(document_id, "index.ftd") {
        String::new()
    } else {
        replace(document_id, ".ftd", "/")
    }
}

fn start_document(lib: &Library, gathered: &Gathered) -> (out: String)
    ensures
        out@ == document_start(*lib, *gathered),
{
    let package = &lib.config.package;
    let data = &lib.translated_data;
    let name = package.name.as_str();
    let translation = package.translation_of.is_some();
    let translated = package.translations.len() > 0;
    let fpm_ui = construct_fpm_ui(&gathered.ui_texts);
    let mut out = gathered.fpm_base.clone();
    add_header(&mut out, fpm_ui.as_str(), lib.document_id.as_str(), name);
    if translation {
        add_marked_as_translation(&mut out);
    }
    if translated {
        add_marked_as_translated(&mut out);
    }
    match &package.zip {
        Some(zip) => add_with_package_zip(&mut out, zip.as_str()),
        None => {},
    }
    match &data.diff {
        Some(diff) => add_with_diff(&mut out, diff.as_str()),
        None => {},
    }
    match &data.status {
        Some(status) => add_with_translation_status(&mut out, status.as_str()),
        None => {},
    }
    if translation || translated {
        add_with_translation_status_url(&mut out, name);
    }
    out
}

fn add_facts(out: &mut String, lib: &Library, gathered: &Gathered)
    ensures
        final(out)@ == with_facts(old(out)@, *lib, *gathered),
{
    let package = &lib.config.package;
    let data = &lib.translated_data;
    match &gathered.number_of_documents {
        Some(n) => add_with_number_of_documents(out, n.as_str()),
        None => {},
    }
    match &gathered.last_modified_on {
        Some(time) => add_with_last_modified_on(out, time.as_str()),
        None => {},
    }
    match &gathered.current_document_last_modified_on {
        Some(time) => add_with_current_document_last_modified_on(out, time.as_str()),
        None => {},
    }
    match &package.language {
        Some(code) => {
            let language = language_to_human(code.as_str());
            add_with_language(out, language.as_str());
        },
        None => {},
    }
    match data.last_marked_on {
        Some(time) => add_with_last_marked_on(out, time, gathered.last_marked_on_rfc3339.as_str()),
        None => {},
    }
    match data.original_latest {
        Some(time) => add_with_original_latest(
            out,
            time,
            gathered.original_latest_rfc3339.as_str(),
        ),
        None => {},
    }
    match data.translated_latest {
        Some(time) => add_with_translated_latest(
            out,
            time,
            gathered.translated_latest_rfc3339.as_str(),
        ),
        None => {},
    }
    match &lib.markdown {
        Some(markdown) => add_with_markdown(out, markdown.0.as_str(), markdown.1.as_str()),
        None => {},
    }
}

fn add_lists(out: &mut String, lib: &Library, gathered: &Gathered)
    requires
        gathered.translation_status is Some ==> gathered.translation_status->Some_0.wf(),
    ensures
        final(out)@ == with_lists(old(out)@, *lib, *gathered),
{
    let package = &lib.config.package;
    match &gathered.translation_status {
        Some(status) => {
            let lists = status_lists(status);
            add_with_status_lists(
                out,
                lists.0.as_str(),
                lists.1.as_str(),
                lists.2.as_str(),
                lists.3.as_str(),
                lists.4.as_str(),
            );
        },
        None => {},
    }
    if package.translations.len() > 0 {
        let list = summaries_text(&package.translations);
        add_with_summaries(out, list.as_str());
    }
    let others = others_of(package);
    assert(packages_of(others@).len() == others@.len());
    if others.len() > 0 {
        let path = path_of_document(lib.document_id.as_str());
        let languages = languages_text(&others, path.as_str());
        if !trim(languages.as_str()).as_str().is_empty() {
            add_with_language_toc(out, languages.as_str());
        }
    }
}

/// The document that is imported as `fpm`, for the document at hand.
///
/// It starts with the shared definitions, the texts of the user interface
/// and the names of the document and the package. Then comes, in a fixed
/// order, a section for each thing that is known: whether the package is a
/// translation or has translations, its archive, the diff and the status of
/// a translation, the counts and times that were gathered, the language,
/// the versions of the translation data, the markdown file, the status of
/// every file, the summaries of the translations, and the table of the
/// other languages.
pub fn get(lib: &Library, gathered: &Gathered) -> (r: String)
    requires
        gathered.translation_status is Some ==> gathered.translation_status->Some_0.wf(),
    ensures
        r@ == fpm_document(*lib, *gathered),
{
    let mut out = start_document(lib, gathered);
    add_facts(&mut out, lib, gathered);
    add_lists(&mut out, lib, gathered);
    out
}

} // verus!
