//! What the service decides before it touches the store: the lock that an
//! operation takes, and what the command line gave.

use crate::text::{parse_usize, parsed_number};
use vstd::prelude::*;
use vstd::string::*;

verus! {

/// The operations of the service.
#[derive(Debug, Clone, Copy, PartialEq, Eq, Structural)]
pub enum Operation {
    Serve,
    ViewSource,
    Clone,
    CreateCrPage,
    Sync,
    Sync2,
    Edit,
    Revert,
    EditorSync,
    CreateCr,
    ClearCache,
}

/// How an operation holds the store: shared with other readers, or alone.
#[derive(Debug, Clone, Copy, PartialEq, Eq, Structural)]
pub enum Lock {
    Read,
    Write,
}

impl Operation {
    /// Whether the operation changes the store.
    pub open spec fn mutates(self) -> bool {
        match self {
            Operation::Serve => false,
            Operation::ViewSource => false,
            Operation::Clone => false,
            Operation::CreateCrPage => false,
            Operation::Sync => true,
            Operation::Sync2 => true,
            Operation::Edit => true,
            Operation::Revert => true,
            Operation::EditorSync => true,
            Operation::CreateCr => true,
            Operation::ClearCache => true,
        }
    }
}

/// The lock that an operation takes for as long as it runs: the write lock
/// where it changes the store, else the read lock.
pub fn lock_for(operation: Operation) -> (lock: Lock)
    ensures
        lock == if operation.mutates() {
            Lock::Write
        } else {
            Lock::Read
        },
{
    match operation {
        Operation::Serve => Lock::Read,
        Operation::ViewSource => Lock::Read,
        Operation::Clone => Lock::Read,
        Operation::CreateCrPage => Lock::Read,
        Operation::Sync => Lock::Write,
        Operation::Sync2 => Lock::Write,
        Operation::Edit => Lock::Write,
        Operation::Revert => Lock::Write,
        Operation::EditorSync => Lock::Write,
        Operation::CreateCr => Lock::Write,
        Operation::ClearCache => Lock::Write,
    }
}

/// The version that the program reports: the version of the package, with
/// the commit it was built from where that is known; in a test run the
/// version of the package alone.
pub open spec fn version_of(test: bool, package_version: Seq<char>, sha: Option<Seq<char>>) -> Seq<
    char,
> {
    if test {
        package_version
    } else {
        match sha {
            Some(s) => package_version + " ["@ + s + "]"@,
            None => package_version,
        }
    }
}

/// The version that the program reports.
pub fn version(test: bool, package_version: &str, github_sha: Option<&str>) -> (r: String)
    ensures
        r@ == version_of(test, package_version@, github_sha.deep_view()),
{
    if test {
        return package_version.to_owned();
    }
    match github_sha {
        Some(sha) => {
            let mut r = package_version.to_owned();
            r.append(" [");
            r.append(sha);
            r.append("]");
            r
        },
        None => package_version.to_owned(),
    }
}

/// The port that `text` names: the number it writes, where it writes one
/// and the number is a port.
pub fn parse_port(text: &str) -> (r: Option<u16>)
    ensures
        r == match parsed_number(text@) {
            Some(n) => if n <= u16::MAX {
                Some(n as u16)
            } else {
                None
            },
            None => None,
        },
{
    match parse_usize(text) {
        Some(n) => {
            if n <= 65535 {
                Some(n as u16)
            } else {
                None
            }
        },
        None => None,
    }
}

} // verus!
