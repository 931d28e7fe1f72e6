//! Names on the message bus, and where a daemon keeps the file with its
//! process number.

use regex::Regex;
use vstd::prelude::*;
use vstd::std_specs::convert::FromSpecImpl;
use crate::text::{decimal, push_decimal};

verus! {

pub const DBUS_INTERFACE: &'static str = "org.ProcessQueue";

pub const DBUS_PATH: &'static str = "/";

pub const DBUS_METHOD_ADD: &'static str = "Add";

pub const DBUS_METHOD_STOP: &'static str = "Stop";

/// The pattern that the name of a queue must match to stand in a bus name:
/// letters only, and at least one.
pub const NAME_PATTERN: &'static str = "^[a-zA-Z]+$";

/// A name that cannot stand in a bus name.
#[derive(Debug, PartialEq, Eq, Structural)]
pub struct NameError;

/// Why the daemon could not be started.
#[derive(Debug)]
pub enum DaemonError {
    /// The file with the process number has no place.
    PidFileError(PidFileError),
    /// The process could not be put in the background; why, in words.
    DaemonError(String),
}

/// Why the file with the process number has no place.
#[derive(Debug)]
pub enum PidFileError {
    /// The file system refused; why, in words.
    IOError(String),
    /// The directory belongs to someone else.
    OwnershipError,
    /// The directory is open to others, or closed to its owner.
    PermissionError,
}

impl From<PidFileError> for DaemonError {
    fn from(err: PidFileError) -> (r: DaemonError) {
        DaemonError::PidFileError(err)
    }
}

impl FromSpecImpl<PidFileError> for DaemonError {
    open spec fn obeys_from_spec() -> bool {
        true
    }

    open spec fn from_spec(err: PidFileError) -> DaemonError {
        DaemonError::PidFileError(err)
    }
}

/// Whether the `regex` crate finds a match of `pattern` in `text`, or `None`
/// where it does not take `pattern` for a regular expression.
pub uninterp spec fn regex_match(pattern: Seq<char>, text: Seq<char>) -> Option<bool>;

/// Compiles `pattern` with `Regex::new` and looks for a match in `text` with
/// `Regex::is_match`. Nothing is claimed of the answer but that it is the one
/// the crate gives for these two texts, the same on every call.
#[verifier::external_body]
fn is_match(pattern: &str, text: &str) -> (r: Option<bool>)
    ensures
        r == regex_match(pattern@, text@),
{
    match Regex::new(pattern) {
        Ok(regex) => Some(regex.is_match(text)),
        Err(_) => None,
    }
}

/// The bus name of the queue `name`, where `valid` says that the name may
/// stand in one.
pub fn dbus_name_for(name: &str, valid: bool) -> (r: Result<String, NameError>)
    ensures
        match r {
            Ok(bus_name) => valid && bus_name@ == "org.ProcessQueue."@ + name@,
            Err(_) => !valid,
        },
{
    if valid {
        let mut bus_name = "org.ProcessQueue.".to_owned();
        bus_name.append(name);
        Ok(bus_name)
    } else {
        Err(NameError)
    }
}

/// The bus name of the queue `name`: `org.ProcessQueue.` and the name, which
/// must be made of letters.
pub fn dbus_get_name(name: &str) -> (r: Result<String, NameError>)
    ensures
        match r {
            Ok(bus_name) => regex_match(NAME_PATTERN@, name@) == Some(true) && bus_name@
                == "org.ProcessQueue."@ + name@,
            Err(_) => regex_match(NAME_PATTERN@, name@) != Some(true),
        },
{
    match is_match(NAME_PATTERN, name) {
        Some(valid) => dbus_name_for(name, valid),
        None => Err(NameError),
    }
}

/// The name of the file with the process number in the runtime directory of
/// the user.
pub fn runtime_file_name(name: &str) -> (file: String)
    ensures
        file@ == "pqueue-"@ + name@ + ".pid"@,
{
    let mut file = "pqueue-".to_owned();
    file.append(name);
    file.append(".pid");
    file
}

/// The name of the directory of the user `uid` under the directory for
/// temporary files.
pub fn private_dir_name(uid: u32) -> (dir: String)
    ensures
        dir@ == "pqueue-"@ + decimal(uid as nat),
{
    let mut dir = "pqueue-".to_owned();
    push_decimal(&mut dir, uid as u64);
    dir
}

/// The name of the file with the process number in the directory of the user.
pub fn private_file_name(name: &str) -> (file: String)
    ensures
        file@ == name@ + ".pid"@,
{
    let mut file = name.to_owned();
    file.append(".pid");
    file
}

/// The permission bits that the directory of a user must have: all for its
/// owner, none for anyone else.
pub const PRIVATE_DIR_MODE: u32 = 0o700;

/// Whether the directory with the owner and the mode given may hold the file
/// of the user `uid` of the group `gid`: it must be theirs, and its mode must
/// be `PRIVATE_DIR_MODE` and nothing else.
pub fn check_private_dir(uid: u32, gid: u32, owner: u32, group: u32, mode: u32) -> (r: Result<
    (),
    PidFileError,
>)
    ensures
        match r {
            Ok(_) => owner == uid && group == gid && mode == PRIVATE_DIR_MODE,
            Err(PidFileError::OwnershipError) => owner != uid || group != gid,
            Err(PidFileError::PermissionError) => owner == uid && group == gid && mode
                != PRIVATE_DIR_MODE,
            Err(PidFileError::IOError(_)) => false,
        },
{
    if owner != uid || group != gid {
        return Err(PidFileError::OwnershipError);
    }
    if mode != PRIVATE_DIR_MODE {
        return Err(PidFileError::PermissionError);
    }
    Ok(())
}

/// Whether `name` is among `names`.
pub fn dbus_name_exists(names: &Vec<String>, name: &str) -> (r: bool)
    ensures
        r == exists|i: int| 0 <= i < names@.len() && (#[trigger] names@[i])@ == name@,
{
    let mut i: usize = 0;
    while i < names.len()
        invariant
            i <= names@.len(),
            forall|j: int| 0 <= j < i ==> (#[trigger] names@[j])@ != name@,
        decreases names@.len() - i,
    {
        if crate::text::same_text(names[i].as_str(), name) {
            return true;
        }
        i += 1;
    }
    false
}

} // verus!
