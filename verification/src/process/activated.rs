//! Adopting the listener that the service manager opened for the coordinator.
//!
//! Socket activation passes descriptors from 3 on and describes them in
//! `LISTEN_PID`, `LISTEN_FDS` and `LISTEN_FDNAMES`. The coordinator adopts
//! descriptor 3 only when the variables name this process, exactly one
//! descriptor, and the `router` socket.

use vstd::prelude::*;

use crate::search::{last_match, lemma_last_match_is, lemma_last_match_none};
use crate::text::{chars_of, parse_decimal, parse_u64, spells};

verus! {

/// The first descriptor the service manager passes.
pub const SYSTEMD_FD_START: i32 = 3;

/// One of the activation variables.
#[derive(Clone, Copy, Debug, PartialEq, Eq, Structural)]
pub enum ActivationVar {
    ListenPid,
    ListenFds,
    ListenFdNames,
}

pub open spec fn var_name(var: ActivationVar) -> Seq<char> {
    match var {
        ActivationVar::ListenPid => "LISTEN_PID"@,
        ActivationVar::ListenFds => "LISTEN_FDS"@,
        ActivationVar::ListenFdNames => "LISTEN_FDNAMES"@,
    }
}

impl ActivationVar {
    pub fn name(self) -> (name: &'static str)
        ensures
            name@ == var_name(self),
    {
        match self {
            ActivationVar::ListenPid => "LISTEN_PID",
            ActivationVar::ListenFds => "LISTEN_FDS",
            ActivationVar::ListenFdNames => "LISTEN_FDNAMES",
        }
    }
}

/// Why the activated listener cannot be adopted.
#[derive(Clone, Copy, Debug, PartialEq, Eq, Structural)]
pub enum ActivationError {
    /// The variable is not set.
    Missing(ActivationVar),
    /// The variable is not a decimal number.
    Invalid(ActivationVar),
    /// The activation belongs to another process.
    ForeignPid(u64),
    /// Not exactly one descriptor was passed.
    ListenerCount(u64),
    /// The descriptor is not the router socket.
    NotRouter,
}

pub open spec fn with_name(name: Seq<char>) -> spec_fn((Seq<char>, Seq<char>)) -> bool {
    |entry: (Seq<char>, Seq<char>)| entry.0 == name
}

/// The value of a variable; a later entry for the same name wins.
pub open spec fn value_of(values: Seq<(Seq<char>, Seq<char>)>, name: Seq<char>) -> Option<Seq<char>> {
    match last_match(values, with_name(name)) {
        Some(i) => Some(values[i].1),
        None => None,
    }
}

pub open spec fn number_of(values: Seq<(Seq<char>, Seq<char>)>, var: ActivationVar) -> Result<u64, ActivationError> {
    match value_of(values, var_name(var)) {
        None => Err(ActivationError::Missing(var)),
        Some(text) => match parse_u64(text) {
            None => Err(ActivationError::Invalid(var)),
            Some(value) => Ok(value),
        },
    }
}

/// The descriptor a process `pid` may adopt under the activation `values`.
pub open spec fn activated_descriptor(values: Seq<(Seq<char>, Seq<char>)>, pid: u32) -> Result<i32, ActivationError> {
    match number_of(values, ActivationVar::ListenPid) {
        Err(error) => Err(error),
        Ok(listen_pid) => match number_of(values, ActivationVar::ListenFds) {
            Err(error) => Err(error),
            Ok(listen_fds) => if listen_pid != pid as u64 {
                Err(ActivationError::ForeignPid(listen_pid))
            } else if listen_fds != 1 {
                Err(ActivationError::ListenerCount(listen_fds))
            } else {
                match value_of(values, var_name(ActivationVar::ListenFdNames)) {
                    None => Err(ActivationError::Missing(ActivationVar::ListenFdNames)),
                    Some(names) => if names != "router"@ {
                        Err(ActivationError::NotRouter)
                    } else {
                        Ok(SYSTEMD_FD_START)
                    },
                }
            },
        },
    }
}

/// The activation variables a process was started with, and its pid.
pub struct Activation {
    values: Vec<(Vec<char>, Vec<char>)>,
    pid: u32,
}

pub struct ActivationModel {
    pub values: Seq<(Seq<char>, Seq<char>)>,
    pub pid: u32,
}

impl View for Activation {
    type V = ActivationModel;

    closed spec fn view(&self) -> ActivationModel {
        ActivationModel {
            values: self.values@.map_values(|e: (Vec<char>, Vec<char>)| (e.0@, e.1@)),
            pid: self.pid,
        }
    }
}

impl Activation {
    /// The activation described by `values` (name and value pairs) for the process `pid`.
    pub fn new(values: &[(&str, &str)], pid: u32) -> (activation: Self)
        ensures
            activation@.pid == pid,
            activation@.values == values@.map_values(|e: (&str, &str)| (e.0@, e.1@)),
    {
        let mut entries: Vec<(Vec<char>, Vec<char>)> = Vec::new();
        for i in 0..values.len()
            invariant
                entries@.map_values(|e: (Vec<char>, Vec<char>)| (e.0@, e.1@)) == values@.take(i as int).map_values(
                    |e: (&str, &str)| (e.0@, e.1@),
                ),
        {
            let (name, value) = values[i];
            let ghost before = entries@.map_values(|e: (Vec<char>, Vec<char>)| (e.0@, e.1@));
            entries.push((chars_of(name), chars_of(value)));
            proof {
                assert(values@.take(i + 1) =~= values@.take(i as int).push(values@[i as int]));
                assert(entries@.map_values(|e: (Vec<char>, Vec<char>)| (e.0@, e.1@)) =~= before.push((name@, value@)));
                assert(values@.take(i + 1).map_values(|e: (&str, &str)| (e.0@, e.1@)) =~= values@.take(
                    i as int,
                ).map_values(|e: (&str, &str)| (e.0@, e.1@)).push((name@, value@)));
            }
        }
        proof {
            assert(values@.take(values@.len() as int) =~= values@);
        }
        Activation { values: entries, pid }
    }

    fn value(&self, name: &str) -> (value: Option<&Vec<char>>)
        ensures
            match value {
                Some(v) => value_of(self@.values, name@) == Some(v@),
                None => value_of(self@.values, name@) is None,
            },
    {
        let ghost all = self@.values;
        let mut i = self.values.len();
        while i > 0
            invariant
                i <= self.values@.len(),
                all == self@.values,
                forall|j: int| i <= j < all.len() ==> !with_name(name@)(#[trigger] all[j]),
            decreases i,
        {
            i = i - 1;
            if spells(self.values[i].0.as_slice(), name) {
                proof {
                    assert(all[i as int] == (self.values@[i as int].0@, self.values@[i as int].1@));
                    lemma_last_match_is(all, with_name(name@), i as int);
                }
                return Some(&self.values[i].1);
            }
            proof {
                assert(all[i as int] == (self.values@[i as int].0@, self.values@[i as int].1@));
            }
        }
        proof {
            lemma_last_match_none(all, with_name(name@));
        }
        None
    }

    fn number(&self, var: ActivationVar) -> (number: Result<u64, ActivationError>)
        ensures
            number == number_of(self@.values, var),
    {
        match self.value(var.name()) {
            None => Err(ActivationError::Missing(var)),
            Some(text) => match parse_decimal(text.as_slice()) {
                None => Err(ActivationError::Invalid(var)),
                Some(value) => Ok(value),
            },
        }
    }

    /// The descriptor of the activated listener: it must be meant for this
    /// process, be the only descriptor passed, and be named `router`.
    pub fn descriptor(&self) -> (descriptor: Result<i32, ActivationError>)
        ensures
            descriptor == activated_descriptor(self@.values, self@.pid),
    {
        let listen_pid = self.number(ActivationVar::ListenPid)?;
        let listen_fds = self.number(ActivationVar::ListenFds)?;
        if listen_pid != self.pid as u64 {
            return Err(ActivationError::ForeignPid(listen_pid));
        }
        if listen_fds != 1 {
            return Err(ActivationError::ListenerCount(listen_fds));
        }
        match self.value(ActivationVar::ListenFdNames.name()) {
            None => Err(ActivationError::Missing(ActivationVar::ListenFdNames)),
            Some(names) => if !spells(names.as_slice(), "router") {
                Err(ActivationError::NotRouter)
            } else {
                Ok(SYSTEMD_FD_START)
            },
        }
    }
}

} // verus!
