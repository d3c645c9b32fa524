//! A process as seen in the process table, and the pairing of its file
//! descriptors with what is known about each open file.
//!
//! Reading the process table and the per-process descriptor directories is
//! input/output and lives outside the library; the functions here take the
//! directory listing and the per-descriptor information as plain values.

use vstd::prelude::*;

use crate::debugger::{spec_parse_digits, parse_decimal};

verus! {

/// One process: its id, its parent's id, and its command name.
#[derive(Debug, Clone, PartialEq)]
pub struct Process {
    pub pid: usize,
    pub ppid: usize,
    pub command: String,
}

/// One open file of a process: its name, its access mode, and the cursor
/// position.
#[derive(Debug)]
pub struct OpenFile {
    pub name: String,
    pub access_mode: String,
    pub cursor: usize,
}

impl OpenFile {
    /// A copy holding the same values.
    pub fn duplicate(&self) -> (r: OpenFile)
        ensures
            r == *self,
    {
        OpenFile {
            name: self.name.clone(),
            access_mode: self.access_mode.clone(),
            cursor: self.cursor,
        }
    }
}

/// The information recorded for descriptor `fd`: the first entry carrying
/// it.
pub open spec fn spec_file_for(files: Seq<(usize, OpenFile)>, fd: usize) -> Option<OpenFile>
    decreases files.len(),
{
    if files.len() == 0 {
        None
    } else if files[0].0 == fd {
        Some(files[0].1)
    } else {
        spec_file_for(files.drop_first(), fd)
    }
}

/// The descriptor numbers named by a directory listing: every entry must
/// be a decimal number that fits the machine, else nothing is known.
pub open spec fn spec_fds_of(names: Seq<Seq<char>>) -> Option<Seq<usize>> {
    if forall|i: int|
        0 <= i < names.len() ==> (spec_parse_digits(#[trigger] names[i], 10) matches Some(v)
            && v <= usize::MAX) {
        Some(Seq::new(names.len(), |i: int| spec_parse_digits(names[i], 10).unwrap() as usize))
    } else {
        None
    }
}

impl Process {
    /// A process record.
    pub fn new(pid: usize, ppid: usize, command: String) -> (r: Process)
        ensures
            r.pid == pid,
            r.ppid == ppid,
            r.command == command,
    {
        Process { pid, ppid, command }
    }

    /// Turns the names listed in a descriptor directory into descriptor
    /// numbers; `None` when any entry is not a number (the information is
    /// unavailable, e.g. for an exited process).
    pub fn list_fds(&self, names: &Vec<String>) -> (r: Option<Vec<usize>>)
        ensures
            match r {
                Some(fds) => spec_fds_of(names@.map_values(|s: String| s@)) == Some(fds@),
                None => spec_fds_of(names@.map_values(|s: String| s@)) is None,
            },
    {
        let ghost nm = names@.map_values(|s: String| s@);
        let mut fds: Vec<usize> = Vec::new();
        let mut i: usize = 0;
        while i < names.len()
            invariant
                i <= names@.len(),
                nm == names@.map_values(|s: String| s@),
                fds@.len() == i,
                forall|j: int|
                    0 <= j < i ==> (spec_parse_digits(#[trigger] nm[j], 10) matches Some(v) && v
                        <= usize::MAX && fds@[j] == v as usize),
            decreases names@.len() - i,
        {
            let v = match parse_decimal(names[i].as_str()) {
                Some(v) => v,
                None => {
                    proof {
                        assert(nm[i as int] == names@[i as int]@);
                        assert(spec_parse_digits(nm[i as int], 10) is None);
                    }
                    return None;
                },
            };
            if v > usize::MAX as u64 {
                proof {
                    assert(nm[i as int] == names@[i as int]@);
                    assert(spec_parse_digits(nm[i as int], 10) == Some(v));
                }
                return None;
            }
            proof {
                assert(nm[i as int] == names@[i as int]@);
            }
            fds.push(v as usize);
            i += 1;
        }
        proof {
            let expected = Seq::new(nm.len(), |j: int| spec_parse_digits(nm[j], 10).unwrap()
                as usize);
            assert(fds@ =~= expected);
        }
        Some(fds)
    }

    /// Pairs each descriptor with what is known of its open file, in
    /// order; `None` when the descriptors are unknown or any descriptor
    /// has no recorded information.
    pub fn list_open_files(&self, fds: &Option<Vec<usize>>, files: &Vec<(usize, OpenFile)>) -> (r:
        Option<Vec<(usize, OpenFile)>>)
        ensures
            fds is None ==> r is None,
            r matches Some(v) ==> (fds matches Some(list) && v@.len() == list@.len() && forall|
                i: int,
            |
                0 <= i < v@.len() ==> (#[trigger] v@[i]).0 == list@[i] && spec_file_for(
                    files@,
                    list@[i],
                ) == Some(v@[i].1)),
            r is None ==> (fds matches Some(list) ==> exists|i: int|
                0 <= i < list@.len() && spec_file_for(files@, #[trigger] list@[i]) is None),
    {
        let list = match fds.as_ref() {
            Some(list) => list,
            None => {
                return None;
            },
        };
        proof {
            assert(*list == (*fds)->Some_0);
        }
        let mut open_files: Vec<(usize, OpenFile)> = Vec::new();
        let mut i: usize = 0;
        while i < list.len()
            invariant
                *list == (*fds)->Some_0,
                i <= list@.len(),
                open_files@.len() == i,
                forall|j: int|
                    0 <= j < i ==> (#[trigger] open_files@[j]).0 == list@[j] && spec_file_for(
                        files@,
                        list@[j],
                    ) == Some(open_files@[j].1),
            decreases list@.len() - i,
        {
            let fd = list[i];
            let file = match Self::file_for(files, fd) {
                Some(f) => f,
                None => {
                    proof {
                        assert(((*fds)->Some_0)@ == list@);
                        assert(exists|k: int|
                            0 <= k < ((*fds)->Some_0)@.len() && spec_file_for(
                                files@,
                                #[trigger] ((*fds)->Some_0)@[k],
                            ) is None) by {
                            assert(spec_file_for(files@, ((*fds)->Some_0)@[i as int]) is None);
                        }
                    }
                    return None;
                },
            };
            open_files.push((fd, file));
            i += 1;
        }
        Some(open_files)
    }

    /// Linear scan for the information recorded for descriptor `fd`.
    fn file_for(files: &Vec<(usize, OpenFile)>, fd: usize) -> (r: Option<OpenFile>)
        ensures
            r == spec_file_for(files@, fd),
    {
        proof {
            assert(files@.skip(0) =~= files@);
        }
        let mut i: usize = 0;
        while i < files.len()
            invariant
                i <= files@.len(),
                spec_file_for(files@, fd) == spec_file_for(files@.skip(i as int), fd),
            decreases files@.len() - i,
        {
            proof {
                assert(files@.skip(i as int)[0] == files@[i as int]);
                assert(files@.skip(i as int).drop_first() =~= files@.skip(i + 1));
            }
            if files[i].0 == fd {
                return Some(files[i].1.duplicate());
            }
            i += 1;
        }
        None
    }
}

} // verus!
