//! Per-application audio sessions of the PC.

use vstd::prelude::*;

verus! {

/// A volume: the 32-bit pattern of the number between 0 and 1 that the audio
/// system works with, and the percentage that it is shown as.
#[derive(Debug, Clone, Copy, PartialEq, Eq, Structural)]
pub struct Volume {
    pub bits: u32,
    pub level: u8,
}

/// The bit pattern of one half.
pub const HALF_BITS: u32 = 0x3F00_0000;

/// A single per-application audio session.
#[derive(Debug, PartialEq)]
pub struct AudioSession {
    pub pid: u32,
    /// Executable name (e.g. "chrome.exe"). Empty for system sounds (pid 0) or
    /// processes that can't be opened.
    pub process_name: String,
    /// Full path of the executable. Empty where it is not known.
    pub exe_path: String,
    /// Current master volume.
    pub volume: Volume,
    pub muted: bool,
}

/// What an [`AudioSession`] says.
pub struct SessionModel {
    pub pid: u32,
    pub name: Seq<char>,
    pub path: Seq<char>,
    pub volume: Volume,
    pub muted: bool,
}

impl View for AudioSession {
    type V = SessionModel;

    open spec fn view(&self) -> SessionModel {
        SessionModel {
            pid: self.pid,
            name: self.process_name@,
            path: self.exe_path@,
            volume: self.volume,
            muted: self.muted,
        }
    }
}

/// What a list of sessions says.
pub open spec fn sessions_view(sessions: Seq<AudioSession>) -> Seq<SessionModel> {
    sessions.map_values(|s: AudioSession| s@)
}

/// The character separates directories in a path.
pub open spec fn is_separator(c: char) -> bool {
    c == '/' || c == '\\'
}

/// What stands behind the last separator of a path.
pub open spec fn file_name_of(path: Seq<char>) -> Seq<char>
    decreases path.len(),
{
    if path.len() == 0 || is_separator(path.last()) {
        Seq::empty()
    } else {
        file_name_of(path.drop_last()).push(path.last())
    }
}

/// Strip the directory, keep only the file name (e.g. "chrome.exe").
pub fn file_name(path: &str) -> (name: String)
    ensures
        name@ == file_name_of(path@),
{
    let n: usize = path.unicode_len();
    let mut at: usize = n;
    proof {
        assert(path@.take(n as int) =~= path@);
        assert(path@.skip(n as int) =~= Seq::<char>::empty());
        assert(file_name_of(path@) + Seq::<char>::empty() =~= file_name_of(path@));
    }
    while at > 0
        invariant
            at <= n,
            n == path@.len(),
            file_name_of(path@) == file_name_of(path@.take(at as int)) + path@.skip(at as int),
        ensures
            file_name_of(path@) == path@.skip(at as int),
            at <= n,
        decreases at,
    {
        let c = path.get_char(at - 1);
        let ghost front = path@.take(at as int);
        if c == '/' || c == '\\' {
            assert(file_name_of(path@) =~= path@.skip(at as int));
            break;
        }
        proof {
            assert(front.drop_last() =~= path@.take(at - 1));
            assert(file_name_of(front) + path@.skip(at as int) =~= file_name_of(path@.take(at - 1))
                + path@.skip(at - 1));
            if at == 1 {
                assert(file_name_of(path@) =~= path@.skip(0));
            }
        }
        at = at - 1;
    }
    let name = path.substring_char(at, n).to_owned();
    assert(name@ =~= path@.skip(at as int));
    name
}

/// A file name holds no separator, and the path ends with it.
pub proof fn law_file_name(path: Seq<char>)
    ensures
        file_name_of(path).len() <= path.len(),
        file_name_of(path) == path.skip(path.len() - file_name_of(path).len()),
        forall|i: int|
            0 <= i < file_name_of(path).len() ==> !is_separator(#[trigger] file_name_of(path)[i]),
        file_name_of(path).len() < path.len() ==> is_separator(
            path[path.len() - file_name_of(path).len() - 1],
        ),
    decreases path.len(),
{
    if path.len() > 0 && !is_separator(path.last()) {
        let front = path.drop_last();
        law_file_name(front);
        assert(file_name_of(path) =~= path.skip(path.len() - file_name_of(path).len()));
    }
}

/// The name of a process with the given executable, where that is known.
pub open spec fn name_of(pid: u32, path: Option<Seq<char>>) -> Seq<char> {
    if pid == 0 {
        Seq::empty()
    } else {
        match path {
            Some(path) => file_name_of(path),
            None => Seq::empty(),
        }
    }
}

/// The name of a session's process, given the path of its executable where that
/// could be found out. Empty for system sounds (pid 0).
pub fn process_name(pid: u32, exe_path: Option<String>) -> (name: String)
    ensures
        name@ == name_of(
            pid,
            match exe_path {
                Some(path) => Some(path@),
                None => None,
            },
        ),
{
    if pid == 0 {
        String::new()
    } else {
        match exe_path {
            Some(path) => file_name(path.as_str()),
            None => String::new(),
        }
    }
}

/// Index of the first session of a process.
pub open spec fn first_of(pids: Seq<u32>, pid: u32) -> Option<int>
    decreases pids.len(),
{
    if pids.len() == 0 {
        None
    } else if pids[0] == pid {
        Some(0)
    } else {
        match first_of(pids.skip(1), pid) {
            Some(i) => Some(i + 1),
            None => None,
        }
    }
}

/// Find the first session that belongs to `pid`, among sessions of the given
/// processes.
pub fn find_session(pids: &[u32], pid: u32) -> (r: Option<usize>)
    ensures
        match r {
            Some(i) => first_of(pids@, pid) == Some(i as int) && i < pids@.len() && pids@[i as int]
                == pid,
            None => first_of(pids@, pid) is None,
        },
{
    let mut i: usize = 0;
    proof {
        assert(pids@.skip(0) =~= pids@);
    }
    while i < pids.len()
        invariant
            i <= pids@.len(),
            first_of(pids@, pid) == (match first_of(pids@.skip(i as int), pid) {
                Some(k) => Some(k + i),
                None => None,
            }),
        decreases pids@.len() - i,
    {
        assert(pids@.skip(i as int).skip(1) =~= pids@.skip(i + 1));
        if pids[i] == pid {
            return Some(i);
        }
        i = i + 1;
    }
    None
}

/// The first session of a process is found, and none where the process has none.
pub proof fn law_first_session_is_found(pids: Seq<u32>, pid: u32, i: int)
    ensures
        0 <= i < pids.len() && pids[i] == pid && (forall|j: int|
            0 <= j < i ==> #[trigger] pids[j] != pid) ==> first_of(pids, pid) == Some(i),
        (forall|j: int| 0 <= j < pids.len() ==> #[trigger] pids[j] != pid) ==> first_of(
            pids,
            pid,
        ) is None,
    decreases pids.len(),
{
    if pids.len() > 0 {
        let rest = pids.skip(1);
        law_first_session_is_found(rest, pid, i - 1);
        assert(forall|j: int| 0 <= j < rest.len() ==> #[trigger] rest[j] == pids[j + 1]);
        if i > 0 && i < pids.len() {
            assert(rest[i - 1] == pids[i]);
        }
    }
}

/// A process is named by its executable alone, wherever that stands: what comes
/// before the last separator does not matter. System sounds, and processes
/// whose executable is not known, have no name.
pub proof fn law_process_names(pid: u32, dir: Seq<char>, separator: char, file: Seq<char>)
    requires
        separator == '/' || separator == '\\',
        forall|i: int|
            0 <= i < file.len() ==> (#[trigger] file[i]) != '/' && file[i] != '\\',
    ensures
        pid != 0 ==> name_of(pid, Some(dir.push(separator) + file)) == file,
        pid != 0 ==> name_of(pid, Some(file)) == file,
        name_of(0, Some(dir.push(separator) + file)).len() == 0,
        name_of(pid, None).len() == 0,
    decreases file.len(),
{
    let whole = dir.push(separator) + file;
    if file.len() == 0 {
        assert(whole.last() == separator);
        assert(file_name_of(whole) =~= file);
        assert(file_name_of(file) =~= file);
    } else {
        let front = file.drop_last();
        law_process_names(pid, dir, separator, front);
        assert(whole.drop_last() =~= dir.push(separator) + front);
        assert(whole.last() == file.last());
        assert(file[file.len() - 1] == file.last());
        assert(front.push(file.last()) =~= file);
    }
}

} // verus!
