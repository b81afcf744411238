//! What is known of a process: its directory, its name, and which process is in
//! the foreground of a terminal.
use vstd::prelude::*;

use crate::text;

verus! {

/// The process in the foreground of a terminal, given its process group.
pub fn foreground_pid(group: Option<i32>) -> (r: Option<u32>)
    ensures
        match group {
            Some(pgrp) => if pgrp >= 0 {
                r == Some(pgrp as u32)
            } else {
                r is None
            },
            None => r is None,
        },
{
    match group {
        Some(pgrp) => if pgrp >= 0 {
            Some(pgrp as u32)
        } else {
            None
        },
        None => None,
    }
}

/// The directory of a process, given the bytes of the path that the system
/// shows for it.
pub fn current_path(link: Option<Vec<u8>>) -> (r: Option<String>)
    ensures
        r.deep_view() == match link {
            Some(bytes) => Some(text::rendered(bytes@)),
            None => None,
        },
{
    match link {
        Some(bytes) => Some(text::render(&bytes)),
        None => None,
    }
}

/// What stands behind the last `/` of a path.
pub open spec fn last_segment(path: Seq<char>) -> Seq<char>
    decreases path.len(),
{
    if path.len() == 0 || path.last() == '/' {
        Seq::empty()
    } else {
        last_segment(path.drop_last()).push(path.last())
    }
}

/// The last segment of a path is no longer than the path.
pub proof fn lemma_last_segment(path: Seq<char>)
    ensures
        last_segment(path).len() <= path.len(),
    decreases path.len(),
{
    if path.len() > 0 && path.last() != '/' {
        lemma_last_segment(path.drop_last());
    }
}

/// The last segment of a path that names something. One that is empty or `.`
/// does not count, and `..` is no name.
pub open spec fn file_name(path: Seq<char>) -> Option<Seq<char>>
    decreases path.len(),
{
    proof {
        lemma_last_segment(path);
    }
    let tail = last_segment(path);
    if tail == ".."@ {
        None
    } else if tail.len() == 0 || tail == "."@ {
        if tail.len() == path.len() {
            None
        } else {
            file_name(path.take(path.len() - tail.len() - 1))
        }
    } else {
        Some(tail)
    }
}

/// A text without the dashes in front of it.
pub open spec fn without_dashes(s: Seq<char>) -> Seq<char>
    decreases s.len(),
{
    if s.len() > 0 && s[0] == '-' {
        without_dashes(s.skip(1))
    } else {
        s
    }
}

/// The name of a program, given its path: the file name without the dashes that
/// mark a login shell.
pub open spec fn program_name(path: Seq<char>) -> Option<Seq<char>> {
    match file_name(path) {
        Some(name) => {
            let plain = without_dashes(name);
            if plain.len() > 0 {
                Some(plain)
            } else {
                None
            }
        },
        None => None,
    }
}

/// Computes [`file_name`].
fn file_name_of(path: &Vec<char>) -> (r: Option<Vec<char>>)
    ensures
        match r {
            Some(name) => file_name(path@) == Some(name@),
            None => file_name(path@) is None,
        },
{
    let mut end: usize = path.len();
    assert(path@.take(end as int) =~= path@);
    loop
        invariant
            end <= path@.len(),
            file_name(path@) == file_name(path@.take(end as int)),
        decreases end,
    {
        let ghost rest = path@.take(end as int);
        let mut start: usize = end;
        let mut tail: Vec<char> = Vec::new();
        assert(rest.take(start as int) =~= rest);
        assert(rest.skip(start as int) =~= Seq::empty());
        while start > 0 && path[start - 1] != '/'
            invariant
                start <= end <= path@.len(),
                rest == path@.take(end as int),
                last_segment(rest) == last_segment(rest.take(start as int)) + rest.skip(
                    start as int,
                ),
            decreases start,
        {
            assert(rest.take(start as int).drop_last() =~= rest.take(start - 1));
            assert(last_segment(rest.take(start as int)) + rest.skip(start as int)
                =~= last_segment(rest.take(start - 1)) + rest.skip(start - 1));
            start = start - 1;
        }
        assert(last_segment(rest) =~= rest.skip(start as int));
        let mut i: usize = start;
        while i < end
            invariant
                start <= i <= end <= path@.len(),
                tail@ =~= path@.subrange(start as int, i as int),
            decreases end - i,
        {
            tail.push(path[i]);
            i = i + 1;
        }
        assert(tail@ =~= rest.skip(start as int));
        proof {
            reveal_strlit("..");
            reveal_strlit(".");
            if tail@.len() == 2 && tail@[0] == '.' && tail@[1] == '.' {
                assert(tail@ =~= ".."@);
            }
            if tail@.len() == 1 && tail@[0] == '.' {
                assert(tail@ =~= "."@);
            }
            if tail@ == ".."@ {
                assert(tail@[0] == '.' && tail@[1] == '.');
            }
            if tail@ == "."@ {
                assert(tail@[0] == '.');
            }
        }
        if tail.len() == 2 && tail[0] == '.' && tail[1] == '.' {
            return None;
        }
        if tail.len() == 0 || (tail.len() == 1 && tail[0] == '.') {
            if start == 0 {
                return None;
            }
            assert(rest.take(rest.len() - last_segment(rest).len() - 1) =~= path@.take(start - 1));
            end = start - 1;
        } else {
            return Some(tail);
        }
    }
}

/// Computes [`program_name`].
pub fn executable_name(path: &str) -> (r: Option<String>)
    ensures
        r.deep_view() == program_name(path@),
{
    let chars = text::to_chars(path);
    let name = match file_name_of(&chars) {
        Some(name) => name,
        None => {
            return None;
        },
    };
    let mut i: usize = 0;
    assert(name@.skip(0) =~= name@);
    while i < name.len() && name[i] == '-'
        invariant
            i <= name@.len(),
            without_dashes(name@) == without_dashes(name@.skip(i as int)),
        decreases name.len() - i,
    {
        assert(name@.skip(i as int).skip(1) =~= name@.skip(i + 1));
        i = i + 1;
    }
    if i == name.len() {
        return None;
    }
    let plain = text::from_range(&name, i, name.len());
    assert(plain@ =~= name@.skip(i as int));
    Some(plain)
}

/// The first piece of a command line that has bytes. A zero byte ends each.
pub open spec fn first_word(cmdline: Seq<u8>) -> Option<Seq<u8>>
    decreases cmdline.len(),
{
    if cmdline.len() == 0 {
        None
    } else if cmdline[0] == 0 {
        first_word(cmdline.skip(1))
    } else {
        Some(until_zero(cmdline))
    }
}

/// The bytes up to the first zero.
pub open spec fn until_zero(bytes: Seq<u8>) -> Seq<u8>
    decreases bytes.len(),
{
    if bytes.len() == 0 || bytes[0] == 0 {
        Seq::empty()
    } else {
        seq![bytes[0]] + until_zero(bytes.skip(1))
    }
}

/// The name of a program, given the bytes of its command line.
pub open spec fn name_from_cmdline(cmdline: Seq<u8>) -> Option<Seq<char>> {
    match first_word(cmdline) {
        Some(word) => match text::decoded(word) {
            Some(path) => program_name(path),
            None => None,
        },
        None => None,
    }
}

/// Computes [`name_from_cmdline`].
fn command_name_from_cmdline(cmdline: &Vec<u8>) -> (r: Option<String>)
    ensures
        r.deep_view() == name_from_cmdline(cmdline@),
{
    let mut start: usize = 0;
    assert(cmdline@.skip(0) =~= cmdline@);
    while start < cmdline.len() && cmdline[start] == 0
        invariant
            start <= cmdline@.len(),
            first_word(cmdline@) == first_word(cmdline@.skip(start as int)),
        decreases cmdline.len() - start,
    {
        assert(cmdline@.skip(start as int).skip(1) =~= cmdline@.skip(start + 1));
        start = start + 1;
    }
    if start == cmdline.len() {
        return None;
    }
    let mut word: Vec<u8> = Vec::new();
    let mut i: usize = start;
    let ghost rest = cmdline@.skip(start as int);
    assert(word@ + until_zero(rest) =~= until_zero(rest));
    while i < cmdline.len() && cmdline[i] != 0
        invariant
            start <= i <= cmdline@.len(),
            until_zero(rest) == word@ + until_zero(cmdline@.skip(i as int)),
        decreases cmdline.len() - i,
    {
        let ghost here = cmdline@.skip(i as int);
        assert(here.skip(1) =~= cmdline@.skip(i + 1));
        assert(word@ + until_zero(here) =~= word@.push(cmdline@[i as int]) + until_zero(
            cmdline@.skip(i + 1),
        ));
        word.push(cmdline[i]);
        i = i + 1;
    }
    assert(until_zero(cmdline@.skip(i as int)) =~= Seq::empty());
    assert(word@ =~= until_zero(rest));
    match text::from_utf8(word) {
        Some(path) => executable_name(&path),
        None => None,
    }
}

/// The name of the program of a process, given its command line and its short
/// name: the command line counts first.
pub fn command_name(cmdline: Option<Vec<u8>>, comm: Option<String>) -> (r: Option<String>)
    ensures
        r.deep_view() == {
            let first = match cmdline {
                Some(bytes) => name_from_cmdline(bytes@),
                None => None,
            };
            if first is Some {
                first
            } else {
                match comm {
                    Some(name) => program_name(text::trimmed(name@)),
                    None => None,
                }
            }
        },
{
    if let Some(bytes) = cmdline {
        let name = command_name_from_cmdline(&bytes);
        if name.is_some() {
            return name;
        }
    }
    match comm {
        Some(name) => {
            let plain = text::trim(&name);
            executable_name(&plain)
        },
        None => None,
    }
}

} // verus!
