//! The text of Windows paths.
use vstd::prelude::*;

use crate::text;

verus! {

/// The characters that separate the components of a path.
pub open spec fn is_path_separator(c: char) -> bool {
    c == '\\' || c == '/'
}

/// The last component of a path, where it is the name of something. A component
/// that is empty or `.` does not count, and `..` is no name.
pub open spec fn last_component(path: Seq<char>) -> Option<Seq<char>>
    decreases path.len(),
{
    proof {
        lemma_last_piece(path);
    }
    let tail = last_piece(path);
    if tail == ".."@ {
        None
    } else if tail.len() == 0 || tail == "."@ {
        if tail.len() == path.len() {
            None
        } else {
            last_component(path.take(path.len() - tail.len() - 1))
        }
    } else {
        Some(tail)
    }
}

/// What stands behind the last separator of a path.
pub open spec fn last_piece(path: Seq<char>) -> Seq<char>
    decreases path.len(),
{
    if path.len() == 0 || is_path_separator(path.last()) {
        Seq::empty()
    } else {
        last_piece(path.drop_last()).push(path.last())
    }
}

/// The last piece of a path ends it, behind a separator or all of it.
pub proof fn lemma_last_piece(path: Seq<char>)
    ensures
        last_piece(path).len() <= path.len(),
        path.skip(path.len() - last_piece(path).len()) == last_piece(path),
    decreases path.len(),
{
    if path.len() == 0 || is_path_separator(path.last()) {
        assert(path.skip(path.len() as int) =~= Seq::empty());
    } else {
        lemma_last_piece(path.drop_last());
        let n = last_piece(path).len();
        assert(path.skip(path.len() - n) =~= path.drop_last().skip(
            path.drop_last().len() - (n - 1),
        ).push(path.last()));
    }
}

/// Whether a path ends in the name of something.
pub fn has_file_name(path: &Vec<char>) -> (r: bool)
    ensures
        r == (last_component(path@) is Some),
{
    last_name(path).is_some()
}

/// The name of something in which a path ends; see [`last_component`].
pub fn last_name(path: &Vec<char>) -> (r: Option<String>)
    ensures
        r.deep_view() == last_component(path@),
{
    let mut end: usize = path.len();
    assert(path@.take(end as int) =~= path@);
    loop
        invariant
            end <= path@.len(),
            last_component(path@) == last_component(path@.take(end as int)),
        decreases end,
    {
        let ghost rest = path@.take(end as int);
        let mut start: usize = end;
        assert(rest.take(start as int) =~= rest);
        assert(rest.skip(start as int) =~= Seq::empty());
        while start > 0 && path[start - 1] != '\\' && path[start - 1] != '/'
            invariant
                start <= end <= path@.len(),
                rest == path@.take(end as int),
                last_piece(rest) == last_piece(rest.take(start as int)) + rest.skip(start as int),
            decreases start,
        {
            assert(rest.take(start as int).drop_last() =~= rest.take(start - 1));
            assert(rest.skip(start - 1) =~= seq![rest[start - 1]] + rest.skip(start as int));
            assert(last_piece(rest.take(start as int)) + rest.skip(start as int) =~= last_piece(
                rest.take(start - 1),
            ) + rest.skip(start - 1));
            start = start - 1;
        }
        assert(last_piece(rest) =~= rest.skip(start as int));
        let size = end - start;
        proof {
            reveal_strlit("..");
            reveal_strlit(".");
            let tail = last_piece(rest);
            if size == 2 && path@[start as int] == '.' && path@[start + 1] == '.' {
                assert(tail =~= ".."@);
            }
            if size == 1 && path@[start as int] == '.' {
                assert(tail =~= "."@);
            }
            if tail == ".."@ {
                assert(tail[0] == '.' && tail[1] == '.');
            }
            if tail == "."@ {
                assert(tail[0] == '.');
            }
        }
        if size == 2 && path[start] == '.' && path[start + 1] == '.' {
            return None;
        }
        if size == 0 || (size == 1 && path[start] == '.') {
            if start == 0 {
                return None;
            }
            assert(rest.take(rest.len() - last_piece(rest).len() - 1) =~= path@.take(start - 1));
            end = start - 1;
        } else {
            let name = text::from_range(path, start, end);
            assert(name@ =~= last_piece(rest));
            return Some(name);
        }
    }
}

/// Whether a path starts with a drive.
pub open spec fn has_drive(path: Seq<char>) -> bool {
    path.len() >= 2 && text::is_letter(path[0]) && path[1] == ':'
}

/// Decides [`has_drive`].
pub fn starts_with_drive(path: &Vec<char>) -> (r: bool)
    ensures
        r == has_drive(path@),
{
    path.len() >= 2 && text::letter(path[0]) && path[1] == ':'
}

/// Whether a character separates the components of a path. In a verbatim path,
/// only the backslash does.
pub open spec fn separates(c: char, verbatim: bool) -> bool {
    c == '\\' || (!verbatim && c == '/')
}

/// Decides [`separates`].
fn is_separator(c: char, verbatim: bool) -> (r: bool)
    ensures
        r == separates(c, verbatim),
{
    c == '\\' || (!verbatim && c == '/')
}

/// Where the piece of a path that begins at `from` ends.
pub open spec fn piece_end(path: Seq<char>, from: int, verbatim: bool) -> int
    decreases path.len() - from,
{
    if from >= path.len() || separates(path[from], verbatim) {
        from
    } else {
        piece_end(path, from + 1, verbatim)
    }
}

/// Computes [`piece_end`].
fn end_of_piece(path: &Vec<char>, from: usize, verbatim: bool) -> (r: usize)
    requires
        from <= path@.len(),
    ensures
        r == piece_end(path@, from as int, verbatim),
        from <= r <= path@.len(),
{
    let mut i: usize = from;
    while i < path.len() && !is_separator(path[i], verbatim)
        invariant
            from <= i <= path@.len(),
            piece_end(path@, from as int, verbatim) == piece_end(path@, i as int, verbatim),
        decreases path.len() - i,
    {
        i = i + 1;
    }
    i
}

/// Whether a path is verbatim: it begins with `\\?\`.
pub open spec fn is_verbatim(path: Seq<char>) -> bool {
    path.len() >= 4 && path[0] == '\\' && path[1] == '\\' && path[2] == '?' && path[3] == '\\'
}

/// Decides [`is_verbatim`].
fn starts_verbatim(path: &Vec<char>) -> (r: bool)
    ensures
        r == is_verbatim(path@),
{
    path.len() >= 4 && path[0] == '\\' && path[1] == '\\' && path[2] == '?' && path[3] == '\\'
}

/// The end of a server and, where one is named, its share, which begin at `from`.
pub open spec fn share_end(path: Seq<char>, from: int, verbatim: bool) -> int {
    let server = piece_end(path, from, verbatim);
    let share = piece_end(path, server + 1, verbatim);
    if server < path.len() && share > server + 1 {
        share
    } else {
        server
    }
}

/// Computes [`share_end`].
fn end_of_share(path: &Vec<char>, from: usize, verbatim: bool) -> (r: usize)
    requires
        from <= path@.len(),
    ensures
        r == share_end(path@, from as int, verbatim),
        from <= r <= path@.len(),
{
    let server = end_of_piece(path, from, verbatim);
    if server < path.len() {
        let share = end_of_piece(path, server + 1, verbatim);
        if share > server + 1 {
            return share;
        }
    }
    server
}

/// The length of the prefix of a path: a drive, a device, a share, or what a
/// verbatim path has in their place. It is zero where there is none.
pub open spec fn prefix_len(path: Seq<char>) -> int {
    if is_verbatim(path) {
        if path.len() >= 8 && path.subrange(4, 7) == "UNC"@ && is_path_separator(path[7]) {
            share_end(path, 8, true)
        } else if has_drive(path.skip(4)) && (path.len() == 6 || is_path_separator(path[6])) {
            6
        } else {
            piece_end(path, 4, true)
        }
    } else if path.len() >= 2 && is_path_separator(path[0]) && is_path_separator(path[1]) {
        if path.len() >= 4 && path[2] == '.' && is_path_separator(path[3]) {
            piece_end(path, 4, false)
        } else {
            let server = piece_end(path, 2, false);
            let whole = share_end(path, 2, false);
            if server > 2 && whole > server {
                whole
            } else {
                0
            }
        }
    } else if has_drive(path) {
        2
    } else {
        0
    }
}

/// Computes [`prefix_len`].
pub fn prefix_length(path: &Vec<char>) -> (r: usize)
    ensures
        r == prefix_len(path@),
        r <= path@.len(),
{
    let size = path.len();
    if starts_verbatim(path) {
        proof {
            reveal_strlit("UNC");
            if size >= 8 {
                let word = path@.subrange(4, 7);
                assert(word[0] == path@[4] && word[1] == path@[5] && word[2] == path@[6]);
                if path@[4] == 'U' && path@[5] == 'N' && path@[6] == 'C' {
                    assert(word =~= "UNC"@);
                }
            }
        }
        if size >= 8 && path[4] == 'U' && path[5] == 'N' && path[6] == 'C' && !plain(path[7]) {
            return end_of_share(path, 8, true);
        }
        if size >= 6 && text::letter(path[4]) && path[5] == ':' && (size == 6 || !plain(path[6])) {
            return 6;
        }
        return end_of_piece(path, 4, true);
    }
    if size >= 2 && !plain(path[0]) && !plain(path[1]) {
        if size >= 4 && path[2] == '.' && !plain(path[3]) {
            return end_of_piece(path, 4, false);
        }
        let server = end_of_piece(path, 2, false);
        let whole = end_of_share(path, 2, false);
        return if server > 2 && whole > server {
            whole
        } else {
            0
        };
    }
    if starts_with_drive(path) {
        2
    } else {
        0
    }
}

/// Whether a character is no separator.
fn plain(c: char) -> (r: bool)
    ensures
        r == !is_path_separator(c),
{
    c != '\\' && c != '/'
}

/// Whether a separator follows the prefix of a path.
pub open spec fn has_root(path: Seq<char>) -> bool {
    prefix_len(path) < path.len() && is_path_separator(path[prefix_len(path)])
}

/// What follows the prefix and the root of a path.
pub open spec fn inner(path: Seq<char>) -> Seq<char> {
    path.skip(
        prefix_len(path) + if has_root(path) {
            1int
        } else {
            0int
        },
    )
}

/// Computes [`inner`], given the length of the prefix.
fn inner_of(path: &Vec<char>, prefix: usize) -> (r: String)
    requires
        prefix == prefix_len(path@),
        prefix <= path@.len(),
    ensures
        r@ == inner(path@),
{
    let from: usize = if prefix < path.len() && !plain(path[prefix]) {
        prefix + 1
    } else {
        prefix
    };
    let r = text::from_range(path, from, path.len());
    assert(r@ =~= inner(path@));
    r
}

/// The components of a path behind its prefix and its root, with pieces that do
/// not count between them.
pub open spec fn path_pieces(path: Seq<char>) -> Seq<Seq<char>> {
    pieces(inner(path), is_verbatim(path))
}

/// Computes [`path_pieces`].
pub fn pieces_of_path(path: &str) -> (r: Vec<String>)
    ensures
        r.deep_view() == path_pieces(path@),
{
    let chars = text::to_chars(path);
    let prefix = prefix_length(&chars);
    let rest = inner_of(&chars, prefix);
    split_pieces(&rest, starts_verbatim(&chars))
}

/// Whether a piece of a path does not count as a component. In a verbatim path,
/// `.` does count.
pub open spec fn is_void(piece: Seq<char>, verbatim: bool) -> bool {
    piece.len() == 0 || (!verbatim && piece == "."@)
}

/// The last component of pieces, where it is the name of something.
pub open spec fn last_named(all: Seq<Seq<char>>, verbatim: bool) -> Option<Seq<char>>
    decreases all.len(),
{
    if all.len() == 0 {
        None
    } else if is_void(all.last(), verbatim) {
        last_named(all.drop_last(), verbatim)
    } else if all.last() == "."@ || all.last() == ".."@ {
        None
    } else {
        Some(all.last())
    }
}

/// The name of the file that a path leads to.
pub open spec fn file_name_of(path: Seq<char>) -> Option<Seq<char>> {
    last_named(path_pieces(path), is_verbatim(path))
}

/// Computes [`file_name_of`].
pub fn file_name(path: &str) -> (r: Option<String>)
    ensures
        r.deep_view() == file_name_of(path@),
{
    let all = pieces_of_path(path);
    let ghost pieces = all.deep_view();
    let verbatim = starts_verbatim(&text::to_chars(path));
    let mut end: usize = all.len();
    assert(pieces.take(end as int) =~= pieces);
    while end > 0
        invariant
            end <= all@.len(),
            pieces == all.deep_view(),
            pieces == path_pieces(path@),
            verbatim == is_verbatim(path@),
            last_named(pieces, verbatim) == last_named(pieces.take(end as int), verbatim),
        decreases end,
    {
        let ghost here = pieces.take(end as int);
        proof {
            assert(here.last() == all@[end - 1]@);
            assert(here.drop_last() =~= pieces.take(end - 1));
        }
        let piece = &all[end - 1];
        let dot = text::str_eq(piece, ".");
        if piece.as_str().is_empty() || (!verbatim && dot) {
            end = end - 1;
        } else if dot || text::str_eq(piece, "..") {
            return None;
        } else {
            return Some(piece.clone());
        }
    }
    None
}

/// The pieces of a text between its separators.
pub open spec fn pieces(path: Seq<char>, verbatim: bool) -> Seq<Seq<char>>
    decreases path.len(),
{
    if path.len() == 0 {
        seq![Seq::empty()]
    } else if separates(path.last(), verbatim) {
        pieces(path.drop_last(), verbatim).push(Seq::empty())
    } else {
        let before = pieces(path.drop_last(), verbatim);
        before.drop_last().push(before.last().push(path.last()))
    }
}

/// Computes [`pieces`].
pub fn split_pieces(path: &str, verbatim: bool) -> (r: Vec<String>)
    ensures
        r.deep_view() == pieces(path@, verbatim),
        r@.len() > 0,
{
    let chars = text::to_chars(path);
    let mut done: Vec<String> = Vec::new();
    let mut current = String::new();
    let mut i: usize = 0;
    assert(chars@.take(0).len() == 0);
    assert(done.deep_view().push(current@) =~= seq![Seq::<char>::empty()]);
    while i < chars.len()
        invariant
            i <= chars@.len(),
            chars@ == path@,
            pieces(chars@.take(i as int), verbatim) == done.deep_view().push(current@),
        decreases chars.len() - i,
    {
        let ghost before = done.deep_view().push(current@);
        proof {
            assert(chars@.take(i + 1).drop_last() =~= chars@.take(i as int));
            assert(before.drop_last() =~= done.deep_view());
        }
        let c = chars[i];
        if is_separator(c, verbatim) {
            done.push(current);
            current = String::new();
            assert(done.deep_view() =~= before);
            assert(current@ =~= Seq::empty());
        } else {
            current.push(c);
        }
        i = i + 1;
    }
    assert(chars@.take(i as int) =~= chars@);
    let ghost before = done.deep_view().push(current@);
    done.push(current);
    assert(done.deep_view() =~= before);
    done
}

/// The only component of a path, where it has one that is a name and no other.
pub open spec fn lone_name(path: Seq<char>) -> Option<Seq<char>> {
    let all = pieces(path, false);
    if all[0].len() > 0 && all[0] != "."@ && all[0] != ".."@ && !has_drive(all[0]) && forall|i: int|
        1 <= i < all.len() ==> is_idle(#[trigger] all[i]) {
        Some(all[0])
    } else {
        None
    }
}

/// Whether a piece of a path leads nowhere else.
pub open spec fn is_idle(piece: Seq<char>) -> bool {
    piece.len() == 0 || piece == "."@
}

/// Whether a path is a single name.
pub fn is_lone_name(path: &str) -> (r: bool)
    ensures
        r == (lone_name(path@) is Some),
{
    let all = split_pieces(path, false);
    assert(all.deep_view()[0] == all@[0]@);
    if all[0].as_str().is_empty() || text::str_eq(&all[0], ".") || text::str_eq(&all[0], "..")
        || starts_with_drive(&text::to_chars(&all[0])) {
        return false;
    }
    let mut i: usize = 1;
    while i < all.len()
        invariant
            1 <= i <= all@.len(),
            all.deep_view() == pieces(path@, false),
            forall|j: int| 1 <= j < i ==> is_idle(#[trigger] pieces(path@, false)[j]),
        decreases all.len() - i,
    {
        assert(all.deep_view()[i as int] == all@[i as int]@);
        if !all[i].as_str().is_empty() && !text::str_eq(&all[i], ".") {
            assert(!is_idle(pieces(path@, false)[i as int]));
            return false;
        }
        i = i + 1;
    }
    true
}

/// Pieces behind one another, with separators between them.
pub open spec fn with_separators(names: Seq<Seq<char>>) -> Seq<char>
    decreases names.len(),
{
    if names.len() == 0 {
        Seq::empty()
    } else {
        with_separators(names.drop_last()) + seq!['\\'] + names.last()
    }
}

/// Components after one more piece: one that does not count changes nothing, and
/// `..` takes back the last name.
pub open spec fn walked(names: Seq<Seq<char>>, piece: Seq<char>) -> Seq<Seq<char>> {
    if is_void(piece, false) {
        names
    } else if piece == ".."@ {
        if names.len() > 0 && names.last() != "."@ && names.last() != ".."@ {
            names.drop_last()
        } else {
            names
        }
    } else {
        names.push(piece)
    }
}

/// Components after some more pieces.
pub open spec fn walked_all(names: Seq<Seq<char>>, more: Seq<Seq<char>>) -> Seq<Seq<char>>
    decreases more.len(),
{
    if more.len() == 0 {
        names
    } else {
        walked(walked_all(names, more.drop_last()), more.last())
    }
}

/// The pieces that are not empty, in order.
pub open spec fn filled(all: Seq<Seq<char>>) -> Seq<Seq<char>>
    decreases all.len(),
{
    if all.len() == 0 {
        Seq::empty()
    } else if all.last().len() == 0 {
        filled(all.drop_last())
    } else {
        filled(all.drop_last()).push(all.last())
    }
}

/// Whether a path begins with a separator.
pub open spec fn is_rooted(path: Seq<char>) -> bool {
    path.len() > 0 && is_path_separator(path[0])
}

/// A path behind a verbatim directory, which is resolved as it is put there.
pub open spec fn verbatim_joined(directory: Seq<char>, path: Seq<char>) -> Seq<char> {
    let prefix = directory.take(prefix_len(directory));
    let start = if is_rooted(path) {
        Seq::empty()
    } else {
        filled(path_pieces(directory))
    };
    let names = walked_all(start, pieces(path, false));
    if names.len() > 0 {
        prefix + with_separators(names)
    } else if is_rooted(path) || has_root(directory) {
        prefix.push('\\')
    } else {
        prefix
    }
}

/// A path, seen from a directory. One with a prefix of its own stands for itself,
/// and one that begins with a separator begins at the root of the directory.
pub open spec fn path_joined(directory: Seq<char>, path: Seq<char>) -> Seq<char> {
    if prefix_len(path) > 0 {
        path
    } else if is_verbatim(directory) && path.len() > 0 {
        verbatim_joined(directory, path)
    } else if is_rooted(path) {
        directory.take(prefix_len(directory)) + path
    } else if directory.len() == 0 || is_path_separator(directory.last()) || (directory.len() == 2
        && has_drive(directory)) {
        directory + path
    } else {
        directory.push('\\') + path
    }
}

/// Computes [`with_separators`] behind a prefix.
fn put_behind(prefix: String, names: &Vec<String>) -> (r: String)
    ensures
        r@ == prefix@ + with_separators(names.deep_view()),
{
    let ghost all = names.deep_view();
    let mut out = prefix;
    let mut i: usize = 0;
    assert(all.take(0).len() == 0);
    assert(out@ =~= prefix@ + with_separators(all.take(0)));
    while i < names.len()
        invariant
            i <= names@.len(),
            all == names.deep_view(),
            out@ == prefix@ + with_separators(all.take(i as int)),
        decreases names.len() - i,
    {
        proof {
            assert(all.take(i + 1).drop_last() =~= all.take(i as int));
            assert(all.take(i + 1).last() == names@[i as int]@);
        }
        let ghost before = out@;
        out.push('\\');
        out.append(&names[i]);
        assert(out@ =~= before + (seq!['\\'] + names@[i as int]@));
        assert(out@ =~= prefix@ + with_separators(all.take(i + 1)));
        i = i + 1;
    }
    assert(all.take(i as int) =~= all);
    out
}

/// Computes [`filled`].
fn keep_filled(all: &Vec<String>) -> (r: Vec<String>)
    ensures
        r.deep_view() == filled(all.deep_view()),
{
    let ghost pieces = all.deep_view();
    let mut out: Vec<String> = Vec::new();
    let mut i: usize = 0;
    assert(pieces.take(0).len() == 0);
    assert(out.deep_view() =~= Seq::empty());
    while i < all.len()
        invariant
            i <= all@.len(),
            pieces == all.deep_view(),
            out.deep_view() == filled(pieces.take(i as int)),
        decreases all.len() - i,
    {
        let ghost before = out.deep_view();
        proof {
            assert(pieces.take(i + 1).drop_last() =~= pieces.take(i as int));
            assert(pieces.take(i + 1).last() == all@[i as int]@);
        }
        if !all[i].as_str().is_empty() {
            out.push(all[i].clone());
            assert(out.deep_view() =~= before.push(all@[i as int]@));
        }
        i = i + 1;
    }
    assert(pieces.take(i as int) =~= pieces);
    out
}

/// Computes [`walked_all`].
fn walk(names: Vec<String>, more: &Vec<String>) -> (r: Vec<String>)
    ensures
        r.deep_view() == walked_all(names.deep_view(), more.deep_view()),
{
    let ghost start = names.deep_view();
    let ghost pieces = more.deep_view();
    let mut out = names;
    let mut i: usize = 0;
    assert(pieces.take(0).len() == 0);
    while i < more.len()
        invariant
            i <= more@.len(),
            pieces == more.deep_view(),
            out.deep_view() == walked_all(start, pieces.take(i as int)),
        decreases more.len() - i,
    {
        let ghost before = out.deep_view();
        proof {
            assert(pieces.take(i + 1).drop_last() =~= pieces.take(i as int));
            assert(pieces.take(i + 1).last() == more@[i as int]@);
        }
        let piece = &more[i];
        if piece.as_str().is_empty() || text::str_eq(piece, ".") {
        } else if text::str_eq(piece, "..") {
            let count = out.len();
            if count > 0 {
                assert(before.last() == out@[count - 1]@);
                if !text::str_eq(&out[count - 1], ".") && !text::str_eq(&out[count - 1], "..") {
                    let _ = out.pop();
                    assert(out.deep_view() =~= before.drop_last());
                }
            }
        } else {
            out.push(piece.clone());
            assert(out.deep_view() =~= before.push(piece@));
        }
        i = i + 1;
    }
    assert(pieces.take(i as int) =~= pieces);
    out
}

/// Computes [`path_joined`].
pub fn join_path(directory: &str, path: &str) -> (r: String)
    ensures
        r@ == path_joined(directory@, path@),
{
    let chars = text::to_chars(directory);
    let own = text::to_chars(path);
    if prefix_length(&own) > 0 {
        return path.to_owned();
    }
    let size: usize = chars.len();
    let prefix_size = prefix_length(&chars);
    let rooted = own.len() > 0 && !plain(own[0]);
    if starts_verbatim(&chars) && own.len() > 0 {
        let mut prefix = text::from_range(&chars, 0, prefix_size);
        assert(prefix@ =~= directory@.take(prefix_len(directory@)));
        let start: Vec<String> = if rooted {
            Vec::new()
        } else {
            keep_filled(&pieces_of_path(directory))
        };
        assert(rooted ==> start.deep_view() =~= Seq::empty());
        let names = walk(start, &split_pieces(path, false));
        if names.len() > 0 {
            return put_behind(prefix, &names);
        }
        if rooted || (prefix_size < size && !plain(chars[prefix_size])) {
            prefix.push('\\');
        }
        return prefix;
    }
    if rooted {
        let mut out = text::from_range(&chars, 0, prefix_size);
        assert(out@ =~= directory@.take(prefix_len(directory@)));
        out.append(path);
        return out;
    }
    let mut out = directory.to_owned();
    if size == 0 || !plain(chars[size - 1]) || (size == 2 && starts_with_drive(&chars)) {
        out.append(path);
    } else {
        out.push('\\');
        out.append(path);
    }
    out
}

} // verus!
