//! Unix path semantics on text (as std's `Path` has them on macOS), and the
//! paths the dock builds from them.
use vstd::prelude::*;

use crate::text::{
    chars_equal, chars_of, copy_range, push_char, split_chars, split_text, string_from_chars, texts_of,
};

verus! {

/// A segment that `Path::components` keeps as a component of its own: not
/// empty (repeated or trailing separators) and not `.` (normalised away).
pub open spec fn is_kept_segment(segment: Seq<char>) -> bool {
    segment.len() > 0 && segment != seq!['.']
}

/// The segments of `path` between separators that name a directory or file
/// (`Normal` or `ParentDir` components).
pub open spec fn named_segments(path: Seq<char>) -> Seq<Seq<char>> {
    split_text(path, '/').filter(|segment: Seq<char>| is_kept_segment(segment))
}

/// `path` begins at the root.
pub open spec fn is_absolute_path(path: Seq<char>) -> bool {
    path.len() > 0 && path[0] == '/'
}

/// `path` begins with a current-directory component: it is `.` or starts with `./`.
pub open spec fn starts_at_current_dir(path: Seq<char>) -> bool {
    path == seq!['.'] || (path.len() >= 2 && path[0] == '.' && path[1] == '/')
}

/// The components of `path` as `Path::components` yields them on Unix, each
/// written as text: the root as `/`, a leading current directory as `.`,
/// then the named segments.
pub open spec fn path_components(path: Seq<char>) -> Seq<Seq<char>> {
    (if is_absolute_path(path) {
        seq![seq!['/']]
    } else {
        Seq::<Seq<char>>::empty()
    }) + (if starts_at_current_dir(path) {
        seq![seq!['.']]
    } else {
        Seq::<Seq<char>>::empty()
    }) + named_segments(path)
}

/// `Path::starts_with`: the components of `base` begin the components of `path`.
pub open spec fn path_has_prefix(path: Seq<char>, base: Seq<char>) -> bool {
    let pc = path_components(path);
    let bc = path_components(base);
    bc.len() <= pc.len() && pc.take(bc.len() as int) == bc
}

/// `Path::join` on Unix: an absolute `part` replaces `base`; otherwise `part`
/// is appended, with a separator unless `base` is empty or already ends in one.
pub open spec fn path_join(base: Seq<char>, part: Seq<char>) -> Seq<char> {
    if is_absolute_path(part) {
        part
    } else if base.len() > 0 && base.last() != '/' {
        base + seq!['/'] + part
    } else {
        base + part
    }
}

/// `Path::file_name`: the last component, when it names a file or directory.
pub open spec fn path_file_name(path: Seq<char>) -> Option<Seq<char>> {
    let segments = named_segments(path);
    if segments.len() == 0 || segments.last() == seq!['.', '.'] {
        None
    } else {
        Some(segments.last())
    }
}

/// Index of the last `c` in `text`, or -1.
pub open spec fn last_index_of(text: Seq<char>, c: char) -> int
    decreases text.len(),
{
    if text.len() == 0 {
        -1
    } else if text.last() == c {
        text.len() - 1
    } else {
        last_index_of(text.drop_last(), c)
    }
}

/// The stem of a file name: the part before its last `.`, unless the name has
/// no `.` after its first character.
pub open spec fn name_stem(name: Seq<char>) -> Seq<char> {
    let k = last_index_of(name, '.');
    if k <= 0 {
        name
    } else {
        name.take(k)
    }
}

/// The extension of a file name: the part after its last `.`, if that `.` is
/// not its first character.
pub open spec fn name_extension(name: Seq<char>) -> Option<Seq<char>> {
    let k = last_index_of(name, '.');
    if k <= 0 {
        None
    } else {
        Some(name.skip(k + 1))
    }
}

/// `Path::file_stem`.
pub open spec fn path_file_stem(path: Seq<char>) -> Option<Seq<char>> {
    match path_file_name(path) {
        Some(name) => Some(name_stem(name)),
        None => None,
    }
}

/// `Path::extension`.
pub open spec fn path_extension(path: Seq<char>) -> Option<Seq<char>> {
    match path_file_name(path) {
        Some(name) => name_extension(name),
        None => None,
    }
}

proof fn lemma_last_index_of_bounds(text: Seq<char>, c: char)
    ensures
        -1 <= last_index_of(text, c) < text.len(),
        last_index_of(text, c) >= 0 ==> text[last_index_of(text, c)] == c,
    decreases text.len(),
{
    if text.len() > 0 && text.last() != c {
        lemma_last_index_of_bounds(text.drop_last(), c);
    }
}

/// The segments of `chars` that `Path::components` keeps as named components.
fn named_segments_of(chars: &Vec<char>) -> (r: Vec<Vec<char>>)
    ensures
        texts_of(r@) == named_segments(chars@),
{
    let pieces = split_chars(chars, '/');
    let ghost all = texts_of(pieces@);
    let dot = vec!['.'];
    let mut r: Vec<Vec<char>> = Vec::new();
    let n = pieces.len();
    let mut i: usize = 0;
    assert(all.take(0).filter(|segment: Seq<char>| is_kept_segment(segment)) =~= Seq::<
        Seq<char>,
    >::empty()) by {
        reveal(Seq::filter);
    }
    while i < n
        invariant
            n == pieces@.len(),
            all == texts_of(pieces@),
            dot@ == seq!['.'],
            i <= n,
            texts_of(r@) == all.take(i as int).filter(|segment: Seq<char>| is_kept_segment(segment)),
        decreases n - i,
    {
        let keep = pieces[i].len() > 0 && !chars_equal(&pieces[i], &dot);
        proof {
            reveal(Seq::filter);
            assert(all.take(i + 1).drop_last() =~= all.take(i as int));
            assert(all.take(i + 1).last() == pieces@[i as int]@);
        }
        if keep {
            r.push(copy_range(&pieces[i], 0, pieces[i].len()));
            assert(pieces@[i as int]@.subrange(0, pieces@[i as int]@.len() as int)
                =~= pieces@[i as int]@);
            assert(texts_of(r@) =~= all.take(i + 1).filter(
                |segment: Seq<char>| is_kept_segment(segment),
            ));
        } else {
            assert(texts_of(r@) =~= all.take(i + 1).filter(
                |segment: Seq<char>| is_kept_segment(segment),
            ));
        }
        i += 1;
    }
    assert(all.take(n as int) =~= all);
    r
}

/// The components of `path`, each written as text (see `path_components`).
pub fn components_of(path: &str) -> (r: Vec<Vec<char>>)
    ensures
        texts_of(r@) == path_components(path@),
{
    let chars = chars_of(path);
    let n = chars.len();
    let mut r: Vec<Vec<char>> = Vec::new();
    let absolute = n > 0 && chars[0] == '/';
    let current = (n == 1 && chars[0] == '.') || (n >= 2 && chars[0] == '.' && chars[1] == '/');
    proof {
        if n == 1 && chars@[0] == '.' {
            assert(chars@ =~= seq!['.']);
        }
    }
    assert(current == starts_at_current_dir(path@));
    assert(absolute == is_absolute_path(path@));
    let ghost root_part = if absolute {
        seq![seq!['/']]
    } else {
        Seq::<Seq<char>>::empty()
    };
    let ghost cur_part = if current {
        seq![seq!['.']]
    } else {
        Seq::<Seq<char>>::empty()
    };
    if absolute {
        let mut root: Vec<char> = Vec::new();
        root.push('/');
        r.push(root);
    }
    assert(texts_of(r@) =~= root_part);
    if current {
        let mut dot: Vec<char> = Vec::new();
        dot.push('.');
        r.push(dot);
    }
    let ghost head = texts_of(r@);
    assert(head =~= root_part + cur_part);
    let segments = named_segments_of(&chars);
    let m = segments.len();
    let mut i: usize = 0;
    while i < m
        invariant
            m == segments@.len(),
            i <= m,
            texts_of(r@) == head + texts_of(segments@).take(i as int),
        decreases m - i,
    {
        let piece = copy_range(&segments[i], 0, segments[i].len());
        assert(piece@ =~= segments@[i as int]@);
        let ghost before = texts_of(r@);
        r.push(piece);
        assert(texts_of(r@) =~= before.push(piece@));
        assert(texts_of(segments@).take(i + 1) =~= texts_of(segments@).take(i as int).push(
            segments@[i as int]@,
        ));
        assert(texts_of(r@) =~= head + texts_of(segments@).take(i + 1));
        i += 1;
    }
    assert(texts_of(segments@).take(m as int) =~= texts_of(segments@));
    r
}

/// `Path::starts_with`: whether the components of `base` begin those of `path`.
pub fn path_starts_with(path: &str, base: &str) -> (r: bool)
    ensures
        r == path_has_prefix(path@, base@),
{
    let pc = components_of(path);
    let bc = components_of(base);
    assert(texts_of(pc@).len() == pc@.len());
    assert(texts_of(bc@).len() == bc@.len());
    if bc.len() > pc.len() {
        return false;
    }
    let n = bc.len();
    let mut i: usize = 0;
    while i < n
        invariant
            n == bc@.len(),
            n <= pc@.len(),
            texts_of(pc@) == path_components(path@),
            texts_of(bc@) == path_components(base@),
            i <= n,
            forall|k: int| 0 <= k < i ==> pc@[k]@ == bc@[k]@,
        decreases n - i,
    {
        if !chars_equal(&pc[i], &bc[i]) {
            assert(texts_of(pc@).take(n as int)[i as int] == pc@[i as int]@);
            assert(texts_of(bc@)[i as int] == bc@[i as int]@);
            assert(texts_of(pc@).take(n as int)[i as int] != texts_of(bc@)[i as int]);
            return false;
        }
        i += 1;
    }
    assert(texts_of(pc@).take(n as int) =~= texts_of(bc@));
    true
}

/// `Path::eq`: whether two paths have the same components.
pub fn same_path(a: &str, b: &str) -> (r: bool)
    ensures
        r == (path_components(a@) == path_components(b@)),
{
    let ac = components_of(a);
    let bc = components_of(b);
    assert(texts_of(ac@).len() == ac@.len());
    assert(texts_of(bc@).len() == bc@.len());
    if ac.len() != bc.len() {
        return false;
    }
    let n = ac.len();
    let mut i: usize = 0;
    while i < n
        invariant
            n == ac@.len(),
            n == bc@.len(),
            texts_of(ac@) == path_components(a@),
            texts_of(bc@) == path_components(b@),
            i <= n,
            forall|k: int| 0 <= k < i ==> ac@[k]@ == bc@[k]@,
        decreases n - i,
    {
        if !chars_equal(&ac[i], &bc[i]) {
            assert(texts_of(ac@)[i as int] == ac@[i as int]@);
            assert(texts_of(bc@)[i as int] == bc@[i as int]@);
            assert(texts_of(ac@)[i as int] != texts_of(bc@)[i as int]);
            return false;
        }
        i += 1;
    }
    assert(texts_of(ac@) =~= texts_of(bc@));
    true
}

/// `Path::join`: `part` appended to `base` (see `path_join`).
pub fn join_path(base: &str, part: &str) -> (r: String)
    ensures
        r@ == path_join(base@, part@),
{
    let part_chars = chars_of(part);
    if part_chars.len() > 0 && part_chars[0] == '/' {
        return part.to_owned();
    }
    let base_chars = chars_of(base);
    let mut r = base.to_owned();
    if base_chars.len() > 0 && base_chars[base_chars.len() - 1] != '/' {
        push_char(&mut r, '/');
    }
    r.append(part);
    r
}

/// `Path::file_name`.
pub fn file_name_of(path: &str) -> (r: Option<Vec<char>>)
    ensures
        match r {
            Some(name) => path_file_name(path@) == Some(name@),
            None => path_file_name(path@) is None,
        },
{
    let chars = chars_of(path);
    let mut segments = named_segments_of(&chars);
    let n = segments.len();
    if n == 0 {
        return None;
    }
    let last = segments.pop().unwrap();
    assert(last@ == texts_of(segments@.push(last)).last());
    if chars_equal(&last, &vec!['.', '.']) {
        return None;
    }
    Some(last)
}

/// Index of the last `c` in `chars`.
fn last_index_in(chars: &Vec<char>, c: char) -> (r: Option<usize>)
    ensures
        match r {
            Some(k) => last_index_of(chars@, c) == k,
            None => last_index_of(chars@, c) == -1,
        },
{
    let mut j = chars.len();
    assert(chars@.take(j as int) =~= chars@);
    while j > 0
        invariant
            j <= chars@.len(),
            last_index_of(chars@, c) == last_index_of(chars@.take(j as int), c),
        decreases j,
    {
        assert(chars@.take(j as int).last() == chars@[j - 1]);
        if chars[j - 1] == c {
            return Some(j - 1);
        }
        assert(chars@.take(j as int).drop_last() =~= chars@.take(j - 1));
        j -= 1;
    }
    None
}

/// `Path::file_stem`, as text.
pub fn file_stem_of(path: &str) -> (r: Option<String>)
    ensures
        match r {
            Some(stem) => path_file_stem(path@) == Some(stem@),
            None => path_file_stem(path@) is None,
        },
{
    match file_name_of(path) {
        None => None,
        Some(name) => {
            proof {
                lemma_last_index_of_bounds(name@, '.');
            }
            match last_index_in(&name, '.') {
                Some(k) => {
                    if k == 0 {
                        Some(string_from_chars(&name))
                    } else {
                        let stem = copy_range(&name, 0, k);
                        assert(stem@ =~= name@.take(k as int));
                        Some(string_from_chars(&stem))
                    }
                },
                None => Some(string_from_chars(&name)),
            }
        },
    }
}

/// `Path::extension`, as text.
pub fn extension_of(path: &str) -> (r: Option<String>)
    ensures
        match r {
            Some(ext) => path_extension(path@) == Some(ext@),
            None => path_extension(path@) is None,
        },
{
    match file_name_of(path) {
        None => None,
        Some(name) => {
            proof {
                lemma_last_index_of_bounds(name@, '.');
            }
            match last_index_in(&name, '.') {
                Some(k) => {
                    if k == 0 {
                        None
                    } else {
                        assert(k < name.len());
                        let ext = copy_range(&name, k + 1, name.len());
                        assert(ext@ =~= name@.skip(k + 1));
                        Some(string_from_chars(&ext))
                    }
                },
                None => None,
            }
        },
    }
}

} // verus!
