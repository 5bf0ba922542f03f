//! Unix paths as byte strings, compared without touching the filesystem.
//!
//! A path is a list of parts between slashes; empty parts and `.` say nothing.
//! A journal may not exist yet, so two journal paths are told apart by their
//! normal forms alone.
use crate::encoding::{copy_range, same_bytes};
use vstd::prelude::*;

verus! {

pub const SLASH: u8 = 0x2f;

pub const DOT: u8 = 0x2e;

/// `.`.
pub open spec fn here() -> Seq<u8> {
    seq![DOT]
}

/// `..`.
pub open spec fn up() -> Seq<u8> {
    seq![DOT, DOT]
}

/// A part that says something.
pub open spec fn telling(part: Seq<u8>) -> bool {
    part.len() > 0 && part != here()
}

/// Parts, and the part that is being read.
pub open spec fn flushed(done: Seq<Seq<u8>>, part: Seq<u8>) -> Seq<Seq<u8>> {
    if telling(part) {
        done.push(part)
    } else {
        done
    }
}

/// The parts that were read to their end, and the one that was not.
pub open spec fn scanned(path: Seq<u8>) -> (Seq<Seq<u8>>, Seq<u8>)
    decreases path.len(),
{
    if path.len() == 0 {
        (Seq::empty(), Seq::empty())
    } else {
        let (done, part) = scanned(path.drop_last());
        if path.last() == SLASH {
            (flushed(done, part), Seq::empty())
        } else {
            (done, part.push(path.last()))
        }
    }
}

/// The parts of a path.
pub open spec fn parts_of(path: Seq<u8>) -> Seq<Seq<u8>> {
    let (done, part) = scanned(path);
    flushed(done, part)
}

/// Whether a path starts at the root.
pub open spec fn rooted(path: Seq<u8>) -> bool {
    path.len() > 0 && path[0] == SLASH
}

/// What is left of parts when each `..` takes back the part before it. At the
/// root there is nothing to take back; elsewhere the `..` stays.
pub open spec fn resolved(parts: Seq<Seq<u8>>, from_root: bool) -> Seq<Seq<u8>>
    decreases parts.len(),
{
    if parts.len() == 0 {
        Seq::empty()
    } else {
        let done = resolved(parts.drop_last(), from_root);
        if parts.last() != up() {
            done.push(parts.last())
        } else if done.len() > 0 && done.last() != up() {
            done.drop_last()
        } else if from_root {
            done
        } else {
            done.push(up())
        }
    }
}

/// The normal form of a path.
pub open spec fn normal_form(path: Seq<u8>) -> (bool, Seq<Seq<u8>>) {
    (rooted(path), resolved(parts_of(path), rooted(path)))
}

/// Parts with slashes between them.
pub open spec fn joined(parts: Seq<Seq<u8>>) -> Seq<u8>
    decreases parts.len(),
{
    if parts.len() == 0 {
        Seq::empty()
    } else if parts.len() == 1 {
        parts[0]
    } else {
        joined(parts.drop_last()).push(SLASH) + parts.last()
    }
}

/// A normal form written out.
pub open spec fn rendered(form: (bool, Seq<Seq<u8>>)) -> Seq<u8> {
    if form.0 {
        seq![SLASH] + joined(form.1)
    } else if form.1.len() == 0 {
        here()
    } else {
        joined(form.1)
    }
}

/// A normal form names a file: it does not end at the root, at `.` or in `..`.
pub open spec fn names_file(form: (bool, Seq<Seq<u8>>)) -> bool {
    form.1.len() > 0 && form.1.last() != up()
}

fn is_here(part: &Vec<u8>) -> (is: bool)
    ensures
        is == (part@ == here()),
{
    let is = part.len() == 1 && part[0] == DOT;
    assert(is ==> part@ =~= here());
    is
}

fn is_up(part: &Vec<u8>) -> (is: bool)
    ensures
        is == (part@ == up()),
{
    let is = part.len() == 2 && part[0] == DOT && part[1] == DOT;
    assert(is ==> part@ =~= up());
    is
}

/// Parts by their bytes.
pub open spec fn texts(parts: Seq<Vec<u8>>) -> Seq<Seq<u8>> {
    parts.map_values(|part: Vec<u8>| part@)
}

fn flush(done: &mut Vec<Vec<u8>>, part: Vec<u8>)
    ensures
        texts(final(done)@) == flushed(texts(old(done)@), part@),
{
    if part.len() > 0 && !is_here(&part) {
        done.push(part);
        assert(texts(done@) =~= texts(old(done)@).push(part@));
    }
}

fn split_parts(path: &[u8]) -> (parts: Vec<Vec<u8>>)
    ensures
        texts(parts@) == parts_of(path@),
{
    let mut done: Vec<Vec<u8>> = Vec::new();
    let mut part: Vec<u8> = Vec::new();
    let mut i: usize = 0;
    assert(texts(done@) =~= Seq::empty());
    assert(part@ =~= Seq::empty());
    while i < path.len()
        invariant
            i <= path@.len(),
            scanned(path@.take(i as int)) == (texts(done@), part@),
        decreases path@.len() - i,
    {
        assert(path@.take(i + 1).drop_last() =~= path@.take(i as int));
        if path[i] == SLASH {
            flush(&mut done, part);
            part = Vec::new();
            assert(part@ =~= Seq::empty());
        } else {
            part.push(path[i]);
        }
        i = i + 1;
    }
    assert(path@.take(i as int) =~= path@);
    flush(&mut done, part);
    done
}

/// A path in normal form.
pub struct NormalPath {
    rooted: bool,
    parts: Vec<Vec<u8>>,
}

impl View for NormalPath {
    type V = (bool, Seq<Seq<u8>>);

    closed spec fn view(&self) -> (bool, Seq<Seq<u8>>) {
        (self.rooted, texts(self.parts@))
    }
}

impl NormalPath {
    pub fn of(path: &[u8]) -> (normal: Self)
        ensures
            normal@ == normal_form(path@),
    {
        let from_root = path.len() > 0 && path[0] == SLASH;
        let all = split_parts(path);
        let ghost whole = texts(all@);
        let mut parts: Vec<Vec<u8>> = Vec::new();
        let mut i: usize = 0;
        assert(texts(parts@) =~= Seq::empty());
        while i < all.len()
            invariant
                i <= all@.len(),
                whole == texts(all@),
                texts(parts@) == resolved(whole.take(i as int), from_root),
            decreases all@.len() - i,
        {
            let ghost before = parts@;
            assert(whole.take(i + 1).drop_last() =~= whole.take(i as int));
            assert(whole.take(i + 1).last() == all@[i as int]@);
            if !is_up(&all[i]) {
                let part = copy_range(all[i].as_slice(), 0, all[i].len());
                assert(part@ =~= all@[i as int]@);
                parts.push(part);
                assert(texts(parts@) =~= texts(before).push(part@));
            } else {
                let last_is_name = if parts.len() > 0 {
                    !is_up(&parts[parts.len() - 1])
                } else {
                    false
                };
                if last_is_name {
                    let _taken = parts.pop();
                    assert(texts(parts@) =~= texts(before).drop_last());
                } else if !from_root {
                    let part = copy_range(all[i].as_slice(), 0, all[i].len());
                    assert(part@ =~= up());
                    parts.push(part);
                    assert(texts(parts@) =~= texts(before).push(up()));
                }
            }
            i = i + 1;
        }
        assert(whole.take(i as int) =~= whole);
        NormalPath { rooted: from_root, parts }
    }

    /// Whether it names a file.
    pub fn has_file_name(&self) -> (has: bool)
        ensures
            has == names_file(self@),
    {
        self.parts.len() > 0 && !is_up(&self.parts[self.parts.len() - 1])
    }

    /// Whether two normal forms are the same.
    pub fn same(&self, other: &NormalPath) -> (same: bool)
        ensures
            same == (self@ == other@),
    {
        if self.rooted != other.rooted || self.parts.len() != other.parts.len() {
            assert(self@.0 != other@.0 || self@.1.len() != other@.1.len());
            return false;
        }
        let mut i: usize = 0;
        while i < self.parts.len()
            invariant
                i <= self.parts@.len() == other.parts@.len(),
                forall|j: int| 0 <= j < i ==> (#[trigger] self.parts@[j])@ == other.parts@[j]@,
            decreases self.parts@.len() - i,
        {
            if !same_bytes(self.parts[i].as_slice(), other.parts[i].as_slice()) {
                assert(self@.1[i as int] != other@.1[i as int]);
                return false;
            }
            i = i + 1;
        }
        assert(self@.1 =~= other@.1);
        true
    }

    /// The normal form written out.
    pub fn to_bytes(&self) -> (bytes: Vec<u8>)
        ensures
            bytes@ == rendered(self@),
    {
        let ghost all = texts(self.parts@);
        let mut bytes: Vec<u8> = Vec::new();
        if self.rooted {
            bytes.push(SLASH);
        }
        let ghost head = bytes@;
        if self.parts.len() == 0 {
            if !self.rooted {
                bytes.push(DOT);
                assert(bytes@ =~= here());
            } else {
                assert(bytes@ =~= seq![SLASH] + joined(all));
            }
            return bytes;
        }
        let mut i: usize = 0;
        assert(head + joined(all.take(0)) =~= head);
        while i < self.parts.len()
            invariant
                i <= self.parts@.len(),
                all == texts(self.parts@),
                bytes@ == head + joined(all.take(i as int)),
            decreases self.parts@.len() - i,
        {
            let ghost before = bytes@;
            if i > 0 {
                bytes.push(SLASH);
            }
            let mut k: usize = 0;
            let ghost start = bytes@;
            assert(start + self.parts@[i as int]@.take(0) =~= start);
            while k < self.parts[i].len()
                invariant
                    i < self.parts@.len(),
                    k <= self.parts@[i as int]@.len(),
                    bytes@ == start + self.parts@[i as int]@.take(k as int),
                decreases self.parts@[i as int]@.len() - k,
            {
                bytes.push(self.parts[i][k]);
                k = k + 1;
                assert(bytes@ =~= start + self.parts@[i as int]@.take(k as int));
            }
            proof {
                let part = self.parts@[i as int]@;
                assert(part.take(k as int) =~= part);
                let longer = all.take(i + 1);
                assert(longer.drop_last() =~= all.take(i as int));
                assert(longer.last() == part);
                if i == 0 {
                    assert(longer[0] == part);
                    assert(joined(all.take(0)) =~= Seq::empty());
                    assert(bytes@ =~= head + joined(longer));
                } else {
                    assert(bytes@ =~= head + (joined(all.take(i as int)).push(SLASH) + part));
                }
            }
            i = i + 1;
        }
        proof {
            assert(all.take(i as int) =~= all);
            if !self.rooted {
                assert(head + joined(all) =~= joined(all));
            } else {
                assert(head =~= seq![SLASH]);
            }
        }
        bytes
    }
}

/// Resolves `.` and `..` and collapses slashes, by the text alone.
pub fn lexical_normalize(path: &[u8]) -> (normalized: Vec<u8>)
    ensures
        normalized@ == rendered(normal_form(path@)),
{
    NormalPath::of(path).to_bytes()
}

/// A path that ends in a slash, or is empty, means a directory.
pub open spec fn means_directory(path: Seq<u8>) -> bool {
    path.len() == 0 || path.last() == SLASH
}

pub fn has_trailing_separator(path: &[u8]) -> (trailing: bool)
    ensures
        trailing == means_directory(path@),
{
    path.len() == 0 || path[path.len() - 1] == SLASH
}

/// Where the last slash is, or -1.
pub open spec fn last_slash(path: Seq<u8>) -> int
    decreases path.len(),
{
    if path.len() == 0 {
        -1
    } else if path.last() == SLASH {
        path.len() - 1
    } else {
        last_slash(path.drop_last())
    }
}

/// Where the file name of a path starts and ends, where it has one.
pub open spec fn file_name_range(path: Seq<u8>) -> Option<(int, int)>
    decreases path.len(),
{
    let cut = last_slash(path);
    if cut < -1 || cut >= path.len() {
        None
    } else {
        let tail = path.subrange(cut + 1, path.len() as int);
        if telling(tail) {
            if tail == up() {
                None
            } else {
                Some((cut + 1, path.len() as int))
            }
        } else if cut < 0 {
            None
        } else {
            file_name_range(path.take(cut))
        }
    }
}

/// Where the last dot of a name is, or -1.
pub open spec fn last_dot(name: Seq<u8>) -> int
    decreases name.len(),
{
    if name.len() == 0 {
        -1
    } else if name.last() == DOT {
        name.len() - 1
    } else {
        last_dot(name.drop_last())
    }
}

/// How long the stem of a file name is: up to its last dot, unless that is how
/// the name begins.
pub open spec fn stem_len(name: Seq<u8>) -> int {
    if last_dot(name) > 0 {
        last_dot(name)
    } else {
        name.len() as int
    }
}

/// A path with `tmp` for its extension; a path without a file name stays.
pub open spec fn tmp_path(path: Seq<u8>) -> Seq<u8> {
    match file_name_range(path) {
        Some((start, end)) => path.take(start + stem_len(path.subrange(start, end))) + seq![
            DOT,
            0x74u8,
            0x6du8,
            0x70u8,
        ],
        None => path,
    }
}

proof fn lemma_last_slash(path: Seq<u8>)
    ensures
        -1 <= last_slash(path) < path.len(),
        last_slash(path) >= 0 ==> path[last_slash(path)] == SLASH,
        forall|i: int| last_slash(path) < i < path.len() ==> path[i] != SLASH,
    decreases path.len(),
{
    if path.len() > 0 && path.last() != SLASH {
        lemma_last_slash(path.drop_last());
        assert forall|i: int| last_slash(path) < i < path.len() implies path[i] != SLASH by {
            if i < path.len() - 1 {
                assert(path.drop_last()[i] == path[i]);
            }
        }
    }
}

/// A position right after which nothing but a slash-free tail follows is the
/// last slash.
proof fn lemma_is_last_slash(path: Seq<u8>, at: int)
    requires
        -1 <= at < path.len(),
        at >= 0 ==> path[at] == SLASH,
        forall|i: int| at < i < path.len() ==> path[i] != SLASH,
    ensures
        last_slash(path) == at,
{
    lemma_last_slash(path);
}

proof fn lemma_last_dot(name: Seq<u8>)
    ensures
        -1 <= last_dot(name) < name.len(),
        last_dot(name) >= 0 ==> name[last_dot(name)] == DOT,
        forall|i: int| last_dot(name) < i < name.len() ==> name[i] != DOT,
    decreases name.len(),
{
    if name.len() > 0 && name.last() != DOT {
        lemma_last_dot(name.drop_last());
        assert forall|i: int| last_dot(name) < i < name.len() implies name[i] != DOT by {
            if i < name.len() - 1 {
                assert(name.drop_last()[i] == name[i]);
            }
        }
    }
}

/// Finds the file name.
fn find_file_name(path: &[u8]) -> (range: Option<(usize, usize)>)
    ensures
        match range {
            Some((start, end)) => file_name_range(path@) == Some((start as int, end as int))
                && start < end <= path@.len(),
            None => file_name_range(path@) is None,
        },
{
    let mut end: usize = path.len();
    assert(path@.take(end as int) =~= path@);
    loop
        invariant
            end <= path@.len(),
            file_name_range(path@) == file_name_range(path@.take(end as int)),
        decreases end,
    {
        let ghost front = path@.take(end as int);
        let mut start: usize = end;
        while start > 0 && path[start - 1] != SLASH
            invariant
                start <= end <= path@.len(),
                forall|i: int| start <= i < end ==> path@[i] != SLASH,
            decreases start,
        {
            start = start - 1;
        }
        proof {
            lemma_is_last_slash(front, start - 1);
            assert(front.subrange(start as int, end as int) =~= path@.subrange(
                start as int,
                end as int,
            ));
        }
        let tail = copy_range(path, start, end);
        if tail.len() > 0 && !is_here(&tail) {
            if is_up(&tail) {
                return None;
            }
            return Some((start, end));
        }
        if start == 0 {
            return None;
        }
        proof {
            assert(front.take(start - 1) =~= path@.take(start - 1));
        }
        end = start - 1;
    }
}

/// Where a journal is rewritten before it is renamed: beside it, with `tmp` for
/// its extension.
pub fn journal_tmp_path(journal_path: &[u8]) -> (tmp: Vec<u8>)
    ensures
        tmp@ == tmp_path(journal_path@),
{
    match find_file_name(journal_path) {
        None => {
            let same = copy_range(journal_path, 0, journal_path.len());
            assert(same@ =~= journal_path@);
            same
        },
        Some((start, end)) => {
            let ghost name = journal_path@.subrange(start as int, end as int);
            let mut dot: usize = end;
            while dot > start && journal_path[dot - 1] != DOT
                invariant
                    start <= dot <= end <= journal_path@.len(),
                    forall|i: int| dot <= i < end ==> journal_path@[i] != DOT,
                decreases dot,
            {
                dot = dot - 1;
            }
            proof {
                lemma_last_dot(name);
                if dot > start {
                    assert(name[dot - 1 - start] == DOT);
                    assert forall|i: int| dot - start <= i < name.len() implies name[i] != DOT by {
                        assert(name[i] == journal_path@[start + i]);
                    }
                    assert(last_dot(name) == dot - 1 - start);
                } else {
                    assert forall|i: int| 0 <= i < name.len() implies name[i] != DOT by {
                        assert(name[i] == journal_path@[start + i]);
                    }
                    assert(last_dot(name) == -1);
                }
            }
            let stem: usize = if dot > start + 1 {
                dot - 1
            } else {
                end
            };
            let mut tmp = copy_range(journal_path, 0, stem);
            tmp.push(DOT);
            tmp.push(0x74);
            tmp.push(0x6d);
            tmp.push(0x70);
            assert(tmp@ =~= tmp_path(journal_path@));
            tmp
        },
    }
}

/// Reading a part without slashes onto a finished path.
proof fn lemma_scan_part(path: Seq<u8>, part: Seq<u8>)
    requires
        forall|i: int| 0 <= i < part.len() ==> part[i] != SLASH,
    ensures
        scanned(path.push(SLASH) + part) == (parts_of(path), part),
    decreases part.len(),
{
    let whole = path.push(SLASH) + part;
    if part.len() == 0 {
        assert(whole =~= path.push(SLASH));
        assert(path.push(SLASH).drop_last() =~= path);
        assert(part =~= Seq::empty());
    } else {
        assert(whole.drop_last() =~= path.push(SLASH) + part.drop_last());
        lemma_scan_part(path, part.drop_last());
        assert(part.drop_last().push(part.last()) =~= part);
    }
}

/// Reading a part without slashes from the start.
proof fn lemma_scan_first(part: Seq<u8>)
    requires
        forall|i: int| 0 <= i < part.len() ==> part[i] != SLASH,
    ensures
        scanned(part) == (Seq::<Seq<u8>>::empty(), part),
    decreases part.len(),
{
    if part.len() > 0 {
        lemma_scan_first(part.drop_last());
        assert(part.drop_last().push(part.last()) =~= part);
    } else {
        assert(part =~= Seq::empty());
    }
}

/// A leading slash adds no part.
proof fn lemma_leading_slash(path: Seq<u8>)
    ensures
        scanned(seq![SLASH] + path) == scanned(path),
    decreases path.len(),
{
    let whole = seq![SLASH] + path;
    if path.len() == 0 {
        assert(whole =~= seq![SLASH]);
        assert(whole.drop_last() =~= Seq::empty());
        assert(scanned(whole.drop_last()) == (Seq::<Seq<u8>>::empty(), Seq::<u8>::empty()));
        assert(whole.last() == SLASH);
    } else {
        assert(whole.drop_last() =~= seq![SLASH] + path.drop_last());
        assert(whole.last() == path.last());
        lemma_leading_slash(path.drop_last());
    }
}

/// Parts that a path can have.
pub open spec fn plain(parts: Seq<Seq<u8>>) -> bool {
    forall|i: int|
        0 <= i < parts.len() ==> telling(#[trigger] parts[i]) && !parts[i].contains(SLASH)
}

/// What was read to its end is plain, and what was not has no slash.
proof fn lemma_scanned_plain(path: Seq<u8>)
    ensures
        plain(scanned(path).0),
        !scanned(path).1.contains(SLASH),
        plain(parts_of(path)),
    decreases path.len(),
{
    if path.len() > 0 {
        lemma_scanned_plain(path.drop_last());
        let (done, part) = scanned(path.drop_last());
        let (next_done, next_part) = scanned(path);
        if path.last() == SLASH {
            assert(!next_part.contains(SLASH));
        } else {
            assert forall|i: int| 0 <= i < next_part.len() implies next_part[i] != SLASH by {
                if i < part.len() {
                    assert(part[i] == next_part[i]);
                }
            }
        }
    }
}

/// Parts written out are read back.
proof fn lemma_parts_of_joined(parts: Seq<Seq<u8>>)
    requires
        plain(parts),
    ensures
        parts_of(joined(parts)) == parts,
    decreases parts.len(),
{
    if parts.len() == 0 {
        assert(parts_of(joined(parts)) =~= parts);
    } else if parts.len() == 1 {
        lemma_scan_first(parts[0]);
        assert(parts_of(joined(parts)) =~= parts);
    } else {
        let front = parts.drop_last();
        assert forall|i: int| 0 <= i < front.len() implies telling(#[trigger] front[i])
            && !front[i].contains(SLASH) by {
            assert(front[i] == parts[i]);
        }
        lemma_parts_of_joined(front);
        assert(telling(parts.last()) && !parts.last().contains(SLASH)) by {
            assert(parts[parts.len() - 1] == parts.last());
        }
        lemma_scan_part(joined(front), parts.last());
        assert(front.push(parts.last()) =~= parts);
    }
}

/// A form that has nothing left to resolve.
pub open spec fn settled(parts: Seq<Seq<u8>>, from_root: bool) -> bool {
    forall|i: int|
        0 <= i < parts.len() && #[trigger] parts[i] == up() ==> !from_root && (forall|j: int|
            0 <= j < i ==> #[trigger] parts[j] == up())
}

/// Resolving settles, and makes up no part.
proof fn lemma_resolved(parts: Seq<Seq<u8>>, from_root: bool)
    requires
        plain(parts),
    ensures
        settled(resolved(parts, from_root), from_root),
        plain(resolved(parts, from_root)),
    decreases parts.len(),
{
    if parts.len() > 0 {
        let front = parts.drop_last();
        assert forall|i: int| 0 <= i < front.len() implies telling(#[trigger] front[i])
            && !front[i].contains(SLASH) by {
            assert(front[i] == parts[i]);
        }
        lemma_resolved(front, from_root);
        let done = resolved(front, from_root);
        let next = resolved(parts, from_root);
        assert(telling(parts.last()) && !parts.last().contains(SLASH)) by {
            assert(parts[parts.len() - 1] == parts.last());
        }
        assert forall|i: int| 0 <= i < next.len() implies telling(#[trigger] next[i])
            && !next[i].contains(SLASH) by {
            if i < done.len() {
                assert(next[i] == done[i]);
            }
        }
        assert forall|i: int| 0 <= i < next.len() && #[trigger] next[i] == up() implies !from_root
            && (forall|j: int| 0 <= j < i ==> #[trigger] next[j] == up()) by {
            if i < done.len() {
                assert(done[i] == next[i]);
                assert forall|j: int| 0 <= j < i implies #[trigger] next[j] == up() by {
                    assert(done[j] == next[j]);
                }
            } else {
                assert forall|j: int| 0 <= j < i implies #[trigger] next[j] == up() by {
                    assert(done[j] == next[j]);
                    if done.len() > 0 {
                        assert(done[done.len() - 1] == up());
                    }
                }
            }
        }
    }
}

/// What is settled stays.
proof fn lemma_settled_stays(parts: Seq<Seq<u8>>, from_root: bool)
    requires
        settled(parts, from_root),
    ensures
        resolved(parts, from_root) == parts,
    decreases parts.len(),
{
    if parts.len() > 0 {
        let front = parts.drop_last();
        assert forall|i: int| 0 <= i < front.len() && #[trigger] front[i] == up() implies !from_root
            && (forall|j: int| 0 <= j < i ==> #[trigger] front[j] == up()) by {
            assert(parts[i] == front[i]);
            assert forall|j: int| 0 <= j < i implies #[trigger] front[j] == up() by {
                assert(parts[j] == front[j]);
            }
        }
        lemma_settled_stays(front, from_root);
        let last = parts.len() - 1;
        assert(parts[last] == parts.last());
        if parts.last() == up() && front.len() > 0 {
            assert(parts[last - 1] == up());
            assert(front.last() == parts[last - 1]);
        }
        assert(front.push(parts.last()) =~= parts);
    } else {
        assert(resolved(parts, from_root) =~= parts);
    }
}

/// Normalizing twice is normalizing once: a normal form written out has itself
/// for its normal form.
pub proof fn law_normalization_is_idempotent(path: Seq<u8>)
    ensures
        normal_form(rendered(normal_form(path))) == normal_form(path),
{
    let (from_root, parts) = normal_form(path);
    lemma_scanned_plain(path);
    lemma_resolved(parts_of(path), rooted(path));
    let text = rendered((from_root, parts));
    if from_root {
        lemma_leading_slash(joined(parts));
        lemma_parts_of_joined(parts);
        assert(text[0] == SLASH);
        lemma_settled_stays(parts, true);
    } else if parts.len() == 0 {
        assert(text =~= here());
        lemma_scan_first(here());
        assert(parts_of(text) =~= Seq::<Seq<u8>>::empty());
        assert(resolved(parts_of(text), false) =~= parts);
    } else {
        lemma_parts_of_joined(parts);
        lemma_joined_start(parts);
        lemma_settled_stays(parts, false);
    }
}

/// Joined parts start with the first part.
proof fn lemma_joined_start(parts: Seq<Seq<u8>>)
    requires
        plain(parts),
        parts.len() > 0,
    ensures
        joined(parts).len() > 0,
        joined(parts)[0] == parts[0][0],
        joined(parts)[0] != SLASH,
    decreases parts.len(),
{
    assert(telling(parts[0]) && !parts[0].contains(SLASH));
    assert(parts[0].contains(parts[0][0]));
    if parts.len() > 1 {
        let front = parts.drop_last();
        assert forall|i: int| 0 <= i < front.len() implies telling(#[trigger] front[i])
            && !front[i].contains(SLASH) by {
            assert(front[i] == parts[i]);
        }
        lemma_joined_start(front);
    }
}

/// A path falls into parts at its slashes: what is before one and what is behind it
/// have their parts apart from one another, wherever the slash is.
pub proof fn law_slashes_part(a: Seq<u8>, b: Seq<u8>)
    ensures
        parts_of(a + seq![0x2fu8] + b) == parts_of(a) + parts_of(b),
    decreases b.len(),
{
    lemma_scan_behind(a, b);
    let (done, part) = scanned(b);
    if telling(part) {
        assert((parts_of(a) + done).push(part) =~= parts_of(a) + done.push(part));
    }
}

/// What is behind a slash is read as if it stood alone.
proof fn lemma_scan_behind(a: Seq<u8>, b: Seq<u8>)
    ensures
        scanned(a + seq![0x2fu8] + b) == (parts_of(a) + scanned(b).0, scanned(b).1),
    decreases b.len(),
{
    let whole = a + seq![0x2fu8] + b;
    if b.len() == 0 {
        assert(whole =~= a.push(SLASH));
        assert(a.push(SLASH).drop_last() =~= a);
        assert(parts_of(a) + scanned(b).0 =~= parts_of(a));
    } else {
        assert(whole.drop_last() =~= a + seq![0x2fu8] + b.drop_last());
        lemma_scan_behind(a, b.drop_last());
        let (done, part) = scanned(b.drop_last());
        if b.last() == SLASH && telling(part) {
            assert((parts_of(a) + done).push(part) =~= parts_of(a) + done.push(part));
        }
    }
}

/// A name without slashes is one part, but for the empty one and a single dot, which
/// are none.
pub proof fn law_names_are_parts(name: Seq<u8>)
    requires
        !name.contains(0x2f),
    ensures
        parts_of(name) == if name.len() == 0 || name == seq![0x2eu8] {
            Seq::<Seq<u8>>::empty()
        } else {
            seq![name]
        },
{
    assert forall|i: int| 0 <= i < name.len() implies name[i] != SLASH by {
        assert(name.contains(name[i]));
    }
    lemma_scan_first(name);
    assert(Seq::<Seq<u8>>::empty().push(name) =~= seq![name]);
}

/// What becomes of parts: a name stays, two dots take back the name before them, at
/// the root they take back nothing, and elsewhere they stay where there is no name to
/// take back.
pub proof fn law_two_dots_take_back(parts: Seq<Seq<u8>>, name: Seq<u8>, from_root: bool)
    ensures
        ({
            let dots = seq![0x2eu8, 0x2eu8];
            let done = resolved(parts, from_root);
            &&& resolved(Seq::empty(), from_root) == Seq::<Seq<u8>>::empty()
            &&& name != dots ==> resolved(parts.push(name), from_root) == done.push(name)
            &&& name != dots ==> resolved(parts.push(name).push(dots), from_root) == done
            &&& done.len() == 0 && from_root ==> resolved(parts.push(dots), from_root) == done
            &&& done.len() == 0 && !from_root ==> resolved(parts.push(dots), from_root)
                == done.push(dots)
            &&& done.len() > 0 && done.last() == dots && !from_root ==> resolved(
                parts.push(dots),
                from_root,
            ) == done.push(dots)
        }),
{
    let dots = seq![0x2eu8, 0x2eu8];
    assert(dots =~= up());
    let done = resolved(parts, from_root);
    assert(parts.push(name).drop_last() =~= parts);
    assert(parts.push(dots).drop_last() =~= parts);
    assert(parts.push(name).push(dots).drop_last() =~= parts.push(name));
    assert(done.push(name).drop_last() =~= done);
}

/// A normal form says whether its path starts at the root, and what is left of its
/// parts.
pub proof fn law_normal_forms(path: Seq<u8>)
    ensures
        normal_form(path).0 == (path.len() > 0 && path[0] == 0x2f),
        normal_form(path).1 == resolved(parts_of(path), path.len() > 0 && path[0] == 0x2f),
        names_file(normal_form(path)) <==> normal_form(path).1.len() > 0
            && normal_form(path).1.last() != seq![0x2eu8, 0x2eu8],
{
    assert(seq![0x2eu8, 0x2eu8] =~= up());
}

/// The temporary file stands beside its journal, with `tmp` for the extension: behind
/// the last dot of the name, where that has something before it, and else behind the
/// whole name.
pub proof fn law_temporary_files_stand_beside(dir: Seq<u8>, stem: Seq<u8>, extension: Seq<u8>)
    requires
        dir.len() == 0 || dir.last() == 0x2f,
        stem.len() > 0,
        !stem.contains(0x2f),
        stem != seq![0x2eu8],
        stem != seq![0x2eu8, 0x2eu8],
        !extension.contains(0x2f),
        !extension.contains(0x2e),
    ensures
        tmp_path(dir + stem + seq![0x2eu8] + extension) == dir + stem + seq![
            0x2eu8,
            0x74u8,
            0x6du8,
            0x70u8,
        ],
        (forall|i: int| 1 <= i < stem.len() ==> stem[i] != 0x2e) ==> tmp_path(dir + stem) == dir
            + stem + seq![0x2eu8, 0x74u8, 0x6du8, 0x70u8],
{
    let tmp = seq![0x2eu8, 0x74u8, 0x6du8, 0x70u8];
    let name = stem + seq![0x2eu8] + extension;
    let path = dir + name;
    assert(path =~= dir + stem + seq![0x2eu8] + extension);
    assert forall|i: int| 0 <= i < name.len() implies name[i] != SLASH by {
        if i < stem.len() {
            assert(stem.contains(stem[i]));
        } else if i > stem.len() {
            assert(extension.contains(extension[i - stem.len() - 1]));
        }
    }
    assert forall|i: int| 0 <= i < stem.len() implies stem[i] != SLASH by {
        assert(stem.contains(stem[i]));
    }
    assert(name.len() >= 2);
    assert(name != here());
    assert(name != up()) by {
        if name == up() {
            assert(stem.len() == 1);
            assert(stem[0] == name[0]);
            assert(stem =~= seq![0x2eu8]);
        }
    }
    lemma_file_name(dir, name);
    assert(last_dot(name) == stem.len()) by {
        lemma_last_dot_found(name, stem.len() as int);
    }
    assert(path.take(dir.len() + stem.len() as int) =~= dir + stem);
    assert(tmp_path(path) =~= dir + stem + tmp);
    if forall|i: int| 1 <= i < stem.len() ==> stem[i] != 0x2e {
        assert(stem != here() && stem != up());
        lemma_file_name(dir, stem);
        lemma_last_dot_absent(stem);
        assert((dir + stem).take(dir.len() + stem.len() as int) =~= dir + stem);
        assert(tmp_path(dir + stem) =~= dir + stem + tmp);
    }
}

/// A name behind a directory is the file name.
proof fn lemma_file_name(dir: Seq<u8>, name: Seq<u8>)
    requires
        dir.len() == 0 || dir.last() == SLASH,
        telling(name),
        name != up(),
        forall|i: int| 0 <= i < name.len() ==> name[i] != SLASH,
    ensures
        file_name_range(dir + name) == Some((dir.len() as int, (dir + name).len() as int)),
        (dir + name).subrange(dir.len() as int, (dir + name).len() as int) == name,
{
    let path = dir + name;
    lemma_last_slash(path);
    let cut = last_slash(path);
    if cut >= dir.len() {
        assert(path[cut] == name[cut - dir.len()]);
    }
    if dir.len() > 0 && cut < dir.len() - 1 {
        assert(path[dir.len() - 1] == SLASH);
    }
    assert(cut == dir.len() - 1);
    assert(path.subrange(dir.len() as int, path.len() as int) =~= name);
}

/// The last dot is where no other follows it.
proof fn lemma_last_dot_found(name: Seq<u8>, at: int)
    requires
        0 <= at < name.len(),
        name[at] == DOT,
        forall|i: int| at < i < name.len() ==> name[i] != DOT,
    ensures
        last_dot(name) == at,
    decreases name.len(),
{
    if name.last() != DOT {
        lemma_last_dot_found(name.drop_last(), at);
    } else {
        assert(name[name.len() - 1] == DOT);
    }
}

/// A name with no dot behind its first byte has no last dot there.
proof fn lemma_last_dot_absent(name: Seq<u8>)
    requires
        forall|i: int| 1 <= i < name.len() ==> name[i] != DOT,
    ensures
        last_dot(name) <= 0,
    decreases name.len(),
{
    if name.len() > 0 && name.last() != DOT {
        lemma_last_dot_absent(name.drop_last());
    } else if name.len() > 0 {
        assert(name[name.len() - 1] == DOT);
    }
}

} // verus!
