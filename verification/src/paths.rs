//! Paths as the library reads them: whether the path starts at the root,
//! and the names that lead from there, one per directory level.
//!
//! In text a path is its names with `/` between them, behind one `/` where
//! it starts at the root. Empty pieces and pieces that are a single dot
//! name nothing and are left out when a text is read.

use vstd::prelude::*;
use crate::lines::{copy_chars, copy_range, line_views};
use crate::order::{compare_keys, is_rising_order, key_less, key_views, picked, rising_order, Rank};
use crate::seqs::{first_index, lemma_first_index_is};
use crate::text::{chars_of, same_chars, string_of};

verus! {

/// A path: whether it starts at the root, and its names.
#[derive(Clone, Debug, PartialEq, Eq)]
pub struct FsPath {
    /// Whether the path starts at the root of the file system.
    pub absolute: bool,
    /// The names from the start of the path to its end.
    pub names: Vec<Vec<char>>,
}

/// What a path is to the contracts.
pub struct PathView {
    /// Whether the path starts at the root of the file system.
    pub absolute: bool,
    /// The names from the start of the path to its end.
    pub names: Seq<Seq<char>>,
}

impl View for FsPath {
    type V = PathView;

    open spec fn view(&self) -> PathView {
        PathView { absolute: self.absolute, names: line_views(self.names@) }
    }
}

/// Whether a piece between two separators is a name.
pub open spec fn is_name(piece: Seq<char>) -> bool {
    piece.len() > 0 && piece != seq!['.']
}

/// The names in the text of a path.
pub open spec fn names_of(text: Seq<char>) -> Seq<Seq<char>>
    decreases text.len(),
{
    if text.len() == 0 {
        Seq::empty()
    } else {
        let n = first_index(text, '/') as int;
        let piece = text.take(n);
        let rest = if n >= text.len() {
            Seq::empty()
        } else {
            names_of(text.skip(n + 1))
        };
        if is_name(piece) {
            seq![piece] + rest
        } else {
            rest
        }
    }
}

/// The path that a text stands for.
pub open spec fn path_of_text(text: Seq<char>) -> PathView {
    PathView { absolute: text.len() > 0 && text[0] == '/', names: names_of(text) }
}

/// The names with one `/` between each two neighbours.
pub open spec fn join_names(names: Seq<Seq<char>>) -> Seq<char>
    decreases names.len(),
{
    if names.len() == 0 {
        Seq::empty()
    } else if names.len() == 1 {
        names[0]
    } else {
        join_names(names.drop_last()) + seq!['/'] + names.last()
    }
}

/// The text of a path.
pub open spec fn text_of_path(path: PathView) -> Seq<char> {
    if path.absolute {
        seq!['/'] + join_names(path.names)
    } else {
        join_names(path.names)
    }
}

/// `base` followed by `other`; an `other` that starts at the root stands
/// for itself.
pub open spec fn joined(base: PathView, other: PathView) -> PathView {
    if other.absolute {
        other
    } else {
        PathView { absolute: base.absolute, names: base.names + other.names }
    }
}

/// Whether `path` lies at or below `base`: both start at the root or
/// neither does, and the names of `base` are the first names of `path`.
pub open spec fn is_within(path: PathView, base: PathView) -> bool {
    &&& path.absolute == base.absolute
    &&& base.names.len() <= path.names.len()
    &&& path.names.take(base.names.len() as int) == base.names
}

/// The path one level up, where there is one.
pub open spec fn parent_of(path: PathView) -> Option<PathView> {
    if path.names.len() == 0 {
        None
    } else {
        Some(PathView { absolute: path.absolute, names: path.names.drop_last() })
    }
}

/// The directory `up` levels above `path`.
pub open spec fn ancestor(path: PathView, up: nat) -> PathView {
    PathView { absolute: path.absolute, names: path.names.take(path.names.len() - up) }
}

/// The names of a path behind a first name that tells paths from the root
/// (an empty name) from the others (a dot). Paths are listed in the order
/// of these keys: paths from the root first, then name by name.
pub open spec fn path_key(path: PathView) -> Seq<Seq<char>> {
    if path.absolute {
        seq![Seq::<char>::empty()] + path.names
    } else {
        seq![seq!['.']] + path.names
    }
}

/// Whether `a` is listed before `b`.
pub open spec fn path_before(a: PathView, b: PathView) -> bool {
    key_less(path_key(a), path_key(b))
}

/// The views of a vector of paths.
pub open spec fn path_views(paths: Seq<FsPath>) -> Seq<PathView> {
    Seq::new(paths.len(), |i: int| paths[i]@)
}

/// Whether the paths are listed in order, none twice.
pub open spec fn paths_rising(paths: Seq<PathView>) -> bool {
    forall|i: int, j: int| 0 <= i < j < paths.len() ==> path_before(paths[i], paths[j])
}

/// Whether `paths` holds `path`.
pub open spec fn holds_path(paths: Seq<PathView>, path: PathView) -> bool {
    exists|i: int| 0 <= i < paths.len() && #[trigger] paths[i] == path
}

/// Paths with the same key are the same path.
pub proof fn lemma_path_key_tells_paths(a: PathView, b: PathView)
    requires
        path_key(a) == path_key(b),
    ensures
        a == b,
{
    let ka = path_key(a);
    let kb = path_key(b);
    assert(ka[0] == kb[0]);
    assert(seq!['.'].len() == 1);
    assert(a.absolute == b.absolute);
    assert(a.names =~= ka.skip(1));
    assert(b.names =~= kb.skip(1));
}

impl FsPath {
    /// Reads a path from its text.
    pub fn parse(text: &str) -> (path: FsPath)
        ensures
            path@ == path_of_text(text@),
    {
        let chars = chars_of(text);
        FsPath::parse_chars(&chars)
    }

    /// Reads a path from the characters of its text.
    pub fn parse_chars(chars: &Vec<char>) -> (path: FsPath)
        ensures
            path@ == path_of_text(chars@),
    {
        let absolute = chars.len() > 0 && chars[0] == '/';
        let mut names: Vec<Vec<char>> = Vec::new();
        let mut start: usize = 0;
        let mut i: usize = 0;
        proof {
            assert(chars@.skip(0) == chars@);
            assert(line_views(names@) + names_of(chars@.skip(0)) == names_of(chars@));
        }
        while i < chars.len()
            invariant
                start <= i <= chars.len(),
                forall|j: int| start <= j < i ==> chars@[j] != '/',
                line_views(names@) + names_of(chars@.skip(start as int)) == names_of(chars@),
            decreases chars.len() - i,
        {
            if chars[i] == '/' {
                let piece = copy_range(chars, start, i);
                let keep = piece_is_name(&piece);
                proof {
                    let rest = chars@.skip(start as int);
                    let n = i - start;
                    assert forall|j: int| 0 <= j < n implies rest[j] != '/' by {
                        assert(rest[j] == chars@[start + j]);
                    }
                    assert(rest[n] == '/');
                    lemma_first_index_is(rest, '/', n);
                    assert(rest.take(n) == chars@.subrange(start as int, i as int));
                    assert(rest.skip(n + 1) == chars@.skip(i + 1));
                    if keep {
                        assert(line_views(names@.push(piece)) == line_views(names@) + seq![
                            piece@,
                        ]);
                    }
                }
                if keep {
                    names.push(piece);
                }
                start = i + 1;
            }
            i += 1;
        }
        proof {
            let rest = chars@.skip(start as int);
            assert forall|j: int| 0 <= j < rest.len() implies rest[j] != '/' by {
                assert(rest[j] == chars@[start + j]);
            }
            lemma_first_index_is(rest, '/', rest.len() as int);
            assert(rest.take(rest.len() as int) == rest);
        }
        if start < chars.len() {
            let piece = copy_range(chars, start, chars.len());
            let keep = piece_is_name(&piece);
            proof {
                assert(piece@ == chars@.skip(start as int));
                if keep {
                    assert(line_views(names@.push(piece)) == line_views(names@) + seq![piece@]);
                    assert(seq![piece@] + Seq::<Seq<char>>::empty() == seq![piece@]);
                } else {
                    assert(line_views(names@) + Seq::<Seq<char>>::empty() == line_views(names@));
                }
            }
            if keep {
                names.push(piece);
            }
        } else {
            assert(line_views(names@) + Seq::<Seq<char>>::empty() == line_views(names@));
        }
        FsPath { absolute, names }
    }

    /// The text of the path.
    pub fn display(&self) -> (text: String)
        ensures
            text@ == text_of_path(self@),
    {
        let ghost views = line_views(self.names@);
        let mut text: Vec<char> = Vec::new();
        let mut k: usize = 0;
        while k < self.names.len()
            invariant
                k <= self.names.len(),
                views == line_views(self.names@),
                text@ == join_names(views.take(k as int)),
            decreases self.names.len() - k,
        {
            if k > 0 {
                text.push('/');
            }
            let name = &self.names[k];
            let ghost before = text@;
            let mut j: usize = 0;
            while j < name.len()
                invariant
                    j <= name.len(),
                    text@ == before + name@.take(j as int),
                decreases name.len() - j,
            {
                text.push(name[j]);
                assert(name@.take(j + 1) == name@.take(j as int).push(name@[j as int]));
                j += 1;
            }
            proof {
                assert(name@.take(name.len() as int) == name@);
                let longer = views.take(k + 1);
                assert(longer.drop_last() == views.take(k as int));
                assert(longer.last() == name@);
                if k == 0 {
                    assert(before + name@ == name@);
                }
            }
            k += 1;
        }
        assert(views.take(self.names.len() as int) == views);
        if self.absolute {
            let mut all: Vec<char> = vec!['/'];
            all.append(&mut text);
            string_of(&all)
        } else {
            string_of(&text)
        }
    }

    /// A copy of the path.
    pub fn copy(&self) -> (path: FsPath)
        ensures
            path@ == self@,
    {
        let names = copy_names(&self.names, 0, self.names.len());
        assert(line_views(self.names@).subrange(0, self.names.len() as int) == line_views(
            self.names@,
        ));
        FsPath { absolute: self.absolute, names }
    }

    /// This path followed by `other`; an `other` that starts at the root
    /// stands for itself.
    pub fn join(&self, other: &FsPath) -> (path: FsPath)
        ensures
            path@ == joined(self@, other@),
    {
        if other.absolute {
            return other.copy();
        }
        let mut names = copy_names(&self.names, 0, self.names.len());
        let mut more = copy_names(&other.names, 0, other.names.len());
        proof {
            assert(line_views(self.names@).subrange(0, self.names.len() as int) == line_views(
                self.names@,
            ));
            assert(line_views(other.names@).subrange(0, other.names.len() as int) == line_views(
                other.names@,
            ));
            assert(line_views(names@ + more@) == line_views(names@) + line_views(more@));
        }
        names.append(&mut more);
        FsPath { absolute: self.absolute, names }
    }

    /// This path followed by one more name.
    pub fn child(&self, name: &str) -> (path: FsPath)
        ensures
            path@ == (PathView { absolute: self@.absolute, names: self@.names.push(name@) }),
    {
        let mut names = copy_names(&self.names, 0, self.names.len());
        let last = chars_of(name);
        proof {
            assert(line_views(self.names@).subrange(0, self.names.len() as int) == line_views(
                self.names@,
            ));
            assert(line_views(names@.push(last)) == line_views(names@).push(last@));
        }
        names.push(last);
        FsPath { absolute: self.absolute, names }
    }

    /// The path one level up; none for a path without names.
    pub fn parent(&self) -> (r: Option<FsPath>)
        ensures
            match r {
                Some(path) => parent_of(self@) == Some(path@),
                None => parent_of(self@).is_none(),
            },
    {
        if self.names.len() == 0 {
            return None;
        }
        let names = copy_names(&self.names, 0, self.names.len() - 1);
        assert(line_views(self.names@).subrange(0, self.names.len() - 1) == line_views(
            self.names@,
        ).drop_last());
        Some(FsPath { absolute: self.absolute, names })
    }

    /// The last name of the path; none for a path without names.
    pub fn file_name(&self) -> (r: Option<String>)
        ensures
            match r {
                Some(name) => self@.names.len() > 0 && name@ == self@.names.last(),
                None => self@.names.len() == 0,
            },
    {
        if self.names.len() == 0 {
            return None;
        }
        Some(string_of(&self.names[self.names.len() - 1]))
    }

    /// Whether the two paths are the same.
    pub fn same(&self, other: &FsPath) -> (r: bool)
        ensures
            r == (self@ == other@),
    {
        if self.absolute != other.absolute {
            return false;
        }
        let rank = compare_keys(&self.names, &other.names);
        rank == Rank::Same
    }

    /// Whether this path lies at or below `base`, name by name.
    pub fn is_within(&self, base: &FsPath) -> (r: bool)
        ensures
            r == is_within(self@, base@),
    {
        if self.absolute != base.absolute || base.names.len() > self.names.len() {
            return false;
        }
        let ghost mine = line_views(self.names@);
        let ghost theirs = line_views(base.names@);
        let mut i: usize = 0;
        while i < base.names.len()
            invariant
                i <= base.names.len() <= self.names.len(),
                mine == line_views(self.names@),
                theirs == line_views(base.names@),
                mine.take(i as int) == theirs.take(i as int),
            decreases base.names.len() - i,
        {
            if !same_chars(&self.names[i], &base.names[i]) {
                assert(mine.take(theirs.len() as int)[i as int] != theirs[i as int]);
                return false;
            }
            assert(mine.take(i + 1) == mine.take(i as int).push(mine[i as int]));
            assert(theirs.take(i + 1) == theirs.take(i as int).push(theirs[i as int]));
            i += 1;
        }
        assert(theirs.take(theirs.len() as int) == theirs);
        true
    }

    /// The rest of this path behind `base`, as a path that does not start
    /// at the root; none where this path does not lie at or below `base`.
    pub fn strip_prefix(&self, base: &FsPath) -> (r: Option<FsPath>)
        ensures
            match r {
                Some(rest) => is_within(self@, base@) && rest@ == (PathView {
                    absolute: false,
                    names: self@.names.skip(base@.names.len() as int),
                }),
                None => !is_within(self@, base@),
            },
    {
        if !self.is_within(base) {
            return None;
        }
        let names = copy_names(&self.names, base.names.len(), self.names.len());
        assert(line_views(self.names@).subrange(
            base.names.len() as int,
            self.names.len() as int,
        ) == line_views(self.names@).skip(base.names.len() as int));
        Some(FsPath { absolute: false, names })
    }

    /// The key by which paths are listed in order.
    pub fn sort_key(&self) -> (key: Vec<Vec<char>>)
        ensures
            line_views(key@) == path_key(self@),
    {
        let mut key: Vec<Vec<char>> = Vec::new();
        if self.absolute {
            key.push(Vec::new());
        } else {
            let dot: Vec<char> = vec!['.'];
            assert(dot@ =~= seq!['.']);
            key.push(dot);
        }
        let ghost first = line_views(key@);
        let mut names = copy_names(&self.names, 0, self.names.len());
        proof {
            assert(line_views(self.names@).subrange(0, self.names.len() as int) == line_views(
                self.names@,
            ));
            assert(line_views(key@ + names@) == line_views(key@) + line_views(names@));
            if self.absolute {
                assert(first =~= seq![Seq::<char>::empty()]);
            } else {
                assert(first.len() == 1 && first[0] == seq!['.']);
                assert(first =~= seq![seq!['.']]);
            }
        }
        key.append(&mut names);
        key
    }
}

/// Whether a piece between two separators is a name.
fn piece_is_name(piece: &Vec<char>) -> (r: bool)
    ensures
        r == is_name(piece@),
{
    if piece.len() == 0 {
        return false;
    }
    if piece.len() == 1 && piece[0] == '.' {
        assert(piece@ =~= seq!['.']);
        return false;
    }
    proof {
        if piece@ == seq!['.'] {
            assert(seq!['.'].len() == 1);
            assert(seq!['.'][0] == '.');
        }
    }
    true
}

/// A copy of the names of `src` from `from` up to `to`.
pub(crate) fn copy_names(src: &Vec<Vec<char>>, from: usize, to: usize) -> (out: Vec<Vec<char>>)
    requires
        from <= to <= src.len(),
    ensures
        line_views(out@) == line_views(src@).subrange(from as int, to as int),
{
    let mut out: Vec<Vec<char>> = Vec::new();
    let mut i: usize = from;
    while i < to
        invariant
            from <= i <= to <= src.len(),
            line_views(out@) == line_views(src@).subrange(from as int, i as int),
        decreases to - i,
    {
        let name = copy_chars(&src[i]);
        proof {
            assert(name@ == src@[i as int]@);
            assert(line_views(out@.push(name)) == line_views(out@).push(name@));
            assert(line_views(src@).subrange(from as int, i + 1) == line_views(src@).subrange(
                from as int,
                i as int,
            ).push(name@));
        }
        out.push(name);
        i += 1;
    }
    out
}

/// The paths in order, each different path once.
pub fn sort_paths(paths: &Vec<FsPath>) -> (sorted: Vec<FsPath>)
    ensures
        paths_rising(path_views(sorted@)),
        forall|p: PathView|
            holds_path(path_views(sorted@), p) <==> holds_path(path_views(paths@), p),
{
    let ghost given = path_views(paths@);
    let mut keys: Vec<Vec<Vec<char>>> = Vec::new();
    let mut i: usize = 0;
    while i < paths.len()
        invariant
            i <= paths.len(),
            given == path_views(paths@),
            keys.len() == i,
            forall|j: int| 0 <= j < i ==> line_views(#[trigger] keys@[j]@) == path_key(given[j]),
        decreases paths.len() - i,
    {
        let key = paths[i].sort_key();
        keys.push(key);
        i += 1;
    }
    let order = rising_order(&keys);
    let ghost kv = key_views(keys@);
    assert forall|j: int| 0 <= j < paths.len() implies #[trigger] kv[j] == path_key(given[j]) by {
        assert(kv[j] == line_views(keys@[j]@));
    }
    let mut sorted: Vec<FsPath> = Vec::new();
    let mut k: usize = 0;
    while k < order.len()
        invariant
            k <= order.len(),
            given == path_views(paths@),
            is_rising_order(kv, order@),
            kv.len() == paths.len(),
            sorted.len() == k,
            forall|j: int| 0 <= j < k ==> (#[trigger] sorted@[j])@ == given[order@[j] as int],
        decreases order.len() - k,
    {
        assert(order@[k as int] < kv.len());
        sorted.push(paths[order[k]].copy());
        k += 1;
    }
    proof {
        let out = path_views(sorted@);
        assert forall|a: int| 0 <= a < out.len() implies #[trigger] out[a]
            == given[order@[a] as int] && order@[a] < given.len() by {
            assert(out[a] == sorted@[a]@);
            assert(order@[a] < kv.len());
        }
        assert forall|a: int, b: int| 0 <= a < b < out.len() implies path_before(
            out[a],
            out[b],
        ) by {
            assert(key_less(picked(kv, order@)[a], picked(kv, order@)[b]));
            assert(kv[order@[a] as int] == path_key(given[order@[a] as int]));
            assert(kv[order@[b] as int] == path_key(given[order@[b] as int]));
        }
        assert forall|p: PathView| holds_path(out, p) <==> holds_path(given, p) by {
            if holds_path(out, p) {
                let a = choose|a: int| 0 <= a < out.len() && #[trigger] out[a] == p;
                assert(given[order@[a] as int] == p);
            }
            if holds_path(given, p) {
                let g = choose|g: int| 0 <= g < given.len() && #[trigger] given[g] == p;
                assert(kv[g] == path_key(given[g]));
                let a = choose|a: int| 0 <= a < order.len() && kv[order@[a] as int] == kv[g];
                assert(kv[order@[a] as int] == path_key(given[order@[a] as int]));
                lemma_path_key_tells_paths(given[order@[a] as int], p);
                assert(out[a] == p);
            }
        }
    }
    sorted
}

/// Two lists of paths in order, none twice, that hold the same paths are
/// the same list: what `sort_paths` returns is the only such list.
pub proof fn lemma_rising_paths_unique(a: Seq<PathView>, b: Seq<PathView>)
    requires
        paths_rising(a),
        paths_rising(b),
        forall|p: PathView| holds_path(a, p) <==> holds_path(b, p),
    ensures
        a == b,
    decreases a.len(),
{
    if a.len() == 0 {
        if b.len() > 0 {
            assert(holds_path(b, b[0]));
            assert(holds_path(a, b[0]));
        }
        assert(a =~= b);
    } else {
        let top = a.last();
        assert(holds_path(a, top));
        assert(holds_path(b, top));
        let j = choose|j: int| 0 <= j < b.len() && #[trigger] b[j] == top;
        assert(holds_path(b, b.last()));
        assert(holds_path(a, b.last()));
        let i = choose|i: int| 0 <= i < a.len() && #[trigger] a[i] == b.last();
        crate::order::lemma_key_less_total(path_key(top), path_key(b.last()));
        crate::order::lemma_key_less_irreflexive(path_key(top));
        if j < b.len() - 1 {
            assert(path_before(b[j], b[b.len() - 1]));
        }
        if i < a.len() - 1 {
            assert(path_before(a[i], a[a.len() - 1]));
        }
        lemma_path_key_tells_paths(top, b.last());
        let a0 = a.drop_last();
        let b0 = b.drop_last();
        assert forall|p: PathView| holds_path(a0, p) <==> holds_path(b0, p) by {
            crate::order::lemma_key_less_irreflexive(path_key(p));
            if holds_path(a0, p) {
                let k = choose|k: int| 0 <= k < a0.len() && #[trigger] a0[k] == p;
                assert(a[k] == p);
                assert(path_before(a[k], a[a.len() - 1]));
                assert(holds_path(a, p));
                let m = choose|m: int| 0 <= m < b.len() && #[trigger] b[m] == p;
                assert(m < b.len() - 1);
                assert(b0[m] == p);
            }
            if holds_path(b0, p) {
                let k = choose|k: int| 0 <= k < b0.len() && #[trigger] b0[k] == p;
                assert(b[k] == p);
                assert(path_before(b[k], b[b.len() - 1]));
                assert(holds_path(b, p));
                let m = choose|m: int| 0 <= m < a.len() && #[trigger] a[m] == p;
                assert(m < a.len() - 1);
                assert(a0[m] == p);
            }
        }
        assert(paths_rising(a0)) by {
            assert forall|x: int, y: int| 0 <= x < y < a0.len() implies path_before(
                a0[x],
                a0[y],
            ) by {
                assert(path_before(a[x], a[y]));
            }
        }
        assert(paths_rising(b0)) by {
            assert forall|x: int, y: int| 0 <= x < y < b0.len() implies path_before(
                b0[x],
                b0[y],
            ) by {
                assert(path_before(b[x], b[y]));
            }
        }
        lemma_rising_paths_unique(a0, b0);
        assert(a =~= a0.push(top));
        assert(b =~= b0.push(top));
    }
}

/// Whether every name is a name that a text of a path can hold: not
/// empty, not a single dot, and without a separator.
pub open spec fn valid_names(names: Seq<Seq<char>>) -> bool {
    forall|i: int|
        0 <= i < names.len() ==> is_name(#[trigger] names[i]) && !names[i].contains('/')
}

/// The names in a text that begins with a name and a separator.
proof fn lemma_names_of_cons(first: Seq<char>, rest: Seq<char>)
    requires
        !first.contains('/'),
    ensures
        names_of(first + seq!['/'] + rest) == if is_name(first) {
            seq![first] + names_of(rest)
        } else {
            names_of(rest)
        },
{
    let text = first + seq!['/'] + rest;
    let n = first.len() as int;
    assert forall|i: int| 0 <= i < n implies text[i] != '/' by {
        assert(text[i] == first[i]);
        assert(first.contains(first[i]));
    }
    assert(text[n] == '/');
    lemma_first_index_is(text, '/', n);
    assert(text.take(n) =~= first);
    assert(text.skip(n + 1) =~= rest);
}

/// Joining behind a first name.
proof fn lemma_join_names_cons(first: Seq<char>, rest: Seq<Seq<char>>)
    requires
        rest.len() > 0,
    ensures
        join_names(seq![first] + rest) == first + seq!['/'] + join_names(rest),
    decreases rest.len(),
{
    let all = seq![first] + rest;
    assert(all.drop_last() =~= seq![first] + rest.drop_last());
    assert(all.last() == rest.last());
    if rest.len() == 1 {
        assert(all.drop_last() =~= seq![first]);
        assert(join_names(all.drop_last()) == first);
        assert(join_names(rest) == rest[0]);
    } else {
        lemma_join_names_cons(first, rest.drop_last());
        assert(join_names(all) =~= first + seq!['/'] + join_names(rest));
    }
}

/// The names that are read from valid names joined are those names.
proof fn lemma_names_of_joined(names: Seq<Seq<char>>)
    requires
        valid_names(names),
    ensures
        names_of(join_names(names)) == names,
    decreases names.len(),
{
    if names.len() == 0 {
    } else {
        let first = names[0];
        assert(is_name(first) && !first.contains('/'));
        if names.len() == 1 {
            let text = join_names(names);
            assert(text == first);
            assert forall|i: int| 0 <= i < first.len() implies first[i] != '/' by {
                assert(first.contains(first[i]));
            }
            lemma_first_index_is(first, '/', first.len() as int);
            assert(first.take(first.len() as int) =~= first);
            assert(seq![first] + Seq::<Seq<char>>::empty() =~= names);
        } else {
            let rest = names.skip(1);
            assert(valid_names(rest)) by {
                assert forall|i: int| 0 <= i < rest.len() implies is_name(#[trigger] rest[i])
                    && !rest[i].contains('/') by {
                    assert(rest[i] == names[i + 1]);
                }
            }
            assert(seq![first] + rest =~= names);
            lemma_join_names_cons(first, rest);
            lemma_names_of_cons(first, join_names(rest));
            lemma_names_of_joined(rest);
        }
    }
}

/// What is written of a path is read back as that path, where its names
/// are valid.
pub proof fn lemma_text_of_path_is_read_back(path: PathView)
    requires
        valid_names(path.names),
    ensures
        path_of_text(text_of_path(path)) == path,
{
    lemma_names_of_joined(path.names);
    let joined = join_names(path.names);
    if path.absolute {
        let text = seq!['/'] + joined;
        assert(text =~= Seq::<char>::empty() + seq!['/'] + joined);
        assert(!Seq::<char>::empty().contains('/'));
        lemma_names_of_cons(Seq::<char>::empty(), joined);
        assert(text[0] == '/');
    } else {
        if joined.len() > 0 {
            let first = path.names[0];
            assert(is_name(first) && !first.contains('/'));
            assert(joined[0] == first[0]) by {
                if path.names.len() > 1 {
                    assert(seq![first] + path.names.skip(1) =~= path.names);
                    lemma_join_names_cons(first, path.names.skip(1));
                }
            }
            assert(first.contains(first[0]));
        }
    }
}

/// The names that are read from a text are valid.
pub proof fn lemma_names_of_are_valid(text: Seq<char>)
    ensures
        valid_names(names_of(text)),
    decreases text.len(),
{
    if text.len() > 0 {
        crate::seqs::lemma_first_index(text, '/');
        let n = first_index(text, '/') as int;
        let piece = text.take(n);
        assert(!piece.contains('/')) by {
            if piece.contains('/') {
                let i = choose|i: int| 0 <= i < piece.len() && piece[i] == '/';
                assert(text[i] == '/');
            }
        }
        let rest = if n >= text.len() {
            Seq::<Seq<char>>::empty()
        } else {
            names_of(text.skip(n + 1))
        };
        if n < text.len() {
            lemma_names_of_are_valid(text.skip(n + 1));
        }
        let all = names_of(text);
        assert forall|i: int| 0 <= i < all.len() implies is_name(#[trigger] all[i])
            && !all[i].contains('/') by {
            if is_name(piece) {
                if i > 0 {
                    assert(all[i] == rest[i - 1]);
                }
            } else {
                assert(all[i] == rest[i]);
            }
        }
    }
}

} // verus!
