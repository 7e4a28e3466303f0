//! Paths as texts: their components, names, parents and order.

use vstd::prelude::*;
use vstd::string::*;

use crate::order::{dedup, sort, sorted, views, SortKey};
use crate::text::{
    begins, chars, concat, concat3, copy, from, last_index, lemma_last_index, same, slice, split,
    split_text, texts,
};

verus! {

/// A path without separators and `.` components at its end.
pub open spec fn trimmed(s: Seq<char>) -> Seq<char>
    decreases s.len(),
{
    if s.len() > 1 && s.last() == '/' {
        trimmed(s.drop_last())
    } else if s.len() > 1 && s.last() == '.' && s[s.len() - 2] == '/' {
        trimmed(s.drop_last())
    } else {
        s
    }
}

/// What stands behind the last separator.
pub open spec fn tail_name(s: Seq<char>) -> Seq<char> {
    from(s, last_index(s, '/') + 1)
}

/// The last component of a path, where it is a name.
pub open spec fn name_of_path(s: Seq<char>) -> Option<Seq<char>> {
    let name = tail_name(trimmed(s));
    if name.len() == 0 || name == seq!['.'] || name == seq!['.', '.'] {
        None
    } else {
        Some(name)
    }
}

/// The path without its last component; a root and an empty path have none.
pub open spec fn parent_of(s: Seq<char>) -> Option<Seq<char>> {
    let t = trimmed(s);
    if t.len() == 0 || t == seq!['/'] {
        None
    } else {
        Some(trimmed(t.subrange(0, last_index(t, '/') + 1)))
    }
}

/// A path with another behind it; an absolute one takes its place.
pub open spec fn joined(base: Seq<char>, name: Seq<char>) -> Seq<char> {
    if begins(name, seq!['/']) {
        name
    } else if base.len() == 0 || base.last() == '/' {
        base + name
    } else {
        base + seq!['/'] + name
    }
}

/// Whether a piece of a path is a component of it.
pub open spec fn is_component(piece: Seq<char>, first: bool) -> bool {
    piece.len() > 0 && (piece != seq!['.'] || first)
}

/// The number of components among the first `n` pieces.
pub open spec fn component_total(pieces: Seq<Seq<char>>, n: int) -> nat
    decreases n,
{
    if n <= 0 {
        0
    } else {
        component_total(pieces, n - 1) + if is_component(pieces[n - 1], n == 1) {
            1nat
        } else {
            0nat
        }
    }
}

/// The number of components of a path, a root counting as one.
pub open spec fn component_count(s: Seq<char>) -> nat {
    component_total(split(s, '/'), split(s, '/').len() as int) + if begins(s, seq!['/']) {
        1nat
    } else {
        0nat
    }
}

/// The text by which paths are ordered component by component: separators
/// stand before every character of a name.
pub open spec fn path_key(s: Seq<char>) -> Seq<char> {
    Seq::new(
        s.len(),
        |i: int|
            if s[i] == '/' {
                '\0'
            } else {
                s[i]
            },
    )
}

/// A path that is ordered component by component.
pub struct PathText {
    pub path: String,
}

impl View for PathText {
    type V = Seq<char>;

    open spec fn view(&self) -> Seq<char> {
        self.path@
    }
}

impl SortKey for PathText {
    open spec fn key_of(v: Seq<char>) -> Seq<char> {
        path_key(v)
    }

    fn key_text(&self) -> (s: String) {
        let v = chars(self.path.as_str());
        let mut r: String = String::new();
        let mut i: usize = 0;
        let ghost full = path_key(v@);
        while i < v.len()
            invariant
                i <= v@.len(),
                full == path_key(v@),
                r@ == full.subrange(0, i as int),
            decreases v@.len() - i,
        {
            r.push(
                if v[i] == '/' {
                    '\0'
                } else {
                    v[i]
                },
            );
            proof {
                assert(full.subrange(0, i as int + 1) =~= full.subrange(0, i as int).push(full[i as int]));
            }
            i += 1;
        }
        proof {
            assert(full.subrange(0, full.len() as int) =~= full);
        }
        r
    }
}

/// Paths in their order, each once.
pub open spec fn ordered_paths(s: Seq<Seq<char>>) -> Seq<Seq<char>> {
    dedup(sorted::<PathText>(s))
}

/// Paths in their order.
pub fn sort_paths(v: Vec<String>) -> (r: Vec<String>)
    ensures
        views(r@) == sorted::<PathText>(views(v@)),
{
    let mut wrapped: Vec<PathText> = Vec::new();
    let mut i: usize = 0;
    while i < v.len()
        invariant
            i <= v@.len(),
            wrapped@.len() == i,
            forall|k: int| 0 <= k < i ==> (#[trigger] wrapped@[k])@ == v@[k]@,
        decreases v@.len() - i,
    {
        wrapped.push(PathText { path: copy(v[i].as_str()) });
        i += 1;
    }
    proof {
        assert(views(wrapped@) =~= views(v@));
    }
    let done = sort(wrapped);
    let mut r: Vec<String> = Vec::new();
    let mut j: usize = 0;
    while j < done.len()
        invariant
            j <= done@.len(),
            r@.len() == j,
            forall|k: int| 0 <= k < j ==> (#[trigger] r@[k])@ == done@[k]@,
        decreases done@.len() - j,
    {
        r.push(copy(done[j].path.as_str()));
        j += 1;
    }
    proof {
        assert(views(r@) =~= views(done@));
    }
    r
}

/// Paths in their order, each once.
pub fn order_paths(v: Vec<String>) -> (r: Vec<String>)
    ensures
        views(r@) == ordered_paths(views(v@)),
{
    crate::order::dedup_texts(sort_paths(v))
}

fn trim(s: &str) -> (r: String)
    ensures
        r@ == trimmed(s@),
{
    let v = chars(s);
    let mut end: usize = v.len();
    proof {
        assert(v@.subrange(0, v@.len() as int) =~= v@);
    }
    loop
        invariant
            end <= v@.len(),
            v@ == s@,
            trimmed(v@.subrange(0, end as int)) == trimmed(s@),
        decreases end,
    {
        let ghost t = v@.subrange(0, end as int);
        if end > 1 && (v[end - 1] == '/' || (v[end - 1] == '.' && v[end - 2] == '/')) {
            proof {
                assert(t.last() == v@[end - 1]);
                assert(t[t.len() - 2] == v@[end - 2]);
                assert(t.drop_last() =~= v@.subrange(0, end - 1));
            }
            end -= 1;
        } else {
            proof {
                if end > 1 {
                    assert(t.last() == v@[end - 1]);
                    assert(t[t.len() - 2] == v@[end - 2]);
                }
                assert(trimmed(t) == t);
            }
            return slice(&v, 0, end);
        }
    }
}

fn last_slash(v: &[char]) -> (r: usize)
    ensures
        r == last_index(v@, '/') + 1,
        r <= v@.len(),
{
    let mut i: usize = v.len();
    proof {
        assert(v@.subrange(0, v@.len() as int) =~= v@);
    }
    loop
        invariant
            i <= v@.len(),
            last_index(v@.subrange(0, i as int), '/') == last_index(v@, '/'),
        decreases i,
    {
        let ghost t = v@.subrange(0, i as int);
        if i == 0 || v[i - 1] == '/' {
            proof {
                if i > 0 {
                    assert(t.last() == v@[i - 1]);
                }
            }
            return i;
        }
        proof {
            assert(t.last() == v@[i - 1]);
            assert(t.drop_last() =~= v@.subrange(0, i - 1));
        }
        i -= 1;
    }
}

/// The last component of a path, where it is a name.
pub fn file_name(s: &str) -> (r: Option<String>)
    ensures
        match r {
            Some(name) => name_of_path(s@) == Some(name@),
            None => name_of_path(s@) is None,
        },
{
    let t = trim(s);
    let v = chars(t.as_str());
    let start = last_slash(&v);
    let name = slice(&v, start, v.len());
    proof {
        reveal_strlit(".");
        reveal_strlit("..");
        assert("."@ =~= seq!['.']);
        assert(".."@ =~= seq!['.', '.']);
    }
    if start == v.len() || same(name.as_str(), ".") || same(name.as_str(), "..") {
        None
    } else {
        Some(name)
    }
}

/// The path without its last component.
pub fn parent(s: &str) -> (r: Option<String>)
    ensures
        match r {
            Some(p) => parent_of(s@) == Some(p@),
            None => parent_of(s@) is None,
        },
{
    let t = trim(s);
    proof {
        reveal_strlit("/");
        assert("/"@ =~= seq!['/']);
    }
    if t.as_str().is_empty() || same(t.as_str(), "/") {
        return None;
    }
    let v = chars(t.as_str());
    let start = last_slash(&v);
    Some(trim(slice(&v, 0, start).as_str()))
}

/// A path with another behind it.
pub fn join_path(base: &str, name: &str) -> (r: String)
    ensures
        r@ == joined(base@, name@),
{
    let b = chars(base);
    let n = chars(name);
    proof {
        reveal_strlit("/");
        assert("/"@ =~= seq!['/']);
        if n@.len() > 0 {
            assert(n@.subrange(0, 1) =~= seq![n@[0]]);
        }
        assert(seq!['/'][0] == '/');
    }
    if n.len() > 0 && n[0] == '/' {
        copy(name)
    } else if b.len() == 0 || b[b.len() - 1] == '/' {
        concat(base, name)
    } else {
        concat3(base, "/", name)
    }
}

/// The number of components of a path.
pub fn components(s: &str) -> (n: usize)
    ensures
        n == component_count(s@),
{
    let pieces = split_text(s, '/');
    let ghost pv = split(s@, '/');
    let v = chars(s);
    let mut n: usize = 0;
    let mut i: usize = 0;
    proof {
        reveal_strlit(".");
        assert("."@ =~= seq!['.']);
        lemma_piece_bound(s@);
        assert(texts(pieces@).len() == pieces@.len());
        if v@.len() > 0 {
            assert(v@.subrange(0, 1) =~= seq![v@[0]]);
        }
        assert(seq!['/'][0] == '/');
    }
    while i < pieces.len()
        invariant
            i <= pieces@.len(),
            texts(pieces@) == pv,
            "."@ == seq!['.'],
            n == component_total(pv, i as int),
            n <= i,
        decreases pieces@.len() - i,
    {
        proof {
            assert(texts(pieces@)[i as int] == pieces@[i as int]@);
        }
        if !pieces[i].as_str().is_empty() && (i == 0 || !same(pieces[i].as_str(), ".")) {
            n += 1;
        }
        i += 1;
    }
    if v.len() > 0 && v[0] == '/' {
        proof {
            lemma_rooted_total(s@);
        }
        n + 1
    } else {
        n
    }
}

proof fn lemma_piece_bound(s: Seq<char>)
    ensures
        1 <= split(s, '/').len() <= s.len() + 1,
    decreases s.len(),
{
    crate::text::lemma_first_index(s, '/');
    let n = crate::text::first_index(s, '/');
    if n < s.len() {
        lemma_piece_bound(s.subrange(n + 1, s.len() as int));
    }
}

proof fn lemma_total_bound(pieces: Seq<Seq<char>>, n: int)
    requires
        0 <= n <= pieces.len(),
    ensures
        component_total(pieces, n) <= n,
        n > 0 && pieces[0].len() == 0 ==> component_total(pieces, n) <= n - 1,
    decreases n,
{
    if n > 0 {
        lemma_total_bound(pieces, n - 1);
    }
}

/// A rooted path has fewer components behind its root than characters.
proof fn lemma_rooted_total(s: Seq<char>)
    requires
        s.len() > 0,
        s[0] == '/',
    ensures
        component_total(split(s, '/'), split(s, '/').len() as int) + 1 <= split(s, '/').len(),
{
    let pieces = split(s, '/');
    lemma_piece_bound(s);
    crate::text::lemma_first_index_is(s, '/', 0);
    assert(pieces[0] =~= Seq::<char>::empty());
    lemma_total_bound(pieces, pieces.len() as int);
}

/// The components among the first `n` pieces.
pub open spec fn kept_pieces(pieces: Seq<Seq<char>>, n: int) -> Seq<Seq<char>>
    decreases n,
{
    if n <= 0 {
        Seq::empty()
    } else if is_component(pieces[n - 1], n == 1) {
        kept_pieces(pieces, n - 1).push(pieces[n - 1])
    } else {
        kept_pieces(pieces, n - 1)
    }
}

/// The components of a path behind its root.
pub open spec fn path_pieces(s: Seq<char>) -> Seq<Seq<char>> {
    kept_pieces(split(s, '/'), split(s, '/').len() as int)
}

/// The components of a path behind its root.
pub fn pieces(s: &str) -> (r: Vec<String>)
    ensures
        views(r@) == path_pieces(s@),
{
    let all = split_text(s, '/');
    let ghost pv = split(s@, '/');
    let mut r: Vec<String> = Vec::new();
    let mut i: usize = 0;
    proof {
        reveal_strlit(".");
        assert("."@ =~= seq!['.']);
        assert(texts(all@).len() == all@.len());
        assert(views(r@) =~= Seq::<Seq<char>>::empty());
    }
    while i < all.len()
        invariant
            i <= all@.len(),
            texts(all@) == pv,
            "."@ == seq!['.'],
            views(r@) == kept_pieces(pv, i as int),
        decreases all@.len() - i,
    {
        proof {
            assert(texts(all@)[i as int] == all@[i as int]@);
        }
        if !all[i].as_str().is_empty() && (i == 0 || !same(all[i].as_str(), ".")) {
            crate::order::push_text(&mut r, copy(all[i].as_str()));
        }
        i += 1;
    }
    r
}

/// Pieces with a separator before each but the first.
pub open spec fn pieces_text(s: Seq<Seq<char>>) -> Seq<char>
    decreases s.len(),
{
    if s.len() == 0 {
        Seq::empty()
    } else if s.len() == 1 {
        s[0]
    } else {
        pieces_text(s.drop_last()) + seq!['/'] + s.last()
    }
}

/// A path without doubled separators and `.` components.
pub open spec fn normal_path(s: Seq<char>) -> Seq<char> {
    if begins(s, seq!['/']) {
        seq!['/'] + pieces_text(path_pieces(s))
    } else {
        pieces_text(path_pieces(s))
    }
}

/// A path without doubled separators and `.` components.
pub fn normalize(s: &str) -> (r: String)
    ensures
        r@ == normal_path(s@),
{
    let parts = pieces(s);
    let ghost pv = path_pieces(s@);
    let mut r: String = String::new();
    let mut i: usize = 0;
    proof {
        reveal_strlit("/");
        assert("/"@ =~= seq!['/']);
        assert(views(parts@).len() == parts@.len());
        assert(pv.subrange(0, 0) =~= Seq::<Seq<char>>::empty());
    }
    while i < parts.len()
        invariant
            i <= parts@.len(),
            views(parts@) == pv,
            r@ == pieces_text(pv.subrange(0, i as int)),
        decreases parts@.len() - i,
    {
        let ghost next = pv.subrange(0, i as int + 1);
        let ghost before = r@;
        proof {
            assert(next.drop_last() =~= pv.subrange(0, i as int));
            assert(next.last() == parts@[i as int]@) by {
                assert(views(parts@)[i as int] == parts@[i as int]@);
            }
        }
        if i > 0 {
            r.push('/');
        }
        r.append(parts[i].as_str());
        proof {
            if i > 0 {
                assert(r@ =~= before + seq!['/'] + next.last());
            } else {
                assert(r@ =~= next[0]);
            }
        }
        i += 1;
    }
    proof {
        assert(pv.subrange(0, pv.len() as int) =~= pv);
    }
    if crate::text::starts_with(s, "/") {
        concat("/", r.as_str())
    } else {
        r
    }
}

/// A name that is joined to a directory is the last component of the result.
pub proof fn law_joined_name_is_last(base: Seq<char>, name: Seq<char>)
    requires
        name.len() > 0,
        !name.contains('/'),
        name != seq!['.'],
        name != seq!['.', '.'],
    ensures
        name_of_path(joined(base, name)) == Some(name),
{
    let s = joined(base, name);
    assert(name.last() != '/') by {
        assert(name.contains(name[name.len() - 1]));
    }
    assert(!begins(name, seq!['/'])) by {
        if begins(name, seq!['/']) {
            assert(name.subrange(0, 1)[0] == '/');
            assert(name.contains(name[0]));
        }
    }
    assert(s.last() == name.last());
    if s.last() == '.' && s.len() > 1 && s[s.len() - 2] == '/' {
        if name.len() == 1 {
            assert(name =~= seq!['.']);
        } else {
            assert(s[s.len() - 2] == name[name.len() - 2]);
            assert(name.contains(name[name.len() - 2]));
        }
    }
    assert(trimmed(s) == s);
    let k = s.len() - name.len();
    lemma_last_index(s, '/');
    assert forall|i: int| k <= i < s.len() implies s[i] != '/' by {
        assert(s[i] == name[i - k]);
        assert(name.contains(name[i - k]));
    }
    if k > 0 {
        assert(s[k - 1] == '/');
    }
    assert(last_index(s, '/') + 1 == k);
    assert(tail_name(s) =~= name);
}

} // verus!
