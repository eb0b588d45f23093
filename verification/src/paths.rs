//! Paths, compared component by component.

use vstd::prelude::*;
use vstd::string::*;
use crate::text::chars_of;

verus! {

/// What a path leads to: from the root or not, and through which components.
pub ghost struct PathView {
    pub rooted: bool,
    pub parts: Seq<Seq<char>>,
}

/// What stands between the slashes of a path, empty pieces included.
pub open spec fn pieces(path: Seq<char>) -> Seq<Seq<char>>
    decreases path.len(),
{
    if path.len() == 0 {
        seq![Seq::empty()]
    } else {
        let before = pieces(path.drop_last());
        if path.last() == '/' {
            before.push(Seq::empty())
        } else {
            before.update(before.len() - 1, before.last().push(path.last()))
        }
    }
}

/// A piece is a component unless it is empty, or a dot that does not start the path.
pub open spec fn is_component(piece: Seq<char>, at: int) -> bool {
    piece.len() > 0 && (at == 0 || piece != seq!['.'])
}

/// The components among the first `n` pieces.
pub open spec fn components(pieces: Seq<Seq<char>>, n: int) -> Seq<Seq<char>>
    decreases n,
{
    if n <= 0 {
        Seq::empty()
    } else if is_component(pieces[n - 1], n - 1) {
        components(pieces, n - 1).push(pieces[n - 1])
    } else {
        components(pieces, n - 1)
    }
}

/// What a path leads to. Repeated and trailing slashes make no difference, nor do dots, but for
/// one that starts the path.
pub open spec fn path_of(path: Seq<char>) -> PathView {
    PathView {
        rooted: path.len() > 0 && path[0] == '/',
        parts: components(pieces(path), pieces(path).len() as int),
    }
}

pub open spec fn texts_of(texts: Seq<Vec<char>>) -> Seq<Seq<char>> {
    texts.map_values(|t: Vec<char>| t@)
}

fn split(path: &Vec<char>) -> (r: Vec<Vec<char>>)
    ensures
        texts_of(r@) == pieces(path@),
{
    let mut done: Vec<Vec<char>> = Vec::new();
    let mut piece: Vec<char> = Vec::new();
    let mut i: usize = 0;
    proof {
        assert(texts_of(done@).push(piece@) =~= pieces(path@.take(0)));
    }
    while i < path.len()
        invariant
            i <= path@.len(),
            texts_of(done@).push(piece@) == pieces(path@.take(i as int)),
        decreases path@.len() - i,
    {
        let ghost before = texts_of(done@).push(piece@);
        proof {
            assert(path@.take(i + 1).drop_last() =~= path@.take(i as int));
            assert(path@.take(i + 1).last() == path@[i as int]);
        }
        if path[i] == '/' {
            done.push(piece);
            piece = Vec::new();
            proof {
                assert(texts_of(done@) =~= before);
                assert(texts_of(done@).push(piece@) =~= before.push(Seq::empty()));
            }
        } else {
            piece.push(path[i]);
            proof {
                assert(texts_of(done@).push(piece@) =~= before.update(
                    before.len() - 1,
                    before.last().push(path@[i as int]),
                ));
            }
        }
        i = i + 1;
    }
    proof {
        assert(path@.take(i as int) =~= path@);
    }
    let ghost all = texts_of(done@).push(piece@);
    done.push(piece);
    proof {
        assert(texts_of(done@) =~= all);
    }
    done
}

fn counts(piece: &Vec<char>, at: usize) -> (r: bool)
    ensures
        r == is_component(piece@, at as int),
{
    let dot = piece.len() == 1 && piece[0] == '.';
    proof {
        assert(dot <==> piece@ =~= seq!['.']);
    }
    piece.len() > 0 && (at == 0 || !dot)
}

fn same_chars(a: &Vec<char>, b: &Vec<char>) -> (r: bool)
    ensures
        r == (a@ == b@),
{
    if a.len() != b.len() {
        return false;
    }
    let mut i: usize = 0;
    while i < a.len()
        invariant
            i <= a@.len(),
            a@.len() == b@.len(),
            forall|j: int| 0 <= j < i ==> a@[j] == b@[j],
        decreases a@.len() - i,
    {
        if a[i] != b[i] {
            return false;
        }
        i = i + 1;
    }
    proof {
        assert(a@ =~= b@);
    }
    true
}

/// The components of a path, in order.
fn parts_of(path: &Vec<char>) -> (r: Vec<Vec<char>>)
    ensures
        texts_of(r@) == path_of(path@).parts,
{
    let mut left = split(path);
    let ghost all = texts_of(left@);
    let mut parts: Vec<Vec<char>> = Vec::new();
    let mut i: usize = 0;
    let n: usize = left.len();
    proof {
        assert(texts_of(parts@) =~= components(all, 0));
    }
    while i < n
        invariant
            i <= n,
            n == all.len(),
            left@.len() == n,
            forall|j: int| i <= j < n ==> (#[trigger] left@[j])@ == all[j],
            texts_of(parts@) == components(all, i as int),
        decreases n - i,
    {
        let mut piece: Vec<char> = Vec::new();
        let ghost was = left@;
        proof {
            assert(was[i as int]@ == all[i as int]);
        }
        piece.append(&mut left[i]);
        proof {
            assert(piece@ =~= all[i as int]);
            assert forall|j: int| i < j < n implies (#[trigger] left@[j])@ == all[j] by {
                assert(left@[j] == was[j]);
            }
        }
        if counts(&piece, i) {
            let ghost before = texts_of(parts@);
            parts.push(piece);
            proof {
                assert(texts_of(parts@) =~= before.push(all[i as int]));
            }
        }
        i = i + 1;
    }
    parts
}

/// Whether two paths are the same, component by component.
pub fn same_path(a: &str, b: &str) -> (r: bool)
    ensures
        r == (path_of(a@) == path_of(b@)),
{
    let x = chars_of(a);
    let y = chars_of(b);
    let rooted = (x.len() > 0 && x[0] == '/') == (y.len() > 0 && y[0] == '/');
    let p = parts_of(&x);
    let q = parts_of(&y);
    let ghost s = path_of(a@).parts;
    let ghost t = path_of(b@).parts;
    if !rooted || p.len() != q.len() {
        proof {
            assert(texts_of(p@).len() == p@.len() && texts_of(q@).len() == q@.len());
        }
        return false;
    }
    let mut i: usize = 0;
    while i < p.len()
        invariant
            i <= p@.len(),
            p@.len() == q@.len(),
            s == texts_of(p@),
            t == texts_of(q@),
            s == path_of(a@).parts,
            t == path_of(b@).parts,
            forall|j: int| 0 <= j < i ==> s[j] == t[j],
        decreases p@.len() - i,
    {
        proof {
            assert(s[i as int] == p@[i as int]@ && t[i as int] == q@[i as int]@);
        }
        if !same_chars(&p[i], &q[i]) {
            return false;
        }
        i = i + 1;
    }
    proof {
        assert(s =~= t);
    }
    true
}

} // verus!
