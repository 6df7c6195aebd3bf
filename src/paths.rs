use vstd::prelude::*;

use crate::text::{split_on, split_spec, views};

verus! {

/// A path is absolute when it starts at the root.
pub open spec fn is_absolute_spec(p: Seq<char>) -> bool {
    p.len() > 0 && p[0] == '/'
}

/// Whether `p` names a location from the root of the file system.
pub fn is_absolute(p: &str) -> (r: bool)
    ensures
        r == is_absolute_spec(p@),
{
    let n = p.unicode_len();
    n > 0 && p.get_char(0) == '/'
}

/// `name` appended to `dir`, with one separator between them where `dir`
/// does not already end in one; an absolute `name` stands for itself.
pub open spec fn join_spec(dir: Seq<char>, name: Seq<char>) -> Seq<char> {
    if is_absolute_spec(name) {
        name
    } else if dir.len() == 0 || dir.last() == '/' {
        dir + name
    } else {
        dir.push('/') + name
    }
}

/// The path of `name` inside directory `dir`.
pub fn join(dir: &str, name: &str) -> (r: String)
    ensures
        r@ == join_spec(dir@, name@),
{
    if is_absolute(name) {
        return String::from_str(name);
    }
    let n = dir.unicode_len();
    let mut r = String::from_str(dir);
    if n > 0 && dir.get_char(n - 1) != '/' {
        r.append("/");
        proof {
            reveal_strlit("/");
        }
        assert(r@ =~= dir@.push('/'));
    }
    r.append(name);
    r
}

/// A piece between separators that names a step of the path: not empty and
/// not the current directory.
pub open spec fn is_step(piece: Seq<char>) -> bool {
    piece.len() > 0 && piece != seq!['.']
}

/// The named steps of a path, from the root down.
pub open spec fn components_spec(p: Seq<char>) -> Seq<Seq<char>> {
    split_spec(p, '/').filter(|x: Seq<char>| is_step(x))
}

fn is_step_exec(piece: &String) -> (r: bool)
    ensures
        r == is_step(piece@),
{
    let n = piece.as_str().unicode_len();
    if n == 0 {
        false
    } else if n == 1 && piece.as_str().get_char(0) == '.' {
        assert(piece@ =~= seq!['.']);
        false
    } else {
        assert(n == 1 ==> piece@ != seq!['.'] || piece@[0] == '.');
        true
    }
}

/// The named steps of `p`, in order.
pub fn components(p: &str) -> (r: Vec<String>)
    ensures
        views(r@) == components_spec(p@),
{
    let pieces = split_on(p, '/');
    let mut steps: Vec<String> = Vec::new();
    let mut i: usize = 0;
    while i < pieces.len()
        invariant
            i <= pieces@.len(),
            views(pieces@) == split_spec(p@, '/'),
            views(steps@) == views(pieces@).take(i as int).filter(|x: Seq<char>| is_step(x)),
        decreases pieces.len() - i,
    {
        proof {
            reveal(Seq::filter);
            assert(views(pieces@).take(i + 1).drop_last() =~= views(pieces@).take(i as int));
        }
        if is_step_exec(&pieces[i]) {
            let ghost before = steps@;
            steps.push(pieces[i].clone());
            assert(views(steps@) =~= views(before).push(pieces@[i as int]@));
        }
        i = i + 1;
    }
    assert(views(pieces@).take(i as int) =~= views(pieces@));
    steps
}

/// `base` is a proper ancestor of `p`: both are absolute and the steps of
/// `base` are a strict prefix of the steps of `p`. The comparison is step by
/// step, so `/usr/bin` is no ancestor of `/usr/bin-evil/x`.
pub open spec fn is_proper_ancestor_spec(base: Seq<char>, p: Seq<char>) -> bool {
    let b = components_spec(base);
    let c = components_spec(p);
    &&& is_absolute_spec(base)
    &&& is_absolute_spec(p)
    &&& b.len() < c.len()
    &&& c.take(b.len() as int) == b
}

/// Whether `base` is a proper ancestor of `p`, compared step by step.
pub fn is_proper_ancestor(base: &str, p: &str) -> (r: bool)
    ensures
        r == is_proper_ancestor_spec(base@, p@),
{
    if !is_absolute(base) || !is_absolute(p) {
        return false;
    }
    let b = components(base);
    let c = components(p);
    if b.len() >= c.len() {
        return false;
    }
    let mut i: usize = 0;
    while i < b.len()
        invariant
            i <= b@.len() < c@.len(),
            views(b@) == components_spec(base@),
            views(c@) == components_spec(p@),
            forall|j: int| 0 <= j < i ==> b@[j]@ == c@[j]@,
        decreases b.len() - i,
    {
        if !(b[i] == c[i]) {
            assert(views(c@).take(b@.len() as int)[i as int] == c@[i as int]@);
            assert(views(b@)[i as int] == b@[i as int]@);
            assert(views(c@).take(b@.len() as int) != views(b@));

            return false;
        }
        i = i + 1;
    }
    assert(views(c@).take(b@.len() as int) =~= views(b@));
    true
}

} // verus!
