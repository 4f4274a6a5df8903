use vstd::prelude::*;

use crate::text::{chars_of, concat, owned, push_char};

verus! {

// Paths are kept as text with `/` between components, as on Unix.

/// A path is absolute when it starts at the root.
pub open spec fn is_absolute(p: Seq<char>) -> bool {
    p.len() > 0 && p[0] == '/'
}

pub fn is_absolute_path(p: &str) -> (r: bool)
    ensures
        r == is_absolute(p@),
{
    let cs = chars_of(p);
    cs.len() > 0 && cs[0] == '/'
}

/// `path` appended to `base` (`Path::join`): an absolute `path` replaces `base`; otherwise a
/// `/` separates them unless `base` is empty or already ends with one.
pub open spec fn joined(base: Seq<char>, path: Seq<char>) -> Seq<char> {
    if is_absolute(path) {
        path
    } else if base.len() == 0 || base.last() == '/' {
        base + path
    } else {
        base + seq!['/'] + path
    }
}

pub fn join_path(base: &str, path: &str) -> (r: String)
    ensures
        r@ == joined(base@, path@),
{
    if is_absolute_path(path) {
        return owned(path);
    }
    let bs = chars_of(base);
    if bs.len() == 0 || bs[bs.len() - 1] == '/' {
        concat(base, path)
    } else {
        let mut r = owned(base);
        push_char(&mut r, '/');
        let whole = concat(r.as_str(), path);
        whole
    }
}

/// Where a configured path points: an absolute path stays, a relative one is taken from
/// `base_dir`.
pub open spec fn resolved(base_dir: Seq<char>, path: Seq<char>) -> Seq<char> {
    if is_absolute(path) {
        path
    } else {
        joined(base_dir, path)
    }
}

pub fn resolve_path(base_dir: &str, path: &str) -> (r: String)
    ensures
        r@ == resolved(base_dir@, path@),
{
    if is_absolute_path(path) {
        owned(path)
    } else {
        join_path(base_dir, path)
    }
}

// ---------------------------------------------------------------------------
// Components
// ---------------------------------------------------------------------------

/// The pieces of `p` between `/` separators, empty ones included.
pub open spec fn split_slashes(p: Seq<char>) -> Seq<Seq<char>>
    decreases p.len(),
{
    if p.len() == 0 {
        seq![Seq::empty()]
    } else {
        let before = split_slashes(p.drop_last());
        if p.last() == '/' {
            before.push(Seq::empty())
        } else {
            before.update(before.len() - 1, before.last().push(p.last()))
        }
    }
}

/// A piece that names something: neither empty nor `.`.
pub open spec fn is_named(piece: Seq<char>) -> bool {
    piece.len() > 0 && piece != seq!['.']
}

/// The named pieces, in order.
pub open spec fn named_pieces(pieces: Seq<Seq<char>>) -> Seq<Seq<char>>
    decreases pieces.len(),
{
    if pieces.len() == 0 {
        Seq::empty()
    } else {
        let before = named_pieces(pieces.drop_last());
        if is_named(pieces.last()) {
            before.push(pieces.last())
        } else {
            before
        }
    }
}

/// The components of a path (`Path::components`): the root (written `/`) or a leading `.`,
/// then the named pieces; repeated separators and inner `.` are dropped.
pub open spec fn components(p: Seq<char>) -> Seq<Seq<char>> {
    let lead = if is_absolute(p) {
        seq![seq!['/']]
    } else if split_slashes(p)[0] == seq!['.'] {
        seq![seq!['.']]
    } else {
        Seq::empty()
    };
    lead + named_pieces(split_slashes(p))
}

/// `base` is a prefix of `p`, component by component (`Path::starts_with`).
pub open spec fn path_within(p: Seq<char>, base: Seq<char>) -> bool {
    components(base).is_prefix_of(components(p))
}

proof fn lemma_split_nonempty(p: Seq<char>)
    ensures
        split_slashes(p).len() >= 1,
    decreases p.len(),
{
    if p.len() > 0 {
        lemma_split_nonempty(p.drop_last());
    }
}

fn pieces_of(p: &str) -> (r: Vec<String>)
    ensures
        r@.map_values(|s: String| s@) == split_slashes(p@),
{
    let cs = chars_of(p);
    let mut done: Vec<String> = Vec::new();
    let mut cur = String::new();
    let mut i: usize = 0;
    proof {
        assert(cs@.take(0) =~= Seq::<char>::empty());
        assert(done@.map_values(|s: String| s@).push(cur@) =~= seq![Seq::<char>::empty()]);
    }
    while i < cs.len()
        invariant
            i <= cs@.len(),
            cs@ == p@,
            done@.map_values(|s: String| s@).push(cur@) == split_slashes(cs@.take(i as int)),
        decreases cs@.len() - i,
    {
        let c = cs[i];
        let ghost before = done@.map_values(|s: String| s@).push(cur@);
        assert(cs@.take(i + 1).drop_last() =~= cs@.take(i as int));
        if c == '/' {
            let finished = cur;
            done.push(finished);
            cur = String::new();
            assert(done@.map_values(|s: String| s@).push(cur@) =~= before.push(Seq::empty()));
        } else {
            push_char(&mut cur, c);
            assert(done@.map_values(|s: String| s@).push(cur@) =~= before.update(
                before.len() - 1,
                before.last().push(c),
            ));
        }
        i = i + 1;
    }
    assert(cs@.take(cs@.len() as int) =~= cs@);
    done.push(cur);
    done
}

fn is_named_piece(s: &str) -> (r: bool)
    ensures
        r == is_named(s@),
{
    let cs = chars_of(s);
    if cs.len() == 0 {
        return false;
    }
    if cs.len() == 1 && cs[0] == '.' {
        assert(s@ =~= seq!['.']);
        return false;
    }
    if cs.len() == 1 {
        assert(s@ != seq!['.']) by {
            assert(s@[0] != seq!['.'][0]);
        }
    } else {
        assert(s@.len() != seq!['.'].len());
    }
    true
}

/// The components of a path, as text.
pub fn path_components(p: &str) -> (r: Vec<String>)
    ensures
        r@.map_values(|s: String| s@) == components(p@),
{
    let pieces = pieces_of(p);
    let ghost ps = pieces@.map_values(|s: String| s@);
    proof {
        lemma_split_nonempty(p@);
    }
    let mut out: Vec<String> = Vec::new();
    if is_absolute_path(p) {
        let mut root = String::new();
        push_char(&mut root, '/');
        out.push(root);
    } else {
        let first = pieces[0].as_str();
        let fc = chars_of(first);
        if fc.len() == 1 && fc[0] == '.' {
            let mut dot = String::new();
            push_char(&mut dot, '.');
            out.push(dot);
            assert(ps[0] =~= seq!['.']);
        } else {
            assert(ps[0] != seq!['.']) by {
                if fc.len() == 1 {
                    assert(ps[0][0] != seq!['.'][0]);
                } else {
                    assert(ps[0].len() != seq!['.'].len());
                }
            }
        }
    }
    let ghost lead = out@.map_values(|s: String| s@);
    assert(named_pieces(ps.take(0)) =~= Seq::<Seq<char>>::empty());
    assert(out@.map_values(|s: String| s@) =~= lead + named_pieces(ps.take(0)));
    let mut i: usize = 0;
    while i < pieces.len()
        invariant
            i <= pieces@.len(),
            ps == pieces@.map_values(|s: String| s@),
            out@.map_values(|s: String| s@) == lead + named_pieces(ps.take(i as int)),
        decreases pieces@.len() - i,
    {
        assert(ps.take(i + 1).drop_last() =~= ps.take(i as int));
        assert(ps.take(i + 1).last() == pieces@[i as int]@);
        if is_named_piece(pieces[i].as_str()) {
            let ghost before = out@.map_values(|s: String| s@);
            out.push(owned(pieces[i].as_str()));
            assert(out@.map_values(|s: String| s@) =~= before.push(pieces@[i as int]@));
        }
        i = i + 1;
    }
    assert(ps.take(ps.len() as int) =~= ps);
    out
}

/// Whether `p` lies under `base`, comparing whole components (`Path::starts_with`).
pub fn path_starts_with(p: &str, base: &str) -> (r: bool)
    ensures
        r == path_within(p@, base@),
{
    let pc = path_components(p);
    let bc = path_components(base);
    let ghost pv = pc@.map_values(|s: String| s@);
    let ghost bv = bc@.map_values(|s: String| s@);
    assert(pv.len() == pc@.len() && bv.len() == bc@.len());
    assert(pv == components(p@) && bv == components(base@));
    if bc.len() > pc.len() {
        return false;
    }
    let mut i: usize = 0;
    while i < bc.len()
        invariant
            i <= bc@.len() <= pc@.len(),
            pv == pc@.map_values(|s: String| s@),
            bv == bc@.map_values(|s: String| s@),
            pv.len() == pc@.len() && bv.len() == bc@.len(),
            pv == components(p@) && bv == components(base@),
            forall|k: int| 0 <= k < i ==> pv[k] == bv[k],
        decreases bc@.len() - i,
    {
        if !crate::text::same_text(pc[i].as_str(), bc[i].as_str()) {
            assert(pc@[i as int]@ != bc@[i as int]@);
            assert(pv[i as int] != bv[i as int]);
            assert(pv.subrange(0, bv.len() as int)[i as int] != bv[i as int]);
            return false;
        }
        i = i + 1;
    }
    assert(bv =~= pv.subrange(0, bv.len() as int));
    true
}

} // verus!
