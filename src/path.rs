//! The final component of a `/`-separated path, as `Path::file_name` gives
//! it on Unix.
use vstd::prelude::*;
use crate::text::views_of;

verus! {

/// The `/`-separated segments of a path, empty ones included; arguments as
/// for `text::lines_from`.
pub open spec fn segments_from(done: Seq<Seq<char>>, cur: Seq<char>, rest: Seq<char>) -> Seq<Seq<char>>
    decreases rest.len(),
{
    if rest.len() == 0 {
        done.push(cur)
    } else if rest[0] == '/' {
        segments_from(done.push(cur), Seq::empty(), rest.drop_first())
    } else {
        segments_from(done, cur.push(rest[0]), rest.drop_first())
    }
}

pub open spec fn segments_of(p: Seq<char>) -> Seq<Seq<char>> {
    segments_from(Seq::empty(), Seq::empty(), p)
}

/// The segments that name something: not empty and not `.`.
pub open spec fn named_segments(segs: Seq<Seq<char>>) -> Seq<Seq<char>>
    decreases segs.len(),
{
    if segs.len() == 0 {
        Seq::empty()
    } else {
        let prev = named_segments(segs.drop_last());
        if segs.last().len() == 0 || segs.last() == seq!['.'] {
            prev
        } else {
            prev.push(segs.last())
        }
    }
}

/// The last segment that names something, unless there is none or it is `..`.
pub open spec fn file_name_of(p: Seq<char>) -> Option<Seq<char>> {
    let named = named_segments(segments_of(p));
    if named.len() == 0 || named.last() == seq!['.', '.'] {
        None
    } else {
        Some(named.last())
    }
}

/// Splits a path at each `/`.
fn split_segments(p: &Vec<char>) -> (r: Vec<Vec<char>>)
    ensures
        views_of(r@) == segments_of(p@),
{
    let mut done: Vec<Vec<char>> = Vec::new();
    let mut cur: Vec<char> = Vec::new();
    let mut i: usize = 0;
    assert(views_of(done@) =~= Seq::empty());
    assert(p@.skip(0) =~= p@);
    while i < p.len()
        invariant
            i <= p.len(),
            segments_from(views_of(done@), cur@, p@.skip(i as int)) == segments_of(p@),
        decreases p.len() - i,
    {
        let c = p[i];
        assert(p@.skip(i as int).drop_first() =~= p@.skip(i + 1));
        assert(p@.skip(i as int)[0] == c);
        if c == '/' {
            let seg = cur;
            cur = Vec::new();
            assert(views_of(done@.push(seg)) =~= views_of(done@).push(seg@));
            done.push(seg);
        } else {
            cur.push(c);
        }
        i = i + 1;
    }
    assert(p@.skip(i as int) =~= Seq::<char>::empty());
    assert(views_of(done@.push(cur)) =~= views_of(done@).push(cur@));
    done.push(cur);
    done
}

/// The final component of a path, if it has one.
pub fn file_name(p: &Vec<char>) -> (r: Option<Vec<char>>)
    ensures
        r is None <==> file_name_of(p@) is None,
        r matches Some(n) ==> file_name_of(p@) == Some(n@),
{
    let segs = split_segments(p);
    let ghost sv = views_of(segs@);
    let mut last: Option<usize> = None;
    let mut k: usize = 0;
    assert(sv.take(0) =~= Seq::<Seq<char>>::empty());
    while k < segs.len()
        invariant
            k <= segs.len(),
            sv == views_of(segs@),
            match last {
                None => named_segments(sv.take(k as int)).len() == 0,
                Some(j) => j < k && named_segments(sv.take(k as int)).len() > 0
                    && named_segments(sv.take(k as int)).last() == sv[j as int],
            },
        decreases segs.len() - k,
    {
        assert(sv.take(k + 1).drop_last() =~= sv.take(k as int));
        assert(sv.take(k + 1).last() == sv[k as int]);
        assert(sv[k as int] == segs@[k as int]@);
        let s = &segs[k];
        let dot = s.len() == 1 && s[0] == '.';
        proof {
            if s.len() == 1 {
                assert((s@ == seq!['.']) == (s@[0] == '.')) by {
                    if s@[0] == '.' {
                        assert(s@ =~= seq!['.']);
                    }
                }
            } else {
                assert(s@ != seq!['.']) by {
                    if s@ == seq!['.'] {
                        assert(s@.len() == 1);
                    }
                }
            }
        }
        if s.len() > 0 && !dot {
            last = Some(k);
        }
        k = k + 1;
    }
    assert(sv.take(k as int) =~= sv);
    match last {
        None => None,
        Some(j) => {
            let s = &segs[j];
            assert(sv[j as int] == segs@[j as int]@);
            if s.len() == 2 && s[0] == '.' && s[1] == '.' {
                assert(s@ =~= seq!['.', '.']);
                None
            } else {
                assert(s@ != seq!['.', '.']) by {
                    if s@ == seq!['.', '.'] {
                        assert(s@.len() == 2 && s@[0] == '.' && s@[1] == '.');
                    }
                }
                let mut n: Vec<char> = Vec::new();
                let mut i: usize = 0;
                while i < s.len()
                    invariant
                        i <= s.len(),
                        n@ == s@.take(i as int),
                    decreases s.len() - i,
                {
                    n.push(s[i]);
                    i = i + 1;
                    assert(n@ =~= s@.take(i as int));
                }
                assert(s@.take(i as int) =~= s@);
                Some(n)
            }
        },
    }
}

} // verus!
