//! Splitting path strings into their `/`-separated components and joining
//! components back into a string.

use vstd::prelude::*;

verus! {

/// Components collected while walking `s` from the front; `cur` holds the
/// characters of the component begun so far. Empty components (from leading,
/// trailing or doubled separators) are dropped.
pub open spec fn split_acc(s: Seq<char>, cur: Seq<char>) -> Seq<Seq<char>>
    decreases s.len(),
{
    if s.len() == 0 {
        if cur.len() == 0 {
            Seq::empty()
        } else {
            seq![cur]
        }
    } else if s[0] == '/' {
        (if cur.len() == 0 {
            Seq::<Seq<char>>::empty()
        } else {
            seq![cur]
        }) + split_acc(s.drop_first(), Seq::empty())
    } else {
        split_acc(s.drop_first(), cur.push(s[0]))
    }
}

/// The nonempty `/`-separated components of a path string, in order.
pub open spec fn spec_segments(s: Seq<char>) -> Seq<Seq<char>> {
    split_acc(s, Seq::empty())
}

/// The components interleaved with single `/` separators.
pub open spec fn spec_join(segs: Seq<Seq<char>>) -> Seq<char>
    decreases segs.len(),
{
    if segs.len() == 0 {
        Seq::empty()
    } else if segs.len() == 1 {
        segs[0]
    } else {
        spec_join(segs.drop_last()) + seq!['/'] + segs.last()
    }
}

/// The views of a vector of owned components.
pub open spec fn seg_views(segs: Seq<String>) -> Seq<Seq<char>> {
    segs.map_values(|t: String| t@)
}

/// Splits `s` into its nonempty `/`-separated components.
pub fn split_segments(s: &str) -> (segs: Vec<String>)
    ensures
        seg_views(segs@) == spec_segments(s@),
{
    let len = s.unicode_len();
    let mut segs: Vec<String> = Vec::new();
    let mut cur: String = String::new();
    let mut i: usize = 0;
    proof {
        assert(s@.skip(0) =~= s@);
        assert(seg_views(segs@) =~= Seq::<Seq<char>>::empty());
        assert(seg_views(segs@) + split_acc(s@, Seq::empty()) =~= split_acc(s@, Seq::empty()));
    }
    while i < len
        invariant
            i <= len,
            len == s@.len(),
            spec_segments(s@) == seg_views(segs@) + split_acc(s@.skip(i as int), cur@),
        decreases len - i,
    {
        let ghost prev_segs = segs@;
        let ghost prev_cur = cur@;
        let c = s.get_char(i);
        proof {
            assert(s@.skip(i as int)[0] == c);
            assert(s@.skip(i as int).drop_first() =~= s@.skip(i as int + 1));
        }
        if c == '/' {
            if !cur.as_str().is_empty() {
                segs.push(cur);
                cur = String::new();
                proof {
                    assert(split_acc(s@.skip(i as int), prev_cur) == seq![prev_cur] + split_acc(
                        s@.skip(i as int + 1),
                        Seq::empty(),
                    ));
                    assert(seg_views(segs@) =~= seg_views(prev_segs) + seq![prev_cur]);
                    assert(seg_views(prev_segs) + (seq![prev_cur] + split_acc(
                        s@.skip(i as int + 1),
                        Seq::empty(),
                    )) =~= (seg_views(prev_segs) + seq![prev_cur]) + split_acc(
                        s@.skip(i as int + 1),
                        Seq::empty(),
                    ));
                }
            } else {
                proof {
                    assert(cur@ =~= Seq::<char>::empty());
                    assert(split_acc(s@.skip(i as int), cur@) == Seq::<Seq<char>>::empty()
                        + split_acc(s@.skip(i as int + 1), Seq::empty()));
                    assert(Seq::<Seq<char>>::empty() + split_acc(
                        s@.skip(i as int + 1),
                        Seq::empty(),
                    ) =~= split_acc(s@.skip(i as int + 1), Seq::empty()));
                }
            }
        } else {
            let piece = s.substring_char(i, i + 1);
            cur.append(piece);
            proof {
                assert(piece@ =~= seq![c]);
                assert(cur@ =~= prev_cur.push(c));
                assert(split_acc(s@.skip(i as int), prev_cur) == split_acc(
                    s@.skip(i as int + 1),
                    prev_cur.push(c),
                ));
            }
        }
        i = i + 1;
    }
    proof {
        assert(s@.skip(len as int) =~= Seq::<char>::empty());
    }
    if !cur.as_str().is_empty() {
        let ghost prev_segs = segs@;
        let ghost prev_cur = cur@;
        segs.push(cur);
        proof {
            assert(seg_views(segs@) =~= seg_views(prev_segs) + seq![prev_cur]);
        }
    }
    segs
}

/// Joins the components of `segs` with single `/` separators.
pub fn join_segments(segs: &Vec<String>) -> (r: String)
    ensures
        r@ == spec_join(seg_views(segs@)),
{
    let mut r = String::new();
    let mut i: usize = 0;
    while i < segs.len()
        invariant
            i <= segs@.len(),
            r@ == spec_join(seg_views(segs@).take(i as int)),
        decreases segs@.len() - i,
    {
        if i > 0 {
            r.append("/");
        }
        r.append(segs[i].as_str());
        proof {
            reveal_strlit("/");
            let m = seg_views(segs@);
            assert(m.take(i as int + 1).drop_last() =~= m.take(i as int));
            assert(m.take(i as int + 1).last() == m[i as int]);
            if i == 0 {
                assert(spec_join(m.take(1)) == m[0]);
            } else {
                assert("/"@ =~= seq!['/']);
                assert(r@ =~= spec_join(m.take(i as int)) + seq!['/'] + m[i as int]);
            }
        }
        i = i + 1;
    }
    proof {
        assert(seg_views(segs@).take(segs@.len() as int) =~= seg_views(segs@));
    }
    r
}

} // verus!
