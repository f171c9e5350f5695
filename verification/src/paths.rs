//! Absolute paths, held as their segments.
//!
//! A pane's working directory is an absolute path: `/home/user` is the
//! segment list `["home", "user"]`, and the filesystem root is the empty
//! list.  Popping a segment off the root yields the root again, so
//! navigating above the root is a no-op.

use vstd::prelude::*;

verus! {

/// An absolute path as its list of segments, root first.
#[derive(Debug)]
pub struct AbsPath {
    pub segs: Vec<String>,
}

impl Clone for AbsPath {
    fn clone(&self) -> (r: AbsPath)
        ensures
            r@ == self@,
    {
        let segs = self.segs.clone();
        proof {
            assert(segs.deep_view() =~= self.segs.deep_view());
        }
        AbsPath { segs }
    }
}

impl View for AbsPath {
    type V = Seq<Seq<char>>;

    open spec fn view(&self) -> Seq<Seq<char>> {
        self.segs.deep_view()
    }
}

/// The segments that remain after one `pop`: the root keeps itself.
pub open spec fn parent_of(segs: Seq<Seq<char>>) -> Seq<Seq<char>> {
    if segs.len() == 0 {
        segs
    } else {
        segs.drop_last()
    }
}

/// The text form of a path: `/` for the root, else `/a/b` for `["a", "b"]`.
pub open spec fn path_text(segs: Seq<Seq<char>>) -> Seq<char>
    decreases segs.len(),
{
    if segs.len() == 0 {
        seq!['/']
    } else if segs.len() == 1 {
        seq!['/'] + segs[0]
    } else {
        path_text(segs.drop_last()) + seq!['/'] + segs.last()
    }
}

/// `split_path` with the segment built so far and the segments already found.
pub open spec fn split_path_acc(s: Seq<char>, cur: Seq<char>, acc: Seq<Seq<char>>) -> Seq<
    Seq<char>,
>
    decreases s.len(),
{
    if s.len() == 0 {
        if cur.len() == 0 {
            acc
        } else {
            acc.push(cur)
        }
    } else if s[0] == '/' {
        if cur.len() == 0 {
            split_path_acc(s.drop_first(), Seq::empty(), acc)
        } else {
            split_path_acc(s.drop_first(), Seq::empty(), acc.push(cur))
        }
    } else {
        split_path_acc(s.drop_first(), cur.push(s[0]), acc)
    }
}

/// The segments of a path text: the parts between `/` separators, with empty
/// parts dropped, so `"/home//user/"` gives `["home", "user"]`.
pub open spec fn split_path(s: Seq<char>) -> Seq<Seq<char>> {
    split_path_acc(s, Seq::empty(), Seq::empty())
}

impl AbsPath {
    /// The filesystem root `/`.
    pub fn root() -> (r: AbsPath)
        ensures
            r@ == Seq::<Seq<char>>::empty(),
    {
        AbsPath { segs: Vec::new() }
    }

    pub fn len(&self) -> (n: usize)
        ensures
            n == self@.len(),
    {
        self.segs.len()
    }

    /// Descend into the child directory named `seg`.
    pub fn push(&mut self, seg: String)
        ensures
            final(self)@ == old(self)@.push(seg@),
    {
        self.segs.push(seg);
        proof {
            assert(self@ =~= old(self)@.push(seg@));
        }
    }

    /// Move to the parent directory; the root's parent is the root itself.
    pub fn pop(&mut self)
        ensures
            final(self)@ == parent_of(old(self)@),
    {
        if self.segs.len() > 0 {
            self.segs.pop();
            proof {
                assert(self@ =~= old(self)@.drop_last());
            }
        }
    }

    /// The path of the entry named `seg` inside this directory.
    pub fn join(&self, seg: &String) -> (r: AbsPath)
        ensures
            r@ == self@.push(seg@),
    {
        let mut segs = self.segs.clone();
        proof {
            assert(segs.deep_view() =~= self.segs.deep_view());
        }
        segs.push(seg.clone());
        proof {
            assert(segs.deep_view() =~= self@.push(seg@));
        }
        AbsPath { segs }
    }

    /// Render the path as text, `/`-separated and starting with `/`.
    pub fn to_text(&self) -> (r: String)
        ensures
            r@ == path_text(self@),
    {
        let mut r = String::new();
        if self.segs.len() == 0 {
            r.push('/');
            proof {
                assert(r@ =~= path_text(self@));
            }
            return r;
        }
        let mut i: usize = 0;
        while i < self.segs.len()
            invariant
                1 <= self.segs.len(),
                0 <= i <= self.segs.len(),
                i == 0 ==> r@ == Seq::<char>::empty(),
                i > 0 ==> r@ == path_text(self@.take(i as int)),
            decreases self.segs.len() - i,
        {
            r.push('/');
            r.push_str(self.segs[i].as_str());
            proof {
                let t = self@.take(i as int + 1);
                assert(t.last() == self@[i as int]);
                assert(t.drop_last() =~= self@.take(i as int));
                if i > 0 {
                    assert(r@ == path_text(self@.take(i as int)) + seq!['/'] + self@[i as int]);
                } else {
                    assert(r@ =~= seq!['/'] + self@[0]);
                }
                assert(r@ =~= path_text(self@.take(i as int + 1)));
            }
            i = i + 1;
        }
        proof {
            assert(self@.take(self@.len() as int) =~= self@);
        }
        r
    }

    /// Read a path back from its text form, dropping empty segments.
    pub fn parse(s: &str) -> (r: AbsPath)
        ensures
            r@ == split_path(s@),
    {
        let n = s.unicode_len();
        let mut segs: Vec<String> = Vec::new();
        let mut cur = String::new();
        let mut i: usize = 0;
        proof {
            assert(s@.skip(0) =~= s@);
            assert(segs.deep_view() =~= Seq::<Seq<char>>::empty());
        }
        while i < n
            invariant
                n == s@.len(),
                0 <= i <= n,
                split_path(s@) == split_path_acc(s@.skip(i as int), cur@, segs.deep_view()),
            decreases n - i,
        {
            let c = s.get_char(i);
            proof {
                assert(s@.skip(i as int)[0] == c);
                assert(s@.skip(i as int).drop_first() =~= s@.skip(i as int + 1));
            }
            if c == '/' {
                if !cur.as_str().is_empty() {
                    let ghost old_segs = segs.deep_view();
                    let ghost old_cur = cur@;
                    segs.push(cur);
                    cur = String::new();
                    proof {
                        assert(segs.deep_view() =~= old_segs.push(old_cur));
                    }
                } else {
                    proof {
                        assert(cur@ =~= Seq::<char>::empty());
                    }
                }
            } else {
                cur.push(c);
            }
            i = i + 1;
        }
        proof {
            assert(s@.skip(n as int) =~= Seq::<char>::empty());
        }
        if !cur.as_str().is_empty() {
            let ghost old_segs = segs.deep_view();
            let ghost old_cur = cur@;
            segs.push(cur);
            proof {
                assert(segs.deep_view() =~= old_segs.push(old_cur));
            }
        }
        AbsPath { segs }
    }
}

/// Entering a child directory and leaving it again restores the path.
pub proof fn lemma_push_then_parent(segs: Seq<Seq<char>>, seg: Seq<char>)
    ensures
        parent_of(segs.push(seg)) == segs,
{
    assert(segs.push(seg).drop_last() =~= segs);
}

} // verus!
