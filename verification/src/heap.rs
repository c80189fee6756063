//! The open set of a best-first search: a binary min-heap.

use vstd::multiset::Multiset;
use vstd::prelude::*;

verus! {

/// A node that waits to be expanded: its rank `f`, the number of jumps `g`
/// made so far and the node itself.
#[derive(Clone, Copy)]
pub struct Entry<T> {
    pub f: u64,
    pub g: u32,
    pub id: T,
}

/// The entries that wait to be expanded, as a binary min-heap on `f`.
pub struct OpenSet<T> {
    items: Vec<Entry<T>>,
}

/// `e` waits and no other entry ranks before it.
pub open spec fn is_least<T>(open: Multiset<Entry<T>>, e: Entry<T>) -> bool {
    open.contains(e) && forall|o: Entry<T>| #[trigger] open.contains(o) ==> e.f <= o.f
}

/// No entry ranks before its parent, except below `hole`.
spec fn heap_but<T>(s: Seq<Entry<T>>, hole: int) -> bool {
    forall|i: int|
        0 < i < s.len() && i != hole ==> (#[trigger] s[i]).f >= s[(i - 1) / 2].f
}

/// No entry ranks before its parent.
spec fn is_heap<T>(s: Seq<Entry<T>>) -> bool {
    forall|i: int| 0 < i < s.len() ==> (#[trigger] s[i]).f >= s[(i - 1) / 2].f
}

/// The first entry of a heap ranks before or beside every other.
proof fn lemma_first_is_least<T>(s: Seq<Entry<T>>, i: int)
    requires
        is_heap(s),
        0 <= i < s.len(),
    ensures
        s[0].f <= s[i].f,
    decreases i,
{
    if i > 0 {
        lemma_first_is_least(s, (i - 1) / 2);
    }
}

/// What replacing one element does to the multiset of the elements.
proof fn lemma_update_multiset<A>(s: Seq<A>, i: int, a: A)
    requires
        0 <= i < s.len(),
    ensures
        s.update(i, a).to_multiset() == s.to_multiset().remove(s[i]).insert(a),
{
    broadcast use vstd::seq_lib::group_to_multiset_ensures;
    broadcast use vstd::multiset::group_multiset_axioms;

    let t = s.update(i, a);
    assert(t.remove(i) == s.remove(i));
    assert(t.to_multiset().remove(a) == s.to_multiset().remove(s[i]));
    assert(t.contains(a)) by {
        assert(t[i] == a);
    }
    assert(t.to_multiset().count(a) > 0);
    assert(t.to_multiset() =~= t.to_multiset().remove(a).insert(a));
}

/// Swapping two elements leaves the multiset of the elements as it was.
proof fn lemma_swap_multiset<A>(s: Seq<A>, i: int, j: int)
    requires
        0 <= i < s.len(),
        0 <= j < s.len(),
    ensures
        s.update(i, s[j]).update(j, s[i]).to_multiset() == s.to_multiset(),
{
    broadcast use vstd::seq_lib::group_to_multiset_ensures;
    broadcast use vstd::multiset::group_multiset_axioms;

    if i == j {
        assert(s.update(i, s[j]).update(j, s[i]) == s);
    } else {
        lemma_update_multiset(s, i, s[j]);
        lemma_update_multiset(s.update(i, s[j]), j, s[i]);
        assert(s.contains(s[i]));
        assert(s.contains(s[j]));
        assert(s.to_multiset().remove(s[i]).insert(s[j]).remove(s[j]).insert(s[i])
            =~= s.to_multiset());
    }
}

impl<T: Copy> OpenSet<T> {
    /// The entries that wait.
    pub closed spec fn view(&self) -> Multiset<Entry<T>> {
        self.items@.to_multiset()
    }

    /// The entries form a heap.
    pub closed spec fn wf(&self) -> bool {
        is_heap(self.items@)
    }

    /// The entry that is handed out next, where one waits.
    pub closed spec fn top(&self) -> Entry<T> {
        self.items@[0]
    }

    /// The open set without entries.
    pub fn new() -> (s: Self)
        ensures
            s.wf(),
            s@ == Multiset::<Entry<T>>::empty(),
    {
        let items: Vec<Entry<T>> = Vec::new();
        proof {
            broadcast use vstd::seq_lib::group_to_multiset_ensures;
            broadcast use vstd::multiset::group_multiset_axioms;

            assert(items@.to_multiset().len() == 0);
            assert(items@.to_multiset() =~= Multiset::<Entry<T>>::empty());
        }
        OpenSet { items }
    }

    /// Whether no entry waits.
    pub fn is_empty(&self) -> (r: bool)
        ensures
            r == (self@.len() == 0),
    {
        proof {
            broadcast use vstd::seq_lib::group_to_multiset_ensures;

        }
        self.items.len() == 0
    }

    /// Adds an entry.
    pub fn push(&mut self, e: Entry<T>)
        requires
            old(self).wf(),
        ensures
            final(self).wf(),
            final(self)@ == old(self)@.insert(e),
    {
        let ghost before = self.items@;
        self.items.push(e);
        proof {
            broadcast use vstd::seq_lib::group_to_multiset_ensures;

        }
        let mut i: usize = self.items.len() - 1;
        while i > 0
            invariant
                i < self.items.len(),
                self.items@.to_multiset() == before.to_multiset().insert(e),
                heap_but(self.items@, i as int),
                forall|c: int|
                    0 < c < self.items.len() && (c - 1) / 2 == i && i > 0
                        ==> (#[trigger] self.items@[c]).f >= self.items@[(i - 1) / 2].f,
            ensures
                is_heap(self.items@),
                self.items@.to_multiset() == before.to_multiset().insert(e),
            decreases i,
        {
            let p: usize = (i - 1) / 2;
            if self.items[p].f <= self.items[i].f {
                break;
            }
            let ghost s = self.items@;
            let child = self.items[i];
            self.items[i] = self.items[p];
            self.items[p] = child;
            proof {
                lemma_swap_multiset(s, i as int, p as int);
                assert(self.items@ =~= s.update(i as int, s[p as int]).update(p as int, s[i as int]));
                let t = self.items@;
                assert forall|k: int| 0 < k < t.len() && k != p implies (#[trigger] t[k]).f >= t[(k
                    - 1) / 2].f by {
                    if k == i {
                    } else if (k - 1) / 2 == i {
                        assert(s[k].f >= s[p as int].f);
                    } else if (k - 1) / 2 == p {
                        assert(s[k].f >= s[p as int].f);
                    } else {
                        assert(s[k].f >= s[(k - 1) / 2].f);
                    }
                }
                assert forall|c: int| 0 < c < t.len() && (c - 1) / 2 == p && p > 0 implies (
                #[trigger] t[c]).f >= t[(p - 1) / 2].f by {
                    assert(s[p as int].f >= s[(p - 1) / 2].f);
                    if c != i {
                        assert(s[c].f >= s[p as int].f);
                    }
                }
            }
            i = p;
        }
    }

    /// The entry that `pop` would hand out.
    pub fn peek(&self) -> (r: Option<Entry<T>>)
        requires
            self.wf(),
        ensures
            r is None <==> self@.len() == 0,
            r matches Some(e) ==> e == self.top() && is_least(self@, e),
    {
        proof {
            broadcast use vstd::seq_lib::group_to_multiset_ensures;

        }
        if self.items.len() == 0 {
            None
        } else {
            let e = self.items[0];
            proof {
                let s = self.items@;
                assert(s.contains(e));
                assert forall|o: Entry<T>| #[trigger] self@.contains(o) implies e.f <= o.f by {
                    assert(s.contains(o));
                    let k = choose|k: int| 0 <= k < s.len() && s[k] == o;
                    lemma_first_is_least(s, k);
                }
            }
            Some(e)
        }
    }

    /// Takes out an entry that no other ranks before.
    pub fn pop(&mut self) -> (r: Option<Entry<T>>)
        requires
            old(self).wf(),
        ensures
            final(self).wf(),
            r is None <==> old(self)@.len() == 0,
            r is None ==> final(self)@ == old(self)@,
            r matches Some(e) ==> e == old(self).top() && is_least(old(self)@, e) && final(self)@
                == old(self)@.remove(e),
    {
        if self.is_empty() {
            return None;
        }
        let ghost before = self.items@;
        proof {
            broadcast use vstd::seq_lib::group_to_multiset_ensures;
            broadcast use vstd::multiset::group_multiset_axioms;

            assert(before.to_multiset().len() > 0);
        }
        let root = self.items[0];
        let last = self.items.pop().unwrap();
        proof {
            broadcast use vstd::seq_lib::group_to_multiset_ensures;

            assert(before.drop_last() =~= before.remove(before.len() - 1));
            assert forall|o: Entry<T>| #[trigger] before.to_multiset().contains(o) implies root.f
                <= o.f by {
                assert(before.contains(o));
                let k = choose|k: int| 0 <= k < before.len() && before[k] == o;
                lemma_first_is_least(before, k);
            }
            assert(before.contains(root));
        }
        if self.items.len() == 0 {
            proof {
                assert(last == root);
            }
            return Some(root);
        }
        let ghost shorter = self.items@;
        self.items[0] = last;
        proof {
            broadcast use vstd::multiset::group_multiset_axioms;
            broadcast use vstd::seq_lib::group_to_multiset_ensures;

            lemma_update_multiset(shorter, 0, last);
            assert(shorter.contains(shorter[0]));
            assert(before.contains(last));
            if last == root {
                assert(shorter.update(0, last) =~= shorter);
            }
            assert(self.items@.to_multiset() =~= before.to_multiset().remove(root));
        }
        self.sift_down(Ghost(before.to_multiset().remove(root)));
        Some(root)
    }

    /// Restores the heap after the root has been replaced.
    fn sift_down(&mut self, Ghost(content): Ghost<Multiset<Entry<T>>>)
        requires
            old(self).items.len() > 0,
            old(self).items@.to_multiset() == content,
            forall|i: int|
                0 < i < old(self).items.len() && (i - 1) / 2 != 0 ==> (#[trigger] old(
                    self,
                ).items@[i]).f >= old(self).items@[(i - 1) / 2].f,
        ensures
            final(self).wf(),
            final(self)@ == content,
    {
        let n: usize = self.items.len();
        let mut i: usize = 0;
        loop
            invariant
                n == self.items.len(),
                i < n,
                self.items@.to_multiset() == content,
                forall|k: int|
                    0 < k < n && (k - 1) / 2 != i ==> (#[trigger] self.items@[k]).f
                        >= self.items@[(k - 1) / 2].f,
                forall|k: int|
                    0 < k < n && (k - 1) / 2 == i && i > 0 ==> (#[trigger] self.items@[k]).f
                        >= self.items@[(i - 1) / 2].f,
            ensures
                is_heap(self.items@),
                self.items@.to_multiset() == content,
            decreases n - i,
        {
            if i >= n / 2 {
                break;
            }
            let left: usize = 2 * i + 1;
            let mut c: usize = left;
            if left + 1 < n && self.items[left + 1].f < self.items[left].f {
                c = left + 1;
            }
            if self.items[i].f <= self.items[c].f {
                proof {
                    let t = self.items@;
                    assert forall|k: int| 0 < k < t.len() implies (#[trigger] t[k]).f >= t[(k - 1)
                        / 2].f by {
                        if (k - 1) / 2 == i {
                            assert(k == left || k == left + 1);
                        }
                    }
                }
                break;
            }
            let ghost s = self.items@;
            let parent = self.items[i];
            self.items[i] = self.items[c];
            self.items[c] = parent;
            proof {
                lemma_swap_multiset(s, i as int, c as int);
                let t = self.items@;
                assert(t =~= s.update(i as int, s[c as int]).update(c as int, s[i as int]));
                assert forall|k: int| 0 < k < n && (k - 1) / 2 != c implies (#[trigger] t[k]).f
                    >= t[(k - 1) / 2].f by {
                    if (k - 1) / 2 == i {
                        assert(k == left || k == left + 1);
                    } else if k == i {
                        assert(s[c as int].f >= s[(i - 1) / 2].f);
                    } else {
                        assert(s[k].f >= s[(k - 1) / 2].f);
                    }
                }
                assert forall|k: int| 0 < k < n && (k - 1) / 2 == c && c > 0 implies (
                #[trigger] t[k]).f >= t[(c - 1) / 2].f by {
                    assert(s[k].f >= s[(k - 1) / 2].f);
                }
            }
            i = c;
        }
    }
}

} // verus!
