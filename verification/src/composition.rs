//! How plates are made of plates: chains of components, and what it means
//! for a composition to run in a circle.

use vstd::prelude::*;
use vstd::set_lib::{lemma_int_range, lemma_len_subset, set_int_range};
use crate::model::CatalogModel;

verus! {

/// No plate of the chain `w` is on `path`.
pub open spec fn avoids(w: Seq<int>, path: Seq<int>) -> bool {
    forall|i: int| 0 <= i < w.len() ==> !path.contains(#[trigger] w[i])
}

/// Every member of `path` is the number of one of `n` plates, and none
/// occurs twice.
pub open spec fn simple_path(path: Seq<int>, n: int) -> bool {
    &&& path.no_duplicates()
    &&& forall|i: int| 0 <= i < path.len() ==> 0 <= #[trigger] path[i] < n
}

impl CatalogModel {
    /// Some chain from `p` comes by a plate twice or by a plate of `path`.
    /// With an empty `path` this is `cyclic_from`.
    pub open spec fn stopped(self, p: int, path: Seq<int>) -> bool {
        exists|w: Seq<int>| #[trigger]
            self.is_chain(w) && w[0] == p && !(w.no_duplicates() && avoids(w, path))
    }

    /// A plate that is on the path stops the walk at once.
    pub proof fn lemma_stopped_on_path(self, p: int, path: Seq<int>)
        requires
            self.has_plate(p),
            path.contains(p),
        ensures
            self.stopped(p, path),
    {
        let w = seq![p];
        assert(self.is_chain(w));
        assert(w[0] == p);
        assert(!avoids(w, path));
    }

    /// What stops the walk below a component stops it at the plate.
    pub proof fn lemma_stopped_below(self, p: int, s: int, path: Seq<int>)
        requires
            self.uses(p, s),
            self.stopped(s, path.push(p)),
        ensures
            self.stopped(p, path),
    {
        let below = choose|w: Seq<int>| #[trigger]
            self.is_chain(w) && w[0] == s && !(w.no_duplicates() && avoids(w, path.push(p)));
        let w = seq![p] + below;
        assert forall|i: int| 0 <= i < w.len() - 1 implies self.uses(#[trigger] w[i], w[i + 1]) by {
            if i == 0 {
                assert(w[1] == below[0]);
            } else {
                assert(w[i] == below[i - 1]);
                assert(w[i + 1] == below[i]);
            }
        }
        assert(self.is_chain(w));
        if !below.no_duplicates() {
            let (i, j) = choose|i: int, j: int|
                0 <= i < below.len() && 0 <= j < below.len() && i != j && below[i] == below[j];
            assert(w[i + 1] == below[i]);
            assert(w[j + 1] == below[j]);
            assert(!w.no_duplicates());
        } else {
            let i = choose|i: int| 0 <= i < below.len() && path.push(p).contains(#[trigger] below[i]);
            assert(w[i + 1] == below[i]);
            let at = choose|j: int| 0 <= j < path.push(p).len() && path.push(p)[j] == below[i];
            if at < path.len() {
                assert(path[at] == w[i + 1]);
                assert(path.contains(w[i + 1]));
                assert(!avoids(w, path));
            } else {
                assert(w[0] == w[i + 1]);
                assert(!w.no_duplicates());
            }
        }
    }

    /// Where nothing stops the walk below any component, nothing stops it
    /// at the plate.
    pub proof fn lemma_not_stopped(self, p: int, path: Seq<int>)
        requires
            self.wf(),
            self.has_plate(p),
            !path.contains(p),
            forall|s: int| self.uses(p, s) ==> !self.stopped(s, path.push(p)),
        ensures
            !self.stopped(p, path),
    {
        assert forall|w: Seq<int>| #[trigger] self.is_chain(w) && w[0] == p implies w.no_duplicates()
            && avoids(w, path) by {
            if w.len() == 1 {
                assert(avoids(w, path));
            } else {
                let s = w[1];
                assert(self.uses(w[0], w[1]));
                self.lemma_used_is_known(p, s);
                let below = w.subrange(1, w.len() as int);
                assert forall|i: int| 0 <= i < below.len() - 1 implies self.uses(
                    #[trigger] below[i],
                    below[i + 1],
                ) by {
                    assert(below[i] == w[i + 1]);
                    assert(below[i + 1] == w[i + 2]);
                    assert(self.uses(w[i + 1], w[i + 2]));
                }
                assert(below[0] == s);
                assert(self.is_chain(below));
                assert(!self.stopped(s, path.push(p)));
                assert(below.no_duplicates() && avoids(below, path.push(p)));
                assert forall|i: int, j: int|
                    0 <= i < w.len() && 0 <= j < w.len() && i != j implies w[i] != w[j] by {
                    if i == 0 {
                        assert(w[j] == below[j - 1]);
                        assert(path.push(p)[path.len() as int] == p);
                        assert(!path.push(p).contains(below[j - 1]));
                    } else if j == 0 {
                        assert(w[i] == below[i - 1]);
                        assert(path.push(p)[path.len() as int] == p);
                        assert(!path.push(p).contains(below[i - 1]));
                    } else {
                        assert(w[i] == below[i - 1]);
                        assert(w[j] == below[j - 1]);
                    }
                }
                assert forall|i: int| 0 <= i < w.len() implies !path.contains(#[trigger] w[i]) by {
                    if i > 0 {
                        assert(w[i] == below[i - 1]);
                        assert(!path.push(p).contains(below[i - 1]));
                        if path.contains(w[i]) {
                            let at = choose|j: int| 0 <= j < path.len() && path[j] == w[i];
                            assert(path.push(p)[at] == w[i]);
                        }
                    }
                }
            }
        }
    }

    /// In a well-formed catalog a plate lists only plates that the catalog
    /// holds.
    pub proof fn lemma_used_is_known(self, a: int, b: int)
        requires
            self.wf(),
            self.uses(a, b),
        ensures
            self.has_plate(a),
            self.has_plate(b),
    {
        let k = choose|k: int|
            0 <= k < self.plates[a].components.len() && (
            #[trigger] self.plates[a].components[k]).is_plate(b);
        assert(self.component_known(self.plates[a].components[k]));
    }

    /// With nothing on the path, what stops the walk is a circle.
    pub proof fn lemma_stopped_at_start(self, p: int)
        ensures
            self.stopped(p, Seq::empty()) <==> self.cyclic_from(p),
    {
        if self.cyclic_from(p) {
            let w = choose|w: Seq<int>| #[trigger] self.is_chain(w) && w[0] == p && !w.no_duplicates();
            assert(self.is_chain(w) && w[0] == p && !(w.no_duplicates() && avoids(w, Seq::empty())));
        }
        if self.stopped(p, Seq::empty()) {
            let w = choose|w: Seq<int>| #[trigger]
                self.is_chain(w) && w[0] == p && !(w.no_duplicates() && avoids(w, Seq::empty()));
            assert(avoids(w, Seq::empty()));
            assert(self.is_chain(w) && w[0] == p && !w.no_duplicates());
        }
    }
}

/// A path that visits no plate twice and leaves one plate out is shorter
/// than the catalog.
pub proof fn lemma_path_is_short(path: Seq<int>, p: int, n: int)
    requires
        simple_path(path, n),
        0 <= p < n,
        !path.contains(p),
    ensures
        path.len() < n,
{
    path.unique_seq_to_set();
    lemma_int_range(0, n);
    let rest = set_int_range(0, n).remove(p);
    assert(path.to_set().subset_of(rest)) by {
        assert forall|x: int| path.to_set().contains(x) implies rest.contains(x) by {
            let i = choose|i: int| 0 <= i < path.len() && path[i] == x;
            assert(0 <= path[i] < n);
        }
    }
    lemma_len_subset(path.to_set(), rest);
}

} // verus!
