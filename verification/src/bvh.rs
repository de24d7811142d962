//! The bounding-volume hierarchy: a binary tree built by median split along
//! a randomly chosen axis, each node's box the union of its children's.

use crate::aabb::{
    lemma_box_contains_trans, lemma_surrounding_box_contains, spec_box_contains,
    spec_surrounding_box, AABB,
};
use crate::hittable::{
    clone_hittable, has_box, lemma_box_presence, spec_bounding_box, Hittable, HittableList,
};
use crate::rng::{random_int, Rng};
use crate::seqs::{lemma_subrange_multiset_source, lemma_swap_in_subrange, lemma_swap_multiset};
use crate::vec3::spec_at;
use vstd::prelude::*;
use vstd::seq_lib::group_to_multiset_ensures;

verus! {

#[allow(non_camel_case_types)]
pub struct bvhNode {
    pub left: Box<Hittable>,
    pub right: Box<Hittable>,
    pub my_box: AABB,
}

/// `bb` is the box one of the tree's leaves reports for `[t0, t1]`; any
/// non-node object is its own single leaf.
pub open spec fn tree_has_leaf_box(h: Hittable, bb: AABB, t0: int, t1: int) -> bool
    decreases h,
{
    match h {
        Hittable::Node(n) => tree_has_leaf_box(*n.left, bb, t0, t1) || tree_has_leaf_box(
            *n.right,
            bb,
            t0,
            t1,
        ),
        _ => spec_bounding_box(h, t0, t1) == Some(bb),
    }
}

/// No element of the subrange is itself a tree node, so the elements are
/// exactly the leaves a build over the subrange produces.
pub open spec fn no_node_elements(objs: Seq<Hittable>, start: int, end: int) -> bool {
    forall|i: int| start <= i < end ==> !((#[trigger] objs[i]) is Node)
}

/// The box an object reports for a time interval, where it reports one.
pub open spec fn spec_box_at(h: Hittable, t0: int, t1: int) -> AABB {
    spec_bounding_box(h, t0, t1)->Some_0
}

/// The sort key of an object: the low corner of its box (taken at time
/// zero) along the chosen axis.
pub open spec fn spec_box_key(h: Hittable, axis: int) -> int {
    match spec_bounding_box(h, 0, 0) {
        Some(b) => spec_at(b.minimum, axis),
        None => 0,
    }
}

/// Adjacent elements of the subrange are ordered by their box key.
pub open spec fn sorted_by_key(s: Seq<Hittable>, start: int, end: int, axis: int) -> bool {
    forall|p: int, q: int|
        start <= p < q < end ==> spec_box_key(#[trigger] s[p], axis) <= spec_box_key(
            #[trigger] s[q],
            axis,
        )
}

impl bvhNode {
    /// The low box corner of `a` along `axis`, compared with `b`'s: whether
    /// `a` comes strictly first, and the two keys.
    pub fn box_compare(a: &Hittable, b: &Hittable, axis: i32) -> (r: (bool, i64, i64))
        requires
            has_box(*a),
            has_box(*b),
            0 <= axis < 3,
        ensures
            r.1 as int == spec_box_key(*a, axis as int),
            r.2 as int == spec_box_key(*b, axis as int),
            r.0 == (r.1 < r.2),
    {
        proof {
            lemma_box_presence(*a, 0, 0);
            lemma_box_presence(*b, 0, 0);
        }
        let box_a = a.bounding_box(0, 0);
        let box_b = b.bounding_box(0, 0);
        let temp_a = match box_a {
            Some(ba) => ba.minimum.at(axis as usize),
            None => 0,
        };
        let temp_b = match box_b {
            Some(bb) => bb.minimum.at(axis as usize),
            None => 0,
        };
        (temp_a < temp_b, temp_a, temp_b)
    }

    /// Insertion sort of the subrange `[start, end)` by box key along
    /// `axis`: a permutation of the subrange, ordered by key, with
    /// everything outside the subrange untouched.
    fn sort_range(objects: &mut Vec<Hittable>, start: usize, end: usize, axis: i32)
        requires
            start <= end <= old(objects)@.len(),
            0 <= axis < 3,
            forall|i: int| start <= i < end ==> has_box(#[trigger] old(objects)@[i]),
        ensures
            final(objects)@.len() == old(objects)@.len(),
            forall|i: int|
                0 <= i < old(objects)@.len() && !(start <= i < end) ==> final(objects)@[i] == old(
                    objects,
                )@[i],
            final(objects)@.subrange(start as int, end as int).to_multiset() == old(
                objects,
            )@.subrange(start as int, end as int).to_multiset(),
            sorted_by_key(final(objects)@, start as int, end as int, axis as int),
            forall|i: int| start <= i < end ==> has_box(#[trigger] final(objects)@[i]),
    {
        let ghost orig = objects@;
        let mut i: usize = start;
        while i < end
            invariant
                start <= i <= end <= objects@.len(),
                objects@.len() == orig.len(),
                0 <= axis < 3,
                forall|m: int|
                    0 <= m < orig.len() && !(start <= m < end) ==> objects@[m] == orig[m],
                objects@.subrange(start as int, end as int).to_multiset() == orig.subrange(
                    start as int,
                    end as int,
                ).to_multiset(),
                sorted_by_key(objects@, start as int, i as int, axis as int),
                forall|m: int| start <= m < end ==> has_box(#[trigger] objects@[m]),
            decreases end - i,
        {
            let mut j: usize = i;
            loop
                invariant
                    start <= j <= i < end <= objects@.len(),
                    objects@.len() == orig.len(),
                    0 <= axis < 3,
                    forall|m: int|
                        0 <= m < orig.len() && !(start <= m < end) ==> objects@[m] == orig[m],
                    objects@.subrange(start as int, end as int).to_multiset() == orig.subrange(
                        start as int,
                        end as int,
                    ).to_multiset(),
                    forall|p: int, q: int|
                        start <= p < q <= i && q != j ==> spec_box_key(#[trigger] objects@[p], axis as int)
                            <= spec_box_key(#[trigger] objects@[q], axis as int),
                    forall|m: int| start <= m < end ==> has_box(#[trigger] objects@[m]),
                ensures
                    j == start || spec_box_key(objects@[j - 1], axis as int) <= spec_box_key(
                        objects@[j as int],
                        axis as int,
                    ),
                decreases j,
            {
                if j == start {
                    break ;
                }
                let cmp = Self::box_compare(&objects[j - 1], &objects[j], axis);
                if !(cmp.2 < cmp.1) {
                    break ;
                }
                let ghost before = objects@;
                let moved = objects.remove(j);
                objects.insert(j - 1, moved);
                proof {
                    assert(objects@ =~= before.update(j - 1, before[j as int]).update(
                        j as int,
                        before[j - 1],
                    ));
                    lemma_swap_multiset(before, j - 1, j as int);
                    lemma_swap_in_subrange(before, start as int, end as int, j - 1, j as int);
                    lemma_swap_multiset(
                        before.subrange(start as int, end as int),
                        j - 1 - start,
                        j - start,
                    );
                }
                j = j - 1;
            }
            proof {
                assert forall|p: int, q: int| start <= p < q <= i implies spec_box_key(
                    #[trigger] objects@[p],
                    axis as int,
                ) <= spec_box_key(#[trigger] objects@[q], axis as int) by {
                    if q == j {
                        if p < j - 1 {
                            assert(spec_box_key(objects@[p], axis as int) <= spec_box_key(
                                objects@[j - 1],
                                axis as int,
                            ));
                        }
                    }
                }
            }
            i = i + 1;
        }
    }

    /// The tree over a whole list.
    pub fn new_with_list(list: &mut HittableList, time0: i64, time1: i64, rng: &mut Rng) -> (node:
        bvhNode)
        requires
            old(list).objects@.len() >= 1,
            forall|i: int|
                0 <= i < old(list).objects@.len() ==> has_box(#[trigger] old(list).objects@[i]),
        ensures
            final(list).objects@.to_multiset() == old(list).objects@.to_multiset(),
            spec_bounding_box(*node.left, time0 as int, time1 as int) is Some,
            spec_bounding_box(*node.right, time0 as int, time1 as int) is Some,
            node.my_box == spec_surrounding_box(
                spec_bounding_box(*node.left, time0 as int, time1 as int)->Some_0,
                spec_bounding_box(*node.right, time0 as int, time1 as int)->Some_0,
            ),
            forall|i: int|
                0 <= i < final(list).objects@.len() ==> spec_box_contains(
                    node.my_box,
                    spec_box_at(#[trigger] final(list).objects@[i], time0 as int, time1 as int),
                ),
            no_node_elements(old(list).objects@, 0, old(list).objects@.len() as int) ==> {
                &&& forall|i: int|
                    0 <= i < final(list).objects@.len() ==> tree_has_leaf_box(
                        Hittable::Node(node),
                        spec_box_at(#[trigger] final(list).objects@[i], time0 as int, time1 as int),
                        time0 as int,
                        time1 as int,
                    )
                &&& forall|bb: AABB|
                    #[trigger] tree_has_leaf_box(Hittable::Node(node), bb, time0 as int, time1 as int)
                        ==> exists|i: int|
                        0 <= i < final(list).objects@.len() && spec_bounding_box(
                            final(list).objects@[i],
                            time0 as int,
                            time1 as int,
                        ) == Some(bb)
            },
    {
        let len = list.objects.len();
        let node = Self::new_with_vec(&mut list.objects, 0, len, time0, time1, rng);
        proof {
            assert(final(list).objects@.subrange(0, final(list).objects@.len() as int)
                =~= final(list).objects@);
            assert(old(list).objects@.subrange(0, old(list).objects@.len() as int)
                =~= old(list).objects@);
        }
        node
    }

    /// The tree over the subrange `[start, end)`: a random axis is chosen,
    /// the subrange is split at the median of the box keys, and the node's
    /// box is the union of the children's.
    #[verifier::rlimit(60)]
    pub fn new_with_vec(
        objects: &mut Vec<Hittable>,
        start: usize,
        end: usize,
        time0: i64,
        time1: i64,
        rng: &mut Rng,
    ) -> (node: bvhNode)
        requires
            start < end <= old(objects)@.len(),
            forall|i: int| start <= i < end ==> has_box(#[trigger] old(objects)@[i]),
        ensures
            final(objects)@.len() == old(objects)@.len(),
            forall|i: int|
                0 <= i < old(objects)@.len() && !(start <= i < end) ==> final(objects)@[i] == old(
                    objects,
                )@[i],
            final(objects)@.subrange(start as int, end as int).to_multiset() == old(
                objects,
            )@.subrange(start as int, end as int).to_multiset(),
            forall|i: int| start <= i < end ==> has_box(#[trigger] final(objects)@[i]),
            spec_bounding_box(*node.left, time0 as int, time1 as int) is Some,
            spec_bounding_box(*node.right, time0 as int, time1 as int) is Some,
            node.my_box == spec_surrounding_box(
                spec_bounding_box(*node.left, time0 as int, time1 as int)->Some_0,
                spec_bounding_box(*node.right, time0 as int, time1 as int)->Some_0,
            ),
            forall|i: int|
                start <= i < end ==> spec_box_contains(
                    node.my_box,
                    spec_box_at(#[trigger] final(objects)@[i], time0 as int, time1 as int),
                ),
            end - start == 2 ==> exists|axis: int|
                0 <= axis < 3 && spec_box_key(*node.left, axis) <= spec_box_key(*node.right, axis),
            no_node_elements(old(objects)@, start as int, end as int) ==> {
                &&& no_node_elements(final(objects)@, start as int, end as int)
                &&& forall|i: int|
                    start <= i < end ==> tree_has_leaf_box(
                        Hittable::Node(node),
                        spec_box_at(#[trigger] final(objects)@[i], time0 as int, time1 as int),
                        time0 as int,
                        time1 as int,
                    )
                &&& forall|bb: AABB|
                    #[trigger] tree_has_leaf_box(Hittable::Node(node), bb, time0 as int, time1 as int)
                        ==> exists|i: int|
                        start <= i < end && spec_bounding_box(
                            final(objects)@[i],
                            time0 as int,
                            time1 as int,
                        ) == Some(bb)
            },
        decreases end - start,
    {
        let axis = random_int(rng, 0, 2);
        let object_span = end - start;
        let left: Hittable;
        let right: Hittable;
        let ghost t0 = time0 as int;
        let ghost t1 = time1 as int;
        if object_span == 1 {
            left = clone_hittable(&objects[start]);
            right = clone_hittable(&objects[start]);
            proof {
                assert(spec_bounding_box(left, t0, t1) == spec_bounding_box(
                    objects@[start as int],
                    t0,
                    t1,
                ));
            }
        } else if object_span == 2 {
            let cmp = Self::box_compare(&objects[start], &objects[start + 1], axis);
            if cmp.0 {
                left = clone_hittable(&objects[start]);
                right = clone_hittable(&objects[start + 1]);
            } else {
                left = clone_hittable(&objects[start + 1]);
                right = clone_hittable(&objects[start]);
            }
            proof {
                assert(spec_bounding_box(left, 0, 0) == spec_bounding_box(
                    objects@[start as int],
                    0,
                    0,
                ) || spec_bounding_box(left, 0, 0) == spec_bounding_box(objects@[start + 1], 0, 0));
                assert(spec_bounding_box(right, 0, 0) == spec_bounding_box(
                    objects@[start as int],
                    0,
                    0,
                ) || spec_bounding_box(right, 0, 0) == spec_bounding_box(objects@[start + 1], 0, 0));
                assert(spec_box_key(left, axis as int) <= spec_box_key(right, axis as int));
                assert(spec_bounding_box(left, t0, t1) == spec_bounding_box(
                    objects@[start as int],
                    t0,
                    t1,
                ) || spec_bounding_box(right, t0, t1) == spec_bounding_box(
                    objects@[start as int],
                    t0,
                    t1,
                ));
                assert(spec_bounding_box(left, t0, t1) == spec_bounding_box(
                    objects@[start + 1],
                    t0,
                    t1,
                ) || spec_bounding_box(right, t0, t1) == spec_bounding_box(
                    objects@[start + 1],
                    t0,
                    t1,
                ));
            }
        } else {
            Self::sort_range(objects, start, end, axis);
            let mid = start + object_span / 2;
            let ghost after_sort = objects@;
            let left_node = Self::new_with_vec(objects, start, mid, time0, time1, rng);
            let ghost after_left = objects@;
            proof {
                assert(forall|i: int|
                    mid <= i < end ==> after_left[i] == #[trigger] after_sort[i]);
            }
            let right_node = Self::new_with_vec(objects, mid, end, time0, time1, rng);
            proof {
                lemma_combine_subranges(
                    after_sort,
                    objects@,
                    after_left,
                    start as int,
                    mid as int,
                    end as int,
                );
                assert(forall|i: int|
                    start <= i < mid ==> objects@[i] == #[trigger] after_left[i]);
                if no_node_elements(old(objects)@, start as int, end as int) {
                    assert forall|i: int| start <= i < end implies !((#[trigger] after_sort[i])
                        is Node) by {
                        lemma_subrange_multiset_source(
                            old(objects)@,
                            after_sort,
                            start as int,
                            end as int,
                            i,
                        );
                        let j = choose|j: int|
                            start <= j < end && old(objects)@[j] == after_sort[i];
                        assert(!(old(objects)@[j] is Node));
                    }
                    assert(no_node_elements(after_sort, start as int, mid as int));
                    assert(no_node_elements(after_left, mid as int, end as int));
                }
            }
            left = Hittable::Node(left_node);
            right = Hittable::Node(right_node);
            proof {
                assert forall|i: int| start <= i < end implies spec_box_contains(
                    spec_surrounding_box(
                        spec_box_at(left, t0, t1),
                        spec_box_at(right, t0, t1),
                    ),
                    spec_box_at(#[trigger] objects@[i], t0, t1),
                ) by {
                    let u = spec_surrounding_box(
                        spec_box_at(left, t0, t1),
                        spec_box_at(right, t0, t1),
                    );
                    lemma_surrounding_box_contains(
                        spec_box_at(left, t0, t1),
                        spec_box_at(right, t0, t1),
                    );
                    if i < mid {
                        assert(spec_box_contains(
                            left_node.my_box,
                            spec_box_at(objects@[i], t0, t1),
                        ));
                        lemma_box_contains_trans(
                            u,
                            left_node.my_box,
                            spec_box_at(objects@[i], t0, t1),
                        );
                    } else {
                        assert(spec_box_contains(
                            right_node.my_box,
                            spec_box_at(objects@[i], t0, t1),
                        ));
                        lemma_box_contains_trans(
                            u,
                            right_node.my_box,
                            spec_box_at(objects@[i], t0, t1),
                        );
                    }
                }
                if no_node_elements(old(objects)@, start as int, end as int) {
                    assert forall|i: int| start <= i < end implies !((#[trigger] objects@[i])
                        is Node) by {
                        if i < mid {
                            assert(objects@[i] == after_left[i]);
                            assert(!(after_left[i] is Node));
                        } else {
                            assert(!(objects@[i] is Node));
                        }
                    }
                    assert forall|i: int| start <= i < end implies tree_has_leaf_box(
                        left,
                        spec_box_at(#[trigger] objects@[i], t0, t1),
                        t0,
                        t1,
                    ) || tree_has_leaf_box(right, spec_box_at(objects@[i], t0, t1), t0, t1) by {
                        if i < mid {
                            assert(tree_has_leaf_box(
                                Hittable::Node(left_node),
                                spec_box_at(after_left[i], t0, t1),
                                t0,
                                t1,
                            ));
                            assert(objects@[i] == after_left[i]);
                        } else {
                            assert(tree_has_leaf_box(
                                Hittable::Node(right_node),
                                spec_box_at(objects@[i], t0, t1),
                                t0,
                                t1,
                            ));
                        }
                    }
                    assert forall|bb: AABB|
                        tree_has_leaf_box(left, bb, t0, t1) || tree_has_leaf_box(
                            right,
                            bb,
                            t0,
                            t1,
                        ) implies exists|i: int|
                        start <= i < end && spec_bounding_box(objects@[i], t0, t1) == Some(bb) by {
                        if tree_has_leaf_box(left, bb, t0, t1) {
                            let i0 = choose|i0: int|
                                start <= i0 < mid && spec_bounding_box(after_left[i0], t0, t1)
                                    == Some(bb);
                            assert(objects@[i0] == after_left[i0]);
                            assert(start <= i0 < end && spec_bounding_box(objects@[i0], t0, t1)
                                == Some(bb));
                        } else {
                            let i0 = choose|i0: int|
                                mid <= i0 < end && spec_bounding_box(objects@[i0], t0, t1) == Some(
                                bb,
                                );
                            assert(start <= i0 < end && spec_bounding_box(objects@[i0], t0, t1)
                                == Some(bb));
                        }
                    }
                }
            }
        }
        proof {
            lemma_box_presence(left, time0 as int, time1 as int);
            lemma_box_presence(right, time0 as int, time1 as int);
        }
        let box_left = left.bounding_box(time0, time1);
        let box_right = right.bounding_box(time0, time1);
        match (box_left, box_right) {
            (Some(bl), Some(br)) => {
                let my_box = AABB::surrounding_box(&bl, &br);
                let ghost gleft = left;
                let ghost gright = right;
                let node = bvhNode { left: Box::new(left), right: Box::new(right), my_box };
                proof {
                    assert(*node.left == gleft && *node.right == gright);
                    lemma_surrounding_box_contains(bl, br);
                    assert forall|i: int| start <= i < end implies spec_box_contains(
                        my_box,
                        spec_box_at(#[trigger] objects@[i], t0, t1),
                    ) by {
                        if object_span == 1 || object_span == 2 {
                            assert(spec_box_contains(my_box, bl));
                            assert(spec_box_contains(my_box, br));
                        } else {
                            lemma_box_contains_trans(
                                my_box,
                                spec_surrounding_box(bl, br),
                                spec_box_at(objects@[i], t0, t1),
                            );
                        }
                    }
                    let tree = Hittable::Node(node);
                    if no_node_elements(old(objects)@, start as int, end as int) {
                        if object_span == 1 || object_span == 2 {
                            assert(no_node_elements(objects@, start as int, end as int));
                            assert(!(gleft is Node) && !(gright is Node));
                            assert forall|i: int| start <= i < end implies tree_has_leaf_box(
                                tree,
                                spec_box_at(#[trigger] objects@[i], t0, t1),
                                t0,
                                t1,
                            ) by {
                                lemma_box_presence(objects@[i], t0, t1);
                                let bbx = spec_box_at(objects@[i], t0, t1);
                                assert(spec_bounding_box(objects@[i], t0, t1) == Some(bbx));
                                assert(spec_bounding_box(gleft, t0, t1) == spec_bounding_box(
                                    objects@[i],
                                    t0,
                                    t1,
                                ) || spec_bounding_box(gright, t0, t1) == spec_bounding_box(
                                    objects@[i],
                                    t0,
                                    t1,
                                ));
                                assert(tree_has_leaf_box(gleft, bbx, t0, t1) || tree_has_leaf_box(
                                    gright,
                                    bbx,
                                    t0,
                                    t1,
                                ));
                                assert(tree_has_leaf_box(tree, bbx, t0, t1));
                            }
                            assert forall|bb: AABB| #[trigger] tree_has_leaf_box(tree, bb, t0, t1)
                                implies exists|i: int|
                                start <= i < end && spec_bounding_box(objects@[i], t0, t1) == Some(
                                bb,
                            ) by {
                                assert(tree_has_leaf_box(gleft, bb, t0, t1) || tree_has_leaf_box(
                                    gright,
                                    bb,
                                    t0,
                                    t1,
                                ));
                                assert(spec_bounding_box(gleft, t0, t1) == Some(bb)
                                    || spec_bounding_box(gright, t0, t1) == Some(bb));
                                assert(spec_bounding_box(objects@[start as int], t0, t1) == Some(bb)
                                    || spec_bounding_box(objects@[end - 1], t0, t1) == Some(bb));
                            }
                        } else {
                            assert forall|i: int| start <= i < end implies tree_has_leaf_box(
                                tree,
                                spec_box_at(#[trigger] objects@[i], t0, t1),
                                t0,
                                t1,
                            ) by {
                                assert(tree_has_leaf_box(
                                    left,
                                    spec_box_at(objects@[i], t0, t1),
                                    t0,
                                    t1,
                                ) || tree_has_leaf_box(
                                    right,
                                    spec_box_at(objects@[i], t0, t1),
                                    t0,
                                    t1,
                                ));
                            }
                            assert forall|bb: AABB| #[trigger] tree_has_leaf_box(tree, bb, t0, t1)
                                implies exists|i: int|
                                start <= i < end && spec_bounding_box(objects@[i], t0, t1) == Some(
                                bb,
                            ) by {
                                assert(tree_has_leaf_box(gleft, bb, t0, t1) || tree_has_leaf_box(
                                    right,
                                    bb,
                                    t0,
                                    t1,
                                ));
                            }
                        }
                    }
                    if object_span == 2 {
                        assert(0 <= axis && axis < 3 && spec_box_key(gleft, axis as int)
                            <= spec_box_key(gright, axis as int));
                    }
                }
                node
            },
            _ => vstd::pervasive::unreached(),
        }
    }
}

/// Stitching the permutations of two halves into one permutation of the
/// whole range.
proof fn lemma_combine_subranges<A>(
    s0: Seq<A>,
    s2: Seq<A>,
    s1: Seq<A>,
    start: int,
    mid: int,
    end: int,
)
    requires
        0 <= start <= mid <= end <= s0.len(),
        s0.len() == s1.len() == s2.len(),
        s1.subrange(start, mid).to_multiset() == s0.subrange(start, mid).to_multiset(),
        forall|i: int| 0 <= i < s0.len() && !(start <= i < mid) ==> s1[i] == s0[i],
        s2.subrange(mid, end).to_multiset() == s1.subrange(mid, end).to_multiset(),
        forall|i: int| 0 <= i < s1.len() && !(mid <= i < end) ==> s2[i] == s1[i],
    ensures
        s2.subrange(start, end).to_multiset() == s0.subrange(start, end).to_multiset(),
        forall|i: int| 0 <= i < s0.len() && !(start <= i < end) ==> s2[i] == s0[i],
{
    broadcast use group_to_multiset_ensures;
    broadcast use vstd::seq_lib::lemma_multiset_commutative;

    assert(s2.subrange(start, end) =~= s2.subrange(start, mid) + s2.subrange(mid, end));
    assert(s0.subrange(start, end) =~= s0.subrange(start, mid) + s0.subrange(mid, end));
    assert(s2.subrange(start, mid) =~= s1.subrange(start, mid));
    assert(s1.subrange(mid, end) =~= s1.subrange(mid, end));
    assert(s0.subrange(mid, end) =~= s1.subrange(mid, end));
    assert((s2.subrange(start, mid) + s2.subrange(mid, end)).to_multiset() == s2.subrange(
        start,
        mid,
    ).to_multiset().add(s2.subrange(mid, end).to_multiset()));
    assert((s0.subrange(start, mid) + s0.subrange(mid, end)).to_multiset() == s0.subrange(
        start,
        mid,
    ).to_multiset().add(s0.subrange(mid, end).to_multiset()));
    assert(s2.subrange(start, end).to_multiset() =~= s0.subrange(start, end).to_multiset());
}

} // verus!
