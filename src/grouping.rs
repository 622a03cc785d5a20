use vstd::prelude::*;

use crate::declaration::{
    flat_types, lemma_key_determines_flat, same_flat_types, same_shape, shape_key, Shape, VariantDecl,
};

verus! {

/// The groups as sequences of variant indices.
pub open spec fn nested(groups: Seq<Vec<usize>>) -> Seq<Seq<usize>> {
    Seq::new(groups.len(), |g: int| groups[g]@)
}

/// Whether `groups` groups the marked variants among the first `n` by shape: every group is
/// non-empty and in declaration order, all its members are marked and share the shape of its
/// first member, the groups stand in the order in which their shapes are first seen, no two
/// groups share a shape, and every marked variant below `n` is in some group.
pub open spec fn groups_prefix(
    variants: Seq<VariantDecl>,
    marks: Seq<bool>,
    n: int,
    groups: Seq<Seq<usize>>,
) -> bool {
    &&& forall|g: int| 0 <= g < groups.len() ==> #[trigger] groups[g].len() > 0
    &&& forall|g: int, a: int, b: int|
        0 <= g < groups.len() && 0 <= a < b < groups[g].len() ==> #[trigger] groups[g][a]
            < #[trigger] groups[g][b]
    &&& forall|g: int, a: int|
        0 <= g < groups.len() && 0 <= a < groups[g].len() ==> {
            let i = #[trigger] groups[g][a];
            &&& i < n
            &&& marks[i as int]
            &&& shape_key(variants[i as int].shape) == shape_key(variants[groups[g][0] as int].shape)
        }
    &&& forall|g: int, h: int|
        0 <= g < h < groups.len() ==> #[trigger] groups[g][0] < #[trigger] groups[h][0]
            && shape_key(variants[groups[g][0] as int].shape) != shape_key(
            variants[groups[h][0] as int].shape,
        )
    &&& forall|i: int|
        0 <= i < n && #[trigger] marks[i] ==> exists|g: int, a: int|
            0 <= g < groups.len() && 0 <= a < groups[g].len() && #[trigger] groups[g][a] == i
}

/// Whether `groups` is the grouping by shape of the marked variants.
pub open spec fn is_grouping(variants: Seq<VariantDecl>, marks: Seq<bool>, groups: Seq<Seq<usize>>) -> bool {
    groups_prefix(variants, marks, variants.len() as int, groups)
}

/// An unmarked variant leaves the grouping of a prefix as it is.
proof fn lemma_prefix_skip(variants: Seq<VariantDecl>, marks: Seq<bool>, i: int, groups: Seq<Seq<usize>>)
    requires
        0 <= i < marks.len(),
        !marks[i],
        groups_prefix(variants, marks, i, groups),
    ensures
        groups_prefix(variants, marks, i + 1, groups),
{
}

/// A marked variant of a shape already seen joins the group of that shape.
proof fn lemma_prefix_join(
    variants: Seq<VariantDecl>,
    marks: Seq<bool>,
    i: int,
    groups: Seq<Seq<usize>>,
    g: int,
)
    requires
        0 <= i < marks.len(),
        i < usize::MAX,
        marks[i],
        0 <= g < groups.len(),
        shape_key(variants[groups[g][0] as int].shape) == shape_key(variants[i].shape),
        groups_prefix(variants, marks, i, groups),
    ensures
        groups_prefix(variants, marks, i + 1, groups.update(g, groups[g].push(i as usize))),
{
    let new = groups.update(g, groups[g].push(i as usize));
    assert(new[g][0] == groups[g][0]);
    assert forall|h: int| 0 <= h < new.len() implies #[trigger] new[h][0] == groups[h][0] by {}
    assert forall|j: int| 0 <= j < i + 1 && #[trigger] marks[j] implies exists|h: int, a: int|
        0 <= h < new.len() && 0 <= a < new[h].len() && #[trigger] new[h][a] == j by {
        if j == i {
            assert(new[g][groups[g].len() as int] == j);
        } else {
            let (h, a) = choose|h: int, a: int|
                0 <= h < groups.len() && 0 <= a < groups[h].len() && #[trigger] groups[h][a] == j;
            assert(new[h][a] == j);
        }
    }
}

/// A marked variant of a shape not seen before opens a new group after the others.
proof fn lemma_prefix_open(
    variants: Seq<VariantDecl>,
    marks: Seq<bool>,
    i: int,
    groups: Seq<Seq<usize>>,
)
    requires
        0 <= i < marks.len(),
        i < usize::MAX,
        marks[i],
        forall|g: int| 0 <= g < groups.len() ==> shape_key(variants[#[trigger] groups[g][0] as int].shape)
            != shape_key(variants[i].shape),
        groups_prefix(variants, marks, i, groups),
    ensures
        groups_prefix(variants, marks, i + 1, groups.push(seq![i as usize])),
{
    let new = groups.push(seq![i as usize]);
    assert forall|h: int| 0 <= h < groups.len() implies #[trigger] new[h] == groups[h] by {}
    assert forall|j: int| 0 <= j < i + 1 && #[trigger] marks[j] implies exists|h: int, a: int|
        0 <= h < new.len() && 0 <= a < new[h].len() && #[trigger] new[h][a] == j by {
        if j == i {
            assert(new[groups.len() as int][0] == j);
        } else {
            let (h, a) = choose|h: int, a: int|
                0 <= h < groups.len() && 0 <= a < groups[h].len() && #[trigger] groups[h][a] == j;
            assert(new[h][a] == j);
        }
    }
}

/// The group whose shape is that of variant `i`, if there is one.
fn find_group(variants: &[VariantDecl], groups: &Vec<Vec<usize>>, i: usize) -> (r: Option<usize>)
    requires
        i < variants@.len(),
        forall|g: int| 0 <= g < groups@.len() ==> #[trigger] groups@[g]@.len() > 0
            && groups@[g]@[0] < variants@.len(),
    ensures
        r matches Some(g) ==> g < groups@.len() && shape_key(variants@[groups@[g as int]@[0] as int].shape)
            == shape_key(variants@[i as int].shape),
        r is None ==> forall|g: int| 0 <= g < groups@.len() ==> shape_key(
            variants@[#[trigger] groups@[g]@[0] as int].shape,
        ) != shape_key(variants@[i as int].shape),
{
    let mut g: usize = 0;
    while g < groups.len()
        invariant
            g <= groups@.len(),
            i < variants@.len(),
            forall|h: int| 0 <= h < groups@.len() ==> #[trigger] groups@[h]@.len() > 0
                && groups@[h]@[0] < variants@.len(),
            forall|h: int| 0 <= h < g ==> shape_key(variants@[#[trigger] groups@[h]@[0] as int].shape)
                != shape_key(variants@[i as int].shape),
        decreases groups@.len() - g,
    {
        assert(groups@[g as int]@.len() > 0);
        if same_shape(&variants[groups[g][0]].shape, &variants[i].shape) {
            return Some(g);
        }
        g = g + 1;
    }
    None
}

/// Groups the variants whose mark is set by their shape, keeping the order in which each
/// shape is first seen and, within a group, declaration order.
pub fn group_variant_ref_by_type(variants: &[VariantDecl], marks: &[bool]) -> (groups: Vec<Vec<usize>>)
    requires
        marks@.len() == variants@.len(),
    ensures
        is_grouping(variants@, marks@, nested(groups@)),
{
    let mut groups: Vec<Vec<usize>> = Vec::new();
    let mut i: usize = 0;
    while i < variants.len()
        invariant
            i <= variants@.len(),
            marks@.len() == variants@.len(),
            groups_prefix(variants@, marks@, i as int, nested(groups@)),
        decreases variants@.len() - i,
    {
        if marks[i] {
            assert forall|g: int| 0 <= g < groups@.len() implies #[trigger] groups@[g]@.len() > 0
                && groups@[g]@[0] < variants@.len() by {
                assert(nested(groups@)[g].len() > 0);
                assert(nested(groups@)[g][0] < i);
            }
            let ghost before = nested(groups@);
            match find_group(variants, &groups, i) {
                Some(g) => {
                    groups[g].push(i);
                    proof {
                        lemma_prefix_join(variants@, marks@, i as int, before, g as int);
                        assert(nested(groups@) =~= before.update(g as int, before[g as int].push(i)));
                    }
                },
                None => {
                    let mut fresh: Vec<usize> = Vec::new();
                    fresh.push(i);
                    groups.push(fresh);
                    proof {
                        lemma_prefix_open(variants@, marks@, i as int, before);
                        assert(nested(groups@) =~= before.push(seq![i]));
                    }
                },
            }
        } else {
            proof {
                lemma_prefix_skip(variants@, marks@, i as int, nested(groups@));
            }
        }
        i = i + 1;
    }
    groups
}


pub open spec fn increasing(s: Seq<usize>) -> bool {
    forall|a: int, b: int| 0 <= a < b < s.len() ==> #[trigger] s[a] < #[trigger] s[b]
}

/// Two increasing sequences with the same elements are equal.
proof fn lemma_increasing_unique(s: Seq<usize>, t: Seq<usize>)
    requires
        increasing(s),
        increasing(t),
        forall|x: usize| s.contains(x) <==> t.contains(x),
    ensures
        s == t,
    decreases s.len(),
{
    if s.len() == 0 {
        if t.len() > 0 {
            assert(t.contains(t[0]));
        }
        assert(s =~= t);
    } else {
        assert(s.contains(s[0]));
        assert(t.len() > 0);
        assert(t.contains(t[0]));
        // Each first element is in the other sequence, so neither is below the other.
        let (a, b) = (choose|a: int| 0 <= a < t.len() && t[a] == s[0], choose|b: int|
            0 <= b < s.len() && s[b] == t[0]);
        assert(t[0] <= s[0]);
        assert(s[0] <= t[0]);
        let s1 = s.drop_first();
        let t1 = t.drop_first();
        assert forall|x: usize| s1.contains(x) <==> t1.contains(x) by {
            if s1.contains(x) {
                let k = choose|k: int| 0 <= k < s1.len() && s1[k] == x;
                assert(s[k + 1] == x);
                assert(t.contains(x));
                let m = choose|m: int| 0 <= m < t.len() && t[m] == x;
                assert(m != 0);
                assert(t1[m - 1] == x);
            }
            if t1.contains(x) {
                let k = choose|k: int| 0 <= k < t1.len() && t1[k] == x;
                assert(t[k + 1] == x);
                assert(s.contains(x));
                let m = choose|m: int| 0 <= m < s.len() && s[m] == x;
                assert(m != 0);
                assert(s1[m - 1] == x);
            }
        }
        lemma_increasing_unique(s1, t1);
        assert(s =~= seq![s[0]] + s1);
        assert(t =~= seq![t[0]] + t1);
    }
}

/// In a grouping, a group holds every marked variant of its shape.
proof fn lemma_group_complete(
    variants: Seq<VariantDecl>,
    marks: Seq<bool>,
    groups: Seq<Seq<usize>>,
    g: int,
    i: int,
)
    requires
        is_grouping(variants, marks, groups),
        0 <= g < groups.len(),
        0 <= i < variants.len(),
        marks[i],
        shape_key(variants[i].shape) == shape_key(group_shape(variants, groups, g)),
    ensures
        groups[g].contains(i as usize),
        groups[g][0] <= i,
{
    let (h, a) = choose|h: int, a: int|
        0 <= h < groups.len() && 0 <= a < groups[h].len() && #[trigger] groups[h][a] == i;
    assert(groups[h].len() > 0);
    if h < g {
        assert(groups[h][0] < groups[g][0]);
    } else if g < h {
        assert(groups[g][0] < groups[h][0]);
    }
    assert(h == g);
    if a > 0 {
        assert(groups[g][0] < groups[g][a]);
    }
}

pub open spec fn firsts(groups: Seq<Seq<usize>>) -> Seq<usize> {
    Seq::new(groups.len(), |g: int| groups[g][0])
}

/// The grouping of the marked variants by shape is unique: two groupings of the same variants
/// and marks have the same groups, with the same members, in the same order. So grouping the
/// same enum twice gives the same result.
pub proof fn lemma_grouping_unique(
    variants: Seq<VariantDecl>,
    marks: Seq<bool>,
    a: Seq<Seq<usize>>,
    b: Seq<Seq<usize>>,
)
    requires
        marks.len() == variants.len(),
        is_grouping(variants, marks, a),
        is_grouping(variants, marks, b),
    ensures
        a == b,
{
    // The first members of the groups are the same in both.
    assert forall|x: usize| firsts(a).contains(x) implies firsts(b).contains(x) by {
        let g = choose|g: int| 0 <= g < firsts(a).len() && firsts(a)[g] == x;
        lemma_first_shared(variants, marks, a, b, g);
    }
    assert forall|x: usize| firsts(b).contains(x) implies firsts(a).contains(x) by {
        let g = choose|g: int| 0 <= g < firsts(b).len() && firsts(b)[g] == x;
        lemma_first_shared(variants, marks, b, a, g);
    }
    assert(increasing(firsts(a)));
    assert(increasing(firsts(b)));
    lemma_increasing_unique(firsts(a), firsts(b));
    assert(a.len() == b.len());
    assert forall|g: int| 0 <= g < a.len() implies #[trigger] a[g] == b[g] by {
        assert(firsts(a)[g] == firsts(b)[g]);
        assert(a[g].len() > 0 && b[g].len() > 0);
        assert forall|x: usize| a[g].contains(x) implies b[g].contains(x) by {
            let k = choose|k: int| 0 <= k < a[g].len() && a[g][k] == x;
            assert(a[g][k] == x);
            lemma_group_complete(variants, marks, b, g, x as int);
        }
        assert forall|x: usize| b[g].contains(x) implies a[g].contains(x) by {
            let k = choose|k: int| 0 <= k < b[g].len() && b[g][k] == x;
            assert(b[g][k] == x);
            lemma_group_complete(variants, marks, a, g, x as int);
        }
        lemma_increasing_unique(a[g], b[g]);
    }
    assert(a =~= b);
}

/// The first member of a group of one grouping is the first member of a group of the other.
proof fn lemma_first_shared(
    variants: Seq<VariantDecl>,
    marks: Seq<bool>,
    a: Seq<Seq<usize>>,
    b: Seq<Seq<usize>>,
    g: int,
)
    requires
        marks.len() == variants.len(),
        is_grouping(variants, marks, a),
        is_grouping(variants, marks, b),
        0 <= g < a.len(),
    ensures
        firsts(b).contains(a[g][0]),
{
    assert(a[g].len() > 0);
    let r = a[g][0] as int;
    assert(marks[r]);
    let (h, k) = choose|h: int, k: int|
        0 <= h < b.len() && 0 <= k < b[h].len() && #[trigger] b[h][k] == r;
    assert(b[h].len() > 0);
    let q = b[h][0] as int;
    assert(shape_key(variants[r].shape) == shape_key(group_shape(variants, b, h)));
    lemma_group_complete(variants, marks, b, h, r);
    assert(marks[q]);
    lemma_group_complete(variants, marks, a, g, q);
    assert(firsts(b)[h] == a[g][0]);
}

/// When exactly one variant is marked, the grouping has exactly one group.
pub proof fn lemma_single_marked_one_group(
    variants: Seq<VariantDecl>,
    marks: Seq<bool>,
    groups: Seq<Seq<usize>>,
    i: int,
)
    requires
        marks.len() == variants.len(),
        is_grouping(variants, marks, groups),
        0 <= i < marks.len(),
        marks[i],
        forall|j: int| 0 <= j < marks.len() && j != i ==> !marks[j],
    ensures
        groups.len() == 1,
{
    let (g, a) = choose|g: int, a: int|
        0 <= g < groups.len() && 0 <= a < groups[g].len() && #[trigger] groups[g][a] == i;
    if groups.len() > 1 {
        assert(groups[0].len() > 0 && groups[1].len() > 0);
        let x = groups[0][0] as int;
        let y = groups[1][0] as int;
        assert(marks[x] && marks[y]);
        assert(x < y);
    }
}

/// The shape of the first member of group `g`, which all its members share.
pub open spec fn group_shape(variants: Seq<VariantDecl>, groups: Seq<Seq<usize>>, g: int) -> Shape {
    variants[groups[g][0] as int].shape
}

/// Group `g` flattens to the same type list as the earlier group `h`.
pub open spec fn groups_conflict(
    variants: Seq<VariantDecl>,
    groups: Seq<Seq<usize>>,
    g: int,
    h: int,
) -> bool {
    &&& 0 <= h < g < groups.len()
    &&& flat_types(group_shape(variants, groups, g)) is Some
    &&& flat_types(group_shape(variants, groups, g)) == flat_types(group_shape(variants, groups, h))
}

/// Two marked variants of different shapes flatten to the same type list.
pub open spec fn variants_conflict(variants: Seq<VariantDecl>, marks: Seq<bool>, i: int, j: int) -> bool {
    &&& 0 <= i < variants.len() && 0 <= j < variants.len()
    &&& marks[i] && marks[j]
    &&& shape_key(variants[i].shape) != shape_key(variants[j].shape)
    &&& flat_types(variants[i].shape) is Some
    &&& flat_types(variants[i].shape) == flat_types(variants[j].shape)
}

/// Some two marked variants of different shapes flatten to the same type list.
pub open spec fn ambiguous(variants: Seq<VariantDecl>, marks: Seq<bool>) -> bool {
    exists|i: int, j: int| variants_conflict(variants, marks, i, j)
}

/// `later` and `earlier` are the first members of the first group of the grouping of the
/// marked variants that flattens to the type list of an earlier group, and of that group.
pub open spec fn first_conflict(variants: Seq<VariantDecl>, marks: Seq<bool>, later: int, earlier: int) -> bool {
    exists|groups: Seq<Seq<usize>>, g: int, h: int|
        {
            &&& is_grouping(variants, marks, groups)
            &&& #[trigger] groups_conflict(variants, groups, g, h)
            &&& forall|g2: int, h2: int| g2 < g ==> !groups_conflict(variants, groups, g2, h2)
            &&& later == groups[g][0]
            &&& earlier == groups[h][0]
        }
}

/// Two groups of a grouping conflict exactly when two of the marked variants do.
pub proof fn lemma_conflict_iff_ambiguous(
    variants: Seq<VariantDecl>,
    marks: Seq<bool>,
    groups: Seq<Seq<usize>>,
)
    requires
        marks.len() == variants.len(),
        is_grouping(variants, marks, groups),
    ensures
        (exists|g: int, h: int| groups_conflict(variants, groups, g, h)) <==> ambiguous(variants, marks),
{
    if exists|g: int, h: int| groups_conflict(variants, groups, g, h) {
        let (g, h) = choose|g: int, h: int| groups_conflict(variants, groups, g, h);
        let i = groups[g][0] as int;
        let j = groups[h][0] as int;
        assert(groups[g].len() > 0 && groups[h].len() > 0);
        assert(variants_conflict(variants, marks, i, j));
    }
    if ambiguous(variants, marks) {
        let (i, j) = choose|i: int, j: int| variants_conflict(variants, marks, i, j);
        assert(marks[i] && marks[j]);
        let (g, a) = choose|g: int, a: int|
            0 <= g < groups.len() && 0 <= a < groups[g].len() && #[trigger] groups[g][a] == i;
        let (h, b) = choose|h: int, b: int|
            0 <= h < groups.len() && 0 <= b < groups[h].len() && #[trigger] groups[h][b] == j;
        lemma_key_determines_flat(variants[i].shape, group_shape(variants, groups, g));
        lemma_key_determines_flat(variants[j].shape, group_shape(variants, groups, h));
        assert(g != h);
        if g > h {
            assert(groups_conflict(variants, groups, g, h));
        } else {
            assert(groups_conflict(variants, groups, h, g));
        }
    }
}

/// Checks that no group of one outcome flattens to the type list of an earlier group. On a
/// conflict it returns the first conflicting group and the earlier group it conflicts with.
pub fn validate_grouped_variants(variants: &[VariantDecl], groups: &Vec<Vec<usize>>) -> (r: Result<
    (),
    (usize, usize),
>)
    requires
        forall|g: int| 0 <= g < groups@.len() ==> #[trigger] groups@[g]@.len() > 0
            && groups@[g]@[0] < variants@.len(),
    ensures
        r is Ok <==> !exists|g: int, h: int| groups_conflict(variants@, nested(groups@), g, h),
        r matches Err((g, h)) ==> {
            &&& groups_conflict(variants@, nested(groups@), g as int, h as int)
            &&& forall|g2: int, h2: int|
                g2 < g ==> !groups_conflict(variants@, nested(groups@), g2, h2)
        },
{
    let ghost gs = nested(groups@);
    let mut g: usize = 0;
    while g < groups.len()
        invariant
            g <= groups@.len(),
            gs == nested(groups@),
            forall|k: int| 0 <= k < groups@.len() ==> #[trigger] groups@[k]@.len() > 0
                && groups@[k]@[0] < variants@.len(),
            forall|g2: int, h2: int| g2 < g ==> !groups_conflict(variants@, gs, g2, h2),
        decreases groups@.len() - g,
    {
        assert(groups@[g as int]@.len() > 0);
        let mut h: usize = 0;
        while h < g
            invariant
                h <= g < groups@.len(),
                gs == nested(groups@),
                forall|k: int| 0 <= k < groups@.len() ==> #[trigger] groups@[k]@.len() > 0
                    && groups@[k]@[0] < variants@.len(),
                forall|g2: int, h2: int| g2 < g ==> !groups_conflict(variants@, gs, g2, h2),
                forall|h2: int| h2 < h ==> !groups_conflict(variants@, gs, g as int, h2),
            decreases g - h,
        {
            assert(groups@[h as int]@.len() > 0);
            assert(gs[g as int] == groups@[g as int]@ && gs[h as int] == groups@[h as int]@);
            if same_flat_types(&variants[groups[g][0]].shape, &variants[groups[h][0]].shape) {
                assert(groups_conflict(variants@, gs, g as int, h as int));
                return Err((g, h));
            }
            h = h + 1;
        }
        g = g + 1;
    }
    Ok(())
}

} // verus!
