use vstd::prelude::*;

use crate::bool_packing::{bit_at, lemma_pack_round_trip, pack_bool, packed};
use crate::declaration::{
    bad_marker, ensure_unit_or_tuple_struct, good_marker, has_bad_attribute, has_good_attribute,
    has_marker, VariantDecl,
};
use crate::grouping::{
    ambiguous, first_conflict, group_variant_ref_by_type, is_grouping, lemma_conflict_iff_ambiguous,
    groups_conflict, lemma_single_marked_one_group, nested,
    validate_grouped_variants, variants_conflict,
};

verus! {

/// The two outcomes a variant can be marked with.
#[derive(PartialEq, Eq, Structural, Clone, Copy, Debug)]
pub enum Outcome {
    Good,
    Bad,
}

/// How an access implementation takes the enum value.
#[derive(PartialEq, Eq, Structural, Clone, Copy, Debug)]
pub enum Access {
    /// By value.
    Owned,
    /// By shared reference.
    Shared,
    /// By mutable reference.
    Unique,
}

/// One access implementation: it hands out the payload of the variants of one group and
/// gives the value back unchanged for every other variant.
#[derive(PartialEq, Eq, Structural, Clone, Copy, Debug)]
pub struct Accessor {
    pub outcome: Outcome,
    pub access: Access,
    /// The index of the group among the groups of `outcome`.
    pub group: usize,
}

/// One constructor: it builds variant `variant` from a bare payload.
#[derive(PartialEq, Eq, Structural, Clone, Copy, Debug)]
pub struct Constructor {
    pub outcome: Outcome,
    pub variant: usize,
}

/// What the derivation emits for an enum.
#[derive(Debug)]
pub struct Derivation {
    /// The `good` variants grouped by shape, as variant indices.
    pub good_groups: Vec<Vec<usize>>,
    /// The `bad` variants grouped by shape, as variant indices.
    pub bad_groups: Vec<Vec<usize>>,
    /// The access implementations, in the order they are emitted.
    pub accessors: Vec<Accessor>,
    /// The constructors, in the order they are emitted.
    pub constructors: Vec<Constructor>,
    /// One bit per variant, set for the `good` ones.
    pub good_table: Vec<u8>,
    /// One bit per variant, set for the `bad` ones.
    pub bad_table: Vec<u8>,
    /// Whether the enum is a two-state enum.
    pub two_states: bool,
}

/// Why an enum cannot be derived.
#[derive(PartialEq, Eq, Structural, Clone, Copy, Debug)]
pub enum DeriveError {
    /// The enum has no variants.
    NoVariants,
    /// The variant at this index has named fields and carries a marker.
    NamedWithMarker(usize),
    /// No variant carries a marker.
    NoMarkedVariants,
    /// Two groups of one outcome flatten to the same type list; `later` and `earlier` are
    /// the first variants of the two groups.
    Ambiguous { outcome: Outcome, later: usize, earlier: usize },
}

/// For each variant, whether it carries the marker `name`.
pub open spec fn marks_of(variants: Seq<VariantDecl>, name: Seq<char>) -> Seq<bool> {
    Seq::new(variants.len(), |i: int| has_marker(variants[i], name))
}

/// Variant `i` has named fields and carries the marker `name`.
pub open spec fn named_marked(variants: Seq<VariantDecl>, name: Seq<char>, i: int) -> bool {
    0 <= i < variants.len() && has_marker(variants[i], name) && variants[i].shape is Named
}

/// The access implementations for `n` groups of one outcome: for each group in order, one
/// by value, one by shared reference and one by mutable reference.
pub open spec fn accessors_for(outcome: Outcome, n: int) -> Seq<Accessor> {
    Seq::new(
        (3 * n) as nat,
        |k: int|
            Accessor {
                outcome,
                access: if k % 3 == 0 {
                    Access::Owned
                } else if k % 3 == 1 {
                    Access::Shared
                } else {
                    Access::Unique
                },
                group: (k / 3) as usize,
            },
    )
}

/// One constructor for each group with exactly one member, in group order.
pub open spec fn constructors_for(groups: Seq<Seq<usize>>, outcome: Outcome) -> Seq<Constructor>
    decreases groups.len(),
{
    if groups.len() == 0 {
        seq![]
    } else {
        let rest = constructors_for(groups.drop_last(), outcome);
        if groups.last().len() == 1 {
            rest.push(Constructor { outcome, variant: groups.last()[0] })
        } else {
            rest
        }
    }
}

/// `d` is what the derivation emits for `variants`.
pub open spec fn derives(variants: Seq<VariantDecl>, d: Derivation) -> bool {
    let good = marks_of(variants, good_marker());
    let bad = marks_of(variants, bad_marker());
    let ng = d.good_groups@.len() as int;
    let nb = d.bad_groups@.len() as int;
    &&& is_grouping(variants, good, nested(d.good_groups@))
    &&& is_grouping(variants, bad, nested(d.bad_groups@))
    &&& d.accessors@ == accessors_for(Outcome::Good, ng) + accessors_for(Outcome::Bad, nb)
    &&& d.constructors@ == constructors_for(nested(d.good_groups@), Outcome::Good)
        + constructors_for(nested(d.bad_groups@), Outcome::Bad)
    &&& d.good_table@ == packed(good)
    &&& d.bad_table@ == packed(bad)
    &&& d.two_states == (ng == 1 && nb == 1 && variants.len() == 2 && d.good_table@
        != d.bad_table@)
}


/// The markers are well placed: there are variants, no variant with named fields carries a
/// marker, and some variant carries one.
pub open spec fn markers_valid(variants: Seq<VariantDecl>) -> bool {
    &&& variants.len() > 0
    &&& forall|i: int| !named_marked(variants, good_marker(), i)
    &&& forall|i: int| !named_marked(variants, bad_marker(), i)
    &&& exists|i: int|
        0 <= i < variants.len() && (has_marker(variants[i], good_marker()) || has_marker(
            variants[i],
            bad_marker(),
        ))
}

/// Appends the access implementations for `n` groups of `outcome`.
fn push_accessors(accessors: &mut Vec<Accessor>, outcome: Outcome, n: usize)
    ensures
        final(accessors)@ == old(accessors)@ + accessors_for(outcome, n as int),
{
    let ghost start = old(accessors)@;
    let mut g: usize = 0;
    while g < n
        invariant
            g <= n,
            accessors@ =~= start + accessors_for(outcome, g as int),
        decreases n - g,
    {
        accessors.push(Accessor { outcome, access: Access::Owned, group: g });
        accessors.push(Accessor { outcome, access: Access::Shared, group: g });
        accessors.push(Accessor { outcome, access: Access::Unique, group: g });
        proof {
            let a = accessors_for(outcome, g as int);
            let b = accessors_for(outcome, g + 1);
            assert forall|k: int| 0 <= k < a.len() implies #[trigger] b[k] == a[k] by {}
            assert(b[3 * g] == Accessor { outcome, access: Access::Owned, group: g });
            assert(b[3 * g + 1] == Accessor { outcome, access: Access::Shared, group: g });
            assert(b[3 * g + 2] == Accessor { outcome, access: Access::Unique, group: g });
            assert(accessors@ =~= start + b);
        }
        g = g + 1;
    }
}

/// Appends a constructor for each group of `outcome` that has exactly one member.
fn push_constructors(constructors: &mut Vec<Constructor>, groups: &Vec<Vec<usize>>, outcome: Outcome)
    ensures
        final(constructors)@ == old(constructors)@ + constructors_for(nested(groups@), outcome),
{
    let ghost start = old(constructors)@;
    let mut g: usize = 0;
    while g < groups.len()
        invariant
            g <= groups@.len(),
            constructors@ == start + constructors_for(nested(groups@).take(g as int), outcome),
        decreases groups@.len() - g,
    {
        let ghost before = nested(groups@).take(g as int);
        let ghost after = nested(groups@).take(g + 1);
        assert(after.drop_last() =~= before);
        assert(after.last() == groups@[g as int]@);
        if groups[g].len() == 1 {
            constructors.push(Constructor { outcome, variant: groups[g][0] });
        }
        g = g + 1;
    }
    assert(nested(groups@).take(groups@.len() as int) =~= nested(groups@));
}

fn same_bytes(a: &Vec<u8>, b: &Vec<u8>) -> (r: bool)
    ensures
        r == (a@ == b@),
{
    if a.len() != b.len() {
        return false;
    }
    let mut k: usize = 0;
    while k < a.len()
        invariant
            k <= a@.len(),
            a@.len() == b@.len(),
            forall|m: int| 0 <= m < k ==> a@[m] == b@[m],
        decreases a@.len() - k,
    {
        if a[k] != b[k] {
            return false;
        }
        k = k + 1;
    }
    assert(a@ =~= b@);
    true
}

/// The first variant with named fields whose mark is set.
fn first_named_marked(variants: &[VariantDecl], marks: &Vec<bool>, name: Ghost<Seq<char>>) -> (r:
    Option<usize>)
    requires
        marks@ == marks_of(variants@, name@),
    ensures
        r matches Some(i) ==> named_marked(variants@, name@, i as int) && forall|j: int|
            j < i ==> !named_marked(variants@, name@, j),
        r is None ==> forall|j: int| !named_marked(variants@, name@, j),
{
    let mut i: usize = 0;
    while i < variants.len()
        invariant
            i <= variants@.len(),
            marks@ == marks_of(variants@, name@),
            forall|j: int| j < i ==> !named_marked(variants@, name@, j),
        decreases variants@.len() - i,
    {
        if marks[i] && !ensure_unit_or_tuple_struct(&variants[i]) {
            return Some(i);
        }
        i = i + 1;
    }
    None
}

/// Derives the access implementations, constructors, classification tables and two-state
/// marker for an enum with these variants, or says why the enum cannot be derived.
pub fn derive_propagate(variants: &[VariantDecl]) -> (r: Result<Derivation, DeriveError>)
    ensures
        variants@.len() == 0 ==> r == Err::<Derivation, DeriveError>(DeriveError::NoVariants),
        variants@.len() > 0 && (exists|i: int| named_marked(variants@, good_marker(), i)) ==> (r matches Err(
            DeriveError::NamedWithMarker(i),
        ) && named_marked(variants@, good_marker(), i as int) && forall|j: int|
            j < i ==> !named_marked(variants@, good_marker(), j)),
        variants@.len() > 0 && (forall|i: int| !named_marked(variants@, good_marker(), i)) && (exists|
            i: int,
        | named_marked(variants@, bad_marker(), i)) ==> (r matches Err(DeriveError::NamedWithMarker(i))
            && named_marked(variants@, bad_marker(), i as int) && forall|j: int|
            j < i ==> !named_marked(variants@, bad_marker(), j)),
        variants@.len() > 0 && (forall|i: int| !named_marked(variants@, good_marker(), i)) && (forall|
            i: int,
        | !named_marked(variants@, bad_marker(), i)) && !markers_valid(variants@) ==> r == Err::<
            Derivation,
            DeriveError,
        >(DeriveError::NoMarkedVariants),
        markers_valid(variants@) && ambiguous(variants@, marks_of(variants@, bad_marker())) ==> (
        r matches Err(DeriveError::Ambiguous { outcome, later, earlier }) && outcome == Outcome::Bad
            && variants_conflict(
            variants@,
            marks_of(variants@, bad_marker()),
            later as int,
            earlier as int,
        ) && first_conflict(
            variants@,
            marks_of(variants@, bad_marker()),
            later as int,
            earlier as int,
        )),
        markers_valid(variants@) && !ambiguous(variants@, marks_of(variants@, bad_marker()))
            && ambiguous(variants@, marks_of(variants@, good_marker())) ==> (r matches Err(
            DeriveError::Ambiguous { outcome, later, earlier },
        ) && outcome == Outcome::Good && variants_conflict(
            variants@,
            marks_of(variants@, good_marker()),
            later as int,
            earlier as int,
        ) && first_conflict(
            variants@,
            marks_of(variants@, good_marker()),
            later as int,
            earlier as int,
        )),
        markers_valid(variants@) && !ambiguous(variants@, marks_of(variants@, bad_marker()))
            && !ambiguous(variants@, marks_of(variants@, good_marker())) ==> (r matches Ok(d)
            && derives(variants@, d)),
{
    if variants.len() == 0 {
        return Err(DeriveError::NoVariants);
    }
    let ghost good_spec = marks_of(variants@, good_marker());
    let ghost bad_spec = marks_of(variants@, bad_marker());
    let mut good_marks: Vec<bool> = Vec::new();
    let mut bad_marks: Vec<bool> = Vec::new();
    let mut any_marked = false;
    let mut i: usize = 0;
    while i < variants.len()
        invariant
            i <= variants@.len(),
            good_marks@ == good_spec.take(i as int),
            bad_marks@ == bad_spec.take(i as int),
            good_spec == marks_of(variants@, good_marker()),
            bad_spec == marks_of(variants@, bad_marker()),
            any_marked <==> exists|j: int| 0 <= j < i && (good_spec[j] || bad_spec[j]),
        decreases variants@.len() - i,
    {
        let g = has_good_attribute(&variants[i]);
        let b = has_bad_attribute(&variants[i]);
        good_marks.push(g);
        bad_marks.push(b);
        if g || b {
            any_marked = true;
            assert(good_spec[i as int] || bad_spec[i as int]);
        }
        proof {
            assert(good_marks@ =~= good_spec.take(i + 1));
            assert(bad_marks@ =~= bad_spec.take(i + 1));
        }
        i = i + 1;
    }
    assert(good_marks@ =~= good_spec);
    assert(bad_marks@ =~= bad_spec);
    if let Some(i) = first_named_marked(variants, &good_marks, Ghost(good_marker())) {
        return Err(DeriveError::NamedWithMarker(i));
    }
    if let Some(i) = first_named_marked(variants, &bad_marks, Ghost(bad_marker())) {
        return Err(DeriveError::NamedWithMarker(i));
    }
    if !any_marked {
        assert forall|j: int| 0 <= j < variants@.len() implies !(has_marker(
            variants@[j],
            good_marker(),
        ) || has_marker(variants@[j], bad_marker())) by {
            assert(!(good_spec[j] || bad_spec[j]));
        }
        return Err(DeriveError::NoMarkedVariants);
    }
    let good_groups = group_variant_ref_by_type(variants, good_marks.as_slice());
    let bad_groups = group_variant_ref_by_type(variants, bad_marks.as_slice());
    proof {
        lemma_conflict_iff_ambiguous(variants@, bad_spec, nested(bad_groups@));
        lemma_conflict_iff_ambiguous(variants@, good_spec, nested(good_groups@));
    }
    assert forall|g: int| 0 <= g < bad_groups@.len() implies #[trigger] bad_groups@[g]@.len() > 0
        && bad_groups@[g]@[0] < variants@.len() by {
        assert(nested(bad_groups@)[g].len() > 0);
        assert(nested(bad_groups@)[g][0] < variants@.len());
    }
    assert forall|g: int| 0 <= g < good_groups@.len() implies #[trigger] good_groups@[g]@.len() > 0
        && good_groups@[g]@[0] < variants@.len() by {
        assert(nested(good_groups@)[g].len() > 0);
        assert(nested(good_groups@)[g][0] < variants@.len());
    }
    if let Err((g, h)) = validate_grouped_variants(variants, &bad_groups) {
        proof {
            assert(nested(bad_groups@)[g as int][0] == bad_groups@[g as int]@[0]);
            assert(nested(bad_groups@)[h as int][0] == bad_groups@[h as int]@[0]);
            assert(groups_conflict(variants@, nested(bad_groups@), g as int, h as int));
        }
        return Err(
            DeriveError::Ambiguous {
                outcome: Outcome::Bad,
                later: bad_groups[g][0],
                earlier: bad_groups[h][0],
            },
        );
    }
    if let Err((g, h)) = validate_grouped_variants(variants, &good_groups) {
        proof {
            assert(nested(good_groups@)[g as int][0] == good_groups@[g as int]@[0]);
            assert(nested(good_groups@)[h as int][0] == good_groups@[h as int]@[0]);
            assert(groups_conflict(variants@, nested(good_groups@), g as int, h as int));
        }
        return Err(
            DeriveError::Ambiguous {
                outcome: Outcome::Good,
                later: good_groups[g][0],
                earlier: good_groups[h][0],
            },
        );
    }
    let mut accessors: Vec<Accessor> = Vec::new();
    push_accessors(&mut accessors, Outcome::Good, good_groups.len());
    push_accessors(&mut accessors, Outcome::Bad, bad_groups.len());
    let mut constructors: Vec<Constructor> = Vec::new();
    push_constructors(&mut constructors, &good_groups, Outcome::Good);
    push_constructors(&mut constructors, &bad_groups, Outcome::Bad);
    let good_table = pack_bool(good_marks.as_slice());
    let bad_table = pack_bool(bad_marks.as_slice());
    let two_states = good_groups.len() == 1 && bad_groups.len() == 1 && variants.len() == 2
        && !same_bytes(&good_table, &bad_table);
    Ok(
        Derivation {
            good_groups,
            bad_groups,
            accessors,
            constructors,
            good_table,
            bad_table,
            two_states,
        },
    )
}


proof fn lemma_constructors_for(groups: Seq<Seq<usize>>, outcome: Outcome, k: int)
    requires
        0 <= k < constructors_for(groups, outcome).len(),
    ensures
        constructors_for(groups, outcome)[k].outcome == outcome,
        exists|g: int|
            0 <= g < groups.len() && #[trigger] groups[g] == seq![
                constructors_for(groups, outcome)[k].variant,
            ],
    decreases groups.len(),
{
    let rest = constructors_for(groups.drop_last(), outcome);
    if k < rest.len() {
        lemma_constructors_for(groups.drop_last(), outcome, k);
        let g = choose|g: int|
            0 <= g < groups.drop_last().len() && #[trigger] groups.drop_last()[g] == seq![
                rest[k].variant,
            ];
        assert(groups[g] == groups.drop_last()[g]);
    } else {
        let g = groups.len() - 1;
        assert(groups[g] =~= seq![groups.last()[0]]);
    }
}

/// The groups of `outcome` in a derivation.
pub open spec fn groups_of(d: Derivation, outcome: Outcome) -> Seq<Seq<usize>> {
    if outcome == Outcome::Good {
        nested(d.good_groups@)
    } else {
        nested(d.bad_groups@)
    }
}

/// Every constructor builds the only member of a group of its outcome, and that group has
/// all three access implementations; so a value built by a constructor is handed back, as
/// the same payload, by the accessors of that group.
pub proof fn lemma_constructor_round_trip(variants: Seq<VariantDecl>, d: Derivation, k: int)
    requires
        derives(variants, d),
        0 <= k < d.constructors@.len(),
    ensures
        ({
            let c = d.constructors@[k];
            exists|g: int|
                {
                    &&& 0 <= g < groups_of(d, c.outcome).len()
                    &&& #[trigger] groups_of(d, c.outcome)[g] == seq![c.variant]
                    &&& d.accessors@.contains(
                        Accessor { outcome: c.outcome, access: Access::Owned, group: g as usize },
                    )
                    &&& d.accessors@.contains(
                        Accessor { outcome: c.outcome, access: Access::Shared, group: g as usize },
                    )
                    &&& d.accessors@.contains(
                        Accessor { outcome: c.outcome, access: Access::Unique, group: g as usize },
                    )
                }
        }),
{
    let good = nested(d.good_groups@);
    let bad = nested(d.bad_groups@);
    let cg = constructors_for(good, Outcome::Good);
    let c = d.constructors@[k];
    let ng = good.len() as int;
    let goods = accessors_for(Outcome::Good, ng);
    let bads = accessors_for(Outcome::Bad, bad.len() as int);
    if k < cg.len() {
        lemma_constructors_for(good, Outcome::Good, k);
        let g = choose|g: int| 0 <= g < good.len() && #[trigger] good[g] == seq![cg[k].variant];
        assert(d.accessors@[3 * g] == goods[3 * g]);
        assert(d.accessors@[3 * g + 1] == goods[3 * g + 1]);
        assert(d.accessors@[3 * g + 2] == goods[3 * g + 2]);
        assert(groups_of(d, c.outcome)[g] == seq![c.variant]);
    } else {
        lemma_constructors_for(bad, Outcome::Bad, k - cg.len());
        let g = choose|g: int|
            0 <= g < bad.len() && #[trigger] bad[g] == seq![
                constructors_for(bad, Outcome::Bad)[k - cg.len()].variant,
            ];
        let base = 3 * ng;
        assert(d.accessors@[base + 3 * g] == bads[3 * g]);
        assert(d.accessors@[base + 3 * g + 1] == bads[3 * g + 1]);
        assert(d.accessors@[base + 3 * g + 2] == bads[3 * g + 2]);
        assert(groups_of(d, c.outcome)[g] == seq![c.variant]);
    }
}

/// The marker that puts a variant in the groups of `outcome`.
pub open spec fn marker_of(outcome: Outcome) -> Seq<char> {
    if outcome == Outcome::Good {
        good_marker()
    } else {
        bad_marker()
    }
}

/// A variant that does not carry the marker of an outcome is in no group of that outcome, so
/// every access implementation of that outcome hands its values back unchanged.
pub proof fn lemma_unmarked_falls_back(variants: Seq<VariantDecl>, d: Derivation, outcome: Outcome, i: int)
    requires
        derives(variants, d),
        0 <= i < variants.len(),
        !has_marker(variants[i], marker_of(outcome)),
    ensures
        forall|g: int, a: int|
            0 <= g < groups_of(d, outcome).len() && 0 <= a < groups_of(d, outcome)[g].len()
                ==> groups_of(d, outcome)[g][a] != i,
{
    let marks = marks_of(variants, marker_of(outcome));
    assert(!marks[i]);
    assert(is_grouping(variants, marks, groups_of(d, outcome)));
}

/// Variant `i` carries the `good` marker and not the `bad` one.
pub open spec fn good_only(variants: Seq<VariantDecl>, i: int) -> bool {
    has_marker(variants[i], good_marker()) && !has_marker(variants[i], bad_marker())
}

/// Variant `i` carries the `bad` marker and not the `good` one.
pub open spec fn bad_only(variants: Seq<VariantDecl>, i: int) -> bool {
    has_marker(variants[i], bad_marker()) && !has_marker(variants[i], good_marker())
}

/// Variant `i` carries neither marker.
pub open spec fn neutral(variants: Seq<VariantDecl>, i: int) -> bool {
    !has_marker(variants[i], good_marker()) && !has_marker(variants[i], bad_marker())
}

/// An enum of exactly two variants, one marked only `good` and the other only `bad`, is a
/// two-state enum; an enum with a variant that carries neither marker is not.
pub proof fn lemma_two_state_eligibility(variants: Seq<VariantDecl>, d: Derivation)
    requires
        derives(variants, d),
    ensures
        variants.len() == 2 && ((good_only(variants, 0) && bad_only(variants, 1)) || (bad_only(
            variants,
            0,
        ) && good_only(variants, 1))) ==> d.two_states,
        (exists|i: int| 0 <= i < variants.len() && neutral(variants, i)) ==> !d.two_states,
{
    let good = marks_of(variants, good_marker());
    let bad = marks_of(variants, bad_marker());
    if variants.len() == 2 && ((good_only(variants, 0) && bad_only(variants, 1)) || (bad_only(
        variants,
        0,
    ) && good_only(variants, 1))) {
        let gi: int = if good_only(variants, 0) { 0 } else { 1 };
        let bi: int = 1 - gi;
        lemma_single_marked_one_group(variants, good, nested(d.good_groups@), gi);
        lemma_single_marked_one_group(variants, bad, nested(d.bad_groups@), bi);
        lemma_pack_round_trip(good);
        lemma_pack_round_trip(bad);
        assert(bit_at(packed(good), gi) != bit_at(packed(bad), gi));
    }
    if exists|i: int| 0 <= i < variants.len() && neutral(variants, i) {
        let i = choose|i: int| 0 <= i < variants.len() && neutral(variants, i);
        if d.two_states {
            let j = 1 - i;
            assert(variants.len() == 2);
            assert(d.good_groups@.len() == 1);
            assert(nested(d.good_groups@)[0].len() > 0);
            assert(nested(d.bad_groups@)[0].len() > 0);
            let x = nested(d.good_groups@)[0][0] as int;
            let y = nested(d.bad_groups@)[0][0] as int;
            assert(good[x] && bad[y]);
            assert(x == j && y == j);
            assert(good =~= bad);
        }
    }
}

} // verus!
