use vstd::prelude::*;

verus! {

/// The type of one unnamed field, as the derivation sees it.
#[derive(Debug)]
pub struct FieldType {
    /// The type as written, in token text.
    pub text: String,
    /// The element types, in token text, when the type is a literal tuple type.
    pub tuple: Option<Vec<String>>,
}

/// The field shape of a variant.
#[derive(Debug)]
pub enum Shape {
    /// No fields.
    Unit,
    /// Unnamed fields, in order.
    Unnamed(Vec<FieldType>),
    /// Named fields; their types play no part in the derivation.
    Named,
}

/// One variant of the enum being derived.
#[derive(Debug)]
pub struct VariantDecl {
    /// The path of each attribute on the variant, in token text.
    pub attrs: Vec<String>,
    /// The variant's fields.
    pub shape: Shape,
}

/// What two shapes are compared by when variants are grouped: the shape kind and, for
/// unnamed fields, each field type in order (its text and, for a literal tuple, its elements).
pub enum ShapeKey {
    Unit,
    Unnamed(Seq<(Seq<char>, Option<Seq<Seq<char>>>)>),
    Named,
}

/// How a variant's fields are bound when matched and handed out as one payload.
#[derive(PartialEq, Eq, Structural, Clone, Copy, Debug)]
pub enum Binding {
    /// No fields: the payload is `()`.
    Unit,
    /// One unnamed field: the payload is that field.
    Single,
    /// Several (or no) unnamed fields: the payload is the tuple of them, in order.
    Tuple(usize),
    /// Named fields: matched with `{ .. }`, no payload.
    Named,
}

pub open spec fn texts(v: Seq<String>) -> Seq<Seq<char>> {
    Seq::new(v.len(), |i: int| v[i]@)
}

pub open spec fn field_texts(fields: Seq<FieldType>) -> Seq<Seq<char>> {
    Seq::new(fields.len(), |i: int| fields[i].text@)
}

pub open spec fn type_key(t: FieldType) -> (Seq<char>, Option<Seq<Seq<char>>>) {
    (
        t.text@,
        match t.tuple {
            Some(elems) => Some(texts(elems@)),
            None => None,
        },
    )
}

pub open spec fn field_keys(fields: Seq<FieldType>) -> Seq<(Seq<char>, Option<Seq<Seq<char>>>)> {
    Seq::new(fields.len(), |i: int| type_key(fields[i]))
}

pub open spec fn shape_key(shape: Shape) -> ShapeKey {
    match shape {
        Shape::Unit => ShapeKey::Unit,
        Shape::Unnamed(fields) => ShapeKey::Unnamed(field_keys(fields@)),
        Shape::Named => ShapeKey::Named,
    }
}

/// The list of types that a shape stands for once a single literal-tuple field is flattened
/// into its elements; `None` for shapes that take no part in the ambiguity check (no fields,
/// named fields, or one field that is not a literal tuple).
pub open spec fn flat_types(shape: Shape) -> Option<Seq<Seq<char>>> {
    match shape {
        Shape::Unnamed(fields) => if fields@.len() == 1 {
            match fields@[0].tuple {
                Some(elems) => Some(texts(elems@)),
                None => None,
            }
        } else {
            Some(field_texts(fields@))
        },
        _ => None,
    }
}

pub open spec fn has_marker(variant: VariantDecl, name: Seq<char>) -> bool {
    exists|k: int| 0 <= k < variant.attrs@.len() && #[trigger] variant.attrs@[k]@ == name
}

pub open spec fn good_marker() -> Seq<char> {
    "good"@
}

pub open spec fn bad_marker() -> Seq<char> {
    "bad"@
}

pub open spec fn binding_of(shape: Shape) -> Binding {
    match shape {
        Shape::Unit => Binding::Unit,
        Shape::Unnamed(fields) => if fields@.len() == 1 {
            Binding::Single
        } else {
            Binding::Tuple(fields@.len() as usize)
        },
        Shape::Named => Binding::Named,
    }
}

/// Whether the variant carries an attribute whose path is `ident`.
pub fn has_attribute(variant: &VariantDecl, ident: &str) -> (r: bool)
    ensures
        r == has_marker(*variant, ident@),
{
    let name = ident.to_owned();
    let mut k: usize = 0;
    while k < variant.attrs.len()
        invariant
            k <= variant.attrs@.len(),
            name@ == ident@,
            forall|m: int| 0 <= m < k ==> variant.attrs@[m]@ != ident@,
        decreases variant.attrs@.len() - k,
    {
        if variant.attrs[k] == name {
            return true;
        }
        k = k + 1;
    }
    false
}

/// Whether the variant is marked `good`.
pub fn has_good_attribute(variant: &VariantDecl) -> (r: bool)
    ensures
        r == has_marker(*variant, good_marker()),
{
    has_attribute(variant, "good")
}

/// Whether the variant is marked `bad`.
pub fn has_bad_attribute(variant: &VariantDecl) -> (r: bool)
    ensures
        r == has_marker(*variant, bad_marker()),
{
    has_attribute(variant, "bad")
}

/// Whether the variant's shape can carry a marker: unit and unnamed fields can, named
/// fields cannot.
pub fn ensure_unit_or_tuple_struct(variant: &VariantDecl) -> (r: bool)
    ensures
        r == !(variant.shape is Named),
{
    match &variant.shape {
        Shape::Named => false,
        _ => true,
    }
}

/// How the fields of a variant of this shape are bound and handed out.
pub fn get_any_field_input_and_output(shape: &Shape) -> (r: Binding)
    ensures
        r == binding_of(*shape),
{
    match shape {
        Shape::Unit => Binding::Unit,
        Shape::Unnamed(fields) => if fields.len() == 1 {
            Binding::Single
        } else {
            Binding::Tuple(fields.len())
        },
        Shape::Named => Binding::Named,
    }
}

fn same_texts(a: &Vec<String>, b: &Vec<String>) -> (r: bool)
    ensures
        r == (texts(a@) == texts(b@)),
{
    if a.len() != b.len() {
        proof {
            assert(texts(a@).len() != texts(b@).len());
        }
        return false;
    }
    let mut k: usize = 0;
    while k < a.len()
        invariant
            k <= a@.len(),
            a@.len() == b@.len(),
            forall|m: int| 0 <= m < k ==> a@[m]@ == b@[m]@,
        decreases a@.len() - k,
    {
        if a[k] != b[k] {
            proof {
                assert(texts(a@)[k as int] != texts(b@)[k as int]);
            }
            return false;
        }
        k = k + 1;
    }
    assert(texts(a@) =~= texts(b@));
    true
}

fn same_field_texts(a: &Vec<FieldType>, b: &Vec<FieldType>) -> (r: bool)
    ensures
        r == (field_texts(a@) == field_texts(b@)),
{
    if a.len() != b.len() {
        proof {
            assert(field_texts(a@).len() != field_texts(b@).len());
        }
        return false;
    }
    let mut k: usize = 0;
    while k < a.len()
        invariant
            k <= a@.len(),
            a@.len() == b@.len(),
            forall|m: int| 0 <= m < k ==> a@[m].text@ == b@[m].text@,
        decreases a@.len() - k,
    {
        if a[k].text != b[k].text {
            proof {
                assert(field_texts(a@)[k as int] != field_texts(b@)[k as int]);
            }
            return false;
        }
        k = k + 1;
    }
    assert(field_texts(a@) =~= field_texts(b@));
    true
}

fn same_elem_field_texts(a: &Vec<String>, b: &Vec<FieldType>) -> (r: bool)
    ensures
        r == (texts(a@) == field_texts(b@)),
{
    if a.len() != b.len() {
        proof {
            assert(texts(a@).len() != field_texts(b@).len());
        }
        return false;
    }
    let mut k: usize = 0;
    while k < a.len()
        invariant
            k <= a@.len(),
            a@.len() == b@.len(),
            forall|m: int| 0 <= m < k ==> a@[m]@ == b@[m].text@,
        decreases a@.len() - k,
    {
        if a[k] != b[k].text {
            proof {
                assert(texts(a@)[k as int] != field_texts(b@)[k as int]);
            }
            return false;
        }
        k = k + 1;
    }
    assert(texts(a@) =~= field_texts(b@));
    true
}

fn same_type(a: &FieldType, b: &FieldType) -> (r: bool)
    ensures
        r == (type_key(*a) == type_key(*b)),
{
    if a.text != b.text {
        return false;
    }
    match (&a.tuple, &b.tuple) {
        (None, None) => true,
        (Some(ea), Some(eb)) => same_texts(ea, eb),
        _ => false,
    }
}

fn same_field_keys(a: &Vec<FieldType>, b: &Vec<FieldType>) -> (r: bool)
    ensures
        r == (field_keys(a@) == field_keys(b@)),
{
    if a.len() != b.len() {
        proof {
            assert(field_keys(a@).len() != field_keys(b@).len());
        }
        return false;
    }
    let mut k: usize = 0;
    while k < a.len()
        invariant
            k <= a@.len(),
            a@.len() == b@.len(),
            forall|m: int| 0 <= m < k ==> type_key(a@[m]) == type_key(b@[m]),
        decreases a@.len() - k,
    {
        if !same_type(&a[k], &b[k]) {
            proof {
                assert(field_keys(a@)[k as int] != field_keys(b@)[k as int]);
            }
            return false;
        }
        k = k + 1;
    }
    assert(field_keys(a@) =~= field_keys(b@));
    true
}

/// Shapes with one key flatten to one type list.
pub proof fn lemma_key_determines_flat(a: Shape, b: Shape)
    requires
        shape_key(a) == shape_key(b),
    ensures
        flat_types(a) == flat_types(b),
{
    match (a, b) {
        (Shape::Unnamed(fa), Shape::Unnamed(fb)) => {
            assert(field_keys(fa@) == field_keys(fb@));
            assert(fa@.len() == field_keys(fa@).len());
            if fa@.len() == 1 {
                assert(type_key(fa@[0]) == field_keys(fa@)[0]);
                assert(type_key(fa@[0]) == type_key(fb@[0]));
            } else {
                assert forall|i: int| 0 <= i < fa@.len() implies fa@[i].text@ == fb@[i].text@ by {
                    assert(type_key(fa@[i]) == field_keys(fa@)[i]);
                    assert(type_key(fb@[i]) == field_keys(fb@)[i]);
                }
                assert(field_texts(fa@) =~= field_texts(fb@));
            }
        },
        _ => {},
    }
}

/// Whether two shapes flatten to one type list, so that variants of both in one outcome
/// could not be told apart by their payload type.
pub fn same_flat_types(a: &Shape, b: &Shape) -> (r: bool)
    ensures
        r == (flat_types(*a) is Some && flat_types(*a) == flat_types(*b)),
{
    match (a, b) {
        (Shape::Unnamed(fa), Shape::Unnamed(fb)) => {
            if fa.len() == 1 {
                match &fa[0].tuple {
                    None => false,
                    Some(ea) => if fb.len() == 1 {
                        match &fb[0].tuple {
                            None => false,
                            Some(eb) => same_texts(ea, eb),
                        }
                    } else {
                        same_elem_field_texts(ea, fb)
                    },
                }
            } else if fb.len() == 1 {
                match &fb[0].tuple {
                    None => false,
                    Some(eb) => same_elem_field_texts(eb, fa),
                }
            } else {
                same_field_texts(fa, fb)
            }
        },
        _ => false,
    }
}

/// Whether two shapes fall into one group.
pub fn same_shape(a: &Shape, b: &Shape) -> (r: bool)
    ensures
        r == (shape_key(*a) == shape_key(*b)),
{
    match (a, b) {
        (Shape::Unit, Shape::Unit) => true,
        (Shape::Named, Shape::Named) => true,
        (Shape::Unnamed(fa), Shape::Unnamed(fb)) => same_field_keys(fa, fb),
        _ => false,
    }
}

} // verus!
