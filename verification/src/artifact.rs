//! The synthesized artifact: the enumeration's variants, its accessors, its
//! lookup constructors and its conversion from strings, as plain data that a
//! renderer turns into declarations.

use crate::schema::{Kind, Value, ValueSpec};
use crate::search::{lemma_first_where_absent, lemma_first_where_found, looked_up};
use crate::text::copied;
use vstd::prelude::*;
use vstd::string::*;

verus! {

/// The type of an accessor's result or of a constructor's parameter.
#[derive(Debug, PartialEq, Eq)]
pub enum TypeName {
    /// The type that stands for a kind of column; the strings of a `Text`
    /// column are string literals.
    Primitive(Kind),
    /// A type that a replacement directive names.
    Named(String),
}

/// The mathematical model of a [`TypeName`].
pub enum TypeNameSpec {
    Primitive(Kind),
    Named(Seq<char>),
}

impl View for TypeName {
    type V = TypeNameSpec;

    open spec fn view(&self) -> TypeNameSpec {
        match self {
            TypeName::Primitive(k) => TypeNameSpec::Primitive(*k),
            TypeName::Named(t) => TypeNameSpec::Named(t@),
        }
    }
}

impl DeepView for TypeName {
    type V = TypeNameSpec;

    open spec fn deep_view(&self) -> TypeNameSpec {
        self@
    }
}

/// A value as the artifact states it.
#[derive(Debug, PartialEq, Eq)]
pub enum Rendered {
    /// The value itself, as a literal.
    Literal(Value),
    /// The constant `variant` of the enumeration `ty`.
    Constant { ty: String, variant: String },
    /// The call of `function` of the type `ty` on the string literal
    /// `argument`.
    Call { ty: String, function: String, argument: String },
}

/// The mathematical model of a [`Rendered`].
pub enum RenderedSpec {
    Literal(ValueSpec),
    Constant { ty: Seq<char>, variant: Seq<char> },
    Call { ty: Seq<char>, function: Seq<char>, argument: Seq<char> },
}

impl View for Rendered {
    type V = RenderedSpec;

    open spec fn view(&self) -> RenderedSpec {
        match self {
            Rendered::Literal(v) => RenderedSpec::Literal(v@),
            Rendered::Constant { ty, variant } => RenderedSpec::Constant {
                ty: ty@,
                variant: variant@,
            },
            Rendered::Call { ty, function, argument } => RenderedSpec::Call {
                ty: ty@,
                function: function@,
                argument: argument@,
            },
        }
    }
}

impl DeepView for Rendered {
    type V = RenderedSpec;

    open spec fn deep_view(&self) -> RenderedSpec {
        self@
    }
}

impl Clone for Rendered {
    fn clone(&self) -> (r: Rendered)
        ensures
            r@ == self@,
    {
        match self {
            Rendered::Literal(v) => Rendered::Literal(v.clone()),
            Rendered::Constant { ty, variant } => Rendered::Constant {
                ty: ty.clone(),
                variant: variant.clone(),
            },
            Rendered::Call { ty, function, argument } => Rendered::Call {
                ty: ty.clone(),
                function: function.clone(),
                argument: argument.clone(),
            },
        }
    }
}

impl Rendered {
    /// Whether the two state the same value in the same way.
    pub fn same_as(&self, other: &Rendered) -> (r: bool)
        ensures
            r == (self@ == other@),
    {
        match (self, other) {
            (Rendered::Literal(a), Rendered::Literal(b)) => a.same_as(b),
            (
                Rendered::Constant { ty: ta, variant: va },
                Rendered::Constant { ty: tb, variant: vb },
            ) => *ta == *tb && *va == *vb,
            (
                Rendered::Call { ty: ta, function: fa, argument: aa },
                Rendered::Call { ty: tb, function: fb, argument: ab },
            ) => *ta == *tb && *fa == *fb && *aa == *ab,
            _ => false,
        }
    }
}

/// Whether the two tuples state the same values in the same way.
pub fn same_key(a: &Vec<Rendered>, b: &Vec<Rendered>) -> (r: bool)
    ensures
        r == (a.deep_view() == b.deep_view()),
{
    if a.len() != b.len() {
        assert(a.deep_view().len() != b.deep_view().len());
        return false;
    }
    let mut i: usize = 0;
    while i < a.len()
        invariant
            i <= a.len(),
            a.len() == b.len(),
            forall|j: int| 0 <= j < i ==> a.deep_view()[j] == b.deep_view()[j],
        decreases a.len() - i,
    {
        if !a[i].same_as(&b[i]) {
            assert(a.deep_view()[i as int] != b.deep_view()[i as int]);
            return false;
        }
        i += 1;
    }
    assert(a.deep_view() =~= b.deep_view());
    true
}

/// An accessor: for each variant that has one, the value that the accessor
/// states for it.
#[derive(Debug, PartialEq, Eq)]
pub struct Accessor {
    pub name: String,
    pub returns: TypeName,
    /// Whether some variant has no value: a partial accessor yields an
    /// optional value, absent for the variants without an arm.
    pub partial: bool,
    /// The variants with their values, in the order of the rows.
    pub arms: Vec<(String, Rendered)>,
}

/// The mathematical model of an [`Accessor`].
pub struct AccessorSpec {
    pub name: Seq<char>,
    pub returns: TypeNameSpec,
    pub partial: bool,
    pub arms: Seq<(Seq<char>, RenderedSpec)>,
}

impl View for Accessor {
    type V = AccessorSpec;

    open spec fn view(&self) -> AccessorSpec {
        AccessorSpec {
            name: self.name@,
            returns: self.returns@,
            partial: self.partial,
            arms: self.arms.deep_view(),
        }
    }
}

impl DeepView for Accessor {
    type V = AccessorSpec;

    open spec fn deep_view(&self) -> AccessorSpec {
        self@
    }
}

impl AccessorSpec {
    /// What the accessor yields for `variant`: the value of the first arm for
    /// that variant, and nothing where there is no such arm.
    pub open spec fn value_of(self, variant: Seq<char>) -> Option<RenderedSpec> {
        looked_up(self.arms, variant)
    }
}

impl Accessor {
    /// What the accessor yields for `variant`.
    pub fn value_of(&self, variant: &str) -> (r: Option<&Rendered>)
        ensures
            r.deep_view() == self@.value_of(variant@),
    {
        let wanted = String::from_str(variant);
        let ghost p = |arm: (Seq<char>, RenderedSpec)| arm.0 == variant@;
        let mut i: usize = 0;
        while i < self.arms.len()
            invariant
                i <= self.arms.len(),
                wanted@ == variant@,
                p == |arm: (Seq<char>, RenderedSpec)| arm.0 == variant@,
                forall|j: int| 0 <= j < i ==> !p(#[trigger] self.arms.deep_view()[j]),
            decreases self.arms.len() - i,
        {
            if self.arms[i].0 == wanted {
                proof {
                    lemma_first_where_found(self.arms.deep_view(), p, i as int);
                }
                return Some(&self.arms[i].1);
            }
            i += 1;
        }
        proof {
            lemma_first_where_absent(self.arms.deep_view(), p);
        }
        None
    }
}

/// The conversion from a string to the variant that stands for it.
#[derive(Debug, PartialEq, Eq)]
pub struct Conversion {
    /// The name of the enumeration.
    pub enumeration: String,
    /// The strings with their variants, in the order of the rows.
    pub arms: Vec<(String, String)>,
}

/// The mathematical model of a [`Conversion`].
pub struct ConversionSpec {
    pub enumeration: Seq<char>,
    pub arms: Seq<(Seq<char>, Seq<char>)>,
}

impl View for Conversion {
    type V = ConversionSpec;

    open spec fn view(&self) -> ConversionSpec {
        ConversionSpec { enumeration: self.enumeration@, arms: self.arms.deep_view() }
    }
}

impl DeepView for Conversion {
    type V = ConversionSpec;

    open spec fn deep_view(&self) -> ConversionSpec {
        self@
    }
}

impl ConversionSpec {
    /// The message of the failure to convert `s`.
    pub open spec fn unknown(self, s: Seq<char>) -> Seq<char> {
        "Unknown "@ + self.enumeration + " "@ + s
    }

    /// What the conversion makes of `s`: the variant of the first arm for that
    /// string, and a failure that names the enumeration and the string where
    /// there is no such arm.
    pub open spec fn converted(self, s: Seq<char>) -> Result<Seq<char>, Seq<char>> {
        match looked_up(self.arms, s) {
            Some(variant) => Ok(variant),
            None => Err(self.unknown(s)),
        }
    }
}

impl Conversion {
    /// Converts `s` to the variant that stands for it.
    pub fn convert(&self, s: &str) -> (r: Result<String, String>)
        ensures
            match r {
                Ok(variant) => self@.converted(s@) == Ok::<Seq<char>, Seq<char>>(variant@),
                Err(message) => self@.converted(s@) == Err::<Seq<char>, Seq<char>>(message@),
            },
    {
        let wanted = String::from_str(s);
        let ghost p = |arm: (Seq<char>, Seq<char>)| arm.0 == s@;
        let mut i: usize = 0;
        while i < self.arms.len()
            invariant
                i <= self.arms.len(),
                wanted@ == s@,
                p == |arm: (Seq<char>, Seq<char>)| arm.0 == s@,
                forall|j: int| 0 <= j < i ==> !p(#[trigger] self.arms.deep_view()[j]),
            decreases self.arms.len() - i,
        {
            if self.arms[i].0 == wanted {
                proof {
                    lemma_first_where_found(self.arms.deep_view(), p, i as int);
                }
                return Ok(self.arms[i].1.clone());
            }
            i += 1;
        }
        proof {
            lemma_first_where_absent(self.arms.deep_view(), p);
        }
        let mut message = String::from_str("Unknown ");
        message.append(self.enumeration.as_str());
        message.append(" ");
        message.append(s);
        Err(message)
    }
}

/// A parameter of a lookup constructor.
#[derive(Debug, PartialEq, Eq)]
pub struct Parameter {
    pub name: String,
    pub ty: TypeName,
}

/// The mathematical model of a [`Parameter`].
pub struct ParameterSpec {
    pub name: Seq<char>,
    pub ty: TypeNameSpec,
}

impl View for Parameter {
    type V = ParameterSpec;

    open spec fn view(&self) -> ParameterSpec {
        ParameterSpec { name: self.name@, ty: self.ty@ }
    }
}

impl DeepView for Parameter {
    type V = ParameterSpec;

    open spec fn deep_view(&self) -> ParameterSpec {
        self@
    }
}

/// A lookup constructor over some columns of the primary key: for each tuple
/// of their values that occurs, the variants of the rows that hold it.
#[derive(Debug, PartialEq, Eq)]
pub struct Constructor {
    /// The snake case names of the columns, joined.
    pub name: String,
    /// The positions, within the primary key, of the columns.
    pub columns: Vec<usize>,
    pub parameters: Vec<Parameter>,
    /// Whether the columns are the whole primary key: a full constructor
    /// yields at most one variant, any other a sequence of variants.
    pub full: bool,
    /// The tuples that occur, each with the variants of its rows in the order
    /// of the rows; the tuples stand in the order in which they first occur.
    pub buckets: Vec<(Vec<Rendered>, Vec<String>)>,
}

/// The mathematical model of a [`Constructor`].
pub struct ConstructorSpec {
    pub name: Seq<char>,
    pub columns: Seq<usize>,
    pub parameters: Seq<ParameterSpec>,
    pub full: bool,
    pub buckets: Seq<(Seq<RenderedSpec>, Seq<Seq<char>>)>,
}

impl View for Constructor {
    type V = ConstructorSpec;

    open spec fn view(&self) -> ConstructorSpec {
        ConstructorSpec {
            name: self.name@,
            columns: self.columns@,
            parameters: self.parameters.deep_view(),
            full: self.full,
            buckets: self.buckets.deep_view(),
        }
    }
}

impl DeepView for Constructor {
    type V = ConstructorSpec;

    open spec fn deep_view(&self) -> ConstructorSpec {
        self@
    }
}

impl ConstructorSpec {
    /// The variants that the constructor yields for `key`, in order: those of
    /// the first bucket for that tuple, and none where there is no such
    /// bucket.
    pub open spec fn lookup(self, key: Seq<RenderedSpec>) -> Seq<Seq<char>> {
        match looked_up(self.buckets, key) {
            Some(variants) => variants,
            None => Seq::empty(),
        }
    }

    /// The variant that the constructor yields for `key` where exactly one
    /// stands for it.
    pub open spec fn lookup_unique(self, key: Seq<RenderedSpec>) -> Option<Seq<char>> {
        if self.lookup(key).len() == 1 {
            Some(self.lookup(key)[0])
        } else {
            None
        }
    }
}

impl Constructor {
    /// The variants that the constructor yields for `key`, in order.
    pub fn lookup(&self, key: &Vec<Rendered>) -> (r: Vec<String>)
        ensures
            r.deep_view() == self@.lookup(key.deep_view()),
    {
        let ghost p = |bucket: (Seq<RenderedSpec>, Seq<Seq<char>>)| bucket.0 == key.deep_view();
        let mut i: usize = 0;
        while i < self.buckets.len()
            invariant
                i <= self.buckets.len(),
                p == |bucket: (Seq<RenderedSpec>, Seq<Seq<char>>)| bucket.0 == key.deep_view(),
                forall|j: int| 0 <= j < i ==> !p(#[trigger] self.buckets.deep_view()[j]),
            decreases self.buckets.len() - i,
        {
            if same_key(&self.buckets[i].0, key) {
                proof {
                    lemma_first_where_found(self.buckets.deep_view(), p, i as int);
                }
                return copied(&self.buckets[i].1);
            }
            i += 1;
        }
        proof {
            lemma_first_where_absent(self.buckets.deep_view(), p);
        }
        let none: Vec<String> = Vec::new();
        assert(none.deep_view() =~= Seq::<Seq<char>>::empty());
        none
    }

    /// The variant that the constructor yields for `key` where exactly one
    /// stands for it.
    pub fn lookup_unique(&self, key: &Vec<Rendered>) -> (r: Option<String>)
        ensures
            r.deep_view() == self@.lookup_unique(key.deep_view()),
    {
        let mut found = self.lookup(key);
        if found.len() == 1 {
            found.pop()
        } else {
            None
        }
    }
}

/// The enumeration to fill: its name and the variants that it declares
/// already.
#[derive(Debug, PartialEq, Eq)]
pub struct EnumItem {
    pub name: String,
    pub variants: Vec<String>,
}

/// The mathematical model of an [`EnumItem`].
pub struct EnumItemSpec {
    pub name: Seq<char>,
    pub variants: Seq<Seq<char>>,
}

impl View for EnumItem {
    type V = EnumItemSpec;

    open spec fn view(&self) -> EnumItemSpec {
        EnumItemSpec { name: self.name@, variants: self.variants.deep_view() }
    }
}

/// All that is synthesized for one enumeration.
#[derive(Debug, PartialEq, Eq)]
pub struct Artifact {
    /// The enumeration, with one variant added for each row.
    pub item: EnumItem,
    /// The accessor for the string of the only primary-key column.
    pub as_str: Option<Accessor>,
    /// The conversion from the string of the only primary-key column.
    pub try_from: Option<Conversion>,
    /// The accessors of the other columns, in the schema's order.
    pub accessors: Vec<Accessor>,
    /// The lookup constructors, by the number of their columns and then by the
    /// order of the columns.
    pub constructors: Vec<Constructor>,
}

/// The mathematical model of an [`Artifact`].
pub struct ArtifactSpec {
    pub item: EnumItemSpec,
    pub as_str: Option<AccessorSpec>,
    pub try_from: Option<ConversionSpec>,
    pub accessors: Seq<AccessorSpec>,
    pub constructors: Seq<ConstructorSpec>,
}

impl View for Artifact {
    type V = ArtifactSpec;

    open spec fn view(&self) -> ArtifactSpec {
        ArtifactSpec {
            item: self.item@,
            as_str: self.as_str.deep_view(),
            try_from: self.try_from.deep_view(),
            accessors: self.accessors.deep_view(),
            constructors: self.constructors.deep_view(),
        }
    }
}

impl Artifact {
    /// Whether no two variants of the enumeration have the same name.
    pub fn has_distinct_variants(&self) -> (r: bool)
        ensures
            r == self@.item.variants.no_duplicates(),
    {
        let variants = &self.item.variants;
        let mut j: usize = 0;
        while j < variants.len()
            invariant
                j <= variants.len(),
                variants == &self.item.variants,
                forall|a: int, b: int|
                    0 <= a < b < j ==> variants.deep_view()[a] != variants.deep_view()[b],
            decreases variants.len() - j,
        {
            let mut i: usize = 0;
            while i < j
                invariant
                    i <= j < variants.len(),
                    variants == &self.item.variants,
                    forall|a: int|
                        0 <= a < i ==> variants.deep_view()[a] != variants.deep_view()[j as int],
                decreases j - i,
            {
                if variants[i] == variants[j] {
                    assert(self@.item.variants[i as int] == self@.item.variants[j as int]);
                    return false;
                }
                i += 1;
            }
            j += 1;
        }
        let ghost names = variants.deep_view();
        assert forall|a: int, b: int|
            0 <= a < names.len() && 0 <= b < names.len() && a != b implies names[a]
            != names[b] by {
            if b < a {
                assert(names[b] != names[a]);
            }
        }
        true
    }
}

} // verus!
