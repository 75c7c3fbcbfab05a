//! The header of a container: the fields it declares and its samples.

use vstd::prelude::*;

verus! {

/// The value type that a header declares for a field.
#[derive(Clone, Copy, Debug, PartialEq, Eq, Structural)]
pub enum ValueType {
    Integer,
    Float,
    String,
    /// Present or absent, without values. No typed pull decodes a flag.
    Flag,
}

/// How many values a field holds, per sample for a FORMAT field.
#[derive(Clone, Copy, Debug, PartialEq, Eq, Structural)]
pub enum Arity {
    /// Exactly this many.
    Fixed(u32),
    /// One for each alternate allele of the record.
    PerAllele,
    /// One for each genotype of the record.
    PerGenotype,
    /// Any number.
    Variable,
}

/// The two kinds of named field.
#[derive(Clone, Copy, Debug, PartialEq, Eq, Structural)]
pub enum Category {
    /// An annotation of the record as a whole.
    Info,
    /// An annotation of each sample of the record.
    Format,
}

/// One field declaration of a header.
#[derive(Debug)]
pub struct FieldDecl {
    pub name: Vec<u8>,
    pub category: Category,
    pub value_type: ValueType,
    pub arity: Arity,
}

/// The mathematical content of a [`FieldDecl`].
pub struct FieldDeclView {
    pub name: Seq<u8>,
    pub category: Category,
    pub value_type: ValueType,
    pub arity: Arity,
}

impl View for FieldDecl {
    type V = FieldDeclView;

    open spec fn view(&self) -> FieldDeclView {
        FieldDeclView {
            name: self.name@,
            category: self.category,
            value_type: self.value_type,
            arity: self.arity,
        }
    }
}

/// The global metadata of a container. The position of a declaration in the
/// header is the index under which records refer to it.
#[derive(Debug)]
pub struct Header {
    fields: Vec<FieldDecl>,
    samples: Vec<Vec<u8>>,
}

/// The mathematical content of a [`Header`].
pub struct HeaderView {
    pub fields: Seq<FieldDeclView>,
    pub samples: Seq<Seq<u8>>,
}

impl HeaderView {
    /// The declaration at `index` is the one of `name` in `category`.
    pub open spec fn declares_at(self, index: int, category: Category, name: Seq<u8>) -> bool {
        &&& 0 <= index < self.fields.len()
        &&& self.fields[index].category == category
        &&& self.fields[index].name == name
    }

    /// `index` holds the first declaration of `name` in `category`.
    pub open spec fn first_declared_at(self, index: int, category: Category, name: Seq<u8>) -> bool {
        &&& self.declares_at(index, category, name)
        &&& forall|earlier: int| 0 <= earlier < index ==> !self.declares_at(earlier, category, name)
    }

    /// The header declares `name` in `category`.
    pub open spec fn declares(self, category: Category, name: Seq<u8>) -> bool {
        exists|index: int| self.declares_at(index, category, name)
    }

    /// The index of the first declaration of `name` in `category`, if the
    /// header declares it.
    pub open spec fn find(self, category: Category, name: Seq<u8>) -> Option<int> {
        if exists|index: int| self.first_declared_at(index, category, name) {
            Some(choose|index: int| self.first_declared_at(index, category, name))
        } else {
            None
        }
    }

    /// A first declaration is the one that `find` yields.
    pub proof fn lemma_find_first(self, index: int, category: Category, name: Seq<u8>)
        requires
            self.first_declared_at(index, category, name),
        ensures
            self.find(category, name) == Some(index),
    {
        let chosen = choose|i: int| self.first_declared_at(i, category, name);
        assert(self.first_declared_at(chosen, category, name));
        if chosen < index {
            assert(!self.declares_at(chosen, category, name));
        } else if index < chosen {
            assert(!self.declares_at(index, category, name));
        }
    }

    /// Where no declaration matches, `find` yields nothing.
    pub proof fn lemma_find_none(self, category: Category, name: Seq<u8>)
        requires
            !self.declares(category, name),
        ensures
            self.find(category, name).is_none(),
    {
        if exists|index: int| self.first_declared_at(index, category, name) {
            let chosen = choose|i: int| self.first_declared_at(i, category, name);
            assert(self.declares_at(chosen, category, name));
        }
    }

    /// `find` yields an index exactly when the header declares the name, and
    /// then the first one.
    pub proof fn lemma_find_sound(self, category: Category, name: Seq<u8>)
        ensures
            match self.find(category, name) {
                Some(index) => self.first_declared_at(index, category, name),
                None => !self.declares(category, name),
            },
    {
        if exists|index: int| self.first_declared_at(index, category, name) {
        } else {
            if self.declares(category, name) {
                let declared = choose|i: int| self.declares_at(i, category, name);
                self.lemma_first_exists(declared, category, name);
            }
        }
    }

    /// Below any declaration of a name stands a first one.
    proof fn lemma_first_exists(self, index: int, category: Category, name: Seq<u8>)
        requires
            self.declares_at(index, category, name),
        ensures
            exists|first: int| self.first_declared_at(first, category, name),
        decreases index,
    {
        if exists|earlier: int| 0 <= earlier < index && self.declares_at(earlier, category, name) {
            let earlier = choose|earlier: int|
                0 <= earlier < index && self.declares_at(earlier, category, name);
            self.lemma_first_exists(earlier, category, name);
        } else {
            assert(self.first_declared_at(index, category, name));
        }
    }
}

/// Whether two byte strings are equal.
pub fn bytes_eq(a: &[u8], b: &[u8]) -> (equal: bool)
    ensures
        equal == (a@ == b@),
{
    if a.len() != b.len() {
        return false;
    }
    let mut i: usize = 0;
    while i < a.len()
        invariant
            a.len() == b.len(),
            i <= a.len(),
            forall|k: int| 0 <= k < i ==> a@[k] == b@[k],
        decreases a.len() - i,
    {
        if a[i] != b[i] {
            return false;
        }
        i += 1;
    }
    assert(a@ =~= b@);
    true
}

impl View for Header {
    type V = HeaderView;

    closed spec fn view(&self) -> HeaderView {
        HeaderView {
            fields: self.fields@.map_values(|decl: FieldDecl| decl@),
            samples: self.samples.deep_view(),
        }
    }
}

impl Header {
    /// A header of these declarations, in this order, and these sample names.
    pub fn new(fields: Vec<FieldDecl>, samples: Vec<Vec<u8>>) -> (header: Header)
        ensures
            header@.fields == fields@.map_values(|decl: FieldDecl| decl@),
            header@.samples == samples.deep_view(),
    {
        Header { fields, samples }
    }

    /// The number of samples.
    pub fn sample_count(&self) -> (count: usize)
        ensures
            count == self@.samples.len(),
    {
        self.samples.len()
    }

    /// The name of the sample at `index`.
    pub fn sample(&self, index: usize) -> (name: Option<&Vec<u8>>)
        ensures
            match name {
                Some(name) => index < self@.samples.len() && name@ == self@.samples[index as int],
                None => index >= self@.samples.len(),
            },
    {
        if index < self.samples.len() {
            Some(&self.samples[index])
        } else {
            None
        }
    }

    /// The number of declarations.
    pub fn field_count(&self) -> (count: usize)
        ensures
            count == self@.fields.len(),
    {
        self.fields.len()
    }

    /// The declaration at `index`.
    pub fn field(&self, index: usize) -> (decl: Option<&FieldDecl>)
        ensures
            match decl {
                Some(decl) => index < self@.fields.len() && decl@ == self@.fields[index as int],
                None => index >= self@.fields.len(),
            },
    {
        if index < self.fields.len() {
            Some(&self.fields[index])
        } else {
            None
        }
    }

    /// Looks `name` up among the declarations of `category` and yields the
    /// index of its first declaration.
    pub fn find(&self, category: Category, name: &[u8]) -> (found: Option<usize>)
        ensures
            match found {
                Some(index) => self@.find(category, name@) == Some(index as int),
                None => self@.find(category, name@).is_none(),
            },
    {
        let mut i: usize = 0;
        while i < self.fields.len()
            invariant
                i <= self.fields.len(),
                forall|k: int| 0 <= k < i ==> !self@.declares_at(k, category, name@),
            decreases self.fields.len() - i,
        {
            let decl = &self.fields[i];
            if decl.category == category && bytes_eq(decl.name.as_slice(), name) {
                proof {
                    self@.lemma_find_first(i as int, category, name@);
                }
                return Some(i);
            }
            i += 1;
        }
        proof {
            self@.lemma_find_none(category, name@);
        }
        None
    }
}

} // verus!
