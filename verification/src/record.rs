//! One variant record and typed, on-demand access to its named fields.

use vstd::prelude::*;
use std::rc::Rc;
use crate::header::Arity;
use crate::header::Category;
use crate::header::FieldDecl;
use crate::header::FieldDeclView;
use crate::header::Header;
use crate::header::HeaderView;
use crate::header::ValueType;

verus! {

/// Why a field of a record could not be handed out.
#[derive(Clone, Copy, Debug, PartialEq, Eq, Structural)]
pub enum FieldError {
    /// The header declares the field with another type than the one asked
    /// for, or the record stores values that contradict the declaration.
    TypeMismatch,
    /// The header declares no such field, or this record does not carry it.
    NotPresent,
    /// The record was never read under a header.
    Unset,
}

/// The values of one field, as the engine decoded them. A float is held as
/// its IEEE 754 single-precision bit pattern, so that the engine's marker
/// for a missing value passes through unchanged.
#[derive(Debug)]
pub enum Values {
    Integers(Vec<i32>),
    Floats(Vec<u32>),
    Strings(Vec<Vec<u8>>),
}

/// The mathematical content of [`Values`].
pub enum ValuesView {
    Integers(Seq<i32>),
    Floats(Seq<u32>),
    Strings(Seq<Seq<u8>>),
}

impl ValuesView {
    /// The value type that these values have.
    pub open spec fn value_type(self) -> ValueType {
        match self {
            ValuesView::Integers(_) => ValueType::Integer,
            ValuesView::Floats(_) => ValueType::Float,
            ValuesView::Strings(_) => ValueType::String,
        }
    }

    /// How many values there are.
    pub open spec fn len(self) -> nat {
        match self {
            ValuesView::Integers(values) => values.len(),
            ValuesView::Floats(values) => values.len(),
            ValuesView::Strings(values) => values.len(),
        }
    }
}

impl View for Values {
    type V = ValuesView;

    open spec fn view(&self) -> ValuesView {
        match self {
            Values::Integers(values) => ValuesView::Integers(values@),
            Values::Floats(values) => ValuesView::Floats(values@),
            Values::Strings(values) => ValuesView::Strings(values.deep_view()),
        }
    }
}

impl Values {
    /// The value type that these values have.
    pub fn value_type(&self) -> (value_type: ValueType)
        ensures
            value_type == self@.value_type(),
    {
        match self {
            Values::Integers(_) => ValueType::Integer,
            Values::Floats(_) => ValueType::Float,
            Values::Strings(_) => ValueType::String,
        }
    }

    /// How many values there are.
    pub fn len(&self) -> (len: usize)
        ensures
            len == self@.len(),
    {
        match self {
            Values::Integers(values) => values.len(),
            Values::Floats(values) => values.len(),
            Values::Strings(values) => values.len(),
        }
    }
}

/// One entry of a record's tag table: the values that the record stores for
/// the declaration at `index` of its header.
#[derive(Debug)]
pub struct Entry {
    pub index: usize,
    pub values: Values,
}

/// The mathematical content of an [`Entry`].
pub struct EntryView {
    pub index: int,
    pub values: ValuesView,
}

impl View for Entry {
    type V = EntryView;

    open spec fn view(&self) -> EntryView {
        EntryView { index: self.index as int, values: self.values@ }
    }
}

/// What the engine delivered for one record: its positional fields and its
/// tag table.
#[derive(Debug)]
pub struct Payload {
    /// The id of the reference sequence, as the engine resolved it.
    pub rid: i32,
    /// The 0-based position.
    pub pos: u32,
    /// The bit pattern of the quality score.
    pub qual: u32,
    /// The tag table.
    pub entries: Vec<Entry>,
}

/// The mathematical content of a [`Payload`].
pub struct PayloadView {
    pub rid: i32,
    pub pos: u32,
    pub qual: u32,
    pub entries: Seq<EntryView>,
}

impl PayloadView {
    /// A payload without entries, at position 0 of reference 0.
    pub open spec fn empty() -> PayloadView {
        PayloadView { rid: 0, pos: 0, qual: 0, entries: Seq::empty() }
    }
}

impl Payload {
    /// A payload without entries, at position 0 of reference 0.
    pub fn empty() -> (payload: Payload)
        ensures
            payload@ == PayloadView::empty(),
    {
        let payload = Payload { rid: 0, pos: 0, qual: 0, entries: Vec::new() };
        assert(payload@.entries =~= Seq::empty());
        payload
    }
}

impl View for Payload {
    type V = PayloadView;

    open spec fn view(&self) -> PayloadView {
        PayloadView {
            rid: self.rid,
            pos: self.pos,
            qual: self.qual,
            entries: self.entries@.map_values(|entry: Entry| entry@),
        }
    }
}

/// Whether stored values are what a declaration announces: they have its
/// value type, and for a FORMAT field of fixed arity there are exactly that
/// many for each sample.
pub open spec fn fits(decl: FieldDeclView, samples: nat, values: ValuesView) -> bool {
    &&& values.value_type() == decl.value_type
    &&& decl.category == Category::Format ==> match decl.arity {
        Arity::Fixed(per_sample) => values.len() == per_sample * samples,
        _ => true,
    }
}

/// The mathematical content of a [`Record`].
pub struct RecordView {
    /// The header under which the record was read, if it was read.
    pub header: Option<HeaderView>,
    pub rid: i32,
    pub pos: u32,
    pub qual: u32,
    pub entries: Seq<EntryView>,
}

impl RecordView {
    /// A record that no read has filled.
    pub open spec fn unset() -> RecordView {
        RecordView { header: None, rid: 0, pos: 0, qual: 0, entries: Seq::empty() }
    }

    /// The record that a successful read under `header` makes of `payload`.
    pub open spec fn bound(header: HeaderView, payload: PayloadView) -> RecordView {
        RecordView {
            header: Some(header),
            rid: payload.rid,
            pos: payload.pos,
            qual: payload.qual,
            entries: payload.entries,
        }
    }

    /// This record with `entry` added at the end of its tag table.
    pub open spec fn with_entry(self, entry: EntryView) -> RecordView {
        RecordView {
            header: self.header,
            rid: self.rid,
            pos: self.pos,
            qual: self.qual,
            entries: self.entries.push(entry),
        }
    }

    /// The entry at `position` of the tag table is one for declaration `index`.
    pub open spec fn holds_at(self, position: int, index: int) -> bool {
        &&& 0 <= position < self.entries.len()
        &&& self.entries[position].index == index
    }

    /// `position` holds the first entry for declaration `index`.
    pub open spec fn first_held_at(self, position: int, index: int) -> bool {
        &&& self.holds_at(position, index)
        &&& forall|earlier: int| 0 <= earlier < position ==> !self.holds_at(earlier, index)
    }

    /// The values that the tag table stores for declaration `index`: those
    /// of its first entry for it, if it has one.
    pub open spec fn stored(self, index: int) -> Option<ValuesView> {
        if exists|position: int| self.first_held_at(position, index) {
            Some(self.entries[choose|position: int| self.first_held_at(position, index)].values)
        } else {
            None
        }
    }

    /// The reference sequence id, once a header is bound.
    pub open spec fn reference_id(self) -> Result<i32, FieldError> {
        match self.header {
            None => Err(FieldError::Unset),
            Some(_) => Ok(self.rid),
        }
    }

    /// What a pull of the field `name` of `category` as `wanted` yields.
    ///
    /// The name is looked up among the header's declarations; the declared
    /// type is held against the wanted one; the tag table is searched for the
    /// declaration's index; and the stored values are handed out if they are
    /// what the declaration announces.
    pub open spec fn pull(self, category: Category, name: Seq<u8>, wanted: ValueType) -> Result<
        ValuesView,
        FieldError,
    > {
        match self.header {
            None => Err(FieldError::Unset),
            Some(header) => match header.find(category, name) {
                None => Err(FieldError::NotPresent),
                Some(index) => {
                    let decl = header.fields[index];
                    if decl.value_type != wanted {
                        Err(FieldError::TypeMismatch)
                    } else {
                        match self.stored(index) {
                            None => Err(FieldError::NotPresent),
                            Some(values) => if fits(decl, header.samples.len(), values) {
                                Ok(values)
                            } else {
                                Err(FieldError::TypeMismatch)
                            },
                        }
                    }
                },
            },
        }
    }

    /// What a pull of integers yields.
    pub open spec fn integers(self, category: Category, name: Seq<u8>) -> Result<
        Seq<i32>,
        FieldError,
    > {
        match self.pull(category, name, ValueType::Integer) {
            Ok(ValuesView::Integers(values)) => Ok(values),
            Ok(_) => Err(FieldError::TypeMismatch),
            Err(error) => Err(error),
        }
    }

    /// What a pull of floats yields, each as its bit pattern.
    pub open spec fn floats(self, category: Category, name: Seq<u8>) -> Result<
        Seq<u32>,
        FieldError,
    > {
        match self.pull(category, name, ValueType::Float) {
            Ok(ValuesView::Floats(values)) => Ok(values),
            Ok(_) => Err(FieldError::TypeMismatch),
            Err(error) => Err(error),
        }
    }

    /// What a pull of strings yields.
    pub open spec fn strings(self, category: Category, name: Seq<u8>) -> Result<
        Seq<Seq<u8>>,
        FieldError,
    > {
        match self.pull(category, name, ValueType::String) {
            Ok(ValuesView::Strings(values)) => Ok(values),
            Ok(_) => Err(FieldError::TypeMismatch),
            Err(error) => Err(error),
        }
    }

    /// Below any entry for a declaration stands a first one.
    pub proof fn lemma_held_has_first(self, position: int, index: int)
        requires
            self.holds_at(position, index),
        ensures
            exists|first: int| self.first_held_at(first, index),
        decreases position,
    {
        if exists|earlier: int| 0 <= earlier < position && self.holds_at(earlier, index) {
            let earlier = choose|earlier: int|
                0 <= earlier < position && self.holds_at(earlier, index);
            self.lemma_held_has_first(earlier, index);
        } else {
            assert(self.first_held_at(position, index));
        }
    }

    /// The values of a first entry are the stored ones.
    pub proof fn lemma_stored_first(self, position: int, index: int)
        requires
            self.first_held_at(position, index),
        ensures
            self.stored(index) == Some(self.entries[position].values),
    {
        let chosen = choose|p: int| self.first_held_at(p, index);
        assert(self.first_held_at(chosen, index));
        if chosen < position {
            assert(!self.holds_at(chosen, index));
        } else if position < chosen {
            assert(!self.holds_at(position, index));
        }
    }

    /// Where no entry is for a declaration, nothing is stored for it.
    pub proof fn lemma_stored_none(self, index: int)
        requires
            forall|position: int| !self.holds_at(position, index),
        ensures
            self.stored(index).is_none(),
    {
        if exists|position: int| self.first_held_at(position, index) {
            let chosen = choose|p: int| self.first_held_at(p, index);
            assert(self.holds_at(chosen, index));
        }
    }
}

/// Positional fields round-trip: a record that was read answers with the
/// position and the reference id that the engine delivered for it.
pub proof fn lemma_positional_fields_round_trip(header: HeaderView, payload: PayloadView)
    ensures
        RecordView::bound(header, payload).pos == payload.pos,
        RecordView::bound(header, payload).qual == payload.qual,
        RecordView::bound(header, payload).reference_id() == Ok::<i32, FieldError>(payload.rid),
{
}

/// Field type safety: a field that the header declares with one type is
/// never handed out as another. Whatever the record stores for it, the pull
/// fails with `TypeMismatch`.
pub proof fn lemma_declared_type_is_kept(
    record: RecordView,
    header: HeaderView,
    index: int,
    category: Category,
    name: Seq<u8>,
    wanted: ValueType,
)
    requires
        record.header == Some(header),
        header.first_declared_at(index, category, name),
        header.fields[index].value_type != wanted,
    ensures
        record.pull(category, name, wanted) == Err::<ValuesView, FieldError>(
            FieldError::TypeMismatch,
        ),
        wanted == ValueType::Integer ==> record.integers(category, name) == Err::<
            Seq<i32>,
            FieldError,
        >(FieldError::TypeMismatch),
        wanted == ValueType::Float ==> record.floats(category, name) == Err::<
            Seq<u32>,
            FieldError,
        >(FieldError::TypeMismatch),
        wanted == ValueType::String ==> record.strings(category, name) == Err::<
            Seq<Seq<u8>>,
            FieldError,
        >(FieldError::TypeMismatch),
{
    header.lemma_find_first(index, category, name);
}

/// A pull hands out values of the type that was asked for, and only the
/// values that the record itself stores for the field.
pub proof fn lemma_pull_hands_out_stored(
    record: RecordView,
    category: Category,
    name: Seq<u8>,
    wanted: ValueType,
)
    requires
        record.pull(category, name, wanted).is_ok(),
    ensures
        record.pull(category, name, wanted).unwrap().value_type() == wanted,
        record.header.is_some(),
        record.header.unwrap().find(category, name).is_some(),
        record.stored(record.header.unwrap().find(category, name).unwrap()) == Some(
            record.pull(category, name, wanted).unwrap(),
        ),
{
}

/// Per-record field arity: where the header declares a FORMAT field with
/// fixed arity `per_sample`, a pull that succeeds hands out exactly
/// `per_sample` values for each sample of the header.
pub proof fn lemma_fixed_arity_length(
    record: RecordView,
    header: HeaderView,
    index: int,
    name: Seq<u8>,
    wanted: ValueType,
    per_sample: u32,
)
    requires
        record.header == Some(header),
        header.first_declared_at(index, Category::Format, name),
        header.fields[index].arity == Arity::Fixed(per_sample),
        record.pull(Category::Format, name, wanted).is_ok(),
    ensures
        record.pull(Category::Format, name, wanted).unwrap().len() == per_sample
            * header.samples.len(),
{
    header.lemma_find_first(index, Category::Format, name);
}

/// An entry that is added to a tag table counts for its declaration only
/// where the table held none for it; what the table stores for every other
/// declaration stays as it was.
pub proof fn lemma_added_entry(record: RecordView, entry: EntryView, index: int)
    ensures
        record.with_entry(entry).stored(index) == if record.stored(index).is_some() {
            record.stored(index)
        } else if entry.index == index {
            Some(entry.values)
        } else {
            None
        },
{
    let added = record.with_entry(entry);
    let end = record.entries.len() as int;
    if exists|position: int| record.first_held_at(position, index) {
        let position = choose|position: int| record.first_held_at(position, index);
        record.lemma_stored_first(position, index);
        assert(added.first_held_at(position, index)) by {
            assert forall|earlier: int| 0 <= earlier < position implies !added.holds_at(
                earlier,
                index,
            ) by {
                assert(!record.holds_at(earlier, index));
            }
        }
        added.lemma_stored_first(position, index);
    } else {
        assert forall|position: int| 0 <= position < end implies !record.holds_at(
            position,
            index,
        ) by {
            if record.holds_at(position, index) {
                record.lemma_held_has_first(position, index);
            }
        }
        if entry.index == index {
            assert(added.first_held_at(end, index)) by {
                assert forall|earlier: int| 0 <= earlier < end implies !added.holds_at(
                    earlier,
                    index,
                ) by {
                    assert(!record.holds_at(earlier, index));
                }
            }
            added.lemma_stored_first(end, index);
        } else {
            assert forall|position: int| !added.holds_at(position, index) by {
                if 0 <= position < end {
                    assert(!record.holds_at(position, index));
                }
            }
            added.lemma_stored_none(index);
        }
    }
}

/// A result agrees with what the model says it is.
pub open spec fn agrees<T: DeepView>(
    result: Result<T, FieldError>,
    expected: Result<T::V, FieldError>,
) -> bool {
    match (result, expected) {
        (Ok(values), Ok(model)) => values.deep_view() =~~= model,
        (Err(error), Err(model)) => error == model,
        _ => false,
    }
}

/// One variant record. It answers for its fields only once a read has bound
/// it to the header of its container, of which it then holds a share.
#[derive(Debug)]
pub struct Record {
    header: Option<Rc<Header>>,
    rid: i32,
    pos: u32,
    qual: u32,
    entries: Vec<Entry>,
}

impl View for Record {
    type V = RecordView;

    closed spec fn view(&self) -> RecordView {
        RecordView {
            header: match self.header {
                Some(header) => Some(header@),
                None => None,
            },
            rid: self.rid,
            pos: self.pos,
            qual: self.qual,
            entries: self.entries@.map_values(|entry: Entry| entry@),
        }
    }
}

/// Whether stored values are what a declaration announces.
fn check_fits(decl: &FieldDecl, samples: usize, values: &Values) -> (ok: bool)
    ensures
        ok == fits(decl@, samples as nat, values@),
{
    if values.value_type() != decl.value_type {
        return false;
    }
    match decl.category {
        Category::Info => true,
        Category::Format => match decl.arity {
            Arity::Fixed(per_sample) => {
                assert(per_sample * samples <= 0xffff_ffff * 0xffff_ffff_ffff_ffff)
                    by (nonlinear_arith)
                    requires
                        0 <= per_sample <= 0xffff_ffff,
                        0 <= samples <= 0xffff_ffff_ffff_ffff,
                ;
                let expected: u128 = (per_sample as u128) * (samples as u128);
                values.len() as u128 == expected
            },
            _ => true,
        },
    }
}

impl Record {
    /// A fresh record, bound to no header.
    pub fn new() -> (record: Record)
        ensures
            record@ == RecordView::unset(),
    {
        let record = Record { header: None, rid: 0, pos: 0, qual: 0, entries: Vec::new() };
        assert(record@.entries =~= Seq::empty());
        record
    }

    /// Fills the record with what the engine delivered and binds it to the
    /// header under which it was read.
    pub(crate) fn bind(&mut self, header: Rc<Header>, payload: Payload)
        ensures
            final(self)@ == RecordView::bound(header@, payload@),
    {
        self.header = Some(header);
        self.rid = payload.rid;
        self.pos = payload.pos;
        self.qual = payload.qual;
        self.entries = payload.entries;
    }

    /// Adds to the tag table an entry that the engine decoded after the
    /// record was read. Where the table already holds an entry for the same
    /// declaration, that earlier one goes on to count.
    pub fn load(&mut self, entry: Entry)
        ensures
            final(self)@ == old(self)@.with_entry(entry@),
    {
        self.entries.push(entry);
        assert(self@.entries =~= old(self)@.entries.push(entry@));
    }

    /// Whether the tag table holds an entry for declaration `index`.
    pub fn holds(&self, index: usize) -> (held: bool)
        ensures
            held == self@.stored(index as int).is_some(),
    {
        self.stored(index).is_some()
    }

    /// The header that the record is bound to.
    pub fn header(&self) -> (header: Option<&Header>)
        ensures
            match header {
                Some(header) => self@.header == Some(header@),
                None => self@.header.is_none(),
            },
    {
        match &self.header {
            Some(header) => Some(&**header),
            None => None,
        }
    }

    /// The id of the reference sequence. A record that no read has bound to
    /// a header has none.
    pub fn rid(&self) -> (rid: Result<i32, FieldError>)
        ensures
            rid == self@.reference_id(),
    {
        match &self.header {
            Some(_) => Ok(self.rid),
            None => Err(FieldError::Unset),
        }
    }

    /// The 0-based position.
    pub fn pos(&self) -> (pos: u32)
        ensures
            pos == self@.pos,
    {
        self.pos
    }

    /// The bit pattern of the quality score, exactly as the engine delivered
    /// it: its marker for a missing score is not turned into an error.
    pub fn qual(&self) -> (qual: u32)
        ensures
            qual == self@.qual,
    {
        self.qual
    }

    /// An accessor for the INFO field `name`. Nothing is looked up before a
    /// typed pull is made on it.
    pub fn info<'a>(&'a self, name: &'a [u8]) -> (accessor: FieldAccessor<'a>)
        ensures
            accessor@ == (FieldAccessorView { record: self@, category: Category::Info, name: name@ }),
    {
        FieldAccessor { record: self, category: Category::Info, name }
    }

    /// An accessor for the FORMAT field `name`. Nothing is looked up before
    /// a typed pull is made on it.
    pub fn format<'a>(&'a self, name: &'a [u8]) -> (accessor: FieldAccessor<'a>)
        ensures
            accessor@ == (FieldAccessorView { record: self@, category: Category::Format, name: name@ }),
    {
        FieldAccessor { record: self, category: Category::Format, name }
    }

    /// The values that the tag table stores for declaration `index`.
    fn stored(&self, index: usize) -> (found: Option<&Values>)
        ensures
            match found {
                Some(values) => self@.stored(index as int) == Some(values@),
                None => self@.stored(index as int).is_none(),
            },
    {
        let mut i: usize = 0;
        while i < self.entries.len()
            invariant
                i <= self.entries.len(),
                forall|k: int| 0 <= k < i ==> !self@.holds_at(k, index as int),
            decreases self.entries.len() - i,
        {
            if self.entries[i].index == index {
                proof {
                    self@.lemma_stored_first(i as int, index as int);
                }
                return Some(&self.entries[i].values);
            }
            i += 1;
        }
        proof {
            self@.lemma_stored_none(index as int);
        }
        None
    }
}

/// A field of a record that has been named but not yet looked up.
pub struct FieldAccessor<'a> {
    record: &'a Record,
    category: Category,
    name: &'a [u8],
}

/// The mathematical content of a [`FieldAccessor`].
pub struct FieldAccessorView {
    pub record: RecordView,
    pub category: Category,
    pub name: Seq<u8>,
}

impl FieldAccessorView {
    /// What a pull as `wanted` yields.
    pub open spec fn pull(self, wanted: ValueType) -> Result<ValuesView, FieldError> {
        self.record.pull(self.category, self.name, wanted)
    }
}

impl<'a> View for FieldAccessor<'a> {
    type V = FieldAccessorView;

    closed spec fn view(&self) -> FieldAccessorView {
        FieldAccessorView { record: self.record@, category: self.category, name: self.name@ }
    }
}

impl<'a> FieldAccessor<'a> {
    /// Looks the field up and hands out its stored values if the header
    /// declares it as `wanted`.
    fn locate(&self, wanted: ValueType) -> (found: Result<&'a Values, FieldError>)
        ensures
            match self@.pull(wanted) {
                Ok(values) => found matches Ok(stored) && stored@ == values,
                Err(error) => found matches Err(e) && e == error,
            },
    {
        let header = match &self.record.header {
            Some(header) => header,
            None => {
                return Err(FieldError::Unset);
            },
        };
        let index = match header.find(self.category, self.name) {
            Some(index) => index,
            None => {
                return Err(FieldError::NotPresent);
            },
        };
        proof {
            header@.lemma_find_sound(self.category, self.name@);
        }
        let decl = match header.field(index) {
            Some(decl) => decl,
            None => {
                return Err(FieldError::NotPresent);
            },
        };
        if decl.value_type != wanted {
            return Err(FieldError::TypeMismatch);
        }
        let values = match self.record.stored(index) {
            Some(values) => values,
            None => {
                return Err(FieldError::NotPresent);
            },
        };
        if !check_fits(decl, header.sample_count(), values) {
            return Err(FieldError::TypeMismatch);
        }
        Ok(values)
    }

    /// The field's values as integers.
    ///
    /// Fails with `Unset` on a record that was never read, with `NotPresent`
    /// where the header does not declare the field or the record does not
    /// carry it, and with `TypeMismatch` where the header declares another
    /// type or the stored values contradict the declaration.
    pub fn integer(&self) -> (result: Result<&'a [i32], FieldError>)
        ensures
            agrees(result, self@.record.integers(self@.category, self@.name)),
    {
        match self.locate(ValueType::Integer) {
            Ok(Values::Integers(values)) => Ok(values.as_slice()),
            Ok(_) => Err(FieldError::TypeMismatch),
            Err(error) => Err(error),
        }
    }

    /// The field's values as floats, each as its bit pattern. Fails as
    /// [`FieldAccessor::integer`] does.
    pub fn float(&self) -> (result: Result<&'a [u32], FieldError>)
        ensures
            agrees(result, self@.record.floats(self@.category, self@.name)),
    {
        match self.locate(ValueType::Float) {
            Ok(Values::Floats(values)) => Ok(values.as_slice()),
            Ok(_) => Err(FieldError::TypeMismatch),
            Err(error) => Err(error),
        }
    }

    /// The field's values as byte strings. Fails as
    /// [`FieldAccessor::integer`] does.
    pub fn string(&self) -> (result: Result<&'a [Vec<u8>], FieldError>)
        ensures
            agrees(result, self@.record.strings(self@.category, self@.name)),
    {
        match self.locate(ValueType::String) {
            Ok(Values::Strings(values)) => Ok(values.as_slice()),
            Ok(_) => Err(FieldError::TypeMismatch),
            Err(error) => Err(error),
        }
    }
}

} // verus!
