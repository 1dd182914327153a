//! Debian control files.

use vstd::prelude::*;

use crate::text::same_text;

verus! {

/// A field in a control file.
#[derive(Clone, Copy, Debug)]
pub struct ControlField<'a> {
    name: &'a str,
    value: &'a str,
}

impl<'a> View for ControlField<'a> {
    type V = (Seq<char>, Seq<char>);

    closed spec fn view(&self) -> (Seq<char>, Seq<char>) {
        (self.name@, self.value@)
    }
}

impl<'a> ControlField<'a> {
    /// A field with a name and a value.
    pub fn new(name: &'a str, value: &'a str) -> (field: ControlField<'a>)
        ensures
            field@ == (name@, value@),
    {
        ControlField { name, value }
    }

    /// The name of the field.
    pub fn name(&self) -> (name: &'a str)
        ensures
            name@ == self@.0,
    {
        self.name
    }

    /// The value of the field.
    pub fn as_str(&self) -> (value: &'a str)
        ensures
            value@ == self@.1,
    {
        self.value
    }
}

/// The fields of a paragraph: their names and values, in order.
pub type Fields = Seq<(Seq<char>, Seq<char>)>;

/// The first field of this name.
pub open spec fn first_field(fields: Fields, name: Seq<char>) -> Option<(Seq<char>, Seq<char>)>
    decreases fields.len(),
{
    if fields.len() == 0 {
        None
    } else if fields[0].0 == name {
        Some(fields[0])
    } else {
        first_field(fields.drop_first(), name)
    }
}

/// The value of the first field of this name.
pub open spec fn first_value(fields: Fields, name: Seq<char>) -> Option<Seq<char>> {
    match first_field(fields, name) {
        Some(field) => Some(field.1),
        None => None,
    }
}

/// A paragraph in a control file: an ordered series of fields.
#[derive(Debug)]
pub struct ControlParagraph<'a> {
    fields: Vec<ControlField<'a>>,
}

impl<'a> View for ControlParagraph<'a> {
    type V = Fields;

    closed spec fn view(&self) -> Fields {
        self.fields@.map_values(|field: ControlField<'a>| field@)
    }
}

impl<'a> Clone for ControlParagraph<'a> {
    fn clone(&self) -> (copy: ControlParagraph<'a>)
        ensures
            copy@ == self@,
    {
        let mut copy = ControlParagraph::new();
        for i in 0..self.fields.len()
            invariant
                copy@ == self@.take(i as int),
        {
            copy.add_field(self.fields[i]);
            assert(self@.take(i + 1) =~= self@.take(i as int).push(self.fields@[i as int]@));
        }
        assert(self@.take(self@.len() as int) =~= self@);
        copy
    }
}

impl<'a> ControlParagraph<'a> {
    /// A paragraph without fields.
    pub fn new() -> (paragraph: ControlParagraph<'a>)
        ensures
            paragraph@ == Fields::empty(),
    {
        let paragraph = ControlParagraph { fields: Vec::new() };
        assert(paragraph@ =~= Fields::empty());
        paragraph
    }

    /// Adds a field at the end of the paragraph.
    pub fn add_field(&mut self, field: ControlField<'a>)
        ensures
            final(self)@ == old(self)@.push(field@),
    {
        let ghost before = self@;
        self.fields.push(field);
        assert(self@ =~= before.push(field@));
    }

    /// Obtain the first field of this name.
    pub fn first_field(&self, name: &str) -> (field: Option<&ControlField<'a>>)
        ensures
            match field {
                Some(field) => first_field(self@, name@) == Some(field@),
                None => first_field(self@, name@) is None,
            },
    {
        let ghost all = self@;
        assert(all.skip(0) =~= all);
        for i in 0..self.fields.len()
            invariant
                all == self@,
                first_field(all, name@) == first_field(all.skip(i as int), name@),
        {
            assert(all.skip(i as int)[0] == self.fields@[i as int]@);
            assert(all.skip(i as int).drop_first() =~= all.skip(i + 1));
            if same_text(self.fields[i].name, name) {
                return Some(&self.fields[i]);
            }
        }
        assert(all.skip(self.fields@.len() as int).len() == 0);
        None
    }

    /// Obtain the value of the first field of this name.
    pub fn first_field_str(&self, name: &str) -> (value: Option<&str>)
        ensures
            crate::text::optional_slice(value) == first_value(self@, name@),
    {
        match self.first_field(name) {
            Some(field) => Some(field.as_str()),
            None => None,
        }
    }
}

/// The first field of a name is the one that no field of that name precedes.
pub proof fn law_first_field_is_first(fields: Fields, name: Seq<char>, i: int)
    requires
        0 <= i < fields.len(),
        fields[i].0 == name,
        forall|j: int| 0 <= j < i ==> (#[trigger] fields[j]).0 != name,
    ensures
        first_field(fields, name) == Some(fields[i]),
    decreases fields.len(),
{
    if i > 0 {
        let rest = fields.drop_first();
        assert(fields[0].0 != name);
        assert forall|j: int| 0 <= j < i - 1 implies (#[trigger] rest[j]).0 != name by {
            assert(rest[j] == fields[j + 1]);
        }
        law_first_field_is_first(rest, name, i - 1);
    }
}

/// There is a first field of a name exactly where there is a field of that name.
pub proof fn law_field_is_found(fields: Fields, name: Seq<char>)
    ensures
        first_field(fields, name) is Some <==> exists|i: int|
            0 <= i < fields.len() && (#[trigger] fields[i]).0 == name,
        first_field(fields, name) matches Some(field) ==> fields.contains(field) && field.0 == name,
    decreases fields.len(),
{
    if fields.len() > 0 {
        let rest = fields.drop_first();
        law_field_is_found(rest, name);
        if fields[0].0 != name {
            if exists|i: int| 0 <= i < fields.len() && (#[trigger] fields[i]).0 == name {
                let i = choose|i: int| 0 <= i < fields.len() && (#[trigger] fields[i]).0 == name;
                assert(rest[i - 1].0 == name);
            }
            if first_field(rest, name) is Some {
                let i = choose|i: int| 0 <= i < rest.len() && rest[i] == first_field(rest, name)->0;
                assert(fields[i + 1] == rest[i]);
            }
        } else {
            assert(fields[0].0 == name);
        }
    }
}

/// A field that is added changes what is found under its own name only, and
/// only where nothing was found before.
pub proof fn law_added_field(fields: Fields, field: (Seq<char>, Seq<char>), name: Seq<char>)
    ensures
        first_field(fields.push(field), name) == (match first_field(fields, name) {
            Some(first) => Some(first),
            None => if field.0 == name {
                Some(field)
            } else {
                None
            },
        }),
    decreases fields.len(),
{
    if fields.len() == 0 {
        assert(fields.push(field).drop_first() =~= Fields::empty());
        assert(first_field(fields.push(field).drop_first(), name) is None);
    } else {
        assert(fields.push(field).drop_first() =~= fields.drop_first().push(field));
        law_added_field(fields.drop_first(), field, name);
    }
}

} // verus!
