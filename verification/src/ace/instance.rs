use vstd::prelude::*;

use crate::ace::types::{AceValue, ValueV};

verus! {

/// The value of the last entry named `key`, as a map built from the entries in order
/// keeps it.
pub open spec fn lookup(entries: Seq<(Seq<char>, ValueV)>, key: Seq<char>) -> Option<ValueV>
    decreases entries.len(),
{
    if entries.len() == 0 {
        None
    } else if entries.last().0 == key {
        Some(entries.last().1)
    } else {
        lookup(entries.drop_last(), key)
    }
}

/// The mathematical content of a list of named constants.
pub open spec fn constants_view(c: Seq<(String, AceValue)>) -> Seq<(Seq<char>, ValueV)> {
    c.map_values(|e: (String, AceValue)| (e.0@, e.1@))
}

/// The mathematical content of a list of fields and their database paths.
pub open spec fn fields_view(f: Seq<(String, String)>) -> Seq<(Seq<char>, Seq<char>)> {
    f.map_values(|e: (String, String)| (e.0@, e.1@))
}

/// What an identifier names, given the constants and the fields of an instance: a constant
/// (with its value; the last of that name counts), a field (with no value), or nothing.
pub open spec fn spec_lookup_ident(
    constants: Seq<(Seq<char>, ValueV)>,
    fields: Seq<(Seq<char>, Seq<char>)>,
    ident: Seq<char>,
) -> (bool, Option<ValueV>) {
    match lookup(constants, ident) {
        Some(v) => (true, Some(v)),
        None => (exists|k: int| 0 <= k < fields.len() && #[trigger] fields[k].0 == ident, None),
    }
}

/// The mathematical content of a lookup result.
pub open spec fn lookup_view(r: (bool, Option<AceValue>)) -> (bool, Option<ValueV>) {
    (
        r.0,
        match r.1 {
            Some(v) => Some(v@),
            None => None,
        },
    )
}

/// Whether `ident` names one of `constants` or one of `fields`, and the constant's value.
pub fn get_value_in(constants: &Vec<(String, AceValue)>, fields: &Vec<(String, String)>, ident: &str) -> (r: (
    bool,
    Option<AceValue>,
))
    ensures
        lookup_view(r) == spec_lookup_ident(constants_view(constants@), fields_view(fields@), ident@),
{
    let key = ident.to_string();
    proof {
        vstd::string::to_string_from_display_ensures_for_str(ident, key);
    }
    assert(key@ == ident@);
    let ghost cv = constants_view(constants@);
    let mut k = constants.len();
    assert(cv.take(k as int) =~= cv);
    while k > 0
        invariant
            k <= constants@.len(),
            key@ == ident@,
            cv == constants_view(constants@),
            lookup(cv, ident@) == lookup(cv.take(k as int), ident@),
        decreases k,
    {
        let entry = &constants[k - 1];
        assert(cv[k - 1] == (entry.0@, entry.1@));
        assert(cv.take(k as int).last() == (entry.0@, entry.1@));
        assert(cv.take(k as int).drop_last() =~= cv.take(k - 1));
        if entry.0.eq(&key) {
            return (true, Some(entry.1.duplicate()));
        }
        k = k - 1;
    }
    assert(cv.take(0) =~= Seq::<(Seq<char>, ValueV)>::empty());
    let ghost fv = fields_view(fields@);
    let mut j: usize = 0;
    while j < fields.len()
        invariant
            j <= fields@.len(),
            key@ == ident@,
            lookup(cv, ident@) is None,
            cv == constants_view(constants@),
            fv == fields_view(fields@),
            forall|m: int| 0 <= m < j ==> (#[trigger] fv[m]).0 != ident@,
        decreases fields@.len() - j,
    {
        assert(fv[j as int] == (fields@[j as int].0@, fields@[j as int].1@));
        if fields[j].0.eq(&key) {
            assert(fv[j as int].0 == ident@);
            return (true, None);
        }
        j = j + 1;
    }
    (false, None)
}

/// The names that expressions over a type can use: constants with values, and fields
/// stored at database paths.
pub trait AceInstance {
    /// The named constants of the instance, in order.
    spec fn spec_constants() -> Seq<(Seq<char>, ValueV)>;

    /// The fields of the instance and their database paths, in order.
    spec fn spec_fields() -> Seq<(Seq<char>, Seq<char>)>;

    /// The named constants, in order.
    fn constants() -> (r: Vec<(String, AceValue)>)
        ensures
            constants_view(r@) == Self::spec_constants(),
    ;

    /// The fields and their database paths, in order.
    fn fields() -> (r: Vec<(String, String)>)
        ensures
            fields_view(r@) == Self::spec_fields(),
    ;

    /// Whether `ident` names a constant or a field of this instance, and the constant's
    /// value; the last constant of a name counts.
    fn get_value(ident: &str) -> (r: (bool, Option<AceValue>))
        ensures
            lookup_view(r) == spec_lookup_ident(Self::spec_constants(), Self::spec_fields(), ident@),
    {
        let constants = Self::constants();
        let fields = Self::fields();
        get_value_in(&constants, &fields, ident)
    }
}

} // verus!
