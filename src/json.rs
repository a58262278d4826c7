use vstd::prelude::*;
use vstd::string::*;

verus! {

/// A JSON value as the backend sends it. Numbers that are not 64-bit
/// integers carry no value here: nothing reads them.
pub enum Json {
    Null,
    Bool(bool),
    Int(i64),
    OtherNumber,
    Str(String),
    Array(Vec<Json>),
    Object(Vec<(String, Json)>),
}

/// The value of the first field named `key`.
pub open spec fn field_of(fs: Seq<(String, Json)>, key: Seq<char>) -> Option<Json>
    decreases fs.len(),
{
    if fs.len() == 0 {
        None
    } else if fs[0].0@ == key {
        Some(fs[0].1)
    } else {
        field_of(fs.drop_first(), key)
    }
}

/// The field `key` of an object, if the value is one and has it.
pub open spec fn member(o: Option<Json>, key: Seq<char>) -> Option<Json> {
    match o {
        Some(Json::Object(fs)) => field_of(fs@, key),
        _ => None,
    }
}

/// An integer value.
pub open spec fn int_of(o: Option<Json>) -> Option<i64> {
    match o {
        Some(Json::Int(n)) => Some(n),
        _ => None,
    }
}

/// A string value.
pub open spec fn str_of(o: Option<Json>) -> Option<Seq<char>> {
    match o {
        Some(Json::Str(s)) => Some(s@),
        _ => None,
    }
}

/// A boolean value.
pub open spec fn bool_of(o: Option<Json>) -> Option<bool> {
    match o {
        Some(Json::Bool(b)) => Some(b),
        _ => None,
    }
}

/// A string value, or the empty string.
pub open spec fn text_or_empty(o: Option<Json>) -> Seq<char> {
    match str_of(o) {
        Some(s) => s,
        None => Seq::empty(),
    }
}

/// The type tag of an object.
pub open spec fn tag_of(o: Option<Json>) -> Option<Seq<char>> {
    str_of(member(o, "@type"@))
}

/// The field `key` of an object.
pub fn get_member<'a>(o: Option<&'a Json>, key: &str) -> (r: Option<&'a Json>)
    ensures
        match r {
            Some(v) => member(opt_val(o), key@) == Some(*v),
            None => member(opt_val(o), key@) is None,
        },
{
    let fs = match o {
        Some(Json::Object(fs)) => fs,
        _ => return None,
    };
    let k = String::from_str(key);
    let mut i: usize = 0;
    assert(fs@.skip(0) =~= fs@);
    while i < fs.len()
        invariant
            i <= fs@.len(),
            k@ == key@,
            o == Some(&Json::Object(*fs)),
            field_of(fs@.skip(i as int), key@) == field_of(fs@, key@),
        decreases fs@.len() - i,
    {
        assert(fs@.skip(i as int).drop_first() =~= fs@.skip(i + 1));
        assert(fs@.skip(i as int)[0] == fs@[i as int]);
        if fs[i].0 == k {
            return Some(&fs[i].1);
        }
        i = i + 1;
    }
    assert(fs@.skip(i as int) =~= Seq::<(String, Json)>::empty());
    None
}

/// The value under a reference, in specifications.
pub open spec fn opt_val(o: Option<&Json>) -> Option<Json> {
    match o {
        Some(v) => Some(*v),
        None => None,
    }
}

/// An integer value.
pub fn get_int(o: Option<&Json>) -> (r: Option<i64>)
    ensures
        r == int_of(opt_val(o)),
{
    match o {
        Some(Json::Int(n)) => Some(*n),
        _ => None,
    }
}

/// A boolean value.
pub fn get_bool(o: Option<&Json>) -> (r: Option<bool>)
    ensures
        r == bool_of(opt_val(o)),
{
    match o {
        Some(Json::Bool(b)) => Some(*b),
        _ => None,
    }
}

/// A string value, or the empty string.
pub fn get_text(o: Option<&Json>) -> (r: String)
    ensures
        r@ == text_or_empty(opt_val(o)),
{
    match o {
        Some(Json::Str(s)) => s.clone(),
        _ => String::new(),
    }
}

/// Whether a value is a string equal to `lit`.
pub fn is_text(o: Option<&Json>, lit: &str) -> (r: bool)
    ensures
        r == (str_of(opt_val(o)) == Some(lit@)),
{
    match o {
        Some(Json::Str(s)) => *s == String::from_str(lit),
        _ => false,
    }
}

} // verus!
