//! The library's own JSON document model.
//!
//! Entries in the content index are free-form JSON records, so the
//! transformation works on a JSON tree of the library's own. Numbers are
//! carried through opaquely as `serde_json::Number` values: the pipeline
//! never inspects a number, it only moves entries around.
use vstd::prelude::*;

verus! {

/// `serde_json::Number` is carried through opaquely inside [`Json`] values.
#[verifier::external_type_specification]
#[verifier::external_body]
pub struct ExNumber(serde_json::Number);

/// Relies on `serde_json::Number`'s derived `Clone`, which copies the number.
pub assume_specification[ <serde_json::Number as Clone>::clone ](n: &serde_json::Number) -> (r:
    serde_json::Number)
    ensures
        r == *n,
;

/// A JSON value. Object fields are kept as a sequence of key/value pairs in
/// their original order; field lookup takes the first pair with a matching
/// key, as parsed documents never hold a key twice.
#[derive(Debug)]
pub enum Json {
    Null,
    Bool(bool),
    Num(serde_json::Number),
    Str(String),
    Arr(Vec<Json>),
    Obj(Vec<(String, Json)>),
}

/// The mathematical value of a [`Json`] tree: the same shape, with every
/// `String` and `Vec` replaced by its sequence view.
#[verifier::ext_equal]
pub enum Jv {
    Null,
    Bool(bool),
    Num(serde_json::Number),
    Str(Seq<char>),
    Arr(Seq<Jv>),
    Obj(Seq<(Seq<char>, Jv)>),
}

/// The view of a [`Json`] value.
pub open spec fn jv(j: Json) -> Jv
    decreases j,
{
    match j {
        Json::Null => Jv::Null,
        Json::Bool(b) => Jv::Bool(b),
        Json::Num(n) => Jv::Num(n),
        Json::Str(s) => Jv::Str(s@),
        Json::Arr(a) => Jv::Arr(jvs(a@)),
        Json::Obj(fields) => Jv::Obj(jv_fields(fields@)),
    }
}

/// The views of a sequence of [`Json`] values.
pub open spec fn jvs(s: Seq<Json>) -> Seq<Jv>
    decreases s,
{
    if s.len() == 0 {
        Seq::empty()
    } else {
        jvs(s.drop_last()).push(jv(s.last()))
    }
}

/// The views of a sequence of JSON object fields.
pub open spec fn jv_fields(s: Seq<(String, Json)>) -> Seq<(Seq<char>, Jv)>
    decreases s,
{
    if s.len() == 0 {
        Seq::empty()
    } else {
        jv_fields(s.drop_last()).push((s.last().0@, jv(s.last().1)))
    }
}

/// `jvs` maps `jv` over the sequence, element by element.
pub broadcast proof fn lemma_jvs_index(s: Seq<Json>)
    ensures
        #[trigger] jvs(s).len() == s.len(),
        forall|i: int| 0 <= i < s.len() ==> jvs(s)[i] == jv(s[i]),
    decreases s.len(),
{
    if s.len() > 0 {
        lemma_jvs_index(s.drop_last());
    }
}

/// `jv_fields` maps the field view over the sequence, element by element.
pub broadcast proof fn lemma_jv_fields_index(s: Seq<(String, Json)>)
    ensures
        #[trigger] jv_fields(s).len() == s.len(),
        forall|i: int| 0 <= i < s.len() ==> jv_fields(s)[i] == (s[i].0@, jv(s[i].1)),
    decreases s.len(),
{
    if s.len() > 0 {
        lemma_jv_fields_index(s.drop_last());
    }
}

impl View for Json {
    type V = Jv;

    open spec fn view(&self) -> Jv {
        jv(*self)
    }
}

/// First field with the given key, scanning from the front.
pub open spec fn obj_lookup(fields: Seq<(Seq<char>, Jv)>, key: Seq<char>) -> Option<Jv>
    decreases fields.len(),
{
    if fields.len() == 0 {
        None
    } else if fields.first().0 == key {
        Some(fields.first().1)
    } else {
        obj_lookup(fields.drop_first(), key)
    }
}

/// The value of the field `key`, or `None` when the value is not an object
/// or has no such field.
pub open spec fn field_of(j: Jv, key: Seq<char>) -> Option<Jv> {
    match j {
        Jv::Obj(fields) => obj_lookup(fields, key),
        _ => None,
    }
}

/// Skipping fields whose keys all differ from `key` does not change the
/// lookup result.
proof fn lemma_obj_lookup_skip(fields: Seq<(Seq<char>, Jv)>, key: Seq<char>, i: int)
    requires
        0 <= i <= fields.len(),
        forall|j: int| 0 <= j < i ==> fields[j].0 != key,
    ensures
        obj_lookup(fields, key) == obj_lookup(fields.skip(i), key),
    decreases i,
{
    if i > 0 {
        lemma_obj_lookup_skip(fields.drop_first(), key, i - 1);
        assert(fields.drop_first().skip(i - 1) =~= fields.skip(i));
    } else {
        assert(fields.skip(0) =~= fields);
    }
}

/// Character-by-character string equality.
pub fn str_eq(a: &str, b: &str) -> (r: bool)
    ensures
        r == (a@ == b@),
{
    let la = a.unicode_len();
    let lb = b.unicode_len();
    if la != lb {
        return false;
    }
    let mut i: usize = 0;
    while i < la
        invariant
            la == a@.len(),
            la == b@.len(),
            0 <= i <= la,
            forall|j: int| 0 <= j < i ==> a@[j] == b@[j],
        decreases la - i,
    {
        if a.get_char(i) != b.get_char(i) {
            return false;
        }
        i += 1;
    }
    proof {
        assert(a@ =~= b@);
    }
    true
}

impl Json {
    /// The value of the field `key` of a JSON object, as in
    /// `serde_json::Value::get`.
    #[verifier::loop_isolation(false)]
    pub fn get<'a>(&'a self, key: &str) -> (r: Option<&'a Json>)
        ensures
            match r {
                Some(v) => field_of(jv(*self), key@) == Some(jv(*v)),
                None => field_of(jv(*self), key@) is None,
            },
    {
        broadcast use lemma_jv_fields_index;

        match self {
            Json::Obj(fields) => {
                let ghost fv = jv_fields(fields@);
                let mut i: usize = 0;
                while i < fields.len()
                    invariant
                        0 <= i <= fields@.len(),
                        fv == jv_fields(fields@),
                        fv.len() == fields@.len(),
                        forall|j: int| 0 <= j < fields@.len() ==> fv[j]
                            == (fields@[j].0@, jv(fields@[j].1)),
                        forall|j: int| 0 <= j < i ==> fv[j].0 != key@,
                    decreases fields@.len() - i,
                {
                    if str_eq(fields[i].0.as_str(), key) {
                        proof {
                            lemma_obj_lookup_skip(fv, key@, i as int);
                            assert(fv.skip(i as int).first() == fv[i as int]);
                        }
                        return Some(&fields[i].1);
                    }
                    i += 1;
                }
                proof {
                    lemma_obj_lookup_skip(fv, key@, i as int);
                }
                None
            },
            _ => None,
        }
    }

    /// A value equal to this one: a deep copy, field by field.
    #[verifier::loop_isolation(false)]
    pub fn duplicate(&self) -> (r: Json)
        ensures
            jv(r) == jv(*self),
        decreases *self,
    {
        broadcast use lemma_jvs_index, lemma_jv_fields_index;

        match self {
            Json::Null => Json::Null,
            Json::Bool(b) => Json::Bool(*b),
            Json::Num(n) => Json::Num(n.clone()),
            Json::Str(s) => Json::Str(s.clone()),
            Json::Arr(a) => {
                let mut out: Vec<Json> = Vec::new();
                let mut i: usize = 0;
                while i < a.len()
                    invariant
                        0 <= i <= a@.len(),
                        out@.len() == i,
                        forall|j: int| 0 <= j < i ==> jv(out@[j]) == jv(a@[j]),
                    decreases a@.len() - i,
                {
                    proof {
                        assert(self->Arr_0 == *a);
                        assert(decreases_to!(*self => self->Arr_0));
                        assert(decreases_to!(*a => a@));
                        assert(decreases_to!(a@ => a@[i as int]));
                    }
                    let d = a[i].duplicate();
                    out.push(d);
                    i += 1;
                }
                proof {
                    lemma_jvs_index(out@);
                    lemma_jvs_index(a@);
                    assert(jvs(out@) =~= jvs(a@));
                }
                Json::Arr(out)
            },
            Json::Obj(fields) => {
                let mut out: Vec<(String, Json)> = Vec::new();
                let mut i: usize = 0;
                while i < fields.len()
                    invariant
                        0 <= i <= fields@.len(),
                        out@.len() == i,
                        forall|j: int| 0 <= j < i ==> out@[j].0@ == fields@[j].0@
                            && jv(out@[j].1) == jv(fields@[j].1),
                    decreases fields@.len() - i,
                {
                    proof {
                        assert(self->Obj_0 == *fields);
                        assert(decreases_to!(*self => self->Obj_0));
                        assert(decreases_to!(*fields => fields@));
                        assert(decreases_to!(fields@ => fields@[i as int]));
                        assert(decreases_to!(fields@[i as int] => fields@[i as int].1));
                    }
                    let k = fields[i].0.clone();
                    let d = fields[i].1.duplicate();
                    out.push((k, d));
                    i += 1;
                }
                proof {
                    lemma_jv_fields_index(out@);
                    lemma_jv_fields_index(fields@);
                    assert(jv_fields(out@) =~= jv_fields(fields@));
                }
                Json::Obj(out)
            },
        }
    }
}

/// A list of values equal to the given ones, element by element.
#[verifier::loop_isolation(false)]
pub fn duplicate_list(a: &Vec<Json>) -> (r: Vec<Json>)
    ensures
        jvs(r@) == jvs(a@),
{
    let mut out: Vec<Json> = Vec::new();
    let mut i: usize = 0;
    while i < a.len()
        invariant
            0 <= i <= a@.len(),
            out@.len() == i,
            forall|j: int| 0 <= j < i ==> jv(out@[j]) == jv(a@[j]),
        decreases a@.len() - i,
    {
        let d = a[i].duplicate();
        out.push(d);
        i += 1;
    }
    proof {
        lemma_jvs_index(out@);
        lemma_jvs_index(a@);
        assert(jvs(out@) =~= jvs(a@));
    }
    out
}

} // verus!
