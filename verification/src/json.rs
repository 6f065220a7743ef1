use vstd::prelude::*;

verus! {

broadcast use vstd::std_specs::vec::group_vec_axioms;

/// A JSON-like structured value: what guest snippets produce, what the
/// per-run configuration is made of, and what streaming events carry.
/// Numbers keep their textual form; object field order is preserved.
#[derive(Debug, PartialEq)]
pub enum Json {
    Null,
    Bool(bool),
    Num(String),
    Str(String),
    Arr(Vec<Json>),
    Obj(Vec<(String, Json)>),
}

/// Mathematical model of a `Json` value.
pub enum JsonV {
    Null,
    Bool(bool),
    Num(Seq<char>),
    Str(Seq<char>),
    Arr(Seq<JsonV>),
    Obj(Seq<(Seq<char>, JsonV)>),
}

impl Json {
    pub open spec fn deep_view(&self) -> JsonV
        decreases self,
    {
        match self {
            Json::Null => JsonV::Null,
            Json::Bool(b) => JsonV::Bool(*b),
            Json::Num(s) => JsonV::Num(s@),
            Json::Str(s) => JsonV::Str(s@),
            Json::Arr(v) => JsonV::Arr(
                Seq::new(
                    v@.len(),
                    |i: int|
                        if 0 <= i < v@.len() {
                            v@[i].deep_view()
                        } else {
                            JsonV::Null
                        },
                ),
            ),
            Json::Obj(v) => JsonV::Obj(
                Seq::new(
                    v@.len(),
                    |i: int|
                        if 0 <= i < v@.len() {
                            (v@[i].0@, v@[i].1.deep_view())
                        } else {
                            (Seq::empty(), JsonV::Null)
                        },
                ),
            ),
        }
    }
}

/// The value bound to `key` in an object's field list: the first binding wins.
pub open spec fn obj_lookup(fields: Seq<(Seq<char>, JsonV)>, key: Seq<char>) -> Option<JsonV>
    decreases fields.len(),
{
    if fields.len() == 0 {
        None
    } else if fields[0].0 == key {
        Some(fields[0].1)
    } else {
        obj_lookup(fields.skip(1), key)
    }
}

/// Looking a key up in the model of an object: `None` when the value is not
/// an object at all.
pub open spec fn json_get(v: JsonV, key: Seq<char>) -> Option<JsonV> {
    match v {
        JsonV::Obj(fields) => obj_lookup(fields, key),
        _ => None,
    }
}

/// True of two strings with the same characters.
pub fn str_eq(a: &str, b: &str) -> (r: bool)
    ensures
        r == (a@ == b@),
{
    let a_owned: String = a.to_owned();
    let b_owned: String = b.to_owned();
    a_owned == b_owned
}

proof fn lemma_obj_lookup_step(fields: Seq<(Seq<char>, JsonV)>, key: Seq<char>, i: int)
    requires
        0 <= i < fields.len(),
        forall|j: int| 0 <= j < i ==> fields[j].0 != key,
    ensures
        fields[i].0 == key ==> obj_lookup(fields, key) == Some(fields[i].1),
        (forall|j: int| 0 <= j <= i ==> fields[j].0 != key) && i == fields.len() - 1
            ==> obj_lookup(fields, key) is None,
    decreases i,
{
    if i == 0 {
        if fields[0].0 != key && fields.len() == 1 {
            assert(fields.skip(1).len() == 0);
        }
    } else {
        lemma_obj_lookup_step(fields.skip(1), key, i - 1);
        assert(fields.skip(1)[i - 1] == fields[i]);
        assert(forall|j: int| 0 <= j < i - 1 ==> fields.skip(1)[j] == fields[j + 1]);
    }
}

impl Json {
    /// The value of `key` when this is an object holding it.
    #[verifier::loop_isolation(false)]
    pub fn get<'a>(&'a self, key: &str) -> (r: Option<&'a Json>)
        ensures
            match r {
                Some(v) => json_get(self.deep_view(), key@) == Some(v.deep_view()),
                None => json_get(self.deep_view(), key@) is None,
            },
    {
        match self {
            Json::Obj(fields) => {
                let ghost fv = self.deep_view()->Obj_0;
                proof {
                    assert(self.deep_view() == JsonV::Obj(fv));
                }
                let mut i: usize = 0;
                while i < fields.len()
                    invariant
                        i <= fields.len(),
                        fields.len() == fv.len(),
                        forall|j: int| 0 <= j < fields@.len() ==> fv[j] == (
                        fields@[j].0@,
                        fields@[j].1.deep_view(),
                        ),
                        forall|j: int| 0 <= j < i ==> fv[j].0 != key@,
                    decreases fields.len() - i,
                {
                    if str_eq(fields[i].0.as_str(), key) {
                        proof {
                            lemma_obj_lookup_step(fv, key@, i as int);
                        }
                        return Some(&fields[i].1);
                    }
                    i = i + 1;
                }
                proof {
                    if fv.len() > 0 {
                        lemma_obj_lookup_step(fv, key@, fv.len() - 1);
                    }
                }
                None
            },
            _ => None,
        }
    }
}

/// A copy of a `Json` value that models identically.
#[verifier::loop_isolation(false)]
pub fn json_clone(v: &Json) -> (r: Json)
    ensures
        r.deep_view() == v.deep_view(),
    decreases v,
{
    match v {
        Json::Null => Json::Null,
        Json::Bool(b) => Json::Bool(*b),
        Json::Num(s) => Json::Num(s.clone()),
        Json::Str(s) => Json::Str(s.clone()),
        Json::Arr(items) => {
            let mut out: Vec<Json> = Vec::new();
            let mut i: usize = 0;
            while i < items.len()
                invariant
                    i <= items.len(),
                    out@.len() == i,
                    forall|j: int| 0 <= j < i ==> out@[j].deep_view() == items@[j].deep_view(),
                decreases items.len() - i,
            {
                let item = &items[i];
                let c = json_clone(item);
                out.push(c);
                i = i + 1;
            }
            let r = Json::Arr(out);
            proof {
                assert(r.deep_view()->Arr_0 =~= v.deep_view()->Arr_0);
            }
            r
        },
        Json::Obj(fields) => {
            let mut out: Vec<(String, Json)> = Vec::new();
            let mut i: usize = 0;
            while i < fields.len()
                invariant
                    i <= fields.len(),
                    out@.len() == i,
                    forall|j: int| 0 <= j < i ==> out@[j].0@ == fields@[j].0@
                        && out@[j].1.deep_view() == fields@[j].1.deep_view(),
                decreases fields.len() - i,
            {
                let k = fields[i].0.clone();
                let pair = &fields[i];
                let c = json_clone(&pair.1);
                out.push((k, c));
                i = i + 1;
            }
            let r = Json::Obj(out);
            proof {
                assert(r.deep_view()->Obj_0 =~= v.deep_view()->Obj_0);
            }
            r
        },
    }
}

} // verus!
