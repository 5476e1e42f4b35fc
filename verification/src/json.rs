//! The library's model of a structured (JSON) document.
//!
//! Rules inspect and edit configuration documents.  A document is held as a
//! tree of [`Json`] values whose objects are ordered lists of fields; its
//! mathematical model is the ghost tree [`JsonData`], in which keys and texts
//! are character sequences.  Only numbers are carried opaquely, since no rule
//! inspects one.

use vstd::prelude::*;

verus! {

broadcast use vstd::std_specs::vec::group_vec_axioms, vstd::seq::axiom_seq_index_decreases;

/// Declares serde_json's number type: documents carry numbers opaquely,
/// since no rule inspects one.
#[verifier::external_type_specification]
#[verifier::external_body]
pub struct ExNumber(serde_json::Number);

/// One field of a JSON object.
pub struct JsonField {
    pub key: String,
    pub val: Json,
}

/// A JSON document.
pub enum Json {
    Null,
    Bool(bool),
    Num(serde_json::Number),
    Str(String),
    Arr(Vec<Json>),
    Obj(Vec<JsonField>),
}

/// The mathematical model of one field of a JSON object.
#[verifier::ext_equal]
pub struct JField {
    pub key: Seq<char>,
    pub val: JsonData,
}

/// The mathematical model of a JSON document.
#[verifier::ext_equal]
pub enum JsonData {
    Null,
    Bool(bool),
    Num(serde_json::Number),
    Str(Seq<char>),
    Arr(Seq<JsonData>),
    Obj(Seq<JField>),
}

/// The model of a document.
pub open spec fn json_view(j: Json) -> JsonData
    decreases j,
{
    match j {
        Json::Null => JsonData::Null,
        Json::Bool(b) => JsonData::Bool(b),
        Json::Num(n) => JsonData::Num(n),
        Json::Str(s) => JsonData::Str(s@),
        Json::Arr(a) => JsonData::Arr(
            Seq::new(
                a@.len(),
                |i: int|
                    if 0 <= i < a@.len() {
                        json_view(a@[i])
                    } else {
                        JsonData::Null
                    },
            ),
        ),
        Json::Obj(fs) => JsonData::Obj(
            Seq::new(
                fs@.len(),
                |i: int|
                    if 0 <= i < fs@.len() {
                        JField { key: fs@[i].key@, val: json_view(fs@[i].val) }
                    } else {
                        JField { key: Seq::empty(), val: JsonData::Null }
                    },
            ),
        ),
    }
}

impl View for Json {
    type V = JsonData;

    open spec fn view(&self) -> JsonData {
        json_view(*self)
    }
}

impl View for JsonField {
    type V = JField;

    open spec fn view(&self) -> JField {
        JField { key: self.key@, val: json_view(self.val) }
    }
}

/// The value of the first field named `k`, if any.
pub open spec fn spec_get_fields(fs: Seq<JField>, k: Seq<char>) -> Option<JsonData>
    decreases fs.len(),
{
    if fs.len() == 0 {
        None
    } else if fs[0].key == k {
        Some(fs[0].val)
    } else {
        spec_get_fields(fs.drop_first(), k)
    }
}

/// The value of field `k` of document `j`; `None` if `j` is not an object or
/// has no such field.
pub open spec fn spec_get(j: JsonData, k: Seq<char>) -> Option<JsonData> {
    match j {
        JsonData::Obj(fs) => spec_get_fields(fs, k),
        _ => None,
    }
}

/// No two fields share a name.
pub open spec fn keys_unique(fs: Seq<JField>) -> bool {
    forall|i: int, j: int| 0 <= i < j < fs.len() ==> fs[i].key != fs[j].key
}

/// Every object in the document has pairwise distinct field names.
pub open spec fn wf_json(j: JsonData) -> bool
    decreases j,
{
    match j {
        JsonData::Arr(a) => forall|i: int| 0 <= i < a.len() ==> wf_json(#[trigger] a[i]),
        JsonData::Obj(fs) => keys_unique(fs) && forall|i: int|
            0 <= i < fs.len() ==> wf_json(#[trigger] fs[i].val),
        _ => true,
    }
}

/// The document nests containers (arrays and objects) at most `d` levels deep.
pub open spec fn json_within_depth(j: JsonData, d: nat) -> bool
    decreases j,
{
    match j {
        JsonData::Arr(a) => d > 0 && forall|i: int|
            0 <= i < a.len() ==> json_within_depth(#[trigger] a[i], (d - 1) as nat),
        JsonData::Obj(fs) => d > 0 && forall|i: int|
            0 <= i < fs.len() ==> json_within_depth(#[trigger] fs[i].val, (d - 1) as nat),
        _ => true,
    }
}

/// A depth bound also holds at every larger bound.
pub proof fn lemma_depth_monotone(j: JsonData, d1: nat, d2: nat)
    requires
        json_within_depth(j, d1),
        d1 <= d2,
    ensures
        json_within_depth(j, d2),
    decreases j,
{
    match j {
        JsonData::Arr(a) => {
            assert forall|i: int| 0 <= i < a.len() implies json_within_depth(
                #[trigger] a[i],
                (d2 - 1) as nat,
            ) by {
                lemma_depth_monotone(a[i], (d1 - 1) as nat, (d2 - 1) as nat);
            }
        },
        JsonData::Obj(fs) => {
            assert forall|i: int| 0 <= i < fs.len() implies json_within_depth(
                #[trigger] fs[i].val,
                (d2 - 1) as nat,
            ) by {
                lemma_depth_monotone(fs[i].val, (d1 - 1) as nat, (d2 - 1) as nat);
            }
        },
        _ => {},
    }
}

/// The model of a list of documents.
pub open spec fn arr_view(a: Vec<Json>) -> Seq<JsonData> {
    Seq::new(a@.len(), |i: int| json_view(a@[i]))
}

/// The model of a list of fields.
pub open spec fn fields_view(fs: Vec<JsonField>) -> Seq<JField> {
    Seq::new(fs@.len(), |i: int| fs@[i]@)
}

/// An array's model is the sequence of its elements' models.
pub proof fn lemma_arr_view(a: Vec<Json>)
    ensures
        json_view(Json::Arr(a)) == JsonData::Arr(arr_view(a)),
{
    assert(json_view(Json::Arr(a))->Arr_0 =~= arr_view(a));
}

/// An object's model is the sequence of its fields' models.
pub proof fn lemma_obj_view(fs: Vec<JsonField>)
    ensures
        json_view(Json::Obj(fs)) == JsonData::Obj(fields_view(fs)),
{
    assert(json_view(Json::Obj(fs))->Obj_0 =~= fields_view(fs));
}

/// The index of the first field named `k`, if any.
pub open spec fn spec_find_field(fs: Seq<JField>, k: Seq<char>) -> Option<int>
    decreases fs.len(),
{
    if fs.len() == 0 {
        None
    } else if fs[0].key == k {
        Some(0int)
    } else {
        match spec_find_field(fs.drop_first(), k) {
            Some(i) => Some(i + 1),
            None => None,
        }
    }
}

/// What finding a field means: the index is in range, bears the name, and is
/// the first to do so; the lookup returns its value.
pub proof fn lemma_find_field(fs: Seq<JField>, k: Seq<char>)
    ensures
        match spec_find_field(fs, k) {
            Some(i) => 0 <= i < fs.len() && fs[i].key == k && spec_get_fields(fs, k) == Some(
                fs[i].val,
            ) && forall|t: int| 0 <= t < i ==> fs[t].key != k,
            None => (spec_get_fields(fs, k) is None) && forall|t: int|
                0 <= t < fs.len() ==> fs[t].key != k,
        },
    decreases fs.len(),
{
    if fs.len() > 0 {
        if fs[0].key == k {
        } else {
            lemma_find_field(fs.drop_first(), k);
            match spec_find_field(fs.drop_first(), k) {
                Some(i) => {
                    assert(fs.drop_first()[i] == fs[i + 1]);
                    assert(forall|t: int| 1 <= t < i + 1 ==> fs.drop_first()[t - 1] == fs[t]);
                },
                None => {
                    assert(forall|t: int|
                        1 <= t < fs.len() ==> fs.drop_first()[t - 1] == fs[t]);
                },
            }
        }
    }
}

/// Looking a field up after updating the value at index `i`, the name kept:
/// the lookup of the updated field's name finds the new value when `i` is the
/// first index bearing it, and every other lookup is unchanged.
pub proof fn lemma_get_fields_update(fs: Seq<JField>, i: int, v: JsonData, k: Seq<char>)
    requires
        0 <= i < fs.len(),
    ensures
        spec_get_fields(fs.update(i, JField { key: fs[i].key, val: v }), k) == (
        if spec_find_field(fs, k) == Some(i) {
            Some(v)
        } else {
            spec_get_fields(fs, k)
        }),
    decreases fs.len(),
{
    lemma_find_field(fs, k);
    let fs2 = fs.update(i, JField { key: fs[i].key, val: v });
    assert(fs2.len() == fs.len());
    if i == 0 {
        assert(fs2[0] == (JField { key: fs[0].key, val: v }));
        if fs[0].key == k {
            assert(spec_find_field(fs, k) == Some(0int));
            assert(spec_get_fields(fs2, k) == Some(v));
        } else {
            assert(fs2.drop_first() =~= fs.drop_first());
            assert(spec_get_fields(fs2, k) == spec_get_fields(fs, k));
            assert(spec_find_field(fs, k) != Some(i));
        }
    } else {
        assert(fs2[0] == fs[0]);
        if fs[0].key == k {
            assert(spec_find_field(fs, k) == Some(0int));
            assert(spec_get_fields(fs2, k) == Some(fs[0].val));
            assert(spec_get_fields(fs, k) == Some(fs[0].val));
        } else {
            assert(fs.drop_first()[i - 1] == fs[i]);
            assert(fs2.drop_first() =~= fs.drop_first().update(
                i - 1,
                JField { key: fs.drop_first()[i - 1].key, val: v },
            ));
            lemma_get_fields_update(fs.drop_first(), i - 1, v, k);
            assert(spec_get_fields(fs2, k) == spec_get_fields(fs2.drop_first(), k));
            assert(spec_get_fields(fs, k) == spec_get_fields(fs.drop_first(), k));
            if spec_find_field(fs.drop_first(), k) == Some(i - 1) {
                assert(spec_find_field(fs, k) == Some(i));
                assert(spec_get_fields(fs2, k) == Some(v));
            } else {
                assert(spec_find_field(fs, k) != Some(i));
                assert(spec_get_fields(fs2, k) == spec_get_fields(fs, k));
            }
        }
    }
}

/// Looking a field up after adding one at the end: the lookup of the added
/// field's name finds it when no earlier field bears the name, and every
/// other lookup is unchanged.
pub proof fn lemma_get_fields_push(fs: Seq<JField>, f: JField, k: Seq<char>)
    ensures
        spec_get_fields(fs.push(f), k) == (if spec_get_fields(fs, k) is Some {
            spec_get_fields(fs, k)
        } else if f.key == k {
            Some(f.val)
        } else {
            None
        }),
    decreases fs.len(),
{
    if fs.len() == 0 {
        assert(fs.push(f)[0] == f);
        assert(fs.push(f).drop_first() =~= Seq::<JField>::empty());
    } else {
        assert(fs.push(f)[0] == fs[0]);
        assert(fs.push(f).drop_first() =~= fs.drop_first().push(f));
        lemma_get_fields_push(fs.drop_first(), f, k);
    }
}

/// The index of the first field named `k` of a list of fields.
#[verifier::loop_isolation(false)]
pub fn find_field(fs: &Vec<JsonField>, k: &str) -> (r: Option<usize>)
    ensures
        match r {
            Some(i) => spec_find_field(fields_view(*fs), k@) == Some(i as int),
            None => spec_find_field(fields_view(*fs), k@) is None,
        },
{
    let ghost gfs = fields_view(*fs);
    let n = fs.len();
    let mut i: usize = 0;
    assert(gfs.skip(0) =~= gfs);
    while i < n
        invariant
            0 <= i <= n,
            match spec_find_field(gfs.skip(i as int), k@) {
                Some(t) => spec_find_field(gfs, k@) == Some(t + i),
                None => spec_find_field(gfs, k@) is None,
            },
        decreases n - i,
    {
        assert(gfs.skip(i as int).drop_first() =~= gfs.skip(i + 1));
        assert(gfs.skip(i as int)[0] == gfs[i as int]);
        if crate::text::str_eq(fs[i].key.as_str(), k) {
            return Some(i);
        }
        i += 1;
    }
    assert(gfs.skip(n as int) =~= Seq::<JField>::empty());
    None
}

impl Json {
    /// The value of field `k`, if this document is an object holding one.
    pub fn obj_get<'a>(&'a self, k: &str) -> (r: Option<&'a Json>)
        ensures
            match r {
                Some(v) => spec_get(self@, k@) == Some(v@),
                None => spec_get(self@, k@) is None,
            },
    {
        match self {
            Json::Obj(fs) => {
                let ghost gfs = self@->Obj_0;
                let n = fs.len();
                let mut i: usize = 0;
                assert(gfs.skip(0) =~= gfs);
                while i < n
                    invariant
                        n == fs@.len(),
                        gfs == self@->Obj_0,
                        self@ is Obj,
                        gfs.len() == n,
                        forall|t: int| 0 <= t < n ==> #[trigger] gfs[t] == fs[t]@,
                        0 <= i <= n,
                        spec_get_fields(gfs.skip(i as int), k@) == spec_get(self@, k@),
                    decreases n - i,
                {
                    assert(gfs.skip(i as int).drop_first() =~= gfs.skip(i + 1));
                    assert(gfs.skip(i as int)[0] == gfs[i as int]);
                    if crate::text::str_eq(fs[i].key.as_str(), k) {
                        return Some(&fs[i].val);
                    }
                    i += 1;
                }
                assert(gfs.skip(n as int) =~= Seq::<JField>::empty());
                None
            },
            _ => None,
        }
    }

    /// The text of field `k`, if this document is an object holding a string
    /// under that name.
    pub fn obj_get_str<'a>(&'a self, k: &str) -> (r: Option<&'a String>)
        ensures
            match r {
                Some(s) => spec_get(self@, k@) == Some(JsonData::Str(s@)),
                None => !(spec_get(self@, k@) matches Some(v) && v is Str),
            },
    {
        match self.obj_get(k) {
            Some(Json::Str(s)) => Some(s),
            Some(v) => {
                proof {
                    let got = spec_get(self@, k@)->Some_0;
                    assert(got == v@);
                    assert(!(got is Str));
                }
                None
            },
            None => None,
        }
    }
}

} // verus!
