//! The library's model of a JSON document value.
//!
//! Documents, queries, filters and configuration all arrive as JSON. The
//! library holds such data in its own `Json` tree: numbers keep the variant
//! they were read with (unsigned, signed, or a non-integral number carried
//! as its decimal text), and an object is an ordered list of members looked
//! up by first match.
use vstd::prelude::*;

verus! {

broadcast use vstd::std_specs::vec::group_vec_axioms;

/// A JSON value.
#[derive(Debug)]
pub enum Json {
    Null,
    Boolean(bool),
    U64(u64),
    I64(i64),
    /// A non-integral number, carried as the decimal text it was written
    /// with; this library never computes with it.
    Float(String),
    String(String),
    Array(Vec<Json>),
    Object(Vec<(String, Json)>),
}

/// The mathematical value of a `Json` tree.
pub ghost enum JsonV {
    Null,
    Boolean(bool),
    U64(u64),
    I64(i64),
    Float(Seq<char>),
    String(Seq<char>),
    Array(Seq<JsonV>),
    Object(Seq<(Seq<char>, JsonV)>),
}

/// The mathematical value of a `Json` tree.
pub open spec fn json_view(j: Json) -> JsonV
    decreases j,
    via json_view_dec
{
    match j {
        Json::Null => JsonV::Null,
        Json::Boolean(b) => JsonV::Boolean(b),
        Json::U64(n) => JsonV::U64(n),
        Json::I64(n) => JsonV::I64(n),
        Json::Float(s) => JsonV::Float(s@),
        Json::String(s) => JsonV::String(s@),
        Json::Array(a) => JsonV::Array(jsons_view(a@)),
        Json::Object(o) => JsonV::Object(members_view(o@)),
    }
}

/// The views of a sequence of values, in order.
pub open spec fn jsons_view(s: Seq<Json>) -> Seq<JsonV>
    decreases s,
    via jsons_view_dec
{
    if s.len() == 0 {
        Seq::empty()
    } else {
        seq![json_view(s[0])] + jsons_view(s.drop_first())
    }
}

/// The views of an object's members, in order.
pub open spec fn members_view(s: Seq<(String, Json)>) -> Seq<(Seq<char>, JsonV)>
    decreases s,
    via members_view_dec
{
    if s.len() == 0 {
        Seq::empty()
    } else {
        seq![(s[0].0@, json_view(s[0].1))] + members_view(s.drop_first())
    }
}

#[via_fn]
proof fn json_view_dec(j: Json) {
    match j {
        Json::Array(a) => {
            vstd::std_specs::vec::axiom_vec_decreases_to_view(a);
        },
        Json::Object(o) => {
            vstd::std_specs::vec::axiom_vec_decreases_to_view(o);
        },
        _ => {},
    }
}

#[via_fn]
proof fn jsons_view_dec(s: Seq<Json>) {
    if s.len() != 0 {
        vstd::seq::axiom_seq_index_decreases(s, 0);
        vstd::seq::axiom_seq_subrange_decreases(s, 1, s.len() as int);
        assert(s.drop_first() == s.subrange(1, s.len() as int));
    }
}

#[via_fn]
proof fn members_view_dec(s: Seq<(String, Json)>) {
    if s.len() != 0 {
        vstd::seq::axiom_seq_index_decreases(s, 0);
        assert(decreases_to!(s[0] => s[0].1));
        vstd::seq::axiom_seq_subrange_decreases(s, 1, s.len() as int);
        assert(s.drop_first() == s.subrange(1, s.len() as int));
    }
}

impl View for Json {
    type V = JsonV;

    open spec fn view(&self) -> JsonV {
        json_view(*self)
    }
}

/// `jsons_view` maps the sequence elementwise.
pub broadcast proof fn lemma_jsons_view(s: Seq<Json>)
    ensures
        (#[trigger] jsons_view(s)).len() == s.len(),
        forall|i: int| 0 <= i < s.len() ==> jsons_view(s)[i] == json_view(s[i]),
    decreases s.len(),
{
    if s.len() != 0 {
        lemma_jsons_view(s.drop_first());
        assert forall|i: int| 0 <= i < s.len() implies jsons_view(s)[i] == json_view(s[i]) by {
            if i > 0 {
                assert(s.drop_first()[i - 1] == s[i]);
            }
        }
    }
}

/// `members_view` maps the member list elementwise.
pub broadcast proof fn lemma_members_view(s: Seq<(String, Json)>)
    ensures
        (#[trigger] members_view(s)).len() == s.len(),
        forall|i: int|
            0 <= i < s.len() ==> members_view(s)[i] == (s[i].0@, json_view(s[i].1)),
    decreases s.len(),
{
    if s.len() != 0 {
        lemma_members_view(s.drop_first());
        assert forall|i: int| 0 <= i < s.len() implies members_view(s)[i] == (
            s[i].0@,
            json_view(s[i].1),
        ) by {
            if i > 0 {
                assert(s.drop_first()[i - 1] == s[i]);
            }
        }
    }
}

/// First-match lookup of a member by name in an object's member list.
pub open spec fn obj_get(members: Seq<(Seq<char>, JsonV)>, name: Seq<char>) -> Option<JsonV>
    decreases members.len(),
{
    if members.len() == 0 {
        None
    } else if members[0].0 == name {
        Some(members[0].1)
    } else {
        obj_get(members.drop_first(), name)
    }
}

/// Equality of two strings, stated over their character sequences.
pub fn str_eq(a: &str, b: &str) -> (r: bool)
    ensures
        r == (a@ == b@),
{
    let a_len = a.unicode_len();
    let b_len = b.unicode_len();
    if a_len != b_len {
        assert(a@ != b@) by {
            assert(a@.len() != b@.len());
        }
        return false;
    }
    let mut i: usize = 0;
    while i < a_len
        invariant
            i <= a_len,
            a_len == a@.len(),
            b_len == b@.len(),
            a_len == b_len,
            forall|j: int| 0 <= j < i ==> a@[j] == b@[j],
        decreases a_len - i,
    {
        if a.get_char(i) != b.get_char(i) {
            return false;
        }
        i = i + 1;
    }
    proof {
        assert(a@ =~= b@);
    }
    true
}

/// Whether one string starts with another, stated over character sequences.
pub fn str_starts_with(s: &str, prefix: &str) -> (r: bool)
    ensures
        r == prefix@.is_prefix_of(s@),
{
    let n = prefix.unicode_len();
    let m = s.unicode_len();
    if n > m {
        return false;
    }
    let mut i: usize = 0;
    while i < n
        invariant
            i <= n,
            n == prefix@.len(),
            m == s@.len(),
            n <= m,
            forall|j: int| 0 <= j < i ==> prefix@[j] == s@[j],
        decreases n - i,
    {
        if prefix.get_char(i) != s.get_char(i) {
            assert(!prefix@.is_prefix_of(s@)) by {
                assert(prefix@[i as int] != s@.subrange(0, n as int)[i as int]);
            }
            return false;
        }
        i = i + 1;
    }
    proof {
        assert(prefix@ =~= s@.subrange(0, n as int));
    }
    true
}

impl Json {
    /// Looks a member up by name; the first member with that name answers.
    pub fn object_get<'a>(members: &'a Vec<(String, Json)>, name: &str) -> (r: Option<
        &'a Json,
    >)
        ensures
            match r {
                Some(v) => obj_get(members_view(members@), name@) == Some(v@) && (
                decreases_to!(*members => *v)),
                None => obj_get(members_view(members@), name@) is None,
            },
    {
        proof {
            lemma_members_view(members@);
        }
        let ghost ms = members_view(members@);
        let mut i: usize = 0;
        proof {
            assert(ms.skip(0) =~= ms);
        }
        while i < members.len()
            invariant
                i <= members.len(),
                ms == members_view(members@),
                ms.len() == members@.len(),
                forall|j: int|
                    0 <= j < members@.len() ==> ms[j] == (members@[j].0@, json_view(
                        members@[j].1,
                    )),
                obj_get(ms, name@) == obj_get(ms.skip(i as int), name@),
            decreases members.len() - i,
        {
            proof {
                assert(ms.skip(i as int)[0] == ms[i as int]);
                vstd::std_specs::vec::axiom_vec_index_decreases(*members, i as int);
                assert(decreases_to!(members@[i as int] => members@[i as int].1));
            }
            if str_eq(members[i].0.as_str(), name) {
                return Some(&members[i].1);
            }
            proof {
                assert(ms.skip(i as int).drop_first() =~= ms.skip(i + 1));
            }
            i = i + 1;
        }
        proof {
            assert(ms.skip(i as int).len() == 0);
        }
        None
    }

    /// A copy of the value, equal to the original through the view.
    pub fn deep_clone(&self) -> (r: Json)
        ensures
            r@ == self@,
        decreases self,
    {
        match self {
            Json::Null => Json::Null,
            Json::Boolean(b) => Json::Boolean(*b),
            Json::U64(n) => Json::U64(*n),
            Json::I64(n) => Json::I64(*n),
            Json::Float(s) => Json::Float(s.clone()),
            Json::String(s) => Json::String(s.clone()),
            Json::Array(a) => {
                let mut out: Vec<Json> = Vec::new();
                let mut i: usize = 0;
                proof {
                    assert(decreases_to!(*self => *a));
                }
                while i < a.len()
                    invariant
                        i <= a.len(),
                        out@.len() == i,
                        decreases_to!(*self => *a),
                        forall|j: int| 0 <= j < i ==> json_view(out@[j]) == json_view(a@[j]),
                    decreases a.len() - i,
                {
                    proof {
                        vstd::std_specs::vec::axiom_vec_index_decreases(*a, i as int);
                    }
                    let c = a[i].deep_clone();
                    out.push(c);
                    i = i + 1;
                }
                proof {
                    lemma_jsons_view(out@);
                    lemma_jsons_view(a@);
                    assert(jsons_view(out@) =~= jsons_view(a@));
                }
                Json::Array(out)
            },
            Json::Object(o) => {
                let mut out: Vec<(String, Json)> = Vec::new();
                let mut i: usize = 0;
                proof {
                    assert(decreases_to!(*self => *o));
                }
                while i < o.len()
                    invariant
                        i <= o.len(),
                        out@.len() == i,
                        decreases_to!(*self => *o),
                        forall|j: int|
                            0 <= j < i ==> out@[j].0@ == o@[j].0@ && json_view(out@[j].1)
                                == json_view(o@[j].1),
                    decreases o.len() - i,
                {
                    proof {
                        vstd::std_specs::vec::axiom_vec_index_decreases(*o, i as int);
                        assert(decreases_to!(o@[i as int] => o@[i as int].1));
                    }
                    let k = o[i].0.clone();
                    let v = o[i].1.deep_clone();
                    out.push((k, v));
                    i = i + 1;
                }
                proof {
                    lemma_members_view(out@);
                    lemma_members_view(o@);
                    assert(members_view(out@) =~= members_view(o@));
                }
                Json::Object(out)
            },
        }
    }

    /// Equality of two values, stated over their views.
    pub fn json_eq(a: &Json, b: &Json) -> (r: bool)
        ensures
            r == (a@ == b@),
        decreases a,
    {
        match (a, b) {
            (Json::Null, Json::Null) => true,
            (Json::Boolean(x), Json::Boolean(y)) => x == y,
            (Json::U64(x), Json::U64(y)) => x == y,
            (Json::I64(x), Json::I64(y)) => x == y,
            (Json::Float(x), Json::Float(y)) => str_eq(x.as_str(), y.as_str()),
            (Json::String(x), Json::String(y)) => str_eq(x.as_str(), y.as_str()),
            (Json::Array(x), Json::Array(y)) => {
                proof {
                    lemma_jsons_view(x@);
                    lemma_jsons_view(y@);
                }
                let ghost xs = jsons_view(x@);
                let ghost ys = jsons_view(y@);
                if x.len() != y.len() {
                    return false;
                }
                let mut i: usize = 0;
                proof {
                    assert(decreases_to!(*a => *x));
                }
                while i < x.len()
                    invariant
                        i <= x.len(),
                        decreases_to!(*a => *x),
                        x@.len() == y@.len(),
                        xs == jsons_view(x@),
                        ys == jsons_view(y@),
                        xs.len() == x@.len(),
                        ys.len() == y@.len(),
                        forall|j: int| 0 <= j < x@.len() ==> xs[j] == json_view(x@[j]),
                        forall|j: int| 0 <= j < y@.len() ==> ys[j] == json_view(y@[j]),
                        a@ == JsonV::Array(xs),
                        b@ == JsonV::Array(ys),
                        forall|j: int| 0 <= j < i ==> xs[j] == ys[j],
                    decreases x.len() - i,
                {
                    proof {
                        vstd::std_specs::vec::axiom_vec_index_decreases(*x, i as int);
                    }
                    if !Json::json_eq(&x[i], &y[i]) {
                        proof {
                            assert(xs[i as int] != ys[i as int]);
                            assert(a@ != b@) by {
                                if a@ == b@ {
                                    assert(xs == ys);
                                }
                            }
                        }
                        return false;
                    }
                    i = i + 1;
                }
                proof {
                    assert(xs =~= ys);
                }
                true
            },
            (Json::Object(x), Json::Object(y)) => {
                proof {
                    lemma_members_view(x@);
                    lemma_members_view(y@);
                }
                let ghost xs = members_view(x@);
                let ghost ys = members_view(y@);
                if x.len() != y.len() {
                    return false;
                }
                let mut i: usize = 0;
                proof {
                    assert(decreases_to!(*a => *x));
                }
                while i < x.len()
                    invariant
                        i <= x.len(),
                        decreases_to!(*a => *x),
                        x@.len() == y@.len(),
                        xs == members_view(x@),
                        ys == members_view(y@),
                        xs.len() == x@.len(),
                        ys.len() == y@.len(),
                        forall|j: int|
                            0 <= j < x@.len() ==> xs[j] == (x@[j].0@, json_view(x@[j].1)),
                        forall|j: int|
                            0 <= j < y@.len() ==> ys[j] == (y@[j].0@, json_view(y@[j].1)),
                        a@ == JsonV::Object(xs),
                        b@ == JsonV::Object(ys),
                        forall|j: int| 0 <= j < i ==> xs[j] == ys[j],
                    decreases x.len() - i,
                {
                    if !str_eq(x[i].0.as_str(), y[i].0.as_str()) {
                        proof {
                            assert(xs[i as int] != ys[i as int]);
                            assert(a@ != b@) by {
                                if a@ == b@ {
                                    assert(xs == ys);
                                }
                            }
                        }
                        return false;
                    }
                    proof {
                        vstd::std_specs::vec::axiom_vec_index_decreases(*x, i as int);
                        assert(decreases_to!(x@[i as int] => x@[i as int].1));
                    }
                    if !Json::json_eq(&x[i].1, &y[i].1) {
                        proof {
                            assert(xs[i as int] != ys[i as int]);
                            assert(a@ != b@) by {
                                if a@ == b@ {
                                    assert(xs == ys);
                                }
                            }
                        }
                        return false;
                    }
                    i = i + 1;
                }
                proof {
                    assert(xs =~= ys);
                }
                true
            },
            _ => false,
        }
    }
}

} // verus!
