//! A JSON document model: the configuration values (trigger configs, matcher
//! configs, transition conditions, model replies) that the rules read.
//!
//! Numbers are kept as their source text; the rules never compute with them.
use vstd::prelude::*;

verus! {

/// A JSON value. Object members keep their order; lookups return the first
/// member with the requested key.
#[derive(Debug)]
pub enum JsonValue {
    Null,
    Bool(bool),
    Number(String),
    Str(String),
    Array(Vec<JsonValue>),
    Object(Vec<(String, JsonValue)>),
}

/// The value of the first member named `key`.
pub open spec fn members_get(members: Seq<(String, JsonValue)>, key: Seq<char>) -> Option<
    JsonValue,
>
    decreases members.len(),
{
    if members.len() == 0 {
        None
    } else if members[0].0@ == key {
        Some(members[0].1)
    } else {
        members_get(members.drop_first(), key)
    }
}

impl JsonValue {
    /// `value.get(key)`: the member `key` of an object; nothing for other values.
    pub open spec fn get_spec(self, key: Seq<char>) -> Option<JsonValue> {
        match self {
            JsonValue::Object(m) => members_get(m@, key),
            _ => None,
        }
    }

    /// The boolean held by the member `key`, if it is a boolean.
    pub open spec fn get_bool_spec(self, key: Seq<char>) -> Option<bool> {
        match self.get_spec(key) {
            Some(JsonValue::Bool(b)) => Some(b),
            _ => None,
        }
    }

    /// The text held by the member `key`, if it is a string.
    pub open spec fn get_str_spec(self, key: Seq<char>) -> Option<Seq<char>> {
        match self.get_spec(key) {
            Some(JsonValue::Str(s)) => Some(s@),
            _ => None,
        }
    }

    /// The elements of the member `key`, if it is an array.
    pub open spec fn get_array_spec(self, key: Seq<char>) -> Option<Seq<JsonValue>> {
        match self.get_spec(key) {
            Some(JsonValue::Array(a)) => Some(a@),
            _ => None,
        }
    }

    /// The value is an object with no members.
    pub open spec fn is_empty_object_spec(self) -> bool {
        match self {
            JsonValue::Object(m) => m@.len() == 0,
            _ => false,
        }
    }

    /// The value is an object.
    pub open spec fn is_object_spec(self) -> bool {
        self is Object
    }

    /// Looks up the member `key` of an object.
    pub fn get(&self, key: &str) -> (r: Option<&JsonValue>)
        ensures
            r is None <==> self.get_spec(key@) is None,
            r matches Some(v) ==> self.get_spec(key@) == Some(*v),
    {
        match self {
            JsonValue::Object(members) => {
                let mut i: usize = 0;
                assert(members@.subrange(0, members@.len() as int) =~= members@);
                while i < members.len()
                    invariant
                        i <= members.len(),
                        self.get_spec(key@) == members_get(members@, key@),
                        members_get(members@, key@) == members_get(
                            members@.subrange(i as int, members@.len() as int),
                            key@,
                        ),
                    decreases members.len() - i,
                {
                    let ghost rest = members@.subrange(i as int, members@.len() as int);
                    assert(rest[0] == members@[i as int]);
                    if crate::text::str_eq(members[i].0.as_str(), key) {
                        return Some(&members[i].1);
                    }
                    assert(rest.drop_first() =~= members@.subrange(i + 1, members@.len() as int));
                    i = i + 1;
                }
                None
            },
            _ => None,
        }
    }

    /// The boolean member `key`, if present and boolean.
    pub fn get_bool(&self, key: &str) -> (r: Option<bool>)
        ensures
            r == self.get_bool_spec(key@),
    {
        match self.get(key) {
            Some(JsonValue::Bool(b)) => Some(*b),
            _ => None,
        }
    }

    /// The string member `key`, if present and a string.
    pub fn get_str(&self, key: &str) -> (r: Option<&str>)
        ensures
            r is None <==> self.get_str_spec(key@) is None,
            r matches Some(s) ==> self.get_str_spec(key@) == Some(s@),
    {
        match self.get(key) {
            Some(JsonValue::Str(s)) => Some(s.as_str()),
            _ => None,
        }
    }

    /// The array member `key`, if present and an array.
    pub fn get_array(&self, key: &str) -> (r: Option<&Vec<JsonValue>>)
        ensures
            r is None <==> self.get_array_spec(key@) is None,
            r matches Some(a) ==> self.get_array_spec(key@) == Some(a@),
    {
        match self.get(key) {
            Some(JsonValue::Array(a)) => Some(a),
            _ => None,
        }
    }

    /// Whether the value is an object with no members.
    pub fn is_empty_object(&self) -> (r: bool)
        ensures
            r == self.is_empty_object_spec(),
    {
        match self {
            JsonValue::Object(m) => m.len() == 0,
            _ => false,
        }
    }

    /// Whether the value is an object.
    pub fn is_object(&self) -> (r: bool)
        ensures
            r == self.is_object_spec(),
    {
        match self {
            JsonValue::Object(_) => true,
            _ => false,
        }
    }

    /// Whether the value is `null`.
    pub fn is_null(&self) -> (r: bool)
        ensures
            r == (*self is Null),
    {
        match self {
            JsonValue::Null => true,
            _ => false,
        }
    }
}

/// Looking up a key in two lists of members: the first list decides when it
/// has the key.
pub proof fn lemma_members_get_concat(a: Seq<(String, JsonValue)>, b: Seq<(String, JsonValue)>, key: Seq<char>)
    ensures
        members_get(a + b, key) == (match members_get(a, key) {
            Some(v) => Some(v),
            None => members_get(b, key),
        }),
    decreases a.len(),
{
    if a.len() > 0 {
        assert((a + b)[0] == a[0]);
        if a[0].0@ != key {
            assert((a + b).drop_first() =~= a.drop_first() + b);
            lemma_members_get_concat(a.drop_first(), b, key);
        }
    } else {
        assert(a + b =~= b);
    }
}

impl JsonValue {
    /// `obj[key] = value` on an object: any members named `key` are
    /// replaced by one member with `value`; other values are unchanged.
    pub fn set_member(self, key: &str, value: JsonValue) -> (r: JsonValue)
        ensures
            self is Object ==> r is Object && r.get_spec(key@) == Some(value) && forall|k: Seq<char>|
                k != key@ ==> #[trigger] r.get_spec(k) == self.get_spec(k),
            !(self is Object) ==> r == self,
    {
        match self {
            JsonValue::Object(members) => {
                let mut out: Vec<(String, JsonValue)> = Vec::new();
                let mut i: usize = 0;
                let ghost all = members@;
                let n = members.len();
                let mut rest = members;
                while rest.len() > 0
                    invariant
                        i + rest@.len() == all.len(),
                        all.len() == n,
                        rest@ == all.subrange(i as int, all.len() as int),
                        members_get(out@, key@) is None,
                        forall|k: Seq<char>| k != key@ ==> #[trigger] members_get(out@, k) == members_get(all.take(i as int), k),
                    decreases rest@.len(),
                {
                    let m = rest.remove(0);
                    assert(m == all[i as int]);
                    assert(rest@ =~= all.subrange(i + 1, all.len() as int));
                    assert(all.take(i + 1) =~= all.take(i as int) + seq![m]);
                    let ghost before = out@;
                    proof {
                        reveal_with_fuel(members_get, 2);
                    }
                    if crate::text::str_eq(m.0.as_str(), key) {
                        proof {
                            assert forall|k: Seq<char>| k != key@ implies #[trigger] members_get(out@, k) == members_get(all.take(i + 1), k) by {
                                lemma_members_get_concat(all.take(i as int), seq![m], k);
                                assert(seq![m].drop_first() =~= Seq::<(String, JsonValue)>::empty());
                            }
                        }
                    } else {
                        out.push(m);
                        proof {
                            assert(out@ =~= before + seq![m]);
                            lemma_members_get_concat(before, seq![m], key@);
                            assert(seq![m].drop_first() =~= Seq::<(String, JsonValue)>::empty());
                            assert forall|k: Seq<char>| k != key@ implies #[trigger] members_get(out@, k) == members_get(all.take(i + 1), k) by {
                                lemma_members_get_concat(before, seq![m], k);
                                lemma_members_get_concat(all.take(i as int), seq![m], k);
                            }
                        }
                    }
                    i = i + 1;
                }
                assert(all.take(all.len() as int) =~= all);
                let ghost before = out@;
                let entry = (crate::observation::owned(key), value);
                out.push(entry);
                proof {
                    reveal_with_fuel(members_get, 2);
                    assert(out@ =~= before + seq![entry]);
                    assert(seq![entry].drop_first() =~= Seq::<(String, JsonValue)>::empty());
                    lemma_members_get_concat(before, seq![entry], key@);
                    assert forall|k: Seq<char>| k != key@ implies #[trigger] members_get(out@, k) == members_get(all, k) by {
                        lemma_members_get_concat(before, seq![entry], k);
                    }
                }
                JsonValue::Object(out)
            },
            other => other,
        }
    }
}

} // verus!
