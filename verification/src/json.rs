//! JSON values, and their equality by value.

use vstd::prelude::*;
use vstd::utf8::encode_utf8;

use crate::number::{
    decimal_number, law_same_number_is_an_equivalence, numbers_equal, numbers_semantically_equal,
};
use crate::text::text_equal;

verus! {

/// A JSON value. A number is kept as it is written, so that no digit is lost.
/// The members of an object stand in any order.
#[derive(Debug, PartialEq, Eq)]
pub enum JsonValue {
    Null,
    Bool(bool),
    Number(String),
    String(String),
    Array(Vec<JsonValue>),
    Object(Vec<(String, JsonValue)>),
}

/// The position of the first member of that name.
pub open spec fn member_position(members: Seq<(String, JsonValue)>, name: Seq<char>) -> Option<int>
    decreases members.len(),
{
    if members.len() == 0 {
        None
    } else {
        match member_position(members.drop_last(), name) {
            Some(position) => Some(position),
            None => if members.last().0@ == name {
                Some(members.len() - 1)
            } else {
                None
            },
        }
    }
}

/// Whether no two members have the same name.
pub open spec fn distinct_names(members: Seq<(String, JsonValue)>) -> bool {
    forall|i: int, j: int|
        0 <= i < j < members.len() ==> (#[trigger] members[i]).0@ != (#[trigger] members[j]).0@
}

impl JsonValue {
    /// Whether objects at every level have distinct names and every number is one.
    pub open spec fn well_formed(self) -> bool
        decreases self,
    {
        match self {
            JsonValue::Null => true,
            JsonValue::Bool(_) => true,
            JsonValue::Number(text) => decimal_number(encode_utf8(text@)) is Some,
            JsonValue::String(_) => true,
            JsonValue::Array(items) => forall|i: int|
                0 <= i < items@.len() ==> (#[trigger] items@[i]).well_formed(),
            JsonValue::Object(members) => distinct_names(members@) && forall|i: int|
                0 <= i < members@.len() ==> (#[trigger] members@[i]).1.well_formed(),
        }
    }
}

/// Whether two values are the same JSON value: numbers by their exact value,
/// text character by character, arrays in order, objects in any order.
pub open spec fn json_equal(left: JsonValue, right: JsonValue) -> bool
    decreases left,
{
    match (left, right) {
        (JsonValue::Null, JsonValue::Null) => true,
        (JsonValue::Bool(left), JsonValue::Bool(right)) => left == right,
        (JsonValue::Number(left), JsonValue::Number(right)) => numbers_equal(
            encode_utf8(left@),
            encode_utf8(right@),
        ),
        (JsonValue::String(left), JsonValue::String(right)) => left@ == right@,
        (JsonValue::Array(left), JsonValue::Array(right)) => left@.len() == right@.len() && forall|
            i: int,
        |
            0 <= i < left@.len() ==> json_equal(#[trigger] left@[i], right@[i]),
        (JsonValue::Object(left), JsonValue::Object(right)) => left@.len() == right@.len()
            && forall|i: int|
            0 <= i < left@.len() ==> (member_position(
                right@,
                (#[trigger] left@[i]).0@,
            ) matches Some(j) && json_equal(left@[i].1, right@[j].1)),
        _ => false,
    }
}

/// What a found member is.
pub proof fn lemma_member_position(members: Seq<(String, JsonValue)>, name: Seq<char>)
    ensures
        match member_position(members, name) {
            Some(j) => 0 <= j < members.len() && members[j].0@ == name && forall|i: int|
                0 <= i < j ==> (#[trigger] members[i]).0@ != name,
            None => forall|i: int| 0 <= i < members.len() ==> (#[trigger] members[i]).0@ != name,
        },
    decreases members.len(),
{
    if members.len() > 0 {
        let earlier = members.drop_last();
        lemma_member_position(earlier, name);
        assert forall|i: int| 0 <= i < earlier.len() implies #[trigger] earlier[i]
            == members[i] by {
        }
        if member_position(earlier, name) is None {
            assert forall|i: int| 0 <= i < members.len() - 1 implies (
            #[trigger] members[i]).0@ != name by {
                assert(earlier[i].0@ != name);
            }
        } else {
            let j = member_position(earlier, name)->Some_0;
            assert forall|i: int| 0 <= i < j implies (#[trigger] members[i]).0@ != name by {
                assert(earlier[i].0@ != name);
            }
        }
    }
}

/// Finds the member of an object by its name.
pub fn find_member(members: &Vec<(String, JsonValue)>, name: &str) -> (found: Option<usize>)
    ensures
        match member_position(members@, name@) {
            Some(position) => found matches Some(index) && index == position && index
                < members@.len(),
            None => found is None,
        },
{
    let mut index: usize = 0;
    assert(members@.take(0) =~= Seq::empty());
    while index < members.len()
        invariant
            index <= members@.len(),
            member_position(members@.take(index as int), name@) is None,
        decreases members@.len() - index,
    {
        proof {
            let known = members@.take(index + 1);
            assert(known.drop_last() =~= members@.take(index as int));
            assert(known.last() == members@[index as int]);
        }
        if text_equal(members[index].0.as_str(), name) {
            proof {
                lemma_member_position(members@.take(index as int), name@);
                lemma_member_position(members@, name@);
                assert forall|i: int| 0 <= i < index implies (#[trigger] members@[i]).0@
                    != name@ by {
                    assert(members@.take(index as int)[i].0@ != name@);
                }
            }
            return Some(index);
        }
        index = index + 1;
    }
    assert(members@.take(index as int) =~= members@);
    None
}

/// Whether two values are the same JSON value.
pub fn json_semantically_equal(left: &JsonValue, right: &JsonValue) -> (equal: bool)
    ensures
        equal == json_equal(*left, *right),
    decreases left,
{
    match (left, right) {
        (JsonValue::Null, JsonValue::Null) => true,
        (JsonValue::Bool(left), JsonValue::Bool(right)) => *left == *right,
        (JsonValue::Number(left), JsonValue::Number(right)) => numbers_semantically_equal(
            left.as_str(),
            right.as_str(),
        ),
        (JsonValue::String(left), JsonValue::String(right)) => text_equal(
            left.as_str(),
            right.as_str(),
        ),
        (JsonValue::Array(left_items), JsonValue::Array(right_items)) => {
            if left_items.len() != right_items.len() {
                return false;
            }
            let mut index: usize = 0;
            while index < left_items.len()
                invariant
                    index <= left_items@.len(),
                    left_items@.len() == right_items@.len(),
                    *left == JsonValue::Array(*left_items),
                    *right == JsonValue::Array(*right_items),
                    forall|i: int|
                        0 <= i < index ==> json_equal(#[trigger] left_items@[i], right_items@[i]),
                decreases left_items@.len() - index,
            {
                proof {
                    assert(decreases_to!(*left => left->Array_0));
                    assert(decreases_to!(*left_items => left_items@[index as int]));
                }
                if !json_semantically_equal(&left_items[index], &right_items[index]) {
                    return false;
                }
                index = index + 1;
            }
            true
        },
        (JsonValue::Object(left_members), JsonValue::Object(right_members)) => {
            if left_members.len() != right_members.len() {
                return false;
            }
            let mut index: usize = 0;
            while index < left_members.len()
                invariant
                    index <= left_members@.len(),
                    left_members@.len() == right_members@.len(),
                    *left == JsonValue::Object(*left_members),
                    *right == JsonValue::Object(*right_members),
                    forall|i: int|
                        0 <= i < index ==> (member_position(
                            right_members@,
                            (#[trigger] left_members@[i]).0@,
                        ) matches Some(j) && json_equal(left_members@[i].1, right_members@[j].1)),
                decreases left_members@.len() - index,
            {
                proof {
                    assert(decreases_to!(*left => left->Object_0));
                    assert(decreases_to!(*left_members => left_members@[index as int]));
                }
                match find_member(right_members, left_members[index].0.as_str()) {
                    None => {
                        return false;
                    },
                    Some(position) => {
                        if !json_semantically_equal(
                            &left_members[index].1,
                            &right_members[position].1,
                        ) {
                            return false;
                        }
                    },
                }
                index = index + 1;
            }
            true
        },
        _ => false,
    }
}

/// Every well-formed value equals itself.
pub proof fn law_json_equality_is_reflexive(value: JsonValue)
    requires
        value.well_formed(),
    ensures
        json_equal(value, value),
    decreases value,
{
    match value {
        JsonValue::Number(text) => {
            let number = decimal_number(encode_utf8(text@))->Some_0;
            law_same_number_is_an_equivalence(number, number, number);
        },
        JsonValue::Array(items) => {
            assert forall|i: int| 0 <= i < items@.len() implies json_equal(
                #[trigger] items@[i],
                items@[i],
            ) by {
                law_json_equality_is_reflexive(items@[i]);
            }
        },
        JsonValue::Object(members) => {
            assert forall|i: int| 0 <= i < members@.len() implies (member_position(
                members@,
                (#[trigger] members@[i]).0@,
            ) matches Some(j) && json_equal(members@[i].1, members@[j].1)) by {
                lemma_member_position(members@, members@[i].0@);
                law_json_equality_is_reflexive(members@[i].1);
            }
        },
        _ => {},
    }
}

/// The names of members.
spec fn names(members: Seq<(String, JsonValue)>) -> Seq<Seq<char>> {
    members.map_values(|member: (String, JsonValue)| member.0@)
}

/// If every name of one object is a name of another with as many members, then
/// they have the same names.
proof fn lemma_same_names(left: Seq<(String, JsonValue)>, right: Seq<(String, JsonValue)>, j: int)
    requires
        distinct_names(left),
        left.len() == right.len(),
        forall|i: int|
            0 <= i < left.len() ==> member_position(right, (#[trigger] left[i]).0@) is Some,
        0 <= j < right.len(),
    ensures
        member_position(left, right[j].0@) is Some,
{
    let left_names = names(left);
    let right_names = names(right);
    assert(left_names.no_duplicates()) by {
        assert forall|a: int, b: int|
            0 <= a < left_names.len() && 0 <= b < left_names.len() && a
                != b implies left_names[a] != left_names[b] by {
            if a < b {
                assert(left[a].0@ != left[b].0@);
            } else {
                assert(left[b].0@ != left[a].0@);
            }
        }
    }
    assert(left_names.to_set().subset_of(right_names.to_set())) by {
        assert forall|name: Seq<char>|
            left_names.to_set().contains(name) implies right_names.to_set().contains(name) by {
            let i = choose|i: int| 0 <= i < left_names.len() && left_names[i] == name;
            assert(left[i].0@ == name);
            lemma_member_position(right, name);
            let k = member_position(right, name)->Some_0;
            assert(right_names[k] == name);
        }
    }
    left_names.unique_seq_to_set();
    right_names.lemma_cardinality_of_set();
    vstd::set_lib::lemma_len_subset(left_names.to_set(), right_names.to_set());
    vstd::set_lib::lemma_subset_equality(left_names.to_set(), right_names.to_set());
    assert(right_names[j] == right[j].0@);
    assert(left_names.to_set().contains(right[j].0@));
    let i = choose|i: int| 0 <= i < left_names.len() && left_names[i] == right[j].0@;
    assert(left[i].0@ == right[j].0@);
    lemma_member_position(left, right[j].0@);
}

/// Equality of well-formed values does not depend on their order.
pub proof fn law_json_equality_is_symmetric(left: JsonValue, right: JsonValue)
    requires
        left.well_formed(),
        right.well_formed(),
        json_equal(left, right),
    ensures
        json_equal(right, left),
    decreases left,
{
    match (left, right) {
        (JsonValue::Number(left), JsonValue::Number(right)) => {
            let a = decimal_number(encode_utf8(left@))->Some_0;
            let b = decimal_number(encode_utf8(right@))->Some_0;
            law_same_number_is_an_equivalence(a, b, a);
        },
        (JsonValue::Array(left), JsonValue::Array(right)) => {
            assert forall|i: int| 0 <= i < right@.len() implies json_equal(
                #[trigger] right@[i],
                left@[i],
            ) by {
                law_json_equality_is_symmetric(left@[i], right@[i]);
            }
        },
        (JsonValue::Object(left), JsonValue::Object(right)) => {
            assert forall|j: int| 0 <= j < right@.len() implies (member_position(
                left@,
                (#[trigger] right@[j]).0@,
            ) matches Some(i) && json_equal(right@[j].1, left@[i].1)) by {
                lemma_same_names(left@, right@, j);
                lemma_member_position(left@, right@[j].0@);
                let i = member_position(left@, right@[j].0@)->Some_0;
                assert(left@[i].0@ == right@[j].0@);
                lemma_member_position(right@, left@[i].0@);
                let k = member_position(right@, left@[i].0@)->Some_0;
                assert(k == j) by {
                    if k < j {
                        assert(right@[k].0@ != right@[j].0@);
                    }
                    if j < k {
                        assert(right@[j].0@ != right@[k].0@);
                    }
                }
                law_json_equality_is_symmetric(left@[i].1, right@[j].1);
            }
        },
        _ => {},
    }
}

/// Values that equal the same value equal each other.
pub proof fn law_json_equality_is_transitive(a: JsonValue, b: JsonValue, c: JsonValue)
    requires
        json_equal(a, b),
        json_equal(b, c),
    ensures
        json_equal(a, c),
    decreases a,
{
    match (a, b, c) {
        (JsonValue::Number(a), JsonValue::Number(b), JsonValue::Number(c)) => {
            law_same_number_is_an_equivalence(
                decimal_number(encode_utf8(a@))->Some_0,
                decimal_number(encode_utf8(b@))->Some_0,
                decimal_number(encode_utf8(c@))->Some_0,
            );
        },
        (JsonValue::Array(a), JsonValue::Array(b), JsonValue::Array(c)) => {
            assert forall|i: int| 0 <= i < a@.len() implies json_equal(
                #[trigger] a@[i],
                c@[i],
            ) by {
                assert(json_equal(b@[i], c@[i]));
                law_json_equality_is_transitive(a@[i], b@[i], c@[i]);
            }
        },
        (JsonValue::Object(a), JsonValue::Object(b), JsonValue::Object(c)) => {
            assert forall|i: int| 0 <= i < a@.len() implies (member_position(
                c@,
                (#[trigger] a@[i]).0@,
            ) matches Some(k) && json_equal(a@[i].1, c@[k].1)) by {
                lemma_member_position(b@, a@[i].0@);
                let j = member_position(b@, a@[i].0@)->Some_0;
                assert(b@[j].0@ == a@[i].0@);
                let k = member_position(c@, b@[j].0@)->Some_0;
                law_json_equality_is_transitive(a@[i].1, b@[j].1, c@[k].1);
            }
        },
        _ => {},
    }
}

} // verus!
