//! Settings that are carried by name.

use std::sync::Arc;

use vstd::prelude::*;

use crate::scalar::Scalar;

verus! {

/// The value of a named setting.
#[derive(Debug)]
pub enum Value {
    Absent,
    Flag(bool),
    /// A number, whole or not: `1` and `1.0` are one number.
    Number(Scalar),
    Text(String),
    /// A list or a record, written out.
    Nested(String),
}

/// A named setting.
#[derive(Debug)]
pub struct Setting {
    pub name: String,
    pub value: Value,
}

/// Named settings, in the order that their owner keeps them in. Copies share one list.
#[derive(Debug)]
pub struct Settings {
    entries: Arc<Vec<Setting>>,
}

impl Value {
    /// Whether the two are the same value, numbers compared as numbers.
    pub open spec fn same_value(self, other: Value) -> bool {
        match (self, other) {
            (Value::Absent, Value::Absent) => true,
            (Value::Flag(a), Value::Flag(b)) => a == b,
            (Value::Number(a), Value::Number(b)) => a.same_number(b),
            (Value::Text(a), Value::Text(b)) => a@ == b@,
            (Value::Nested(a), Value::Nested(b)) => a@ == b@,
            _ => false,
        }
    }
}

impl PartialEq for Value {
    fn eq(&self, other: &Value) -> (r: bool) {
        match (self, other) {
            (Value::Absent, Value::Absent) => true,
            (Value::Flag(a), Value::Flag(b)) => *a == *b,
            (Value::Number(a), Value::Number(b)) => *a == *b,
            (Value::Text(a), Value::Text(b)) => *a == *b,
            (Value::Nested(a), Value::Nested(b)) => *a == *b,
            _ => false,
        }
    }
}

impl vstd::std_specs::cmp::PartialEqSpecImpl for Value {
    open spec fn obeys_eq_spec() -> bool {
        true
    }

    open spec fn eq_spec(&self, other: &Value) -> bool {
        self.same_value(*other)
    }
}

impl Setting {
    /// Whether the two have one name and one value.
    pub open spec fn same_setting(self, other: Setting) -> bool {
        self.name@ == other.name@ && self.value.same_value(other.value)
    }
}

impl View for Settings {
    type V = Seq<Setting>;

    closed spec fn view(&self) -> Seq<Setting> {
        (*self.entries)@
    }
}

impl Settings {
    /// Whether the two hold the same settings in the same order.
    pub open spec fn agrees_with(self, other: Settings) -> bool {
        &&& self@.len() == other@.len()
        &&& forall|i: int| 0 <= i < self@.len() ==> (#[trigger] self@[i]).same_setting(other@[i])
    }

    /// Whether no number among the settings is not-a-number.
    pub open spec fn is_numeric(self) -> bool {
        forall|i: int| 0 <= i < self@.len() ==> (#[trigger] self@[i]).value != Value::Number(Scalar::NotANumber)
    }

    /// No settings.
    pub fn none() -> (r: Settings)
        ensures
            r@.len() == 0,
    {
        Settings { entries: Arc::new(Vec::new()) }
    }

    /// These settings.
    pub fn of(entries: Vec<Setting>) -> (r: Settings)
        ensures
            r@ == entries@,
    {
        Settings { entries: Arc::new(entries) }
    }

    /// The settings, in order.
    pub fn entries(&self) -> (r: &Vec<Setting>)
        ensures
            r@ == self@,
    {
        &*self.entries
    }
}

impl Clone for Settings {
    fn clone(&self) -> (r: Settings)
        ensures
            r == *self,
    {
        Settings { entries: self.entries.clone() }
    }
}

impl PartialEq for Settings {
    fn eq(&self, other: &Settings) -> (r: bool) {
        let ours = self.entries();
        let theirs = other.entries();
        if ours.len() != theirs.len() {
            return false;
        }
        for i in 0..ours.len()
            invariant
                ours@ == self@,
                theirs@ == other@,
                ours@.len() == theirs@.len(),
                forall|j: int| 0 <= j < i ==> (#[trigger] ours@[j]).same_setting(theirs@[j]),
        {
            if !(ours[i].name == theirs[i].name && ours[i].value == theirs[i].value) {
                assert(!ours@[i as int].same_setting(theirs@[i as int]));
                return false;
            }
        }
        true
    }
}

impl vstd::std_specs::cmp::PartialEqSpecImpl for Settings {
    open spec fn obeys_eq_spec() -> bool {
        true
    }

    open spec fn eq_spec(&self, other: &Settings) -> bool {
        self.agrees_with(*other)
    }
}

/// Two values are the same exactly when they are of one kind and hold the same flag, the same
/// number or the same text: nothing of one kind is ever the same as something of another.
pub proof fn values_are_the_same_exactly_when(a: Value, b: Value)
    ensures
        a.same_value(b) <==> {
            ||| a is Absent && b is Absent
            ||| exists|flag: bool| a == Value::Flag(flag) && b == Value::Flag(flag)
            ||| exists|x: Scalar, y: Scalar|
                a == Value::Number(x) && b == Value::Number(y) && #[trigger] x.same_number(y)
            ||| exists|s: String, t: String|
                a == Value::Text(s) && b == Value::Text(t) && #[trigger] s@ == #[trigger] t@
            ||| exists|s: String, t: String|
                a == Value::Nested(s) && b == Value::Nested(t) && #[trigger] s@ == #[trigger] t@
        },
{
    match (a, b) {
        (Value::Flag(x), Value::Flag(y)) => {
            if x == y {
                assert(a == Value::Flag(x) && b == Value::Flag(x));
            }
        },
        (Value::Number(x), Value::Number(y)) => {
            assert(x.same_number(y) ==> a.same_value(b));
        },
        (Value::Text(s), Value::Text(t)) => {
            assert(s@ == t@ ==> a.same_value(b));
        },
        (Value::Nested(s), Value::Nested(t)) => {
            assert(s@ == t@ ==> a.same_value(b));
        },
        _ => {},
    }
}

/// Two lists of settings agree exactly when they are as long, and each setting has the name and
/// the value of the one that stands in its place.
pub proof fn settings_agree_exactly_when(a: Settings, b: Settings)
    ensures
        a.agrees_with(b) <==> {
            &&& a@.len() == b@.len()
            &&& forall|i: int|
                0 <= i < a@.len() ==> (#[trigger] a@[i]).name@ == b@[i].name@ && a@[i].value.same_value(
                    b@[i].value,
                )
        },
{
    if a.agrees_with(b) {
        assert forall|i: int| 0 <= i < a@.len() implies (#[trigger] a@[i]).name@ == b@[i].name@
            && a@[i].value.same_value(b@[i].value) by {
            assert(a@[i].same_setting(b@[i]));
        }
    }
}

/// A list of settings agrees with itself exactly when every number in it is one.
pub proof fn settings_agree_with_themselves(a: Settings)
    ensures
        a.agrees_with(a) <==> forall|i: int|
            0 <= i < a@.len() ==> (#[trigger] a@[i]).value != Value::Number(Scalar::NotANumber),
        a.is_numeric() <==> a.agrees_with(a),
{
    settings_agree_exactly_when(a, a);
    assert forall|i: int| 0 <= i < a@.len() implies ((#[trigger] a@[i]).value.same_value(a@[i].value)
        <==> a@[i].value != Value::Number(Scalar::NotANumber)) by {
        match a@[i].value {
            Value::Number(x) => {
                crate::scalar::equality_is_an_equivalence(x, x, x);
            },
            _ => {},
        }
    }
}

/// Settings hold what they were made of, in order, and a copy holds what it was copied from.
pub proof fn settings_hold_what_they_were_given(
    given: Vec<Setting>,
    made: Settings,
    shown: &Vec<Setting>,
    copy: Settings,
    nothing: Settings,
)
    requires
        call_ensures(Settings::of, (given,), made),
        call_ensures(Settings::entries, (&made,), shown),
        call_ensures(Settings::clone, (&made,), copy),
        call_ensures(Settings::none, (), nothing),
    ensures
        shown@ == given@,
        made@ == given@,
        copy@ == given@,
        nothing@.len() == 0,
{
}

} // verus!
