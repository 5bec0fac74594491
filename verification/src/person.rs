//! A person with a name and an age, who can greet and be renamed.

use vstd::prelude::*;

use crate::decimal::{i32_to_string, int_decimal};

verus! {

/// What a `Person` holds: the characters of the name and the age.
pub struct PersonView {
    pub name: Seq<char>,
    pub age: i32,
}

#[derive(Debug)]
pub struct Person {
    name: String,
    age: i32,
}

impl View for Person {
    type V = PersonView;

    closed spec fn view(&self) -> PersonView {
        PersonView { name: self.name@, age: self.age }
    }
}

/// What a person says when greeting: `I'm ` and the name.
pub open spec fn greeting(name: Seq<char>) -> Seq<char> {
    seq!['I', '\'', 'm', ' '] + name
}

/// How a person is displayed: `Person(<name>, <age>)`.
pub open spec fn person_text(p: PersonView) -> Seq<char> {
    seq!['P', 'e', 'r', 's', 'o', 'n', '('] + p.name + seq![',', ' '] + int_decimal(p.age as int)
        + seq![')']
}

impl Person {
    /// A person with the given name and age.
    pub fn new(name: String, age: i32) -> (p: Person)
        ensures
            p@ == (PersonView { name: name@, age }),
    {
        Person { name, age }
    }

    /// The greeting `I'm <name>`.
    pub fn say_hi(&self) -> (s: String)
        ensures
            s@ == greeting(self@.name),
    {
        proof {
            reveal_strlit("I'm ");
        }
        let mut s = String::new();
        s.append("I'm ");
        s.append(self.name.as_str());
        assert(s@ =~= greeting(self@.name));
        s
    }

    /// Gives the person a new name; the age stays.
    pub fn change_name(&mut self, name: String)
        ensures
            final(self)@ == (PersonView { name: name@, age: old(self)@.age }),
    {
        self.name = name;
    }

    /// The text `Person(<name>, <age>)`, as the person is displayed.
    pub fn to_string(&self) -> (s: String)
        ensures
            s@ == person_text(self@),
    {
        proof {
            reveal_strlit("Person(");
            reveal_strlit(", ");
            reveal_strlit(")");
        }
        let mut s = String::new();
        s.append("Person(");
        s.append(self.name.as_str());
        s.append(", ");
        let age = i32_to_string(self.age);
        s.append(age.as_str());
        s.append(")");
        assert(s@ =~= person_text(self@));
        s
    }

    /// The name.
    pub fn name(&self) -> (n: &str)
        ensures
            n@ == self@.name,
    {
        self.name.as_str()
    }

    /// The age.
    pub fn age(&self) -> (a: i32)
        ensures
            a == self@.age,
    {
        self.age
    }
}

/// Renaming a person changes only the name: after `change_name(name)` the
/// person greets with the new name and is displayed with the new name and the
/// old age.
pub proof fn lemma_rename_greets_new_name(before: PersonView, after: PersonView, name: Seq<char>)
    requires
        after == (PersonView { name, age: before.age }),
    ensures
        greeting(after.name) == greeting(name),
        after.age == before.age,
        person_text(after) == person_text(PersonView { name, age: before.age }),
{
}

/// Two people with different names greet differently.
pub proof fn lemma_greeting_injective(a: Seq<char>, b: Seq<char>)
    requires
        greeting(a) == greeting(b),
    ensures
        a == b,
{
    assert(a =~= greeting(a).skip(4));
    assert(b =~= greeting(b).skip(4));
}

} // verus!
