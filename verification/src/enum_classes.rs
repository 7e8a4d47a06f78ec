//! The enum classes a design may bind: each class (`CAP`, `PKG`) with the
//! member names it admits (`X7R`, `C0402`). Argument binding reads it to
//! tell an enum member from a plain name and to check enum values.
use vstd::prelude::*;
use crate::mc_ida::texts;
use crate::text::str_eq;

verus! {

/// One enum class: its name and its members, in declaration order.
#[derive(Debug)]
pub struct EnumClassDef {
    pub name: String,
    pub members: Vec<String>,
}

/// The enum classes known to a build, in registration order.
#[derive(Debug)]
pub struct EnumClasses {
    pub classes: Vec<EnumClassDef>,
}

/// A class as its name and member names.
pub open spec fn class_model(c: EnumClassDef) -> (Seq<char>, Seq<Seq<char>>) {
    (c.name@, texts(c.members@))
}

impl View for EnumClasses {
    type V = Seq<(Seq<char>, Seq<Seq<char>>)>;

    open spec fn view(&self) -> Seq<(Seq<char>, Seq<Seq<char>>)> {
        self.classes@.map_values(|c: EnumClassDef| class_model(c))
    }
}

/// Whether some class is named `name`.
pub open spec fn is_class(c: Seq<(Seq<char>, Seq<Seq<char>>)>, name: Seq<char>) -> bool {
    exists|i: int| 0 <= i < c.len() && (#[trigger] c[i]).0 == name
}

/// The index of the first class listing `member`, or the class count.
pub open spec fn first_class_of(c: Seq<(Seq<char>, Seq<Seq<char>>)>, member: Seq<char>, i: int) -> int
    decreases c.len() - i,
{
    if i < 0 || i >= c.len() {
        c.len() as int
    } else if c[i].1.contains(member) {
        i
    } else {
        first_class_of(c, member, i + 1)
    }
}

/// The class a bare member name belongs to: the first class listing it.
pub open spec fn class_of_member(c: Seq<(Seq<char>, Seq<Seq<char>>)>, member: Seq<char>) -> Option<
    Seq<char>,
> {
    let k = first_class_of(c, member, 0);
    if k < c.len() {
        Some(c[k].0)
    } else {
        None
    }
}

/// Whether a class named `class` lists `value`.
pub open spec fn is_member(c: Seq<(Seq<char>, Seq<Seq<char>>)>, class: Seq<char>, value: Seq<char>) -> bool {
    exists|i: int| 0 <= i < c.len() && (#[trigger] c[i]).0 == class && c[i].1.contains(value)
}

proof fn lemma_first_class_of(c: Seq<(Seq<char>, Seq<Seq<char>>)>, member: Seq<char>, i: int)
    requires
        0 <= i <= c.len(),
    ensures
        i <= first_class_of(c, member, i) <= c.len(),
        first_class_of(c, member, i) < c.len() ==> c[first_class_of(c, member, i)].1.contains(member),
        forall|j: int| i <= j < first_class_of(c, member, i) ==> !(#[trigger] c[j]).1.contains(member),
    decreases c.len() - i,
{
    if i < c.len() && !c[i].1.contains(member) {
        lemma_first_class_of(c, member, i + 1);
    }
}

/// Whether `v` lists `s`.
fn lists(v: &Vec<String>, s: &str) -> (r: bool)
    ensures
        r == texts(v@).contains(s@),
{
    let mut i: usize = 0;
    while i < v.len()
        invariant
            0 <= i <= v@.len(),
            forall|j: int| 0 <= j < i ==> v@[j]@ != s@,
        decreases v@.len() - i,
    {
        if str_eq(v[i].as_str(), s) {
            assert(texts(v@)[i as int] == s@);
            return true;
        }
        i += 1;
    }
    assert forall|j: int| 0 <= j < texts(v@).len() implies texts(v@)[j] != s@ by {
        assert(texts(v@)[j] == v@[j]@);
    }
    false
}

impl EnumClasses {
    /// No class.
    pub fn new() -> (r: EnumClasses)
        ensures
            r@.len() == 0,
    {
        EnumClasses { classes: Vec::new() }
    }

    /// Register a class with its members after the existing ones.
    pub fn add(&mut self, name: &str, members: &[&str])
        ensures
            final(self)@ == old(self)@.push((name@, members@.map_values(|m: &str| m@))),
    {
        let mut ms: Vec<String> = Vec::new();
        let mut i: usize = 0;
        while i < members.len()
            invariant
                0 <= i <= members@.len(),
                texts(ms@) == members@.take(i as int).map_values(|m: &str| m@),
            decreases members@.len() - i,
        {
            let ghost before = ms@;
            ms.push(members[i].to_string());
            assert(texts(ms@) =~= texts(before).push(members@[i as int]@));
            assert(members@.take(i + 1) =~= members@.take(i as int).push(members@[i as int]));
            i += 1;
        }
        assert(members@.take(members@.len() as int) =~= members@);
        let c = EnumClassDef { name: name.to_string(), members: ms };
        let ghost before = self@;
        self.classes.push(c);
        assert(self@ =~= before.push((name@, members@.map_values(|m: &str| m@))));
    }

    /// Whether `name` is the name of a known enum class.
    pub fn is_enum_class_name(&self, name: &str) -> (r: bool)
        ensures
            r == is_class(self@, name@),
    {
        let mut i: usize = 0;
        while i < self.classes.len()
            invariant
                0 <= i <= self.classes@.len(),
                forall|j: int| 0 <= j < i ==> (#[trigger] self@[j]).0 != name@,
            decreases self.classes@.len() - i,
        {
            if str_eq(self.classes[i].name.as_str(), name) {
                assert(self@[i as int].0 == name@);
                return true;
            }
            i += 1;
        }
        false
    }

    /// The class a bare member name belongs to (`X7R` gives `CAP`): the
    /// first class listing it.
    pub fn resolve_bare_enum_value(&self, member: &str) -> (r: Option<String>)
        ensures
            match r {
                Some(c) => class_of_member(self@, member@) == Some(c@),
                None => class_of_member(self@, member@) is None,
            },
    {
        let mut i: usize = 0;
        proof {
            lemma_first_class_of(self@, member@, 0);
        }
        while i < self.classes.len()
            invariant
                0 <= i <= self.classes@.len(),
                first_class_of(self@, member@, 0) == first_class_of(self@, member@, i as int),
            decreases self.classes@.len() - i,
        {
            if lists(&self.classes[i].members, member) {
                assert(self@[i as int].1.contains(member@));
                return Some(self.classes[i].name.clone());
            }
            i += 1;
        }
        None
    }

    /// Whether the class named `class` lists `value`.
    pub fn is_enum_member(&self, class: &str, value: &str) -> (r: bool)
        ensures
            r == is_member(self@, class@, value@),
    {
        let mut i: usize = 0;
        while i < self.classes.len()
            invariant
                0 <= i <= self.classes@.len(),
                forall|j: int|
                    0 <= j < i ==> !((#[trigger] self@[j]).0 == class@ && self@[j].1.contains(value@)),
            decreases self.classes@.len() - i,
        {
            if str_eq(self.classes[i].name.as_str(), class) && lists(&self.classes[i].members, value) {
                assert(self@[i as int].0 == class@ && self@[i as int].1.contains(value@));
                return true;
            }
            i += 1;
        }
        false
    }
}

} // verus!
