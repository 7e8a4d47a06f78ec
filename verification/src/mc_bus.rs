//! Buses, lists and connection nodes. Member access by dot and by curly
//! braces is the same thing (`DC2.VDD` is `DC2{VDD}`), and both resolve to
//! one [`McBus`].
use vstd::prelude::*;
use crate::mc_ida::{lemma_texts_push, texts};
use crate::strs::{copy_string, copy_strings, join_sep, join_sep_exec, strings_eq};
use crate::text::{owned, push_char, push_str, str_eq};

verus! {

/// Which mouth of a call a synthetic call sentinel stands for.
#[derive(Clone, Copy, PartialEq, Eq, Debug, Structural)]
pub enum IoSide {
    In,
    Out,
}

impl IoSide {
    /// The word of a side.
    pub open spec fn word_text(self) -> Seq<char> {
        match self {
            IoSide::In => "in"@,
            IoSide::Out => "out"@,
        }
    }

    /// The word the sentinel's own spelling carries (`<base>.in` /
    /// `<base>.out`).
    pub fn word(self) -> (r: &'static str)
        ensures
            r@ == self.word_text(),
    {
        match self {
            IoSide::In => "in",
            IoSide::Out => "out",
        }
    }

    /// The default face pin this side stands for on a two-pin part.
    pub fn pin(self) -> (r: &'static str)
        ensures
            r@ == (match self {
                IoSide::In => "1"@,
                IoSide::Out => "2"@,
            }),
    {
        match self {
            IoSide::In => "1",
            IoSide::Out => "2",
        }
    }
}

/// A bus or parameterised identifier with optional member access.
#[derive(Clone, Debug)]
pub struct McBus {
    pub name: String,
    pub member: Vec<String>,
    pub full_members: Vec<String>,
    /// The side a synthetic call sentinel stands for; `None` on every real
    /// bus. It records where the bus came from, not what the bus is, so it
    /// takes no part in equality.
    pub synthetic: Option<IoSide>,
}

/// Model of a bus.
pub struct BusModel {
    pub name: Seq<char>,
    pub member: Seq<Seq<char>>,
    pub full_members: Seq<Seq<char>>,
    pub synthetic: Option<IoSide>,
}

impl View for McBus {
    type V = BusModel;

    open spec fn view(&self) -> BusModel {
        BusModel {
            name: self.name@,
            member: texts(self.member@),
            full_members: texts(self.full_members@),
            synthetic: self.synthetic,
        }
    }
}

/// Two buses are the same node: same name, members and full members.
pub open spec fn same_bus(a: BusModel, b: BusModel) -> bool {
    a.name == b.name && a.member == b.member && a.full_members == b.full_members
}

impl PartialEq for McBus {
    fn eq(&self, other: &Self) -> (r: bool) {
        str_eq(self.name.as_str(), other.name.as_str()) && strings_eq(&self.member, &other.member)
            && strings_eq(&self.full_members, &other.full_members)
    }
}

impl Eq for McBus {

}

impl vstd::std_specs::cmp::PartialEqSpecImpl for McBus {
    open spec fn obeys_eq_spec() -> bool {
        true
    }

    open spec fn eq_spec(&self, other: &McBus) -> bool {
        same_bus(self@, other@)
    }
}

/// Text of a bus: its name, then `{m1,m2}` when it has members.
pub open spec fn bus_text(b: BusModel) -> Seq<char> {
    if b.member.len() == 0 {
        b.name
    } else {
        b.name + seq!['{'] + join_sep(b.member, seq![',']) + seq!['}']
    }
}

/// The diagnostic text of a bus: its name, then `{a, b}` over its full
/// member names when it has any.
pub open spec fn bus_debug_text(b: BusModel) -> Seq<char> {
    if b.full_members.len() == 0 {
        b.name
    } else {
        b.name + seq!['{'] + join_sep(b.full_members, ", "@) + seq!['}']
    }
}

impl McBus {
    /// The diagnostic text of the bus: `uC{uC.SDA, uC.SCL}`.
    pub fn debug_text(&self) -> (r: String)
        ensures
            r@ == bus_debug_text(self@),
    {
        if self.full_members.len() == 0 {
            return copy_string(&self.name);
        }
        let mut out = copy_string(&self.name);
        push_char(&mut out, '{');
        let j = join_sep_exec(self.full_members.as_slice(), ", ");
        push_str(&mut out, j.as_str());
        push_char(&mut out, '}');
        out
    }

    /// A bus with a name and no members.
    pub fn new(name: &str) -> (r: McBus)
        ensures
            r@ == (BusModel {
                name: name@,
                member: Seq::empty(),
                full_members: Seq::empty(),
                synthetic: None,
            }),
    {
        let r = McBus {
            name: owned(name),
            member: Vec::new(),
            full_members: Vec::new(),
            synthetic: None,
        };
        assert(texts(r.member@) =~= Seq::<Seq<char>>::empty());
        r
    }

    /// The `<base>.in` / `<base>.out` endpoint a call synthesizes when it has
    /// no caller: a sentinel with no identity that records its side.
    pub fn synthetic_io(base: &str, side: IoSide) -> (r: McBus)
        ensures
            r@ == (BusModel {
                name: base@ + seq!['.'] + side.word_text(),
                member: Seq::empty(),
                full_members: Seq::empty(),
                synthetic: Some(side),
            }),
    {
        let mut name = owned(base);
        push_char(&mut name, '.');
        push_str(&mut name, side.word());
        assert(name@ =~= base@ + seq!['.'] + side.word_text());
        let r = McBus { name, member: Vec::new(), full_members: Vec::new(), synthetic: Some(side) };
        assert(texts(r.member@) =~= Seq::<Seq<char>>::empty());
        assert(texts(r.full_members@) =~= Seq::<Seq<char>>::empty());
        r
    }

    /// Whether the bus is a synthetic call sentinel.
    pub fn is_synthetic(&self) -> (r: bool)
        ensures
            r == self.synthetic is Some,
    {
        self.synthetic.is_some()
    }

    /// The side a sentinel stands for; `None` on a real bus.
    pub fn synthetic_side(&self) -> (r: Option<IoSide>)
        ensures
            r == self.synthetic,
    {
        self.synthetic
    }

    /// A bus with the given members (also its full members).
    pub fn new_with_members(name: &str, members: Vec<String>) -> (r: McBus)
        ensures
            r@ == (BusModel {
                name: name@,
                member: texts(members@),
                full_members: texts(members@),
                synthetic: None,
            }),
    {
        let m = copy_strings(members.as_slice());
        McBus { name: owned(name), member: m, full_members: members, synthetic: None }
    }

    /// The bus name.
    pub fn name(&self) -> (r: &str)
        ensures
            r@ == self.name@,
    {
        self.name.as_str()
    }

    /// Prefix of the error buses kept out of netlist and editor output.
    pub const ERROR_PREFIX: &'static str = "<error:";

    /// Add a full member unless it is already there.
    pub fn add_member(&mut self, name: &str)
        ensures
            final(self)@.name == old(self)@.name,
            final(self)@.member == old(self)@.member,
            final(self)@.synthetic == old(self)@.synthetic,
            final(self)@.full_members == (if old(self)@.full_members.contains(name@) {
                old(self)@.full_members
            } else {
                old(self)@.full_members.push(name@)
            }),
    {
        let mut i: usize = 0;
        while i < self.full_members.len()
            invariant
                0 <= i <= self.full_members@.len(),
                forall|j: int| 0 <= j < i ==> self.full_members@[j]@ != name@,
            decreases self.full_members@.len() - i,
        {
            if str_eq(self.full_members[i].as_str(), name) {
                assert(texts(self.full_members@)[i as int] == name@);
                return;
            }
            i += 1;
        }
        proof {
            assert(!texts(self.full_members@).contains(name@)) by {
                if texts(self.full_members@).contains(name@) {
                    let k = choose|k: int| 0 <= k < texts(self.full_members@).len() && texts(self.full_members@)[k] == name@;
                    assert(self.full_members@[k]@ == name@);
                }
            }
        }
        let s = owned(name);
        proof {
            lemma_texts_push(self.full_members@, s);
        }
        self.full_members.push(s);
    }

    /// The full member list.
    pub fn get_full_members(&self) -> (r: &Vec<String>)
        ensures
            texts(r@) == self@.full_members,
    {
        &self.full_members
    }

    /// A reference to one member of a base.
    pub fn member_ref(base: &str, member: String) -> (r: McBus)
        ensures
            r@ == (BusModel {
                name: base@,
                member: seq![member@],
                full_members: seq![member@],
                synthetic: None,
            }),
    {
        let c = copy_string(&member);
        let mut m: Vec<String> = Vec::new();
        m.push(c);
        let mut f: Vec<String> = Vec::new();
        f.push(member);
        let r = McBus { name: owned(base), member: m, full_members: f, synthetic: None };
        assert(texts(r.member@) =~= seq![member@]);
        assert(texts(r.full_members@) =~= seq![member@]);
        r
    }

    /// Number of leaves: one for a bare bus, else the member count.
    pub fn size(&self) -> (r: usize)
        ensures
            r == (if self@.member.len() == 0 {
                1
            } else {
                self@.member.len()
            }),
    {
        if self.member.len() == 0 {
            1
        } else {
            self.member.len()
        }
    }

    /// A copy of the bus, provenance included.
    pub fn copy(&self) -> (r: McBus)
        ensures
            r@ == self@,
    {
        McBus {
            name: copy_string(&self.name),
            member: copy_strings(self.member.as_slice()),
            full_members: copy_strings(self.full_members.as_slice()),
            synthetic: self.synthetic,
        }
    }

    /// The bus text: the name, then `{m1,m2}` when it has members.
    pub fn to_string(&self) -> (r: String)
        ensures
            r@ == bus_text(self@),
    {
        if self.member.len() == 0 {
            return copy_string(&self.name);
        }
        let mut out = copy_string(&self.name);
        push_char(&mut out, '{');
        let j = join_sep_exec(self.member.as_slice(), ",");
        proof {
            reveal_strlit(",");
            assert(","@ =~= seq![',']);
        }
        push_str(&mut out, j.as_str());
        push_char(&mut out, '}');
        out
    }
}

impl From<&McBus> for Vec<McBus> {
    fn from(bus: &McBus) -> (r: Vec<McBus>)
        ensures
            r@.len() == 1,
            r@[0]@ == bus@,
    {
        let mut v: Vec<McBus> = Vec::new();
        v.push(bus.copy());
        v
    }
}

impl vstd::std_specs::convert::FromSpecImpl<&McBus> for Vec<McBus> {
    open spec fn obeys_from_spec() -> bool {
        false
    }

    open spec fn from_spec(v: &McBus) -> Vec<McBus> {
        choose|r: Vec<McBus>| #![trigger r@] r@.len() == 1 && r@[0]@ == v@
    }
}

impl From<McBus> for Vec<McBus> {
    fn from(bus: McBus) -> (r: Vec<McBus>)
        ensures
            r@ == seq![bus],
    {
        let mut v: Vec<McBus> = Vec::new();
        v.push(bus);
        v
    }
}

impl vstd::std_specs::convert::FromSpecImpl<McBus> for Vec<McBus> {
    open spec fn obeys_from_spec() -> bool {
        false
    }

    open spec fn from_spec(v: McBus) -> Vec<McBus> {
        choose|r: Vec<McBus>| #![trigger r@] r@ == seq![v]
    }
}

/// A list of identifiers, e.g. `[VDD1, GND1]`.
#[derive(Clone, Debug)]
pub struct McList {
    pub name: String,
    pub member: Vec<String>,
}

impl McList {
    /// A list with the given members.
    pub fn new_with_members(name: &str, members: Vec<String>) -> (r: McList)
        ensures
            r.name@ == name@,
            r.member@ == members@,
    {
        McList { name: owned(name), member: members }
    }

    /// The list name.
    pub fn name(&self) -> (r: &str)
        ensures
            r@ == self.name@,
    {
        self.name.as_str()
    }

    /// Append a member.
    pub fn add_member(&mut self, name: &str)
        ensures
            final(self).name@ == old(self).name@,
            texts(final(self).member@) == texts(old(self).member@).push(name@),
    {
        let s = owned(name);
        proof {
            lemma_texts_push(self.member@, s);
        }
        self.member.push(s);
    }
}

impl McList {
    /// The diagnostic text of the list: its name, then `[a, b]` over its
    /// members when it has any.
    pub fn debug_text(&self) -> (r: String)
        ensures
            r@ == (if self.member@.len() == 0 {
                self.name@
            } else {
                self.name@ + seq!['['] + join_sep(texts(self.member@), ", "@) + seq![']']
            }),
    {
        if self.member.len() == 0 {
            return copy_string(&self.name);
        }
        let mut out = copy_string(&self.name);
        push_char(&mut out, '[');
        let j = join_sep_exec(self.member.as_slice(), ", ");
        push_str(&mut out, j.as_str());
        push_char(&mut out, ']');
        out
    }
}

/// The two ends of a connection.
#[derive(Clone, Debug)]
pub struct McNode(pub McBus, pub McBus);

impl McNode {
    /// The diagnostic text of the node: both ends' texts around ` ~ `.
    pub fn debug_text(&self) -> (r: String)
        ensures
            r@ == bus_debug_text(self.0@) + " ~ "@ + bus_debug_text(self.1@),
    {
        let mut out = self.0.debug_text();
        push_str(&mut out, " ~ ");
        let right = self.1.debug_text();
        push_str(&mut out, right.as_str());
        out
    }
}

/// The bus a run of elements merges into: a placeholder for none, the
/// element itself for one, else the first name with every member.
pub open spec fn merged_bus(e: Seq<BusModel>) -> BusModel {
    if e.len() == 0 {
        BusModel { name: "<empty>"@, member: seq![], full_members: seq![], synthetic: None }
    } else if e.len() == 1 {
        e[0]
    } else {
        BusModel {
            name: e[0].name,
            member: all_members(e),
            full_members: all_members(e),
            synthetic: None,
        }
    }
}

/// Every member of a run of buses, in order.
pub open spec fn all_members(e: Seq<BusModel>) -> Seq<Seq<char>>
    decreases e.len(),
{
    if e.len() == 0 {
        seq![]
    } else {
        all_members(e.drop_last()) + e.last().member
    }
}

/// The number of members of a run of buses, all told.
pub open spec fn member_total(e: Seq<BusModel>) -> nat
    decreases e.len(),
{
    if e.len() == 0 {
        0
    } else {
        member_total(e.drop_last()) + e.last().member.len()
    }
}

/// Merging collects every member of every element in element order: the
/// merge of two elements has the first's members then the second's, adding
/// an element to a run of two or more appends that element's members, the
/// name is the first element's, and the member count is the sum of the
/// elements' counts.
pub proof fn merge_collects_every_member(e: Seq<BusModel>, b: BusModel)
    ensures
        e.len() == 1 ==> merged_bus(e.push(b)).member == e[0].member + b.member,
        e.len() >= 2 ==> merged_bus(e.push(b)).member == merged_bus(e).member + b.member,
        e.len() >= 1 ==> merged_bus(e.push(b)).name == e[0].name,
        e.len() >= 1 ==> merged_bus(e.push(b)).member.len() == member_total(e.push(b)),
        e.len() >= 1 ==> merged_bus(e.push(b)).full_members == merged_bus(e.push(b)).member,
        merged_bus(seq![b]) == b,
        merged_bus(seq![]).member.len() == 0,
    decreases e.len(),
{
    let f = e.push(b);
    assert(f.drop_last() =~= e);
    if e.len() >= 1 {
        assert(f[0] == e[0]);
    }
    if e.len() == 1 {
        assert(e.drop_last() =~= Seq::<BusModel>::empty());
        assert(all_members(e) == all_members(e.drop_last()) + e.last().member);
        assert(all_members(e) =~= e[0].member);
    }
    lemma_all_members_total(f);
}

proof fn lemma_all_members_total(e: Seq<BusModel>)
    ensures
        all_members(e).len() == member_total(e),
    decreases e.len(),
{
    if e.len() > 0 {
        lemma_all_members_total(e.drop_last());
    }
}

/// The models of a list of buses.
pub open spec fn bus_models(v: Seq<McBus>) -> Seq<BusModel> {
    v.map_values(|b: McBus| b@)
}

impl McNode {
    /// A node from its two ends.
    pub fn new(left: McBus, right: McBus) -> (r: McNode)
        ensures
            r.0 == left,
            r.1 == right,
    {
        McNode(left, right)
    }

    /// The left end.
    pub fn left(&self) -> (r: &McBus)
        ensures
            *r == self.0,
    {
        &self.0
    }

    /// The right end.
    pub fn right(&self) -> (r: &McBus)
        ensures
            *r == self.1,
    {
        &self.1
    }

    /// A node whose ends merge the left and the right elements.
    pub fn from_left_right(left_elems: &[McBus], right_elems: &[McBus]) -> (r: McNode)
        ensures
            r.0@ == merged_bus(bus_models(left_elems@)),
            r.1@ == merged_bus(bus_models(right_elems@)),
    {
        let l = Self::elements_to_bus(left_elems);
        let rb = Self::elements_to_bus(right_elems);
        McNode(l, rb)
    }

    /// A node from one element list: nothing gives two placeholders, one
    /// element passes through (its members kept), more split in half, the
    /// first half merged into the left end and the rest into the right.
    pub fn from_node_elements(elements: &[McBus]) -> (r: McNode)
        ensures
            elements@.len() == 0 ==> r.0@ == merged_bus(seq![]) && r.1@ == merged_bus(seq![]),
            elements@.len() == 1 ==> {
                let b = BusModel {
                    name: elements@[0]@.name,
                    member: elements@[0]@.member,
                    full_members: elements@[0]@.member,
                    synthetic: None,
                };
                r.0@ == b && r.1@ == b
            },
            elements@.len() > 1 ==> {
                let mid = elements@.len() / 2;
                &&& r.0@ == merged_bus(bus_models(elements@.take(mid as int)))
                &&& r.1@ == merged_bus(bus_models(elements@.skip(mid as int)))
            },
    {
        if elements.len() == 0 {
            return McNode(McBus::new("<empty>"), McBus::new("<empty>"));
        }
        if elements.len() == 1 {
            let elem = &elements[0];
            let bus = McBus::new_with_members(elem.name.as_str(), copy_strings(elem.member.as_slice()));
            let b2 = bus.copy();
            return McNode(bus, b2);
        }
        let mid = elements.len() / 2;
        let left = crate::mc_bus::sub_buses(elements, 0, mid);
        let right = crate::mc_bus::sub_buses(elements, mid, elements.len());
        assert(bus_models(left@) =~= bus_models(elements@.take(mid as int)));
        assert(bus_models(right@) =~= bus_models(elements@.skip(mid as int)));
        let l = Self::elements_to_bus(left.as_slice());
        let rb = Self::elements_to_bus(right.as_slice());
        McNode(l, rb)
    }

    fn elements_to_bus(elems: &[McBus]) -> (r: McBus)
        ensures
            r@ == merged_bus(bus_models(elems@)),
    {
        if elems.len() == 0 {
            return McBus::new("<empty>");
        }
        if elems.len() == 1 {
            return elems[0].copy();
        }
        let mut members: Vec<String> = Vec::new();
        let mut i: usize = 0;
        while i < elems.len()
            invariant
                0 <= i <= elems@.len(),
                texts(members@) == all_members(bus_models(elems@.take(i as int))),
            decreases elems@.len() - i,
        {
            let ghost before = texts(members@);
            let mut k: usize = 0;
            while k < elems[i].member.len()
                invariant
                    0 <= k <= elems@[i as int].member@.len(),
                    i < elems@.len(),
                    texts(members@) == before + texts(elems@[i as int].member@).take(k as int),
                decreases elems@[i as int].member@.len() - k,
            {
                let s = copy_string(&elems[i].member[k]);
                proof {
                    lemma_texts_push(members@, s);
                    assert(texts(elems@[i as int].member@).take(k + 1) =~= texts(
                        elems@[i as int].member@,
                    ).take(k as int).push(s@));
                }
                members.push(s);
                k += 1;
            }
            proof {
                assert(texts(elems@[i as int].member@).take(elems@[i as int].member@.len() as int)
                    =~= texts(elems@[i as int].member@));
                assert(bus_models(elems@.take(i + 1)).drop_last() =~= bus_models(
                    elems@.take(i as int),
                ));
                assert(bus_models(elems@.take(i + 1)).last() == elems@[i as int]@);
            }
            i += 1;
        }
        assert(elems@.take(elems@.len() as int) =~= elems@);
        McBus::new_with_members(elems[0].name.as_str(), members)
    }
}

/// Copies of the buses from `a` to `b`.
fn sub_buses(v: &[McBus], a: usize, b: usize) -> (r: Vec<McBus>)
    requires
        a <= b <= v@.len(),
    ensures
        bus_models(r@) == bus_models(v@.subrange(a as int, b as int)),
{
    let mut out: Vec<McBus> = Vec::new();
    let mut i = a;
    while i < b
        invariant
            a <= i <= b <= v@.len(),
            bus_models(out@) == bus_models(v@.subrange(a as int, i as int)),
        decreases b - i,
    {
        let c = v[i].copy();
        let ghost old = out@;
        out.push(c);
        assert(bus_models(out@) =~= bus_models(old).push(c@));
        assert(bus_models(v@.subrange(a as int, i + 1)) =~= bus_models(v@.subrange(a as int, i as int)).push(v@[i as int]@));
        i += 1;
    }
    out
}

impl From<McNode> for Vec<McBus> {
    fn from(node: McNode) -> (r: Vec<McBus>)
        ensures
            r@ == seq![node.0, node.1],
    {
        let mut v: Vec<McBus> = Vec::new();
        v.push(node.0);
        v.push(node.1);
        v
    }
}

impl vstd::std_specs::convert::FromSpecImpl<McNode> for Vec<McBus> {
    open spec fn obeys_from_spec() -> bool {
        false
    }

    open spec fn from_spec(v: McNode) -> Vec<McBus> {
        choose|r: Vec<McBus>| #![trigger r@] r@ == seq![v.0, v.1]
    }
}

impl From<&McNode> for Vec<McBus> {
    fn from(node: &McNode) -> (r: Vec<McBus>)
        ensures
            r@.len() == 2,
            r@[0]@ == node.0@,
            r@[1]@ == node.1@,
    {
        let mut v: Vec<McBus> = Vec::new();
        v.push(node.0.copy());
        v.push(node.1.copy());
        v
    }
}

impl vstd::std_specs::convert::FromSpecImpl<&McNode> for Vec<McBus> {
    open spec fn obeys_from_spec() -> bool {
        false
    }

    open spec fn from_spec(v: &McNode) -> Vec<McBus> {
        choose|r: Vec<McBus>| #![trigger r@] r@.len() == 2 && r@[0]@ == v.0@ && r@[1]@ == v.1@
    }
}


/// Provenance is not identity: a call sentinel equals the plain bus of the
/// same name and members, whatever side it records.
pub proof fn lemma_sentinel_is_plain_bus(base: Seq<char>, side: IoSide)
    ensures
        same_bus(
            BusModel {
                name: base + seq!['.'] + side.word_text(),
                member: Seq::empty(),
                full_members: Seq::empty(),
                synthetic: Some(side),
            },
            BusModel {
                name: base + seq!['.'] + side.word_text(),
                member: Seq::empty(),
                full_members: Seq::empty(),
                synthetic: None,
            },
        ),
{
}

/// Bus equality is an equivalence: reflexive, symmetric and transitive.
pub proof fn lemma_same_bus_equivalence(a: BusModel, b: BusModel, c: BusModel)
    ensures
        same_bus(a, a),
        same_bus(a, b) == same_bus(b, a),
        same_bus(a, b) && same_bus(b, c) ==> same_bus(a, c),
{
}
} // verus!
