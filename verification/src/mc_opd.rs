//! Operands of a connection statement: an identifier, `this`, `pins`, or
//! the underscore placeholder.
use vstd::prelude::*;
use crate::mc_ida::texts;
use crate::mc_ids::{ids_expand, ids_len, ids_text, IdsSegModel, McIds};
use crate::text::{owned, str_eq};

verus! {

/// An operand.
#[derive(Debug)]
pub enum McOpd {
    Id(McIds),
    This(McIds),
    Pins(McIds),
    Uscore,
}

/// Model of an operand.
pub enum OpdModel {
    Id(Seq<IdsSegModel>),
    This(Seq<IdsSegModel>),
    Pins(Seq<IdsSegModel>),
    Uscore,
}

impl View for McOpd {
    type V = OpdModel;

    open spec fn view(&self) -> OpdModel {
        match self {
            McOpd::Id(i) => OpdModel::Id(i@),
            McOpd::This(i) => OpdModel::This(i@),
            McOpd::Pins(i) => OpdModel::Pins(i@),
            McOpd::Uscore => OpdModel::Uscore,
        }
    }
}

/// The identifier an operand names, if any.
pub open spec fn opd_ids(o: OpdModel) -> Option<Seq<IdsSegModel>> {
    match o {
        OpdModel::Id(i) => Some(i),
        OpdModel::This(i) => Some(i),
        OpdModel::Pins(i) => Some(i),
        OpdModel::Uscore => None,
    }
}

/// Text of an operand: its identifier's text, or `_`.
pub open spec fn opd_text(o: OpdModel) -> Seq<char> {
    match opd_ids(o) {
        Some(i) => ids_text(i),
        None => seq!['_'],
    }
}

impl McOpd {
    /// A deep copy.
    pub fn copy(&self) -> (r: McOpd)
        ensures
            r@ == self@,
    {
        match self {
            McOpd::Id(i) => McOpd::Id(i.copy()),
            McOpd::This(i) => McOpd::This(i.copy()),
            McOpd::Pins(i) => McOpd::Pins(i.copy()),
            McOpd::Uscore => McOpd::Uscore,
        }
    }

    /// Expanded names: the identifier's expansion; none for `_`.
    pub fn expand(&self) -> (r: Vec<String>)
        ensures
            texts(r@) == (match opd_ids(self@) {
                Some(i) => ids_expand(i),
                None => Seq::<Seq<char>>::empty(),
            }),
    {
        match self {
            McOpd::Id(id) => id.expand(),
            McOpd::This(t) => t.expand(),
            McOpd::Pins(p) => p.expand(),
            McOpd::Uscore => {
                let v: Vec<String> = Vec::new();
                assert(texts(v@) =~= Seq::<Seq<char>>::empty());
                v
            },
        }
    }

    /// Member operands: no operand kind has any.
    pub fn get_members(&self) -> (r: Vec<&McOpd>)
        ensures
            r@.len() == 0,
    {
        Vec::new()
    }

    /// The operand as a one-entry text list (for anonymous parameters).
    pub fn to_string_list(&self) -> (r: Option<Vec<String>>)
        ensures
            r matches Some(v) && texts(v@) == seq![opd_text(self@)],
    {
        let s = self.to_string();
        let mut v: Vec<String> = Vec::new();
        v.push(s);
        assert(texts(v@) =~= seq![opd_text(self@)]);
        Some(v)
    }

    /// Whether the operand names `target`: one of the identifier's expanded
    /// names, or `_` for the placeholder.
    pub fn match_name(&self, target: &str) -> (r: bool)
        ensures
            r == (match opd_ids(self@) {
                Some(i) => ids_expand(i).contains(target@),
                None => target@ == seq!['_'],
            }),
    {
        match self {
            McOpd::Id(n) => n.match_name(target),
            McOpd::This(n) => n.match_name(target),
            McOpd::Pins(n) => n.match_name(target),
            McOpd::Uscore => {
                proof {
                    reveal_strlit("_");
                    assert("_"@ =~= seq!['_']);
                }
                str_eq(target, "_")
            },
        }
    }

    /// Text of the operand.
    pub fn to_string(&self) -> (r: String)
        ensures
            r@ == opd_text(self@),
    {
        match self {
            McOpd::Id(s) => s.to_string(),
            McOpd::This(s) => s.to_string(),
            McOpd::Pins(s) => s.to_string(),
            McOpd::Uscore => {
                proof {
                    reveal_strlit("_");
                    assert("_"@ =~= seq!['_']);
                }
                owned("_")
            },
        }
    }

    /// Length of the identifier ([`McIds::len`]); 0 for `_`.
    pub fn len(&self) -> (r: usize)
        requires
            opd_ids(self@) matches Some(i) ==> ids_len(i) <= usize::MAX,
        ensures
            r == (match opd_ids(self@) {
                Some(i) => ids_len(i),
                None => 0,
            }),
    {
        match self {
            McOpd::Id(s) => s.len(),
            McOpd::This(s) => s.len(),
            McOpd::Pins(s) => s.len(),
            McOpd::Uscore => 0,
        }
    }

    /// An identifier operand from its text.
    pub fn from(s: &str) -> (r: McOpd)
        ensures
            r@ == OpdModel::Id(seq![IdsSegModel::Ida(crate::mc_ida::parse_ida(s@))]),
    {
        McOpd::Id(McIds::from(s))
    }
}

} // verus!
