use vstd::prelude::*;

use crate::text::{text_eq, text_of};

verus! {

/// One labelled cell of a record.
#[derive(Debug)]
pub struct Field {
    pub label: String,
    pub value: String,
}

/// A row of the sheet read as label/value pairs. A label given twice takes
/// the value given last, as an insertion into a map would.
#[derive(Debug)]
pub struct Record {
    pub fields: Vec<Field>,
}

/// The label/value pairs of `fields`, in order.
pub open spec fn pairs_of(fields: Seq<Field>) -> Seq<(Seq<char>, Seq<char>)> {
    fields.map_values(|f: Field| (f.label@, f.value@))
}

/// The map built by inserting the pairs of `ps` from first to last.
pub open spec fn map_of(ps: Seq<(Seq<char>, Seq<char>)>) -> Map<Seq<char>, Seq<char>>
    decreases ps.len(),
{
    if ps.len() == 0 {
        Map::empty()
    } else {
        map_of(ps.drop_last()).insert(ps.last().0, ps.last().1)
    }
}

/// The value under `label`, or the empty string where there is none.
pub open spec fn field_or_empty(m: Map<Seq<char>, Seq<char>>, label: Seq<char>) -> Seq<char> {
    if m.contains_key(label) {
        m[label]
    } else {
        Seq::empty()
    }
}

impl Record {
    pub open spec fn pairs(&self) -> Seq<(Seq<char>, Seq<char>)> {
        pairs_of(self.fields@)
    }
}

impl View for Record {
    type V = Map<Seq<char>, Seq<char>>;

    open spec fn view(&self) -> Map<Seq<char>, Seq<char>> {
        map_of(self.pairs())
    }
}

/// The view of each record of `rs`.
pub open spec fn records_view(rs: Seq<Record>) -> Seq<Map<Seq<char>, Seq<char>>> {
    rs.map_values(|r: Record| r@)
}

pub proof fn lemma_map_of_last(ps: Seq<(Seq<char>, Seq<char>)>, k: Seq<char>, j: int)
    requires
        0 <= j < ps.len(),
        ps[j].0 == k,
        forall|t: int| j < t < ps.len() ==> ps[t].0 != k,
    ensures
        map_of(ps).contains_key(k),
        map_of(ps)[k] == ps[j].1,
    decreases ps.len(),
{
    if j < ps.len() - 1 {
        lemma_map_of_last(ps.drop_last(), k, j);
    }
}

pub proof fn lemma_map_of_absent(ps: Seq<(Seq<char>, Seq<char>)>, k: Seq<char>)
    requires
        forall|t: int| 0 <= t < ps.len() ==> ps[t].0 != k,
    ensures
        !map_of(ps).contains_key(k),
    decreases ps.len(),
{
    if ps.len() > 0 {
        lemma_map_of_absent(ps.drop_last(), k);
    }
}

impl Record {
    /// A record with no fields.
    pub fn new() -> (r: Record)
        ensures
            r.pairs() == Seq::<(Seq<char>, Seq<char>)>::empty(),
            r@ == Map::<Seq<char>, Seq<char>>::empty(),
    {
        let r = Record { fields: Vec::new() };
        assert(r.pairs() =~= Seq::<(Seq<char>, Seq<char>)>::empty());
        r
    }

    /// Sets `label` to `value`, replacing what it held.
    pub fn insert(&mut self, label: String, value: String)
        ensures
            final(self).pairs() == old(self).pairs().push((label@, value@)),
            final(self)@ == old(self)@.insert(label@, value@),
    {
        let ghost before = self.pairs();
        self.fields.push(Field { label, value });
        assert(self.pairs() =~= before.push((label@, value@)));
        assert(self.pairs().drop_last() =~= before);
    }

    /// The value under `label`, or the empty string where there is none.
    pub fn get(&self, label: &str) -> (r: String)
        ensures
            r@ == field_or_empty(self@, label@),
    {
        let ghost ps = self.pairs();
        let mut i: usize = self.fields.len();
        while i > 0
            invariant
                i <= self.fields.len(),
                ps == self.pairs(),
                ps.len() == self.fields.len(),
                forall|t: int| i <= t < ps.len() ==> ps[t].0 != label@,
            decreases i,
        {
            let f = &self.fields[i - 1];
            if text_eq(f.label.as_str(), label) {
                proof {
                    lemma_map_of_last(ps, label@, i - 1);
                }
                return f.value.clone();
            }
            i = i - 1;
        }
        proof {
            lemma_map_of_absent(ps, label@);
        }
        String::new()
    }

    /// A copy of the record, field for field.
    pub fn duplicate(&self) -> (r: Record)
        ensures
            r.pairs() == self.pairs(),
            r@ == self@,
    {
        let mut out = Record::new();
        let mut i: usize = 0;
        while i < self.fields.len()
            invariant
                i <= self.fields.len(),
                out.pairs() == self.pairs().subrange(0, i as int),
            decreases self.fields.len() - i,
        {
            let f = &self.fields[i];
            out.insert(text_of(f.label.as_str()), text_of(f.value.as_str()));
            assert(self.pairs().subrange(0, i as int).push(self.pairs()[i as int])
                =~= self.pairs().subrange(0, i + 1));
            i = i + 1;
        }
        assert(self.pairs().subrange(0, i as int) =~= self.pairs());
        out
    }
}

} // verus!
