use vstd::prelude::*;

use crate::json::{json_quoted, json_string};
use crate::codec::{decode, decode_spec, opt_table_view, Cell};
use crate::record::{lemma_map_of_last, map_of, records_view, Field, Record};
use crate::text::{text_eq, text_of};

verus! {

/// The items joined with commas.
pub open spec fn joined(items: Seq<Seq<char>>) -> Seq<char>
    decreases items.len(),
{
    if items.len() == 0 {
        Seq::empty()
    } else if items.len() == 1 {
        items[0]
    } else {
        joined(items.drop_last()) + seq![','] + items.last()
    }
}

/// One member of a JSON object: quoted label, colon, quoted value.
pub open spec fn member_json(p: (Seq<char>, Seq<char>)) -> Seq<char> {
    json_quoted(p.0) + seq![':'] + json_quoted(p.1)
}

/// The pair at position `i` holds the last value given to its label.
pub open spec fn last_for_label(ps: Seq<(Seq<char>, Seq<char>)>, i: int) -> bool {
    forall|j: int| i < j < ps.len() ==> ps[j].0 != ps[i].0
}

/// The members written for the first `k` pairs: a pair is written only where
/// no later pair gives its label again, so each label appears once, with the
/// value the record holds for it.
pub open spec fn kept_members(ps: Seq<(Seq<char>, Seq<char>)>, k: int) -> Seq<Seq<char>>
    decreases k,
{
    if k <= 0 {
        Seq::empty()
    } else if last_for_label(ps, k - 1) {
        kept_members(ps, k - 1).push(member_json(ps[k - 1]))
    } else {
        kept_members(ps, k - 1)
    }
}

/// A record as a JSON object: one member per label, with its last value, in
/// the order of those last values.
pub open spec fn object_json(ps: Seq<(Seq<char>, Seq<char>)>) -> Seq<char> {
    seq!['{'] + joined(kept_members(ps, ps.len() as int)) + seq!['}']
}

/// The opening of the external form, up to the range's value.
pub open spec fn range_key() -> Seq<char> {
    seq!['{', '"', 'r', 'a', 'n', 'g', 'e', '"', ':']
}

/// What stands between the range's value and the first record.
pub open spec fn values_key() -> Seq<char> {
    seq![',', '"', 'v', 'a', 'l', 'u', 'e', 's', '"', ':', '[']
}

/// The external form: `{"range":..., "values":[...]}` with one object per record.
pub open spec fn model_json(range: Seq<char>, recs: Seq<Seq<(Seq<char>, Seq<char>)>>) -> Seq<char> {
    range_key() + json_quoted(range) + values_key() + joined(
        recs.map_values(|ps: Seq<(Seq<char>, Seq<char>)>| object_json(ps)),
    ) + seq![']', '}']
}

/// The fetched range and the records decoded from it.
#[derive(Debug)]
pub struct SheetModel {
    pub range: String,
    pub values: Vec<Record>,
}

/// The label/value pairs of each record.
pub open spec fn records_pairs(rs: Seq<Record>) -> Seq<Seq<(Seq<char>, Seq<char>)>> {
    rs.map_values(|r: Record| r.pairs())
}

proof fn lemma_joined_push(items: Seq<Seq<char>>, m: Seq<char>)
    ensures
        joined(items.push(m)) == if items.len() == 0 {
            m
        } else {
            joined(items) + seq![','] + m
        },
{
    assert(items.push(m).drop_last() =~= items);
}

/// Appends the JSON string literal of `s` to `out`.
fn push_quoted(out: &mut String, s: &str)
    ensures
        final(out)@ == old(out)@ + json_quoted(s@),
{
    match json_string(s) {
        Ok(q) => out.append(q.as_str()),
        Err(_) => {},
    }
}

/// Whether a pair after position `i` gives the label of the pair at `i`.
fn label_given_later(rec: &Record, i: usize) -> (r: bool)
    requires
        i < rec.fields@.len(),
    ensures
        r == !last_for_label(rec.pairs(), i as int),
{
    let n = rec.fields.len();
    let mut j: usize = i + 1;
    while j < n
        invariant
            n == rec.fields@.len(),
            i < j <= n,
            forall|t: int| i < t < j ==> rec.pairs()[t].0 != rec.pairs()[i as int].0,
        decreases n - j,
    {
        assert(rec.pairs()[j as int].0 == rec.fields@[j as int].label@);
        assert(rec.pairs()[i as int].0 == rec.fields@[i as int].label@);
        if text_eq(rec.fields[j].label.as_str(), rec.fields[i].label.as_str()) {
            return true;
        }
        j = j + 1;
    }
    false
}

/// Appends the JSON object of `rec` to `out`.
fn push_object(out: &mut String, rec: &Record)
    ensures
        final(out)@ == old(out)@ + object_json(rec.pairs()),
{
    let ghost start = out@;
    let ghost ps = rec.pairs();
    proof {
        reveal_strlit("{");
        reveal_strlit("}");
    }
    out.append("{");
    let mut wrote = false;
    let mut i: usize = 0;
    while i < rec.fields.len()
        invariant
            i <= rec.fields@.len(),
            wrote == (kept_members(ps, i as int).len() > 0),
            ps == rec.pairs(),
            ps.len() == rec.fields@.len(),
            out@ == start + seq!['{'] + joined(kept_members(ps, i as int)),
        decreases rec.fields.len() - i,
    {
        proof {
            reveal_strlit(",");
            reveal_strlit(":");
        }
        if !label_given_later(rec, i) {
            let ghost before = out@;
            let ghost km = kept_members(ps, i as int);
            let ghost sep: Seq<char> = if km.len() > 0 {
                seq![',']
            } else {
                Seq::empty()
            };
            if wrote {
                out.append(",");
            }
            wrote = true;
            assert(out@ =~= before + sep);
            let f: &Field = &rec.fields[i];
            push_quoted(out, f.label.as_str());
            out.append(":");
            push_quoted(out, f.value.as_str());
            assert(out@ =~= before + sep + member_json((f.label@, f.value@)));
            proof {
                assert(ps[i as int] == (f.label@, f.value@));
                lemma_joined_push(km, member_json(ps[i as int]));
            }
            assert(out@ =~= start + seq!['{'] + joined(kept_members(ps, i + 1)));
        }
        i = i + 1;
    }
    out.append("}");
    assert(out@ =~= start + object_json(ps));
}

impl SheetModel {
    /// The model of a fetch: the range it reports, empty where it reports
    /// none, and the records decoded from its table.
    pub fn from_fetch(range: Option<String>, table: &Option<Vec<Vec<Cell>>>) -> (r: SheetModel)
        ensures
            r.range@ == (match range {
                Some(s) => s@,
                None => Seq::<char>::empty(),
            }),
            records_view(r.values@) == decode_spec(opt_table_view(*table)),
    {
        let range = match range {
            Some(s) => s,
            None => String::new(),
        };
        SheetModel { range, values: decode(table) }
    }

    /// The external form of the model: the range, then one JSON object per
    /// record, in order.
    pub fn to_json(&self) -> (r: String)
        ensures
            r@ == model_json(self.range@, records_pairs(self.values@)),
    {
        let ghost objects = records_pairs(self.values@).map_values(
            |ps: Seq<(Seq<char>, Seq<char>)>| object_json(ps),
        );
        proof {
            reveal_strlit("{\"range\":");
            reveal_strlit(",\"values\":[");
            reveal_strlit("]}");
        }
        let mut out = text_of("{\"range\":");
        push_quoted(&mut out, self.range.as_str());
        out.append(",\"values\":[");
        let ghost start = out@;
        assert(start =~= range_key() + json_quoted(self.range@) + values_key());
        assert(objects.subrange(0, 0) =~= Seq::<Seq<char>>::empty());
        let mut i: usize = 0;
        while i < self.values.len()
            invariant
                i <= self.values@.len(),
                objects.len() == self.values@.len(),
                objects == records_pairs(self.values@).map_values(
                    |ps: Seq<(Seq<char>, Seq<char>)>| object_json(ps),
                ),
                out@ == start + joined(objects.subrange(0, i as int)),
            decreases self.values.len() - i,
        {
            let ghost before = out@;
            let ghost sep: Seq<char> = if i > 0 {
                seq![',']
            } else {
                Seq::empty()
            };
            proof {
                reveal_strlit(",");
            }
            if i > 0 {
                out.append(",");
            }
            assert(out@ =~= before + sep);
            push_object(&mut out, &self.values[i]);
            assert(out@ =~= before + sep + object_json(self.values@[i as int].pairs()));
            proof {
                assert(objects.subrange(0, i + 1) =~= objects.subrange(0, i as int).push(
                    objects[i as int],
                ));
                lemma_joined_push(objects.subrange(0, i as int), objects[i as int]);
                assert(objects[i as int] == object_json(self.values@[i as int].pairs()));
            }
            assert(out@ =~= start + joined(objects.subrange(0, i + 1)));
            i = i + 1;
        }
        out.append("]}");
        assert(objects.subrange(0, i as int) =~= objects);
        assert(out@ =~= model_json(self.range@, records_pairs(self.values@)));
        out
    }
}

/// The pairs written for a record are exactly its map: a written pair holds
/// the value that the record holds for its label, no label is written twice,
/// and every label of the record is written.
pub proof fn lemma_written_pairs_are_the_map(ps: Seq<(Seq<char>, Seq<char>)>)
    ensures
        forall|i: int|
            0 <= i < ps.len() && last_for_label(ps, i) ==> map_of(ps).contains_key(ps[i].0)
                && map_of(ps)[ps[i].0] == ps[i].1,
        forall|i: int, j: int|
            0 <= i < ps.len() && 0 <= j < ps.len() && last_for_label(ps, i) && last_for_label(ps, j)
                && ps[i].0 == ps[j].0 ==> i == j,
        forall|l: Seq<char>|
            map_of(ps).contains_key(l) ==> exists|i: int|
                0 <= i < ps.len() && last_for_label(ps, i) && ps[i].0 == l,
    decreases ps.len(),
{
    assert forall|i: int| 0 <= i < ps.len() && last_for_label(ps, i) implies map_of(ps).contains_key(
        ps[i].0,
    ) && map_of(ps)[ps[i].0] == ps[i].1 by {
        lemma_map_of_last(ps, ps[i].0, i);
    }
    if ps.len() > 0 {
        let rest = ps.drop_last();
        lemma_written_pairs_are_the_map(rest);
        assert forall|l: Seq<char>| map_of(ps).contains_key(l) implies exists|i: int|
            0 <= i < ps.len() && last_for_label(ps, i) && ps[i].0 == l by {
            if ps.last().0 == l {
                assert(last_for_label(ps, ps.len() - 1) && ps[ps.len() - 1].0 == l);
            } else {
                assert(map_of(rest).contains_key(l));
                let i = choose|i: int| 0 <= i < rest.len() && last_for_label(rest, i) && rest[i].0 == l;
                assert(rest[i] == ps[i]);
                assert forall|j: int| i < j < ps.len() implies ps[j].0 != ps[i].0 by {
                    if j < rest.len() {
                        assert(rest[j] == ps[j]);
                    }
                }
                assert(0 <= i < ps.len() && last_for_label(ps, i) && ps[i].0 == l);
            }
        }
    }
}

} // verus!
