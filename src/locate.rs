use vstd::prelude::*;

use crate::codec::texts_view;
use crate::record::{field_or_empty, records_view, Record};
use crate::text::{decimal, decimal_text, text_of, text_starts_with};

verus! {

/// The address of the sheet row that holds the record at zero-based position
/// `i`: the sheet counts from one and its first row is the header.
pub open spec fn range_spec(i: nat) -> Seq<char> {
    seq!['A'] + decimal(i + 2) + seq![':', 'Z'] + decimal(i + 2)
}

/// Some non-empty requested title starts with the stored title.
pub open spec fn title_hit(titles: Seq<Seq<char>>, stored: Seq<char>) -> bool {
    exists|j: int| 0 <= j < titles.len() && titles[j].len() > 0 && stored.is_prefix_of(titles[j])
}

/// The label of the title column.
pub open spec fn title_label() -> Seq<char> {
    seq!['T', 'i', 't', 'l', 'e']
}

/// The label under which a matched record carries its row address.
pub open spec fn range_label() -> Seq<char> {
    seq!['r', 'a', 'n', 'g', 'e']
}

/// The records that the titles select, in order, each with its row address
/// under the range label.
pub open spec fn locate_spec(recs: Seq<Map<Seq<char>, Seq<char>>>, titles: Seq<Seq<char>>) -> Seq<
    Map<Seq<char>, Seq<char>>,
>
    decreases recs.len(),
{
    if recs.len() == 0 {
        Seq::empty()
    } else {
        let rest = locate_spec(recs.drop_last(), titles);
        let i = (recs.len() - 1) as nat;
        if title_hit(titles, field_or_empty(recs.last(), title_label())) {
            rest.push(recs.last().insert(range_label(), range_spec(i)))
        } else {
            rest
        }
    }
}

/// The address `A{i+2}:Z{i+2}` of the record at position `i`.
pub fn range_address(i: u64) -> (r: String)
    ensures
        r@ == range_spec(i as nat),
{
    let n = decimal_text(i as u128 + 2);
    let mut r = text_of("A");
    r.append(n.as_str());
    r.append(":Z");
    r.append(n.as_str());
    proof {
        reveal_strlit("A");
        reveal_strlit(":Z");
    }
    assert(r@ =~= range_spec(i as nat));
    r
}

/// Whether some non-empty title in `titles` starts with `stored`.
pub fn matches_any(titles: &Vec<String>, stored: &str) -> (r: bool)
    ensures
        r == title_hit(texts_view(titles@), stored@),
{
    let ghost tv = texts_view(titles@);
    let mut j: usize = 0;
    while j < titles.len()
        invariant
            j <= titles@.len(),
            tv == texts_view(titles@),
            forall|k: int|
                0 <= k < j ==> !(tv[k].len() > 0 && stored@.is_prefix_of(tv[k])),
        decreases titles.len() - j,
    {
        let t = titles[j].as_str();
        if t.unicode_len() > 0 && text_starts_with(t, stored) {
            assert(tv[j as int] == titles@[j as int]@);
            return true;
        }
        j = j + 1;
    }
    proof {
        assert forall|k: int| 0 <= k < tv.len() implies !(tv[k].len() > 0
            && stored@.is_prefix_of(tv[k])) by {}
    }
    false
}

/// Picks the records whose title some non-empty requested title starts with,
/// keeps their order, and gives each its row address under the range label.
pub fn locate(records: &Vec<Record>, titles: &Vec<String>) -> (r: Vec<Record>)
    ensures
        records_view(r@) == locate_spec(records_view(records@), texts_view(titles@)),
{
    let ghost rv = records_view(records@);
    let mut out: Vec<Record> = Vec::new();
    let mut i: usize = 0;
    while i < records.len()
        invariant
            i <= records@.len(),
            rv == records_view(records@),
            records_view(out@) == locate_spec(rv.subrange(0, i as int), texts_view(titles@)),
        decreases records.len() - i,
    {
        let ghost sub = rv.subrange(0, i + 1);
        assert(sub.drop_last() =~= rv.subrange(0, i as int));
        assert(sub.last() == records@[i as int]@);
        let stored = records[i].get("Title");
        proof {
            reveal_strlit("Title");
            assert("Title"@ =~= title_label());
        }
        if matches_any(titles, stored.as_str()) {
            let mut hit = records[i].duplicate();
            let range = range_address(i as u64);
            hit.insert(text_of("range"), range);
            proof {
                reveal_strlit("range");
                assert("range"@ =~= range_label());
            }
            let ghost before = out@;
            out.push(hit);
            assert(records_view(out@) =~= records_view(before).push(hit@));
        }
        i = i + 1;
    }
    assert(rv.subrange(0, i as int) =~= rv);
    out
}

proof fn lemma_hit_repeated(titles: Seq<Seq<char>>, j: int, stored: Seq<char>)
    requires
        0 <= j < titles.len(),
    ensures
        title_hit(titles.push(titles[j]), stored) == title_hit(titles, stored),
{
    let more = titles.push(titles[j]);
    if title_hit(more, stored) {
        let k = choose|k: int|
            0 <= k < more.len() && more[k].len() > 0 && stored.is_prefix_of(more[k]);
        if k == titles.len() {
            assert(titles[j] == more[k]);
        } else {
            assert(titles[k] == more[k]);
        }
    }
    if title_hit(titles, stored) {
        let k = choose|k: int|
            0 <= k < titles.len() && titles[k].len() > 0 && stored.is_prefix_of(titles[k]);
        assert(more[k] == titles[k]);
    }
}

/// Asking for a title that was already asked for changes nothing: the same
/// records are selected, with the same addresses.
pub proof fn lemma_locate_repeated_title(
    recs: Seq<Map<Seq<char>, Seq<char>>>,
    titles: Seq<Seq<char>>,
    j: int,
)
    requires
        0 <= j < titles.len(),
    ensures
        locate_spec(recs, titles.push(titles[j])) == locate_spec(recs, titles),
    decreases recs.len(),
{
    if recs.len() > 0 {
        lemma_locate_repeated_title(recs.drop_last(), titles, j);
        lemma_hit_repeated(titles, j, field_or_empty(recs.last(), title_label()));
    }
}

/// Requesting one title twice selects what requesting it once does.
pub proof fn lemma_locate_title_twice(recs: Seq<Map<Seq<char>, Seq<char>>>, t: Seq<char>)
    ensures
        locate_spec(recs, seq![t, t]) == locate_spec(recs, seq![t]),
{
    assert(seq![t].push(seq![t][0]) =~= seq![t, t]);
    lemma_locate_repeated_title(recs, seq![t], 0);
}

/// The record at position `i` that a title selects carries the address
/// `A{i+2}:Z{i+2}`, and nothing else of it changes.
pub proof fn lemma_locate_address(recs: Seq<Map<Seq<char>, Seq<char>>>, titles: Seq<Seq<char>>, i: int)
    requires
        0 <= i < recs.len(),
        title_hit(titles, field_or_empty(recs[i], title_label())),
    ensures
        exists|k: int|
            0 <= k < locate_spec(recs, titles).len() && locate_spec(recs, titles)[k]
                == recs[i].insert(range_label(), range_spec(i as nat)),
    decreases recs.len(),
{
    let rest = locate_spec(recs.drop_last(), titles);
    if i == recs.len() - 1 {
        assert(locate_spec(recs, titles)[rest.len() as int] == recs[i].insert(
            range_label(),
            range_spec(i as nat),
        ));
    } else {
        assert(recs.drop_last()[i] == recs[i]);
        lemma_locate_address(recs.drop_last(), titles, i);
        let k = choose|k: int|
            0 <= k < rest.len() && rest[k] == recs[i].insert(range_label(), range_spec(i as nat));
        assert(locate_spec(recs, titles)[k] == rest[k]);
    }
}

/// Empty titles never match: where every requested title is empty, nothing is
/// selected, so nothing is written.
pub proof fn lemma_locate_empty_titles(recs: Seq<Map<Seq<char>, Seq<char>>>, titles: Seq<Seq<char>>)
    requires
        forall|j: int| 0 <= j < titles.len() ==> titles[j].len() == 0,
    ensures
        locate_spec(recs, titles) == Seq::<Map<Seq<char>, Seq<char>>>::empty(),
    decreases recs.len(),
{
    if recs.len() > 0 {
        lemma_locate_empty_titles(recs.drop_last(), titles);
    }
}

} // verus!
