use vstd::prelude::*;

use crate::codec::texts_view;
use crate::text::text_of;

verus! {

/// `s` with each backslash-quote and backslash-backtick pair replaced by the
/// quote or backtick alone, read left to right.
pub open spec fn unescape(s: Seq<char>) -> Seq<char>
    decreases s.len(),
{
    if s.len() == 0 {
        Seq::empty()
    } else if s.len() >= 2 && s[0] == '\\' && (s[1] == '"' || s[1] == '`') {
        seq![s[1]] + unescape(s.subrange(2, s.len() as int))
    } else {
        seq![s[0]] + unescape(s.subrange(1, s.len() as int))
    }
}

/// What an item of new pull-request data becomes in the appended row: `n/a`
/// for an empty item, else the item unescaped.
pub open spec fn sanitize_spec(s: Seq<char>) -> Seq<char> {
    if s.len() == 0 {
        seq!['n', '/', 'a']
    } else {
        unescape(s)
    }
}

/// Removes the backslash before each escaped quote or backtick.
pub fn unescape_text(s: &str) -> (r: String)
    ensures
        r@ == unescape(s@),
{
    let n = s.unicode_len();
    let mut out = String::new();
    let mut i: usize = 0;
    assert(s@.subrange(0, n as int) =~= s@);
    assert(out@ + unescape(s@) =~= unescape(s@));
    while i < n
        invariant
            n == s@.len(),
            i <= n,
            out@ + unescape(s@.subrange(i as int, n as int)) == unescape(s@),
        decreases n - i,
    {
        let ghost rest = s@.subrange(i as int, n as int);
        let c = s.get_char(i);
        if c == '\\' && i + 1 < n {
            let d = s.get_char(i + 1);
            if d == '"' || d == '`' {
                let piece = s.substring_char(i + 1, i + 2);
                out.append(piece);
                assert(rest.subrange(2, rest.len() as int) =~= s@.subrange(i + 2, n as int));
                assert(piece@ =~= seq![rest[1]]);
                assert(out@ + unescape(s@.subrange(i + 2, n as int)) =~= unescape(s@));
                i = i + 2;
                continue;
            }
        }
        let piece = s.substring_char(i, i + 1);
        out.append(piece);
        assert(rest.subrange(1, rest.len() as int) =~= s@.subrange(i + 1, n as int));
        assert(piece@ =~= seq![rest[0]]);
        assert(out@ + unescape(s@.subrange(i + 1, n as int)) =~= unescape(s@));
        i = i + 1;
    }
    assert(s@.subrange(i as int, n as int) =~= Seq::<char>::empty());
    assert(out@ + unescape(s@.subrange(i as int, n as int)) =~= out@);
    out
}

/// One item of pull-request data as it is appended.
pub fn sanitize_item(s: &str) -> (r: String)
    ensures
        r@ == sanitize_spec(s@),
{
    if s.unicode_len() == 0 {
        proof {
            reveal_strlit("n/a");
        }
        let r = text_of("n/a");
        assert(r@ =~= sanitize_spec(s@));
        r
    } else {
        unescape_text(s)
    }
}

/// The row appended for the given pull-request data, item by item.
pub fn sanitize_items(items: &Vec<String>) -> (r: Vec<String>)
    ensures
        texts_view(r@) == texts_view(items@).map_values(|s: Seq<char>| sanitize_spec(s)),
{
    let mut out: Vec<String> = Vec::new();
    let mut i: usize = 0;
    while i < items.len()
        invariant
            i <= items@.len(),
            texts_view(out@) == texts_view(items@).map_values(
                |s: Seq<char>| sanitize_spec(s),
            ).subrange(0, i as int),
        decreases items.len() - i,
    {
        let v = sanitize_item(items[i].as_str());
        let ghost before = out@;
        out.push(v);
        assert(texts_view(out@) =~= texts_view(before).push(v@));
        assert(texts_view(items@)[i as int] == items@[i as int]@);
        assert(texts_view(out@) =~= texts_view(items@).map_values(
            |s: Seq<char>| sanitize_spec(s),
        ).subrange(0, i + 1));
        i = i + 1;
    }
    assert(texts_view(out@) =~= texts_view(items@).map_values(|s: Seq<char>| sanitize_spec(s)));
    out
}

/// The message that reports an added pull request by its first item.
pub fn added_message(items: &Vec<String>) -> (r: String)
    requires
        items@.len() > 0,
    ensures
        r@ == seq!['P', 'R', ' ', '['] + items@[0]@ + "] added to sheet"@,
{
    proof {
        reveal_strlit("PR [");
    }
    let mut r = text_of("PR [");
    r.append(items[0].as_str());
    r.append("] added to sheet");
    assert(r@ =~= seq!['P', 'R', ' ', '['] + items@[0]@ + "] added to sheet"@);
    r
}

} // verus!
