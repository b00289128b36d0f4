use vstd::prelude::*;

use crate::text::text_of;

verus! {

/// A character that Unicode's White_Space property holds of.
pub open spec fn white(c: char) -> bool {
    let u = c as u32;
    (0x9 <= u && u <= 0xD) || u == 0x20 || u == 0x85 || u == 0xA0 || u == 0x1680 || (0x2000 <= u
        && u <= 0x200A) || u == 0x2028 || u == 0x2029 || u == 0x202F || u == 0x205F || u == 0x3000
}

/// `s` without its leading whitespace.
pub open spec fn trim_start(s: Seq<char>) -> Seq<char>
    decreases s.len(),
{
    if s.len() > 0 && white(s[0]) {
        trim_start(s.drop_first())
    } else {
        s
    }
}

/// The characters of `s` before its first whitespace.
pub open spec fn leading_word(s: Seq<char>) -> Seq<char>
    decreases s.len(),
{
    if s.len() == 0 || white(s[0]) {
        Seq::empty()
    } else {
        seq![s[0]] + leading_word(s.drop_first())
    }
}

/// The name of an error's source: the first word of its debug text, or the
/// whole text where it has no word.
pub open spec fn source_name(debug: Seq<char>) -> Seq<char> {
    if trim_start(debug).len() == 0 {
        debug
    } else {
        leading_word(trim_start(debug))
    }
}

/// Whether `c` is whitespace.
pub fn is_white(c: char) -> (r: bool)
    ensures
        r == white(c),
{
    let u = c as u32;
    (0x9 <= u && u <= 0xD) || u == 0x20 || u == 0x85 || u == 0xA0 || u == 0x1680 || (0x2000 <= u
        && u <= 0x200A) || u == 0x2028 || u == 0x2029 || u == 0x202F || u == 0x205F || u == 0x3000
}

/// The first word of `debug`, or all of it where it has none.
pub fn source_name_of(debug: &str) -> (r: String)
    ensures
        r@ == source_name(debug@),
{
    let n = debug.unicode_len();
    let mut i: usize = 0;
    assert(debug@.subrange(0, n as int) =~= debug@);
    while i < n && is_white(debug.get_char(i))
        invariant
            n == debug@.len(),
            i <= n,
            trim_start(debug@.subrange(i as int, n as int)) == trim_start(debug@),
        decreases n - i,
    {
        assert(debug@.subrange(i as int, n as int).drop_first() =~= debug@.subrange(
            i + 1,
            n as int,
        ));
        i = i + 1;
    }
    assert(trim_start(debug@.subrange(i as int, n as int)) == debug@.subrange(i as int, n as int));
    if i == n {
        assert(debug@.subrange(i as int, n as int).len() == 0);
        return text_of(debug);
    }
    let start = i;
    let ghost t = debug@.subrange(start as int, n as int);
    assert(debug@.subrange(start as int, start as int) =~= Seq::<char>::empty());
    assert(t =~= debug@.subrange(start as int, n as int));
    while i < n && !is_white(debug.get_char(i))
        invariant
            n == debug@.len(),
            start <= i <= n,
            t == debug@.subrange(start as int, n as int),
            leading_word(t) == debug@.subrange(start as int, i as int) + leading_word(
                debug@.subrange(i as int, n as int),
            ),
        decreases n - i,
    {
        assert(debug@.subrange(i as int, n as int).drop_first() =~= debug@.subrange(
            i + 1,
            n as int,
        ));
        assert(debug@.subrange(start as int, i + 1) =~= debug@.subrange(start as int, i as int)
            + seq![debug@[i as int]]);
        i = i + 1;
    }
    assert(leading_word(debug@.subrange(i as int, n as int)) =~= Seq::<char>::empty());
    assert(leading_word(t) =~= debug@.subrange(start as int, i as int));
    text_of(debug.substring_char(start, i))
}

/// An error with a message for the user and a trace of where it came from.
#[derive(Debug)]
pub struct Error {
    pub message: String,
    pub origin: String,
}

impl Error {
    /// An error caused by another one, given by its debug and display texts:
    /// the origin names the source's kind and then its description in
    /// parentheses.
    pub fn new(message: String, source_debug: &str, source_display: &str) -> (r: Error)
        ensures
            r.message@ == message@,
            r.origin@ == source_name(source_debug@) + seq![' ', '('] + source_display@ + seq![')'],
    {
        let mut origin = source_name_of(source_debug);
        origin.append(" (");
        origin.append(source_display);
        origin.append(")");
        proof {
            reveal_strlit(" (");
            reveal_strlit(")");
        }
        assert(origin@ =~= source_name(source_debug@) + seq![' ', '('] + source_display@ + seq![
            ')',
        ]);
        Error { message, origin }
    }

    /// An error with no cause behind it.
    pub fn new_sourceless(message: String) -> (r: Error)
        ensures
            r.message@ == message@,
            r.origin@ == seq!['N', 'o', 'n', 'e'],
    {
        proof {
            reveal_strlit("None");
        }
        let origin = text_of("None");
        assert(origin@ =~= seq!['N', 'o', 'n', 'e']);
        Error { message, origin }
    }

    /// An error with an empty message and no cause.
    pub fn empty() -> (r: Error)
        ensures
            r.message@ == Seq::<char>::empty(),
            r.origin@ == seq!['N', 'o', 'n', 'e'],
    {
        Error::new_sourceless(String::new())
    }

    /// The text shown to the user: the message, a line break, the origin.
    pub fn describe(&self) -> (r: String)
        ensures
            r@ == self.message@ + seq!['\n'] + self.origin@,
    {
        let mut r = text_of(self.message.as_str());
        r.append("\n");
        r.append(self.origin.as_str());
        proof {
            reveal_strlit("\n");
        }
        assert(r@ =~= self.message@ + seq!['\n'] + self.origin@);
        r
    }
}

} // verus!
