//! Escaping and unescaping of string payloads inside the JSON texts that the
//! library emits and reads back: request bodies and the persisted session
//! record. Only the two characters that would end or confuse a quoted string
//! are escaped; every other character stands for itself.
use vstd::prelude::*;
use vstd::string::StrSliceExecFns;

verus! {

/// How one character appears inside a quoted string.
pub open spec fn escape_char(c: char) -> Seq<char> {
    if c == '"' {
        seq!['\\', '"']
    } else if c == '\\' {
        seq!['\\', '\\']
    } else {
        seq![c]
    }
}

/// How a whole string appears inside a quoted string.
pub open spec fn escape_seq(s: Seq<char>) -> Seq<char>
    decreases s.len(),
{
    if s.len() == 0 {
        Seq::empty()
    } else {
        escape_char(s[0]) + escape_seq(s.subrange(1, s.len() as int))
    }
}

/// Reads a quoted-string body from the front of `s`: unescapes characters up
/// to the first unescaped closing quote and returns the decoded text together
/// with everything after that quote. `None` when the quote never closes or an
/// escape is malformed.
pub open spec fn parse_quoted(s: Seq<char>) -> Option<(Seq<char>, Seq<char>)>
    decreases s.len(),
{
    if s.len() == 0 {
        None
    } else if s[0] == '"' {
        Some((Seq::empty(), s.subrange(1, s.len() as int)))
    } else if s[0] == '\\' {
        if s.len() >= 2 && (s[1] == '"' || s[1] == '\\') {
            match parse_quoted(s.subrange(2, s.len() as int)) {
                Some(p) => Some((seq![s[1]] + p.0, p.1)),
                None => None,
            }
        } else {
            None
        }
    } else {
        match parse_quoted(s.subrange(1, s.len() as int)) {
            Some(p) => Some((seq![s[0]] + p.0, p.1)),
            None => None,
        }
    }
}

/// Unescaping undoes escaping: the escaped text followed by a closing quote
/// and any remainder parses back to the original text and that remainder.
pub proof fn lemma_parse_quoted_escape(t: Seq<char>, rest: Seq<char>)
    ensures
        parse_quoted(escape_seq(t) + seq!['"'] + rest) == Some((t, rest)),
    decreases t.len(),
{
    let s = escape_seq(t) + seq!['"'] + rest;
    if t.len() == 0 {
        assert(s =~= seq!['"'] + rest);
        assert(s.subrange(1, s.len() as int) =~= rest);
    } else {
        let tail = t.subrange(1, t.len() as int);
        lemma_parse_quoted_escape(tail, rest);
        let s2 = escape_seq(tail) + seq!['"'] + rest;
        if t[0] == '"' || t[0] == '\\' {
            assert(s =~= seq!['\\', t[0]] + s2);
            assert(s.subrange(2, s.len() as int) =~= s2);
            assert(seq![t[0]] + tail =~= t);
        } else {
            assert(s =~= seq![t[0]] + s2);
            assert(s.subrange(1, s.len() as int) =~= s2);
            assert(seq![t[0]] + tail =~= t);
        }
    }
}

/// Collects the characters of a string slice into a vector.
pub fn str_to_chars(s: &str) -> (r: Vec<char>)
    ensures
        r@ == s@,
{
    let n = s.unicode_len();
    let mut r: Vec<char> = Vec::new();
    let mut i: usize = 0;
    while i < n
        invariant
            n == s@.len(),
            i <= n,
            r@ == s@.subrange(0, i as int),
        decreases n - i,
    {
        r.push(s.get_char(i));
        i = i + 1;
        proof {
            assert(r@ =~= s@.subrange(0, i as int));
        }
    }
    proof {
        assert(r@ =~= s@);
    }
    r
}

/// Relies on std's `Iterator::collect` for `String`: the built string holds
/// exactly the given characters in order.
#[verifier::external_body]
pub fn chars_to_string(v: &Vec<char>) -> (r: String)
    ensures
        r@ == v@,
{
    v.iter().collect()
}

/// Escapes every character of `s` for use inside a quoted string.
pub fn escape_chars(s: &Vec<char>) -> (r: Vec<char>)
    ensures
        r@ == escape_seq(s@),
{
    let mut r: Vec<char> = Vec::new();
    let n = s.len();
    let mut i: usize = 0;
    proof {
        assert(s@.subrange(0, 0) =~= Seq::<char>::empty());
    }
    while i < n
        invariant
            n == s@.len(),
            i <= n,
            r@ == escape_seq(s@.subrange(0, i as int)),
        decreases n - i,
    {
        let c = s[i];
        if c == '"' {
            r.push('\\');
            r.push('"');
        } else if c == '\\' {
            r.push('\\');
            r.push('\\');
        } else {
            r.push(c);
        }
        proof {
            lemma_escape_seq_snoc(s@.subrange(0, i as int), s@[i as int]);
            assert(s@.subrange(0, i + 1 as int) =~= s@.subrange(0, i as int).push(s@[i as int]));
        }
        i = i + 1;
    }
    proof {
        assert(s@.subrange(0, n as int) =~= s@);
    }
    r
}

/// Escaping distributes over appending one character at the end.
proof fn lemma_escape_seq_snoc(s: Seq<char>, c: char)
    ensures
        escape_seq(s.push(c)) == escape_seq(s) + escape_char(c),
    decreases s.len(),
{
    let sp = s.push(c);
    if s.len() == 0 {
        assert(sp.subrange(1, sp.len() as int) =~= Seq::<char>::empty());
        assert(escape_seq(sp) == escape_char(c) + escape_seq(Seq::<char>::empty()));
        assert(escape_seq(Seq::<char>::empty()) =~= Seq::<char>::empty());
        assert(escape_seq(sp) =~= escape_seq(s) + escape_char(c));
    } else {
        let tail = s.subrange(1, s.len() as int);
        lemma_escape_seq_snoc(tail, c);
        assert(sp.subrange(1, sp.len() as int) =~= tail.push(c));
        assert(sp[0] == s[0]);
        assert(escape_seq(sp) == escape_char(sp[0]) + escape_seq(sp.subrange(1, sp.len() as int)));
        assert(escape_seq(s) == escape_char(s[0]) + escape_seq(tail));
        assert(escape_seq(sp) =~= escape_seq(s) + escape_char(c));
    }
}

/// Escapes a string slice, as `escape_chars` does, returning a string.
pub fn escape_str(s: &str) -> (r: String)
    ensures
        r@ == escape_seq(s@),
{
    let chars = str_to_chars(s);
    let escaped = escape_chars(&chars);
    chars_to_string(&escaped)
}

} // verus!
