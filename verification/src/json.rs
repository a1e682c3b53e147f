use vstd::prelude::*;

use crate::model::strings;

verus! {

/// How one character stands inside a quoted JSON string: the quote, the
/// backslash and the common control characters are escaped, everything
/// else stands as it is.
pub open spec fn esc_char(c: char) -> Seq<char> {
    if c == '"' {
        seq!['\\', '"']
    } else if c == '\\' {
        seq!['\\', '\\']
    } else if c == '\n' {
        seq!['\\', 'n']
    } else if c == '\r' {
        seq!['\\', 'r']
    } else if c == '\t' {
        seq!['\\', 't']
    } else {
        seq![c]
    }
}

/// The escaped form of a whole string.
pub open spec fn spec_escaped(s: Seq<char>) -> Seq<char>
    decreases s.len(),
{
    if s.len() == 0 {
        Seq::empty()
    } else {
        esc_char(s[0]) + spec_escaped(s.skip(1))
    }
}

/// A quoted JSON string: the escaped text between two quotes.
pub open spec fn spec_json_string(s: Seq<char>) -> Seq<char> {
    seq!['"'] + spec_escaped(s) + seq!['"']
}

/// A JSON array of quoted strings, comma separated, without brackets.
pub open spec fn spec_json_strings(ss: Seq<Seq<char>>) -> Seq<char>
    decreases ss.len(),
{
    if ss.len() == 0 {
        Seq::empty()
    } else if ss.len() == 1 {
        spec_json_string(ss[0])
    } else {
        spec_json_string(ss[0]) + seq![','] + spec_json_strings(ss.skip(1))
    }
}

/// The body of a playlist write request: the URIs as a JSON array under
/// the key `uris`.
pub open spec fn spec_uris_body(ss: Seq<Seq<char>>) -> Seq<char> {
    "{\"uris\":["@ + spec_json_strings(ss) + "]}"@
}

/// Escaping distributes over concatenation.
proof fn lemma_escaped_concat(a: Seq<char>, b: Seq<char>)
    ensures
        spec_escaped(a + b) == spec_escaped(a) + spec_escaped(b),
    decreases a.len(),
{
    if a.len() == 0 {
        assert(a + b =~= b);
        assert(spec_escaped(a) + spec_escaped(b) =~= spec_escaped(b));
    } else {
        assert((a + b)[0] == a[0]);
        assert((a + b).skip(1) =~= a.skip(1) + b);
        lemma_escaped_concat(a.skip(1), b);
        assert(esc_char(a[0]) + (spec_escaped(a.skip(1)) + spec_escaped(b)) =~= (esc_char(a[0])
            + spec_escaped(a.skip(1))) + spec_escaped(b));
    }
}

/// Escapes the text of `s` for use inside a quoted JSON string.
pub fn json_escape(s: &str) -> (r: String)
    ensures
        r@ == spec_escaped(s@),
{
    let n = s.unicode_len();
    let mut r = String::new();
    let mut i: usize = 0;
    proof {
        assert(s@.take(0) =~= Seq::<char>::empty());
    }
    while i < n
        invariant
            n == s@.len(),
            i <= n,
            r@ == spec_escaped(s@.take(i as int)),
        decreases n - i,
    {
        let c = s.get_char(i);
        if c == '"' {
            r.append("\\\"");
            proof {
                reveal_strlit("\\\"");
                assert("\\\""@ =~= seq!['\\', '"']);
            }
        } else if c == '\\' {
            r.append("\\\\");
            proof {
                reveal_strlit("\\\\");
                assert("\\\\"@ =~= seq!['\\', '\\']);
            }
        } else if c == '\n' {
            r.append("\\n");
            proof {
                reveal_strlit("\\n");
                assert("\\n"@ =~= seq!['\\', 'n']);
            }
        } else if c == '\r' {
            r.append("\\r");
            proof {
                reveal_strlit("\\r");
                assert("\\r"@ =~= seq!['\\', 'r']);
            }
        } else if c == '\t' {
            r.append("\\t");
            proof {
                reveal_strlit("\\t");
                assert("\\t"@ =~= seq!['\\', 't']);
            }
        } else {
            let piece = s.substring_char(i, i + 1);
            proof {
                assert(piece@ =~= seq![s@[i as int]]);
            }
            r.append(piece);
        }
        proof {
            assert(r@ =~= spec_escaped(s@.take(i as int)) + esc_char(s@[i as int]));
            s@.lemma_take_succ_push(i as int);
            assert(s@.take(i + 1) =~= s@.take(i as int) + seq![s@[i as int]]);
            lemma_escaped_concat(s@.take(i as int), seq![s@[i as int]]);
            assert(seq![s@[i as int]].skip(1) =~= Seq::<char>::empty());
            assert(spec_escaped(Seq::<char>::empty()) =~= Seq::<char>::empty());
            assert(spec_escaped(seq![s@[i as int]]) =~= esc_char(s@[i as int]) + Seq::<
                char,
            >::empty());
            assert(esc_char(s@[i as int]) + Seq::<char>::empty() =~= esc_char(s@[i as int]));
        }
        i = i + 1;
    }
    proof {
        s@.lemma_take_len();
    }
    r
}

/// Renders `s` as a quoted JSON string.
pub fn json_string(s: &str) -> (r: String)
    ensures
        r@ == spec_json_string(s@),
{
    let mut r = String::new();
    r.append("\"");
    let esc = json_escape(s);
    r.append(esc.as_str());
    r.append("\"");
    proof {
        reveal_strlit("\"");
        assert(r@ =~= spec_json_string(s@));
    }
    r
}

/// Renders the body of a playlist write request: the URIs of `uris` as a
/// JSON array under the key `uris`.
pub fn uris_body(uris: &Vec<String>) -> (r: String)
    ensures
        r@ == spec_uris_body(strings(uris@)),
{
    let ghost ss = strings(uris@);
    let mut arr = String::new();
    let mut i: usize = uris.len();
    proof {
        assert(ss.skip(i as int).len() == 0);
    }
    while i > 0
        invariant
            i <= uris@.len(),
            ss == strings(uris@),
            arr@ == spec_json_strings(ss.skip(i as int)),
        decreases i,
    {
        i = i - 1;
        let piece = json_string(uris[i].as_str());
        proof {
            assert(ss.skip(i as int)[0] == ss[i as int]);
            assert(ss[i as int] == uris@[i as int]@);
            assert(ss.skip(i as int).skip(1) =~= ss.skip(i + 1));
        }
        if i + 1 == uris.len() {
            arr = piece;
            proof {
                assert(ss.skip(i as int).len() == 1);
            }
        } else {
            let joined = piece.concat(",").concat(arr.as_str());
            proof {
                reveal_strlit(",");
                assert(ss.skip(i as int).len() >= 2);
            }
            arr = joined;
            proof {
                assert(arr@ =~= spec_json_strings(ss.skip(i as int)));
            }
        }
    }
    let mut r = String::new();
    r.append("{\"uris\":[");
    r.append(arr.as_str());
    r.append("]}");
    proof {
        assert(ss.skip(0) =~= ss);
        assert(r@ =~= spec_uris_body(ss));
    }
    r
}

} // verus!
