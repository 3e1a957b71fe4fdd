//! Character-level building blocks for the persisted store layout: an escape
//! scheme that keeps record fields free of the field and line separators, and
//! splitting/joining of character sequences around a separator.
use vstd::prelude::*;
use vstd::string::*;

verus! {

/// Relies on `String::push` from std: appends exactly the given character at
/// the end of the string.
#[verifier::external_body]
pub(crate) fn push_char(s: &mut String, c: char)
    ensures
        final(s)@ == old(s)@ + seq![c],
{
    s.push(c);
}

/// Whether two string slices hold the same characters.
pub fn str_eq(a: &str, b: &str) -> (r: bool)
    ensures
        r == (a@ == b@),
{
    let sa = String::from_str(a);
    let sb = String::from_str(b);
    sa == sb
}

/// How a single character is written inside a stored field: the backslash,
/// the field separator and the line separator are written as two-character
/// escapes, every other character stands for itself.
pub open spec fn esc_char(c: char) -> Seq<char> {
    if c == '\\' {
        seq!['\\', '\\']
    } else if c == ':' {
        seq!['\\', 'c']
    } else if c == '\n' {
        seq!['\\', 'n']
    } else {
        seq![c]
    }
}

/// The character an escape pair `\x` stands for, if `x` is a valid escape.
pub open spec fn unesc_char(c: char) -> Option<char> {
    if c == '\\' {
        Some('\\')
    } else if c == 'c' {
        Some(':')
    } else if c == 'n' {
        Some('\n')
    } else {
        None
    }
}

/// A field as it is written into the store: each character escaped.
pub open spec fn escape(s: Seq<char>) -> Seq<char>
    decreases s.len(),
{
    if s.len() == 0 {
        Seq::empty()
    } else {
        esc_char(s[0]) + escape(s.drop_first())
    }
}

/// Reading a stored field back: decodes escape pairs; yields `None` when a
/// backslash is followed by an invalid escape character or by nothing.
pub open spec fn unescape(s: Seq<char>) -> Option<Seq<char>>
    decreases s.len(),
{
    if s.len() == 0 {
        Some(Seq::empty())
    } else if s[0] == '\\' {
        if s.len() >= 2 {
            match unesc_char(s[1]) {
                Some(c) => match unescape(s.skip(2)) {
                    Some(rest) => Some(seq![c] + rest),
                    None => None,
                },
                None => None,
            }
        } else {
            None
        }
    } else {
        match unescape(s.drop_first()) {
            Some(rest) => Some(seq![s[0]] + rest),
            None => None,
        }
    }
}

/// An escaped field contains neither the field separator nor the line
/// separator.
pub proof fn lemma_escape_clean(s: Seq<char>)
    ensures
        !escape(s).contains(':'),
        !escape(s).contains('\n'),
    decreases s.len(),
{
    if s.len() == 0 {
    } else {
        lemma_escape_clean(s.drop_first());
        let e = escape(s);
        let head = esc_char(s[0]);
        let tail = escape(s.drop_first());
        assert forall|i: int| 0 <= i < e.len() implies e[i] != ':' && e[i] != '\n' by {
            if i < head.len() {
                assert(e[i] == head[i]);
            } else {
                assert(e[i] == tail[i - head.len()]);
                assert(tail.contains(tail[i - head.len()])) by {
                    assert(0 <= i - head.len() < tail.len());
                }
            }
        }
        if e.contains(':') {
            let i = choose|i: int| 0 <= i < e.len() && e[i] == ':';
            assert(false);
        }
        if e.contains('\n') {
            let i = choose|i: int| 0 <= i < e.len() && e[i] == '\n';
            assert(false);
        }
    }
}

/// Escaping then unescaping a field gives the field back, for every field.
pub proof fn lemma_unescape_escape(s: Seq<char>)
    ensures
        unescape(escape(s)) == Some(s),
    decreases s.len(),
{
    if s.len() == 0 {
        assert(escape(s) =~= Seq::<char>::empty());
    } else {
        let c = s[0];
        let rest = s.drop_first();
        lemma_unescape_escape(rest);
        let e = escape(s);
        let head = esc_char(c);
        assert(e =~= head + escape(rest));
        if c == '\\' || c == ':' || c == '\n' {
            assert(head.len() == 2);
            assert(e[0] == '\\');
            assert(e.skip(2) =~= escape(rest));
            assert(unesc_char(e[1]) == Some(c));
            assert(unescape(e) == Some(seq![c] + rest));
        } else {
            assert(e[0] == c);
            assert(e.drop_first() =~= escape(rest));
            assert(unescape(e) == Some(seq![c] + rest));
        }
        assert(seq![c] + rest =~= s);
    }
}

/// Unescaping distributes over concatenation at an escape boundary: once a
/// prefix unescapes on its own, the whole sequence unescapes exactly when the
/// remainder does.
pub proof fn lemma_unescape_append(a: Seq<char>, b: Seq<char>, ua: Seq<char>)
    requires
        unescape(a) == Some(ua),
    ensures
        unescape(a + b) == match unescape(b) {
            Some(ub) => Some(ua + ub),
            None => None,
        },
    decreases a.len(),
{
    if a.len() == 0 {
        assert(a + b =~= b);
        assert(ua =~= Seq::<char>::empty());
        match unescape(b) {
            Some(ub) => {
                assert(ua + ub =~= ub);
            },
            None => {},
        }
    } else if a[0] == '\\' {
        let c = unesc_char(a[1])->0;
        let ua2 = unescape(a.skip(2))->0;
        assert(ua == seq![c] + ua2);
        assert((a + b)[0] == '\\' && (a + b)[1] == a[1]);
        assert((a + b).skip(2) =~= a.skip(2) + b);
        lemma_unescape_append(a.skip(2), b, ua2);
        match unescape(b) {
            Some(ub) => {
                assert(unescape(a + b) == Some(seq![c] + (ua2 + ub)));
                assert(seq![c] + (ua2 + ub) =~= ua + ub);
            },
            None => {},
        }
    } else {
        let ua2 = unescape(a.drop_first())->0;
        assert(ua == seq![a[0]] + ua2);
        assert((a + b)[0] == a[0]);
        assert((a + b).drop_first() =~= a.drop_first() + b);
        lemma_unescape_append(a.drop_first(), b, ua2);
        match unescape(b) {
            Some(ub) => {
                assert(unescape(a + b) == Some(seq![a[0]] + (ua2 + ub)));
                assert(seq![a[0]] + (ua2 + ub) =~= ua + ub);
            },
            None => {},
        }
    }
}

/// Escaping one more character appends that character's escape.
pub proof fn lemma_escape_push(s: Seq<char>, c: char)
    ensures
        escape(s.push(c)) == escape(s) + esc_char(c),
    decreases s.len(),
{
    if s.len() == 0 {
        assert(s.push(c).drop_first() =~= Seq::<char>::empty());
        assert(escape(s.push(c)) =~= esc_char(c) + escape(Seq::<char>::empty()));
        assert(escape(s.push(c)) =~= escape(s) + esc_char(c));
    } else {
        assert(s.push(c)[0] == s[0]);
        assert(s.push(c).drop_first() =~= s.drop_first().push(c));
        lemma_escape_push(s.drop_first(), c);
        assert(escape(s.push(c)) =~= escape(s) + esc_char(c));
    }
}

/// The views of a sequence of strings, as character sequences.
pub open spec fn char_seqs(v: Seq<String>) -> Seq<Seq<char>> {
    v.map_values(|s: String| s@)
}

/// Splits `s` at every occurrence of `sep`; always yields at least one part,
/// and empty input yields one empty part.
pub open spec fn split_on(s: Seq<char>, sep: char) -> Seq<Seq<char>>
    decreases s.len(),
{
    if s.len() == 0 {
        seq![Seq::<char>::empty()]
    } else if s[0] == sep {
        seq![Seq::<char>::empty()] + split_on(s.drop_first(), sep)
    } else {
        let rest = split_on(s.drop_first(), sep);
        seq![seq![s[0]] + rest[0]] + rest.drop_first()
    }
}

/// Joins `parts` with the separator sequence `sep` between consecutive parts.
pub open spec fn join_sep(parts: Seq<Seq<char>>, sep: Seq<char>) -> Seq<char>
    decreases parts.len(),
{
    if parts.len() == 0 {
        Seq::empty()
    } else if parts.len() == 1 {
        parts[0]
    } else {
        parts[0] + sep + join_sep(parts.drop_first(), sep)
    }
}

/// Splitting yields at least one part.
pub proof fn lemma_split_len(s: Seq<char>, sep: char)
    ensures
        split_on(s, sep).len() >= 1,
    decreases s.len(),
{
    if s.len() == 0 {
    } else {
        lemma_split_len(s.drop_first(), sep);
    }
}

/// A part free of the separator splits into just itself.
pub proof fn lemma_split_no_sep(p: Seq<char>, sep: char)
    requires
        !p.contains(sep),
    ensures
        split_on(p, sep) =~~= seq![p],
    decreases p.len(),
{
    if p.len() == 0 {
    } else {
        assert(p[0] != sep) by {
            assert(p.contains(p[0]));
        }
        assert(!p.drop_first().contains(sep)) by {
            if p.drop_first().contains(sep) {
                let i = choose|i: int| 0 <= i < p.drop_first().len() && p.drop_first()[i] == sep;
                assert(p[i + 1] == sep);
                assert(p.contains(p[i + 1]));
            }
        }
        lemma_split_no_sep(p.drop_first(), sep);
        assert(seq![p[0]] + p.drop_first() =~= p);
    }
}

/// Splitting a separator-free part, a separator, and a remainder peels off
/// exactly that first part.
pub proof fn lemma_split_prefix(p: Seq<char>, rest: Seq<char>, sep: char)
    requires
        !p.contains(sep),
    ensures
        split_on(p + seq![sep] + rest, sep) =~~= seq![p] + split_on(rest, sep),
    decreases p.len(),
{
    lemma_split_len(rest, sep);
    if p.len() == 0 {
        let s = p + seq![sep] + rest;
        assert(s[0] == sep);
        assert(s.drop_first() =~= rest);
    } else {
        let s = p + seq![sep] + rest;
        assert(p[0] != sep) by {
            assert(p.contains(p[0]));
        }
        assert(s[0] == p[0]);
        assert(!p.drop_first().contains(sep)) by {
            if p.drop_first().contains(sep) {
                let i = choose|i: int| 0 <= i < p.drop_first().len() && p.drop_first()[i] == sep;
                assert(p[i + 1] == sep);
                assert(p.contains(p[i + 1]));
            }
        }
        assert(s.drop_first() =~= p.drop_first() + seq![sep] + rest);
        lemma_split_prefix(p.drop_first(), rest, sep);
        lemma_split_len(p.drop_first() + seq![sep] + rest, sep);
        assert(seq![p[0]] + (seq![p.drop_first()] + split_on(rest, sep))[0] =~= p);
    }
}

/// Splitting undoes joining, when no part contains the (single-character)
/// separator.
pub proof fn lemma_split_join(parts: Seq<Seq<char>>, sep: char)
    requires
        parts.len() >= 1,
        forall|i: int| 0 <= i < parts.len() ==> !(#[trigger] parts[i]).contains(sep),
    ensures
        split_on(join_sep(parts, seq![sep]), sep) =~~= parts,
    decreases parts.len(),
{
    if parts.len() == 1 {
        lemma_split_no_sep(parts[0], sep);
    } else {
        let rest = parts.drop_first();
        assert(forall|i: int| 0 <= i < rest.len() ==> !(#[trigger] rest[i]).contains(sep)) by {
            assert(forall|i: int| 0 <= i < rest.len() ==> rest[i] == parts[i + 1]);
        }
        lemma_split_join(rest, sep);
        assert(parts[0] + seq![sep] + join_sep(rest, seq![sep]) == join_sep(parts, seq![sep]));
        lemma_split_prefix(parts[0], join_sep(rest, seq![sep]), sep);
        assert(seq![parts[0]] + rest =~~= parts);
    }
}

/// A character that is neither the separator nor in any part is not in the
/// joined sequence.
pub proof fn lemma_join_clean(parts: Seq<Seq<char>>, sep: Seq<char>, c: char)
    requires
        !sep.contains(c),
        forall|i: int| 0 <= i < parts.len() ==> !(#[trigger] parts[i]).contains(c),
    ensures
        !join_sep(parts, sep).contains(c),
    decreases parts.len(),
{
    if parts.len() == 0 {
    } else if parts.len() == 1 {
        assert(!parts[0].contains(c));
    } else {
        let rest = parts.drop_first();
        assert(forall|i: int| 0 <= i < rest.len() ==> !(#[trigger] rest[i]).contains(c)) by {
            assert(forall|i: int| 0 <= i < rest.len() ==> rest[i] == parts[i + 1]);
        }
        lemma_join_clean(rest, sep, c);
        let j = join_sep(parts, sep);
        let tail = join_sep(rest, sep);
        if j.contains(c) {
            let i = choose|i: int| 0 <= i < j.len() && j[i] == c;
            if i < parts[0].len() {
                assert(parts[0].contains(j[i]));
            } else if i < parts[0].len() + sep.len() {
                assert(sep.contains(sep[i - parts[0].len()]));
            } else {
                let k = i - parts[0].len() - sep.len();
                assert(j[i] == tail[k]);
                assert(tail.contains(tail[k]));
            }
        }
    }
}

/// Joining one more part appends a separator (when anything precedes it) and
/// the part.
pub proof fn lemma_join_push(parts: Seq<Seq<char>>, x: Seq<char>, sep: Seq<char>)
    ensures
        join_sep(parts.push(x), sep) == if parts.len() == 0 {
            x
        } else {
            join_sep(parts, sep) + sep + x
        },
    decreases parts.len(),
{
    if parts.len() == 0 {
        assert(parts.push(x) =~~= seq![x]);
        assert(join_sep(seq![x], sep) == x);
    } else if parts.len() == 1 {
        let px = parts.push(x);
        assert(px[0] == parts[0]);
        assert(px.drop_first() =~~= seq![x]);
        assert(join_sep(seq![x], sep) == x);
        assert(join_sep(px, sep) == px[0] + sep + join_sep(px.drop_first(), sep));
        assert(join_sep(px, sep) =~= parts[0] + sep + x);
    } else {
        assert(parts.push(x)[0] == parts[0]);
        assert(parts.push(x).drop_first() =~~= parts.drop_first().push(x));
        lemma_join_push(parts.drop_first(), x, sep);
        assert(join_sep(parts.push(x), sep) =~= join_sep(parts, sep) + sep + x);
    }
}

/// Escapes a field for storage.
pub fn escape_str(s: &str) -> (r: String)
    ensures
        r@ == escape(s@),
{
    let len = s.unicode_len();
    let mut out = String::new();
    let mut i: usize = 0;
    while i < len
        invariant
            len == s@.len(),
            i <= len,
            out@ == escape(s@.take(i as int)),
        decreases len - i,
    {
        let c = s.get_char(i);
        proof {
            lemma_escape_push(s@.take(i as int), c);
            assert(s@.take(i as int + 1) =~= s@.take(i as int).push(c));
        }
        if c == '\\' {
            push_char(&mut out, '\\');
            push_char(&mut out, '\\');
        } else if c == ':' {
            push_char(&mut out, '\\');
            push_char(&mut out, 'c');
        } else if c == '\n' {
            push_char(&mut out, '\\');
            push_char(&mut out, 'n');
        } else {
            push_char(&mut out, c);
        }
        proof {
            assert(out@ =~= escape(s@.take(i as int)) + esc_char(c));
        }
        i = i + 1;
    }
    proof {
        assert(s@.take(len as int) =~= s@);
    }
    out
}

/// Unescapes a stored field; `None` on an invalid or truncated escape.
pub fn unescape_str(s: &str) -> (r: Option<String>)
    ensures
        match r {
            Some(u) => unescape(s@) == Some(u@),
            None => unescape(s@) is None,
        },
{
    let len = s.unicode_len();
    let mut out = String::new();
    let mut i: usize = 0;
    while i < len
        invariant
            len == s@.len(),
            i <= len,
            unescape(s@.take(i as int)) == Some(out@),
        decreases len - i,
    {
        let c = s.get_char(i);
        if c == '\\' {
            if i + 1 == len {
                proof {
                    let tail = s@.skip(i as int);
                    assert(tail.len() == 1 && tail[0] == '\\');
                    assert(unescape(tail) is None);
                    lemma_unescape_append(s@.take(i as int), tail, out@);
                    assert(s@.take(i as int) + tail =~= s@);
                }
                return None;
            }
            let e = s.get_char(i + 1);
            let d: Option<char> = if e == '\\' {
                Some('\\')
            } else if e == 'c' {
                Some(':')
            } else if e == 'n' {
                Some('\n')
            } else {
                None
            };
            match d {
                Some(dc) => {
                    proof {
                        let pair = seq!['\\', e];
                        assert(pair.skip(2) =~= Seq::<char>::empty());
                        assert(unescape(pair.skip(2)) == Some(Seq::<char>::empty()));
                        assert(unescape(pair) == Some(seq![dc] + Seq::<char>::empty()));
                        lemma_unescape_append(s@.take(i as int), pair, out@);
                        assert(s@.take(i as int) + pair =~= s@.take(i as int + 2));
                        assert(out@ + (seq![dc] + Seq::<char>::empty()) =~= out@.push(dc));
                    }
                    push_char(&mut out, dc);
                    i = i + 2;
                },
                None => {
                    proof {
                        let tail = s@.skip(i as int);
                        assert(tail[0] == '\\' && tail.len() >= 2 && tail[1] == e);
                        assert(unesc_char(e) is None);
                        assert(unescape(tail) is None);
                        lemma_unescape_append(s@.take(i as int), tail, out@);
                        assert(s@.take(i as int) + tail =~= s@);
                    }
                    return None;
                },
            }
        } else {
            proof {
                let one = seq![c];
                assert(one.drop_first() =~= Seq::<char>::empty());
                assert(unescape(one.drop_first()) == Some(Seq::<char>::empty()));
                assert(unescape(one) == Some(seq![c] + Seq::<char>::empty()));
                lemma_unescape_append(s@.take(i as int), one, out@);
                assert(s@.take(i as int) + one =~= s@.take(i as int + 1));
                assert(out@ + (seq![c] + Seq::<char>::empty()) =~= out@.push(c));
            }
            push_char(&mut out, c);
            i = i + 1;
        }
    }
    proof {
        assert(s@.take(len as int) =~= s@);
    }
    Some(out)
}

/// `parts` with `c` grafted onto the front of its first part.
pub open spec fn prepend_first(c: Seq<char>, parts: Seq<Seq<char>>) -> Seq<Seq<char>> {
    seq![c + parts[0]] + parts.drop_first()
}

/// Grafting twice onto the first part grafts the concatenation.
proof fn lemma_prepend_first_assoc(a: Seq<char>, b: Seq<char>, parts: Seq<Seq<char>>)
    requires
        parts.len() >= 1,
    ensures
        prepend_first(a, prepend_first(b, parts)) =~~= prepend_first(a + b, parts),
{
    assert(prepend_first(b, parts)[0] == b + parts[0]);
    assert(prepend_first(b, parts).drop_first() =~~= parts.drop_first());
    assert(a + (b + parts[0]) =~= (a + b) + parts[0]);
}

/// Splits a string at every occurrence of `sep`.
pub fn split_str(s: &str, sep: char) -> (parts: Vec<String>)
    ensures
        char_seqs(parts@) == split_on(s@, sep),
        parts@.len() >= 1,
{
    let len = s.unicode_len();
    let mut acc: Vec<String> = Vec::new();
    let mut cur = String::new();
    let mut i: usize = 0;
    proof {
        assert(s@.skip(0) =~= s@);
        lemma_split_len(s@, sep);
        assert(prepend_first(Seq::<char>::empty(), split_on(s@, sep)) =~~= split_on(s@, sep));
        assert(char_seqs(acc@) =~~= Seq::<Seq<char>>::empty());
        assert(char_seqs(acc@) + split_on(s@, sep) =~~= split_on(s@, sep));
    }
    while i < len
        invariant
            len == s@.len(),
            i <= len,
            char_seqs(acc@) + prepend_first(cur@, split_on(s@.skip(i as int), sep)) =~~= split_on(
                s@,
                sep,
            ),
        decreases len - i,
    {
        let c = s.get_char(i);
        proof {
            lemma_split_len(s@.skip(i as int + 1), sep);
            assert(s@.skip(i as int).drop_first() =~= s@.skip(i as int + 1));
        }
        if c == sep {
            proof {
                let p = split_on(s@.skip(i as int + 1), sep);
                assert(split_on(s@.skip(i as int), sep) == seq![Seq::<char>::empty()] + p);
                assert(prepend_first(cur@, seq![Seq::<char>::empty()] + p) =~~= seq![cur@] + p);
                assert(prepend_first(Seq::<char>::empty(), p) =~~= p);
                assert(char_seqs(acc@.push(cur)) =~~= char_seqs(acc@).push(cur@));
                assert(char_seqs(acc@).push(cur@) + p =~~= char_seqs(acc@) + (seq![cur@] + p));
            }
            acc.push(cur);
            cur = String::new();
        } else {
            proof {
                let p = split_on(s@.skip(i as int + 1), sep);
                assert(split_on(s@.skip(i as int), sep) == prepend_first(seq![c], p));
                lemma_prepend_first_assoc(cur@, seq![c], p);
                assert(cur@ + seq![c] =~= cur@.push(c));
            }
            push_char(&mut cur, c);
        }
        i = i + 1;
    }
    proof {
        assert(s@.skip(len as int) =~= Seq::<char>::empty());
        assert(split_on(Seq::<char>::empty(), sep) == seq![Seq::<char>::empty()]);
        assert(prepend_first(cur@, seq![Seq::<char>::empty()]) =~~= seq![cur@]);
        assert(char_seqs(acc@.push(cur)) =~~= char_seqs(acc@).push(cur@));
        assert(char_seqs(acc@).push(cur@) =~~= char_seqs(acc@) + seq![cur@]);
    }
    acc.push(cur);
    acc
}

/// Joins strings with a single-character separator.
pub fn join_char(parts: &Vec<String>, sep: char) -> (r: String)
    ensures
        r@ == join_sep(char_seqs(parts@), seq![sep]),
{
    if parts.len() == 0 {
        return String::new();
    }
    let mut out = parts[0].clone();
    let mut i: usize = 1;
    proof {
        assert(char_seqs(parts@).take(1) =~~= seq![parts@[0]@]);
    }
    while i < parts.len()
        invariant
            1 <= i <= parts@.len(),
            out@ == join_sep(char_seqs(parts@).take(i as int), seq![sep]),
        decreases parts@.len() - i,
    {
        proof {
            lemma_join_push(char_seqs(parts@).take(i as int), parts@[i as int]@, seq![sep]);
            assert(char_seqs(parts@).take(i as int + 1) =~~= char_seqs(parts@).take(
                i as int,
            ).push(parts@[i as int]@));
        }
        push_char(&mut out, sep);
        out.append(parts[i].as_str());
        i = i + 1;
    }
    proof {
        assert(char_seqs(parts@).take(parts@.len() as int) =~~= char_seqs(parts@));
    }
    out
}

/// Joins strings with a string separator.
pub fn join_str(parts: &Vec<String>, sep: &str) -> (r: String)
    ensures
        r@ == join_sep(char_seqs(parts@), sep@),
{
    if parts.len() == 0 {
        return String::new();
    }
    let mut out = parts[0].clone();
    let mut i: usize = 1;
    proof {
        assert(char_seqs(parts@).take(1) =~~= seq![parts@[0]@]);
    }
    while i < parts.len()
        invariant
            1 <= i <= parts@.len(),
            out@ == join_sep(char_seqs(parts@).take(i as int), sep@),
        decreases parts@.len() - i,
    {
        proof {
            lemma_join_push(char_seqs(parts@).take(i as int), parts@[i as int]@, sep@);
            assert(char_seqs(parts@).take(i as int + 1) =~~= char_seqs(parts@).take(
                i as int,
            ).push(parts@[i as int]@));
        }
        out.append(sep);
        out.append(parts[i].as_str());
        i = i + 1;
    }
    proof {
        assert(char_seqs(parts@).take(parts@.len() as int) =~~= char_seqs(parts@));
    }
    out
}

} // verus!
