//! Small string utilities with exact specifications: splitting on a
//! separator, trimming trailing separators, and joining pieces.

use vstd::prelude::*;

verus! {

/// Split on a separator: the pieces between occurrences, in order.  An
/// empty string is one empty piece; `n` separators make `n + 1` pieces.
pub open spec fn split_on(s: Seq<char>, sep: char) -> Seq<Seq<char>>
    decreases s.len(),
{
    if s.len() == 0 {
        seq![Seq::empty()]
    } else if s[0] == sep {
        seq![Seq::<char>::empty()] + split_on(s.drop_first(), sep)
    } else {
        let rest = split_on(s.drop_first(), sep);
        seq![seq![s[0]] + rest[0]] + rest.drop_first()
    }
}

/// A string without the separator splits to itself alone.
pub proof fn lemma_split_on_no_sep(s: Seq<char>, sep: char)
    requires
        forall|i: int| 0 <= i < s.len() ==> s[i] != sep,
    ensures
        split_on(s, sep) == seq![s],
    decreases s.len(),
{
    if s.len() == 0 {
        assert(split_on(s, sep) =~~= seq![s]);
    } else {
        assert(forall|i: int| 0 <= i < s.drop_first().len() ==> s.drop_first()[i] != sep);
        lemma_split_on_no_sep(s.drop_first(), sep);
        let rest = split_on(s.drop_first(), sep);
        assert(rest[0] == s.drop_first());
        assert(seq![s[0]] + s.drop_first() =~= s);
        assert(split_on(s, sep) =~~= seq![s]);
    }
}

/// Splitting at the first separator: a separator-free prefix becomes the
/// first piece, and the rest splits on its own.
pub proof fn lemma_split_on_first_sep(a: Seq<char>, b: Seq<char>, sep: char)
    requires
        forall|i: int| 0 <= i < a.len() ==> a[i] != sep,
    ensures
        split_on(a + seq![sep] + b, sep) == seq![a] + split_on(b, sep),
    decreases a.len(),
{
    let s = a + seq![sep] + b;
    if a.len() == 0 {
        assert(s[0] == sep);
        assert(s.drop_first() =~= b);
        assert(split_on(s, sep) =~~= seq![a] + split_on(b, sep));
    } else {
        assert(s[0] == a[0]);
        assert(s[0] != sep);
        assert(s.drop_first() =~= a.drop_first() + seq![sep] + b);
        assert(forall|i: int| 0 <= i < a.drop_first().len() ==> a.drop_first()[i] != sep);
        lemma_split_on_first_sep(a.drop_first(), b, sep);
        let rest = split_on(s.drop_first(), sep);
        assert(rest == seq![a.drop_first()] + split_on(b, sep));
        assert(rest[0] == a.drop_first());
        assert(rest.drop_first() =~~= split_on(b, sep));
        assert(seq![s[0]] + rest[0] =~= a);
        assert(split_on(s, sep) =~~= seq![a] + split_on(b, sep));
    }
}

/// The views of a piece list.
pub open spec fn pieces_view(v: Seq<String>) -> Seq<Seq<char>> {
    v.map_values(|p: String| p@)
}

/// Split a string on a separator character.
pub fn split_str(s: &str, sep: char) -> (r: Vec<String>)
    ensures
        pieces_view(r@) == split_on(s@, sep),
{
    let n = s.unicode_len();
    let mut out: Vec<String> = Vec::new();
    let mut piece_start: usize = 0;
    let mut i: usize = 0;
    proof {
        assert(pieces_view(out@) + split_on(s@.skip(0), sep) =~~= split_on(s@.skip(0), sep));
        assert(s@.skip(0) =~= s@);
    }
    while i < n
        invariant
            piece_start <= i <= n,
            n == s@.len(),
            forall|k: int| piece_start <= k < i ==> s@[k] != sep,
            split_on(s@, sep) == pieces_view(out@) + split_on(s@.skip(piece_start as int), sep),
        decreases n - i,
    {
        if s.get_char(i) == sep {
            let piece = s.substring_char(piece_start, i).to_owned();
            proof {
                let a = s@.subrange(piece_start as int, i as int);
                let b = s@.skip(i as int + 1);
                assert(s@.skip(piece_start as int) =~= a + seq![sep] + b);
                lemma_split_on_first_sep(a, b, sep);
                assert(pieces_view(out@.push(piece)) =~~= pieces_view(out@).push(a));
                assert(pieces_view(out@) + (seq![a] + split_on(b, sep)) =~~= pieces_view(
                    out@.push(piece),
                ) + split_on(b, sep));
            }
            out.push(piece);
            piece_start = i + 1;
        }
        i = i + 1;
    }
    let piece = s.substring_char(piece_start, n).to_owned();
    proof {
        let a = s@.skip(piece_start as int);
        assert(a =~= s@.subrange(piece_start as int, n as int));
        lemma_split_on_no_sep(a, sep);
        assert(pieces_view(out@.push(piece)) =~~= pieces_view(out@).push(a));
        assert(pieces_view(out@) + seq![a] =~~= pieces_view(out@.push(piece)));
    }
    out.push(piece);
    out
}

/// Drop every trailing occurrence of `c`.
pub open spec fn trim_trailing(s: Seq<char>, c: char) -> Seq<char>
    decreases s.len(),
{
    if s.len() > 0 && s.last() == c {
        trim_trailing(s.drop_last(), c)
    } else {
        s
    }
}

/// Trim trailing occurrences of a character from a string.
pub fn trim_trailing_str(s: &str, c: char) -> (r: &str)
    ensures
        r@ == trim_trailing(s@, c),
{
    let n = s.unicode_len();
    let mut end: usize = n;
    proof {
        assert(s@.take(n as int) =~= s@);
    }
    while end > 0 && s.get_char(end - 1) == c
        invariant
            end <= n,
            n == s@.len(),
            trim_trailing(s@, c) == trim_trailing(s@.take(end as int), c),
        decreases end,
    {
        proof {
            assert(s@.take(end as int).last() == s@[end - 1]);
            assert(s@.take(end as int).drop_last() =~= s@.take(end - 1));
        }
        end = end - 1;
    }
    proof {
        assert(trim_trailing(s@.take(end as int), c) == s@.take(end as int));
    }
    s.substring_char(0, end)
}

/// Join pieces with a separator between each adjacent pair.
pub open spec fn join_with(parts: Seq<Seq<char>>, sep: Seq<char>) -> Seq<char>
    decreases parts.len(),
{
    if parts.len() == 0 {
        Seq::empty()
    } else if parts.len() == 1 {
        parts[0]
    } else {
        parts[0] + sep + join_with(parts.drop_first(), sep)
    }
}

proof fn lemma_join_with_push(parts: Seq<Seq<char>>, x: Seq<char>, sep: Seq<char>)
    ensures
        join_with(parts.push(x), sep) == if parts.len() == 0 {
            x
        } else {
            join_with(parts, sep) + sep + x
        },
    decreases parts.len(),
{
    if parts.len() == 0 {
        assert(parts.push(x)[0] == x);
    } else {
        assert(parts.push(x).drop_first() =~~= parts.drop_first().push(x));
        assert(parts.push(x)[0] == parts[0]);
        lemma_join_with_push(parts.drop_first(), x, sep);
        if parts.len() == 1 {
            assert(parts.drop_first().len() == 0);
            assert(join_with(parts.push(x), sep) =~= parts[0] + sep + x);
            assert(join_with(parts, sep) == parts[0]);
        } else {
            assert(join_with(parts.push(x), sep) =~= parts[0] + sep + (join_with(
                parts.drop_first(),
                sep,
            ) + sep + x));
            assert(parts[0] + sep + (join_with(parts.drop_first(), sep) + sep + x) =~= (parts[0]
                + sep + join_with(parts.drop_first(), sep)) + sep + x);
        }
    }
}

/// Join strings with a separator.
pub fn join_str(parts: &Vec<String>, sep: &str) -> (r: String)
    ensures
        r@ == join_with(pieces_view(parts@), sep@),
{
    let mut out = String::new();
    let mut i: usize = 0;
    while i < parts.len()
        invariant
            i <= parts@.len(),
            out@ == join_with(pieces_view(parts@.take(i as int)), sep@),
        decreases parts@.len() - i,
    {
        if i > 0 {
            out.append(sep);
        }
        out.append(parts[i].as_str());
        proof {
            assert(pieces_view(parts@.take(i + 1 as int)) =~~= pieces_view(
                parts@.take(i as int),
            ).push(parts@[i as int]@));
            lemma_join_with_push(pieces_view(parts@.take(i as int)), parts@[i as int]@, sep@);
        }
        i = i + 1;
    }
    proof {
        assert(parts@.take(parts@.len() as int) =~= parts@);
    }
    out
}

} // verus!
