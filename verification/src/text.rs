use vstd::prelude::*;

verus! {

/// The code point of a character after ASCII case folding: the letters
/// `'A'..='Z'` fold to their lower-case forms, every other character is left
/// as it is.
pub open spec fn lower_code(c: char) -> int {
    if 65 <= c as u32 && c as u32 <= 90 {
        c as u32 + 32
    } else {
        c as u32 as int
    }
}

/// Two characters are equal up to ASCII case.
pub open spec fn chars_eq_ignore_case(a: char, b: char) -> bool {
    lower_code(a) == lower_code(b)
}

/// Two strings are equal up to ASCII case: the same length, and equal
/// character by character once ASCII letters are folded.
pub open spec fn eq_ignore_case(a: Seq<char>, b: Seq<char>) -> bool {
    &&& a.len() == b.len()
    &&& forall|i: int| 0 <= i < a.len() ==> chars_eq_ignore_case(#[trigger] a[i], b[i])
}

/// Compares two strings for equality up to ASCII case.
pub fn str_eq_ignore_case(a: &str, b: &str) -> (r: bool)
    ensures
        r == eq_ignore_case(a@, b@),
{
    let a_len = a.unicode_len();
    let b_len = b.unicode_len();
    if a_len != b_len {
        return false;
    }
    for i in 0..a_len
        invariant
            a_len == a@.len(),
            a_len == b@.len(),
            forall|j: int| 0 <= j < i ==> chars_eq_ignore_case(#[trigger] a@[j], b@[j]),
    {
        let ca = a.get_char(i) as u32;
        let cb = b.get_char(i) as u32;
        let la: u32 = if 65 <= ca && ca <= 90 {
            ca + 32
        } else {
            ca
        };
        let lb: u32 = if 65 <= cb && cb <= 90 {
            cb + 32
        } else {
            cb
        };
        if la != lb {
            assert(!chars_eq_ignore_case(a@[i as int], b@[i as int]));
            return false;
        }
        assert(chars_eq_ignore_case(a@[i as int], b@[i as int]));
    }
    true
}

/// The character sequences of a sequence of strings, element for element.
pub open spec fn str_views(s: Seq<String>) -> Seq<Seq<char>> {
    s.map_values(|t: String| t@)
}

/// The Unicode-lowercased form of a string: what `str::to_lowercase`
/// returns. Its value on given characters follows Unicode's folding tables
/// and is not spelled out here; it is a function of the characters alone.
pub uninterp spec fn lower_of(s: Seq<char>) -> Seq<char>;

/// Relies on str::to_lowercase: full Unicode lowercasing, depending on the
/// characters alone (no locale).
#[verifier::external_body]
pub(crate) fn to_lowercase(s: &str) -> (r: String)
    ensures
        r@ == lower_of(s@),
{
    s.to_lowercase()
}

/// The pieces of `s` delimited by `sep`, in order: splitting `"a;b"` on `';'`
/// gives `["a", "b"]`. A leading, trailing or doubled separator yields an
/// empty piece, and the empty string splits into one empty piece.
pub open spec fn split_on(s: Seq<char>, sep: char) -> Seq<Seq<char>>
    decreases s.len(),
{
    if s.len() == 0 {
        seq![Seq::<char>::empty()]
    } else if s[0] == sep {
        seq![Seq::<char>::empty()] + split_on(s.skip(1), sep)
    } else {
        let rest = split_on(s.skip(1), sep);
        seq![seq![s[0]] + rest[0]] + rest.skip(1)
    }
}

/// A split always yields at least one piece.
pub proof fn lemma_split_on_len(s: Seq<char>, sep: char)
    ensures
        split_on(s, sep).len() >= 1,
    decreases s.len(),
{
    if s.len() > 0 && s[0] != sep {
        lemma_split_on_len(s.skip(1), sep);
    }
}

/// Appending the separator appends one empty piece.
pub proof fn lemma_split_push_sep(s: Seq<char>, sep: char)
    ensures
        split_on(s.push(sep), sep) == split_on(s, sep).push(Seq::<char>::empty()),
    decreases s.len(),
{
    lemma_split_on_len(s, sep);
    if s.len() == 0 {
        assert(s.push(sep)[0] == sep);
        assert(s.push(sep).skip(1) =~= Seq::<char>::empty());
        assert(split_on(s.push(sep).skip(1), sep) == seq![Seq::<char>::empty()]);
        assert(split_on(s.push(sep), sep) =~= split_on(s, sep).push(Seq::<char>::empty()));
    } else {
        lemma_split_push_sep(s.skip(1), sep);
        lemma_split_on_len(s.skip(1), sep);
        assert(s.push(sep)[0] == s[0]);
        assert(s.push(sep).skip(1) =~= s.skip(1).push(sep));
        let rest = split_on(s.skip(1), sep);
        assert(split_on(s.skip(1).push(sep), sep) == rest.push(Seq::<char>::empty()));
        if s[0] == sep {
            assert(split_on(s.push(sep), sep) == seq![Seq::<char>::empty()] + rest.push(
                Seq::<char>::empty(),
            ));
            assert(split_on(s, sep) == seq![Seq::<char>::empty()] + rest);
            assert(seq![Seq::<char>::empty()] + rest.push(Seq::<char>::empty()) =~= (seq![
                Seq::<char>::empty(),
            ] + rest).push(Seq::<char>::empty()));
        } else {
            let ext = rest.push(Seq::<char>::empty());
            assert(ext[0] == rest[0]);
            assert(split_on(s.push(sep), sep) == seq![seq![s[0]] + ext[0]] + ext.skip(1));
            assert(split_on(s, sep) == seq![seq![s[0]] + rest[0]] + rest.skip(1));
            assert(ext.skip(1) =~= rest.skip(1).push(Seq::<char>::empty()));
            assert(seq![seq![s[0]] + rest[0]] + rest.skip(1).push(Seq::<char>::empty()) =~= (seq![
                seq![s[0]] + rest[0],
            ] + rest.skip(1)).push(Seq::<char>::empty()));
        }
    }
}

/// Appending an ordinary character extends the last piece by it.
pub proof fn lemma_split_push_char(s: Seq<char>, sep: char, c: char)
    requires
        c != sep,
    ensures
        split_on(s.push(c), sep) == split_on(s, sep).update(
            split_on(s, sep).len() - 1,
            split_on(s, sep).last().push(c),
        ),
    decreases s.len(),
{
    lemma_split_on_len(s, sep);
    if s.len() == 0 {
        assert(s.push(c)[0] == c);
        assert(s.push(c).skip(1) =~= Seq::<char>::empty());
        assert(seq![c] + split_on(Seq::<char>::empty(), sep)[0] =~= Seq::<char>::empty().push(c));
        assert(split_on(s.push(c), sep) =~= split_on(s, sep).update(
            split_on(s, sep).len() - 1,
            split_on(s, sep).last().push(c),
        ));
    } else {
        lemma_split_push_char(s.skip(1), sep, c);
        assert(s.push(c)[0] == s[0]);
        assert(s.push(c).skip(1) =~= s.skip(1).push(c));
        lemma_split_on_len(s.skip(1), sep);
        let rest = split_on(s.skip(1), sep);
        let rest_ext = rest.update(rest.len() - 1, rest.last().push(c));
        if s[0] == sep {
            assert(split_on(s.push(c), sep) =~= seq![Seq::<char>::empty()] + rest_ext);
            assert(seq![Seq::<char>::empty()] + rest_ext =~= split_on(s, sep).update(
                split_on(s, sep).len() - 1,
                split_on(s, sep).last().push(c),
            ));
        } else {
            if rest.len() == 1 {
                assert(rest_ext[0] == rest[0].push(c));
                assert(split_on(s.push(c), sep) =~= seq![seq![s[0]] + rest_ext[0]] + rest_ext.skip(
                    1,
                ));
                assert(seq![s[0]] + rest[0].push(c) =~= (seq![s[0]] + rest[0]).push(c));
                assert(split_on(s.push(c), sep) =~= split_on(s, sep).update(
                    split_on(s, sep).len() - 1,
                    split_on(s, sep).last().push(c),
                ));
            } else {
                assert(rest_ext[0] == rest[0]);
                assert(rest_ext.skip(1) =~= rest.skip(1).update(
                    rest.skip(1).len() - 1,
                    rest.skip(1).last().push(c),
                ));
                assert(split_on(s.push(c), sep) =~= split_on(s, sep).update(
                    split_on(s, sep).len() - 1,
                    split_on(s, sep).last().push(c),
                ));
            }
        }
    }
}

/// Splits `s` into the pieces delimited by `sep`, in order.
pub fn split_str(s: &str, sep: char) -> (r: Vec<String>)
    ensures
        r@.map_values(|t: String| t@) == split_on(s@, sep),
{
    let len = s.unicode_len();
    let mut out: Vec<String> = Vec::new();
    let mut start: usize = 0;
    proof {
        assert(s@.take(0) =~= Seq::<char>::empty());
        assert(s@.subrange(0, 0) =~= Seq::<char>::empty());
        assert(out@.map_values(|t: String| t@).push(s@.subrange(0, 0)) =~= split_on(
            s@.take(0),
            sep,
        ));
    }
    for i in 0..len
        invariant
            start <= i <= len,
            len == s@.len(),
            out@.map_values(|t: String| t@).push(s@.subrange(start as int, i as int)) == split_on(
                s@.take(i as int),
                sep,
            ),
    {
        let c = s.get_char(i);
        proof {
            assert(s@.take(i as int).push(s@[i as int]) =~= s@.take(i + 1 as int));
        }
        if c == sep {
            proof {
                lemma_split_push_sep(s@.take(i as int), sep);
            }
            let ghost m_old = out@.map_values(|t: String| t@);
            let ghost start_old = start as int;
            let piece = s.substring_char(start, i).to_owned();
            out.push(piece);
            start = i + 1;
            proof {
                assert(out@.map_values(|t: String| t@) =~= m_old.push(
                    s@.subrange(start_old, i as int),
                ));
                assert(s@.subrange(start as int, i + 1 as int) =~= Seq::<char>::empty());
                assert(out@.map_values(|t: String| t@).push(
                    s@.subrange(start as int, i + 1 as int),
                ) =~= split_on(s@.take(i + 1 as int), sep));
            }
        } else {
            proof {
                lemma_split_push_char(s@.take(i as int), sep, c);
                lemma_split_on_len(s@.take(i as int), sep);
                let m = out@.map_values(|t: String| t@);
                assert(m.push(s@.subrange(start as int, i as int)).update(
                    m.len() as int,
                    s@.subrange(start as int, i as int).push(c),
                ) =~= m.push(s@.subrange(start as int, i as int).push(c)));
                assert(s@.subrange(start as int, i as int).push(c) =~= s@.subrange(
                    start as int,
                    i + 1 as int,
                ));
                assert(out@.map_values(|t: String| t@).push(
                    s@.subrange(start as int, i + 1 as int),
                ) =~= split_on(s@.take(i + 1 as int), sep));
            }
        }
    }
    let ghost m_old = out@.map_values(|t: String| t@);
    let ghost start_old = start as int;
    let piece = s.substring_char(start, len).to_owned();
    out.push(piece);
    proof {
        assert(out@.map_values(|t: String| t@) =~= m_old.push(s@.subrange(start_old, len as int)));
        assert(s@.take(len as int) =~= s@);
        assert(out@.map_values(|t: String| t@) =~= split_on(s@, sep));
    }
    out
}

} // verus!
