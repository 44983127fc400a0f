//! Splitting text on a separator character.
//!
//! Both wire decoders need this: the Bedrock reply is a semicolon-delimited
//! record, and IP literals are read as dot- or colon-separated groups.

use vstd::prelude::*;
use vstd::string::*;

verus! {

/// The fields of `s` between occurrences of `sep`: always one more field
/// than there are separators, and empty fields are kept.
pub open spec fn split_on(s: Seq<char>, sep: char) -> Seq<Seq<char>>
    decreases s.len(),
{
    if s.len() == 0 {
        seq![Seq::<char>::empty()]
    } else if s[0] == sep {
        seq![Seq::<char>::empty()] + split_on(s.drop_first(), sep)
    } else {
        let r = split_on(s.drop_first(), sep);
        r.update(0, seq![s[0]] + r[0])
    }
}

pub proof fn lemma_split_len(s: Seq<char>, sep: char)
    ensures
        split_on(s, sep).len() >= 1,
    decreases s.len(),
{
    if s.len() == 0 {
    } else {
        lemma_split_len(s.drop_first(), sep);
    }
}

/// Text without the separator splits into a single field: itself.
pub proof fn lemma_split_no_sep(s: Seq<char>, sep: char)
    requires
        forall|j: int| 0 <= j < s.len() ==> s[j] != sep,
    ensures
        split_on(s, sep) == seq![s],
    decreases s.len(),
{
    if s.len() == 0 {
        assert(s =~= Seq::<char>::empty());
        assert(split_on(s, sep) =~= seq![s]);
    } else {
        let t = s.drop_first();
        assert(forall|j: int| 0 <= j < t.len() ==> t[j] != sep);
        lemma_split_no_sep(t, sep);
        lemma_split_len(t, sep);
        assert(seq![s[0]] + t =~= s);
        assert(split_on(s, sep) =~= seq![s]);
    }
}

/// Splitting at the first separator: the head field, then the split of the
/// remainder.
pub proof fn lemma_split_at_first(s: Seq<char>, sep: char, i: int)
    requires
        0 <= i < s.len(),
        s[i] == sep,
        forall|j: int| 0 <= j < i ==> s[j] != sep,
    ensures
        split_on(s, sep) == seq![s.subrange(0, i)] + split_on(
            s.subrange(i + 1, s.len() as int),
            sep,
        ),
    decreases i,
{
    if i == 0 {
        assert(s.subrange(0, 0) =~= Seq::<char>::empty());
        assert(s.subrange(1, s.len() as int) =~= s.drop_first());
        assert(split_on(s, sep) =~= seq![s.subrange(0, 0)] + split_on(
            s.subrange(1, s.len() as int),
            sep,
        ));
    } else {
        let t = s.drop_first();
        assert(t[i - 1] == sep);
        assert(forall|j: int| 0 <= j < i - 1 ==> t[j] != sep);
        lemma_split_at_first(t, sep, i - 1);
        lemma_split_len(t.subrange(i, t.len() as int), sep);
        let r = split_on(t, sep);
        assert(r[0] == t.subrange(0, i - 1));
        assert(seq![s[0]] + t.subrange(0, i - 1) =~= s.subrange(0, i));
        assert(t.subrange(i, t.len() as int) =~= s.subrange(i + 1, s.len() as int));
        assert(split_on(s, sep) =~= seq![s.subrange(0, i)] + split_on(
            s.subrange(i + 1, s.len() as int),
            sep,
        ));
    }
}

/// Does some field of the split contain the character `c`?
pub open spec fn appears_in_parts(parts: Seq<Seq<char>>, c: char) -> bool {
    exists|p: int, k: int|
        0 <= p < parts.len() && 0 <= k < parts[p].len() && #[trigger] parts[p][k] == c
}

/// Every character of the text other than the separator survives the
/// split: it stands in some field.
pub proof fn lemma_split_covers(s: Seq<char>, sep: char, i: int)
    requires
        0 <= i < s.len(),
        s[i] != sep,
    ensures
        appears_in_parts(split_on(s, sep), s[i]),
    decreases s.len(),
{
    let parts = split_on(s, sep);
    let t = s.drop_first();
    if s[0] == sep {
        lemma_split_covers(t, sep, i - 1);
        let (p, k) = choose|p: int, k: int|
            0 <= p < split_on(t, sep).len() && 0 <= k < split_on(t, sep)[p].len()
                && #[trigger] split_on(t, sep)[p][k] == t[i - 1];
        assert(parts[p + 1] == split_on(t, sep)[p]);
        assert(parts[p + 1][k] == s[i]);
    } else {
        let r = split_on(t, sep);
        lemma_split_len(t, sep);
        if i == 0 {
            assert(parts[0] == seq![s[0]] + r[0]);
            assert(parts[0][0] == s[i]);
        } else {
            lemma_split_covers(t, sep, i - 1);
            let (p, k) = choose|p: int, k: int|
                0 <= p < r.len() && 0 <= k < r[p].len() && #[trigger] r[p][k] == t[i - 1];
            if p == 0 {
                assert(parts[0] == seq![s[0]] + r[0]);
                assert(parts[0][k + 1] == s[i]);
            } else {
                assert(parts[p] == r[p]);
                assert(parts[p][k] == s[i]);
            }
        }
    }
}

/// The index of the first occurrence of `sep` in `s`, if any.
fn find_sep(s: &str, sep: char) -> (r: Option<usize>)
    ensures
        match r {
            Some(i) => i < s@.len() && s@[i as int] == sep && forall|j: int|
                0 <= j < i ==> s@[j] != sep,
            None => forall|j: int| 0 <= j < s@.len() ==> s@[j] != sep,
        },
{
    let n = s.unicode_len();
    let mut i: usize = 0;
    while i < n
        invariant
            i <= n,
            n == s@.len(),
            forall|j: int| 0 <= j < i ==> s@[j] != sep,
        decreases n - i,
    {
        if s.get_char(i) == sep {
            return Some(i);
        }
        i += 1;
    }
    None
}

/// Split `s` on every occurrence of `sep`, keeping empty fields.
pub fn split_str(s: &str, sep: char) -> (r: Vec<String>)
    ensures
        r.deep_view() == split_on(s@, sep),
    decreases s@.len(),
{
    match find_sep(s, sep) {
        None => {
            proof {
                lemma_split_no_sep(s@, sep);
            }
            let mut r: Vec<String> = Vec::new();
            r.push(s.to_owned());
            proof {
                assert(r.deep_view() =~= seq![s@]);
            }
            r
        },
        Some(i) => {
            let n = s.unicode_len();
            let head = s.substring_char(0, i).to_owned();
            let tail = s.substring_char(i + 1, n);
            let mut r = split_str(tail, sep);
            r.insert(0, head);
            proof {
                lemma_split_at_first(s@, sep, i as int);
                assert(r.deep_view() =~= seq![s@.subrange(0, i as int)] + split_on(
                    s@.subrange(i as int + 1, s@.len() as int),
                    sep,
                ));
            }
            r
        },
    }
}

} // verus!
