//! Words of a text: splitting at white space and joining with single spaces.

use vstd::prelude::*;
use vstd::string::*;

verus! {

/// Whether `c` has Unicode's White_Space property, which is the test that
/// `char::is_whitespace` makes.
pub open spec fn is_white_space(c: char) -> bool {
    let x = c as u32;
    ||| 0x9 <= x <= 0xD
    ||| x == 0x20
    ||| x == 0x85
    ||| x == 0xA0
    ||| x == 0x1680
    ||| 0x2000 <= x <= 0x200A
    ||| x == 0x2028
    ||| x == 0x2029
    ||| x == 0x202F
    ||| x == 0x205F
    ||| x == 0x3000
}

/// No character of `s` is white space.
pub open spec fn no_white_space(s: Seq<char>) -> bool {
    forall|i: int| 0 <= i < s.len() ==> !is_white_space(#[trigger] s[i])
}

/// A word: a non-empty run of characters none of which is white space.
pub open spec fn is_word(w: Seq<char>) -> bool {
    w.len() > 0 && no_white_space(w)
}

/// Every element of `ws` is a word.
pub open spec fn all_words(ws: Seq<Seq<char>>) -> bool {
    forall|i: int| 0 <= i < ws.len() ==> is_word(#[trigger] ws[i])
}

/// Reads `s` from left to right: the words completed so far, and the
/// characters of the word that is still open at the end of `s`.
pub open spec fn scan_words(s: Seq<char>) -> (Seq<Seq<char>>, Seq<char>)
    decreases s.len(),
{
    if s.len() == 0 {
        (seq![], seq![])
    } else {
        let (done, open) = scan_words(s.drop_last());
        if is_white_space(s.last()) {
            if open.len() > 0 {
                (done.push(open), seq![])
            } else {
                (done, seq![])
            }
        } else {
            (done, open.push(s.last()))
        }
    }
}

/// The words of `s`, in order: its maximal runs of characters that are not
/// white space (what `str::split_whitespace` yields).
pub open spec fn split_white_space(s: Seq<char>) -> Seq<Seq<char>> {
    let (done, open) = scan_words(s);
    if open.len() > 0 {
        done.push(open)
    } else {
        done
    }
}

/// The elements of `ws` with a single space between each two of them.
pub open spec fn join_with_spaces(ws: Seq<Seq<char>>) -> Seq<char>
    decreases ws.len(),
{
    if ws.len() == 0 {
        seq![]
    } else if ws.len() == 1 {
        ws[0]
    } else {
        join_with_spaces(ws.drop_last()) + seq![' '] + ws.last()
    }
}

/// The texts of a sequence of string slices.
pub open spec fn texts(ws: Seq<&str>) -> Seq<Seq<char>> {
    ws.map_values(|w: &str| w@)
}

/// Appending characters that are not white space extends the open word.
pub proof fn lemma_scan_extends_open_word(p: Seq<char>, x: Seq<char>)
    requires
        no_white_space(x),
    ensures
        scan_words(p + x) == (scan_words(p).0, scan_words(p).1 + x),
    decreases x.len(),
{
    if x.len() == 0 {
        assert(p + x =~= p);
        assert(scan_words(p).1 + x =~= scan_words(p).1);
    } else {
        let y = x.drop_last();
        assert((p + x).drop_last() =~= p + y);
        assert((p + x).last() == x.last());
        assert(!is_white_space(x[x.len() - 1]));
        lemma_scan_extends_open_word(p, y);
        assert((scan_words(p).1 + y).push(x.last()) =~= scan_words(p).1 + x);
    }
}

/// Reading the words of `ws` joined with spaces leaves all but the last word
/// completed and the last one open.
pub proof fn lemma_scan_joined(ws: Seq<Seq<char>>)
    requires
        ws.len() > 0,
        all_words(ws),
    ensures
        scan_words(join_with_spaces(ws)) == (ws.drop_last(), ws.last()),
    decreases ws.len(),
{
    let x = ws.last();
    assert(is_word(ws[ws.len() - 1]));
    if ws.len() == 1 {
        lemma_scan_extends_open_word(seq![], x);
        assert(Seq::<char>::empty() + x =~= x);
        assert(ws.drop_last() =~= seq![]);
    } else {
        let rest = ws.drop_last();
        assert(all_words(rest)) by {
            assert forall|i: int| 0 <= i < rest.len() implies is_word(#[trigger] rest[i]) by {
                assert(rest[i] == ws[i]);
            }
        }
        lemma_scan_joined(rest);
        let p = join_with_spaces(rest) + seq![' '];
        assert(p.drop_last() =~= join_with_spaces(rest));
        assert(is_white_space(p.last()));
        assert(is_word(rest[rest.len() - 1]));
        assert(rest.drop_last().push(rest.last()) =~= rest);
        assert(scan_words(p) == (rest, Seq::<char>::empty()));
        lemma_scan_extends_open_word(p, x);
        assert(Seq::<char>::empty() + x =~= x);
        assert(join_with_spaces(ws) =~= p + x);
    }
}

/// Splitting words joined with spaces gives the same words back.
pub proof fn lemma_split_join(ws: Seq<Seq<char>>)
    requires
        all_words(ws),
    ensures
        split_white_space(join_with_spaces(ws)) == ws,
{
    if ws.len() == 0 {
        assert(split_white_space(join_with_spaces(ws)) =~= ws);
    } else {
        lemma_scan_joined(ws);
        assert(is_word(ws[ws.len() - 1]));
        assert(ws.drop_last().push(ws.last()) =~= ws);
    }
}

/// What scanning has completed are words, and what is open has no white space.
pub proof fn lemma_scan_gives_words(s: Seq<char>)
    ensures
        all_words(scan_words(s).0),
        no_white_space(scan_words(s).1),
    decreases s.len(),
{
    if s.len() > 0 {
        lemma_scan_gives_words(s.drop_last());
        let (done, open) = scan_words(s.drop_last());
        if !is_white_space(s.last()) {
            assert forall|i: int| 0 <= i < open.push(s.last()).len() implies !is_white_space(
                #[trigger] open.push(s.last())[i],
            ) by {
                if i < open.len() {
                    assert(open.push(s.last())[i] == open[i]);
                }
            }
        } else if open.len() > 0 {
            assert forall|i: int| 0 <= i < done.push(open).len() implies is_word(
                #[trigger] done.push(open)[i],
            ) by {
                if i < done.len() {
                    assert(done.push(open)[i] == done[i]);
                }
            }
        }
    }
}

/// Every part that splitting yields is a word.
pub proof fn lemma_split_gives_words(s: Seq<char>)
    ensures
        all_words(split_white_space(s)),
{
    lemma_scan_gives_words(s);
    let (done, open) = scan_words(s);
    if open.len() > 0 {
        assert forall|i: int| 0 <= i < done.push(open).len() implies is_word(
            #[trigger] done.push(open)[i],
        ) by {
            if i < done.len() {
                assert(done.push(open)[i] == done[i]);
            }
        }
    }
}

/// A contiguous part of a sequence of words is a sequence of words.
pub proof fn lemma_words_subrange(ws: Seq<Seq<char>>, from: int, to: int)
    requires
        all_words(ws),
        0 <= from <= to <= ws.len(),
    ensures
        all_words(ws.subrange(from, to)),
{
    assert forall|i: int| 0 <= i < to - from implies is_word(
        #[trigger] ws.subrange(from, to)[i],
    ) by {
        assert(ws.subrange(from, to)[i] == ws[from + i]);
    }
}

/// Whether `c` is white space, as `char::is_whitespace` tells.
pub fn is_white_space_char(c: char) -> (r: bool)
    ensures
        r == is_white_space(c),
{
    let x = c as u32;
    (0x9 <= x && x <= 0xD) || x == 0x20 || x == 0x85 || x == 0xA0 || x == 0x1680 || (0x2000 <= x
        && x <= 0x200A) || x == 0x2028 || x == 0x2029 || x == 0x202F || x == 0x205F || x == 0x3000
}

/// The words of `s`, split at white space.
pub fn split_words<'a>(s: &'a str) -> (r: Vec<&'a str>)
    ensures
        texts(r@) == split_white_space(s@),
{
    let n = s.unicode_len();
    let mut words: Vec<&'a str> = Vec::new();
    let mut start: usize = 0;
    let mut i: usize = 0;
    assert(s@.take(0) =~= seq![]);
    while i < n
        invariant
            n == s@.len(),
            start <= i <= n,
            scan_words(s@.take(i as int)) == (texts(words@), s@.subrange(start as int, i as int)),
        decreases n - i,
    {
        let c = s.get_char(i);
        let ghost before = s@.take(i as int);
        assert(s@.take(i + 1).drop_last() =~= before);
        assert(s@.take(i + 1).last() == c);
        if is_white_space_char(c) {
            if start < i {
                let w = s.substring_char(start, i);
                let ghost prev = words@;
                words.push(w);
                assert(texts(words@) =~= texts(prev).push(w@));
            }
            start = i + 1;
            assert(s@.subrange(start as int, i + 1) =~= seq![]);
        } else {
            assert(s@.subrange(start as int, i as int).push(c) =~= s@.subrange(
                start as int,
                i + 1,
            ));
        }
        i = i + 1;
    }
    assert(s@.take(n as int) =~= s@);
    if start < n {
        let w = s.substring_char(start, n);
        let ghost prev = words@;
        words.push(w);
        assert(texts(words@) =~= texts(prev).push(w@));
    }
    words
}

/// The words `words[from..to]` joined with single spaces.
pub fn join_words(words: &[&str], from: usize, to: usize) -> (r: String)
    requires
        from <= to <= words@.len(),
    ensures
        r@ == join_with_spaces(texts(words@).subrange(from as int, to as int)),
{
    let mut r = String::new();
    let mut i = from;
    proof {
        reveal_strlit(" ");
    }
    assert(texts(words@).subrange(from as int, from as int) =~= seq![]);
    while i < to
        invariant
            from <= i <= to <= words@.len(),
            r@ == join_with_spaces(texts(words@).subrange(from as int, i as int)),
            " "@ == seq![' '],
        decreases to - i,
    {
        let ghost part = texts(words@).subrange(from as int, i as int);
        let ghost next = texts(words@).subrange(from as int, i + 1);
        assert(next.drop_last() =~= part);
        assert(next.last() == words@[i as int]@);
        if i > from {
            r.append(" ");
        } else {
            assert(part =~= seq![]);
        }
        r.append(words[i]);
        i = i + 1;
    }
    r
}

} // verus!
