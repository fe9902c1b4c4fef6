//! Text rules: lower-casing, substring search, and the words and tags of an
//! input line. Texts are modelled as sequences of characters.

use vstd::prelude::*;
use vstd::std_specs::iter::IteratorSpec;

verus! {

/// The lower-case form of a text, as `str::to_lowercase` computes it.
pub uninterp spec fn lowercase(s: Seq<char>) -> Seq<char>;

/// Whether a character is white space, as `char::is_whitespace` decides it.
pub uninterp spec fn is_whitespace(c: char) -> bool;

/// Calls `str::to_lowercase`. Trusted: the result depends on the characters
/// of `s` alone, so it is given the name `lowercase`; nothing else is claimed.
#[verifier::external_body]
pub(crate) fn to_lowercase(s: &str) -> (lower: String)
    ensures
        lower@ == lowercase(s@),
{
    s.to_lowercase()
}

/// Calls `char::is_whitespace`. Trusted: the answer depends on `c` alone, so
/// it is given the name `is_whitespace`; nothing else is claimed.
#[verifier::external_body]
pub(crate) fn char_is_whitespace(c: char) -> (b: bool)
    ensures
        b == is_whitespace(c),
{
    c.is_whitespace()
}

/// Calls `String::push`. Trusted: the character is appended at the end.
#[verifier::external_body]
pub(crate) fn push_char(s: &mut String, c: char)
    ensures
        final(s)@ == old(s)@.push(c),
{
    s.push(c);
}

/// Calls `String::pop`. Trusted: the last character is removed and
/// returned; an empty string stays empty and gives none.
#[verifier::external_body]
pub(crate) fn pop_char(s: &mut String) -> (last: Option<char>)
    ensures
        old(s)@.len() == 0 ==> last is None && final(s)@ == old(s)@,
        old(s)@.len() > 0 ==> last == Some(old(s)@.last()) && final(s)@ == old(s)@.drop_last(),
{
    s.pop()
}

/// The characters of a string, in order.
pub fn chars_of(s: &str) -> (v: Vec<char>)
    ensures
        v@ == s@,
{
    let mut v: Vec<char> = Vec::new();
    let mut it = s.chars();
    loop
        invariant
            v@ + it.remaining() == s@,
            it.obeys_prophetic_iter_laws(),
            it.decrease() is Some,
        decreases it.decrease()->0,
    {
        match it.next() {
            Some(c) => {
                v.push(c);
                assert(v@ + it.remaining() =~= s@);
            },
            None => {
                assert(v@ =~= s@);
                return v;
            },
        }
    }
}

/// `needle` stands in `hay` at offset `at`.
pub open spec fn occurs_at(hay: Seq<char>, needle: Seq<char>, at: int) -> bool {
    &&& 0 <= at
    &&& at + needle.len() <= hay.len()
    &&& forall|k: int| 0 <= k < needle.len() ==> hay[at + k] == needle[k]
}

/// `needle` is a contiguous part of `hay`. The empty text is part of every text.
pub open spec fn contains(hay: Seq<char>, needle: Seq<char>) -> bool {
    exists|at: int| occurs_at(hay, needle, at)
}

/// Whether `needle` stands in `hay` at offset `at`.
fn occurs_at_exec(hay: &Vec<char>, needle: &Vec<char>, at: usize) -> (found: bool)
    requires
        at + needle.len() <= hay.len(),
    ensures
        found == occurs_at(hay@, needle@, at as int),
{
    let mut k: usize = 0;
    while k < needle.len()
        invariant
            k <= needle.len(),
            at + needle.len() <= hay.len(),
            forall|j: int| 0 <= j < k ==> hay@[at + j] == needle@[j],
        decreases needle.len() - k,
    {
        if hay[at + k] != needle[k] {
            return false;
        }
        k += 1;
    }
    true
}

/// Whether one list of characters is a contiguous part of another.
pub fn contains_chars(hay: &Vec<char>, needle: &Vec<char>) -> (found: bool)
    ensures
        found == contains(hay@, needle@),
{
    if needle.len() > hay.len() {
        return false;
    }
    let last: usize = hay.len() - needle.len();
    let mut at: usize = 0;
    while at <= last
        invariant
            last == hay.len() - needle.len(),
            at <= last + 1,
            forall|j: int| 0 <= j < at ==> !occurs_at(hay@, needle@, j),
        decreases last + 1 - at,
    {
        if occurs_at_exec(hay, needle, at) {
            return true;
        }
        at += 1;
    }
    false
}

/// Whether `needle` is a contiguous part of `hay`.
pub fn contains_text(hay: &str, needle: &str) -> (found: bool)
    ensures
        found == contains(hay@, needle@),
{
    let h = chars_of(hay);
    let n = chars_of(needle);
    contains_chars(&h, &n)
}

/// Whether two texts hold the same characters.
pub fn same_text(a: &str, b: &str) -> (same: bool)
    ensures
        same == (a@ == b@),
{
    let x = chars_of(a);
    let y = chars_of(b);
    if x.len() != y.len() {
        return false;
    }
    let mut k: usize = 0;
    while k < x.len()
        invariant
            x@ == a@,
            y@ == b@,
            k <= x.len(),
            x.len() == y.len(),
            forall|j: int| 0 <= j < k ==> x@[j] == y@[j],
        decreases x.len() - k,
    {
        if x[k] != y[k] {
            return false;
        }
        k += 1;
    }
    assert(x@ =~= y@);
    true
}

/// The words of `rest`, read after the characters `word` of a word that is
/// under way: white space ends a word, and empty words are not counted.
pub open spec fn words_after(word: Seq<char>, rest: Seq<char>) -> Seq<Seq<char>>
    decreases rest.len(),
{
    if rest.len() == 0 {
        if word.len() == 0 {
            Seq::empty()
        } else {
            seq![word]
        }
    } else if is_whitespace(rest[0]) {
        if word.len() == 0 {
            words_after(word, rest.drop_first())
        } else {
            seq![word] + words_after(Seq::empty(), rest.drop_first())
        }
    } else {
        words_after(word.push(rest[0]), rest.drop_first())
    }
}

/// The maximal runs of characters of `s` that are not white space, in order.
pub open spec fn words(s: Seq<char>) -> Seq<Seq<char>> {
    words_after(Seq::empty(), s)
}

/// A run of characters that is not empty and holds no white space.
pub open spec fn is_word(w: Seq<char>) -> bool {
    w.len() > 0 && forall|j: int| 0 <= j < w.len() ==> !is_whitespace(#[trigger] w[j])
}

/// Every word of a text is a run of characters that is not empty and holds
/// no white space.
pub proof fn words_are_words(word: Seq<char>, rest: Seq<char>)
    requires
        word.len() == 0 || is_word(word),
    ensures
        forall|k: int|
            0 <= k < words_after(word, rest).len() ==> is_word(#[trigger] words_after(word, rest)[k]),
    decreases rest.len(),
{
    let all = words_after(word, rest);
    if rest.len() == 0 {
        if word.len() > 0 {
            assert(all[0] == word);
        }
    } else if is_whitespace(rest[0]) {
        let later = words_after(Seq::empty(), rest.drop_first());
        words_are_words(Seq::empty(), rest.drop_first());
        if word.len() > 0 {
            assert forall|k: int| 0 <= k < all.len() implies is_word(#[trigger] all[k]) by {
                if k > 0 {
                    assert(all[k] == later[k - 1]);
                } else {
                    assert(all[k] == word);
                }
            }
        } else {
            assert(word =~= Seq::<char>::empty());
            assert(all == later);
        }
    } else {
        let longer = word.push(rest[0]);
        assert forall|j: int| 0 <= j < longer.len() implies !is_whitespace(
            #[trigger] longer[j],
        ) by {
            if j < word.len() {
                assert(longer[j] == word[j]);
            }
        }
        words_are_words(longer, rest.drop_first());
        assert(all == words_after(longer, rest.drop_first()));
    }
}

/// A word is a tag when it begins with `#`.
pub open spec fn is_tag(word: Seq<char>) -> bool {
    word.len() > 0 && word[0] == '#'
}

/// The tags of an input line: its words that begin with `#`, in order, as
/// written, repeats included.
pub open spec fn tags_of(s: Seq<char>) -> Seq<Seq<char>> {
    words(s).filter(|w: Seq<char>| is_tag(w))
}

/// Splits a text into its words.
pub fn split_words(s: &str) -> (out: Vec<String>)
    ensures
        out.deep_view() == words(s@),
{
    let chars = chars_of(s);
    let mut out: Vec<String> = Vec::new();
    let mut start: usize = 0;
    let mut i: usize = 0;
    proof {
        assert(s@.subrange(0, 0) =~= Seq::<char>::empty());
        assert(s@.skip(0) =~= s@);
        assert(out.deep_view() + words(s@) =~= words(s@));
    }
    while i < chars.len()
        invariant
            chars@ == s@,
            start <= i <= chars.len(),
            out.deep_view() + words_after(s@.subrange(start as int, i as int), s@.skip(i as int))
                == words(s@),
        decreases chars.len() - i,
    {
        let ghost word = s@.subrange(start as int, i as int);
        let ghost rest = s@.skip(i as int);
        let ghost done = out.deep_view();
        assert(rest.len() > 0 && rest[0] == s@[i as int]);
        assert(rest.drop_first() =~= s@.skip(i + 1));
        if char_is_whitespace(chars[i]) {
            if start < i {
                let w = s.substring_char(start, i).to_owned();
                out.push(w);
                assert(out.deep_view() =~= done + seq![word]);
                assert(s@.subrange(i + 1, i + 1) =~= Seq::<char>::empty());
                assert(done + seq![word] + words_after(Seq::empty(), rest.drop_first()) =~= done
                    + (seq![word] + words_after(Seq::empty(), rest.drop_first())));
            } else {
                assert(word =~= Seq::<char>::empty());
                assert(s@.subrange(i + 1, i + 1) =~= word);
            }
            start = i + 1;
        } else {
            assert(s@.subrange(start as int, i + 1) =~= word.push(rest[0]));
        }
        i += 1;
    }
    let ghost done = out.deep_view();
    assert(s@.skip(i as int).len() == 0);
    if start < i {
        let w = s.substring_char(start, i).to_owned();
        out.push(w);
        assert(out.deep_view() =~= done + seq![s@.subrange(start as int, i as int)]);
    } else {
        assert(done + Seq::<Seq<char>>::empty() =~= done);
    }
    out
}

/// Whether a word begins with `#`.
pub fn starts_with_hash(word: &str) -> (b: bool)
    ensures
        b == is_tag(word@),
{
    if word.is_empty() {
        false
    } else {
        word.get_char(0) == '#'
    }
}

/// The tags of an input line.
pub fn extract_tags(s: &str) -> (tags: Vec<String>)
    ensures
        tags.deep_view() == tags_of(s@),
{
    let all = split_words(s);
    let ghost pred = |w: Seq<char>| is_tag(w);
    let mut tags: Vec<String> = Vec::new();
    let mut i: usize = 0;
    proof {
        reveal(Seq::filter);
        assert(all.deep_view().take(0) =~= Seq::<Seq<char>>::empty());
    }
    while i < all.len()
        invariant
            i <= all.len(),
            all.deep_view() == words(s@),
            pred == (|w: Seq<char>| is_tag(w)),
            tags.deep_view() == all.deep_view().take(i as int).filter(pred),
        decreases all.len() - i,
    {
        let ghost before = tags.deep_view();
        let ghost prefix = all.deep_view().take(i as int);
        let ghost next = all.deep_view().take(i + 1);
        proof {
            reveal(Seq::filter);
            assert(next.drop_last() =~= prefix);
            assert(next.last() == all[i as int]@);
        }
        if starts_with_hash(all[i].as_str()) {
            tags.push(all[i].clone());
            assert(tags.deep_view() =~= before.push(all[i as int]@));
        }
        i += 1;
    }
    assert(all.deep_view().take(i as int) =~= all.deep_view());
    tags
}

} // verus!
