//! Reading the model's replies.  The model is asked several times whether
//! someone is lying in bed; each reply is reduced to its first word, which
//! counts as a "yes", a "no", or nothing, and the answer is "yes" when the
//! yes-votes outnumber the no-votes.

use vstd::prelude::*;

verus! {

/// How one reply counts.
#[derive(Debug, Clone, Copy, PartialEq, Eq, Structural)]
pub enum Vote {
    /// The reply says someone is lying in bed.
    InBed,
    /// The reply says nobody is lying in bed.
    NotInBed,
    /// The reply says neither.
    Unclear,
}

/// The characters that split a reply into words: ASCII space, tab, line
/// feed, form feed and carriage return.
pub open spec fn is_ascii_space(c: char) -> bool {
    c == ' ' || c == '\t' || c == '\n' || c == '\x0C' || c == '\r'
}

/// `s` without its leading word separators.
pub open spec fn skip_spaces(s: Seq<char>) -> Seq<char>
    decreases s.len(),
{
    if s.len() > 0 && is_ascii_space(s[0]) {
        skip_spaces(s.drop_first())
    } else {
        s
    }
}

/// The characters of `s` up to its first word separator.
pub open spec fn word_prefix(s: Seq<char>) -> Seq<char>
    decreases s.len(),
{
    if s.len() > 0 && !is_ascii_space(s[0]) {
        seq![s[0]] + word_prefix(s.drop_first())
    } else {
        Seq::empty()
    }
}

/// The first word of `s`, if it has one.
pub open spec fn first_word(s: Seq<char>) -> Option<Seq<char>> {
    let rest = skip_spaces(s);
    if rest.len() == 0 {
        None
    } else {
        Some(word_prefix(rest))
    }
}

/// Marks dropped from a word before it is read: `.`, space, `!`, `,`, `;`.
pub open spec fn is_dropped_mark(c: char) -> bool {
    c == '.' || c == ' ' || c == '!' || c == ',' || c == ';'
}

/// `s` without its dropped marks.
pub open spec fn strip_marks(s: Seq<char>) -> Seq<char>
    decreases s.len(),
{
    if s.len() == 0 {
        Seq::empty()
    } else if is_dropped_mark(s.last()) {
        strip_marks(s.drop_last())
    } else {
        strip_marks(s.drop_last()).push(s.last())
    }
}

/// How a cleaned-up word counts.
pub open spec fn vote_for_word(w: Seq<char>) -> Vote {
    if w == seq!['t', 'r', 'u', 'e'] || w == seq!['y', 'e', 's'] || w == seq!['T'] || w
        == seq!['t'] {
        Vote::InBed
    } else if w == seq!['f', 'a', 'l', 's', 'e'] || w == seq!['n', 'o'] || w == seq!['F'] || w
        == seq!['f'] {
        Vote::NotInBed
    } else {
        Vote::Unclear
    }
}

/// Position of the first character at or after `from` that is (`space`) or
/// is not (`!space`) a word separator, or the end of `s`.
fn scan(s: &str, len: usize, from: usize, space: bool) -> (to: usize)
    requires
        len == s@.len(),
        from <= len,
    ensures
        from <= to <= len,
        forall|k: int| from <= k < to ==> is_ascii_space(#[trigger] s@[k]) != space,
        to < len ==> is_ascii_space(s@[to as int]) == space,
{
    let mut i = from;
    while i < len
        invariant
            from <= i <= len,
            len == s@.len(),
            forall|k: int| from <= k < i ==> is_ascii_space(#[trigger] s@[k]) != space,
        decreases len - i,
    {
        let c = s.get_char(i);
        let sep = c == ' ' || c == '\t' || c == '\n' || c == '\x0C' || c == '\r';
        if sep == space {
            return i;
        }
        i = i + 1;
    }
    i
}

proof fn lemma_skip_spaces(s: Seq<char>, i: int)
    requires
        0 <= i <= s.len(),
        forall|k: int| 0 <= k < i ==> is_ascii_space(#[trigger] s[k]),
        i == s.len() || !is_ascii_space(s[i]),
    ensures
        skip_spaces(s) == s.skip(i),
    decreases i,
{
    if i > 0 {
        assert(s.drop_first().skip(i - 1) =~= s.skip(i));
        lemma_skip_spaces(s.drop_first(), i - 1);
    } else {
        assert(s.skip(0) =~= s);
    }
}

proof fn lemma_word_prefix(s: Seq<char>, j: int)
    requires
        0 <= j <= s.len(),
        forall|k: int| 0 <= k < j ==> !is_ascii_space(#[trigger] s[k]),
        j == s.len() || is_ascii_space(s[j]),
    ensures
        word_prefix(s) == s.take(j),
    decreases j,
{
    if j > 0 {
        lemma_word_prefix(s.drop_first(), j - 1);
        assert(seq![s[0]] + s.drop_first().take(j - 1) =~= s.take(j));
    } else {
        assert(s.take(0) =~= Seq::<char>::empty());
    }
}

/// The first word of `s`: the text that `split_ascii_whitespace` yields
/// first.
pub fn first_word_of(s: &str) -> (w: Option<&str>)
    ensures
        match w {
            Some(word) => first_word(s@) == Some(word@),
            None => first_word(s@) is None,
        },
{
    let len = s.unicode_len();
    let start = scan(s, len, 0, false);
    proof {
        lemma_skip_spaces(s@, start as int);
    }
    if start == len {
        return None;
    }
    let end = scan(s, len, start, true);
    proof {
        let rest = s@.skip(start as int);
        assert forall|k: int| 0 <= k < end - start implies !is_ascii_space(#[trigger] rest[k]) by {
            assert(rest[k] == s@[start + k]);
        }
        lemma_word_prefix(rest, end - start);
        assert(rest.take(end - start) =~= s@.subrange(start as int, end as int));
    }
    Some(s.substring_char(start, end))
}

/// `s` without `.`, spaces, `!`, `,` and `;`.
pub fn strip_marks_of(s: &str) -> (out: Vec<char>)
    ensures
        out@ == strip_marks(s@),
{
    let len = s.unicode_len();
    let mut out: Vec<char> = Vec::new();
    for i in 0..len
        invariant
            len == s@.len(),
            out@ == strip_marks(s@.take(i as int)),
    {
        let c = s.get_char(i);
        assert(s@.take(i + 1).drop_last() =~= s@.take(i as int));
        if !(c == '.' || c == ' ' || c == '!' || c == ',' || c == ';') {
            out.push(c);
        }
    }
    assert(s@.take(len as int) =~= s@);
    out
}

/// Whether `w` spells out exactly `word`.
fn spells(w: &Vec<char>, word: &str) -> (same: bool)
    ensures
        same == (w@ == word@),
{
    let n = word.unicode_len();
    if w.len() != n {
        return false;
    }
    for i in 0..n
        invariant
            n == word@.len(),
            w@.len() == n,
            forall|k: int| 0 <= k < i ==> w@[k] == word@[k],
    {
        if w[i] != word.get_char(i) {
            return false;
        }
    }
    assert(w@ =~= word@);
    true
}

/// How a word that has already been lowercased counts: its marks are
/// dropped, then "true", "yes", "T" and "t" mean someone is in bed, and
/// "false", "no", "F" and "f" mean nobody is.
pub fn vote_for_lowered_word(lowered: &str) -> (v: Vote)
    ensures
        v == vote_for_word(strip_marks(lowered@)),
{
    let w = strip_marks_of(lowered);
    proof {
        reveal_strlit("true");
        reveal_strlit("yes");
        reveal_strlit("T");
        reveal_strlit("t");
        reveal_strlit("false");
        reveal_strlit("no");
        reveal_strlit("F");
        reveal_strlit("f");
        assert("true"@ =~= seq!['t', 'r', 'u', 'e']);
        assert("yes"@ =~= seq!['y', 'e', 's']);
        assert("T"@ =~= seq!['T']);
        assert("t"@ =~= seq!['t']);
        assert("false"@ =~= seq!['f', 'a', 'l', 's', 'e']);
        assert("no"@ =~= seq!['n', 'o']);
        assert("F"@ =~= seq!['F']);
        assert("f"@ =~= seq!['f']);
    }
    if spells(&w, "true") || spells(&w, "yes") || spells(&w, "T") || spells(&w, "t") {
        Vote::InBed
    } else if spells(&w, "false") || spells(&w, "no") || spells(&w, "F") || spells(&w, "f") {
        Vote::NotInBed
    } else {
        Vote::Unclear
    }
}

} // verus!

verus! {

/// What `str::to_lowercase` returns for a text: its lowercase form under
/// Unicode's rules.
pub uninterp spec fn lowercase(s: Seq<char>) -> Seq<char>;

/// Whether every character of `s` is ASCII.
pub open spec fn is_ascii_text(s: Seq<char>) -> bool {
    forall|i: int| 0 <= i < s.len() ==> (#[trigger] s[i] as int) < 128
}

/// The ASCII lowercase of a character: `A`-`Z` become `a`-`z`, every other
/// character stays.
pub open spec fn ascii_lower(c: char) -> char {
    if 65 <= (c as int) <= 90 { ((c as int) + 32) as char } else { c }
}

/// `str::to_lowercase` of std.  Claimed: the result is the named lowercase
/// form of the argument, a function of the argument alone; and, for a text
/// of ASCII characters only, it is that text with `A`-`Z` turned into
/// `a`-`z` (std lowercases by Unicode's mappings, which map these letters
/// so and leave the rest of ASCII alone; std's own example turns "HELLO"
/// into "hello").  Nothing more is stated of Unicode's rules.
#[verifier::external_body]
fn to_lowercase(s: &str) -> (lowered: String)
    ensures
        lowered@ == lowercase(s@),
        is_ascii_text(s@) ==> lowered@ == s@.map_values(|c: char| ascii_lower(c)),
{
    s.to_lowercase()
}

/// The word read for a reply without any word.
pub open spec fn placeholder_word() -> Seq<char> {
    seq!['E', 'm', 'p', 't', 'y']
}

/// How one reply counts: its first word (or "Empty" when it has none) is
/// lowercased, stripped of marks and read.
pub open spec fn reply_vote(reply: Seq<char>) -> Vote {
    let word = match first_word(reply) {
        Some(w) => w,
        None => placeholder_word(),
    };
    vote_for_word(strip_marks(lowercase(word)))
}

/// How one reply of the model counts.
pub fn vote_of_reply(reply: &str) -> (v: Vote)
    ensures
        v == reply_vote(reply@),
        first_word(reply@) matches Some(w) ==> (is_ascii_text(w) ==> v == vote_for_word(
            strip_marks(ascii_lowercase(w)),
        )),
{
    let word = match first_word_of(reply) {
        Some(w) => w,
        None => {
            proof {
                reveal_strlit("Empty");
                assert("Empty"@ =~= placeholder_word());
            }
            "Empty"
        },
    };
    let lowered = to_lowercase(word);
    vote_for_lowered_word(lowered.as_str())
}

/// Number of replies in `replies` that count as `kind`.
pub open spec fn count_votes(replies: Seq<Seq<char>>, kind: Vote) -> nat
    decreases replies.len(),
{
    if replies.len() == 0 {
        0
    } else {
        count_votes(replies.drop_last(), kind) + (if reply_vote(replies.last()) == kind {
            1nat
        } else {
            0nat
        })
    }
}

/// The texts of a list of replies.
pub open spec fn texts(replies: Seq<String>) -> Seq<Seq<char>> {
    replies.map_values(|r: String| r@)
}

/// Whether a set of replies says someone is lying in bed: strictly more
/// replies say so than say the contrary.
pub open spec fn says_in_bed(replies: Seq<Seq<char>>) -> bool {
    count_votes(replies, Vote::InBed) > count_votes(replies, Vote::NotInBed)
}

/// Reads all the replies of one question to the model.
pub fn replies_say_in_bed(replies: &Vec<String>) -> (in_bed: bool)
    ensures
        in_bed == says_in_bed(texts(replies@)),
{
    let mut yes: usize = 0;
    let mut no: usize = 0;
    for i in 0..replies.len()
        invariant
            yes == count_votes(texts(replies@).take(i as int), Vote::InBed),
            no == count_votes(texts(replies@).take(i as int), Vote::NotInBed),
            yes + no <= i,
    {
        let v = vote_of_reply(replies[i].as_str());
        proof {
            let t = texts(replies@);
            assert(t.take(i + 1).drop_last() =~= t.take(i as int));
            assert(t.take(i + 1).last() == replies@[i as int]@);
        }
        match v {
            Vote::InBed => yes = yes + 1,
            Vote::NotInBed => no = no + 1,
            Vote::Unclear => {},
        }
    }
    proof {
        assert(texts(replies@).take(replies@.len() as int) =~= texts(replies@));
    }
    yes > no
}

/// A reply that counts for neither side never changes what the replies say.
pub proof fn lemma_unclear_reply_changes_nothing(replies: Seq<Seq<char>>, extra: Seq<char>)
    requires
        reply_vote(extra) == Vote::Unclear,
    ensures
        says_in_bed(replies.push(extra)) == says_in_bed(replies),
{
    assert(replies.push(extra).drop_last() =~= replies);
}

/// Ties go to "nobody in bed": with as many yes-votes as no-votes, the
/// replies do not say someone is in bed.
pub proof fn lemma_tie_means_not_in_bed(replies: Seq<Seq<char>>)
    requires
        count_votes(replies, Vote::InBed) == count_votes(replies, Vote::NotInBed),
    ensures
        !says_in_bed(replies),
{
}

} // verus!

verus! {

proof fn lemma_count_concat(a: Seq<Seq<char>>, b: Seq<Seq<char>>, kind: Vote)
    ensures
        count_votes(a + b, kind) == count_votes(a, kind) + count_votes(b, kind),
    decreases b.len(),
{
    if b.len() == 0 {
        assert(a + b =~= a);
    } else {
        assert((a + b).drop_last() =~= a + b.drop_last());
        assert((a + b).last() == b.last());
        lemma_count_concat(a, b.drop_last(), kind);
    }
}

proof fn lemma_count_reordered(a: Seq<Seq<char>>, b: Seq<Seq<char>>, kind: Vote)
    requires
        a.to_multiset() =~= b.to_multiset(),
    ensures
        count_votes(a, kind) == count_votes(b, kind),
    decreases a.len(),
{
    broadcast use vstd::seq_lib::group_to_multiset_ensures;
    if a.len() == 0 {
        assert(a.len() == a.to_multiset().len());
        assert(b.len() == b.to_multiset().len());
        assert(b.len() == 0);
    } else {
        let x = a.last();
        let rest = a.drop_last();
        assert(a =~= rest.push(x));
        assert(a.to_multiset() =~= rest.to_multiset().insert(x));
        assert(b.to_multiset().count(x) > 0);
        assert(b.contains(x));
        let i = choose|i: int| 0 <= i < b.len() && b[i] == x;
        let others = b.remove(i);
        assert(others.to_multiset() =~= b.to_multiset().remove(x));
        assert(others.to_multiset() =~= rest.to_multiset());
        lemma_count_reordered(rest, others, kind);
        assert(b =~= b.take(i) + seq![x] + b.skip(i + 1));
        assert(others =~= b.take(i) + b.skip(i + 1));
        lemma_count_concat(b.take(i) + seq![x], b.skip(i + 1), kind);
        lemma_count_concat(b.take(i), seq![x], kind);
        lemma_count_concat(b.take(i), b.skip(i + 1), kind);
        assert(seq![x].drop_last() =~= Seq::<Seq<char>>::empty());
        assert(seq![x].last() == x);
        let one: nat = if reply_vote(x) == kind { 1 } else { 0 };
        reveal_with_fuel(count_votes, 2);
        assert(count_votes(seq![x], kind) == one);
        assert(count_votes(a, kind) == count_votes(rest, kind) + one);
        assert(count_votes(b, kind) == count_votes(others, kind) + one);
    }
}

/// The order in which the replies come does not matter: any reordering of
/// the same replies gives the same answer.
pub proof fn lemma_reordered_replies_agree(a: Seq<Seq<char>>, b: Seq<Seq<char>>)
    requires
        a.to_multiset() =~= b.to_multiset(),
    ensures
        says_in_bed(a) == says_in_bed(b),
{
    lemma_count_reordered(a, b, Vote::InBed);
    lemma_count_reordered(a, b, Vote::NotInBed);
}

/// Marks after a word do not change how it counts.
pub proof fn lemma_trailing_marks_ignored(word: Seq<char>, marks: Seq<char>)
    requires
        forall|i: int| 0 <= i < marks.len() ==> is_dropped_mark(#[trigger] marks[i]),
    ensures
        strip_marks(word + marks) == strip_marks(word),
        vote_for_word(strip_marks(word + marks)) == vote_for_word(strip_marks(word)),
    decreases marks.len(),
{
    if marks.len() == 0 {
        assert(word + marks =~= word);
    } else {
        assert((word + marks).drop_last() =~= word + marks.drop_last());
        assert((word + marks).last() == marks.last());
        lemma_trailing_marks_ignored(word, marks.drop_last());
    }
}

/// Two replies whose first words have the same lowercase form count the
/// same; in particular a reply counts the same whatever the case of its
/// first word's letters, as far as lowercasing maps them together.
pub proof fn lemma_same_lowercase_same_vote(a: Seq<char>, b: Seq<char>)
    requires
        first_word(a) is Some,
        first_word(b) is Some,
        lowercase(first_word(a)->0) == lowercase(first_word(b)->0),
    ensures
        reply_vote(a) == reply_vote(b),
{
}

} // verus!

verus! {

/// The ASCII lowercase of a text.
pub open spec fn ascii_lowercase(s: Seq<char>) -> Seq<char> {
    s.map_values(|c: char| ascii_lower(c))
}

/// Words that differ only in the case of ASCII letters count the same once
/// lowercased.
pub proof fn lemma_recased_words_agree(a: Seq<char>, b: Seq<char>)
    requires
        a.len() == b.len(),
        forall|i: int| 0 <= i < a.len() ==> ascii_lower(#[trigger] a[i]) == ascii_lower(b[i]),
    ensures
        vote_for_word(strip_marks(ascii_lowercase(a))) == vote_for_word(strip_marks(ascii_lowercase(b))),
{
    assert(ascii_lowercase(a) =~= ascii_lowercase(b));
}

} // verus!

verus! {

/// Replies that count the same one by one give the same answer; with
/// `lemma_recased_words_agree` and `vote_of_reply`, re-casing the ASCII
/// first words of replies does not change the answer.
pub proof fn lemma_same_votes_same_answer(a: Seq<Seq<char>>, b: Seq<Seq<char>>)
    requires
        a.len() == b.len(),
        forall|i: int| 0 <= i < a.len() ==> reply_vote(#[trigger] a[i]) == reply_vote(b[i]),
    ensures
        says_in_bed(a) == says_in_bed(b),
{
    lemma_same_votes_same_counts(a, b, Vote::InBed);
    lemma_same_votes_same_counts(a, b, Vote::NotInBed);
}

proof fn lemma_same_votes_same_counts(a: Seq<Seq<char>>, b: Seq<Seq<char>>, kind: Vote)
    requires
        a.len() == b.len(),
        forall|i: int| 0 <= i < a.len() ==> reply_vote(#[trigger] a[i]) == reply_vote(b[i]),
    ensures
        count_votes(a, kind) == count_votes(b, kind),
    decreases a.len(),
{
    if a.len() > 0 {
        let (a2, b2) = (a.drop_last(), b.drop_last());
        assert forall|i: int| 0 <= i < a2.len() implies reply_vote(#[trigger] a2[i]) == reply_vote(b2[i]) by {
            assert(a2[i] == a[i] && b2[i] == b[i]);
        }
        lemma_same_votes_same_counts(a2, b2, kind);
        assert(reply_vote(a[a.len() - 1]) == reply_vote(b[b.len() - 1]));
    }
}

} // verus!

verus! {

/// The replies among `replies` that count as `kind`.
pub open spec fn replies_counting_as(replies: Seq<Seq<char>>, kind: Vote) -> Seq<Seq<char>> {
    replies.filter(|r: Seq<char>| reply_vote(r) == kind)
}

proof fn lemma_count_is_filter(replies: Seq<Seq<char>>, kind: Vote)
    ensures
        count_votes(replies, kind) == replies_counting_as(replies, kind).len(),
    decreases replies.len(),
{
    reveal(Seq::filter);
    if replies.len() > 0 {
        lemma_count_is_filter(replies.drop_last(), kind);
    }
}

/// The majority rule: the replies say someone is in bed exactly when more
/// of them answer "yes" than answer "no"; one vote ahead is enough, and a
/// tie or a "no" lead says nobody is.
pub proof fn lemma_majority_rule(replies: Seq<Seq<char>>)
    ensures
        says_in_bed(replies) <==> replies_counting_as(replies, Vote::InBed).len()
            > replies_counting_as(replies, Vote::NotInBed).len(),
{
    lemma_count_is_filter(replies, Vote::InBed);
    lemma_count_is_filter(replies, Vote::NotInBed);
}

/// One more "yes" than "no" is enough: adding a "yes" reply to replies with
/// as many yes as no votes makes them say someone is in bed, and adding a
/// "no" reply to replies one "yes" ahead makes them say nobody is.
pub proof fn lemma_one_vote_decides(replies: Seq<Seq<char>>, extra: Seq<char>)
    requires
        replies_counting_as(replies, Vote::InBed).len() == replies_counting_as(replies, Vote::NotInBed).len(),
    ensures
        reply_vote(extra) == Vote::InBed ==> says_in_bed(replies.push(extra)),
        reply_vote(extra) == Vote::NotInBed ==> !says_in_bed(replies.push(extra)),
{
    reveal(Seq::filter);
    assert(replies.push(extra).drop_last() =~= replies);
    lemma_majority_rule(replies.push(extra));
}

} // verus!
