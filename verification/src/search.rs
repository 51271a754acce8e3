//! What a word search sends to the database: either the plain listing of the
//! most frequent words (for a blank query) or a full-text phrase-prefix query.
use vstd::prelude::*;
use vstd::string::StrSliceExecFns;
use crate::text::push_char;

verus! {

/// Unicode `White_Space`: the characters for which `char::is_whitespace` holds,
/// and which `str::trim` removes from both ends of a string.
pub open spec fn is_white_space(c: char) -> bool {
    let u = c as u32;
    ||| 0x09 <= u <= 0x0D
    ||| u == 0x20
    ||| u == 0x85
    ||| u == 0xA0
    ||| u == 0x1680
    ||| 0x2000 <= u <= 0x200A
    ||| u == 0x2028
    ||| u == 0x2029
    ||| u == 0x202F
    ||| u == 0x205F
    ||| u == 0x3000
}

/// A query is blank when trimming it leaves nothing, that is, when every one of
/// its characters is white space.
pub open spec fn is_blank(s: Seq<char>) -> bool {
    forall|i: int| 0 <= i < s.len() ==> #[trigger] is_white_space(s[i])
}

/// The body of a quoted full-text string: every `"` doubled.
pub open spec fn escape_quotes(s: Seq<char>) -> Seq<char>
    decreases s.len(),
{
    if s.len() == 0 {
        Seq::empty()
    } else {
        let head: Seq<char> = if s[0] == '"' {
            seq!['"', '"']
        } else {
            seq![s[0]]
        };
        head + escape_quotes(s.drop_first())
    }
}

/// How the full-text query syntax reads the body of a quoted string back:
/// a doubled `"` stands for one `"`.
pub open spec fn unescape_quotes(s: Seq<char>) -> Seq<char>
    decreases s.len(),
{
    if s.len() == 0 {
        Seq::empty()
    } else if s.len() >= 2 && s[0] == '"' && s[1] == '"' {
        seq!['"'] + unescape_quotes(s.subrange(2, s.len() as int))
    } else {
        seq![s[0]] + unescape_quotes(s.drop_first())
    }
}

/// A body that can stand between two quotes: its quotes come in adjacent pairs,
/// so that no single one ends the string early.
pub open spec fn quotes_paired(s: Seq<char>) -> bool
    decreases s.len(),
{
    if s.len() == 0 {
        true
    } else if s[0] == '"' {
        s.len() >= 2 && s[1] == '"' && quotes_paired(s.subrange(2, s.len() as int))
    } else {
        quotes_paired(s.drop_first())
    }
}

/// The full-text query for `query`: the whole query as one quoted phrase,
/// followed by `*` so that its last word matches as a prefix.
pub open spec fn phrase_prefix_query(query: Seq<char>) -> Seq<char> {
    seq!['"'] + escape_quotes(query) + seq!['"', '*']
}

/// The whole query is one phrase: the full-text syntax reads the body of the
/// quoted string back as exactly the query that was typed, and no quote in the
/// query ends the string early.
pub proof fn lemma_phrase_reads_back_query(query: Seq<char>)
    ensures
        unescape_quotes(escape_quotes(query)) == query,
        quotes_paired(escape_quotes(query)),
    decreases query.len(),
{
    if query.len() > 0 {
        let rest = query.drop_first();
        let e = escape_quotes(query);
        lemma_phrase_reads_back_query(rest);
        if query[0] == '"' {
            assert(e.subrange(2, e.len() as int) =~= escape_quotes(rest));
            assert(seq!['"'] + rest =~= query);
        } else {
            assert(e.drop_first() =~= escape_quotes(rest));
            assert(seq![query[0]] + rest =~= query);
        }
    }
}

/// What a search asks of the database.
pub enum WordSearch {
    /// List the most frequent words.
    Top,
    /// Match this full-text query.
    Phrase(String),
}

/// The view of a [`WordSearch`]: `None` for the listing, or the full-text query.
pub open spec fn word_search_view(w: WordSearch) -> Option<Seq<char>> {
    match w {
        WordSearch::Top => None,
        WordSearch::Phrase(s) => Some(s@),
    }
}

/// `char::is_whitespace`.
pub fn is_white_space_char(c: char) -> (b: bool)
    ensures
        b == is_white_space(c),
{
    let u = c as u32;
    (0x09 <= u && u <= 0x0D) || u == 0x20 || u == 0x85 || u == 0xA0 || u == 0x1680 || (0x2000
        <= u && u <= 0x200A) || u == 0x2028 || u == 0x2029 || u == 0x202F || u == 0x205F || u
        == 0x3000
}

/// Whether `query.trim()` is empty.
pub fn is_blank_query(query: &str) -> (blank: bool)
    ensures
        blank == is_blank(query@),
{
    let n = query.unicode_len();
    let mut i: usize = 0;
    while i < n
        invariant
            n == query@.len(),
            i <= n,
            forall|j: int| 0 <= j < i ==> #[trigger] is_white_space(query@[j]),
        decreases n - i,
    {
        let c = query.get_char(i);
        if !is_white_space_char(c) {
            return false;
        }
        i = i + 1;
    }
    true
}

proof fn lemma_escape_push(s: Seq<char>, c: char)
    ensures
        escape_quotes(s.push(c)) == escape_quotes(s) + escape_quotes(seq![c]),
    decreases s.len(),
{
    if s.len() == 0 {
        assert(s.push(c) =~= seq![c]);
        assert(escape_quotes(s) =~= Seq::<char>::empty());
        assert(escape_quotes(s) + escape_quotes(seq![c]) =~= escape_quotes(seq![c]));
    } else {
        assert(s.push(c).drop_first() =~= s.drop_first().push(c));
        lemma_escape_push(s.drop_first(), c);
        assert(escape_quotes(seq![c].drop_first()) =~= Seq::<char>::empty());
    }
}

/// The full-text query that matches `query` as a phrase whose last word may be
/// a prefix: `"` + the query with each `"` doubled + `"*`.
pub fn phrase_prefix(query: &str) -> (res: String)
    ensures
        res@ == phrase_prefix_query(query@),
{
    let n = query.unicode_len();
    let mut res = String::new();
    push_char(&mut res, '"');
    let mut i: usize = 0;
    while i < n
        invariant
            n == query@.len(),
            i <= n,
            res@ == seq!['"'] + escape_quotes(query@.take(i as int)),
        decreases n - i,
    {
        let c = query.get_char(i);
        proof {
            assert(query@.take(i + 1) =~= query@.take(i as int).push(c));
            lemma_escape_push(query@.take(i as int), c);
            reveal_with_fuel(escape_quotes, 2);
            assert(seq![c].drop_first() =~= Seq::<char>::empty());
        }
        if c == '"' {
            push_char(&mut res, '"');
            push_char(&mut res, '"');
        } else {
            push_char(&mut res, c);
        }
        i = i + 1;
    }
    assert(query@.take(n as int) =~= query@);
    push_char(&mut res, '"');
    push_char(&mut res, '*');
    res
}

/// What `search_words_in_db` asks of the database for `query`: the listing of
/// the most frequent words when the trimmed query is empty, else the phrase
/// prefix query built from the query as typed (untrimmed).
pub fn plan_word_search(query: &str) -> (plan: WordSearch)
    ensures
        word_search_view(plan) == (if is_blank(query@) {
            None
        } else {
            Some(phrase_prefix_query(query@))
        }),
{
    if is_blank_query(query) {
        WordSearch::Top
    } else {
        WordSearch::Phrase(phrase_prefix(query))
    }
}


/// For every query, of any length, the full-text query opens with a quote,
/// holds the query with its quotes doubled, and ends with a quote and the
/// prefix operator `*`.
pub proof fn lemma_phrase_always_ends_in_prefix_operator(query: Seq<char>)
    ensures
        phrase_prefix_query(query).len() == escape_quotes(query).len() + 3,
        phrase_prefix_query(query)[0] == '"',
        phrase_prefix_query(query).last() == '*',
        phrase_prefix_query(query)[phrase_prefix_query(query).len() - 2] == '"',
        phrase_prefix_query(query).subrange(1, phrase_prefix_query(query).len() - 2) == escape_quotes(
            query,
        ),
        unescape_quotes(
            phrase_prefix_query(query).subrange(1, phrase_prefix_query(query).len() - 2),
        ) == query,
{
    let p = phrase_prefix_query(query);
    assert(p.subrange(1, p.len() - 2) =~= escape_quotes(query));
    lemma_phrase_reads_back_query(query);
}

} // verus!
