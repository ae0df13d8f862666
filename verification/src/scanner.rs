//! The line scanner: lines, whitespace-separated tokens, and the
//! `(name, value)` pair of each `#define` line.

use crate::error::{Error, Failure};
use crate::text::{chars_of, same_chars, string_of};
use vstd::prelude::*;

verus! {

/// Whether `c` is white space: a character with the Unicode property
/// `White_Space`.
pub open spec fn is_white_space(c: char) -> bool {
    ||| '\u{9}' <= c <= '\u{D}'
    ||| c == ' '
    ||| c == '\u{85}'
    ||| c == '\u{A0}'
    ||| c == '\u{1680}'
    ||| '\u{2000}' <= c <= '\u{200A}'
    ||| c == '\u{2028}'
    ||| c == '\u{2029}'
    ||| c == '\u{202F}'
    ||| c == '\u{205F}'
    ||| c == '\u{3000}'
}

/// Whether `c` is white space.
pub fn is_whitespace(c: char) -> (b: bool)
    ensures
        b == is_white_space(c),
{
    (c >= '\u{9}' && c <= '\u{D}') || c == ' ' || c == '\u{85}' || c == '\u{A0}' || c
        == '\u{1680}' || (c >= '\u{2000}' && c <= '\u{200A}') || c == '\u{2028}' || c
        == '\u{2029}' || c == '\u{202F}' || c == '\u{205F}' || c == '\u{3000}'
}

/// The lines of a text: the parts between its line feeds, so one more than
/// it has line feeds.
pub open spec fn split_lines(text: Seq<char>) -> Seq<Seq<char>>
    decreases text.len(),
{
    if text.len() == 0 {
        seq![Seq::<char>::empty()]
    } else {
        let lines = split_lines(text.drop_last());
        if text.last() == '\n' {
            lines.push(Seq::<char>::empty())
        } else {
            lines.drop_last().push(lines.last().push(text.last()))
        }
    }
}

/// The tokens of a line: its maximal runs of characters that are not white
/// space, from left to right.
pub open spec fn tokens(line: Seq<char>) -> Seq<Seq<char>>
    decreases line.len(),
{
    if line.len() == 0 {
        Seq::<Seq<char>>::empty()
    } else {
        let before = line.drop_last();
        let found = tokens(before);
        if is_white_space(line.last()) {
            found
        } else if before.len() > 0 && !is_white_space(before.last()) {
            found.drop_last().push(found.last().push(line.last()))
        } else {
            found.push(seq![line.last()])
        }
    }
}

/// What a line contributes: nothing where its first token is not `#define`,
/// else the two tokens that follow, which must both be there.
pub open spec fn scan_line_spec(line: Seq<char>) -> Result<Option<(Seq<char>, Seq<char>)>, Failure> {
    let words = tokens(line);
    if words.len() == 0 || words[0] != "#define"@ {
        Ok(None)
    } else if words.len() == 1 {
        Err(Failure::MissingDefineName)
    } else if words.len() == 2 {
        Err(Failure::MissingDefineValue)
    } else {
        Ok(Some((words[1], words[2])))
    }
}

/// A word: one or more characters, none of them white space.
pub open spec fn is_word(word: Seq<char>) -> bool {
    &&& word.len() > 0
    &&& forall|i: int| 0 <= i < word.len() ==> !is_white_space(#[trigger] word[i])
}

/// The lines put together again, with a line feed between each two.
pub open spec fn join_lines(lines: Seq<Seq<char>>) -> Seq<char>
    decreases lines.len(),
{
    if lines.len() == 0 {
        Seq::<char>::empty()
    } else if lines.len() == 1 {
        lines[0]
    } else {
        join_lines(lines.drop_last()).push('\n') + lines.last()
    }
}

/// A text has at least one line, no line holds a line feed, and the lines
/// joined by line feeds are the text.
pub proof fn lemma_split_lines(text: Seq<char>)
    ensures
        split_lines(text).len() >= 1,
        forall|k: int, i: int|
            0 <= k < split_lines(text).len() && 0 <= i < split_lines(text)[k].len()
                ==> #[trigger] split_lines(text)[k][i] != '\n',
        join_lines(split_lines(text)) == text,
    decreases text.len(),
{
    if text.len() == 0 {
        assert(join_lines(split_lines(text)) =~= text);
    } else {
        let before = text.drop_last();
        let lines = split_lines(before);
        lemma_split_lines(before);
        let c = text.last();
        let after = split_lines(text);
        if c == '\n' {
            assert(after.drop_last() =~= lines);
            assert(join_lines(after) =~= before.push(c));
        } else if lines.len() == 1 {
            assert(join_lines(after) =~= before.push(c));
        } else {
            assert(after.drop_last() =~= lines.drop_last());
            assert(join_lines(after) =~= join_lines(lines).push(c));
        }
        assert(before.push(c) =~= text);
    }
}

/// Every token is a word, and a line that ends in a character that is not
/// white space has a token.
pub proof fn lemma_tokens_are_words(line: Seq<char>)
    ensures
        forall|k: int| 0 <= k < tokens(line).len() ==> is_word(#[trigger] tokens(line)[k]),
        line.len() > 0 && !is_white_space(line.last()) ==> tokens(line).len() > 0,
    decreases line.len(),
{
    if line.len() > 0 {
        let before = line.drop_last();
        let c = line.last();
        let found = tokens(before);
        lemma_tokens_are_words(before);
        if is_white_space(c) {
        } else if before.len() > 0 && !is_white_space(before.last()) {
            let grown = found.last().push(c);
            assert(is_word(grown)) by {
                assert forall|i: int| 0 <= i < grown.len() implies !is_white_space(
                    #[trigger] grown[i],
                ) by {
                    if i < found.last().len() {
                        assert(grown[i] == found.last()[i]);
                    }
                }
            }
            assert forall|k: int| 0 <= k < tokens(line).len() implies is_word(
                #[trigger] tokens(line)[k],
            ) by {
                if k < found.len() - 1 {
                    assert(tokens(line)[k] == found[k]);
                } else {
                    assert(tokens(line)[k] == grown);
                }
            }
        } else {
            assert(is_word(seq![c]));
            assert forall|k: int| 0 <= k < tokens(line).len() implies is_word(
                #[trigger] tokens(line)[k],
            ) by {
                if k < found.len() {
                    assert(tokens(line)[k] == found[k]);
                } else {
                    assert(tokens(line)[k] == seq![c]);
                }
            }
        }
    }
}

/// A word is its own single token.
pub proof fn lemma_tokens_of_word(word: Seq<char>)
    requires
        is_word(word),
    ensures
        tokens(word) == seq![word],
    decreases word.len(),
{
    let before = word.drop_last();
    if before.len() == 0 {
        assert(tokens(before) =~= Seq::<Seq<char>>::empty());
        assert(seq![word.last()] =~= word);
        assert(tokens(word) =~= seq![word]);
    } else {
        assert(is_word(before)) by {
            assert forall|i: int| 0 <= i < before.len() implies !is_white_space(
                #[trigger] before[i],
            ) by {
                assert(before[i] == word[i]);
            }
        }
        lemma_tokens_of_word(before);
        assert(before.push(word.last()) =~= word);
        assert(tokens(word) =~= seq![word]);
    }
}

/// Where white space or an end stands between two parts of a line, the
/// tokens of the line are those of the first part, then those of the second.
pub proof fn lemma_tokens_of_parts(first: Seq<char>, second: Seq<char>)
    requires
        first.len() == 0 || is_white_space(first.last()) || second.len() == 0 || is_white_space(
            second[0],
        ),
    ensures
        tokens(first + second) == tokens(first) + tokens(second),
    decreases second.len(),
{
    let line = first + second;
    if second.len() == 0 {
        assert(line =~= first);
        assert(tokens(first) + tokens(second) =~= tokens(first));
    } else {
        let before = second.drop_last();
        let c = second.last();
        assert(line.drop_last() =~= first + before);
        assert(before.len() > 0 ==> before[0] == second[0]);
        lemma_tokens_of_parts(first, before);
        lemma_tokens_are_words(before);
        let found = tokens(first) + tokens(before);
        if is_white_space(c) {
        } else if before.len() > 0 && !is_white_space(before.last()) {
            assert((first + before).last() == before.last());
            assert(found.drop_last() =~= tokens(first) + tokens(before).drop_last());
            assert(tokens(line) =~= tokens(first) + tokens(second));
        } else {
            if before.len() > 0 {
                assert((first + before).last() == before.last());
            } else {
                assert(first + before =~= first);
            }
            assert(tokens(line) =~= tokens(first) + tokens(second));
        }
    }
}

/// The character sequences that a vector of character vectors holds.
pub open spec fn views(items: Seq<Vec<char>>) -> Seq<Seq<char>> {
    items.map_values(|item: Vec<char>| item@)
}

/// Splits a text into its lines.
pub fn lines_of(text: &[char]) -> (lines: Vec<Vec<char>>)
    ensures
        views(lines@) == split_lines(text@),
{
    let mut lines: Vec<Vec<char>> = Vec::new();
    let mut current: Vec<char> = Vec::new();
    let mut i: usize = 0;
    assert(views(lines@).push(current@) =~= split_lines(text@.take(0)));
    while i < text.len()
        invariant
            i <= text.len(),
            views(lines@).push(current@) == split_lines(text@.take(i as int)),
        decreases text.len() - i,
    {
        let c = text[i];
        let ghost done = views(lines@);
        let ghost open = current@;
        assert(text@.take(i + 1).drop_last() =~= text@.take(i as int));
        assert(done.push(open).drop_last() =~= done);
        if c == '\n' {
            lines.push(current);
            current = Vec::new();
            assert(views(lines@).push(current@) =~= done.push(open).push(Seq::<char>::empty()));
        } else {
            current.push(c);
            assert(views(lines@).push(current@) =~= done.push(open.push(c)));
        }
        i += 1;
    }
    assert(text@.take(i as int) =~= text@);
    let ghost done = views(lines@);
    lines.push(current);
    assert(views(lines@) =~= done.push(current@));
    lines
}

/// Splits a line into its tokens.
pub fn tokens_of(line: &[char]) -> (words: Vec<Vec<char>>)
    ensures
        views(words@) == tokens(line@),
{
    let mut words: Vec<Vec<char>> = Vec::new();
    let mut current: Vec<char> = Vec::new();
    let mut i: usize = 0;
    assert(views(words@) =~= tokens(line@.take(0)));
    while i < line.len()
        invariant
            i <= line.len(),
            current@.len() > 0 <==> i > 0 && !is_white_space(line@[i - 1]),
            tokens(line@.take(i as int)) == if current@.len() > 0 {
                views(words@).push(current@)
            } else {
                views(words@)
            },
        decreases line.len() - i,
    {
        let c = line[i];
        let ghost done = views(words@);
        let ghost open = current@;
        let ghost before = line@.take(i as int);
        assert(line@.take(i + 1).drop_last() =~= before);
        assert(i > 0 ==> before.last() == line@[i - 1]);
        assert(done.push(open).drop_last() =~= done);
        if is_whitespace(c) {
            if current.len() > 0 {
                words.push(current);
                current = Vec::new();
                assert(views(words@) =~= done.push(open));
            }
        } else {
            current.push(c);
            proof {
                if open.len() == 0 {
                    assert(current@ =~= seq![c]);
                }
            }
        }
        i += 1;
    }
    assert(line@.take(i as int) =~= line@);
    if current.len() > 0 {
        let ghost done = views(words@);
        words.push(current);
        assert(views(words@) =~= done.push(current@));
    }
    words
}

/// A name and a value token, as a `#define` line gives them.
#[derive(Debug)]
pub struct CandidatePair {
    pub raw_name: String,
    pub raw_value: String,
}

impl View for CandidatePair {
    type V = (Seq<char>, Seq<char>);

    open spec fn view(&self) -> (Seq<char>, Seq<char>) {
        (self.raw_name@, self.raw_value@)
    }
}

/// The name and value tokens of a line given as characters, where it is a
/// `#define` line; `keyword` holds `#define`.
pub(crate) fn scan_chars(line: &[char], keyword: &[char]) -> (r: Result<
    Option<(Vec<char>, Vec<char>)>,
    Error,
>)
    requires
        keyword@ == "#define"@,
    ensures
        match r {
            Ok(Some(pair)) => scan_line_spec(line@) == Ok::<_, Failure>(Some((pair.0@, pair.1@))),
            Ok(None) => scan_line_spec(line@) == Ok::<Option<(Seq<char>, Seq<char>)>, Failure>(None),
            Err(e) => scan_line_spec(line@) == Err::<Option<(Seq<char>, Seq<char>)>, _>(e@),
        },
{
    let mut words = tokens_of(line);
    if words.len() == 0 || !same_chars(words[0].as_slice(), keyword) {
        return Ok(None);
    }
    if words.len() == 1 {
        return Err(Error::MissingDefineName);
    }
    if words.len() == 2 {
        return Err(Error::MissingDefineValue);
    }
    let ghost all = views(words@);
    words.truncate(3);
    let value = words.pop().unwrap();
    let name = words.pop().unwrap();
    assert(name@ == all[1] && value@ == all[2]);
    Ok(Some((name, value)))
}

/// Scans one line: `Ok(None)` where its first token is not `#define`, the
/// name and value tokens where it is and both are there, and an error where
/// one of them is missing.
pub fn scan_line(line: &str) -> (r: Result<Option<CandidatePair>, Error>)
    ensures
        match r {
            Ok(Some(pair)) => scan_line_spec(line@) == Ok::<_, Failure>(Some(pair@)),
            Ok(None) => scan_line_spec(line@) == Ok::<Option<(Seq<char>, Seq<char>)>, Failure>(None),
            Err(e) => scan_line_spec(line@) == Err::<Option<(Seq<char>, Seq<char>)>, _>(e@),
        },
{
    let chars = chars_of(line);
    let keyword = chars_of("#define");
    match scan_chars(chars.as_slice(), keyword.as_slice()) {
        Ok(Some(pair)) => Ok(
            Some(
                CandidatePair {
                    raw_name: string_of(pair.0.as_slice()),
                    raw_value: string_of(pair.1.as_slice()),
                },
            ),
        ),
        Ok(None) => Ok(None),
        Err(e) => Err(e),
    }
}

} // verus!
