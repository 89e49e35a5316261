//! The line-breaking policy, as mathematics: how a list of words falls into
//! lines, and what holds of the lines.

use vstd::prelude::*;

verus! {

/// The length a line may reach before the next word starts a new one: a fifth
/// of the terminal's width, rounded down.
pub open spec fn max_line_len(term_width: u16) -> int {
    term_width as int / 5
}

/// The words, each followed by one space.
pub open spec fn spaced(words: Seq<Seq<char>>) -> Seq<char>
    decreases words.len(),
{
    if words.len() == 0 {
        Seq::empty()
    } else {
        words.first().push(' ') + spaced(words.drop_first())
    }
}

/// The words joined by single spaces.
pub open spec fn joined(words: Seq<Seq<char>>) -> Seq<char>
    decreases words.len(),
{
    if words.len() == 0 {
        Seq::empty()
    } else if words.len() == 1 {
        words.first()
    } else {
        words.first().push(' ') + joined(words.drop_first())
    }
}

/// The lines that come out when `words` are still to be placed, `lines` are
/// closed already and `current` is the line being filled. A word goes on the
/// line being filled, followed by a space; but where that line holds something
/// and the word would take it past `max` characters, the line is closed as it
/// is, space included, and the word starts the next one. An empty line is never
/// closed, so a word longer than `max` gets a line of its own. After the last
/// word the line being filled is closed without its final space.
pub open spec fn wrap_from(
    words: Seq<Seq<char>>,
    max: int,
    lines: Seq<Seq<char>>,
    current: Seq<char>,
) -> Seq<Seq<char>>
    decreases words.len(),
{
    if words.len() == 0 {
        if current.len() == 0 {
            lines
        } else {
            lines.push(current.drop_last())
        }
    } else if current.len() > 0 && current.len() + words.first().len() > max {
        wrap_from(words.drop_first(), max, lines.push(current), words.first().push(' '))
    } else {
        wrap_from(words.drop_first(), max, lines, current + words.first().push(' '))
    }
}

/// The lines into which `words` are wrapped for a limit of `max` characters.
pub open spec fn wrapped(words: Seq<Seq<char>>, max: int) -> Seq<Seq<char>> {
    wrap_from(words, max, Seq::empty(), Seq::empty())
}

/// Words that are each followed by a space are the words joined by spaces,
/// and one space more.
pub proof fn lemma_spaced_is_joined(words: Seq<Seq<char>>)
    requires
        words.len() > 0,
    ensures
        spaced(words) == joined(words).push(' '),
    decreases words.len(),
{
    if words.len() == 1 {
        assert(words.drop_first().len() == 0);
        assert(spaced(words.drop_first()) =~= Seq::<char>::empty());
        assert(spaced(words) =~= joined(words).push(' '));
    } else {
        lemma_spaced_is_joined(words.drop_first());
        assert(spaced(words) =~= joined(words).push(' '));
    }
}

/// What the lines of `wrap_from` hold, read in order: what the closed lines
/// held, then the line being filled, then the remaining words with their
/// spaces, less the very last space.
proof fn lemma_wrap_from_flatten(
    words: Seq<Seq<char>>,
    max: int,
    lines: Seq<Seq<char>>,
    current: Seq<char>,
)
    ensures
        words.len() == 0 && current.len() == 0 ==> wrap_from(words, max, lines, current).flatten()
            == lines.flatten(),
        words.len() > 0 || current.len() > 0 ==> wrap_from(words, max, lines, current).flatten()
            == (lines.flatten() + current + spaced(words)).drop_last(),
    decreases words.len(),
{
    broadcast use Seq::lemma_flatten_push;

    if words.len() == 0 {
        if current.len() > 0 {
            assert(lines.push(current.drop_last()).flatten() =~= (lines.flatten() + current
                + spaced(words)).drop_last());
        }
    } else {
        let word = words.first().push(' ');
        let rest = words.drop_first();
        if current.len() > 0 && current.len() + words.first().len() > max {
            lemma_wrap_from_flatten(rest, max, lines.push(current), word);
            assert(lines.push(current).flatten() + word + spaced(rest) =~= lines.flatten() + current
                + spaced(words));
        } else {
            lemma_wrap_from_flatten(rest, max, lines, current + word);
            assert(lines.flatten() + (current + word) + spaced(rest) =~= lines.flatten() + current
                + spaced(words));
        }
    }
}

/// Read one after the other, the lines of a wrapped word list give the words
/// joined by single spaces: wrapping moves no character and drops only the
/// space after the last word.
pub proof fn lemma_wrapped_flatten(words: Seq<Seq<char>>, max: int)
    ensures
        wrapped(words, max).flatten() == joined(words),
{
    lemma_wrap_from_flatten(words, max, Seq::empty(), Seq::empty());
    if words.len() > 0 {
        lemma_spaced_is_joined(words);
        assert(Seq::<Seq<char>>::empty().flatten() + Seq::<char>::empty() + spaced(words)
            =~= spaced(words));
        assert(joined(words).push(' ').drop_last() =~= joined(words));
    } else {
        assert(joined(words) =~= Seq::<char>::empty());
    }
}

/// Whether the characters keep to the limit of `max`, or are one of the
/// words on its own.
pub open spec fn fits(visible: Seq<char>, words: Seq<Seq<char>>, max: int) -> bool {
    visible.len() <= max || words.contains(visible)
}

/// Whether a line that is followed by another one is in order: it ends with
/// the space that follows its last word, and without that space it keeps to
/// the limit or is one word on its own.
pub open spec fn closed_line_fits(line: Seq<char>, words: Seq<Seq<char>>, max: int) -> bool {
    &&& line.len() > 0
    &&& line.last() == ' '
    &&& fits(line.drop_last(), words, max)
}

/// Whether every line is in order: each line but the last ends with a space
/// and keeps to the limit without it, unless it is one word on its own; the
/// last line has no space added and keeps to the limit, unless it is one word
/// on its own.
pub open spec fn well_wrapped(lines: Seq<Seq<char>>, words: Seq<Seq<char>>, max: int) -> bool {
    forall|i: int|
        0 <= i < lines.len() ==> if i + 1 < lines.len() {
            closed_line_fits(#[trigger] lines[i], words, max)
        } else {
            fits(lines[i], words, max)
        }
}

/// Whether no word is empty.
pub open spec fn no_empty_word(words: Seq<Seq<char>>) -> bool {
    forall|k: int| 0 <= k < words.len() ==> (#[trigger] words[k]).len() > 0
}

/// The lines of `wrap_from` are in order where the closed lines and the line
/// being filled are, and none of them is empty where no word is.
proof fn lemma_wrap_from_fits(
    words: Seq<Seq<char>>,
    max: int,
    lines: Seq<Seq<char>>,
    current: Seq<char>,
    all: Seq<Seq<char>>,
)
    requires
        forall|k: int| 0 <= k < words.len() ==> all.contains(#[trigger] words[k]),
        forall|i: int| 0 <= i < lines.len() ==> closed_line_fits(#[trigger] lines[i], all, max),
        current.len() == 0 ==> lines.len() == 0,
        current.len() > 0 ==> current.last() == ' ' && fits(current.drop_last(), all, max),
        no_empty_word(all) ==> current.len() != 1,
    ensures
        well_wrapped(wrap_from(words, max, lines, current), all, max),
        no_empty_word(all) ==> forall|i: int|
            0 <= i < wrap_from(words, max, lines, current).len() ==> (#[trigger] wrap_from(
                words,
                max,
                lines,
                current,
            )[i]).len() > 0,
        wrap_from(words, max, lines, current).len() <= lines.len() + words.len() + if current.len()
            > 0 {
            1int
        } else {
            0int
        },
    decreases words.len(),
{
    if words.len() > 0 {
        let word = words.first();
        let rest = words.drop_first();
        assert(all.contains(word));
        assert forall|k: int| 0 <= k < rest.len() implies all.contains(#[trigger] rest[k]) by {
            assert(rest[k] == words[k + 1]);
        }
        if current.len() > 0 && current.len() + word.len() > max {
            assert(word.push(' ').drop_last() =~= word);
            lemma_wrap_from_fits(rest, max, lines.push(current), word.push(' '), all);
        } else {
            let longer = current + word.push(' ');
            assert(longer.drop_last() =~= current + word);
            if current.len() == 0 {
                assert(current + word =~= word);
            }
            lemma_wrap_from_fits(rest, max, lines, longer, all);
        }
    }
}

/// Every line of a wrapped word list keeps to the limit, unless it is one
/// word on its own; every line but the last ends with a space; there are no
/// more lines than words; and no line is empty where no word is.
pub proof fn lemma_wrapped_fits(words: Seq<Seq<char>>, max: int)
    ensures
        well_wrapped(wrapped(words, max), words, max),
        wrapped(words, max).len() <= words.len(),
        no_empty_word(words) ==> forall|i: int|
            0 <= i < wrapped(words, max).len() ==> (#[trigger] wrapped(words, max)[i]).len() > 0,
{
    lemma_wrap_from_fits(words, max, Seq::empty(), Seq::empty(), words);
}

/// The groups of words that come out when `words` are still to be placed,
/// `groups` are the words of the closed lines and `current` are the words of
/// the line being filled: `wrap_from`, told in words.
pub open spec fn group_from(
    words: Seq<Seq<char>>,
    max: int,
    groups: Seq<Seq<Seq<char>>>,
    current: Seq<Seq<char>>,
) -> Seq<Seq<Seq<char>>>
    decreases words.len(),
{
    if words.len() == 0 {
        if current.len() == 0 {
            groups
        } else {
            groups.push(current)
        }
    } else if current.len() > 0 && spaced(current).len() + words.first().len() > max {
        group_from(words.drop_first(), max, groups.push(current), seq![words.first()])
    } else {
        group_from(words.drop_first(), max, groups, current.push(words.first()))
    }
}

/// The words of each line into which `words` are wrapped.
pub open spec fn grouped(words: Seq<Seq<char>>, max: int) -> Seq<Seq<Seq<char>>> {
    group_from(words, max, Seq::empty(), Seq::empty())
}

/// The line that holds the words of group `i`: each word followed by a space,
/// but for the last word of the last line.
pub open spec fn line_of(groups: Seq<Seq<Seq<char>>>, i: int) -> Seq<char> {
    if i + 1 < groups.len() {
        spaced(groups[i])
    } else {
        spaced(groups[i]).drop_last()
    }
}

/// The lines that hold the words of the groups.
pub open spec fn lines_of(groups: Seq<Seq<Seq<char>>>) -> Seq<Seq<char>> {
    Seq::new(groups.len(), |i: int| line_of(groups, i))
}

/// Whether the words of a line keep to the limit: they are one word, or with
/// the spaces between them they are no more than `max` characters.
pub open spec fn group_fits(group: Seq<Seq<char>>, max: int) -> bool {
    group.len() == 1 || spaced(group).len() - 1 <= max
}

/// Whether `groups` wrap `words` as the policy asks: the groups are the
/// words, in order and each group with a word in it; every line keeps to the
/// limit unless it holds one word only; and no line could take the first word
/// of the line after it without going past the limit.
pub open spec fn is_greedy(groups: Seq<Seq<Seq<char>>>, words: Seq<Seq<char>>, max: int) -> bool {
    &&& groups.flatten() == words
    &&& forall|i: int| 0 <= i < groups.len() ==> (#[trigger] groups[i]).len() > 0
    &&& forall|i: int| 0 <= i < groups.len() ==> group_fits(#[trigger] groups[i], max)
    &&& forall|i: int|
        0 <= i && i + 1 < groups.len() ==> spaced(#[trigger] groups[i]).len() + groups[i
            + 1].first().len() > max
}

/// One word followed by a space.
proof fn lemma_spaced_one(word: Seq<char>)
    ensures
        spaced(seq![word]) == word.push(' '),
{
    let rest = seq![word].drop_first();
    assert(rest.len() == 0);
    assert(spaced(rest) =~= Seq::<char>::empty());
    assert(spaced(seq![word]) =~= word.push(' ') + spaced(rest));
    assert(word.push(' ') + spaced(rest) =~= word.push(' '));
}

/// Words with one more word after them, each followed by a space.
proof fn lemma_spaced_push(words: Seq<Seq<char>>, word: Seq<char>)
    ensures
        spaced(words.push(word)) == spaced(words) + word.push(' '),
    decreases words.len(),
{
    if words.len() == 0 {
        lemma_spaced_one(word);
        assert(words.push(word) =~= seq![word]);
        assert(spaced(words) =~= Seq::<char>::empty());
        assert(spaced(words.push(word)) =~= spaced(words) + word.push(' '));
    } else {
        assert(words.push(word).drop_first() =~= words.drop_first().push(word));
        lemma_spaced_push(words.drop_first(), word);
        assert(spaced(words.push(word)) =~= spaced(words) + word.push(' '));
    }
}

/// The lines of `wrap_from` hold the words of the groups of `group_from`.
proof fn lemma_wrap_from_groups(
    words: Seq<Seq<char>>,
    max: int,
    lines: Seq<Seq<char>>,
    current: Seq<char>,
    groups: Seq<Seq<Seq<char>>>,
    filling: Seq<Seq<char>>,
)
    requires
        lines.len() == groups.len(),
        forall|i: int| 0 <= i < lines.len() ==> #[trigger] lines[i] == spaced(groups[i]),
        current == spaced(filling),
        filling.len() == 0 ==> groups.len() == 0,
    ensures
        wrap_from(words, max, lines, current) == lines_of(group_from(words, max, groups, filling)),
    decreases words.len(),
{
    if words.len() == 0 {
        if filling.len() == 0 {
            assert(lines =~= lines_of(groups));
        } else {
            assert(lines.push(current.drop_last()) =~= lines_of(groups.push(filling)));
        }
    } else {
        let word = words.first();
        if filling.len() > 0 && spaced(filling).len() + word.len() > max {
            lemma_spaced_one(word);
            lemma_wrap_from_groups(
                words.drop_first(),
                max,
                lines.push(current),
                word.push(' '),
                groups.push(filling),
                seq![word],
            );
        } else {
            lemma_spaced_push(filling, word);
            lemma_wrap_from_groups(
                words.drop_first(),
                max,
                lines,
                current + word.push(' '),
                groups,
                filling.push(word),
            );
        }
    }
}

/// The groups of `group_from` wrap the words as the policy asks, where the
/// closed groups and the group being filled do so for the words placed.
proof fn lemma_group_from_greedy(
    words: Seq<Seq<char>>,
    max: int,
    groups: Seq<Seq<Seq<char>>>,
    filling: Seq<Seq<char>>,
    all: Seq<Seq<char>>,
)
    requires
        groups.flatten() + filling + words == all,
        forall|i: int| 0 <= i < groups.len() ==> (#[trigger] groups[i]).len() > 0,
        forall|i: int| 0 <= i < groups.len() ==> group_fits(#[trigger] groups[i], max),
        forall|i: int|
            0 <= i && i + 1 < groups.len() ==> spaced(#[trigger] groups[i]).len() + groups[i
                + 1].first().len() > max,
        groups.len() > 0 ==> filling.len() > 0 && spaced(groups.last()).len()
            + filling.first().len() > max,
        filling.len() > 0 ==> group_fits(filling, max),
    ensures
        is_greedy(group_from(words, max, groups, filling), all, max),
    decreases words.len(),
{
    broadcast use Seq::lemma_flatten_push;

    if words.len() == 0 {
        if filling.len() == 0 {
            assert(groups.flatten() + filling + words =~= groups.flatten());
        } else {
            assert(groups.flatten() + filling + words =~= groups.push(filling).flatten());
        }
    } else {
        let word = words.first();
        let rest = words.drop_first();
        if filling.len() > 0 && spaced(filling).len() + word.len() > max {
            assert(groups.push(filling).flatten() + seq![word] + rest =~= groups.flatten()
                + filling + words);
            lemma_group_from_greedy(rest, max, groups.push(filling), seq![word], all);
        } else {
            assert(groups.flatten() + filling.push(word) + rest =~= groups.flatten() + filling
                + words);
            lemma_spaced_push(filling, word);
            lemma_group_from_greedy(rest, max, groups, filling.push(word), all);
        }
    }
}

/// The lines of a wrapped word list hold groups of the words that wrap them
/// as the policy asks: every word is on a line, in order; every line keeps to
/// the limit unless it holds one word only; and every line but the last is
/// full, in that the first word of the next line would take it past the
/// limit.
pub proof fn lemma_wrapped_is_greedy(words: Seq<Seq<char>>, max: int)
    ensures
        wrapped(words, max) == lines_of(grouped(words, max)),
        is_greedy(grouped(words, max), words, max),
{
    let none = Seq::<Seq<Seq<char>>>::empty();
    let nothing = Seq::<Seq<char>>::empty();
    assert(spaced(nothing) =~= Seq::<char>::empty());
    lemma_wrap_from_groups(words, max, Seq::empty(), Seq::empty(), none, nothing);
    assert(none.flatten() + nothing + words =~= words);
    lemma_group_from_greedy(words, max, none, nothing, words);
}

/// The first words of a group take no more room than more of its words.
proof fn lemma_spaced_prefix(group: Seq<Seq<char>>, fewer: int, more: int)
    requires
        0 <= fewer <= more <= group.len(),
    ensures
        spaced(group.take(fewer)).len() <= spaced(group.take(more)).len(),
        fewer < more ==> spaced(group.take(fewer)).len() + group[fewer].len() + 1 <= spaced(
            group.take(more),
        ).len(),
    decreases more - fewer,
{
    if fewer < more {
        assert(group.take(fewer + 1) =~= group.take(fewer).push(group[fewer]));
        lemma_spaced_push(group.take(fewer), group[fewer]);
        lemma_spaced_prefix(group, fewer + 1, more);
    }
}

/// Groups that each hold a word hold a word together, and the first word of
/// the first group comes first.
proof fn lemma_flatten_first(groups: Seq<Seq<Seq<char>>>)
    requires
        groups.len() > 0,
        forall|i: int| 0 <= i < groups.len() ==> (#[trigger] groups[i]).len() > 0,
    ensures
        groups.flatten().len() > 0,
        groups.flatten().first() == groups.first().first(),
        groups.flatten().drop_first() == groups.first().drop_first() + groups.drop_first().flatten(),
{
    assert(groups.flatten() =~= groups.first() + groups.drop_first().flatten());
    assert(groups.flatten().drop_first() =~= groups.first().drop_first()
        + groups.drop_first().flatten());
}

/// From a place inside groups that wrap the words as the policy asks,
/// `group_from` goes on to form these very groups.
proof fn lemma_group_from_follows(
    rest: Seq<Seq<char>>,
    max: int,
    groups: Seq<Seq<Seq<char>>>,
    line: int,
    placed: int,
)
    requires
        0 <= line < groups.len(),
        0 <= placed <= groups[line].len(),
        placed == 0 ==> line == 0,
        forall|i: int| 0 <= i < groups.len() ==> (#[trigger] groups[i]).len() > 0,
        forall|i: int| 0 <= i < groups.len() ==> group_fits(#[trigger] groups[i], max),
        forall|i: int|
            0 <= i && i + 1 < groups.len() ==> spaced(#[trigger] groups[i]).len() + groups[i
                + 1].first().len() > max,
        rest == groups[line].skip(placed) + groups.skip(line + 1).flatten(),
    ensures
        group_from(rest, max, groups.take(line), groups[line].take(placed)) == groups,
    decreases rest.len(),
{
    let group = groups[line];
    let filling = group.take(placed);
    let later = groups.skip(line + 1);
    if later.len() > 0 {
        assert forall|i: int| 0 <= i < later.len() implies (#[trigger] later[i]).len() > 0 by {
            assert(later[i] == groups[line + 1 + i]);
        }
        lemma_flatten_first(later);
        assert(later.first() == groups[line + 1]);
        assert(later.drop_first() =~= groups.skip(line + 2));
    }
    if rest.len() == 0 {
        assert(placed == group.len());
        assert(later.len() == 0);
        assert(filling =~= group);
        assert(groups.take(line).push(group) =~= groups);
    } else if placed < group.len() {
        let word = group[placed];
        assert(rest.first() == word);
        assert(filling.push(word) =~= group.take(placed + 1));
        assert(rest.drop_first() =~= group.skip(placed + 1) + later.flatten());
        if placed > 0 {
            lemma_spaced_prefix(group, placed, group.len() as int);
            assert(group.take(group.len() as int) =~= group);
        }
        lemma_group_from_follows(rest.drop_first(), max, groups, line, placed + 1);
    } else {
        assert(group.skip(placed) =~= Seq::<Seq<char>>::empty());
        assert(rest =~= later.flatten());
        assert(filling =~= group);
        let word = groups[line + 1].first();
        assert(rest.first() == word);
        assert(groups.take(line).push(group) =~= groups.take(line + 1));
        assert(seq![word] =~= groups[line + 1].take(1));
        assert(groups[line + 1].drop_first() =~= groups[line + 1].skip(1));
        lemma_group_from_follows(rest.drop_first(), max, groups, line + 1, 1);
    }
}

/// The policy leaves no choice: groups that wrap the words as it asks are the
/// groups of the wrapped word list.
pub proof fn lemma_greedy_is_unique(groups: Seq<Seq<Seq<char>>>, words: Seq<Seq<char>>, max: int)
    requires
        is_greedy(groups, words, max),
    ensures
        groups == grouped(words, max),
        lines_of(groups) == wrapped(words, max),
{
    if groups.len() == 0 {
        assert(groups =~= grouped(words, max));
    } else {
        assert(groups.skip(0) =~= groups);
        lemma_flatten_first(groups);
        assert(groups.first().skip(0) =~= groups.first());
        assert(groups.first() + groups.drop_first().flatten() =~= groups.flatten());
        assert(groups.drop_first() =~= groups.skip(1));
        assert(groups.take(0) =~= Seq::<Seq<Seq<char>>>::empty());
        assert(groups[0].take(0) =~= Seq::<Seq<char>>::empty());
        lemma_group_from_follows(words, max, groups, 0, 0);
    }
    lemma_wrapped_is_greedy(words, max);
}

} // verus!
