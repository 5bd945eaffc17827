//! The category list of a desktop entry: text in which semicolons separate
//! the names, and the list of names that the text stands for.

use crate::split::{
    join, join_texts, lemma_join_len, lemma_position, lemma_position_is, lemma_split_concat,
    lemma_split_fields, lemma_split_first, lemma_split_join, lemma_split_single, position, split,
};
use crate::text::{
    is_trimmed, lemma_trimmed_fixes_trimmed, lemma_trimmed_is_trimmed, same_text, trim, trimmed,
};
use vstd::prelude::*;

verus! {

/// The character that separates the names of a category list.
pub const SEPARATOR: char = ';';

/// The names among `fields`: each field trimmed, the empty ones left out.
pub open spec fn tokens_of(fields: Seq<Seq<char>>) -> Seq<Seq<char>> {
    fields.map_values(|f: Seq<char>| trimmed(f)).filter(|t: Seq<char>| t.len() > 0)
}

/// The names that the category text `text` lists.
pub open spec fn tokens(text: Seq<char>) -> Seq<Seq<char>> {
    tokens_of(split(text, SEPARATOR))
}

/// The category text for `parts`: the names with a separator between them
/// and one more at the end, or no text at all where joining them gives none.
pub open spec fn listed(parts: Seq<Seq<char>>) -> Seq<char> {
    let joined = join(parts, seq![SEPARATOR]);
    if joined.len() == 0 {
        joined
    } else {
        joined.push(SEPARATOR)
    }
}

/// The test that a part passes unless it is `name`.
pub open spec fn other_than(name: Seq<char>) -> spec_fn(Seq<char>) -> bool {
    |part: Seq<char>| part != name
}

/// `parts` without `name`: every occurrence of it is left out, the other
/// names keep their order.
pub open spec fn without(parts: Seq<Seq<char>>, name: Seq<char>) -> Seq<Seq<char>> {
    parts.filter(other_than(name))
}

/// `parts` after the check box of `name` has been switched: switched on, the
/// name is added at the end unless it is there already; switched off, it is
/// taken out wherever it stands.
pub open spec fn toggled(parts: Seq<Seq<char>>, name: Seq<char>, active: bool) -> Seq<Seq<char>> {
    if active {
        if parts.contains(name) {
            parts
        } else {
            parts.push(name)
        }
    } else {
        without(parts, name)
    }
}

/// Whether `name` can stand in a category text and be read back from it: it
/// is not empty, has no white space at either end and holds no separator.
pub open spec fn clean(name: Seq<char>) -> bool {
    &&& name.len() > 0
    &&& is_trimmed(name)
    &&& !name.contains(SEPARATOR)
}

/// Whether every name of `parts` is clean.
pub open spec fn all_clean(parts: Seq<Seq<char>>) -> bool {
    forall|i: int| 0 <= i < parts.len() ==> clean(#[trigger] parts[i])
}

/// The categories that the check list offers, in the order of the list.
pub open spec fn category_names() -> Seq<Seq<char>> {
    seq![
        "AudioVideo"@,
        "Audio"@,
        "Video"@,
        "Development"@,
        "Education"@,
        "Game"@,
        "Graphics"@,
        "Network"@,
        "Office"@,
        "Science"@,
        "Settings"@,
        "System"@,
        "Utility"@,
    ]
}

/// Adds the name that `field` holds, if any, to `parts`.
fn push_token(parts: &mut Vec<String>, field: &str)
    ensures
        final(parts).deep_view() == if trimmed(field@).len() > 0 {
            old(parts).deep_view().push(trimmed(field@))
        } else {
            old(parts).deep_view()
        },
{
    let name = trim(field);
    if !name.is_empty() {
        parts.push(String::from_str(name));
        assert(parts.deep_view() =~= old(parts).deep_view().push(trimmed(field@)));
    }
}

/// The names that the category text lists, in the order in which they stand.
pub fn parse_categories(text: &str) -> (parts: Vec<String>)
    ensures
        parts.deep_view() == tokens(text@),
{
    let n: usize = text.unicode_len();
    let mut parts: Vec<String> = Vec::new();
    // Where the field that is being read starts.
    let mut start: usize = 0;
    let mut i: usize = 0;
    let ghost mut fields: Seq<Seq<char>> = Seq::empty();
    proof {
        assert(text@.skip(0) =~= text@);
        assert(Seq::<Seq<char>>::empty() + split(text@, SEPARATOR) =~= split(text@, SEPARATOR));
        assert(parts.deep_view() =~= Seq::<Seq<char>>::empty());
        lemma_tokens_of_empty();
    }
    for c in it: text.chars()
        invariant
            it.seq() == text@,
            n == text@.len(),
            i == it.index(),
            start <= i,
            forall|j: int| start <= j < i ==> #[trigger] text@[j] != SEPARATOR,
            split(text@, SEPARATOR) == fields + split(text@.skip(start as int), SEPARATOR),
            parts.deep_view() == tokens_of(fields),
    {
        assert(text@[i as int] == c);
        if c == SEPARATOR {
            let field = text.substring_char(start, i);
            push_token(&mut parts, field);
            proof {
                let rest = text@.skip(start as int);
                lemma_split_first(rest, SEPARATOR, i - start);
                assert(rest.take(i - start) =~= field@);
                assert(rest.skip(i - start + 1) =~= text@.skip(i + 1));
                lemma_tokens_of_push(fields, field@);
                assert(fields + (seq![field@] + split(text@.skip(i + 1), SEPARATOR)) =~= fields.push(
                    field@,
                ) + split(text@.skip(i + 1), SEPARATOR));
                fields = fields.push(field@);
            }
            start = i + 1;
        }
        i += 1;
    }
    let field = text.substring_char(start, n);
    push_token(&mut parts, field);
    proof {
        let rest = text@.skip(start as int);
        assert(rest =~= field@);
        assert(!rest.contains(SEPARATOR)) by {
            if rest.contains(SEPARATOR) {
                let j = choose|j: int| 0 <= j < rest.len() && rest[j] == SEPARATOR;
                assert(text@[start + j] == SEPARATOR);
            }
        }
        lemma_split_single(rest, SEPARATOR);
        lemma_tokens_of_push(fields, field@);
        assert(fields + seq![field@] =~= fields.push(field@));
    }
    parts
}

/// Where `name` first stands among `parts`, if it does.
pub fn find_name(parts: &Vec<String>, name: &str) -> (at: Option<usize>)
    ensures
        match at {
            Some(i) => i < parts.len() && i == position(parts.deep_view(), name@),
            None => position(parts.deep_view(), name@) == parts.len(),
        },
        at is Some <==> parts.deep_view().contains(name@),
{
    let mut i: usize = 0;
    while i < parts.len()
        invariant
            i <= parts.len(),
            forall|j: int| 0 <= j < i ==> #[trigger] parts.deep_view()[j] != name@,
        decreases parts.len() - i,
    {
        if same_text(parts[i].as_str(), name) {
            proof {
                assert(parts.deep_view()[i as int] == name@);
                lemma_position_is(parts.deep_view(), name@, i as int);
            }
            return Some(i);
        }
        i += 1;
    }
    proof {
        lemma_position_is(parts.deep_view(), name@, i as int);
        lemma_position(parts.deep_view(), name@);
    }
    None
}

/// Writes the category text for `parts`.
pub fn list_categories(parts: &Vec<String>) -> (text: String)
    ensures
        text@ == listed(parts.deep_view()),
{
    let mut text = join_texts(parts, ";");
    proof {
        reveal_strlit(";");
        assert(";"@ =~= seq![SEPARATOR]);
        assert(text@ + ";"@ =~= text@.push(SEPARATOR));
    }
    if !text.as_str().is_empty() {
        text.append(";");
    }
    text
}

/// `parts` without `name`, wherever it stands.
pub fn remove_name(parts: &Vec<String>, name: &str) -> (kept: Vec<String>)
    ensures
        kept.deep_view() == without(parts.deep_view(), name@),
{
    let ghost all = parts.deep_view();
    let mut kept: Vec<String> = Vec::new();
    let mut i: usize = 0;
    proof {
        lemma_without_empty(name@);
        assert(all.take(0) =~= Seq::empty());
        assert(kept.deep_view() =~= Seq::<Seq<char>>::empty());
    }
    while i < parts.len()
        invariant
            i <= parts.len(),
            all == parts.deep_view(),
            kept.deep_view() == without(all.take(i as int), name@),
        decreases parts.len() - i,
    {
        let ghost before = kept.deep_view();
        if !same_text(parts[i].as_str(), name) {
            kept.push(parts[i].clone());
            assert(kept.deep_view() =~= before.push(parts[i as int]@));
        }
        proof {
            assert(all.take(i + 1) =~= all.take(i as int).push(all[i as int]));
            lemma_without_push(all.take(i as int), all[i as int], name@);
        }
        i += 1;
    }
    proof {
        assert(all.take(i as int) =~= all);
    }
    kept
}

/// The category text after the check box of `name` has been switched to
/// `active`. A name that was switched off is no longer listed. A name that
/// was switched on is listed, as long as it is one that can be read back.
/// Whether any other name is listed does not change.
pub fn toggle_category(text: &str, name: &str, active: bool) -> (after: String)
    ensures
        after@ == listed(toggled(tokens(text@), name@, active)),
        !active || clean(name@) ==> tokens(after@) == toggled(tokens(text@), name@, active),
        !active ==> !tokens(after@).contains(name@),
        active && clean(name@) ==> tokens(after@).contains(name@),
        !active || clean(name@) ==> forall|other: Seq<char>|
            other != name@ ==> (tokens(after@).contains(other) <==> tokens(text@).contains(other)),
{
    proof {
        if !active || clean(name@) {
            lemma_toggled_read_back(text@, name@, active);
        }
    }
    let mut parts = parse_categories(text);
    let ghost before = parts.deep_view();
    if active {
        if find_name(&parts, name).is_none() {
            parts.push(String::from_str(name));
            assert(parts.deep_view() =~= before.push(name@));
        }
        list_categories(&parts)
    } else {
        list_categories(&remove_name(&parts, name))
    }
}

/// Whether the category text lists `name`.
pub fn lists_category(text: &str, name: &str) -> (present: bool)
    ensures
        present == tokens(text@).contains(name@),
{
    let parts = parse_categories(text);
    find_name(&parts, name).is_some()
}

/// The categories that the check list offers, in the order of the list.
pub fn categories() -> (names: Vec<&'static str>)
    ensures
        names.deep_view() == category_names(),
{
    let mut names: Vec<&'static str> = Vec::new();
    names.push("AudioVideo");
    names.push("Audio");
    names.push("Video");
    names.push("Development");
    names.push("Education");
    names.push("Game");
    names.push("Graphics");
    names.push("Network");
    names.push("Office");
    names.push("Science");
    names.push("Settings");
    names.push("System");
    names.push("Utility");
    assert(names.deep_view() =~= category_names());
    names
}

/// One more field adds its trimmed text to the names, unless that is empty.
pub proof fn lemma_tokens_of_push(fields: Seq<Seq<char>>, field: Seq<char>)
    ensures
        tokens_of(fields.push(field)) == if trimmed(field).len() > 0 {
            tokens_of(fields).push(trimmed(field))
        } else {
            tokens_of(fields)
        },
{
    let f = |f: Seq<char>| trimmed(f);
    let p = |t: Seq<char>| t.len() > 0;
    fields.lemma_push_map_commute(f, field);
    fields.map_values(f).lemma_filter_push(trimmed(field), p);
}

/// No fields hold no names.
pub proof fn lemma_tokens_of_empty()
    ensures
        tokens_of(Seq::empty()) == Seq::<Seq<char>>::empty(),
{
    reveal(Seq::filter);
    assert(Seq::<Seq<char>>::empty().map_values(|f: Seq<char>| trimmed(f)) =~= Seq::<
        Seq<char>,
    >::empty());
}

/// Every name among the names of `fields` is the trimmed text of a field,
/// and is not empty.
pub proof fn lemma_tokens_of_fields(fields: Seq<Seq<char>>)
    ensures
        tokens_of(fields).len() <= fields.len(),
        forall|i: int|
            0 <= i < tokens_of(fields).len() ==> (#[trigger] tokens_of(fields)[i]).len() > 0
                && exists|j: int|
                0 <= j < fields.len() && tokens_of(fields)[i] == trimmed(#[trigger] fields[j]),
    decreases fields.len(),
{
    if fields.len() == 0 {
        lemma_tokens_of_empty();
        assert(fields =~= Seq::empty());
    } else {
        let front = fields.drop_last();
        let last = fields.last();
        assert(front.push(last) =~= fields);
        lemma_tokens_of_fields(front);
        lemma_tokens_of_push(front, last);
        let toks = tokens_of(fields);
        assert forall|i: int| 0 <= i < toks.len() implies (#[trigger] toks[i]).len() > 0
            && exists|j: int| 0 <= j < fields.len() && toks[i] == trimmed(#[trigger] fields[j]) by {
            if i < tokens_of(front).len() {
                assert(toks[i] == tokens_of(front)[i]);
                let j = choose|j: int|
                    0 <= j < front.len() && tokens_of(front)[i] == trimmed(#[trigger] front[j]);
                assert(fields[j] == front[j]);
            } else {
                assert(toks[i] == trimmed(fields[fields.len() - 1]));
            }
        }
    }
}

/// Every name that a category text lists is clean.
pub proof fn lemma_tokens_clean(text: Seq<char>)
    ensures
        all_clean(tokens(text)),
{
    let fields = split(text, SEPARATOR);
    let toks = tokens(text);
    lemma_split_fields(text, SEPARATOR);
    lemma_tokens_of_fields(fields);
    assert forall|i: int| 0 <= i < toks.len() implies clean(#[trigger] toks[i]) by {
        let j = choose|j: int| 0 <= j < fields.len() && toks[i] == trimmed(#[trigger] fields[j]);
        lemma_trimmed_is_trimmed(fields[j]);
        assert(!fields[j].contains(SEPARATOR));
    }
}

/// Clean names are their own names: trimming changes none and none is left
/// out.
pub proof fn lemma_tokens_of_clean(parts: Seq<Seq<char>>)
    requires
        all_clean(parts),
    ensures
        tokens_of(parts) == parts,
    decreases parts.len(),
{
    if parts.len() == 0 {
        lemma_tokens_of_empty();
        assert(parts =~= Seq::empty());
    } else {
        let front = parts.drop_last();
        let last = parts.last();
        assert(front.push(last) =~= parts);
        assert forall|i: int| 0 <= i < front.len() implies clean(#[trigger] front[i]) by {
            assert(front[i] == parts[i]);
        }
        lemma_tokens_of_clean(front);
        lemma_tokens_of_push(front, last);
        assert(clean(parts[parts.len() - 1]));
        lemma_trimmed_fixes_trimmed(last);
    }
}

/// Reading back what was written: the category text for clean names lists
/// exactly these names, in their order.
pub proof fn lemma_listed_round_trip(parts: Seq<Seq<char>>)
    requires
        all_clean(parts),
    ensures
        tokens(listed(parts)) == parts,
{
    let none = Seq::<char>::empty();
    assert(trimmed(none) =~= none);
    if parts.len() == 0 {
        assert(split(none, SEPARATOR) =~= Seq::<Seq<char>>::empty().push(none));
        lemma_tokens_of_empty();
        lemma_tokens_of_push(Seq::empty(), none);
        assert(parts =~= Seq::empty());
    } else {
        let joined = join(parts, seq![SEPARATOR]);
        lemma_join_len(parts, seq![SEPARATOR]);
        assert(clean(parts[parts.len() - 1]));
        assert(joined.push(SEPARATOR) =~= joined.push(SEPARATOR) + none);
        lemma_split_concat(joined, none, SEPARATOR);
        assert forall|i: int| 0 <= i < parts.len() implies !(#[trigger] parts[i]).contains(
            SEPARATOR,
        ) by {
            assert(clean(parts[i]));
        }
        lemma_split_join(parts, SEPARATOR);
        assert(parts + split(none, SEPARATOR) =~= parts.push(none));
        lemma_tokens_of_push(parts, none);
        lemma_tokens_of_clean(parts);
    }
}

/// A category text and the text written for its names list the same names.
pub proof fn lemma_listed_normal_form(text: Seq<char>)
    ensures
        tokens(listed(tokens(text))) == tokens(text),
{
    lemma_tokens_clean(text);
    lemma_listed_round_trip(tokens(text));
}

/// Nothing is left out of no names.
pub proof fn lemma_without_empty(name: Seq<char>)
    ensures
        without(Seq::empty(), name) == Seq::<Seq<char>>::empty(),
{
    reveal(Seq::filter);
}

/// One more part stays unless it is the name.
pub proof fn lemma_without_push(parts: Seq<Seq<char>>, part: Seq<char>, name: Seq<char>)
    ensures
        without(parts.push(part), name) == if part != name {
            without(parts, name).push(part)
        } else {
            without(parts, name)
        },
{
    parts.lemma_filter_push(part, other_than(name));
}

/// What is left without a name: the name is gone, every other name is there
/// exactly if it was, nothing is there that was not, and where the name did
/// not occur nothing has changed.
pub proof fn lemma_without(parts: Seq<Seq<char>>, name: Seq<char>)
    ensures
        !without(parts, name).contains(name),
        forall|other: Seq<char>|
            other != name ==> (without(parts, name).contains(other) <==> parts.contains(other)),
        forall|i: int|
            0 <= i < without(parts, name).len() ==> parts.contains(
                #[trigger] without(parts, name)[i],
            ),
        !parts.contains(name) ==> without(parts, name) == parts,
    decreases parts.len(),
{
    if parts.len() == 0 {
        assert(parts =~= Seq::empty());
        lemma_without_empty(name);
    } else {
        let front = parts.drop_last();
        let last = parts.last();
        assert(front.push(last) =~= parts);
        lemma_without(front, name);
        lemma_without_push(front, last, name);
        let kept = without(parts, name);
        let kept_front = without(front, name);
        assert forall|i: int| 0 <= i < kept.len() implies parts.contains(#[trigger] kept[i]) by {
            if i < kept_front.len() {
                assert(kept[i] == kept_front[i]);
                let j = choose|j: int| 0 <= j < front.len() && front[j] == kept_front[i];
                assert(parts[j] == kept[i]);
            } else {
                assert(parts[parts.len() - 1] == kept[i]);
            }
        }
        if kept.contains(name) {
            let i = choose|i: int| 0 <= i < kept.len() && kept[i] == name;
            if i < kept_front.len() {
                assert(kept_front[i] == name);
            }
        }
        assert forall|other: Seq<char>| other != name implies (kept.contains(other)
            <==> parts.contains(other)) by {
            if kept.contains(other) {
                let i = choose|i: int| 0 <= i < kept.len() && kept[i] == other;
                assert(parts.contains(kept[i]));
            }
            if parts.contains(other) {
                let j = choose|j: int| 0 <= j < parts.len() && parts[j] == other;
                if j < front.len() {
                    assert(front[j] == other);
                    assert(front.contains(other));
                    assert(kept_front.contains(other));
                    let i = choose|i: int| 0 <= i < kept_front.len() && kept_front[i] == other;
                    assert(kept[i] == other);
                } else {
                    assert(kept[kept.len() - 1] == other);
                }
            }
        }
        if !parts.contains(name) {
            if front.contains(name) {
                let j = choose|j: int| 0 <= j < front.len() && front[j] == name;
                assert(parts[j] == name);
            }
            assert(parts[parts.len() - 1] != name);
        }
    }
}

/// Switching a name among clean names leaves clean names, as long as a name
/// that is switched on is clean itself.
pub proof fn lemma_toggled_clean(parts: Seq<Seq<char>>, name: Seq<char>, active: bool)
    requires
        all_clean(parts),
        active ==> clean(name),
    ensures
        all_clean(toggled(parts, name, active)),
{
    let after = toggled(parts, name, active);
    lemma_without(parts, name);
    assert forall|i: int| 0 <= i < after.len() implies clean(#[trigger] after[i]) by {
        if active {
            if i < parts.len() {
                assert(after[i] == parts[i]);
            }
        } else {
            assert(parts.contains(after[i]));
            let j = choose|j: int| 0 <= j < parts.len() && parts[j] == after[i];
            assert(clean(parts[j]));
        }
    }
}

/// What switching a check box does to the names. Once it is on, the name is
/// among them; once it is off, it is not. Whether any other name is among
/// them does not change.
pub proof fn lemma_toggled_contains(parts: Seq<Seq<char>>, name: Seq<char>, active: bool)
    ensures
        active ==> toggled(parts, name, active).contains(name),
        !active ==> !toggled(parts, name, active).contains(name),
        forall|other: Seq<char>|
            other != name ==> (toggled(parts, name, active).contains(other) <==> parts.contains(
                other,
            )),
{
    let after = toggled(parts, name, active);
    lemma_without(parts, name);
    if active && !parts.contains(name) {
        assert(after[parts.len() as int] == name);
        assert forall|other: Seq<char>| other != name implies (after.contains(other)
            <==> parts.contains(other)) by {
            if after.contains(other) {
                let i = choose|i: int| 0 <= i < after.len() && after[i] == other;
                assert(parts[i] == other);
            }
            if parts.contains(other) {
                let i = choose|i: int| 0 <= i < parts.len() && parts[i] == other;
                assert(after[i] == other);
            }
        }
    }
}

/// The text that a switched check box leaves lists what the switch asks for:
/// the names of before with the one change. A name that was switched off is
/// not listed any more, however often it stood in the text. A name that was
/// switched on is listed; this is said of a name that can be read back.
pub proof fn lemma_toggled_read_back(text: Seq<char>, name: Seq<char>, active: bool)
    requires
        active ==> clean(name),
    ensures
        tokens(listed(toggled(tokens(text), name, active))) == toggled(tokens(text), name, active),
        active ==> tokens(listed(toggled(tokens(text), name, active))).contains(name),
        !active ==> !tokens(listed(toggled(tokens(text), name, active))).contains(name),
        forall|other: Seq<char>|
            other != name ==> (tokens(listed(toggled(tokens(text), name, active))).contains(other)
                <==> tokens(text).contains(other)),
{
    lemma_tokens_clean(text);
    lemma_toggled_clean(tokens(text), name, active);
    lemma_listed_round_trip(toggled(tokens(text), name, active));
    lemma_toggled_contains(tokens(text), name, active);
}

/// Every category of the check list can be written to a category text and
/// read back, and no two of them are the same.
pub proof fn lemma_category_names()
    ensures
        all_clean(category_names()),
        category_names().no_duplicates(),
{
    reveal_strlit("AudioVideo");
    reveal_strlit("Audio");
    reveal_strlit("Video");
    reveal_strlit("Development");
    reveal_strlit("Education");
    reveal_strlit("Game");
    reveal_strlit("Graphics");
    reveal_strlit("Network");
    reveal_strlit("Office");
    reveal_strlit("Science");
    reveal_strlit("Settings");
    reveal_strlit("System");
    reveal_strlit("Utility");
    let names = category_names();
    assert forall|i: int| 0 <= i < names.len() implies clean(#[trigger] names[i]) by {
        let name = names[i];
        assert forall|j: int| 0 <= j < name.len() implies name[j] != SEPARATOR by {}
    }
    assert forall|i: int, j: int| 0 <= i < names.len() && 0 <= j < names.len() && i != j implies names[i]
        != names[j] by {
        if names[i].len() == names[j].len() {
            assert(names[i][0] != names[j][0] || names[i][1] != names[j][1]);
        }
    }
}

} // verus!
