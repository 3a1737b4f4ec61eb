//! The image recipe: build instructions ordered by priority.
//!
//! Snippets of one priority are joined by a line break in the order in which
//! they were contributed. The recipe text lists the priorities in ascending
//! order and ends each with a blank line.

use std::collections::BTreeMap;
use vstd::prelude::*;
use vstd::string::StringExecFns;
use crate::aspects::{DockerfileSnippet, SnippetView};

verus! {

/// The texts of `parts`, each but the first preceded by a line break.
pub open spec fn join_lines(parts: Seq<Seq<char>>) -> Seq<char>
    decreases parts.len(),
{
    if parts.len() == 0 {
        Seq::empty()
    } else if parts.len() == 1 {
        parts[0]
    } else {
        join_lines(parts.drop_last()) + seq!['\n'] + parts.last()
    }
}

/// The texts that `snippets` place at priority `order`, in the order of
/// `snippets`.
pub open spec fn texts_at(snippets: Seq<SnippetView>, order: u8) -> Seq<Seq<char>> {
    snippets.filter(|s: SnippetView| s.order == order).map_values(|s: SnippetView| s.content)
}

/// The recipe that `snippets` add up to: each priority that occurs, with its
/// texts joined.
pub open spec fn recipe_of(snippets: Seq<SnippetView>) -> Map<u8, Seq<char>> {
    Map::new(
        |order: u8| texts_at(snippets, order).len() > 0,
        |order: u8| join_lines(texts_at(snippets, order)),
    )
}

/// A recipe after one more snippet.
pub open spec fn with_snippet(recipe: Map<u8, Seq<char>>, snippet: SnippetView) -> Map<
    u8,
    Seq<char>,
> {
    if recipe.contains_key(snippet.order) {
        recipe.insert(snippet.order, recipe[snippet.order] + seq!['\n'] + snippet.content)
    } else {
        recipe.insert(snippet.order, snippet.content)
    }
}

/// The text of the priorities below `bound`, ascending, each followed by a
/// blank line.
pub open spec fn render_below(recipe: Map<u8, Seq<char>>, bound: nat) -> Seq<char>
    decreases bound,
{
    if bound == 0 {
        Seq::empty()
    } else {
        let order = (bound - 1) as u8;
        let head = render_below(recipe, (bound - 1) as nat);
        if recipe.contains_key(order) {
            head + recipe[order] + seq!['\n', '\n']
        } else {
            head
        }
    }
}

/// The text of a recipe.
pub open spec fn render(recipe: Map<u8, Seq<char>>) -> Seq<char> {
    render_below(recipe, 256)
}

/// The recipe text that a list of snippets composes to.
pub open spec fn recipe_text(snippets: Seq<SnippetView>) -> Seq<char> {
    render(recipe_of(snippets))
}

/// Joining one more text appends a line break and the text, unless it is the
/// first.
pub proof fn lemma_join_lines_push(parts: Seq<Seq<char>>, text: Seq<char>)
    ensures
        join_lines(parts.push(text)) == if parts.len() == 0 {
            text
        } else {
            join_lines(parts) + seq!['\n'] + text
        },
{
    assert(parts.push(text).drop_last() =~= parts);
}

/// One more snippet changes the texts of its own priority only, and goes
/// last there.
pub proof fn lemma_texts_at_push(snippets: Seq<SnippetView>, snippet: SnippetView, order: u8)
    ensures
        texts_at(snippets.push(snippet), order) == if snippet.order == order {
            texts_at(snippets, order).push(snippet.content)
        } else {
            texts_at(snippets, order)
        },
{
    let at = |s: SnippetView| s.order == order;
    let content = |s: SnippetView| s.content;
    snippets.lemma_filter_push(snippet, at);
    if snippet.order == order {
        snippets.filter(at).lemma_push_map_commute(content, snippet);
    }
}

/// The recipe of a list of snippets is built one snippet at a time.
pub proof fn lemma_recipe_of_push(snippets: Seq<SnippetView>, snippet: SnippetView)
    ensures
        recipe_of(snippets.push(snippet)) == with_snippet(recipe_of(snippets), snippet),
{
    let before = recipe_of(snippets);
    let after = recipe_of(snippets.push(snippet));
    let expected = with_snippet(before, snippet);
    assert forall|order: u8| #[trigger]
        after.dom().contains(order) == expected.dom().contains(order) by {
        lemma_texts_at_push(snippets, snippet, order);
    }
    assert forall|order: u8| #[trigger] after.dom().contains(order) implies after[order]
        == expected[order] by {
        lemma_texts_at_push(snippets, snippet, order);
        if snippet.order == order {
            lemma_join_lines_push(texts_at(snippets, order), snippet.content);
        }
    }
    assert(after =~= expected);
}

/// No snippets, no recipe.
pub proof fn lemma_recipe_of_empty()
    ensures
        recipe_of(Seq::empty()) == Map::<u8, Seq<char>>::empty(),
{
    reveal(Seq::filter);
    assert forall|order: u8| !recipe_of(Seq::empty()).contains_key(order) by {
        assert(Seq::<SnippetView>::empty().filter(|s: SnippetView| s.order == order).len() == 0);
    }
    assert(recipe_of(Seq::empty()) =~= Map::<u8, Seq<char>>::empty());
}

/// Composition is a function of the snippets: equal lists of snippets give
/// the same recipe text, character for character.
pub proof fn law_recipe_is_deterministic(first: Seq<SnippetView>, second: Seq<SnippetView>)
    requires
        first == second,
    ensures
        recipe_text(first) == recipe_text(second),
{
}

/// Snippets of one priority keep the order in which they were contributed:
/// where `a` comes before `b` and both stand at priority `a.order`, the
/// recipe holds at that priority the texts before `a`, then `a`'s text, the
/// texts between the two, `b`'s text and the texts after `b`, joined by line
/// breaks in that order.
pub proof fn law_same_priority_keeps_order(
    before: Seq<SnippetView>,
    a: SnippetView,
    between: Seq<SnippetView>,
    b: SnippetView,
    after: Seq<SnippetView>,
)
    requires
        a.order == b.order,
    ensures
        ({
            let all = before.push(a) + between.push(b) + after;
            let order = a.order;
            &&& texts_at(all, order) == texts_at(before, order).push(a.content) + texts_at(
                between,
                order,
            ).push(b.content) + texts_at(after, order)
            &&& recipe_of(all).contains_key(order)
            &&& recipe_of(all)[order] == join_lines(texts_at(all, order))
        }),
{
    let order = a.order;
    let at = |s: SnippetView| s.order == order;
    let content = |s: SnippetView| s.content;
    let all = before.push(a) + between.push(b) + after;
    lemma_texts_at_push(before, a, order);
    lemma_texts_at_push(between, b, order);
    Seq::filter_distributes_over_add(before.push(a) + between.push(b), after, at);
    Seq::filter_distributes_over_add(before.push(a), between.push(b), at);
    let x = before.push(a).filter(at);
    let y = between.push(b).filter(at);
    let z = after.filter(at);
    assert((x + y + z).map_values(content) =~= x.map_values(content) + y.map_values(content)
        + z.map_values(content));
}

/// Two snippets of one priority, alone at that priority, read as the first
/// one's text, a line break and the second one's text.
pub proof fn law_two_snippets_concatenate(a: SnippetView, b: SnippetView)
    requires
        a.order == b.order,
    ensures
        recipe_of(seq![a, b]) == Map::<u8, Seq<char>>::empty().insert(
            a.order,
            a.content + seq!['\n'] + b.content,
        ),
{
    lemma_recipe_of_empty();
    lemma_recipe_of_push(Seq::empty(), a);
    lemma_recipe_of_push(Seq::<SnippetView>::empty().push(a), b);
    assert(Seq::<SnippetView>::empty().push(a).push(b) =~= seq![a, b]);
    assert(recipe_of(seq![a, b]) =~= Map::<u8, Seq<char>>::empty().insert(
        a.order,
        a.content + seq!['\n'] + b.content,
    ));
}

/// An image recipe under construction: for each priority the text gathered so
/// far.
pub struct ImageRecipe {
    contents: BTreeMap<u8, String>,
}

impl View for ImageRecipe {
    type V = Map<u8, Seq<char>>;

    closed spec fn view(&self) -> Map<u8, Seq<char>> {
        Map::new(|order: u8| self.contents@.contains_key(order), |order: u8| self.contents@[order]@)
    }
}

impl ImageRecipe {
    /// A recipe without text.
    pub fn new() -> (recipe: ImageRecipe)
        ensures
            recipe@ == Map::<u8, Seq<char>>::empty(),
    {
        let recipe = ImageRecipe { contents: BTreeMap::new() };
        assert(recipe@ =~= Map::<u8, Seq<char>>::empty());
        recipe
    }

    /// Places `content` at priority `order`, after what is there.
    pub fn add(&mut self, order: u8, content: &str)
        ensures
            final(self)@ == with_snippet(old(self)@, SnippetView { order, content: content@ }),
    {
        let ghost before = self@;
        let text = match self.contents.get(&order) {
            Some(existing) => {
                let mut text = existing.clone();
                proof {
                    reveal_strlit("\n");
                }
                text.append("\n");
                text.append(content);
                assert(text@ =~= before[order] + seq!['\n'] + content@);
                text
            },
            None => String::from_str(content),
        };
        self.contents.insert(order, text);
        assert(self@ =~= with_snippet(before, SnippetView { order, content: content@ }));
    }

    /// The recipe text: the priorities in ascending order, each followed by a
    /// blank line.
    pub fn text(&self) -> (text: String)
        ensures
            text@ == render(self@),
    {
        let mut text = String::new();
        let mut bound: u16 = 0;
        while bound < 256
            invariant
                bound <= 256,
                text@ == render_below(self@, bound as nat),
            decreases 256 - bound,
        {
            let order = bound as u8;
            if let Some(block) = self.contents.get(&order) {
                proof {
                    reveal_strlit("\n");
                }
                text.append(block.as_str());
                text.append("\n");
                text.append("\n");
                assert(text@ =~= render_below(self@, bound as nat) + self@[order] + seq![
                    '\n',
                    '\n',
                ]);
            }
            bound = bound + 1;
        }
        text
    }
}

/// The recipe text that `snippets` compose to.
pub fn compose(snippets: &Vec<DockerfileSnippet>) -> (text: String)
    ensures
        text@ == recipe_text(snippets.deep_view()),
{
    let mut recipe = ImageRecipe::new();
    let mut i: usize = 0;
    proof {
        lemma_recipe_of_empty();
        assert(snippets.deep_view().take(0) =~= Seq::empty());
    }
    while i < snippets.len()
        invariant
            i <= snippets.len(),
            recipe@ == recipe_of(snippets.deep_view().take(i as int)),
        decreases snippets.len() - i,
    {
        proof {
            let all = snippets.deep_view();
            lemma_recipe_of_push(all.take(i as int), all[i as int]);
            assert(all.take(i as int).push(all[i as int]) =~= all.take(i + 1));
        }
        recipe.add(snippets[i].order, snippets[i].content.as_str());
        i = i + 1;
    }
    proof {
        assert(snippets.deep_view().take(i as int) =~= snippets.deep_view());
    }
    recipe.text()
}

} // verus!
