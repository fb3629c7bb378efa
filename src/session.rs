//! The per-conversation session: which recipes were shown, and what each
//! command does to that history.
//!
//! `step` decides; the caller carries out the action it returns (sending a
//! message, producing an artifact) and keeps the new state only where that
//! succeeded.
use vstd::prelude::*;
use crate::catalog::{Catalog, ids_sequential, pick_of, lemma_pick_avoids_excluded};
use crate::recipe::{Recipe, RecipeView};
use crate::text::{escape_markdown, escaped};

verus! {

/// Session state: nothing shown yet, or the ids shown so far, most recent last.
#[derive(Debug, Clone)]
pub enum State {
    Start,
    FindRecipe(Vec<i32>),
}

impl Default for State {
    fn default() -> (s: State)
        ensures
            s is Start,
    {
        State::Start
    }
}

/// The ids shown in this session, most recent last.
pub open spec fn history(s: State) -> Seq<i32> {
    match s {
        State::Start => Seq::empty(),
        State::FindRecipe(h) => h@,
    }
}

/// A user command.
#[derive(Debug, Clone, Copy, PartialEq, Eq, Structural)]
pub enum Intent {
    Help,
    New,
    Next,
    Accept,
}

/// What the caller is to do for a command.
#[derive(Debug)]
pub enum Action {
    /// Send the list of commands.
    ShowHelp,
    /// Every recipe was shown in this session; say so.
    Exhausted,
    /// Accept came with no recipe shown; ask for one first.
    NeedSelection,
    /// Send this text.
    ShowText(String),
    /// Render this recipe's image and send it with this caption.
    ShowImage(Recipe, String),
    /// Produce this recipe's document and send it as a file.
    SendDocument(Recipe),
    /// The most recent id of the history is in no record of the catalog.
    Unresolved(i32),
}

/// What `step` returns: the state to keep once the action is done, and the action.
#[derive(Debug)]
pub struct Decision {
    pub next: State,
    pub action: Action,
}

/// The hint that ends each shown recipe.
pub const HINT: &'static str = "\n\n/accept to get the pdf\n/next for another recipe";

/// Said when every recipe was shown.
pub const EXHAUSTED_TEXT: &'static str = "You circled over all recipes. You can start over with /new";

/// Said when accept comes with nothing shown.
pub const GUIDANCE_TEXT: &'static str = "To accept you first need to fetch a recipe with /new";

/// Caption of a recipe's image: its escaped name in bold, then the hint.
pub open spec fn image_caption_of(name: Seq<char>) -> Seq<char> {
    "*"@ + escaped(name) + "*"@ + HINT@
}

/// Text shown for a recipe without picture: its name in bold, then the hint.
pub open spec fn text_caption_of(name: Seq<char>) -> Seq<char> {
    "*"@ + name + "*"@ + HINT@
}

/// Caption of a recipe's image.
pub fn image_caption(name: &str) -> (r: String)
    ensures
        r@ == image_caption_of(name@),
{
    let mut c = String::from_str("*");
    let esc = escape_markdown(name);
    c.append(esc.as_str());
    c.append("*");
    c.append(HINT);
    c
}

/// Text shown for a recipe without picture.
pub fn text_caption(name: &str) -> (r: String)
    ensures
        r@ == text_caption_of(name@),
{
    let mut c = String::from_str("*");
    c.append(name);
    c.append("*");
    c.append(HINT);
    c
}

/// The ids excluded from selection by `intent` in state `s`: none for `New`,
/// which starts afresh, the history otherwise.
pub open spec fn excluded_by(s: State, intent: Intent) -> Seq<i32> {
    if intent == Intent::New {
        Seq::empty()
    } else {
        history(s)
    }
}

/// History after a selection among records `c` that excludes `h` with `draw`:
/// the new id appended, or empty (back to the start) when none is left.
pub open spec fn history_after_pick(c: Seq<RecipeView>, h: Seq<i32>, draw: u64) -> Seq<i32> {
    match pick_of(c, h, draw) {
        Some(r) => h.push(r.id->Some_0),
        None => Seq::empty(),
    }
}

/// The decision for `intent` in state `s`, with `draw` choosing among the
/// recipes not yet shown.
pub fn step(catalog: &Catalog, s: &State, intent: Intent, draw: u64) -> (d: Decision)
    ensures
        intent == Intent::Help ==> d.action is ShowHelp && d.next is Start == s is Start
            && history(d.next) == history(*s),
        intent == Intent::New || intent == Intent::Next ==> {
            let ex = excluded_by(*s, intent);
            match pick_of(catalog@, ex, draw) {
                None => d.action is Exhausted && d.next is Start,
                Some(r) => {
                    &&& d.next is FindRecipe
                    &&& history(d.next) == ex.push(r.id->Some_0)
                    &&& r.has_picture ==> d.action is ShowImage && d.action->ShowImage_0@ == r
                        && d.action->ShowImage_1@ == image_caption_of(r.name)
                    &&& !r.has_picture ==> d.action is ShowText && d.action->ShowText_0@
                        == text_caption_of(r.name)
                },
            }
        },
        intent == Intent::New || intent == Intent::Next ==> history(d.next) == history_after_pick(
            catalog@,
            excluded_by(*s, intent),
            draw,
        ),
        intent == Intent::Accept && history(*s).len() == 0 ==> d.action is NeedSelection
            && d.next is Start,
        intent == Intent::Accept && history(*s).len() > 0 ==> {
            let k = history(*s).last();
            if 1 <= k <= catalog@.len() {
                d.action is SendDocument && d.action->SendDocument_0@ == catalog@[k - 1]
                    && d.next is Start
            } else {
                d.action is Unresolved && d.action->Unresolved_0 == k && d.next is FindRecipe
                    && history(d.next) == history(*s)
            }
        },
{
    match intent {
        Intent::Help => Decision { next: s.clone_state(), action: Action::ShowHelp },
        Intent::New | Intent::Next => {
            let mut shown: Vec<i32> = match (intent, s) {
                (Intent::Next, State::FindRecipe(h)) => h.clone(),
                _ => Vec::new(),
            };
            proof {
                use_type_invariant(catalog);
                assert(shown@ == excluded_by(*s, intent));
                lemma_pick_avoids_excluded(catalog@, shown@, draw);
            }
            match catalog.fetch_random_recipe(&shown, draw) {
                None => Decision { next: State::Start, action: Action::Exhausted },
                Some(r) => {
                    let id: i32 = match r.id {
                        Some(i) => i,
                        None => 0,
                    };
                    shown.push(id);
                    let action = if r.has_picture {
                        let caption = image_caption(r.name.as_str());
                        Action::ShowImage(r, caption)
                    } else {
                        Action::ShowText(text_caption(r.name.as_str()))
                    };
                    Decision { next: State::FindRecipe(shown), action }
                },
            }
        },
        Intent::Accept => {
            match s {
                State::FindRecipe(h) if h.len() > 0 => {
                    let k = h[h.len() - 1];
                    match catalog.fetch_recipe_from_id(k) {
                        Some(r) => Decision { next: State::Start, action: Action::SendDocument(r) },
                        None => Decision {
                            next: State::FindRecipe(h.clone()),
                            action: Action::Unresolved(k),
                        },
                    }
                },
                _ => Decision { next: State::Start, action: Action::NeedSelection },
            }
        },
    }
}

/// The state a session keeps once the action of a decision was carried out:
/// the decision's next state where it succeeded, the current one otherwise.
pub fn state_after(current: State, next: State, succeeded: bool) -> (r: State)
    ensures
        succeeded ==> r is Start == next is Start && history(r) == history(next),
        !succeeded ==> r is Start == current is Start && history(r) == history(current),
{
    if succeeded {
        next
    } else {
        current
    }
}

impl State {
    /// A copy of the state.
    pub fn clone_state(&self) -> (r: State)
        ensures
            r is Start == self is Start,
            history(r) == history(*self),
    {
        match self {
            State::Start => State::Start,
            State::FindRecipe(h) => State::FindRecipe(h.clone()),
        }
    }
}

/// History after `next` is issued once for each of `draws`, in order, from
/// a fresh session.
pub open spec fn history_after_nexts(c: Seq<RecipeView>, draws: Seq<u64>) -> Seq<i32>
    decreases draws.len(),
{
    if draws.len() == 0 {
        Seq::empty()
    } else {
        history_after_pick(c, history_after_nexts(c, draws.drop_last()), draws.last())
    }
}

/// The ids 1 to `k`.
pub open spec fn id_range(k: int) -> Set<i32> {
    Set::new(|i: i32| 1 <= i <= k)
}

proof fn lemma_id_range_len(k: int)
    requires
        0 <= k <= i32::MAX,
    ensures
        id_range(k).finite(),
        id_range(k).len() == k,
    decreases k,
{
    if k == 0 {
        assert(id_range(k) =~= Set::<i32>::empty());
    } else {
        lemma_id_range_len(k - 1);
        assert(id_range(k) =~= id_range(k - 1).insert(k as i32));
    }
}

proof fn lemma_nexts_prefix(c: Seq<RecipeView>, draws: Seq<u64>)
    requires
        ids_sequential(c),
        draws.len() <= c.len(),
    ensures
        history_after_nexts(c, draws).len() == draws.len(),
        history_after_nexts(c, draws).no_duplicates(),
        forall|j: int|
            0 <= j < draws.len() ==> 1 <= #[trigger] history_after_nexts(c, draws)[j] <= c.len(),
    decreases draws.len(),
{
    if draws.len() > 0 {
        let prev = draws.drop_last();
        lemma_nexts_prefix(c, prev);
        let h = history_after_nexts(c, prev);
        let d = draws.last();
        lemma_pick_avoids_excluded(c, h, d);
        lemma_id_range_len(c.len() as int);
        h.lemma_cardinality_of_set();
        if forall|id: i32| 1 <= id <= c.len() ==> h.contains(id) {
            assert(id_range(c.len() as int).subset_of(h.to_set()));
            vstd::set_lib::lemma_len_subset(id_range(c.len() as int), h.to_set());
            assert(false);
        }
        let r = pick_of(c, h, d)->Some_0;
        let id = r.id->Some_0;
        let h2 = h.push(id);
        assert(history_after_nexts(c, draws) == h2);
        assert forall|a: int, b: int| 0 <= a < b < h2.len() implies h2[a] != h2[b] by {
            if b == h2.len() - 1 {
                assert(h.contains(h2[a]));
            }
        }
        assert forall|j: int| 0 <= j < draws.len() implies 1 <= #[trigger] h2[j] <= c.len() by {
            if j < h.len() {
                assert(h2[j] == h[j]);
            }
        }
    }
}

/// A fresh session that issues `next` once per recipe of the catalog shows
/// every recipe exactly once; a `next` after that finds none left.
pub proof fn lemma_nexts_visit_all(c: Seq<RecipeView>, draws: Seq<u64>)
    requires
        ids_sequential(c),
        draws.len() == c.len(),
    ensures
        history_after_nexts(c, draws).len() == c.len(),
        history_after_nexts(c, draws).no_duplicates(),
        forall|id: i32| 1 <= id <= c.len() ==> history_after_nexts(c, draws).contains(id),
        forall|d: u64| #[trigger] pick_of(c, history_after_nexts(c, draws), d) is None,
{
    lemma_nexts_prefix(c, draws);
    let h = history_after_nexts(c, draws);
    lemma_id_range_len(c.len() as int);
    h.unique_seq_to_set();
    assert(h.to_set().subset_of(id_range(c.len() as int))) by {
        assert forall|x: i32| h.to_set().contains(x) implies id_range(c.len() as int).contains(x) by {
            let j = choose|j: int| 0 <= j < h.len() && h[j] == x;
        }
    }
    vstd::set_lib::lemma_subset_equality(h.to_set(), id_range(c.len() as int));
    assert forall|id: i32| 1 <= id <= c.len() implies h.contains(id) by {
        assert(id_range(c.len() as int).contains(id));
        assert(h.to_set().contains(id));
    }
    assert forall|d: u64| #[trigger] pick_of(c, h, d) is None by {
        lemma_pick_avoids_excluded(c, h, d);
    }
}

} // verus!
