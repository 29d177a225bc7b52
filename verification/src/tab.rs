//! The completion engine: a flat registry of trigger contexts with
//! longest-prefix dispatch and pluggable filtering strategies.
//!
//! Contexts are registered under a trigger string (the empty string names the
//! root context). A query picks the context whose trigger is the longest
//! prefix of the input, filters that context's items by the context's match
//! strategy, stable-sorts them by priority (higher first, ties keeping
//! registration order) and materialises them as candidates.

use vstd::prelude::*;

use crate::text::{
    contains_seq, last_token_spec, lemma_vec_deep_view_push, str_contains, str_eq,
    str_starts_with, trim_start_spec, trim_start_str, last_token_str,
};

verus! {

/// Matching strategy for filtering completion candidates.
#[derive(Clone, Copy)]
pub enum MatchStrategy {
    /// Show all completions regardless of the current input.
    All,
    /// Match completions that start with the remainder of the input after
    /// the trigger.
    Prefix,
    /// Match completions that contain the last whitespace-delimited token of
    /// the input.
    Contains,
}

impl Default for MatchStrategy {
    /// The default strategy is [`MatchStrategy::Prefix`].
    fn default() -> (r: Self)
        ensures
            r is Prefix,
    {
        MatchStrategy::Prefix
    }
}

/// A single completion item with text and optional description.
#[derive(Debug)]
pub struct CompletionItem {
    /// The text to complete.
    pub text: String,
    /// Optional description for display.
    pub description: Option<String>,
    /// Priority for sorting (higher sorts first).
    pub priority: u32,
}

/// The mathematical content of a [`CompletionItem`].
#[verifier::ext_equal]
pub ghost struct ItemView {
    pub text: Seq<char>,
    pub description: Option<Seq<char>>,
    pub priority: u32,
}

impl View for CompletionItem {
    type V = ItemView;

    open spec fn view(&self) -> ItemView {
        ItemView {
            text: self.text@,
            description: self.description.deep_view(),
            priority: self.priority,
        }
    }
}

impl DeepView for CompletionItem {
    type V = ItemView;

    open spec fn deep_view(&self) -> ItemView {
        self@
    }
}

impl Clone for CompletionItem {
    fn clone(&self) -> (r: Self)
        ensures
            r == *self,
    {
        CompletionItem {
            text: self.text.clone(),
            description: match &self.description {
                Some(d) => Some(d.clone()),
                None => None,
            },
            priority: self.priority,
        }
    }
}

impl CompletionItem {
    /// A new item with the given text, no description and priority 0.
    pub fn new(text: &str) -> (r: Self)
        ensures
            r@ == (ItemView { text: text@, description: None, priority: 0u32 }),
    {
        CompletionItem { text: String::from_str(text), description: None, priority: 0 }
    }

    /// The same item with its description replaced.
    pub fn with_description(self, desc: &str) -> (r: Self)
        ensures
            r@ == (ItemView { description: Some(desc@), ..self@ }),
    {
        CompletionItem { description: Some(String::from_str(desc)), ..self }
    }

    /// The same item with its priority replaced.
    pub fn with_priority(self, priority: u32) -> (r: Self)
        ensures
            r@ == (ItemView { priority: priority, ..self@ }),
    {
        CompletionItem { priority, ..self }
    }
}

/// A completion candidate ready for display or insertion.
#[derive(Debug)]
pub struct CompletionCandidate {
    /// The full completed text (trigger, a space, then the item text; just
    /// the item text under the root context).
    pub full_text: String,
    /// Just the completion part, without the context.
    pub completion: String,
    /// Optional description.
    pub description: Option<String>,
}

/// The mathematical content of a [`CompletionCandidate`].
#[verifier::ext_equal]
pub ghost struct CandView {
    pub full_text: Seq<char>,
    pub completion: Seq<char>,
    pub description: Option<Seq<char>>,
}

impl View for CompletionCandidate {
    type V = CandView;

    open spec fn view(&self) -> CandView {
        CandView {
            full_text: self.full_text@,
            completion: self.completion@,
            description: self.description.deep_view(),
        }
    }
}

impl DeepView for CompletionCandidate {
    type V = CandView;

    open spec fn deep_view(&self) -> CandView {
        self@
    }
}

impl Clone for CompletionCandidate {
    fn clone(&self) -> (r: Self)
        ensures
            r == *self,
    {
        CompletionCandidate {
            full_text: self.full_text.clone(),
            completion: self.completion.clone(),
            description: match &self.description {
                Some(d) => Some(d.clone()),
                None => None,
            },
        }
    }
}

/// A registered completion context: a trigger (`None` for the root), its
/// items, and the strategy applied when it is selected.
pub struct TabNode {
    trigger: Option<String>,
    completions: Vec<CompletionItem>,
    match_strategy: MatchStrategy,
}

/// The mathematical content of a [`TabNode`].
#[verifier::ext_equal]
pub ghost struct NodeView {
    pub trigger: Option<Seq<char>>,
    pub items: Seq<ItemView>,
    pub strategy: MatchStrategy,
}

impl View for TabNode {
    type V = NodeView;

    closed spec fn view(&self) -> NodeView {
        NodeView {
            trigger: self.trigger.deep_view(),
            items: self.completions.deep_view(),
            strategy: self.match_strategy,
        }
    }
}

impl DeepView for TabNode {
    type V = NodeView;

    open spec fn deep_view(&self) -> NodeView {
        self@
    }
}

/// Tab completion registry and query cache.
pub struct TabTree {
    /// The registered contexts; the first entry is the root.
    nodes: Vec<TabNode>,
    /// Cache of the candidates computed for `last_input`.
    current_candidates: Vec<CompletionCandidate>,
    /// The input the cache was computed from.
    last_input: String,
}

/// The mathematical content of a [`TabTree`].
#[verifier::ext_equal]
pub ghost struct TreeView {
    pub nodes: Seq<NodeView>,
    pub last_input: Seq<char>,
    pub cache: Seq<CandView>,
}

impl View for TabTree {
    type V = TreeView;

    closed spec fn view(&self) -> TreeView {
        TreeView {
            nodes: self.nodes.deep_view(),
            last_input: self.last_input@,
            cache: self.current_candidates.deep_view(),
        }
    }
}

/// Well-formedness of a registry: exactly one root context (first, with no
/// trigger), and no two contexts share a trigger.
pub open spec fn tree_wf(t: TreeView) -> bool {
    let ns = t.nodes;
    &&& ns.len() >= 1
    &&& ns[0].trigger is None
    &&& forall|i: int|
        1 <= i < ns.len() ==> (#[trigger] ns[i].trigger) is Some && ns[i].trigger->0.len() > 0
    &&& forall|i: int, j: int|
        1 <= i < j < ns.len() ==> (#[trigger] ns[i].trigger) != (#[trigger] ns[j].trigger)
}

impl TabTree {
    /// Well-formedness of this registry (see [`tree_wf`]).
    pub open spec fn wf(self) -> bool {
        tree_wf(self@)
    }

    /// A new registry holding only an empty root context.
    pub fn new() -> (r: Self)
        ensures
            r.wf(),
            r@.nodes == seq![
                NodeView { trigger: None, items: Seq::empty(), strategy: MatchStrategy::Prefix },
            ],
            r@.last_input == Seq::<char>::empty(),
            r@.cache == Seq::<CandView>::empty(),
    {
        let root = TabNode {
            trigger: None,
            completions: Vec::new(),
            match_strategy: MatchStrategy::Prefix,
        };
        let mut nodes: Vec<TabNode> = Vec::new();
        nodes.push(root);
        let tree = TabTree { nodes, current_candidates: Vec::new(), last_input: String::new() };
        proof {
            assert(tree@.nodes =~~= seq![
                NodeView { trigger: None, items: Seq::empty(), strategy: MatchStrategy::Prefix },
            ]);
            assert(tree@.cache =~~= Seq::<CandView>::empty());
            assert(tree@.last_input =~= Seq::<char>::empty());
        }
        tree
    }
}

impl Default for TabTree {
    /// Same as [`TabTree::new`].
    fn default() -> (r: Self)
        ensures
            r.wf(),
            r@.nodes == seq![
                NodeView { trigger: None, items: Seq::empty(), strategy: MatchStrategy::Prefix },
            ],
            r@.last_input == Seq::<char>::empty(),
            r@.cache == Seq::<CandView>::empty(),
    {
        TabTree::new()
    }
}

/// The index of the first context whose trigger is `t`, or `-1` when no
/// context has that trigger.
pub open spec fn find_trigger_index(nodes: Seq<NodeView>, t: Seq<char>) -> int
    decreases nodes.len(),
{
    if nodes.len() == 0 {
        -1
    } else if nodes[0].trigger == Some(t) {
        0
    } else {
        let r = find_trigger_index(nodes.drop_first(), t);
        if r < 0 {
            -1
        } else {
            r + 1
        }
    }
}

/// The trigger a registration under `context` addresses: the root for the
/// empty context, otherwise the context string itself.
pub open spec fn trigger_of_context(context: Seq<char>) -> Option<Seq<char>> {
    if context.len() == 0 {
        None
    } else {
        Some(context)
    }
}

/// The index of the context a registration under `trigger` addresses, or
/// `-1` when a new context must be created.
pub open spec fn register_target(nodes: Seq<NodeView>, trigger: Option<Seq<char>>) -> int {
    match trigger {
        None => 0,
        Some(t) => find_trigger_index(nodes, t),
    }
}

/// The registry after registering `items` with `strategy` under `trigger`:
/// the addressed context accumulates the items and takes the new strategy;
/// an unknown trigger becomes a new context at the end.
pub open spec fn register_spec(
    nodes: Seq<NodeView>,
    trigger: Option<Seq<char>>,
    items: Seq<ItemView>,
    strategy: MatchStrategy,
) -> Seq<NodeView> {
    let idx = register_target(nodes, trigger);
    if idx >= 0 {
        let n = nodes[idx];
        nodes.update(idx, NodeView { trigger: n.trigger, items: n.items + items, strategy })
    } else {
        nodes.push(NodeView { trigger, items, strategy })
    }
}

/// The registry after adding one `item` under `trigger`: the addressed
/// context keeps its strategy; an unknown trigger becomes a new context with
/// the default strategy.
pub open spec fn add_completion_spec(
    nodes: Seq<NodeView>,
    trigger: Option<Seq<char>>,
    item: ItemView,
) -> Seq<NodeView> {
    let idx = register_target(nodes, trigger);
    if idx >= 0 {
        let n = nodes[idx];
        nodes.update(
            idx,
            NodeView { trigger: n.trigger, items: n.items.push(item), strategy: n.strategy },
        )
    } else {
        nodes.push(NodeView { trigger, items: seq![item], strategy: MatchStrategy::Prefix })
    }
}

/// Plain texts registered as items: no description, priority 0.
pub open spec fn items_of_texts(texts: Seq<Seq<char>>) -> Seq<ItemView> {
    texts.map_values(|t: Seq<char>| ItemView { text: t, description: None, priority: 0u32 })
}

/// Text/description pairs registered as items: priority 0.
pub open spec fn items_of_described_texts(pairs: Seq<(Seq<char>, Seq<char>)>) -> Seq<ItemView> {
    pairs.map_values(
        |p: (Seq<char>, Seq<char>)| ItemView { text: p.0, description: Some(p.1), priority: 0u32 },
    )
}

proof fn lemma_find_trigger_index_props(nodes: Seq<NodeView>, t: Seq<char>)
    ensures
        find_trigger_index(nodes, t) == -1 <==> (forall|k: int|
            0 <= k < nodes.len() ==> (#[trigger] nodes[k].trigger) != Some(t)),
        find_trigger_index(nodes, t) != -1 ==> 0 <= find_trigger_index(nodes, t) < nodes.len()
            && nodes[find_trigger_index(nodes, t)].trigger == Some(t),
    decreases nodes.len(),
{
    if nodes.len() > 0 && nodes[0].trigger != Some(t) {
        lemma_find_trigger_index_props(nodes.drop_first(), t);
        let r = find_trigger_index(nodes.drop_first(), t);
        if r == -1 {
            assert forall|k: int| 0 <= k < nodes.len() implies (#[trigger] nodes[k].trigger)
                != Some(t) by {
                if k > 0 {
                    assert(nodes.drop_first()[k - 1].trigger != Some(t));
                }
            }
        } else {
            assert(nodes.drop_first()[r] == nodes[r + 1]);
        }
    }
}

proof fn lemma_find_trigger_index_at(nodes: Seq<NodeView>, t: Seq<char>, i: int)
    requires
        0 <= i < nodes.len(),
        nodes[i].trigger == Some(t),
        forall|k: int| 0 <= k < i ==> (#[trigger] nodes[k].trigger) != Some(t),
    ensures
        find_trigger_index(nodes, t) == i,
    decreases nodes.len(),
{
    if i > 0 {
        assert(nodes[0].trigger != Some(t));
        lemma_find_trigger_index_at(nodes.drop_first(), t, i - 1);
    }
}

impl TabTree {
    /// The index of the context registered under the non-empty trigger
    /// `context`, if any.
    fn find_index(&self, context: &str) -> (r: Option<usize>)
        ensures
            match r {
                Some(i) => 0 <= i < self@.nodes.len() && find_trigger_index(
                    self@.nodes,
                    context@,
                ) == i,
                None => find_trigger_index(self@.nodes, context@) == -1,
            },
    {
        let n = self.nodes.len();
        let mut i: usize = 0;
        while i < n
            invariant
                0 <= i <= n,
                n == self@.nodes.len(),
                forall|k: int| 0 <= k < i ==> (#[trigger] self@.nodes[k].trigger) != Some(context@),
            decreases n - i,
        {
            let found = match &self.nodes[i].trigger {
                Some(t) => str_eq(t.as_str(), context),
                None => false,
            };
            if found {
                proof {
                    lemma_find_trigger_index_at(self@.nodes, context@, i as int);
                }
                return Some(i);
            }
            i += 1;
        }
        proof {
            lemma_find_trigger_index_props(self@.nodes, context@);
        }
        None
    }

    /// Appends `items` to the context addressed by index `idx` and replaces
    /// its strategy when `set_strategy` says so.
    fn extend_node(&mut self, idx: usize, items: Vec<CompletionItem>, strategy: MatchStrategy,
        set_strategy: bool)
        requires
            idx < old(self)@.nodes.len(),
        ensures
            final(self)@.nodes == old(self)@.nodes.update(
                idx as int,
                NodeView {
                    trigger: old(self)@.nodes[idx as int].trigger,
                    items: old(self)@.nodes[idx as int].items + items.deep_view(),
                    strategy: if set_strategy {
                        strategy
                    } else {
                        old(self)@.nodes[idx as int].strategy
                    },
                },
            ),
            final(self)@.last_input == old(self)@.last_input,
            final(self)@.cache == old(self)@.cache,
    {
        let mut incoming = items;
        let ghost added = incoming.deep_view();
        let ghost pre = self@.nodes;
        let mut node = self.nodes.remove(idx);
        node.completions.append(&mut incoming);
        if set_strategy {
            node.match_strategy = strategy;
        }
        self.nodes.insert(idx, node);
        proof {
            assert(node@.items =~~= pre[idx as int].items + added);
            assert(self@.nodes =~~= pre.update(idx as int, node@));
        }
    }

    /// Registers `items` with the given `strategy` under `context` (the
    /// empty context names the root): the addressed context accumulates the
    /// items and takes the new strategy; an unknown trigger becomes a new
    /// context.
    pub fn register_completions_advanced(
        &mut self,
        context: &str,
        items: Vec<CompletionItem>,
        strategy: MatchStrategy,
    )
        requires
            old(self).wf(),
        ensures
            final(self).wf(),
            final(self)@.nodes == register_spec(
                old(self)@.nodes,
                trigger_of_context(context@),
                items.deep_view(),
                strategy,
            ),
            final(self)@.last_input == old(self)@.last_input,
            final(self)@.cache == old(self)@.cache,
    {
        if context.is_empty() {
            self.extend_node(0, items, strategy, true);
        } else {
            match self.find_index(context) {
                Some(i) => {
                    self.extend_node(i, items, strategy, true);
                },
                None => {
                    proof {
                        lemma_find_trigger_index_props(self@.nodes, context@);
                    }
                    let node = TabNode {
                        trigger: Some(String::from_str(context)),
                        completions: items,
                        match_strategy: strategy,
                    };
                    let ghost pre = self@.nodes;
                    self.nodes.push(node);
                    proof {
                        assert(self@.nodes =~~= pre.push(node@));
                    }
                },
            }
        }
    }

    /// Registers plain completion texts under `context` with the default
    /// (prefix) strategy.
    pub fn register_completions(&mut self, context: &str, completions: &[&str])
        requires
            old(self).wf(),
        ensures
            final(self).wf(),
            final(self)@.nodes == register_spec(
                old(self)@.nodes,
                trigger_of_context(context@),
                items_of_texts(completions.deep_view()),
                MatchStrategy::Prefix,
            ),
            final(self)@.last_input == old(self)@.last_input,
            final(self)@.cache == old(self)@.cache,
    {
        let mut items: Vec<CompletionItem> = Vec::new();
        let n = completions.len();
        let mut i: usize = 0;
        while i < n
            invariant
                0 <= i <= n,
                n == completions@.len(),
                items@.len() == i,
                forall|j: int|
                    0 <= j < i ==> (#[trigger] items@[j])@ == (ItemView {
                        text: completions@[j]@,
                        description: None,
                        priority: 0u32,
                    }),
            decreases n - i,
        {
            items.push(CompletionItem::new(completions[i]));
            i += 1;
        }
        proof {
            assert forall|j: int| 0 <= j < n implies items.deep_view()[j] == items_of_texts(
                completions.deep_view(),
            )[j] by {
                assert(items.deep_view()[j] == items@[j]@);
                assert(completions.deep_view()[j] == completions@[j]@);
            }
            assert(items.deep_view() =~~= items_of_texts(completions.deep_view()));
        }
        self.register_completions_advanced(context, items, MatchStrategy::Prefix);
    }

    /// Registers text/description pairs under `context` with the default
    /// (prefix) strategy.
    pub fn register_completions_with_desc(&mut self, context: &str, items: &[(&str, &str)])
        requires
            old(self).wf(),
        ensures
            final(self).wf(),
            final(self)@.nodes == register_spec(
                old(self)@.nodes,
                trigger_of_context(context@),
                items_of_described_texts(items.deep_view()),
                MatchStrategy::Prefix,
            ),
            final(self)@.last_input == old(self)@.last_input,
            final(self)@.cache == old(self)@.cache,
    {
        let mut out: Vec<CompletionItem> = Vec::new();
        let n = items.len();
        let mut i: usize = 0;
        while i < n
            invariant
                0 <= i <= n,
                n == items@.len(),
                out@.len() == i,
                forall|j: int|
                    0 <= j < i ==> (#[trigger] out@[j])@ == (ItemView {
                        text: items@[j].0@,
                        description: Some(items@[j].1@),
                        priority: 0u32,
                    }),
            decreases n - i,
        {
            let pair = &items[i];
            out.push(CompletionItem::new(pair.0).with_description(pair.1));
            i += 1;
        }
        proof {
            assert forall|j: int| 0 <= j < n implies out.deep_view()[j] == items_of_described_texts(
                items.deep_view(),
            )[j] by {
                assert(out.deep_view()[j] == out@[j]@);
                assert(items.deep_view()[j] == items@[j].deep_view());
            }
            assert(out.deep_view() =~~= items_of_described_texts(items.deep_view()));
        }
        self.register_completions_advanced(context, out, MatchStrategy::Prefix);
    }

    /// Adds a single completion item under `context`, creating the context
    /// with the default strategy when it does not exist yet.
    pub fn add_completion(&mut self, context: &str, text: &str, description: Option<&str>)
        requires
            old(self).wf(),
        ensures
            final(self).wf(),
            final(self)@.nodes == add_completion_spec(
                old(self)@.nodes,
                trigger_of_context(context@),
                ItemView { text: text@, description: description.deep_view(), priority: 0u32 },
            ),
            final(self)@.last_input == old(self)@.last_input,
            final(self)@.cache == old(self)@.cache,
    {
        let item = match description {
            Some(desc) => CompletionItem::new(text).with_description(desc),
            None => CompletionItem::new(text),
        };
        let ghost item_view = item@;
        let mut items: Vec<CompletionItem> = Vec::new();
        items.push(item);
        proof {
            assert(items.deep_view() =~~= seq![item_view]);
        }
        if context.is_empty() {
            self.extend_node(0, items, MatchStrategy::Prefix, false);
            proof {
                assert(old(self)@.nodes[0].items + seq![item_view] =~= old(
                    self,
                )@.nodes[0].items.push(item_view));
            }
        } else {
            match self.find_index(context) {
                Some(i) => {
                    self.extend_node(i, items, MatchStrategy::Prefix, false);
                    proof {
                        assert(old(self)@.nodes[i as int].items + seq![item_view] =~= old(
                            self,
                        )@.nodes[i as int].items.push(item_view));
                    }
                },
                None => {
                    proof {
                        lemma_find_trigger_index_props(self@.nodes, context@);
                    }
                    let node = TabNode {
                        trigger: Some(String::from_str(context)),
                        completions: items,
                        match_strategy: MatchStrategy::Prefix,
                    };
                    let ghost pre = self@.nodes;
                    self.nodes.push(node);
                    proof {
                        assert(self@.nodes =~~= pre.push(node@));
                    }
                },
            }
        }
    }
}

/// Whether the context's trigger is a literal prefix of the input.
pub open spec fn node_matches(n: NodeView, input: Seq<char>) -> bool {
    n.trigger is Some && n.trigger->0.is_prefix_of(input)
}

/// The trigger length of a context; the root counts as length 0.
pub open spec fn trigger_len(n: NodeView) -> nat {
    if n.trigger is Some {
        n.trigger->0.len()
    } else {
        0
    }
}

/// The index of the context with the longest trigger that is a prefix of
/// `input`; the root (index 0) is the fallback. Earlier contexts win ties.
pub open spec fn best_node_index(nodes: Seq<NodeView>, input: Seq<char>) -> int
    decreases nodes.len(),
{
    if nodes.len() <= 1 {
        0
    } else {
        let prev = best_node_index(nodes.drop_last(), input);
        if node_matches(nodes.last(), input) && trigger_len(nodes.last()) > trigger_len(
            nodes[prev],
        ) {
            nodes.len() - 1
        } else {
            prev
        }
    }
}

/// The dispatch rule, characterised: the selected context is in range,
/// its trigger (when it is not the root fallback) is a prefix of the input,
/// and no context whose trigger prefixes the input has a longer trigger.
pub proof fn lemma_best_node_is_longest_prefix_match(nodes: Seq<NodeView>, input: Seq<char>)
    requires
        nodes.len() >= 1,
    ensures
        0 <= best_node_index(nodes, input) < nodes.len(),
        best_node_index(nodes, input) != 0 ==> node_matches(
            nodes[best_node_index(nodes, input)],
            input,
        ),
        forall|i: int|
            0 <= i < nodes.len() && node_matches(#[trigger] nodes[i], input) ==> trigger_len(
                nodes[i],
            ) <= trigger_len(nodes[best_node_index(nodes, input)]),
    decreases nodes.len(),
{
    if nodes.len() > 1 {
        lemma_best_node_is_longest_prefix_match(nodes.drop_last(), input);
        let prev = best_node_index(nodes.drop_last(), input);
        let b = best_node_index(nodes, input);
        assert forall|i: int|
            0 <= i < nodes.len() && node_matches(#[trigger] nodes[i], input) implies trigger_len(
            nodes[i],
        ) <= trigger_len(nodes[b]) by {
            if i < nodes.len() - 1 {
                assert(nodes.drop_last()[i] == nodes[i]);
                assert(trigger_len(nodes[i]) <= trigger_len(nodes.drop_last()[prev]));
            }
        }
    }
}

/// The input left over for prefix filtering once the selected trigger and
/// any following whitespace are stripped; the root counts as a trigger of
/// length 0, so under it the input only loses its leading whitespace.
pub open spec fn remainder_after(input: Seq<char>, trigger: Option<Seq<char>>) -> Seq<char> {
    match trigger {
        None => trim_start_spec(input),
        Some(t) => trim_start_spec(
            if t.is_prefix_of(input) {
                input.subrange(t.len() as int, input.len() as int)
            } else {
                Seq::empty()
            },
        ),
    }
}

/// The context's items surviving its match strategy on `input`.
pub open spec fn filter_items(
    items: Seq<ItemView>,
    strategy: MatchStrategy,
    input: Seq<char>,
    trigger: Option<Seq<char>>,
) -> Seq<ItemView> {
    match strategy {
        MatchStrategy::All => items,
        MatchStrategy::Prefix => {
            let suffix = remainder_after(input, trigger);
            if suffix.len() == 0 {
                items
            } else {
                items.filter(|it: ItemView| suffix.is_prefix_of(it.text))
            }
        },
        MatchStrategy::Contains => {
            let tok = last_token_spec(input);
            if tok.len() == 0 {
                items
            } else {
                items.filter(|it: ItemView| contains_seq(it.text, tok))
            }
        },
    }
}

/// Stable insertion of `item` into a sequence sorted by priority descending:
/// `item` goes after every element whose priority is at least its own.
pub open spec fn insert_by_priority(sorted: Seq<ItemView>, item: ItemView) -> Seq<ItemView>
    decreases sorted.len(),
{
    if sorted.len() == 0 {
        seq![item]
    } else if sorted.last().priority >= item.priority {
        sorted.push(item)
    } else {
        insert_by_priority(sorted.drop_last(), item).push(sorted.last())
    }
}

/// Stable sort by priority descending (equal priorities keep their order).
pub open spec fn sort_by_priority(items: Seq<ItemView>) -> Seq<ItemView>
    decreases items.len(),
{
    if items.len() == 0 {
        Seq::empty()
    } else {
        insert_by_priority(sort_by_priority(items.drop_last()), items.last())
    }
}

/// The candidate materialised from an item of the context with the given
/// trigger: the full text prepends the trigger and one space, except under
/// the root.
pub open spec fn candidate_of(trigger: Option<Seq<char>>, it: ItemView) -> CandView {
    CandView {
        full_text: if trigger is Some && trigger->0.len() > 0 {
            trigger->0 + seq![' '] + it.text
        } else {
            it.text
        },
        completion: it.text,
        description: it.description,
    }
}

/// The candidates a query for `input` computes: the best context's items,
/// filtered by its strategy, stable-sorted by priority descending, and
/// materialised.
pub open spec fn candidates_spec(nodes: Seq<NodeView>, input: Seq<char>) -> Seq<CandView> {
    let n = nodes[best_node_index(nodes, input)];
    sort_by_priority(filter_items(n.items, n.strategy, input, n.trigger)).map_values(
        |it: ItemView| candidate_of(n.trigger, it),
    )
}

/// What a query for `input` returns: the cache verbatim when `input` is
/// exactly the previous query, else a fresh computation.
pub open spec fn result_candidates(pre: TreeView, input: Seq<char>) -> Seq<CandView> {
    if input == pre.last_input {
        pre.cache
    } else {
        candidates_spec(pre.nodes, input)
    }
}

/// The full effect of a query: the returned candidates are
/// [`result_candidates`], the registry is untouched, and the cache now holds
/// exactly this result under this input.
pub open spec fn get_candidates_post(
    pre: TreeView,
    post: TreeView,
    input: Seq<char>,
    result: Seq<CandView>,
) -> bool {
    &&& result == result_candidates(pre, input)
    &&& post == (TreeView { nodes: pre.nodes, last_input: input, cache: result })
}

/// Querying twice in a row with the same input returns the same candidates
/// and leaves the registry in the same state: the second query is a pure
/// cache hit.
pub proof fn lemma_get_candidates_idempotent(
    pre: TreeView,
    mid: TreeView,
    post: TreeView,
    input: Seq<char>,
    r1: Seq<CandView>,
    r2: Seq<CandView>,
)
    requires
        get_candidates_post(pre, mid, input, r1),
        get_candidates_post(mid, post, input, r2),
    ensures
        r2 == r1,
        post == mid,
{
}

proof fn lemma_vec_deep_view_insert<T: DeepView>(a: Vec<T>, b: Vec<T>, p: int, x: T)
    requires
        0 <= p <= a@.len(),
        b@ == a@.insert(p, x),
    ensures
        b.deep_view() == a.deep_view().insert(p, x.deep_view()),
{
    assert forall|j: int| 0 <= j < b@.len() implies b.deep_view()[j] == a.deep_view().insert(
        p,
        x.deep_view(),
    )[j] by {
        assert(b.deep_view()[j] == b@[j].deep_view());
        if j < p {
            assert(b@[j] == a@[j]);
            assert(a.deep_view()[j] == a@[j].deep_view());
        } else if j == p {
        } else {
            assert(b@[j] == a@[j - 1]);
            assert(a.deep_view()[j - 1] == a@[j - 1].deep_view());
        }
    }
    assert(b.deep_view() =~= a.deep_view().insert(p, x.deep_view()));
}

proof fn lemma_insert_by_priority_at(s: Seq<ItemView>, it: ItemView, p: int)
    requires
        0 <= p <= s.len(),
        forall|j: int| p <= j < s.len() ==> s[j].priority < it.priority,
        p > 0 ==> s[p - 1].priority >= it.priority,
    ensures
        insert_by_priority(s, it) == s.insert(p, it),
    decreases s.len(),
{
    if s.len() == 0 {
        assert(s.insert(0, it) =~= seq![it]);
    } else if s.last().priority >= it.priority {
        assert(p == s.len());
        assert(s.insert(p, it) =~= s.push(it));
    } else {
        assert(p < s.len());
        lemma_insert_by_priority_at(s.drop_last(), it, p);
        assert(s.drop_last().insert(p, it).push(s.last()) =~= s.insert(p, it));
    }
}

impl TabTree {
    /// Clones the candidate list element for element.
    fn clone_candidates(v: &Vec<CompletionCandidate>) -> (r: Vec<CompletionCandidate>)
        ensures
            r@ == v@,
    {
        let mut r: Vec<CompletionCandidate> = Vec::new();
        let n = v.len();
        let mut i: usize = 0;
        while i < n
            invariant
                0 <= i <= n,
                n == v@.len(),
                r@.len() == i,
                forall|j: int| 0 <= j < i ==> r@[j] == v@[j],
            decreases n - i,
        {
            r.push(v[i].clone());
            i += 1;
        }
        proof {
            assert(r@ =~= v@);
        }
        r
    }

    /// Clones the item list element for element.
    fn clone_items(v: &Vec<CompletionItem>) -> (r: Vec<CompletionItem>)
        ensures
            r@ == v@,
    {
        let mut r: Vec<CompletionItem> = Vec::new();
        let n = v.len();
        let mut i: usize = 0;
        while i < n
            invariant
                0 <= i <= n,
                n == v@.len(),
                r@.len() == i,
                forall|j: int| 0 <= j < i ==> r@[j] == v@[j],
            decreases n - i,
        {
            r.push(v[i].clone());
            i += 1;
        }
        proof {
            assert(r@ =~= v@);
        }
        r
    }

    /// Gets the completion candidates for `input`.
    ///
    /// When `input` is exactly the previous query, the cached result is
    /// returned unchanged; otherwise the candidates are computed afresh (see
    /// [`candidates_spec`]) and cached.
    pub fn get_candidates(&mut self, input: &str) -> (r: Vec<CompletionCandidate>)
        requires
            old(self).wf(),
        ensures
            final(self).wf(),
            get_candidates_post(old(self)@, final(self)@, input@, r.deep_view()),
    {
        if str_eq(input, self.last_input.as_str()) {
            let r = Self::clone_candidates(&self.current_candidates);
            proof {
                assert(self@ =~~= (TreeView {
                    nodes: old(self)@.nodes,
                    last_input: input@,
                    cache: r.deep_view(),
                }));
            }
            return r;
        }
        self.last_input = String::from_str(input);

        // Select the context with the longest trigger that prefixes `input`.
        let n = self.nodes.len();
        let mut best: usize = 0;
        let mut best_len: usize = 0;
        let mut i: usize = 1;
        proof {
            assert(self@.nodes.subrange(0, 1) =~= seq![self@.nodes[0]]);
        }
        while i < n
            invariant
                1 <= i <= n,
                n == self@.nodes.len(),
                self.wf(),
                0 <= best < i,
                best as int == best_node_index(self@.nodes.subrange(0, i as int), input@),
                best_len == trigger_len(self@.nodes[best as int]),
            decreases n - i,
        {
            let ghost pre_nodes = self@.nodes;
            let node_i = &self.nodes[i];
            let mut advance = false;
            let mut new_len: usize = 0;
            match &node_i.trigger {
                Some(t) => {
                    let tl = t.unicode_len();
                    if tl > best_len && str_starts_with(input, t.as_str()) {
                        advance = true;
                        new_len = tl;
                    }
                },
                None => {},
            }
            proof {
                let sub1 = pre_nodes.subrange(0, i + 1);
                assert(sub1.drop_last() =~= pre_nodes.subrange(0, i as int));
                assert(sub1.last() == pre_nodes[i as int]);
                assert(sub1[best as int] == pre_nodes[best as int]);
            }
            if advance {
                best = i;
                best_len = new_len;
            }
            i += 1;
        }
        proof {
            assert(self@.nodes.subrange(0, n as int) =~= self@.nodes);
        }

        let ghost best_spec = best_node_index(self@.nodes, input@);
        let ghost node_view = self@.nodes[best_spec];

        let node_trigger: Option<String> = match &self.nodes[best].trigger {
            Some(t) => Some(t.clone()),
            None => None,
        };
        let strategy = self.nodes[best].match_strategy;
        let node_ref = &self.nodes[best];
        let items = Self::clone_items(&node_ref.completions);
        proof {
            assert(items.deep_view() == node_view.items);
            assert(node_trigger.deep_view() == node_view.trigger);
        }

        // Apply the context's match strategy.
        let filtered: Vec<CompletionItem> = match strategy {
            MatchStrategy::All => items,
            MatchStrategy::Prefix => {
                let suffix: &str = match &node_trigger {
                    Some(t) => {
                        let stripped: &str = if str_starts_with(input, t.as_str()) {
                            input.substring_char(t.unicode_len(), input.unicode_len())
                        } else {
                            proof {
                                reveal_strlit("");
                            }
                            ""
                        };
                        proof {
                            assert(stripped@ =~= (if t@.is_prefix_of(input@) {
                                input@.subrange(t@.len() as int, input@.len() as int)
                            } else {
                                Seq::<char>::empty()
                            }));
                        }
                        trim_start_str(stripped)
                    },
                    None => trim_start_str(input),
                };
                proof {
                    assert(suffix@ == remainder_after(input@, node_view.trigger));
                }
                if suffix.is_empty() {
                    items
                } else {
                    let ghost suf = suffix@;
                    let mut kept: Vec<CompletionItem> = Vec::new();
                    let m = items.len();
                    let mut k: usize = 0;
                    while k < m
                        invariant
                            0 <= k <= m,
                            m == items@.len(),
                            suf.len() > 0,
                            suf == suffix@,
                            kept.deep_view() == items.deep_view().subrange(0, k as int).filter(
                                |it: ItemView| suf.is_prefix_of(it.text),
                            ),
                        decreases m - k,
                    {
                        let ghost pre_kept = kept;
                        let it_ref = &items[k];
                        let keep = str_starts_with(it_ref.text.as_str(), suffix);
                        if keep {
                            kept.push(it_ref.clone());
                            proof {
                                lemma_vec_deep_view_push(pre_kept, kept, items@[k as int]);
                            }
                        }
                        proof {
                            reveal(Seq::filter);
                            let dv = items.deep_view();
                            let pred = |it: ItemView| suf.is_prefix_of(it.text);
                            let sub1 = dv.subrange(0, k + 1);
                            assert(dv[k as int] == items@[k as int]@);
                            assert(sub1.drop_last() =~= dv.subrange(0, k as int));
                            assert(sub1.last() == dv[k as int]);
                            assert(keep == pred(sub1.last()));
                            assert(sub1.filter(pred) == if pred(sub1.last()) {
                                sub1.drop_last().filter(pred).push(sub1.last())
                            } else {
                                sub1.drop_last().filter(pred)
                            });
                            assert(kept.deep_view() == sub1.filter(pred));
                        }
                        k += 1;
                    }
                    proof {
                        assert(items.deep_view().subrange(0, m as int) =~= items.deep_view());
                    }
                    kept
                }
            },
            MatchStrategy::Contains => {
                let tok = last_token_str(input);
                if tok.is_empty() {
                    items
                } else {
                    let ghost tk = tok@;
                    let mut kept: Vec<CompletionItem> = Vec::new();
                    let m = items.len();
                    let mut k: usize = 0;
                    while k < m
                        invariant
                            0 <= k <= m,
                            m == items@.len(),
                            tk.len() > 0,
                            tk == tok@,
                            kept.deep_view() == items.deep_view().subrange(0, k as int).filter(
                                |it: ItemView| contains_seq(it.text, tk),
                            ),
                        decreases m - k,
                    {
                        let ghost pre_kept = kept;
                        let it_ref = &items[k];
                        let keep = str_contains(it_ref.text.as_str(), tok);
                        if keep {
                            kept.push(it_ref.clone());
                            proof {
                                lemma_vec_deep_view_push(pre_kept, kept, items@[k as int]);
                            }
                        }
                        proof {
                            reveal(Seq::filter);
                            let dv = items.deep_view();
                            let pred = |it: ItemView| contains_seq(it.text, tk);
                            let sub1 = dv.subrange(0, k + 1);
                            assert(dv[k as int] == items@[k as int]@);
                            assert(sub1.drop_last() =~= dv.subrange(0, k as int));
                            assert(sub1.last() == dv[k as int]);
                            assert(keep == pred(sub1.last()));
                            assert(sub1.filter(pred) == if pred(sub1.last()) {
                                sub1.drop_last().filter(pred).push(sub1.last())
                            } else {
                                sub1.drop_last().filter(pred)
                            });
                            assert(kept.deep_view() == sub1.filter(pred));
                        }
                        k += 1;
                    }
                    proof {
                        assert(items.deep_view().subrange(0, m as int) =~= items.deep_view());
                    }
                    kept
                }
            },
        };
        proof {
            assert(filtered.deep_view() == filter_items(
                node_view.items,
                node_view.strategy,
                input@,
                node_view.trigger,
            ));
        }

        // Stable sort by priority descending.
        let mut sorted: Vec<CompletionItem> = Vec::new();
        let fl = filtered.len();
        let mut i2: usize = 0;
        while i2 < fl
            invariant
                0 <= i2 <= fl,
                fl == filtered@.len(),
                sorted@.len() == i2,
                sorted.deep_view() == sort_by_priority(
                    filtered.deep_view().subrange(0, i2 as int),
                ),
            decreases fl - i2,
        {
            let item = filtered[i2].clone();
            let mut p = sorted.len();
            while p > 0 && sorted[p - 1].priority < item.priority
                invariant
                    0 <= p <= sorted@.len(),
                    forall|j: int|
                        p <= j < sorted@.len() ==> (#[trigger] sorted@[j].priority)
                            < item.priority,
                decreases p,
            {
                p -= 1;
            }
            let ghost pre_sorted = sorted;
            sorted.insert(p, item);
            proof {
                let dvs = pre_sorted.deep_view();
                assert forall|j: int| p <= j < dvs.len() implies (#[trigger] dvs[j].priority)
                    < item@.priority by {
                    assert(dvs[j] == pre_sorted@[j]@);
                }
                if p > 0 {
                    assert(dvs[p - 1] == pre_sorted@[p - 1]@);
                }
                lemma_insert_by_priority_at(dvs, item@, p as int);
                lemma_vec_deep_view_insert(pre_sorted, sorted, p as int, item);
                let dvf = filtered.deep_view();
                assert(dvf[i2 as int] == filtered@[i2 as int]@);
                assert(dvf.subrange(0, i2 + 1).drop_last() =~= dvf.subrange(0, i2 as int));
                assert(dvf.subrange(0, i2 + 1).last() == dvf[i2 as int]);
            }
            i2 += 1;
        }
        proof {
            assert(filtered.deep_view().subrange(0, fl as int) =~= filtered.deep_view());
        }

        // Materialise the candidates.
        let ghost trig = node_view.trigger;
        let mut result: Vec<CompletionCandidate> = Vec::new();
        let sl = sorted.len();
        let mut i3: usize = 0;
        while i3 < sl
            invariant
                0 <= i3 <= sl,
                sl == sorted@.len(),
                result@.len() == i3,
                forall|j: int|
                    0 <= j < i3 ==> (#[trigger] result@[j])@ == candidate_of(
                        trig,
                        sorted.deep_view()[j],
                    ),
                node_trigger.deep_view() == trig,
            decreases sl - i3,
        {
            let item_ref = &sorted[i3];
            let full_text: String = match &node_trigger {
                Some(t) => {
                    if t.as_str().is_empty() {
                        item_ref.text.clone()
                    } else {
                        proof {
                            reveal_strlit(" ");
                            assert(" "@ =~= seq![' ']);
                        }
                        t.clone().concat(" ").concat(item_ref.text.as_str())
                    }
                },
                None => item_ref.text.clone(),
            };
            let description = match &item_ref.description {
                Some(d) => Some(d.clone()),
                None => None,
            };
            result.push(
                CompletionCandidate { full_text, completion: item_ref.text.clone(), description },
            );
            proof {
                assert(sorted.deep_view()[i3 as int] == sorted@[i3 as int]@);
            }
            i3 += 1;
        }
        proof {
            let dv = sorted.deep_view();
            let mapped = dv.map_values(|it: ItemView| candidate_of(trig, it));
            assert forall|j: int| 0 <= j < sl implies result.deep_view()[j] == mapped[j] by {
                assert(result.deep_view()[j] == result@[j]@);
            }
            assert(result.deep_view() =~~= mapped);
        }

        let cache_copy = Self::clone_candidates(&result);
        self.current_candidates = cache_copy;
        proof {
            assert(result.deep_view() == candidates_spec(old(self)@.nodes, input@));
            assert(self@ =~~= (TreeView {
                nodes: old(self)@.nodes,
                last_input: input@,
                cache: result.deep_view(),
            }));
        }
        result
    }

    /// The first candidate's full text for `input`, or `None` when there is
    /// no candidate. Queries (and therefore caches) like
    /// [`TabTree::get_candidates`].
    pub fn get_best_match(&mut self, input: &str) -> (r: Option<String>)
        requires
            old(self).wf(),
        ensures
            final(self).wf(),
            get_candidates_post(
                old(self)@,
                final(self)@,
                input@,
                result_candidates(old(self)@, input@),
            ),
            match r {
                Some(s) => result_candidates(old(self)@, input@).len() > 0 && s@
                    == result_candidates(old(self)@, input@)[0].full_text,
                None => result_candidates(old(self)@, input@).len() == 0,
            },
    {
        let candidates = self.get_candidates(input);
        if candidates.len() > 0 {
            proof {
                assert(candidates.deep_view()[0] == candidates@[0]@);
            }
            Some(candidates[0].full_text.clone())
        } else {
            proof {
                assert(candidates.deep_view().len() == candidates@.len());
            }
            None
        }
    }

    /// Forgets the cached query: the next query is computed afresh unless it
    /// is the empty string.
    pub fn clear_cache(&mut self)
        requires
            old(self).wf(),
        ensures
            final(self).wf(),
            final(self)@ == (TreeView {
                nodes: old(self)@.nodes,
                last_input: Seq::<char>::empty(),
                cache: Seq::<CandView>::empty(),
            }),
    {
        self.last_input = String::new();
        self.current_candidates = Vec::new();
        proof {
            assert(self@.cache =~~= Seq::<CandView>::empty());
            assert(self@ =~~= (TreeView {
                nodes: old(self)@.nodes,
                last_input: Seq::<char>::empty(),
                cache: Seq::<CandView>::empty(),
            }));
        }
    }
}

} // verus!
