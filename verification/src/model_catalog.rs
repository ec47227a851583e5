//! The model catalog: which models there are and which one to use.
//!
//! Scores and costs are real numbers. Here each stands as a rank, an integer that
//! orders as the number does; a number that compares with nothing has none.

use vstd::prelude::*;
use crate::text::{cat, decimal_text, dup_opt, is_blank, lowered, same, trim};

verus! {

/// How a model is selected.
#[derive(Debug, Clone, Copy, PartialEq, Eq, Structural)]
pub enum Strategy {
    /// The highest score.
    BestScore,
    /// The highest score within the cost cap.
    BestScoreUnderBudget,
    /// The lowest cost at or above the score floor.
    CheapestAboveFloor,
    /// The highest score per cost.
    BestValue,
}

impl Default for Strategy {
    fn default() -> (r: Self)
        ensures
            r == Strategy::BestScore,
    {
        Strategy::BestScore
    }
}

/// The strategy of a name, in any ASCII case and with white space around it; the
/// best score for an unknown name.
pub open spec fn strategy_of(s: Seq<char>) -> Strategy {
    let n = crate::text::ascii_lowered(crate::text::trimmed(s));
    if n == "best_score_under_budget"@ {
        Strategy::BestScoreUnderBudget
    } else if n == "cheapest_above_floor"@ {
        Strategy::CheapestAboveFloor
    } else if n == "best_value"@ {
        Strategy::BestValue
    } else {
        Strategy::BestScore
    }
}

/// The name of a strategy in messages.
pub open spec fn strategy_label(s: Strategy) -> Seq<char> {
    match s {
        Strategy::BestScore => "BestScore"@,
        Strategy::BestScoreUnderBudget => "BestScoreUnderBudget"@,
        Strategy::CheapestAboveFloor => "CheapestAboveFloor"@,
        Strategy::BestValue => "BestValue"@,
    }
}

impl Strategy {
    /// The strategy of a name.
    pub fn parse(s: &str) -> (r: Self)
        ensures
            r == strategy_of(s@),
    {
        let n: String = lowered(&trim(s));
        if same(&n, "best_score_under_budget") {
            Strategy::BestScoreUnderBudget
        } else if same(&n, "cheapest_above_floor") {
            Strategy::CheapestAboveFloor
        } else if same(&n, "best_value") {
            Strategy::BestValue
        } else {
            Strategy::BestScore
        }
    }

    /// The name of the strategy in messages.
    pub fn label(&self) -> (r: &'static str)
        ensures
            r@ == strategy_label(*self),
    {
        match self {
            Strategy::BestScore => "BestScore",
            Strategy::BestScoreUnderBudget => "BestScoreUnderBudget",
            Strategy::CheapestAboveFloor => "CheapestAboveFloor",
            Strategy::BestValue => "BestValue",
        }
    }
}

/// A model.
#[derive(Debug)]
pub struct ModelInfo {
    pub id: String,
    pub provider: Option<String>,
    /// Context window, in tokens.
    pub context_window: u32,
    /// Maximum number of generated tokens.
    pub max_output: Option<u32>,
    /// Rank of the score.
    pub score: Option<i64>,
    /// Rank of the blended cost per token.
    pub cost: Option<i64>,
    /// Rank of the score per cost.
    pub value: Option<i64>,
}

impl ModelInfo {
    /// A copy.
    pub fn dup(&self) -> (r: Self)
        ensures
            r == *self,
    {
        ModelInfo {
            id: self.id.clone(),
            provider: dup_opt(&self.provider),
            context_window: self.context_window,
            max_output: self.max_output,
            score: self.score,
            cost: self.cost,
            value: self.value,
        }
    }
}

/// What a model must satisfy, and how one is selected.
#[derive(Debug)]
pub struct PickOptions {
    pub strategy: Strategy,
    /// Rank of the score floor; none for no floor.
    pub min_score: Option<i64>,
    /// Rank of the cost cap; none for no cap.
    pub max_cost_per_token: Option<i64>,
    /// Least context window; none for any.
    pub min_context_window: Option<u32>,
}

impl Default for PickOptions {
    fn default() -> (r: Self)
        ensures
            r.strategy == Strategy::BestScore,
            r.min_score is None,
            r.max_cost_per_token is None,
            r.min_context_window is None,
    {
        PickOptions {
            strategy: Strategy::BestScore,
            min_score: None,
            max_cost_per_token: None,
            min_context_window: None,
        }
    }
}

/// `a` is a number greater than `b`.
pub open spec fn above(a: Option<i64>, b: Option<i64>) -> bool {
    match (a, b) {
        (Some(x), Some(y)) => x > y,
        _ => false,
    }
}

/// Whether a model satisfies the constraints. A number that compares with nothing
/// breaks none.
pub open spec fn satisfies(m: ModelInfo, o: PickOptions) -> bool {
    &&& !above(o.min_score, m.score)
    &&& !above(m.cost, o.max_cost_per_token)
    &&& match o.min_context_window {
        Some(c) => m.context_window >= c,
        None => true,
    }
}

/// Whether `y` takes the place of `x`, which comes before it. Of equal models the
/// last is the best, and the first the cheapest.
pub open spec fn replaces(s: Strategy, x: ModelInfo, y: ModelInfo) -> bool {
    match s {
        Strategy::BestScore | Strategy::BestScoreUnderBudget => !above(x.score, y.score),
        Strategy::CheapestAboveFloor => above(x.cost, y.cost),
        Strategy::BestValue => !above(x.value, y.value),
    }
}

/// The index of the model that is picked among the first `k`; nothing when none
/// satisfies the constraints.
pub open spec fn picked(models: Seq<ModelInfo>, o: PickOptions, k: int) -> Option<int>
    decreases k,
{
    if k <= 0 {
        None
    } else {
        let m = models[k - 1];
        match picked(models, o, k - 1) {
            None => if satisfies(m, o) { Some(k - 1) } else { None },
            Some(i) => if satisfies(m, o) && replaces(o.strategy, models[i], m) {
                Some(k - 1)
            } else {
                Some(i)
            },
        }
    }
}

/// Whether a file with the given extension belongs to the catalog.
pub fn is_catalog_extension(ext: Option<&str>) -> (r: bool)
    ensures
        r == (crate::text::opt_str_view(ext) == Some("yaml"@) || crate::text::opt_str_view(ext)
            == Some("yml"@)),
{
    match ext {
        None => false,
        Some(e) => same(e, "yaml") || same(e, "yml"),
    }
}

/// The models that have an id.
pub open spec fn usable(models: Seq<ModelInfo>) -> Seq<ModelInfo> {
    models.filter(|m: ModelInfo| crate::text::trimmed(m.id@).len() > 0)
}

/// The index of the first model with an id.
pub open spec fn index_of(models: Seq<ModelInfo>, id: Seq<char>, i: int) -> Option<int>
    decreases models.len() - i,
{
    if !(0 <= i < models.len()) {
        None
    } else if models[i].id@ == id {
        Some(i)
    } else {
        index_of(models, id, i + 1)
    }
}

/// The models.
pub struct Catalog {
    models: Vec<ModelInfo>,
    dir: Option<String>,
}

fn is_above(a: Option<i64>, b: Option<i64>) -> (r: bool)
    ensures
        r == above(a, b),
{
    match (a, b) {
        (Some(x), Some(y)) => x > y,
        _ => false,
    }
}

fn fits(m: &ModelInfo, o: &PickOptions) -> (r: bool)
    ensures
        r == satisfies(*m, *o),
{
    !is_above(o.min_score, m.score) && !is_above(m.cost, o.max_cost_per_token) && match o.min_context_window {
        Some(c) => m.context_window >= c,
        None => true,
    }
}

fn is_better(s: Strategy, x: &ModelInfo, y: &ModelInfo) -> (r: bool)
    ensures
        r == replaces(s, *x, *y),
{
    match s {
        Strategy::BestScore | Strategy::BestScoreUnderBudget => !is_above(x.score, y.score),
        Strategy::CheapestAboveFloor => is_above(x.cost, y.cost),
        Strategy::BestValue => !is_above(x.value, y.value),
    }
}

impl View for Catalog {
    type V = Seq<ModelInfo>;

    closed spec fn view(&self) -> Seq<ModelInfo> {
        self.models@
    }
}

impl Catalog {
    /// The directory that the models come from.
    pub closed spec fn folder(&self) -> Option<Seq<char>> {
        crate::text::opt_view(self.dir)
    }

    /// A catalog without models.
    pub fn new() -> (r: Self)
        ensures
            r@ == Seq::<ModelInfo>::empty(),
            r.folder() is None,
    {
        Catalog { models: Vec::new(), dir: None }
    }

    /// Sets the directory, without loading it.
    pub fn set_dir(&mut self, dir: &str)
        ensures
            final(self)@ == old(self)@,
            final(self).folder() == Some(dir@),
    {
        self.dir = Some(dir.to_string());
    }

    /// The directory.
    pub fn dir(&self) -> (r: Option<&str>)
        ensures
            crate::text::opt_str_view(r) == self.folder(),
    {
        match &self.dir {
            None => None,
            Some(d) => Some(d.as_str()),
        }
    }

    /// Replaces the models by those of the files of the directory that have an id.
    /// How many there are.
    pub fn reload(&mut self, models: Vec<ModelInfo>) -> (r: usize)
        ensures
            final(self)@ == usable(models@),
            final(self).folder() == old(self).folder(),
            r == final(self)@.len(),
    {
        let ghost pred = |m: ModelInfo| crate::text::trimmed(m.id@).len() > 0;
        let mut out: Vec<ModelInfo> = Vec::new();
        let mut i: usize = 0;
        assert(models@.take(0).filter(pred) =~= Seq::<ModelInfo>::empty()) by {
            reveal(Seq::filter);
        }
        while i < models.len()
            invariant
                pred == (|m: ModelInfo| crate::text::trimmed(m.id@).len() > 0),
                i <= models@.len(),
                out@ == models@.take(i as int).filter(pred),
            decreases models@.len() - i,
        {
            proof {
                crate::seqs::lemma_filter_step(models@, pred, i as int);
            }
            if !is_blank(&models[i].id) {
                out.push(models[i].dup());
            }
            i = i + 1;
        }
        assert(models@.take(models@.len() as int) =~= models@);
        let n: usize = out.len();
        self.models = out;
        n
    }

    /// All models.
    pub fn list(&self) -> (r: &Vec<ModelInfo>)
        ensures
            r@ == self@,
    {
        &self.models
    }

    /// The model with an id.
    pub fn get(&self, id: &str) -> (r: Option<&ModelInfo>)
        ensures
            match index_of(self@, id@, 0) {
                Some(i) => r == Some(&self@[i]),
                None => r is None,
            },
    {
        let mut i: usize = 0;
        while i < self.models.len()
            invariant
                i <= self.models@.len(),
                index_of(self.models@, id@, i as int) == index_of(self.models@, id@, 0),
            decreases self.models@.len() - i,
        {
            if same(&self.models[i].id, id) {
                return Some(&self.models[i]);
            }
            i = i + 1;
        }
        None
    }

    /// The index of the model to use; nothing when none satisfies the constraints.
    pub fn pick_index(&self, opts: &PickOptions) -> (r: Option<usize>)
        ensures
            match picked(self@, *opts, self@.len() as int) {
                Some(i) => r matches Some(j) && j == i && i < self@.len(),
                None => r is None,
            },
    {
        let mut best: Option<usize> = None;
        let mut i: usize = 0;
        while i < self.models.len()
            invariant
                i <= self.models@.len(),
                match picked(self.models@, *opts, i as int) {
                    Some(j) => best matches Some(b) && b == j && b < i,
                    None => best is None,
                },
            decreases self.models@.len() - i,
        {
            if fits(&self.models[i], opts) {
                best = match best {
                    None => Some(i),
                    Some(b) => if is_better(opts.strategy, &self.models[b], &self.models[i]) {
                        Some(i)
                    } else {
                        Some(b)
                    },
                };
            }
            i = i + 1;
        }
        best
    }

    /// The model to use; nothing when none satisfies the constraints.
    pub fn pick(&self, opts: &PickOptions) -> (r: Option<&ModelInfo>)
        ensures
            match picked(self@, *opts, self@.len() as int) {
                Some(i) => r == Some(&self@[i]),
                None => r is None,
            },
    {
        match self.pick_index(opts) {
            Some(i) => Some(&self.models[i]),
            None => None,
        }
    }
}

impl Default for Catalog {
    fn default() -> (r: Self)
        ensures
            r@ == Seq::<ModelInfo>::empty(),
            r.folder() is None,
    {
        Catalog::new()
    }
}

/// A picked model as it is explained, with its numbers as text.
#[derive(Debug)]
pub struct PickedText {
    pub id: String,
    /// The score, with one decimal.
    pub score: String,
    /// The blended cost per token, with four decimals.
    pub cost: String,
    pub context_window: u32,
}

/// Why a model was picked, or that none was.
pub open spec fn explanation(p: Option<PickedText>, s: Strategy, total: nat) -> Seq<char> {
    match p {
        Some(m) => "picked '"@ + m.id@ + "' (score "@ + m.score@ + ", ~$"@ + m.cost@
            + "/tok, ctx "@ + crate::text::decimal(m.context_window as nat) + ") via "@
            + strategy_label(s) + " from "@ + crate::text::decimal(total) + " candidates"@,
        None => "no model satisfied "@ + strategy_label(s) + " among "@ + crate::text::decimal(
            total,
        ) + " candidates"@,
    }
}

/// Why a model was picked, or that none was.
pub fn explain_pick(p: &Option<PickedText>, strategy: Strategy, total: usize) -> (r: String)
    ensures
        r@ == explanation(*p, strategy, total as nat),
{
    let n: String = decimal_text(total as u64);
    match p {
        Some(m) => {
            let mut out: String = cat("picked '", &m.id);
            out.append("' (score ");
            out.append(m.score.as_str());
            out.append(", ~$");
            out.append(m.cost.as_str());
            out.append("/tok, ctx ");
            out.append(decimal_text(m.context_window as u64).as_str());
            out.append(") via ");
            out.append(strategy.label());
            out.append(" from ");
            out.append(n.as_str());
            out.append(" candidates");
            out
        },
        None => {
            let mut out: String = cat("no model satisfied ", strategy.label());
            out.append(" among ");
            out.append(n.as_str());
            out.append(" candidates");
            out
        },
    }
}

// ---- laws --------------------------------------------------------------------------

/// All numbers of a model compare.
pub open spec fn comparable(m: ModelInfo) -> bool {
    m.score is Some && m.cost is Some && m.value is Some
}

/// A picked model satisfies the constraints, and there is one exactly when some
/// model does.
pub proof fn picks_satisfy(models: Seq<ModelInfo>, o: PickOptions, k: int)
    requires
        0 <= k <= models.len(),
    ensures
        picked(models, o, k) matches Some(i) ==> 0 <= i < k && satisfies(models[i], o),
        picked(models, o, k) is None <==> forall|j: int|
            0 <= j < k ==> !satisfies(#[trigger] models[j], o),
    decreases k,
{
    if k > 0 {
        picks_satisfy(models, o, k - 1);
        if picked(models, o, k) is None {
            assert forall|j: int| 0 <= j < k implies !satisfies(#[trigger] models[j], o) by {}
        }
        if forall|j: int| 0 <= j < k ==> !satisfies(#[trigger] models[j], o) {
            assert(!satisfies(models[k - 1], o));
        }
    }
}

/// No candidate is better than the picked model: none scores higher under the two
/// score strategies, none is cheaper under the cost strategy, and none has more
/// score per cost under the value strategy.
pub proof fn picks_are_best(models: Seq<ModelInfo>, o: PickOptions, k: int, j: int)
    requires
        0 <= j < k <= models.len(),
        satisfies(models[j], o),
        forall|i: int| 0 <= i < models.len() ==> comparable(#[trigger] models[i]),
    ensures
        picked(models, o, k) matches Some(i) && match o.strategy {
            Strategy::BestScore | Strategy::BestScoreUnderBudget => models[j].score->Some_0
                <= models[i].score->Some_0,
            Strategy::CheapestAboveFloor => models[i].cost->Some_0 <= models[j].cost->Some_0,
            Strategy::BestValue => models[j].value->Some_0 <= models[i].value->Some_0,
        },
    decreases k,
{
    picks_satisfy(models, o, k);
    picks_satisfy(models, o, k - 1);
    assert(comparable(models[k - 1]));
    if let Some(i) = picked(models, o, k) {
        assert(comparable(models[i]));
    }
    if let Some(i) = picked(models, o, k - 1) {
        assert(comparable(models[i]));
    }
    assert(comparable(models[j]));
    if j < k - 1 {
        picks_are_best(models, o, k - 1, j);
    }
}

/// A strategy is named in any case and with white space around it; any other name is that of
/// the best score.
pub proof fn strategies_are_named(s: &str, r: Strategy, n: Seq<char>)
    requires
        call_ensures(Strategy::parse, (s,), r),
        n == crate::text::ascii_lowered(crate::text::trimmed(s@)),
    ensures
        r == Strategy::BestScoreUnderBudget <==> n == "best_score_under_budget"@,
        r == Strategy::CheapestAboveFloor <==> n == "cheapest_above_floor"@,
        r == Strategy::BestValue <==> n == "best_value"@,
{
    reveal_strlit("best_score_under_budget");
    reveal_strlit("cheapest_above_floor");
    reveal_strlit("best_value");
    assert("best_score_under_budget"@.len() == 23 && "cheapest_above_floor"@.len() == 20
        && "best_value"@.len() == 10);
}

/// Whether a model whose numbers compare keeps the limits: its score is not below the least,
/// its cost is not above the most, and its context is not smaller than asked for.
pub open spec fn within_limits(m: ModelInfo, o: PickOptions) -> bool {
    &&& o.min_score matches Some(s) ==> m.score->Some_0 >= s
    &&& o.max_cost_per_token matches Some(c) ==> m.cost->Some_0 <= c
    &&& o.min_context_window matches Some(w) ==> m.context_window >= w
}

/// Whether `a` at `i` is to be used before `b` at `j`: by the higher score, the lower cost or
/// the higher value, as the strategy says. Of equals the last is used, but the first of those
/// that cost the same.
pub open spec fn used_before(s: Strategy, a: ModelInfo, i: int, b: ModelInfo, j: int) -> bool {
    match s {
        Strategy::CheapestAboveFloor => a.cost->Some_0 < b.cost->Some_0 || (a.cost->Some_0
            == b.cost->Some_0 && i <= j),
        Strategy::BestValue => a.value->Some_0 > b.value->Some_0 || (a.value->Some_0
            == b.value->Some_0 && i >= j),
        _ => a.score->Some_0 > b.score->Some_0 || (a.score->Some_0 == b.score->Some_0 && i >= j),
    }
}

/// The model that is picked keeps the limits, and every other that keeps them comes after it by
/// the strategy. None is picked exactly when none keeps the limits.
pub proof fn picks_follow_the_strategy(c: &Catalog, o: &PickOptions, r: Option<usize>, j: int)
    requires
        call_ensures(Catalog::pick_index, (c, o), r),
        forall|i: int| 0 <= i < c@.len() ==> comparable(#[trigger] c@[i]),
        0 <= j < c@.len(),
    ensures
        r matches Some(i) ==> i < c@.len() && within_limits(c@[i as int], *o),
        within_limits(c@[j], *o) ==> (r matches Some(i) && used_before(
            o.strategy,
            c@[i as int],
            i as int,
            c@[j],
            j,
        )),
{
    let n = c@.len() as int;
    picks_satisfy(c@, *o, n);
    assert(comparable(c@[j]));
    if let Some(i) = r {
        assert(comparable(c@[i as int]));
    }
    if within_limits(c@[j], *o) {
        lemma_used(c@, *o, n, j);
    }
}

proof fn lemma_used(models: Seq<ModelInfo>, o: PickOptions, k: int, j: int)
    requires
        0 <= j < k <= models.len(),
        satisfies(models[j], o),
        forall|i: int| 0 <= i < models.len() ==> comparable(#[trigger] models[i]),
    ensures
        picked(models, o, k) matches Some(i) && 0 <= i < k && used_before(
            o.strategy,
            models[i],
            i,
            models[j],
            j,
        ),
    decreases k,
{
    picks_satisfy(models, o, k);
    picks_satisfy(models, o, k - 1);
    assert(comparable(models[k - 1]));
    assert(comparable(models[j]));
    if let Some(i) = picked(models, o, k - 1) {
        assert(comparable(models[i]));
    }
    if j < k - 1 {
        lemma_used(models, o, k - 1, j);
    }
}

/// A model is found by its id, the first that has it.
pub proof fn models_are_found_by_id(c: &Catalog, id: &str, r: Option<&ModelInfo>, i: int)
    requires
        call_ensures(Catalog::get, (c, id), r),
    ensures
        0 <= i < c@.len() && c@[i].id@ == id@ && (forall|j: int|
            0 <= j < i ==> (#[trigger] c@[j]).id@ != id@) ==> r == Some(&c@[i]),
        (forall|j: int| 0 <= j < c@.len() ==> (#[trigger] c@[j]).id@ != id@) ==> r is None,
{
    lemma_index_of(c@, id@, 0, i);
}

proof fn lemma_index_of(v: Seq<ModelInfo>, id: Seq<char>, from: int, i: int)
    requires
        0 <= from,
    ensures
        from <= i < v.len() && v[i].id@ == id && (forall|j: int|
            from <= j < i ==> (#[trigger] v[j]).id@ != id) ==> index_of(v, id, from) == Some(i),
        (forall|j: int| from <= j < v.len() ==> (#[trigger] v[j]).id@ != id) ==> index_of(
            v,
            id,
            from,
        ) is None,
    decreases v.len() - from,
{
    if from < v.len() {
        lemma_index_of(v, id, from + 1, i);
    }
}

/// The models that can be used are those with an id that is not blank.
pub proof fn usable_models_have_ids(models: Seq<ModelInfo>, m: ModelInfo)
    ensures
        usable(models).contains(m) <==> models.contains(m) && crate::text::trimmed(m.id@).len() > 0,
{
    crate::seqs::lemma_filter_members(
        models,
        |m: ModelInfo| crate::text::trimmed(m.id@).len() > 0,
        m,
    );
}

/// What is told of a pick: the model with its numbers, the strategy and how many models there
/// were, or that none would do.
pub proof fn picks_are_explained(
    p: &Option<PickedText>,
    strategy: Strategy,
    total: usize,
    r: String,
    label: &str,
)
    requires
        call_ensures(explain_pick, (p, strategy, total), r),
        call_ensures(Strategy::label, (&strategy,), label),
    ensures
        match *p {
            Some(m) => r@ == "picked '"@ + m.id@ + "' (score "@ + m.score@ + ", ~$"@ + m.cost@
                + "/tok, ctx "@ + crate::text::decimal(m.context_window as nat) + ") via "@ + label@
                + " from "@ + crate::text::decimal(total as nat) + " candidates"@,
            None => r@ == "no model satisfied "@ + label@ + " among "@ + crate::text::decimal(
                total as nat,
            ) + " candidates"@,
        },
        strategy == Strategy::BestScore ==> label@ == "BestScore"@,
        strategy == Strategy::BestScoreUnderBudget ==> label@ == "BestScoreUnderBudget"@,
        strategy == Strategy::CheapestAboveFloor ==> label@ == "CheapestAboveFloor"@,
        strategy == Strategy::BestValue ==> label@ == "BestValue"@,
{
}

/// A reload takes the usable models in their order and no others, and counts them.
pub proof fn reloads_take_the_usable(c: &mut Catalog, models: Vec<ModelInfo>, r: usize, m: ModelInfo)
    requires
        call_ensures(Catalog::reload, (c, models), r),
    ensures
        r == final(c)@.len(),
        final(c)@.contains(m) <==> models@.contains(m) && crate::text::trimmed(m.id@).len() > 0,
        final(c).folder() == old(c).folder(),
{
    usable_models_have_ids(models@, m);
}

/// The files of a catalog are those that end in `yaml` or `yml`.
pub proof fn catalogs_are_in_yaml_files(ext: Option<&str>, r: bool)
    requires
        call_ensures(is_catalog_extension, (ext,), r),
    ensures
        r <==> (ext matches Some(e) && (e@ == "yaml"@ || e@ == "yml"@)),
{
}

} // verus!
